//! Keeps the kinds of group reference to those that this crate defines.

use vstd::prelude::*;

verus! {

/// Implemented by the kinds of group reference of this crate, and by nothing
/// else.
pub trait Sealed {

}

} // verus!
