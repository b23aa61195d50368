//! Keeps the kinds of track reference to those that this crate defines.

use vstd::prelude::*;

verus! {

/// Implemented by the kinds of track reference of this crate, and by nothing
/// else.
pub trait Sealed {

}

} // verus!
