//! Small helpers: random whole numbers and sets built from vectors.

use crate::group::set::with;
use crate::ordered::{index_set_insert, index_set_keys, index_set_new};
use indexmap::IndexSet;
use nanorand::{WyRand, RNG};
use vstd::prelude::*;

verus! {

/// `nanorand::WyRand`, taken as it is: nothing inside it is visible here.
#[verifier::external_type_specification]
#[verifier::external_body]
pub struct ExWyRand(WyRand);

/// `RNG::generate_range` for `u16` on a `WyRand`, from zero: a number below
/// `upper`. The crate divides by `upper`, so zero is left out.
#[verifier::external_body]
fn roll_below(rng: &mut WyRand, upper: u16) -> (roll: u16)
    requires
        upper > 0,
    ensures
        roll < upper,
{
    rng.generate_range(0u16, upper)
}

/// The distance between two numbers, cut to its lowest 16 bits.
pub open spec fn span(lower: i32, upper: i32) -> int {
    (if upper >= lower {
        upper - lower
    } else {
        lower - upper
    }) % 0x1_0000
}

/// The number that lies `roll` steps from `lower` in the direction of
/// `upper`.
pub open spec fn stepped(lower: i32, upper: i32, roll: int) -> int {
    if upper >= lower {
        lower + roll
    } else {
        lower - roll
    }
}

/// The number that lies `roll` steps from `lower` in the direction of
/// `upper`, for a roll within the span of the two.
pub fn random_i32_from(lower: i32, upper: i32, roll: u16) -> (value: i32)
    requires
        roll <= span(lower, upper),
    ensures
        value == stepped(lower, upper, roll as int),
{
    if upper >= lower {
        (lower as i64 + roll as i64) as i32
    } else {
        (lower as i64 - roll as i64) as i32
    }
}

/// A random number between `lower` and `upper`: it lies fewer steps from
/// `lower` than the span of the two, in the direction of `upper`. Where the
/// span is zero it is `lower`.
pub fn random_i32(lower: i32, upper: i32, rng: &mut WyRand) -> (value: i32)
    ensures
        exists|roll: int|
            0 <= roll && (roll < span(lower, upper) || roll == 0) && value == #[trigger] stepped(
                lower,
                upper,
                roll,
            ),
{
    let distance: i64 = if upper >= lower {
        upper as i64 - lower as i64
    } else {
        lower as i64 - upper as i64
    };
    let range: u16 = (distance % 0x1_0000) as u16;
    if range == 0 {
        assert(lower == stepped(lower, upper, 0));
        lower
    } else {
        let roll = roll_below(rng, range);
        let value = random_i32_from(lower, upper, roll);
        assert(value == stepped(lower, upper, roll as int));
        value
    }
}

/// The first `count` of `items` in order, each once.
pub open spec fn distinct(items: Seq<usize>, count: nat) -> Seq<usize>
    decreases count,
{
    if count == 0 {
        Seq::empty()
    } else {
        with(distinct(items, (count - 1) as nat), items[count - 1])
    }
}

/// The set of the items of a vector, in the order in which they first occur.
pub fn index_set_from_vec(v: Vec<usize>) -> (set: IndexSet<usize>)
    ensures
        index_set_keys(set) == distinct(v@, v@.len()),
{
    let mut set = index_set_new();
    let mut i: usize = 0;
    while i < v.len()
        invariant
            i <= v.len(),
            index_set_keys(set) == distinct(v@, i as nat),
        decreases v.len() - i,
    {
        let _ = index_set_insert(&mut set, v[i]);
        i += 1;
    }
    set
}

} // verus!
