//! Amplitudes. The engine adds frames and scales them, and leaves to the
//! frame type what a sum and a scaled frame are.

use vstd::prelude::*;

verus! {

/// A factor as an exact ratio. A denominator of zero makes no factor; what a
/// frame scaled by it is, the frame type says.
#[derive(Debug, Copy, Clone, PartialEq, Eq, Structural)]
pub struct Gain {
    /// What the frame is multiplied by.
    pub numerator: i64,
    /// What the product is divided by.
    pub denominator: u64,
}

impl Gain {
    /// The factor one.
    pub open spec fn unity_spec() -> Gain {
        Gain { numerator: 1, denominator: 1 }
    }

    /// The factor one.
    pub fn unity() -> (gain: Self)
        ensures
            gain == Gain::unity_spec(),
    {
        Gain { numerator: 1, denominator: 1 }
    }

    /// The factor `numerator / denominator`.
    pub fn new(numerator: i64, denominator: u64) -> (gain: Self)
        ensures
            gain == (Gain { numerator, denominator }),
    {
        Gain { numerator, denominator }
    }
}

/// One sample frame with the arithmetic that mixing needs. The three
/// specification functions name what the operations yield; an implementation
/// proves that its operations yield just that. An implementation outside
/// verified code gives each specification function the meaning of its
/// operation; nothing calls them when the program runs.
pub trait Signal: Sized + Copy {
    /// The frame without amplitude.
    spec fn silent() -> Self;

    /// The sum of two frames.
    spec fn mixed(self, other: Self) -> Self;

    /// The frame times `numerator / denominator`.
    spec fn scaled(self, numerator: i64, denominator: u64) -> Self;

    /// The frame without amplitude.
    fn silence() -> (frame: Self)
        ensures
            frame == Self::silent(),
    ;

    /// The sum of two frames.
    fn mix(self, other: Self) -> (sum: Self)
        ensures
            sum == self.mixed(other),
    ;

    /// The frame times `numerator / denominator`.
    fn scale(self, numerator: i64, denominator: u64) -> (scaled: Self)
        ensures
            scaled == self.scaled(numerator, denominator),
    ;
}

/// The nearest amplitude that a channel of a [`PcmFrame`] can hold.
pub open spec fn clipped(amplitude: int) -> i32 {
    if amplitude > i32::MAX {
        i32::MAX
    } else if amplitude < i32::MIN {
        i32::MIN
    } else {
        amplitude as i32
    }
}

/// `amplitude * numerator / denominator`, rounded toward zero; zero where the
/// denominator is zero.
pub open spec fn ratio_of(amplitude: int, numerator: int, denominator: int) -> int {
    if denominator <= 0 {
        0
    } else if amplitude * numerator >= 0 {
        (amplitude * numerator) / denominator
    } else {
        -((-(amplitude * numerator)) / denominator)
    }
}

/// A stereo frame of signed 32-bit amplitudes. Sums and products that leave
/// the range are clipped to it.
#[derive(Debug, Copy, Clone, PartialEq, Eq, Structural)]
pub struct PcmFrame {
    /// The amplitude on the left.
    pub left: i32,
    /// The amplitude on the right.
    pub right: i32,
}

/// The sum of two amplitudes, clipped.
fn clipped_sum(a: i32, b: i32) -> (sum: i32)
    ensures
        sum == clipped(a + b),
{
    let wide: i64 = a as i64 + b as i64;
    if wide > i32::MAX as i64 {
        i32::MAX
    } else if wide < i32::MIN as i64 {
        i32::MIN
    } else {
        wide as i32
    }
}

/// The size of a number.
fn magnitude(value: i64) -> (size: u128)
    ensures
        size == if value < 0 {
            -(value as int)
        } else {
            value as int
        },
{
    if value < 0 {
        (-(value as i128)) as u128
    } else {
        value as u128
    }
}

/// An amplitude times a ratio, rounded toward zero and clipped.
fn clipped_ratio(amplitude: i32, numerator: i64, denominator: u64) -> (scaled: i32)
    ensures
        scaled == clipped(ratio_of(amplitude as int, numerator as int, denominator as int)),
{
    if denominator == 0 {
        return 0;
    }
    let a = magnitude(amplitude as i64);
    let n = magnitude(numerator);
    assert(a * n <= 0x8000_0000 * 0x8000_0000_0000_0000) by (nonlinear_arith)
        requires
            a <= 0x8000_0000,
            n <= 0x8000_0000_0000_0000,
    ;
    let product: u128 = a * n;
    let quotient: u128 = product / (denominator as u128);
    let negative = (amplitude < 0) != (numerator < 0);
    proof {
        let exact = amplitude as int * numerator as int;
        assert(exact == if negative {
            -(product as int)
        } else {
            product as int
        }) by (nonlinear_arith)
            requires
                product == a * n,
                a == if amplitude < 0 {
                    -(amplitude as int)
                } else {
                    amplitude as int
                },
                n == if numerator < 0 {
                    -(numerator as int)
                } else {
                    numerator as int
                },
                negative == ((amplitude < 0) != (numerator < 0)),
                exact == amplitude as int * numerator as int,
        ;
        assert(0int / (denominator as int) == 0);
    }
    if negative {
        if quotient > 0x8000_0000 {
            i32::MIN
        } else {
            (-(quotient as i64)) as i32
        }
    } else {
        if quotient > i32::MAX as u128 {
            i32::MAX
        } else {
            quotient as i32
        }
    }
}

impl Signal for PcmFrame {
    open spec fn silent() -> Self {
        PcmFrame { left: 0, right: 0 }
    }

    open spec fn mixed(self, other: Self) -> Self {
        PcmFrame { left: clipped(self.left + other.left), right: clipped(self.right + other.right) }
    }

    open spec fn scaled(self, numerator: i64, denominator: u64) -> Self {
        PcmFrame {
            left: clipped(ratio_of(self.left as int, numerator as int, denominator as int)),
            right: clipped(ratio_of(self.right as int, numerator as int, denominator as int)),
        }
    }

    fn silence() -> (frame: Self) {
        PcmFrame { left: 0, right: 0 }
    }

    fn mix(self, other: Self) -> (sum: Self) {
        PcmFrame { left: clipped_sum(self.left, other.left), right: clipped_sum(self.right, other.right) }
    }

    fn scale(self, numerator: i64, denominator: u64) -> (scaled: Self) {
        PcmFrame {
            left: clipped_ratio(self.left, numerator, denominator),
            right: clipped_ratio(self.right, numerator, denominator),
        }
    }
}

impl PcmFrame {
    /// A frame from the amplitudes of its two channels.
    pub fn new(left: i32, right: i32) -> (frame: Self)
        ensures
            frame.left == left,
            frame.right == right,
    {
        PcmFrame { left, right }
    }

    /// A frame with one amplitude on both channels.
    pub fn from_mono(value: i32) -> (frame: Self)
        ensures
            frame.left == value,
            frame.right == value,
    {
        PcmFrame { left: value, right: value }
    }
}

} // verus!
