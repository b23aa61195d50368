//! Sounds: sample buffers that can be read at any point in time.

use crate::signal::{PcmFrame, Signal};
use vstd::arithmetic::div_mod::{
    lemma_fundamental_div_mod, lemma_fundamental_div_mod_converse,
};
use vstd::prelude::*;

verus! {

/// The frame at `index`, or silence outside the buffer.
pub open spec fn sample_or_silence<F: Signal>(frames: Seq<F>, index: int) -> F {
    if 0 <= index < frames.len() {
        frames[index]
    } else {
        F::silent()
    }
}

/// The cubic through four neighbouring frames (Catmull-Rom), read at the
/// fraction `numerator / denominator` of the way from `y1` to `y2`.
pub open spec fn catmull_rom<F: Signal>(y0: F, y1: F, y2: F, y3: F, numerator: i64, denominator: u64) -> F {
    let c0 = y1;
    let c1 = y2.mixed(y0.scaled(-1i64, 1)).scaled(1, 2);
    let c2 = y0.mixed(y1.scaled(-5i64, 2)).mixed(y2.scaled(2, 1)).mixed(y3.scaled(-1i64, 2));
    let c3 = y3.mixed(y0.scaled(-1i64, 1)).scaled(1, 2).mixed(y1.mixed(y2.scaled(-1i64, 1)).scaled(3, 2));
    c3.scaled(numerator, denominator).mixed(c2).scaled(numerator, denominator).mixed(c1).scaled(
        numerator,
        denominator,
    ).mixed(c0)
}

/// The frame of a buffer played at `rate` frames per second, at the time
/// `numerator / denominator` seconds. The time falls on the sample position
/// `rate * numerator / denominator`. On a whole position the frame there is
/// the answer; between two positions the cubic through the four frames around
/// it is read at the fractional part. Frames outside the buffer count as
/// silence, and so does a time without a denominator.
pub open spec fn frame_at<F: Signal>(frames: Seq<F>, rate: u32, numerator: int, denominator: int) -> F {
    if denominator <= 0 {
        F::silent()
    } else {
        let index = (rate * numerator) / denominator;
        let rest = (rate * numerator) % denominator;
        if rest == 0 {
            sample_or_silence(frames, index)
        } else {
            catmull_rom(
                sample_or_silence(frames, index - 1),
                sample_or_silence(frames, index),
                sample_or_silence(frames, index + 1),
                sample_or_silence(frames, index + 2),
                rest as i64,
                denominator as u64,
            )
        }
    }
}

/// A time that falls on the position of a frame of the buffer gives that
/// frame, untouched by its neighbours.
pub proof fn lemma_frame_on_grid<F: Signal>(frames: Seq<F>, rate: u32, index: int)
    requires
        rate > 0,
        0 <= index < frames.len(),
    ensures
        frame_at(frames, rate, index, rate as int) == frames[index],
{
    assert(rate * index == index * rate + 0) by (nonlinear_arith);
    lemma_fundamental_div_mod_converse(rate * index, rate as int, index, 0);
}

/// A time that falls on a whole position outside the buffer, before its start
/// or behind its end, gives silence.
pub proof fn lemma_silence_outside<F: Signal>(frames: Seq<F>, rate: u32, index: int)
    requires
        rate > 0,
        index < 0 || index >= frames.len(),
    ensures
        frame_at(frames, rate, index, rate as int) == F::silent(),
{
    assert(rate * index == index * rate + 0) by (nonlinear_arith);
    lemma_fundamental_div_mod_converse(rate * index, rate as int, index, 0);
}

/// With whole-number amplitudes, a time at which all four frames around the
/// sample position lie outside the buffer gives silence, on a whole position
/// or between two.
pub proof fn lemma_silence_far_outside(frames: Seq<PcmFrame>, rate: u32, numerator: int, denominator: int)
    requires
        denominator > 0,
        (rate * numerator) / denominator + 2 < 0 || (rate * numerator) / denominator - 1 >= frames.len(),
    ensures
        frame_at(frames, rate, numerator, denominator) == PcmFrame::silent(),
{
    let quiet = PcmFrame::silent();
    assert forall|n: int, d: int| #[trigger] crate::signal::ratio_of(0, n, d) == 0 by {
        if d > 0 {
            assert(0 * n == 0) by (nonlinear_arith);
            assert(0int / d == 0);
        }
    }
    assert forall|n: i64, d: u64| #[trigger] quiet.scaled(n, d) == quiet by {}
    assert(quiet.mixed(quiet) == quiet);
}

/// The cubic through four frames, read at a fraction.
pub fn interpolate<F: Signal>(y0: F, y1: F, y2: F, y3: F, numerator: i64, denominator: u64) -> (frame: F)
    ensures
        frame == catmull_rom(y0, y1, y2, y3, numerator, denominator),
{
    let c0 = y1;
    let c1 = y2.mix(y0.scale(-1, 1)).scale(1, 2);
    let c2 = y0.mix(y1.scale(-5, 2)).mix(y2.scale(2, 1)).mix(y3.scale(-1, 2));
    let c3 = y3.mix(y0.scale(-1, 1)).scale(1, 2).mix(y1.mix(y2.scale(-1, 1)).scale(3, 2));
    c3.scale(numerator, denominator).mix(c2).scale(numerator, denominator).mix(c1).scale(
        numerator,
        denominator,
    ).mix(c0)
}

/// What a block of decoded channels holds as left and right amplitudes: one
/// channel counts for both sides, two channels of equal length are left and
/// right. Anything else is no stereo audio.
pub open spec fn paired<S>(channels: Seq<Seq<S>>) -> Option<Seq<(S, S)>> {
    if channels.len() == 1 {
        Some(Seq::new(channels[0].len(), |i: int| (channels[0][i], channels[0][i])))
    } else if channels.len() == 2 && channels[0].len() == channels[1].len() {
        Some(Seq::new(channels[0].len(), |i: int| (channels[0][i], channels[1][i])))
    } else {
        None
    }
}

/// The amplitudes of each of `channels`.
pub open spec fn channel_views<S>(channels: Seq<Vec<S>>) -> Seq<Seq<S>> {
    Seq::new(channels.len(), |c: int| channels[c]@)
}

/// Pairs the amplitudes of a block of decoded channels into left and right.
/// `None` comes back for a block that is neither mono nor stereo.
pub fn stereo_pairs<S: Copy>(channels: &Vec<Vec<S>>) -> (pairs: Option<Vec<(S, S)>>)
    ensures
        match pairs {
            Some(found) => paired(channel_views(channels@)) == Some(found@),
            None => paired(channel_views(channels@)).is_none(),
        },
{
    if channels.len() == 1 {
        let mono = &channels[0];
        let mut pairs: Vec<(S, S)> = Vec::with_capacity(mono.len());
        let mut i: usize = 0;
        while i < mono.len()
            invariant
                i <= mono.len(),
                pairs@.len() == i,
                forall|j: int| 0 <= j < i ==> #[trigger] pairs@[j] == (mono@[j], mono@[j]),
            decreases mono.len() - i,
        {
            pairs.push((mono[i], mono[i]));
            i += 1;
        }
        proof {
            assert(pairs@ =~= paired(channel_views(channels@)).unwrap());
        }
        Some(pairs)
    } else if channels.len() == 2 && channels[0].len() == channels[1].len() {
        let left = &channels[0];
        let right = &channels[1];
        let mut pairs: Vec<(S, S)> = Vec::with_capacity(left.len());
        let mut i: usize = 0;
        while i < left.len()
            invariant
                i <= left.len(),
                left.len() == right.len(),
                pairs@.len() == i,
                forall|j: int| 0 <= j < i ==> #[trigger] pairs@[j] == (left@[j], right@[j]),
            decreases left.len() - i,
        {
            pairs.push((left[i], right[i]));
            i += 1;
        }
        proof {
            assert(pairs@ =~= paired(channel_views(channels@)).unwrap());
        }
        Some(pairs)
    } else {
        None
    }
}

/// Decoded audio: a buffer of frames and the rate at which it plays. A sound
/// does not change once it is made.
pub struct Sound<F> {
    frames: Vec<F>,
    sample_rate: u32,
}

impl<F: Signal> Sound<F> {
    /// The frames of the sound.
    pub closed spec fn frames(&self) -> Seq<F> {
        self.frames@
    }

    /// The number of frames per second.
    pub closed spec fn rate(&self) -> u32 {
        self.sample_rate
    }

    /// Creates a new sound from raw sample data.
    pub fn from_frames(sample_rate: u32, frames: Vec<F>) -> (sound: Self)
        ensures
            sound.frames() == frames@,
            sound.rate() == sample_rate,
    {
        Sound { frames, sample_rate }
    }

    /// The number of frames per second.
    pub fn sample_rate(&self) -> (rate: u32)
        ensures
            rate == self.rate(),
    {
        self.sample_rate
    }

    /// The number of frames.
    pub fn len(&self) -> (len: usize)
        ensures
            len == self.frames().len(),
    {
        self.frames.len()
    }

    /// The frame at a position, or silence behind the end.
    fn sample(&self, index: u128) -> (frame: F)
        ensures
            frame == sample_or_silence(self.frames(), index as int),
    {
        if index < self.frames.len() as u128 {
            self.frames[index as usize]
        } else {
            F::silence()
        }
    }

    /// Gets the frame of this sound at the time `numerator / denominator`
    /// seconds, interpolating between samples if necessary.
    pub fn frame_at_position(&self, numerator: i64, denominator: u32) -> (frame: F)
        ensures
            frame == frame_at(self.frames(), self.rate(), numerator as int, denominator as int),
    {
        if denominator == 0 {
            return F::silence();
        }
        let rate = self.sample_rate as u128;
        let den = denominator as u128;
        if numerator >= 0 {
            assert(rate * numerator <= 0x1_0000_0000 * 0x8000_0000_0000_0000) by (nonlinear_arith)
                requires
                    rate <= 0x1_0000_0000,
                    0 <= numerator <= 0x8000_0000_0000_0000,
            ;
            let scaled: u128 = rate * (numerator as u128);
            let index = scaled / den;
            let rest = scaled % den;
            if rest == 0 {
                return self.sample(index);
            }
            let y0 = if index == 0 {
                F::silence()
            } else {
                self.sample(index - 1)
            };
            let y1 = self.sample(index);
            let y2 = self.sample(index + 1);
            let y3 = self.sample(index + 2);
            interpolate(y0, y1, y2, y3, rest as i64, denominator as u64)
        } else {
            let back: u128 = (-(numerator as i128)) as u128;
            assert(rate * back <= 0x1_0000_0000 * 0x8000_0000_0000_0000) by (nonlinear_arith)
                requires
                    rate <= 0x1_0000_0000,
                    0 <= back <= 0x8000_0000_0000_0000,
            ;
            let size: u128 = rate * back;
            assert(rate * numerator == -(size as int)) by (nonlinear_arith)
                requires
                    size == rate * back,
                    back == -(numerator as int),
            ;
            if size == 0 {
                return self.sample(0);
            }
            let up = (size + den - 1) / den;
            proof {
                lemma_fundamental_div_mod((size + den - 1) as int, den as int);
                assert(0 <= ((size + den - 1) as int) % (den as int) < den);
                assert(den * up == up * den) by (nonlinear_arith);
            }
            let rest = up * den - size;
            proof {
                assert(-(size as int) == (-(up as int)) * den + rest) by (nonlinear_arith)
                    requires
                        rest == up * den - size,
                ;
                lemma_fundamental_div_mod_converse(-(size as int), den as int, -(up as int), rest as int);
                assert(up >= 1);
            }
            if rest == 0 {
                return F::silence();
            }
            let y0 = F::silence();
            let y1 = F::silence();
            let y2 = if up == 1 {
                self.sample(0)
            } else {
                F::silence()
            };
            let y3 = if up == 1 {
                self.sample(1)
            } else if up == 2 {
                self.sample(0)
            } else {
                F::silence()
            };
            interpolate(y0, y1, y2, y3, rest as i64, denominator as u64)
        }
    }
}

} // verus!
