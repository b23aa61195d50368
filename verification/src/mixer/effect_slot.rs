//! A place in a track's chain of effects.

use crate::mixer::effect::{Effect, EffectSettings};
use vstd::prelude::*;

verus! {

/// One effect on a track, and whether it is switched on.
pub struct EffectSlot<E> {
    /// The effect.
    pub effect: E,
    /// Whether the effect works on what passes; if not, it passes unchanged.
    pub enabled: bool,
}

impl<E: Effect> EffectSlot<E> {
    /// What the slot makes of `input`: what its effect makes of it where the
    /// slot is enabled, the input itself where it is not.
    pub open spec fn output(self, sample_rate: u32, input: E::Frame, parameters: &E::Parameters) -> E::Frame {
        if self.enabled {
            self.effect.output(sample_rate, input, parameters)
        } else {
            input
        }
    }

    /// The slot after it has worked on `input`: a disabled slot stays as it
    /// is.
    pub open spec fn after(self, sample_rate: u32, input: E::Frame, parameters: &E::Parameters) -> Self {
        if self.enabled {
            EffectSlot { effect: self.effect.after(sample_rate, input, parameters), enabled: true }
        } else {
            self
        }
    }

    /// A slot for `effect`.
    pub fn new(effect: E, settings: EffectSettings) -> (slot: Self)
        ensures
            slot == (EffectSlot { effect, enabled: settings.enabled }),
    {
        EffectSlot { effect, enabled: settings.enabled }
    }

    /// Sends one frame through the slot.
    pub fn process(&mut self, sample_rate: u32, input: E::Frame, parameters: &E::Parameters) -> (out:
        E::Frame)
        ensures
            out == old(self).output(sample_rate, input, parameters),
            *final(self) == old(self).after(sample_rate, input, parameters),
    {
        if self.enabled {
            self.effect.process(sample_rate, input, parameters)
        } else {
            input
        }
    }
}

} // verus!
