//! Effects: the stages through which a track sends its signal.

use crate::ident::IdAllocator;
use crate::mixer::track::id::TrackId;
use crate::signal::Signal;
use vstd::prelude::*;

verus! {

/// A unique identifier for an effect.
#[derive(Debug, Copy, Clone, Eq, PartialEq, Hash, Structural)]
pub struct EffectId {
    index: usize,
    track_id: TrackId,
}

impl EffectId {
    /// The index that tells this effect from all others.
    pub closed spec fn key(self) -> usize {
        self.index
    }

    /// The track that the effect was made for.
    pub closed spec fn track(self) -> TrackId {
        self.track_id
    }

    /// A fresh identifier for an effect on `track_id`, or `None` once the
    /// allocator has none left.
    pub fn new(track_id: TrackId, allocator: &mut IdAllocator) -> (id: Option<Self>)
        ensures
            match id {
                Some(id) => {
                    &&& id.key() == old(allocator).issued()
                    &&& id.track() == track_id
                    &&& final(allocator).issued() == old(allocator).issued() + 1
                },
                None => old(allocator).issued() == usize::MAX && final(allocator).issued() == old(
                    allocator,
                ).issued(),
            },
    {
        match allocator.next() {
            Some(index) => Some(EffectId { index, track_id }),
            None => None,
        }
    }

    /// The index that tells this effect from all others.
    pub fn index(&self) -> (index: usize)
        ensures
            index == self.key(),
    {
        self.index
    }

    /// Gets the mixer track that this effect applies to.
    pub fn track_id(&self) -> (track_id: TrackId)
        ensures
            track_id == self.track(),
    {
        self.track_id
    }
}

/// Settings for an effect.
#[derive(Debug, Clone, Copy, PartialEq, Eq, Structural)]
pub struct EffectSettings {
    /// Whether the effect is initially enabled.
    pub enabled: bool,
}

impl Default for EffectSettings {
    fn default() -> (settings: Self)
        ensures
            settings.enabled,
    {
        EffectSettings { enabled: true }
    }
}

/// A stage that turns one frame into another and may keep state of its own
/// between frames. `output` and `after` name what one step yields and what
/// the stage is afterwards; `process` takes that step. What is proved of
/// tracks and of the mixer holds for stages whose `process` does what the two
/// say. Nothing calls `output` and `after` when the program runs.
pub trait Effect: Sized {
    /// The frames that the stage works on.
    type Frame: Signal;

    /// The values that automation hands to every stage on every tick.
    type Parameters;

    /// The frame that the stage makes of `input` at `sample_rate` ticks per
    /// second.
    spec fn output(&self, sample_rate: u32, input: Self::Frame, parameters: &Self::Parameters) -> Self::Frame;

    /// The stage after it has worked on `input`.
    spec fn after(&self, sample_rate: u32, input: Self::Frame, parameters: &Self::Parameters) -> Self;

    /// Works on one frame: one tick of `1 / sample_rate` seconds passes.
    fn process(&mut self, sample_rate: u32, input: Self::Frame, parameters: &Self::Parameters) -> (out:
        Self::Frame)
        ensures
            out == old(self).output(sample_rate, input, parameters),
            *final(self) == old(self).after(sample_rate, input, parameters),
    ;
}

} // verus!
