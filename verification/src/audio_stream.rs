//! Streams: sources of audio from outside the engine, attached to a track.
//!
//! A stream is a stage like any effect, with silence as its input: what it
//! makes of silence, tick by tick, is what it plays into its track.

use crate::ident::IdAllocator;
use crate::mixer::effect::Effect;
use crate::mixer::track::id::TrackId;
use crate::signal::Signal;
use vstd::prelude::*;

verus! {

/// A unique identifier for a stream.
#[derive(Debug, Copy, Clone, Eq, PartialEq, Hash, Structural)]
pub struct AudioStreamId {
    index: usize,
}

impl View for AudioStreamId {
    type V = usize;

    closed spec fn view(&self) -> usize {
        self.index
    }
}

impl AudioStreamId {
    /// A fresh identifier, or `None` once the allocator has none left.
    pub fn new(allocator: &mut IdAllocator) -> (id: Option<Self>)
        ensures
            match id {
                Some(id) => id@ == old(allocator).issued() && final(allocator).issued() == old(
                    allocator,
                ).issued() + 1,
                None => old(allocator).issued() == usize::MAX && final(allocator).issued() == old(
                    allocator,
                ).issued(),
            },
    {
        match allocator.next() {
            Some(index) => Some(AudioStreamId { index }),
            None => None,
        }
    }

    /// The index by which the renderer's table knows this stream.
    pub fn index(&self) -> (index: usize)
        ensures
            index == self@,
    {
        self.index
    }
}

/// A stream and the track that it plays into.
pub struct StreamSlot<E> {
    /// The track that the stream plays into.
    pub track: TrackId,
    /// The stream.
    pub stream: E,
}

impl<E: Effect> StreamSlot<E> {
    /// What the stream plays on a tick.
    pub open spec fn output(self, sample_rate: u32, parameters: &E::Parameters) -> E::Frame {
        self.stream.output(sample_rate, E::Frame::silent(), parameters)
    }

    /// The slot after the stream has played a tick.
    pub open spec fn after(self, sample_rate: u32, parameters: &E::Parameters) -> Self {
        StreamSlot { track: self.track, stream: self.stream.after(sample_rate, E::Frame::silent(), parameters) }
    }

    /// Lets the stream play one tick of `1 / sample_rate` seconds.
    pub fn next(&mut self, sample_rate: u32, parameters: &E::Parameters) -> (out: E::Frame)
        ensures
            out == old(self).output(sample_rate, parameters),
            *final(self) == old(self).after(sample_rate, parameters),
    {
        self.stream.process(sample_rate, E::Frame::silence(), parameters)
    }
}

} // verus!
