//! Things that can be played: sounds, and arrangements of sounds.

use crate::ident::IdAllocator;
use crate::mixer::track::id::TrackId;
use crate::signal::Signal;
use crate::sound::{frame_at, Sound};
use crate::table::{IdTable, TableView};
use vstd::prelude::*;

verus! {

/// A unique identifier for a sound, with the track that instances of the
/// sound play on unless told otherwise.
#[derive(Debug, Copy, Clone, Eq, PartialEq, Hash, Structural)]
pub struct SoundId {
    index: usize,
    default_track: TrackId,
}

impl View for SoundId {
    type V = usize;

    closed spec fn view(&self) -> usize {
        self.index
    }
}

impl SoundId {
    /// The track that instances of the sound play on by default.
    pub closed spec fn home(self) -> TrackId {
        self.default_track
    }

    /// A fresh identifier, or `None` once the allocator has none left.
    pub fn new(default_track: TrackId, allocator: &mut IdAllocator) -> (id: Option<Self>)
        ensures
            match id {
                Some(id) => {
                    &&& id@ == old(allocator).issued()
                    &&& id.home() == default_track
                    &&& final(allocator).issued() == old(allocator).issued() + 1
                },
                None => old(allocator).issued() == usize::MAX && final(allocator).issued() == old(
                    allocator,
                ).issued(),
            },
    {
        match allocator.next() {
            Some(index) => Some(SoundId { index, default_track }),
            None => None,
        }
    }

    /// The index by which the table of sounds knows this sound.
    pub fn index(&self) -> (index: usize)
        ensures
            index == self@,
    {
        self.index
    }

    /// The track that instances of the sound play on by default.
    pub fn default_track_index(&self) -> (track: TrackId)
        ensures
            track == self.home(),
    {
        self.default_track
    }
}

/// A unique identifier for an arrangement, with the track that instances of
/// the arrangement play on unless told otherwise.
#[derive(Debug, Copy, Clone, Eq, PartialEq, Hash, Structural)]
pub struct ArrangementId {
    index: usize,
    default_track: TrackId,
}

impl View for ArrangementId {
    type V = usize;

    closed spec fn view(&self) -> usize {
        self.index
    }
}

impl ArrangementId {
    /// The track that instances of the arrangement play on by default.
    pub closed spec fn home(self) -> TrackId {
        self.default_track
    }

    /// A fresh identifier, or `None` once the allocator has none left.
    pub fn new(default_track: TrackId, allocator: &mut IdAllocator) -> (id: Option<Self>)
        ensures
            match id {
                Some(id) => {
                    &&& id@ == old(allocator).issued()
                    &&& id.home() == default_track
                    &&& final(allocator).issued() == old(allocator).issued() + 1
                },
                None => old(allocator).issued() == usize::MAX && final(allocator).issued() == old(
                    allocator,
                ).issued(),
            },
    {
        match allocator.next() {
            Some(index) => Some(ArrangementId { index, default_track }),
            None => None,
        }
    }

    /// The index by which the table of arrangements knows this arrangement.
    pub fn index(&self) -> (index: usize)
        ensures
            index == self@,
    {
        self.index
    }

    /// The track that instances of the arrangement play on by default.
    pub fn default_track_index(&self) -> (track: TrackId)
        ensures
            track == self.home(),
    {
        self.default_track
    }
}

/// Something that has a frame at every point in time and may draw on the
/// loaded sounds for it. `sampled` names that frame.
pub trait Sampled<F: Signal>: Sized {
    /// The frame at the time `numerator / denominator` seconds.
    spec fn sampled(&self, numerator: i64, denominator: u32, sounds: TableView<Sound<F>>) -> F;

    /// The frame at the time `numerator / denominator` seconds.
    fn get_frame_at_position(
        &self,
        numerator: i64,
        denominator: u32,
        sounds: &IdTable<Sound<F>>,
    ) -> (frame: F)
        ensures
            frame == self.sampled(numerator, denominator, sounds@),
    ;
}

impl<F: Signal> Sampled<F> for Sound<F> {
    /// A sound has the frame that its own buffer gives.
    open spec fn sampled(&self, numerator: i64, denominator: u32, sounds: TableView<Sound<F>>) -> F {
        frame_at(self.frames(), self.rate(), numerator as int, denominator as int)
    }

    fn get_frame_at_position(
        &self,
        numerator: i64,
        denominator: u32,
        sounds: &IdTable<Sound<F>>,
    ) -> (frame: F) {
        self.frame_at_position(numerator, denominator)
    }
}

/// A sound or an arrangement.
#[derive(Debug, Copy, Clone, Eq, PartialEq, Structural)]
pub enum Playable {
    /// The sound with this identifier.
    Sound(SoundId),
    /// The arrangement with this identifier.
    Arrangement(ArrangementId),
}

impl From<SoundId> for Playable {
    /// The item that a sound identifier stands for.
    fn from(id: SoundId) -> (playable: Self) {
        Playable::Sound(id)
    }
}

impl vstd::std_specs::convert::FromSpecImpl<SoundId> for Playable {
    open spec fn obeys_from_spec() -> bool {
        true
    }

    open spec fn from_spec(id: SoundId) -> Self {
        Playable::Sound(id)
    }
}

impl From<ArrangementId> for Playable {
    /// The item that an arrangement identifier stands for.
    fn from(id: ArrangementId) -> (playable: Self) {
        Playable::Arrangement(id)
    }
}

impl vstd::std_specs::convert::FromSpecImpl<ArrangementId> for Playable {
    open spec fn obeys_from_spec() -> bool {
        true
    }

    open spec fn from_spec(id: ArrangementId) -> Self {
        Playable::Arrangement(id)
    }
}

impl Playable {
    /// The track that instances of the item play on by default.
    pub open spec fn home(self) -> TrackId {
        match self {
            Playable::Sound(id) => id.home(),
            Playable::Arrangement(id) => id.home(),
        }
    }

    /// The frame of the item at a time: that of the sound or arrangement
    /// under the item's identifier, or silence where none is loaded under it.
    pub open spec fn frame<F: Signal, A: Sampled<F>>(
        self,
        numerator: i64,
        denominator: u32,
        sounds: TableView<Sound<F>>,
        arrangements: TableView<A>,
    ) -> F {
        match self {
            Playable::Sound(id) => match sounds.get(id@) {
                Some(sound) => frame_at(sound.frames(), sound.rate(), numerator as int, denominator as int),
                None => F::silent(),
            },
            Playable::Arrangement(id) => match arrangements.get(id@) {
                Some(arrangement) => arrangement.sampled(numerator, denominator, sounds),
                None => F::silent(),
            },
        }
    }

    /// The track that instances of the item play on by default.
    pub fn default_track_index(&self) -> (track: TrackId)
        ensures
            track == self.home(),
    {
        match self {
            Playable::Sound(id) => id.default_track_index(),
            Playable::Arrangement(id) => id.default_track_index(),
        }
    }

    /// Gets the frame of the item at the time `numerator / denominator`
    /// seconds. An item that is not loaded gives silence.
    pub fn get_frame_at_position<F: Signal, A: Sampled<F>>(
        &self,
        numerator: i64,
        denominator: u32,
        sounds: &IdTable<Sound<F>>,
        arrangements: &IdTable<A>,
    ) -> (frame: F)
        ensures
            frame == self.frame(numerator, denominator, sounds@, arrangements@),
    {
        match self {
            Playable::Sound(id) => match sounds.get(id.index()) {
                Some(sound) => sound.frame_at_position(numerator, denominator),
                None => F::silence(),
            },
            Playable::Arrangement(id) => match arrangements.get(id.index()) {
                Some(arrangement) => arrangement.get_frame_at_position(numerator, denominator, sounds),
                None => F::silence(),
            },
        }
    }
}

} // verus!
