//! Instances: single playbacks of a sound.

use crate::ident::IdAllocator;
use crate::mixer::track::id::TrackId;
use crate::signal::Signal;
use crate::sound::{frame_at, Sound};
use vstd::prelude::*;

verus! {

/// A unique identifier for an instance.
#[derive(Debug, Clone, Copy, PartialEq, Eq, Hash, Structural)]
pub struct InstanceId(usize);

impl View for InstanceId {
    type V = usize;

    closed spec fn view(&self) -> usize {
        self.0
    }
}

impl InstanceId {
    /// A fresh identifier, or `None` once the allocator has none left.
    pub fn new(allocator: &mut IdAllocator) -> (id: Option<Self>)
        ensures
            match id {
                Some(id) => id@ == old(allocator).issued() && final(allocator).issued() == old(
                    allocator,
                ).issued() + 1,
                None => old(allocator).issued() == usize::MAX && final(allocator).issued() == old(
                    allocator,
                ).issued(),
            },
    {
        match allocator.next() {
            Some(index) => Some(InstanceId(index)),
            None => None,
        }
    }

    /// The index by which the renderer's table knows this instance.
    pub fn index(&self) -> (index: usize)
        ensures
            index == self@,
    {
        self.0
    }
}

/// Whether an instance still plays.
#[derive(Debug, Clone, Copy, PartialEq, Eq, Structural)]
pub enum InstanceState {
    /// The instance contributes audio and moves on with every tick.
    Playing,
    /// The instance has reached the end of its sound; it contributes nothing
    /// and can be removed.
    Stopped,
}

/// The largest number of ticks that an instance counts.
pub open spec fn last_tick() -> int {
    i64::MAX as int
}

/// What an instance holds: the sound that it plays, the number of ticks that
/// it has played, its state, and the track that it plays on.
pub struct InstanceView<F> {
    pub frames: Seq<F>,
    pub rate: u32,
    pub position: int,
    pub state: InstanceState,
    pub track: TrackId,
}

impl<F: Signal> InstanceView<F> {
    /// Whether a sound that has played `position` ticks of `1 / tick_rate`
    /// seconds has reached its end: the time played, `position / tick_rate`,
    /// is no less than the sound's duration, `frames / rate`. An instance
    /// that cannot count further has reached its end as well.
    pub open spec fn ends_at(self, position: int, tick_rate: u32) -> bool {
        position * self.rate >= self.frames.len() * tick_rate || position >= last_tick()
    }

    /// What the instance contributes on a tick: the frame of its sound at the
    /// time played so far, or silence once it has stopped.
    pub open spec fn output(self, tick_rate: u32) -> F {
        match self.state {
            InstanceState::Playing => frame_at(self.frames, self.rate, self.position, tick_rate as int),
            InstanceState::Stopped => F::silent(),
        }
    }

    /// The instance after a tick: one tick further, and stopped if that is
    /// the end of the sound. A stopped instance stays as it is.
    pub open spec fn ticked(self, tick_rate: u32) -> Self {
        match self.state {
            InstanceState::Playing => InstanceView {
                position: self.position + 1,
                state: if self.ends_at(self.position + 1, tick_rate) {
                    InstanceState::Stopped
                } else {
                    InstanceState::Playing
                },
                ..self
            },
            InstanceState::Stopped => self,
        }
    }

    /// The instance after `ticks` ticks.
    pub open spec fn ticked_times(self, tick_rate: u32, ticks: nat) -> Self
        decreases ticks,
    {
        if ticks == 0 {
            self
        } else {
            self.ticked_times(tick_rate, (ticks - 1) as nat).ticked(tick_rate)
        }
    }

    /// While a fresh instance plays, it has counted every tick and none of
    /// them was the end of its sound.
    pub proof fn lemma_while_playing(self, tick_rate: u32, ticks: nat)
        requires
            self.position == 0,
            self.state == InstanceState::Playing,
        ensures
            self.ticked_times(tick_rate, ticks).frames == self.frames,
            self.ticked_times(tick_rate, ticks).rate == self.rate,
            self.ticked_times(tick_rate, ticks).state == InstanceState::Playing ==> {
                &&& self.ticked_times(tick_rate, ticks).position == ticks
                &&& ticks >= 1 ==> !self.ends_at(ticks as int, tick_rate)
            },
        decreases ticks,
    {
        if ticks > 0 {
            self.lemma_while_playing(tick_rate, (ticks - 1) as nat);
        }
    }

    /// An instance over a sound that lasts `D` seconds, ticked at a rate of
    /// `r` ticks per second for at least `D * r` ticks and at least once, has
    /// stopped, and contributes silence on the tick after.
    pub proof fn lemma_lifecycle(self, tick_rate: u32, ticks: nat)
        requires
            self.position == 0,
            self.state == InstanceState::Playing,
            ticks >= 1,
            ticks * self.rate >= self.frames.len() * tick_rate,
        ensures
            self.ticked_times(tick_rate, ticks).state == InstanceState::Stopped,
            self.ticked_times(tick_rate, ticks).output(tick_rate) == F::silent(),
            self.ticked_times(tick_rate, ticks).ticked(tick_rate) == self.ticked_times(tick_rate, ticks),
    {
        self.lemma_while_playing(tick_rate, ticks);
    }
}

/// One playback of a sound.
pub struct Instance<'a, F> {
    sound: &'a Sound<F>,
    position: i64,
    state: InstanceState,
    track: TrackId,
}

impl<'a, F: Signal> View for Instance<'a, F> {
    type V = InstanceView<F>;

    closed spec fn view(&self) -> InstanceView<F> {
        InstanceView {
            frames: self.sound.frames(),
            rate: self.sound.rate(),
            position: self.position as int,
            state: self.state,
            track: self.track,
        }
    }
}

impl<'a, F> Instance<'a, F> {
    /// A playing instance has not reached the last tick that it can count.
    #[verifier::type_invariant]
    pub closed spec fn counts(&self) -> bool {
        0 <= self.position && (self.state == InstanceState::Playing ==> self.position < i64::MAX)
    }
}

impl<'a, F: Signal> Instance<'a, F> {
    /// A playback of `sound` from its start, on the main track.
    pub fn new(sound: &'a Sound<F>) -> (instance: Self)
        ensures
            instance@ == (InstanceView {
                frames: sound.frames(),
                rate: sound.rate(),
                position: 0,
                state: InstanceState::Playing,
                track: TrackId::Main,
            }),
    {
        Instance { sound, position: 0, state: InstanceState::Playing, track: TrackId::Main }
    }

    /// A playback of `sound` from its start, on the track `track`.
    pub fn on_track(sound: &'a Sound<F>, track: TrackId) -> (instance: Self)
        ensures
            instance@ == (InstanceView {
                frames: sound.frames(),
                rate: sound.rate(),
                position: 0,
                state: InstanceState::Playing,
                track,
            }),
    {
        Instance { sound, position: 0, state: InstanceState::Playing, track }
    }

    /// Whether the instance still plays.
    pub fn state(&self) -> (state: InstanceState)
        ensures
            state == self@.state,
    {
        self.state
    }

    /// The track that the instance plays on.
    pub fn track(&self) -> (track: TrackId)
        ensures
            track == self@.track,
    {
        self.track
    }

    /// The number of ticks played.
    pub fn position(&self) -> (position: i64)
        ensures
            position == self@.position,
    {
        self.position
    }

    /// Plays one tick of `1 / sample_rate` seconds: returns the frame of the
    /// sound at the time played so far, moves one tick on, and stops at the
    /// end of the sound. A stopped instance returns silence.
    pub fn process(&mut self, sample_rate: u32) -> (out: F)
        ensures
            out == old(self)@.output(sample_rate),
            final(self)@ == old(self)@.ticked(sample_rate),
    {
        proof {
            use_type_invariant(&*self);
        }
        match self.state {
            InstanceState::Stopped => F::silence(),
            InstanceState::Playing => {
                let frame = self.sound.frame_at_position(self.position, sample_rate);
                let next = self.position + 1;
                let sound_rate = self.sound.sample_rate();
                let frames = self.sound.len();
                assert(next * sound_rate <= 0x8000_0000_0000_0000 * 0x1_0000_0000) by (nonlinear_arith)
                    requires
                        0 <= next <= 0x8000_0000_0000_0000,
                        sound_rate <= 0x1_0000_0000,
                ;
                assert(frames * sample_rate <= 0x1_0000_0000_0000_0000 * 0x1_0000_0000) by (nonlinear_arith)
                    requires
                        frames <= 0x1_0000_0000_0000_0000,
                        sample_rate <= 0x1_0000_0000,
                ;
                let played: u128 = (next as u128) * (sound_rate as u128);
                let length: u128 = (frames as u128) * (sample_rate as u128);
                let state = if played >= length || next == i64::MAX {
                    InstanceState::Stopped
                } else {
                    InstanceState::Playing
                };
                *self = Instance { sound: self.sound, position: next, state, track: self.track };
                frame
            },
        }
    }
}

} // verus!
