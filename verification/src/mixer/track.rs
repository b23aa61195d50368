//! Mixing buses.

pub mod handle;
pub mod id;
mod sealed;

use crate::mixer::effect::{Effect, EffectId, EffectSettings};
use crate::mixer::effect_slot::EffectSlot;
use crate::signal::{Gain, Signal};
use crate::table::{IdTable, TableView};
use vstd::prelude::*;

verus! {

/// Settings for a mixer track.
#[derive(Debug, Clone)]
pub struct TrackSettings {
    /// The volume of the track.
    pub volume: Gain,
    /// The name by which the track can be addressed, if any.
    pub name: Option<String>,
}

impl Default for TrackSettings {
    fn default() -> (settings: Self)
        ensures
            settings.volume == Gain::unity_spec(),
            settings.name.is_none(),
    {
        TrackSettings { volume: Gain::unity(), name: None }
    }
}

/// What the first `count` slots of a chain make of `input`, each slot working
/// on what the slot before it made.
pub open spec fn chain_output<E: Effect>(
    slots: Seq<EffectSlot<E>>,
    count: nat,
    sample_rate: u32,
    input: E::Frame,
    parameters: &E::Parameters,
) -> E::Frame
    decreases count,
{
    if count == 0 {
        input
    } else {
        slots[count - 1].output(
            sample_rate,
            chain_output(slots, (count - 1) as nat, sample_rate, input, parameters),
            parameters,
        )
    }
}

/// The slots of a chain after `input` went through it.
pub open spec fn chain_after<E: Effect>(
    slots: Seq<EffectSlot<E>>,
    sample_rate: u32,
    input: E::Frame,
    parameters: &E::Parameters,
) -> Seq<EffectSlot<E>> {
    Seq::new(
        slots.len(),
        |i: int|
            slots[i].after(sample_rate, chain_output(slots, i as nat, sample_rate, input, parameters), parameters),
    )
}

/// What a track holds.
pub struct TrackView<E: Effect> {
    /// The factor by which the track scales what leaves its chain.
    pub volume: Gain,
    /// The name of the track, if any.
    pub name: Option<Seq<char>>,
    /// The chain of effects, in the order in which they work.
    pub slots: TableView<EffectSlot<E>>,
    /// What has come in since the track was last processed.
    pub input: E::Frame,
}

impl<E: Effect> TrackView<E> {
    /// The track with `slot` in its chain under the index `key`: in place of
    /// the slot that was there, or else at the end.
    pub open spec fn with_effect(self, key: usize, slot: EffectSlot<E>) -> Self {
        TrackView { slots: self.slots.inserted(key, slot), ..self }
    }

    /// The track without the slot under `key`.
    pub open spec fn without_effect(self, key: usize) -> Self {
        TrackView { slots: self.slots.removed(key), ..self }
    }

    /// The track after `input` came in.
    pub open spec fn with_input(self, input: E::Frame) -> Self {
        TrackView { input: self.input.mixed(input), ..self }
    }

    /// What the track puts out when it is processed: what came in goes
    /// through the chain, and what leaves the chain is scaled by the volume.
    pub open spec fn output(self, sample_rate: u32, parameters: &E::Parameters) -> E::Frame {
        chain_output(self.slots.values, self.slots.values.len(), sample_rate, self.input, parameters).scaled(
            self.volume.numerator,
            self.volume.denominator,
        )
    }

    /// The track after it was processed: nothing is waiting to go in, and
    /// each effect has worked on what reached it.
    pub open spec fn processed(self, sample_rate: u32, parameters: &E::Parameters) -> Self {
        TrackView {
            input: E::Frame::silent(),
            slots: TableView {
                keys: self.slots.keys,
                values: chain_after(self.slots.values, sample_rate, self.input, parameters),
            },
            ..self
        }
    }
}

/// Two enabled effects that were added one after the other work in that
/// order: the track puts out what the second makes of what the first makes
/// of the input, scaled by the volume.
pub proof fn lemma_effect_order<E: Effect>(
    track: TrackView<E>,
    first_key: usize,
    first: E,
    second_key: usize,
    second: E,
    sample_rate: u32,
    parameters: &E::Parameters,
)
    requires
        track.slots == TableView::<EffectSlot<E>>::empty(),
        first_key != second_key,
    ensures
        track.with_effect(first_key, EffectSlot { effect: first, enabled: true }).with_effect(
            second_key,
            EffectSlot { effect: second, enabled: true },
        ).output(sample_rate, parameters) == second.output(
            sample_rate,
            first.output(sample_rate, track.input, parameters),
            parameters,
        ).scaled(track.volume.numerator, track.volume.denominator),
{
    let one = track.with_effect(first_key, EffectSlot { effect: first, enabled: true });
    assert(!track.slots.has(first_key));
    assert(one.slots.keys =~= seq![first_key]);
    assert(!one.slots.has(second_key)) by {
        if one.slots.has(second_key) {
            let i = one.slots.keys.index_of(second_key);
            assert(one.slots.keys[i] == second_key);
        }
    }
    let two = one.with_effect(second_key, EffectSlot { effect: second, enabled: true });
    let slots = two.slots.values;
    assert(slots.len() == 2);
    assert(slots[0] == (EffectSlot { effect: first, enabled: true }));
    assert(slots[1] == (EffectSlot { effect: second, enabled: true }));
    reveal_with_fuel(chain_output, 3);
}

/// A mixing bus: what comes in is gathered until the track is processed,
/// then goes through the effects in order and leaves scaled by the volume.
pub struct Track<E: Effect> {
    volume: Gain,
    name: Option<String>,
    effect_slots: IdTable<EffectSlot<E>>,
    input: E::Frame,
}

impl<E: Effect> View for Track<E> {
    type V = TrackView<E>;

    closed spec fn view(&self) -> TrackView<E> {
        TrackView {
            volume: self.volume,
            name: match self.name {
                Some(name) => Some(name@),
                None => None,
            },
            slots: self.effect_slots@,
            input: self.input,
        }
    }
}

impl<E: Effect> Track<E> {
    /// A track without effects, with nothing waiting to go in.
    pub fn new(settings: TrackSettings) -> (track: Self)
        ensures
            track@.volume == settings.volume,
            track@.name == match settings.name {
                Some(name) => Some(name@),
                None => None,
            },
            track@.slots == TableView::<EffectSlot<E>>::empty(),
            track@.input == E::Frame::silent(),
    {
        Track {
            volume: settings.volume,
            name: settings.name,
            effect_slots: IdTable::new(),
            input: E::Frame::silence(),
        }
    }

    /// The name of the track, if it has one.
    pub fn name(&self) -> (name: Option<&String>)
        ensures
            match name {
                Some(n) => self@.name == Some(n@),
                None => self@.name.is_none(),
            },
    {
        self.name.as_ref()
    }

    /// The factor by which the track scales what leaves its chain.
    pub fn volume(&self) -> (volume: Gain)
        ensures
            volume == self@.volume,
    {
        self.volume
    }

    /// The number of effects in the chain.
    pub fn effect_count(&self) -> (count: usize)
        ensures
            count == self@.slots.len(),
            self@.slots.wf(),
    {
        self.effect_slots.len()
    }

    /// The position of an effect in the chain, if it is there.
    pub fn effect_position(&self, id: EffectId) -> (position: Option<usize>)
        ensures
            position.is_some() == self@.slots.has(id.key()),
            position matches Some(i) ==> i == self@.slots.position(id.key()),
    {
        self.effect_slots.index_of(id.index())
    }

    /// What has come in since the track was last processed.
    pub fn pending_input(&self) -> (input: E::Frame)
        ensures
            input == self@.input,
    {
        self.input
    }

    /// Puts an effect into the chain. An effect that comes under an
    /// identifier that is in the chain already takes the place of the one
    /// that was there, which comes back; a new one goes to the end.
    pub fn add_effect(&mut self, id: EffectId, effect: E, settings: EffectSettings) -> (replaced: Option<
        EffectSlot<E>,
    >)
        ensures
            final(self)@ == old(self)@.with_effect(id.key(), EffectSlot { effect, enabled: settings.enabled }),
            replaced == old(self)@.slots.get(id.key()),
    {
        self.effect_slots.insert(id.index(), EffectSlot::new(effect, settings))
    }

    /// Takes an effect out of the chain; the effects behind it move up.
    pub fn remove_effect(&mut self, id: EffectId) -> (removed: Option<EffectSlot<E>>)
        ensures
            final(self)@ == old(self)@.without_effect(id.key()),
            removed == old(self)@.slots.get(id.key()),
    {
        self.effect_slots.remove(id.index())
    }

    /// Adds `input` to what is waiting to go in.
    pub fn add_input(&mut self, input: E::Frame)
        ensures
            final(self)@ == old(self)@.with_input(input),
    {
        self.input = self.input.mix(input);
    }

    /// Processes the track for one tick of `1 / sample_rate` seconds: takes
    /// what has come in, leaves silence in its place, sends it through every
    /// effect in order and returns the result scaled by the volume.
    pub fn process(&mut self, sample_rate: u32, parameters: &E::Parameters) -> (out: E::Frame)
        ensures
            out == old(self)@.output(sample_rate, parameters),
            final(self)@ == old(self)@.processed(sample_rate, parameters),
    {
        let ghost before = self@;
        let mut signal = self.input;
        self.input = E::Frame::silence();
        let count = self.effect_slots.len();
        let mut i: usize = 0;
        while i < count
            invariant
                i <= count,
                count == before.slots.values.len(),
                count == before.slots.keys.len(),
                self.effect_slots@.keys == before.slots.keys,
                self.effect_slots@.values.len() == count,
                self.volume == before.volume,
                self@.name == before.name,
                self.input == E::Frame::silent(),
                signal == chain_output(before.slots.values, i as nat, sample_rate, before.input, parameters),
                forall|j: int|
                    0 <= j < i ==> #[trigger] self.effect_slots@.values[j] == before.slots.values[j].after(
                        sample_rate,
                        chain_output(before.slots.values, j as nat, sample_rate, before.input, parameters),
                        parameters,
                    ),
                forall|j: int|
                    i <= j < count ==> #[trigger] self.effect_slots@.values[j] == before.slots.values[j],
            decreases count - i,
        {
            let slot = self.effect_slots.value_at_mut(i);
            signal = slot.process(sample_rate, signal, parameters);
            i += 1;
        }
        proof {
            assert(self.effect_slots@.values =~= chain_after(
                before.slots.values,
                sample_rate,
                before.input,
                parameters,
            ));
        }
        signal.scale(self.volume.numerator, self.volume.denominator)
    }
}

} // verus!
