//! The renderer: the owner of everything that plays. Once per tick it applies
//! the commands that have arrived and then computes one frame of output.

pub mod mixer;

use crate::audio_stream::StreamSlot;
use crate::channel::{channel_len, channel_try_recv};
use crate::command::{Command, StreamCommand};
use crate::group::groups::{Groups, GroupsView};
use crate::group::Group;
use crate::instance::{Instance, InstanceState, InstanceView};
use crate::manager::backend::mixer::{Mixer, MixerView};
use crate::mixer::effect::Effect;
use crate::mixer::effect_slot::EffectSlot;
use crate::mixer::track::id::TrackLabel;
use crate::mixer::track::TrackView;
use crate::resource::{one_more, Reclaimer, Resource};
use crate::signal::Signal;
use crate::table::{IdTable, TableView};
use flume::{Receiver, Sender};
use vstd::prelude::*;

verus! {

/// How many instances can be alive at a time.
pub const NUM_INSTANCES: usize = 100;

/// What an instance holds, as a function.
pub open spec fn instance_view<'a, F: Signal>() -> spec_fn(Instance<'a, F>) -> InstanceView<F> {
    |instance: Instance<'a, F>| instance@
}

/// Whether an instance still plays, as a function.
pub open spec fn still_playing<F: Signal>() -> spec_fn(InstanceView<F>) -> bool {
    |instance: InstanceView<F>| instance.state == InstanceState::Playing
}

/// `mixer` after the first `count` of `streams` have played one frame each
/// into the tracks that they are attached to.
pub open spec fn streams_onto<E: Effect>(
    streams: Seq<StreamSlot<E>>,
    sample_rate: u32,
    parameters: &E::Parameters,
    mixer: MixerView<E>,
    count: nat,
) -> MixerView<E>
    decreases count,
{
    if count == 0 {
        mixer
    } else {
        streams_onto(streams, sample_rate, parameters, mixer, (count - 1) as nat).with_input(
            Ok(streams[count - 1].track@),
            streams[count - 1].output(sample_rate, parameters),
        )
    }
}

/// What the renderer holds.
pub struct BackendView<E: Effect> {
    /// The number of ticks per second.
    pub sample_rate: u32,
    /// The live instances under their indices, in the order in which they
    /// were started.
    pub instances: TableView<InstanceView<E::Frame>>,
    /// The mixer.
    pub mixer: MixerView<E>,
    /// The group registry.
    pub groups: GroupsView,
    /// The streams under their indices, in the order in which they were
    /// attached.
    pub streams: TableView<StreamSlot<E>>,
    /// What automation last handed in for the effects.
    pub parameters: E::Parameters,
    /// How many instances were turned away because the table was full.
    pub rejected: nat,
}

impl<E: Effect> BackendView<E> {
    /// The renderer after a command.
    ///
    /// An instance is started under its identifier, in place of the one that
    /// was there; where the identifier is new and the table is full, the
    /// instance is turned away and counted. Mixer and group commands go to
    /// the mixer and to the registry.
    pub open spec fn after<'a>(self, command: Command<'a, E>) -> Self {
        match command {
            Command::StartInstance(id, instance) => if self.instances.has(id@) || self.instances.len()
                < NUM_INSTANCES {
                BackendView { instances: self.instances.inserted(id@, instance@), ..self }
            } else {
                BackendView { rejected: one_more(self.rejected), ..self }
            },
            Command::Mixer(command) => BackendView { mixer: self.mixer.after(command), ..self },
            Command::Group(command) => BackendView { groups: self.groups.after(command), ..self },
            Command::Stream(StreamCommand::AddStream(id, track, stream)) => BackendView {
                streams: self.streams.inserted(id@, StreamSlot { track, stream }),
                ..self
            },
            Command::Stream(StreamCommand::RemoveStream(id)) => BackendView {
                streams: self.streams.removed(id@),
                ..self
            },
        }
    }

    /// Whether a command makes a value that owns memory leave the renderer:
    /// a track or an effect slot, a group, or a stream. Instances own none.
    pub open spec fn displaces<'a>(self, command: Command<'a, E>) -> bool {
        match command {
            Command::StartInstance(_, _) => false,
            Command::Mixer(command) => self.mixer.displaces(command),
            Command::Group(command) => self.groups.groups.has(command.target()@),
            Command::Stream(StreamCommand::AddStream(id, _, _)) => self.streams.has(id@),
            Command::Stream(StreamCommand::RemoveStream(id)) => self.streams.has(id@),
        }
    }

    /// Whether `resource` is what a command makes leave the renderer: what
    /// leaves the mixer, the group that stood under the identifier of a group
    /// command, or the stream that stood under the identifier of a stream
    /// command.
    pub open spec fn hands_over<'a>(self, command: Command<'a, E>, resource: Resource<E>) -> bool {
        match command {
            Command::StartInstance(_, _) => false,
            Command::Mixer(command) => self.mixer.hands_over(command, resource),
            Command::Group(command) => resource matches Resource::Group(group) && self.groups.groups.get(
                command.target()@,
            ) == Some(group),
            Command::Stream(StreamCommand::AddStream(id, _, _)) => resource matches Resource::Stream(stream)
                && self.streams.get(id@) matches Some(slot) && slot.stream == stream,
            Command::Stream(StreamCommand::RemoveStream(id)) => resource matches Resource::Stream(stream)
                && self.streams.get(id@) matches Some(slot) && slot.stream == stream,
        }
    }

    /// The renderer after a batch of commands, each applied to what the one
    /// before it left.
    pub open spec fn after_all<'a>(self, commands: Seq<Command<'a, E>>) -> Self
        decreases commands.len(),
    {
        if commands.len() == 0 {
            self
        } else {
            self.after_all(commands.drop_last()).after(commands.last())
        }
    }

    /// The mixer after the first `count` instances have played this tick's
    /// frame into the tracks that they play on.
    pub open spec fn routed(self, count: nat) -> MixerView<E>
        decreases count,
    {
        if count == 0 {
            self.mixer
        } else {
            self.routed((count - 1) as nat).with_input(
                Ok(self.instances.values[count - 1].track@),
                self.instances.values[count - 1].output(self.sample_rate),
            )
        }
    }

    /// The mixer after every instance and then every stream has played this
    /// tick's frame into the track that it plays on.
    pub open spec fn mixed(self) -> MixerView<E> {
        streams_onto(
            self.streams.values,
            self.sample_rate,
            &self.parameters,
            self.routed(self.instances.values.len()),
            self.streams.values.len(),
        )
    }

    /// The streams after each has played one tick.
    pub open spec fn streams_after(self) -> TableView<StreamSlot<E>> {
        TableView {
            keys: self.streams.keys,
            values: Seq::new(
                self.streams.values.len(),
                |i: int| self.streams.values[i].after(self.sample_rate, &self.parameters),
            ),
        }
    }

    /// The instances after each has played one tick.
    pub open spec fn ticked(self) -> TableView<InstanceView<E::Frame>> {
        TableView {
            keys: self.instances.keys,
            values: Seq::new(
                self.instances.values.len(),
                |i: int| self.instances.values[i].ticked(self.sample_rate),
            ),
        }
    }

    /// The frame that a tick puts out: every instance and then every stream
    /// plays into its track, and the mixer is processed.
    pub open spec fn output(self) -> E::Frame {
        self.mixed().output(self.sample_rate, &self.parameters)
    }

    /// The renderer after a tick: every instance and every stream has played
    /// one tick, the instances that stopped are gone, and the mixer has been
    /// processed.
    pub open spec fn rendered(self) -> Self {
        BackendView {
            instances: self.ticked().kept(still_playing(), self.instances.values.len()),
            streams: self.streams_after(),
            mixer: self.mixed().processed(self.sample_rate, &self.parameters),
            ..self
        }
    }
}

/// The renderer.
#[verifier::reject_recursive_types(E)]
pub struct Backend<'a, E: Effect> {
    sample_rate: u32,
    instances: IdTable<Instance<'a, E::Frame>>,
    mixer: Mixer<E>,
    groups: Groups,
    streams: IdTable<StreamSlot<E>>,
    parameters: E::Parameters,
    command_receiver: Receiver<Command<'a, E>>,
    unloader: Reclaimer<E>,
    rejected: u64,
}

impl<'a, E: Effect> View for Backend<'a, E> {
    type V = BackendView<E>;

    closed spec fn view(&self) -> BackendView<E> {
        BackendView {
            sample_rate: self.sample_rate,
            instances: self.instances@.map(instance_view::<'a, E::Frame>()),
            mixer: self.mixer@,
            groups: self.groups@,
            streams: self.streams@,
            parameters: self.parameters,
            rejected: self.rejected as nat,
        }
    }
}

impl<'a, E: Effect> Backend<'a, E> {
    /// How many values the reclamation channel did not take.
    pub closed spec fn leaked(&self) -> nat {
        self.unloader.leaked()
    }

    /// The values that the reclamation channel took, in the order in which it
    /// took them.
    pub closed spec fn taken(&self) -> Seq<Resource<E>> {
        self.unloader.taken()
    }

    /// Whether `resource` was offered to the reclamation channel between
    /// `self` and `after`: either the channel took it, or it is counted as
    /// lost.
    pub open spec fn offered(&self, after: &Self, resource: Resource<E>) -> bool {
        ||| after.taken() == self.taken().push(resource) && after.leaked() == self.leaked()
        ||| after.taken() == self.taken() && after.leaked() == one_more(self.leaked())
    }

    /// A renderer that ticks `sample_rate` times per second, takes its
    /// commands from `command_receiver` and hands what it throws away to
    /// `unloader`. Nothing plays yet.
    pub fn new(
        sample_rate: u32,
        command_receiver: Receiver<Command<'a, E>>,
        unloader: Sender<Resource<E>>,
        parameters: E::Parameters,
    ) -> (backend: Self)
        ensures
            backend@.sample_rate == sample_rate,
            backend@.instances == TableView::<InstanceView<E::Frame>>::empty(),
            backend@.mixer.subs == TableView::<TrackView<E>>::empty(),
            backend@.mixer.main.slots == TableView::<EffectSlot<E>>::empty(),
            backend@.mixer.main.input == E::Frame::silent(),
            backend@.groups.groups == TableView::<Group>::empty(),
            backend@.streams == TableView::<StreamSlot<E>>::empty(),
            backend@.parameters == parameters,
            backend@.rejected == 0,
            backend.leaked() == 0,
    {
        let backend = Backend {
            sample_rate,
            instances: IdTable::with_capacity(NUM_INSTANCES),
            mixer: Mixer::new(),
            groups: Groups::new(NUM_INSTANCES),
            streams: IdTable::new(),
            parameters,
            command_receiver,
            unloader: Reclaimer::new(unloader),
            rejected: 0,
        };
        proof {
            assert(backend@.instances.values =~= Seq::<InstanceView<E::Frame>>::empty());
        }
        backend
    }

    /// The number of ticks per second.
    pub fn sample_rate(&self) -> (rate: u32)
        ensures
            rate == self@.sample_rate,
    {
        self.sample_rate
    }

    /// The number of live instances.
    pub fn instance_count(&self) -> (count: usize)
        ensures
            count == self@.instances.len(),
    {
        self.instances.len()
    }

    /// The number of attached streams.
    pub fn stream_count(&self) -> (count: usize)
        ensures
            count == self@.streams.len(),
    {
        self.streams.len()
    }

    /// How many instances were turned away because the table was full.
    pub fn rejected_instances(&self) -> (count: u64)
        ensures
            count == self@.rejected,
    {
        self.rejected
    }

    /// How many values the reclamation channel did not take.
    pub fn unreclaimed(&self) -> (count: u64)
        ensures
            count == self.leaked(),
    {
        self.unloader.unreclaimed()
    }

    /// The mixer.
    pub fn mixer(&self) -> (mixer: &Mixer<E>)
        ensures
            mixer@ == self@.mixer,
    {
        &self.mixer
    }

    /// The group registry.
    pub fn groups(&self) -> (groups: &Groups)
        ensures
            groups@ == self@.groups,
    {
        &self.groups
    }

    /// Applies one command. What leaves the live state and owns memory is
    /// handed to the collector, and nothing else is; the state afterwards
    /// does not depend on whether the collector's channel took it.
    pub fn run_command(&mut self, command: Command<'a, E>)
        ensures
            final(self)@ == old(self)@.after(command),
            old(self).leaked() <= final(self).leaked() <= old(self).leaked() + 1,
            old(self)@.displaces(command) ==> exists|resource: Resource<E>|
                #[trigger] old(self)@.hands_over(command, resource) && old(self).offered(
                    final(self),
                    resource,
                ),
            !old(self)@.displaces(command) ==> final(self).taken() == old(self).taken()
                && final(self).leaked() == old(self).leaked(),
    {
        let ghost instances = self.instances@;
        let ghost before = self@;
        let ghost given = command;
        proof {
            use_type_invariant(&self.instances);
        }
        match command {
            Command::StartInstance(id, instance) => {
                proof {
                    instances.lemma_map_get(instance_view::<'a, E::Frame>(), id@);
                    instances.lemma_map_inserted(instance_view::<'a, E::Frame>(), id@, instance);
                }
                if self.instances.index_of(id.index()).is_some() || self.instances.len() < NUM_INSTANCES {
                    let _ = self.instances.insert(id.index(), instance);
                } else if self.rejected < u64::MAX {
                    self.rejected = self.rejected + 1;
                }
            },
            Command::Mixer(command) => {
                let ghost mixer_command = command;
                self.mixer.run_command(command, &mut self.unloader);
                proof {
                    if before.mixer.displaces(mixer_command) {
                        let resource = choose|resource: Resource<E>|
                            #[trigger] before.mixer.hands_over(mixer_command, resource)
                                && old(self).unloader.offered(&self.unloader, resource);
                        assert(before.hands_over(given, resource));
                    }
                }
            },
            Command::Group(command) => {
                match self.groups.run_command(command) {
                    Some(group) => {
                        self.unloader.reclaim(Resource::Group(group));
                        assert(before.hands_over(given, Resource::Group(group)));
                    },
                    None => {},
                }
            },
            Command::Stream(StreamCommand::AddStream(id, track, stream)) => {
                match self.streams.insert(id.index(), StreamSlot { track, stream }) {
                    Some(replaced) => {
                        let ghost stream = replaced.stream;
                        self.unloader.reclaim(Resource::Stream(replaced.stream));
                        assert(before.hands_over(given, Resource::Stream(stream)));
                    },
                    None => {},
                }
            },
            Command::Stream(StreamCommand::RemoveStream(id)) => {
                match self.streams.remove(id.index()) {
                    Some(removed) => {
                        let ghost stream = removed.stream;
                        self.unloader.reclaim(Resource::Stream(removed.stream));
                        assert(before.hands_over(given, Resource::Stream(stream)));
                    },
                    None => {},
                }
            },
        }
    }

    /// Lets every instance play one tick into the track that it plays on.
    fn play_instances(&mut self)
        ensures
            final(self)@ == (BackendView {
                instances: old(self)@.ticked(),
                mixer: old(self)@.routed(old(self)@.instances.values.len()),
                ..old(self)@
            }),
            final(self).leaked() == old(self).leaked(),
    {
        let ghost before = self@;
        let count = self.instances.len();
        let mut i: usize = 0;
        while i < count
            invariant
                i <= count,
                count == before.instances.values.len(),
                count == before.instances.keys.len(),
                self.instances@.keys == before.instances.keys,
                self.instances@.values.len() == count,
                self.sample_rate == before.sample_rate,
                self.groups@ == before.groups,
                self.streams@ == before.streams,
                self.parameters == before.parameters,
                self.rejected == before.rejected,
                self.unloader == old(self).unloader,
                self.mixer@ == before.routed(i as nat),
                forall|j: int|
                    0 <= j < i ==> (#[trigger] self.instances@.values[j])@ == before.instances.values[j].ticked(
                        before.sample_rate,
                    ),
                forall|j: int|
                    i <= j < count ==> (#[trigger] self.instances@.values[j])@ == before.instances.values[j],
            decreases count - i,
        {
            let rate = self.sample_rate;
            let instance = self.instances.value_at_mut(i);
            let frame = instance.process(rate);
            let label = TrackLabel::Id(instance.track());
            self.mixer.add_input(&label, frame);
            i += 1;
        }
        proof {
            assert(self@.instances.values =~= before.ticked().values);
        }
    }

    /// Lets every stream play one tick into the track that it is attached to.
    fn play_streams(&mut self)
        ensures
            final(self)@ == (BackendView {
                streams: old(self)@.streams_after(),
                mixer: streams_onto(
                    old(self)@.streams.values,
                    old(self)@.sample_rate,
                    &old(self)@.parameters,
                    old(self)@.mixer,
                    old(self)@.streams.values.len(),
                ),
                ..old(self)@
            }),
            final(self).leaked() == old(self).leaked(),
    {
        let ghost before = self@;
        let count = self.streams.len();
        let mut i: usize = 0;
        while i < count
            invariant
                i <= count,
                count == before.streams.values.len(),
                count == before.streams.keys.len(),
                self.streams@.keys == before.streams.keys,
                self.streams@.values.len() == count,
                self.sample_rate == before.sample_rate,
                self.groups@ == before.groups,
                self.instances@ == old(self).instances@,
                self.parameters == before.parameters,
                self.rejected == before.rejected,
                self.unloader == old(self).unloader,
                self.mixer@ == streams_onto(
                    before.streams.values,
                    before.sample_rate,
                    &before.parameters,
                    before.mixer,
                    i as nat,
                ),
                forall|j: int|
                    0 <= j < i ==> #[trigger] self.streams@.values[j] == before.streams.values[j].after(
                        before.sample_rate,
                        &before.parameters,
                    ),
                forall|j: int| i <= j < count ==> #[trigger] self.streams@.values[j] == before.streams.values[j],
            decreases count - i,
        {
            let rate = self.sample_rate;
            let slot = self.streams.value_at_mut(i);
            let frame = slot.next(rate, &self.parameters);
            let label = TrackLabel::Id(slot.track);
            self.mixer.add_input(&label, frame);
            i += 1;
        }
        proof {
            assert(self@.streams.values =~= before.streams_after().values);
        }
    }

    /// Removes the instances that have stopped. The others keep their order.
    fn sweep(&mut self)
        ensures
            final(self)@ == (BackendView {
                instances: old(self)@.instances.kept(still_playing(), old(self)@.instances.values.len()),
                ..old(self)@
            }),
            final(self).leaked() == old(self).leaked(),
    {
        let ghost before = self@;
        let ghost f = instance_view::<'a, E::Frame>();
        let total = self.instances.len();
        proof {
            use_type_invariant(&self.instances);
            self.instances@.lemma_map_get(f, 0);
            assert(before.instances.skip(0).keys =~= before.instances.keys);
            assert(before.instances.skip(0).values =~= before.instances.values);
            assert(TableView::<InstanceView<E::Frame>>::empty().followed_by(before.instances).keys
                =~= before.instances.keys);
            assert(TableView::<InstanceView<E::Frame>>::empty().followed_by(before.instances).values
                =~= before.instances.values);
        }
        let mut seen: usize = 0;
        let mut at: usize = 0;
        while seen < total
            invariant
                seen <= total,
                total == before.instances.values.len(),
                total == before.instances.keys.len(),
                before.instances.wf(),
                f == instance_view::<'a, E::Frame>(),
                at == before.instances.kept(still_playing(), seen as nat).keys.len(),
                self.instances@.wf(),
                self.instances@.map(f) == before.instances.kept(still_playing(), seen as nat).followed_by(
                    before.instances.skip(seen as int),
                ),
                self.sample_rate == before.sample_rate,
                self.mixer@ == before.mixer,
                self.groups@ == before.groups,
                self.streams@ == before.streams,
                self.parameters == before.parameters,
                self.rejected == before.rejected,
                self.unloader == old(self).unloader,
            decreases total - seen,
        {
            let ghost table = self.instances@;
            let ghost head = before.instances.kept(still_playing(), seen as nat);
            let ghost tail = before.instances.skip(seen as int);
            proof {
                before.instances.lemma_kept(still_playing(), seen as nat);
                assert(table.map(f).keys.len() == head.keys.len() + tail.keys.len());
                assert(table.map(f).keys[at as int] == tail.keys[0]);
                assert(table.map(f).values[at as int] == tail.values[0]);
                assert(tail.values[0] == before.instances.values[seen as int]);
                assert(tail.keys[0] == before.instances.keys[seen as int]);
            }
            let stopped = match self.instances.value_at(at).state() {
                InstanceState::Stopped => true,
                InstanceState::Playing => false,
            };
            if stopped {
                let key = self.instances.key_at(at);
                proof {
                    table.lemma_position(key, at as int);
                    table.lemma_map_get(f, key);
                    table.lemma_map_removed(f, key);
                    table.lemma_removed(key);
                    let next_tail = before.instances.skip(seen + 1);
                    assert(table.removed(key).map(f).keys =~= head.followed_by(next_tail).keys);
                    assert(table.removed(key).map(f).values =~= head.followed_by(next_tail).values);
                }
                let _ = self.instances.remove(key);
            } else {
                proof {
                    let next_head = before.instances.kept(still_playing(), (seen + 1) as nat);
                    let next_tail = before.instances.skip(seen + 1);
                    assert(next_head == head.pushed(
                        before.instances.keys[seen as int],
                        before.instances.values[seen as int],
                    ));
                    assert(table.map(f).keys =~= next_head.followed_by(next_tail).keys);
                    assert(table.map(f).values =~= next_head.followed_by(next_tail).values);
                }
                at += 1;
            }
            seen += 1;
        }
        proof {
            let all = before.instances.kept(still_playing(), total as nat);
            assert(all.followed_by(before.instances.skip(total as int)).keys =~= all.keys);
            assert(all.followed_by(before.instances.skip(total as int)).values =~= all.values);
        }
    }

    /// Computes one frame of output: every instance plays one tick into its
    /// track, the instances that stopped are removed, and the mixer is
    /// processed.
    pub fn render(&mut self) -> (out: E::Frame)
        ensures
            out == old(self)@.output(),
            final(self)@ == old(self)@.rendered(),
            final(self).leaked() == old(self).leaked(),
    {
        self.play_instances();
        self.play_streams();
        self.sweep();
        self.mixer.process(self.sample_rate, &self.parameters)
    }

    /// One tick. The commands that were waiting when the tick began are
    /// applied first, all of them and in the order in which they arrived;
    /// then one frame of output is computed from what they left.
    pub fn process(&mut self) -> (out: E::Frame)
        ensures
            exists|batch: Seq<Command<'a, E>>|
                {
                    &&& final(self)@ == (#[trigger] old(self)@.after_all(batch)).rendered()
                    &&& out == old(self)@.after_all(batch).output()
                    &&& final(self).leaked() <= old(self).leaked() + batch.len()
                },
            old(self).leaked() <= final(self).leaked(),
    {
        let waiting = channel_len(&self.command_receiver);
        let ghost mut batch: Seq<Command<'a, E>> = Seq::empty();
        let mut taken: usize = 0;
        let mut more = true;
        while more && taken < waiting
            invariant
                taken <= waiting,
                batch.len() == taken,
                self@ == old(self)@.after_all(batch),
                old(self).leaked() <= self.leaked() <= old(self).leaked() + batch.len(),
            decreases waiting - taken, more as int,
        {
            match channel_try_recv(&self.command_receiver) {
                Some(command) => {
                    proof {
                        let longer = batch.push(command);
                        assert(longer.drop_last() =~= batch);
                        assert(longer.last() == command);
                        batch = longer;
                    }
                    self.run_command(command);
                    taken += 1;
                },
                None => {
                    more = false;
                },
            }
        }
        let out = self.render();
        proof {
            assert(self@ == old(self)@.after_all(batch).rendered());
        }
        out
    }
}

} // verus!
