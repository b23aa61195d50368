//! The mixer: the main track, the sub-tracks that feed it, and their names.

use crate::command::MixerCommand;
use crate::mixer::effect::{Effect, EffectId, EffectSettings};
use crate::mixer::effect_slot::EffectSlot;
use crate::mixer::track::id::{resolved_route, Route, SubTrackId, TrackId, TrackLabel};
use crate::mixer::track::{Track, TrackSettings, TrackView};
use crate::names::{one_to_one, renamed, without_right, NameMap};
use crate::resource::{one_more, Reclaimer, Resource};
use crate::signal::{Gain, Signal};
use crate::table::{IdTable, TableView};
use vstd::prelude::*;

verus! {

/// What a track holds, as a function.
pub open spec fn track_view<E: Effect>() -> spec_fn(Track<E>) -> TrackView<E> {
    |track: Track<E>| track@
}

/// What the mixer holds.
pub struct MixerView<E: Effect> {
    /// The main track.
    pub main: TrackView<E>,
    /// The sub-tracks under their indices, in the order in which they feed
    /// the main track.
    pub subs: TableView<TrackView<E>>,
    /// The names of the sub-tracks that have one.
    pub names: Map<Seq<char>, usize>,
    /// How many commands were about a track or an effect that is not there.
    pub ignored: nat,
}

impl<E: Effect> MixerView<E> {
    /// The track that a label stands for: the main track, the sub-track
    /// with the identifier, or the sub-track that goes by the name. A label
    /// for a sub-track that is not there stands for nothing.
    pub open spec fn resolve(self, label: Result<Route, Seq<char>>) -> Option<Route> {
        match resolved_route(label, self.names) {
            Some(Route::Main) => Some(Route::Main),
            Some(Route::Sub(index)) => if self.subs.has(index) {
                Some(Route::Sub(index))
            } else {
                None
            },
            None => None,
        }
    }

    /// The track on a route.
    pub open spec fn track(self, route: Route) -> TrackView<E> {
        match route {
            Route::Main => self.main,
            Route::Sub(index) => self.subs.values[self.subs.position(index)],
        }
    }

    /// The mixer with `track` on a route.
    pub open spec fn with_track(self, route: Route, track: TrackView<E>) -> Self {
        match route {
            Route::Main => MixerView { main: track, ..self },
            Route::Sub(index) => MixerView {
                subs: self.subs.with_value_at(self.subs.position(index), track),
                ..self
            },
        }
    }

    /// The mixer after a command that changed nothing was counted.
    pub open spec fn ignoring(self) -> Self {
        MixerView { ignored: one_more(self.ignored), ..self }
    }

    /// The mixer after a command.
    ///
    /// A sub-track that is added takes the place of the one under the same
    /// identifier, or else goes to the end; its name, if it has one, is taken
    /// from the track that went by it. A sub-track that is removed takes its
    /// name with it. An effect is added to, or removed from, the track that
    /// the command points at. A command that points at a track or an effect
    /// that is not there changes nothing and is counted.
    pub open spec fn after(self, command: MixerCommand<E>) -> Self {
        match command {
            MixerCommand::AddSubTrack(id, track) => MixerView {
                subs: self.subs.inserted(id@, track@),
                names: renamed(self.names, id@, track@.name),
                ..self
            },
            MixerCommand::RemoveSubTrack(id) => if self.subs.has(id@) {
                MixerView { subs: self.subs.removed(id@), names: without_right(self.names, id@), ..self }
            } else {
                self.ignoring()
            },
            MixerCommand::AddEffect(label, id, effect, settings) => match self.resolve(label@) {
                Some(route) => self.with_track(
                    route,
                    self.track(route).with_effect(id.key(), EffectSlot { effect, enabled: settings.enabled }),
                ),
                None => self.ignoring(),
            },
            MixerCommand::RemoveEffect(id) => match self.resolve(Ok(id.track()@)) {
                Some(route) => if self.track(route).slots.has(id.key()) {
                    self.with_track(route, self.track(route).without_effect(id.key()))
                } else {
                    self.ignoring()
                },
                None => self.ignoring(),
            },
        }
    }

    /// The track in whose chain an effect command looks for the identifier
    /// of its effect, if that track is there.
    pub open spec fn aimed_at(self, command: MixerCommand<E>) -> Option<Route> {
        match command {
            MixerCommand::AddEffect(label, _, _, _) => self.resolve(label@),
            MixerCommand::RemoveEffect(id) => self.resolve(Ok(id.track()@)),
            _ => None,
        }
    }

    /// Whether `resource` is what a command makes leave the mixer: the
    /// sub-track that stood under the identifier of a sub-track command, or
    /// the slot that stood under the identifier of an effect command in the
    /// chain that the command points at.
    pub open spec fn hands_over(self, command: MixerCommand<E>, resource: Resource<E>) -> bool {
        match command {
            MixerCommand::AddSubTrack(id, _) => resource matches Resource::Track(track)
                && self.subs.get(id@) == Some(track@),
            MixerCommand::RemoveSubTrack(id) => resource matches Resource::Track(track)
                && self.subs.get(id@) == Some(track@),
            MixerCommand::AddEffect(_, id, _, _) => resource matches Resource::EffectSlot(slot)
                && self.aimed_at(command) matches Some(route) && self.track(route).slots.get(id.key())
                == Some(slot),
            MixerCommand::RemoveEffect(id) => resource matches Resource::EffectSlot(slot)
                && self.aimed_at(command) matches Some(route) && self.track(route).slots.get(id.key())
                == Some(slot),
        }
    }

    /// Whether a command makes a sub-track or an effect slot leave the mixer.
    pub open spec fn displaces(self, command: MixerCommand<E>) -> bool {
        match command {
            MixerCommand::AddSubTrack(id, _) => self.subs.has(id@),
            MixerCommand::RemoveSubTrack(id) => self.subs.has(id@),
            MixerCommand::AddEffect(_, id, _, _) => self.aimed_at(command) matches Some(route)
                && self.track(route).slots.has(id.key()),
            MixerCommand::RemoveEffect(id) => self.aimed_at(command) matches Some(route)
                && self.track(route).slots.has(id.key()),
        }
    }

    /// The mixer after `input` came in for the track that a label stands
    /// for. Input for a track that is not there is dropped.
    pub open spec fn with_input(self, label: Result<Route, Seq<char>>, input: E::Frame) -> Self {
        match self.resolve(label) {
            Some(route) => self.with_track(route, self.track(route).with_input(input)),
            None => self,
        }
    }

    /// The sum of what the first `count` sub-tracks put out.
    pub open spec fn sub_output(self, count: nat, sample_rate: u32, parameters: &E::Parameters) -> E::Frame
        decreases count,
    {
        if count == 0 {
            E::Frame::silent()
        } else {
            self.sub_output((count - 1) as nat, sample_rate, parameters).mixed(
                self.subs.values[count - 1].output(sample_rate, parameters),
            )
        }
    }

    /// What the mixer puts out when it is processed: the sum of what the
    /// sub-tracks put out comes in on the main track, and what the main track
    /// puts out is the answer.
    pub open spec fn output(self, sample_rate: u32, parameters: &E::Parameters) -> E::Frame {
        self.main.with_input(self.sub_output(self.subs.values.len(), sample_rate, parameters)).output(
            sample_rate,
            parameters,
        )
    }

    /// The mixer after it was processed: every track was processed.
    pub open spec fn processed(self, sample_rate: u32, parameters: &E::Parameters) -> Self {
        MixerView {
            main: self.main.with_input(
                self.sub_output(self.subs.values.len(), sample_rate, parameters),
            ).processed(sample_rate, parameters),
            subs: TableView {
                keys: self.subs.keys,
                values: Seq::new(
                    self.subs.values.len(),
                    |i: int| self.subs.values[i].processed(sample_rate, parameters),
                ),
            },
            ..self
        }
    }
}

/// A name leads to one sub-track at a time: after two sub-tracks were added
/// under the same name, the name stands for the second one, and the first one
/// is still there under its identifier.
pub proof fn lemma_same_name_twice<E: Effect>(
    mixer: MixerView<E>,
    first: SubTrackId,
    first_track: Track<E>,
    second: SubTrackId,
    second_track: Track<E>,
    name: Seq<char>,
)
    requires
        mixer.subs.wf(),
        first@ != second@,
        first_track@.name == Some(name),
        second_track@.name == Some(name),
    ensures
        ({
            let both = mixer.after(MixerCommand::AddSubTrack(first, first_track)).after(
                MixerCommand::AddSubTrack(second, second_track),
            );
            &&& both.resolve(Err(name)) == Some(Route::Sub(second@))
            &&& both.resolve(Ok(Route::Sub(first@))) == Some(Route::Sub(first@))
            &&& both.resolve(Ok(Route::Sub(second@))) == Some(Route::Sub(second@))
            &&& (one_to_one(mixer.names) ==> one_to_one(both.names))
        }),
{
    let one = mixer.after(MixerCommand::AddSubTrack(first, first_track));
    mixer.subs.lemma_inserted(first@, first_track@);
    one.subs.lemma_inserted(second@, second_track@);
}

/// Commands build on one another: an effect that is added to a sub-track by
/// the name under which the command before it added that sub-track lands in
/// that sub-track's chain.
pub proof fn lemma_effect_on_new_track<E: Effect>(
    mixer: MixerView<E>,
    id: SubTrackId,
    track: Track<E>,
    name: Seq<char>,
    label: TrackLabel,
    effect_id: EffectId,
    effect: E,
    settings: EffectSettings,
)
    requires
        mixer.subs.wf(),
        track@.name == Some(name),
        label@ == Err::<Route, Seq<char>>(name),
    ensures
        ({
            let both = mixer.after(MixerCommand::AddSubTrack(id, track)).after(
                MixerCommand::AddEffect(label, effect_id, effect, settings),
            );
            &&& both.resolve(label@) == Some(Route::Sub(id@))
            &&& both.track(Route::Sub(id@)).slots == track@.slots.inserted(
                effect_id.key(),
                EffectSlot { effect, enabled: settings.enabled },
            )
            &&& both.ignored == mixer.ignored
        }),
{
    let one = mixer.after(MixerCommand::AddSubTrack(id, track));
    mixer.subs.lemma_inserted(id@, track@);
    one.subs.lemma_has(id@);
    let p = one.subs.position(id@);
    assert(one.subs.get(id@) == Some(track@));
    let changed = one.track(Route::Sub(id@)).with_effect(
        effect_id.key(),
        EffectSlot { effect, enabled: settings.enabled },
    );
    let both = one.with_track(Route::Sub(id@), changed);
    assert(both.subs.keys == one.subs.keys);
    assert(both.subs.values[p] == changed);
}

/// The mixer.
pub struct Mixer<E: Effect> {
    main_track: Track<E>,
    sub_tracks: IdTable<Track<E>>,
    sub_track_names: NameMap,
    ignored: u64,
}

impl<E: Effect> View for Mixer<E> {
    type V = MixerView<E>;

    closed spec fn view(&self) -> MixerView<E> {
        MixerView {
            main: self.main_track@,
            subs: self.sub_tracks@.map(track_view::<E>()),
            names: self.sub_track_names@,
            ignored: self.ignored as nat,
        }
    }
}

impl<E: Effect> Mixer<E> {
    /// A mixer with a main track at full volume and no sub-tracks.
    pub fn new() -> (mixer: Self)
        ensures
            mixer@.main.volume == Gain::unity_spec(),
            mixer@.main.name.is_none(),
            mixer@.main.slots == TableView::<EffectSlot<E>>::empty(),
            mixer@.main.input == E::Frame::silent(),
            mixer@.subs == TableView::<TrackView<E>>::empty(),
            (mixer@.names == Map::<Seq<char>, usize>::empty()),
            mixer@.ignored == 0,
    {
        let mixer = Mixer {
            main_track: Track::new(TrackSettings::default()),
            sub_tracks: IdTable::new(),
            sub_track_names: NameMap::new(),
            ignored: 0,
        };
        proof {
            assert(mixer@.subs.values =~= Seq::<TrackView<E>>::empty());
        }
        mixer
    }

    /// How many commands were about a track or an effect that is not there.
    pub fn ignored_commands(&self) -> (count: u64)
        ensures
            count == self@.ignored,
    {
        self.ignored
    }

    /// The number of sub-tracks.
    pub fn sub_track_count(&self) -> (count: usize)
        ensures
            count == self@.subs.len(),
            self@.subs.wf(),
            one_to_one(self@.names),
    {
        let count = self.sub_tracks.len();
        proof {
            use_type_invariant(&self.sub_track_names);
            self.sub_tracks@.lemma_map_get(track_view::<E>(), 0);
        }
        count
    }

    /// The main track.
    pub fn main_track(&self) -> (track: &Track<E>)
        ensures
            track@ == self@.main,
    {
        &self.main_track
    }

    /// The sub-track with an identifier, if it is there.
    pub fn sub_track(&self, id: SubTrackId) -> (track: Option<&Track<E>>)
        ensures
            match track {
                Some(found) => self@.subs.get(id@) == Some(found@),
                None => self@.subs.get(id@).is_none(),
            },
    {
        proof {
            use_type_invariant(&self.sub_tracks);
            self.sub_tracks@.lemma_map_get(track_view::<E>(), id@);
        }
        self.sub_tracks.get(id.index())
    }

    /// The track that a label stands for, if it is there.
    pub fn resolve(&self, index: &TrackLabel) -> (route: Option<Route>)
        ensures
            route == self@.resolve(index@),
    {
        match index {
            TrackLabel::Id(TrackId::Main) => Some(Route::Main),
            TrackLabel::Id(TrackId::Sub(id)) => match self.sub_tracks.index_of(id.index()) {
                Some(_) => Some(Route::Sub(id.index())),
                None => None,
            },
            TrackLabel::Name(name) => match self.sub_track_names.get(name) {
                Some(index) => match self.sub_tracks.index_of(index) {
                    Some(_) => Some(Route::Sub(index)),
                    None => None,
                },
                None => None,
            },
        }
    }

    /// Counts a command that changed nothing.
    fn ignore(&mut self)
        ensures
            final(self)@ == old(self)@.ignoring(),
    {
        if self.ignored < u64::MAX {
            self.ignored = self.ignored + 1;
        }
    }

    /// Applies a command. A track or an effect slot that leaves the mixer,
    /// by removal or because another took its place, is handed to `unloader`,
    /// and nothing else is. What the mixer holds afterwards does not depend
    /// on whether the collector's channel took it.
    pub fn run_command(&mut self, command: MixerCommand<E>, unloader: &mut Reclaimer<E>)
        ensures
            final(self)@ == old(self)@.after(command),
            final(unloader).leaked() == old(unloader).leaked() || final(unloader).leaked() == one_more(
                old(unloader).leaked(),
            ),
            old(self)@.displaces(command) ==> exists|resource: Resource<E>|
                #[trigger] old(self)@.hands_over(command, resource) && old(unloader).offered(
                    final(unloader),
                    resource,
                ),
            !old(self)@.displaces(command) ==> final(unloader).taken() == old(unloader).taken()
                && final(unloader).leaked() == old(unloader).leaked(),
    {
        let ghost before = self@;
        let ghost tracks = self.sub_tracks@;
        let ghost given = command;
        proof {
            use_type_invariant(&self.sub_tracks);
        }
        match command {
            MixerCommand::AddSubTrack(id, track) => {
                proof {
                    tracks.lemma_map_inserted(track_view::<E>(), id@, track);
                }
                match track.name() {
                    Some(name) => {
                        let name = name.clone();
                        self.sub_track_names.insert(name, id.index());
                    },
                    None => {
                        self.sub_track_names.remove_index(id.index());
                    },
                }
                proof {
                    tracks.lemma_map_get(track_view::<E>(), id@);
                }
                match self.sub_tracks.insert(id.index(), track) {
                    Some(replaced) => {
                        unloader.reclaim(Resource::Track(replaced));
                        assert(before.hands_over(given, Resource::Track(replaced)));
                    },
                    None => {},
                }
            },
            MixerCommand::RemoveSubTrack(id) => {
                proof {
                    tracks.lemma_map_get(track_view::<E>(), id@);
                    tracks.lemma_map_removed(track_view::<E>(), id@);
                }
                match self.sub_tracks.remove(id.index()) {
                    Some(track) => {
                        self.sub_track_names.remove_index(id.index());
                        unloader.reclaim(Resource::Track(track));
                        assert(before.hands_over(given, Resource::Track(track)));
                    },
                    None => {
                        self.ignore();
                    },
                }
            },
            MixerCommand::AddEffect(index, id, effect, settings) => {
                match self.resolve(&index) {
                    Some(Route::Main) => {
                        match self.main_track.add_effect(id, effect, settings) {
                            Some(replaced) => {
                                unloader.reclaim(Resource::EffectSlot(replaced));
                                assert(before.hands_over(given, Resource::EffectSlot(replaced)));
                            },
                            None => {},
                        }
                    },
                    Some(Route::Sub(key)) => {
                        let position = self.sub_tracks.index_of(key).unwrap();
                        let track = self.sub_tracks.value_at_mut(position);
                        let replaced = track.add_effect(id, effect, settings);
                        proof {
                            tracks.lemma_map_get(track_view::<E>(), key);
                            tracks.lemma_map_value_at(track_view::<E>(), position as int, *track);
                        }
                        match replaced {
                            Some(replaced) => {
                                unloader.reclaim(Resource::EffectSlot(replaced));
                                assert(before.hands_over(given, Resource::EffectSlot(replaced)));
                            },
                            None => {},
                        }
                    },
                    None => {
                        self.ignore();
                    },
                }
            },
            MixerCommand::RemoveEffect(id) => {
                let label = TrackLabel::Id(id.track_id());
                match self.resolve(&label) {
                    Some(Route::Main) => {
                        match self.main_track.remove_effect(id) {
                            Some(removed) => {
                                unloader.reclaim(Resource::EffectSlot(removed));
                                assert(before.hands_over(given, Resource::EffectSlot(removed)));
                            },
                            None => {
                                proof {
                                    assert(self.main_track@.slots == before.main.slots) by {
                                        assert(!before.main.slots.has(id.key()));
                                    }
                                    assert(self.main_track@ == before.main);
                                }
                                self.ignore();
                            },
                        }
                    },
                    Some(Route::Sub(key)) => {
                        let position = self.sub_tracks.index_of(key).unwrap();
                        let track = self.sub_tracks.value_at_mut(position);
                        let ghost track_before = track@;
                        let removed = track.remove_effect(id);
                        proof {
                            tracks.lemma_map_get(track_view::<E>(), key);
                            tracks.lemma_map_value_at(track_view::<E>(), position as int, *track);
                            if removed.is_none() {
                                assert(!track_before.slots.has(id.key()));
                                assert(track@ == track_before);
                            }
                        }
                        match removed {
                            Some(removed) => {
                                unloader.reclaim(Resource::EffectSlot(removed));
                                assert(before.hands_over(given, Resource::EffectSlot(removed)));
                            },
                            None => {
                                proof {
                                    assert(self@.subs.values =~= before.subs.values);
                                }
                                self.ignore();
                            },
                        }
                    },
                    None => {
                        self.ignore();
                    },
                }
            },
        }
    }

    /// Adds `input` to what is waiting to go into the track that the label
    /// stands for. Input for a track that is not there is dropped.
    pub fn add_input(&mut self, index: &TrackLabel, input: E::Frame)
        ensures
            final(self)@ == old(self)@.with_input(index@, input),
    {
        let ghost tracks = self.sub_tracks@;
        proof {
            use_type_invariant(&self.sub_tracks);
        }
        match self.resolve(index) {
            Some(Route::Main) => {
                self.main_track.add_input(input);
            },
            Some(Route::Sub(key)) => {
                let position = self.sub_tracks.index_of(key).unwrap();
                let track = self.sub_tracks.value_at_mut(position);
                track.add_input(input);
                proof {
                    tracks.lemma_map_get(track_view::<E>(), key);
                            tracks.lemma_map_value_at(track_view::<E>(), position as int, *track);
                }
            },
            None => {},
        }
    }

    /// Processes the mixer for one tick of `1 / sample_rate` seconds: every
    /// sub-track is processed in order, the sum of what they put out goes
    /// into the main track, and what the main track puts out comes back.
    pub fn process(&mut self, sample_rate: u32, parameters: &E::Parameters) -> (out: E::Frame)
        ensures
            out == old(self)@.output(sample_rate, parameters),
            final(self)@ == old(self)@.processed(sample_rate, parameters),
    {
        let ghost before = self@;
        let mut sum = E::Frame::silence();
        let count = self.sub_tracks.len();
        let mut i: usize = 0;
        while i < count
            invariant
                i <= count,
                count == before.subs.values.len(),
                count == before.subs.keys.len(),
                self.sub_tracks@.keys == before.subs.keys,
                self.sub_tracks@.values.len() == count,
                self.main_track@ == before.main,
                self.sub_track_names@ == before.names,
                self.ignored == before.ignored,
                sum == before.sub_output(i as nat, sample_rate, parameters),
                forall|j: int|
                    0 <= j < i ==> (#[trigger] self.sub_tracks@.values[j])@ == before.subs.values[j].processed(
                        sample_rate,
                        parameters,
                    ),
                forall|j: int| i <= j < count ==> (#[trigger] self.sub_tracks@.values[j])@ == before.subs.values[j],
            decreases count - i,
        {
            let track = self.sub_tracks.value_at_mut(i);
            let out = track.process(sample_rate, parameters);
            sum = sum.mix(out);
            i += 1;
        }
        self.main_track.add_input(sum);
        let out = self.main_track.process(sample_rate, parameters);
        proof {
            assert(self@.subs.values =~= before.processed(sample_rate, parameters).subs.values);
        }
        out
    }
}

} // verus!
