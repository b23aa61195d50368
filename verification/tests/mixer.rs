use flume::{Receiver, Sender};
use kira::command::MixerCommand;
use kira::error::AudioError;
use kira::ident::IdAllocator;
use kira::manager::backend::mixer::Mixer;
use kira::mixer::effect::{Effect, EffectId, EffectSettings};
use kira::mixer::effect_slot::EffectSlot;
use kira::mixer::track::id::{Route, SubTrackId, TrackId, TrackIdTrait, TrackLabel};
use kira::mixer::track::{Track, TrackSettings};
use kira::names::NameMap;
use kira::resource::{Reclaimer, Resource};
use kira::signal::{Gain, PcmFrame, Signal};

/// Effects for the tests: one adds a constant, one doubles, one counts the
/// frames that it has seen and adds the count.
enum Stage {
    Add(i32),
    Double,
    Count(i32),
}

impl Stage {
    fn copy(&self) -> Stage {
        match self {
            Stage::Add(amount) => Stage::Add(*amount),
            Stage::Double => Stage::Double,
            Stage::Count(seen) => Stage::Count(*seen),
        }
    }
}

impl Effect for Stage {
    type Frame = PcmFrame;
    type Parameters = i32;

    fn output(&self, sample_rate: u32, input: PcmFrame, parameters: &i32) -> PcmFrame {
        self.copy().process(sample_rate, input, parameters)
    }

    fn after(&self, sample_rate: u32, input: PcmFrame, parameters: &i32) -> Self {
        let mut next = self.copy();
        next.process(sample_rate, input, parameters);
        next
    }

    fn process(&mut self, _sample_rate: u32, input: PcmFrame, parameters: &i32) -> PcmFrame {
        match self {
            Stage::Add(amount) => input.mix(PcmFrame::from_mono(*amount + *parameters)),
            Stage::Double => input.scale(2, 1),
            Stage::Count(seen) => {
                *seen += 1;
                input.mix(PcmFrame::from_mono(*seen))
            }
        }
    }
}

fn is_main(route: Option<Route>) -> bool {
    matches!(route, Some(Route::Main))
}

fn sub_index(route: Option<Route>) -> Option<usize> {
    match route {
        Some(Route::Sub(index)) => Some(index),
        _ => None,
    }
}

fn named(name: &str) -> Track<Stage> {
    Track::new(TrackSettings { volume: Gain::unity(), name: Some(name.to_string()) })
}

fn plain() -> Track<Stage> {
    Track::new(TrackSettings::default())
}

fn unloader(capacity: usize) -> (Reclaimer<Stage>, Receiver<Resource<Stage>>, Sender<Resource<Stage>>) {
    let (sender, receiver) = flume::bounded(capacity);
    (Reclaimer::new(sender.clone()), receiver, sender)
}

#[test]
fn default_settings_are_full_volume_and_no_name() {
    let settings = TrackSettings::default();
    assert_eq!(settings.volume, Gain::unity());
    assert_eq!(settings.name, None);
    assert!(EffectSettings::default().enabled);
    assert_eq!(TrackId::default(), TrackId::Main);
    assert_eq!(TrackLabel::default(), TrackLabel::Id(TrackId::Main));
}

#[test]
fn track_ids_and_labels_resolve() {
    let mut allocator = IdAllocator::new();
    let sub = SubTrackId::new(&mut allocator).unwrap();
    let mut names = NameMap::new();
    names.insert("sfx".to_string(), sub.index());
    assert_eq!(TrackId::Main.to_track_id(&names), Ok(TrackId::Main));
    assert_eq!(TrackId::from(sub).to_track_id(&names), Ok(TrackId::Sub(sub)));
    assert_eq!(TrackLabel::from(TrackId::Main).to_track_id(&names), Ok(TrackId::Main));
    assert_eq!(TrackLabel::from(sub).to_track_id(&names), Ok(TrackId::Sub(sub)));
    assert_eq!(TrackLabel::from("sfx".to_string()).to_track_id(&names), Ok(TrackId::Sub(sub)));
    assert_eq!(
        TrackLabel::from("music".to_string()).to_track_id(&names),
        Err(AudioError::NoTrackWithName("music".to_string()))
    );
}

#[test]
fn effect_id_remembers_its_track() {
    let mut allocator = IdAllocator::new();
    let sub = SubTrackId::new(&mut allocator).unwrap();
    let first = EffectId::new(TrackId::Main, &mut allocator).unwrap();
    let second = EffectId::new(TrackId::Sub(sub), &mut allocator).unwrap();
    assert_eq!(first.track_id(), TrackId::Main);
    assert_eq!(second.track_id(), TrackId::Sub(sub));
    assert_eq!(first.index(), 1);
    assert_eq!(second.index(), 2);
}

#[test]
fn new_track_is_empty_and_silent() {
    let mut track = named("bus");
    assert_eq!(track.name(), Some(&"bus".to_string()));
    assert_eq!(track.volume(), Gain::unity());
    assert_eq!(track.effect_count(), 0);
    assert_eq!(track.pending_input(), PcmFrame::new(0, 0));
    assert_eq!(track.process(48000, &0), PcmFrame::new(0, 0));
    assert_eq!(plain().name(), None);
}

#[test]
fn track_gathers_input_until_it_is_processed() {
    let mut track = plain();
    track.add_input(PcmFrame::new(1, 2));
    track.add_input(PcmFrame::new(10, 20));
    assert_eq!(track.pending_input(), PcmFrame::new(11, 22));
    assert_eq!(track.process(48000, &0), PcmFrame::new(11, 22));
    assert_eq!(track.pending_input(), PcmFrame::new(0, 0));
    assert_eq!(track.process(48000, &0), PcmFrame::new(0, 0));
}

#[test]
fn track_scales_by_its_volume() {
    let mut track: Track<Stage> = Track::new(TrackSettings { volume: Gain::new(3, 4), name: None });
    track.add_input(PcmFrame::new(100, -200));
    assert_eq!(track.process(48000, &0), PcmFrame::new(75, -150));
}

#[test]
fn effects_work_in_the_order_in_which_they_were_added() {
    let mut allocator = IdAllocator::new();
    let add = EffectId::new(TrackId::Main, &mut allocator).unwrap();
    let double = EffectId::new(TrackId::Main, &mut allocator).unwrap();

    let mut track = plain();
    assert!(track.add_effect(add, Stage::Add(10), EffectSettings::default()).is_none());
    assert!(track.add_effect(double, Stage::Double, EffectSettings::default()).is_none());
    track.add_input(PcmFrame::from_mono(5));
    let by_hand = Stage::Double.process(48000, Stage::Add(10).process(48000, PcmFrame::from_mono(5), &0), &0);
    assert_eq!(track.process(48000, &0), by_hand);
    assert_eq!(by_hand, PcmFrame::from_mono(30));

    let mut other = plain();
    other.add_effect(double, Stage::Double, EffectSettings::default());
    other.add_effect(add, Stage::Add(10), EffectSettings::default());
    other.add_input(PcmFrame::from_mono(5));
    assert_eq!(other.process(48000, &0), PcmFrame::from_mono(20));
}

#[test]
fn effects_see_the_parameters_and_the_volume_comes_last() {
    let mut allocator = IdAllocator::new();
    let add = EffectId::new(TrackId::Main, &mut allocator).unwrap();
    let mut track: Track<Stage> = Track::new(TrackSettings { volume: Gain::new(1, 2), name: None });
    track.add_effect(add, Stage::Add(10), EffectSettings::default());
    track.add_input(PcmFrame::from_mono(4));
    assert_eq!(track.process(48000, &6), PcmFrame::from_mono(10));
}

#[test]
fn disabled_effects_pass_their_input_on() {
    let mut allocator = IdAllocator::new();
    let add = EffectId::new(TrackId::Main, &mut allocator).unwrap();
    let count = EffectId::new(TrackId::Main, &mut allocator).unwrap();
    let double = EffectId::new(TrackId::Main, &mut allocator).unwrap();
    let mut track = plain();
    track.add_effect(add, Stage::Add(10), EffectSettings::default());
    track.add_effect(count, Stage::Count(0), EffectSettings { enabled: false });
    track.add_effect(double, Stage::Double, EffectSettings::default());
    track.add_input(PcmFrame::from_mono(1));
    assert_eq!(track.process(48000, &0), PcmFrame::from_mono(22));
    let slot = track.remove_effect(count).unwrap();
    assert!(!slot.enabled);
    assert!(matches!(slot.effect, Stage::Count(0)));
}

#[test]
fn effects_keep_their_state_between_ticks() {
    let mut allocator = IdAllocator::new();
    let count = EffectId::new(TrackId::Main, &mut allocator).unwrap();
    let mut track = plain();
    track.add_effect(count, Stage::Count(0), EffectSettings::default());
    assert_eq!(track.process(48000, &0), PcmFrame::from_mono(1));
    assert_eq!(track.process(48000, &0), PcmFrame::from_mono(2));
    assert_eq!(track.process(48000, &0), PcmFrame::from_mono(3));
}

#[test]
fn removing_an_effect_keeps_the_order_of_the_rest() {
    let mut allocator = IdAllocator::new();
    let a = EffectId::new(TrackId::Main, &mut allocator).unwrap();
    let b = EffectId::new(TrackId::Main, &mut allocator).unwrap();
    let c = EffectId::new(TrackId::Main, &mut allocator).unwrap();
    let mut track = plain();
    track.add_effect(a, Stage::Add(1), EffectSettings::default());
    track.add_effect(b, Stage::Double, EffectSettings::default());
    track.add_effect(c, Stage::Add(100), EffectSettings::default());
    assert_eq!(track.effect_position(c), Some(2));
    assert!(matches!(track.remove_effect(a), Some(EffectSlot { effect: Stage::Add(1), enabled: true })));
    assert!(track.remove_effect(a).is_none());
    assert_eq!(track.effect_count(), 2);
    assert_eq!(track.effect_position(b), Some(0));
    assert_eq!(track.effect_position(c), Some(1));
    assert_eq!(track.effect_position(a), None);
    track.add_input(PcmFrame::from_mono(3));
    assert_eq!(track.process(48000, &0), PcmFrame::from_mono(106));
}

#[test]
fn adding_an_effect_under_a_known_id_replaces_it_in_place() {
    let mut allocator = IdAllocator::new();
    let a = EffectId::new(TrackId::Main, &mut allocator).unwrap();
    let b = EffectId::new(TrackId::Main, &mut allocator).unwrap();
    let mut track = plain();
    track.add_effect(a, Stage::Add(1), EffectSettings::default());
    track.add_effect(b, Stage::Double, EffectSettings::default());
    let replaced = track.add_effect(a, Stage::Add(7), EffectSettings::default());
    assert!(matches!(replaced, Some(EffectSlot { effect: Stage::Add(1), enabled: true })));
    assert_eq!(track.effect_count(), 2);
    assert_eq!(track.effect_position(a), Some(0));
    assert_eq!(track.process(48000, &0), PcmFrame::from_mono(14));
}

#[test]
fn effect_slot_follows_its_switch() {
    let mut on = EffectSlot::new(Stage::Double, EffectSettings { enabled: true });
    let mut off = EffectSlot::new(Stage::Double, EffectSettings { enabled: false });
    assert_eq!(on.process(48000, PcmFrame::from_mono(4), &0), PcmFrame::from_mono(8));
    assert_eq!(off.process(48000, PcmFrame::from_mono(4), &0), PcmFrame::from_mono(4));
}

#[test]
fn mixer_starts_with_a_main_track_only() {
    let mut mixer: Mixer<Stage> = Mixer::new();
    assert_eq!(mixer.sub_track_count(), 0);
    assert_eq!(mixer.ignored_commands(), 0);
    assert_eq!(mixer.main_track().volume(), Gain::unity());
    assert!(is_main(mixer.resolve(&TrackLabel::Id(TrackId::Main))));
    assert_eq!(mixer.process(48000, &0), PcmFrame::new(0, 0));
}

#[test]
fn mixer_resolves_the_three_kinds_of_label_alike() {
    let mut allocator = IdAllocator::new();
    let sfx = SubTrackId::new(&mut allocator).unwrap();
    let other = SubTrackId::new(&mut allocator).unwrap();
    let (mut reclaimer, _receiver, _sender) = unloader(4);
    let mut mixer: Mixer<Stage> = Mixer::new();
    mixer.run_command(MixerCommand::AddSubTrack(sfx, named("sfx")), &mut reclaimer);
    assert!(is_main(mixer.resolve(&TrackLabel::Id(TrackId::Main))));
    assert_eq!(sub_index(mixer.resolve(&TrackLabel::Id(TrackId::Sub(sfx)))), Some(sfx.index()));
    assert_eq!(sub_index(mixer.resolve(&TrackLabel::Name("sfx".to_string()))), Some(sfx.index()));
    assert!(mixer.resolve(&TrackLabel::Id(TrackId::Sub(other))).is_none());
    assert!(mixer.resolve(&TrackLabel::Name("music".to_string())).is_none());
    assert_eq!(mixer.sub_track(sfx).unwrap().name(), Some(&"sfx".to_string()));
    assert!(mixer.sub_track(other).is_none());
}

#[test]
fn input_is_routed_by_id_and_by_name() {
    let mut allocator = IdAllocator::new();
    let sfx = SubTrackId::new(&mut allocator).unwrap();
    let (mut reclaimer, _receiver, _sender) = unloader(4);
    let mut mixer: Mixer<Stage> = Mixer::new();
    mixer.run_command(MixerCommand::AddSubTrack(sfx, named("sfx")), &mut reclaimer);
    mixer.add_input(&TrackLabel::Id(TrackId::Main), PcmFrame::from_mono(1));
    mixer.add_input(&TrackLabel::Id(TrackId::Sub(sfx)), PcmFrame::from_mono(10));
    mixer.add_input(&TrackLabel::Name("sfx".to_string()), PcmFrame::from_mono(100));
    mixer.add_input(&TrackLabel::Name("nowhere".to_string()), PcmFrame::from_mono(1000));
    assert_eq!(mixer.main_track().pending_input(), PcmFrame::from_mono(1));
    assert_eq!(mixer.sub_track(sfx).unwrap().pending_input(), PcmFrame::from_mono(110));
    assert_eq!(mixer.process(48000, &0), PcmFrame::from_mono(111));
    assert_eq!(mixer.process(48000, &0), PcmFrame::from_mono(0));
}

#[test]
fn sub_tracks_feed_the_main_track_through_their_own_chains() {
    let mut allocator = IdAllocator::new();
    let a = SubTrackId::new(&mut allocator).unwrap();
    let b = SubTrackId::new(&mut allocator).unwrap();
    let on_a = EffectId::new(TrackId::Sub(a), &mut allocator).unwrap();
    let on_main = EffectId::new(TrackId::Main, &mut allocator).unwrap();
    let (mut reclaimer, _receiver, _sender) = unloader(4);
    let mut mixer: Mixer<Stage> = Mixer::new();
    mixer.run_command(MixerCommand::AddSubTrack(a, plain()), &mut reclaimer);
    mixer.run_command(
        MixerCommand::AddSubTrack(b, Track::new(TrackSettings { volume: Gain::new(1, 2), name: None })),
        &mut reclaimer,
    );
    mixer.run_command(
        MixerCommand::AddEffect(TrackLabel::Id(TrackId::Sub(a)), on_a, Stage::Double, EffectSettings::default()),
        &mut reclaimer,
    );
    mixer.run_command(
        MixerCommand::AddEffect(TrackLabel::Id(TrackId::Main), on_main, Stage::Add(1), EffectSettings::default()),
        &mut reclaimer,
    );
    mixer.add_input(&TrackLabel::Id(TrackId::Sub(a)), PcmFrame::from_mono(10));
    mixer.add_input(&TrackLabel::Id(TrackId::Sub(b)), PcmFrame::from_mono(100));
    mixer.add_input(&TrackLabel::Id(TrackId::Main), PcmFrame::from_mono(1000));
    // main: 1000 + (10 * 2) + (100 / 2), then + 1
    assert_eq!(mixer.process(48000, &0), PcmFrame::from_mono(1071));
    assert_eq!(mixer.ignored_commands(), 0);
}

#[test]
fn effect_commands_reach_the_track_that_they_name() {
    let mut allocator = IdAllocator::new();
    let sfx = SubTrackId::new(&mut allocator).unwrap();
    let effect = EffectId::new(TrackId::Sub(sfx), &mut allocator).unwrap();
    let (mut reclaimer, receiver, _sender) = unloader(4);
    let mut mixer: Mixer<Stage> = Mixer::new();
    mixer.run_command(MixerCommand::AddSubTrack(sfx, named("sfx")), &mut reclaimer);
    mixer.run_command(
        MixerCommand::AddEffect(TrackLabel::Name("sfx".to_string()), effect, Stage::Add(5), EffectSettings::default()),
        &mut reclaimer,
    );
    assert_eq!(mixer.sub_track(sfx).unwrap().effect_count(), 1);
    assert_eq!(mixer.main_track().effect_count(), 0);
    mixer.run_command(MixerCommand::RemoveEffect(effect), &mut reclaimer);
    assert_eq!(mixer.sub_track(sfx).unwrap().effect_count(), 0);
    assert!(matches!(
        receiver.try_recv(),
        Ok(Resource::EffectSlot(EffectSlot { effect: Stage::Add(5), enabled: true }))
    ));
    assert!(receiver.try_recv().is_err());
    assert_eq!(mixer.ignored_commands(), 0);
}

#[test]
fn commands_about_what_is_not_there_change_nothing_and_are_counted() {
    let mut allocator = IdAllocator::new();
    let missing = SubTrackId::new(&mut allocator).unwrap();
    let on_missing = EffectId::new(TrackId::Sub(missing), &mut allocator).unwrap();
    let on_main = EffectId::new(TrackId::Main, &mut allocator).unwrap();
    let (mut reclaimer, receiver, _sender) = unloader(4);
    let mut mixer: Mixer<Stage> = Mixer::new();
    mixer.run_command(
        MixerCommand::AddEffect(TrackLabel::Name("ghost".to_string()), on_missing, Stage::Double, EffectSettings::default()),
        &mut reclaimer,
    );
    assert_eq!(mixer.ignored_commands(), 1);
    mixer.run_command(
        MixerCommand::AddEffect(TrackLabel::Id(TrackId::Sub(missing)), on_missing, Stage::Double, EffectSettings::default()),
        &mut reclaimer,
    );
    assert_eq!(mixer.ignored_commands(), 2);
    mixer.run_command(MixerCommand::RemoveEffect(on_missing), &mut reclaimer);
    assert_eq!(mixer.ignored_commands(), 3);
    mixer.run_command(MixerCommand::RemoveEffect(on_main), &mut reclaimer);
    assert_eq!(mixer.ignored_commands(), 4);
    mixer.run_command(MixerCommand::RemoveSubTrack(missing), &mut reclaimer);
    assert_eq!(mixer.ignored_commands(), 5);
    assert_eq!(mixer.sub_track_count(), 0);
    assert_eq!(mixer.main_track().effect_count(), 0);
    assert!(receiver.try_recv().is_err());
    assert_eq!(reclaimer.unreclaimed(), 0);
}

#[test]
fn removing_a_sub_track_reclaims_it_and_frees_its_name() {
    let mut allocator = IdAllocator::new();
    let sfx = SubTrackId::new(&mut allocator).unwrap();
    let (mut reclaimer, receiver, _sender) = unloader(4);
    let mut mixer: Mixer<Stage> = Mixer::new();
    mixer.run_command(MixerCommand::AddSubTrack(sfx, named("sfx")), &mut reclaimer);
    mixer.run_command(MixerCommand::RemoveSubTrack(sfx), &mut reclaimer);
    assert_eq!(mixer.sub_track_count(), 0);
    assert!(mixer.resolve(&TrackLabel::Name("sfx".to_string())).is_none());
    assert!(mixer.resolve(&TrackLabel::Id(TrackId::Sub(sfx))).is_none());
    match receiver.try_recv() {
        Ok(Resource::Track(track)) => assert_eq!(track.name(), Some(&"sfx".to_string())),
        _ => panic!("the track was not handed to the collector"),
    }
    assert_eq!(reclaimer.unreclaimed(), 0);
}

#[test]
fn a_track_name_leads_to_one_track_at_a_time() {
    let mut allocator = IdAllocator::new();
    let first = SubTrackId::new(&mut allocator).unwrap();
    let second = SubTrackId::new(&mut allocator).unwrap();
    let (mut reclaimer, receiver, _sender) = unloader(4);
    let mut mixer: Mixer<Stage> = Mixer::new();
    mixer.run_command(MixerCommand::AddSubTrack(first, named("sfx")), &mut reclaimer);
    mixer.run_command(MixerCommand::AddSubTrack(second, named("sfx")), &mut reclaimer);
    assert_eq!(mixer.sub_track_count(), 2);
    assert_eq!(sub_index(mixer.resolve(&TrackLabel::Name("sfx".to_string()))), Some(second.index()));
    assert_eq!(sub_index(mixer.resolve(&TrackLabel::Id(TrackId::Sub(first)))), Some(first.index()));
    // the name goes with the second track when it is removed
    mixer.run_command(MixerCommand::RemoveSubTrack(second), &mut reclaimer);
    assert!(mixer.resolve(&TrackLabel::Name("sfx".to_string())).is_none());
    assert!(mixer.sub_track(first).is_some());
    assert!(matches!(receiver.try_recv(), Ok(Resource::Track(_))));
}

#[test]
fn adding_a_sub_track_under_a_known_id_reclaims_the_one_that_was_there() {
    let mut allocator = IdAllocator::new();
    let id = SubTrackId::new(&mut allocator).unwrap();
    let (mut reclaimer, receiver, _sender) = unloader(4);
    let mut mixer: Mixer<Stage> = Mixer::new();
    mixer.run_command(MixerCommand::AddSubTrack(id, named("old")), &mut reclaimer);
    mixer.run_command(MixerCommand::AddSubTrack(id, named("new")), &mut reclaimer);
    assert_eq!(mixer.sub_track_count(), 1);
    assert!(mixer.resolve(&TrackLabel::Name("old".to_string())).is_none());
    assert_eq!(sub_index(mixer.resolve(&TrackLabel::Name("new".to_string()))), Some(id.index()));
    match receiver.try_recv() {
        Ok(Resource::Track(track)) => assert_eq!(track.name(), Some(&"old".to_string())),
        _ => panic!("the replaced track was not handed to the collector"),
    }
}

#[test]
fn a_full_reclamation_channel_is_counted_and_does_not_stop_the_mixer() {
    let mut allocator = IdAllocator::new();
    let a = SubTrackId::new(&mut allocator).unwrap();
    let b = SubTrackId::new(&mut allocator).unwrap();
    let (mut reclaimer, receiver, _sender) = unloader(1);
    let mut mixer: Mixer<Stage> = Mixer::new();
    mixer.run_command(MixerCommand::AddSubTrack(a, plain()), &mut reclaimer);
    mixer.run_command(MixerCommand::AddSubTrack(b, plain()), &mut reclaimer);
    mixer.run_command(MixerCommand::RemoveSubTrack(a), &mut reclaimer);
    assert_eq!(reclaimer.unreclaimed(), 0);
    mixer.run_command(MixerCommand::RemoveSubTrack(b), &mut reclaimer);
    assert_eq!(reclaimer.unreclaimed(), 1);
    assert_eq!(mixer.sub_track_count(), 0);
    mixer.add_input(&TrackLabel::Id(TrackId::Main), PcmFrame::from_mono(9));
    assert_eq!(mixer.process(48000, &0), PcmFrame::from_mono(9));
    assert!(matches!(receiver.try_recv(), Ok(Resource::Track(_))));
    assert!(receiver.try_recv().is_err());
}

#[test]
fn a_collector_that_is_gone_is_counted_too() {
    let (sender, receiver) = flume::bounded(4);
    let mut reclaimer: Reclaimer<Stage> = Reclaimer::new(sender);
    drop(receiver);
    reclaimer.reclaim(Resource::Stream(Stage::Double));
    reclaimer.reclaim(Resource::EffectSlot(EffectSlot::new(Stage::Double, EffectSettings::default())));
    assert_eq!(reclaimer.unreclaimed(), 2);
}
