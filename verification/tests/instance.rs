use kira::ident::IdAllocator;
use kira::instance::{Instance, InstanceId, InstanceState};
use kira::mixer::track::id::{SubTrackId, TrackId};
use kira::signal::PcmFrame;
use kira::sound::Sound;

fn tone(len: usize) -> Vec<PcmFrame> {
    (0..len).map(|i| PcmFrame::from_mono(100 + i as i32)).collect()
}

#[test]
fn instance_starts_playing_at_the_start_on_the_main_track() {
    let sound = Sound::from_frames(8, tone(4));
    let instance = Instance::new(&sound);
    assert_eq!(instance.state(), InstanceState::Playing);
    assert_eq!(instance.position(), 0);
    assert_eq!(instance.track(), TrackId::Main);
}

#[test]
fn instance_on_a_sub_track_remembers_it() {
    let mut allocator = IdAllocator::new();
    let sub = SubTrackId::new(&mut allocator).unwrap();
    let sound = Sound::from_frames(8, tone(4));
    let instance = Instance::on_track(&sound, TrackId::Sub(sub));
    assert_eq!(instance.track(), TrackId::Sub(sub));
}

#[test]
fn instance_plays_each_sample_once_at_the_sound_rate() {
    let sound = Sound::from_frames(8, tone(4));
    let mut instance = Instance::new(&sound);
    for i in 0..4 {
        assert_eq!(instance.state(), InstanceState::Playing);
        assert_eq!(instance.process(8), PcmFrame::from_mono(100 + i));
    }
    assert_eq!(instance.state(), InstanceState::Stopped);
    assert_eq!(instance.position(), 4);
}

#[test]
fn instance_stops_after_the_duration_and_is_silent_afterwards() {
    // 6 frames at 4 per second last 1.5 s; at 10 ticks per second that is 15 ticks
    let sound = Sound::from_frames(4, tone(6));
    let mut instance = Instance::new(&sound);
    for tick in 0..15 {
        assert_eq!(instance.state(), InstanceState::Playing, "tick {}", tick);
        instance.process(10);
    }
    assert_eq!(instance.state(), InstanceState::Stopped);
    assert_eq!(instance.process(10), PcmFrame::new(0, 0));
    assert_eq!(instance.position(), 15);
    assert_eq!(instance.state(), InstanceState::Stopped);
}

#[test]
fn instance_rounds_the_number_of_ticks_up() {
    // 1 frame at 3 per second lasts a third of a second: 4 ticks at 10 per second
    let sound = Sound::from_frames(3, tone(1));
    let mut instance = Instance::new(&sound);
    for _ in 0..3 {
        instance.process(10);
        assert_eq!(instance.state(), InstanceState::Playing);
    }
    instance.process(10);
    assert_eq!(instance.state(), InstanceState::Stopped);
}

#[test]
fn instance_of_an_empty_sound_stops_on_the_first_tick() {
    let sound: Sound<PcmFrame> = Sound::from_frames(10, Vec::new());
    let mut instance = Instance::new(&sound);
    assert_eq!(instance.state(), InstanceState::Playing);
    assert_eq!(instance.process(10), PcmFrame::new(0, 0));
    assert_eq!(instance.state(), InstanceState::Stopped);
}

#[test]
fn instance_without_ticks_per_second_stops_on_the_first_tick() {
    let sound = Sound::from_frames(10, tone(3));
    let mut instance = Instance::new(&sound);
    assert_eq!(instance.process(0), PcmFrame::new(0, 0));
    assert_eq!(instance.state(), InstanceState::Stopped);
}

#[test]
fn instance_ids_count_up() {
    let mut allocator = IdAllocator::new();
    let a = InstanceId::new(&mut allocator).unwrap();
    let b = InstanceId::new(&mut allocator).unwrap();
    assert_eq!(a.index(), 0);
    assert_eq!(b.index(), 1);
    assert_ne!(a, b);
}
