use kira::ident::IdAllocator;
use kira::mixer::track::id::{SubTrackId, TrackId};
use kira::playable::{ArrangementId, Playable, Sampled, SoundId};
use kira::signal::PcmFrame;
use kira::sound::Sound;
use kira::table::{IdTable, TableView};

/// An arrangement for the tests: one sound, played late by a number of
/// seconds.
struct Delayed {
    sound: SoundId,
    seconds: i64,
}

impl Sampled<PcmFrame> for Delayed {
    fn sampled(&self, _numerator: i64, _denominator: u32, _sounds: TableView<Sound<PcmFrame>>) -> PcmFrame {
        unreachable!("read by the verifier only")
    }

    fn get_frame_at_position(&self, numerator: i64, denominator: u32, sounds: &IdTable<Sound<PcmFrame>>) -> PcmFrame {
        match sounds.get(self.sound.index()) {
            Some(sound) => sound.frame_at_position(numerator - self.seconds * denominator as i64, denominator),
            None => PcmFrame::new(0, 0),
        }
    }
}

#[test]
fn playable_knows_its_default_track() {
    let mut allocator = IdAllocator::new();
    let sub = SubTrackId::new(&mut allocator).unwrap();
    let sound = SoundId::new(TrackId::Sub(sub), &mut allocator).unwrap();
    let arrangement = ArrangementId::new(TrackId::Main, &mut allocator).unwrap();
    assert_eq!(sound.index(), 1);
    assert_eq!(arrangement.index(), 2);
    assert_eq!(sound.default_track_index(), TrackId::Sub(sub));
    assert_eq!(Playable::from(sound).default_track_index(), TrackId::Sub(sub));
    assert_eq!(Playable::from(arrangement).default_track_index(), TrackId::Main);
    assert_eq!(Playable::Sound(sound), Playable::from(sound));
    assert_ne!(Playable::Sound(sound), Playable::Arrangement(arrangement));
}

#[test]
fn playable_reads_the_sound_or_arrangement_under_its_id() {
    let mut allocator = IdAllocator::new();
    let loaded = SoundId::new(TrackId::Main, &mut allocator).unwrap();
    let missing = SoundId::new(TrackId::Main, &mut allocator).unwrap();
    let late = ArrangementId::new(TrackId::Main, &mut allocator).unwrap();
    let absent = ArrangementId::new(TrackId::Main, &mut allocator).unwrap();

    let mut sounds = IdTable::new();
    let frames = vec![PcmFrame::from_mono(10), PcmFrame::from_mono(20), PcmFrame::from_mono(30)];
    sounds.insert(loaded.index(), Sound::from_frames(1, frames));
    let mut arrangements = IdTable::new();
    arrangements.insert(late.index(), Delayed { sound: loaded, seconds: 2 });

    let sound = Playable::Sound(loaded);
    assert_eq!(sound.get_frame_at_position(1, 1, &sounds, &arrangements), PcmFrame::from_mono(20));
    assert_eq!(sound.get_frame_at_position(5, 1, &sounds, &arrangements), PcmFrame::from_mono(0));
    assert_eq!(
        Playable::Sound(missing).get_frame_at_position(1, 1, &sounds, &arrangements),
        PcmFrame::from_mono(0)
    );
    let arrangement = Playable::Arrangement(late);
    assert_eq!(arrangement.get_frame_at_position(1, 1, &sounds, &arrangements), PcmFrame::from_mono(0));
    assert_eq!(arrangement.get_frame_at_position(4, 1, &sounds, &arrangements), PcmFrame::from_mono(30));
    assert_eq!(
        Playable::Arrangement(absent).get_frame_at_position(4, 1, &sounds, &arrangements),
        PcmFrame::from_mono(0)
    );
}

#[test]
fn a_sound_samples_itself() {
    let sounds: IdTable<Sound<PcmFrame>> = IdTable::new();
    let sound = Sound::from_frames(1, vec![PcmFrame::from_mono(10), PcmFrame::from_mono(20)]);
    assert_eq!(Sampled::get_frame_at_position(&sound, 1, 1, &sounds), PcmFrame::from_mono(20));
}
