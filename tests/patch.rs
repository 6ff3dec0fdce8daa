use dog_button::config::{line_sources, with_power_on};
use dog_button::key::SoundKey;
use dog_button::patch::{Patch, PreloadError};
use dog_button::poll::EdgeDetector;
use dog_button::rendezvous::Rendezvous;

fn sources_of(pairs: &[(&str, &str)]) -> Vec<(SoundKey, String)> {
    let entries: Vec<(String, String)> =
        pairs.iter().map(|(k, v)| (k.to_string(), v.to_string())).collect();
    with_power_on(line_sources(&entries).unwrap())
}

#[test]
fn configured_line_is_bound_to_its_clip() {
    let sources = sources_of(&[("3", "bark.wav")]);
    let decoded = vec![Some(30u32), Some(99u32)];
    let patch = Patch::get(sources, decoded).unwrap();
    let sound = patch.sound(SoundKey::Gpio(3)).unwrap();
    assert_eq!(sound.sound, "bark.wav");
    assert_eq!(sound.sound_source, 30);
    let power_on = patch.sound(SoundKey::PowerOn).unwrap();
    assert_eq!(power_on.sound, "startup.wav");
    assert_eq!(power_on.sound_source, 99);
    assert!(patch.sound(SoundKey::Gpio(4)).is_none());
}

#[test]
fn every_configured_line_is_preloaded_and_watched() {
    let sources = sources_of(&[("5", "a.wav"), ("2", "b.wav"), ("9", "c.wav")]);
    let decoded: Vec<Option<String>> =
        sources.iter().map(|(_, path)| Some(format!("samples of {}", path))).collect();
    let patch = Patch::get(sources, decoded).unwrap();
    for (line, path) in [(5, "a.wav"), (2, "b.wav"), (9, "c.wav")] {
        let sound = patch.sound(SoundKey::Gpio(line)).unwrap();
        assert_eq!(sound.sound, path);
        assert_eq!(sound.sound_source, format!("samples of {}", path));
    }
    assert_eq!(patch.lines(), vec![5, 2, 9]);
    let detector = EdgeDetector::for_patch(&patch);
    assert_eq!(detector.line_count(), 3);
    assert_eq!((detector.line(0), detector.line(1), detector.line(2)), (5, 2, 9));
}

#[test]
fn missing_sound_file_fails_the_whole_patch() {
    let sources = sources_of(&[("3", "bark.wav"), ("4", "missing.wav"), ("5", "gone.wav")]);
    let decoded = vec![Some(1u8), None, None, Some(4u8)];
    let r = Patch::get(sources, decoded);
    assert!(matches!(r, Err(PreloadError::Undecodable(ref p)) if p == "missing.wav"));
}

#[test]
fn undecodable_power_on_clip_fails_the_patch() {
    let sources = sources_of(&[("3", "bark.wav")]);
    let r = Patch::get(sources, vec![Some(1u8), None]);
    assert!(matches!(r, Err(PreloadError::Undecodable(ref p)) if p == "startup.wav"));
}

#[test]
fn first_entry_wins_for_a_repeated_key() {
    let sources = vec![
        (SoundKey::PowerOn, "one.wav".to_string()),
        (SoundKey::PowerOn, "two.wav".to_string()),
    ];
    let patch = Patch::get(sources, vec![Some(1u8), Some(2u8)]).unwrap();
    assert_eq!(patch.sound(SoundKey::PowerOn).unwrap().sound, "one.wav");
    assert_eq!(patch.lines(), Vec::<u16>::new());
}

#[test]
fn rendezvous_releases_on_the_last_party() {
    let sounds: usize = 3;
    let mut r = Rendezvous::for_sounds(sounds);
    assert_eq!(r.parties(), 4);
    assert_eq!(r.arrived(), 0);
    assert!(!r.is_released());
    assert!(!r.arrive());
    assert!(!r.arrive());
    assert!(!r.arrive());
    assert!(!r.is_released());
    assert!(r.arrive());
    assert!(r.is_released());
    assert_eq!(r.arrived(), 4);
}

#[test]
fn rendezvous_with_no_sounds_waits_for_the_initiator() {
    let mut r = Rendezvous::for_sounds(0);
    assert_eq!(r.parties(), 1);
    assert!(!r.is_released());
    assert!(r.arrive());
}
