use hypnos_audio::state::{AudioState, StateManager};

fn snap(muted: bool, volume: f32) -> AudioState {
    AudioState { was_muted: muted, volume_bits: volume.to_bits() }
}

#[test]
fn take_for_device_returns_saved_state_once() {
    let mut m = StateManager::new();
    m.save_for_device("headset-1".to_string(), snap(false, 0.42));
    assert_eq!(m.take_for_device("headset-1"), Some(snap(false, 0.42)));
    assert_eq!(m.take_for_device("headset-1"), None);
}

#[test]
fn take_for_unknown_device_is_none() {
    let mut m = StateManager::new();
    m.save_for_device("a".to_string(), snap(true, 1.0));
    assert_eq!(m.take_for_device("b"), None);
    assert_eq!(m.take_for_device("a"), Some(snap(true, 1.0)));
}

#[test]
fn later_save_replaces_earlier() {
    let mut m = StateManager::new();
    m.save_for_device("a".to_string(), snap(true, 0.1));
    m.save_for_device("a".to_string(), snap(false, 0.9));
    assert_eq!(m.take_for_device("a"), Some(snap(false, 0.9)));
}

#[test]
fn devices_are_kept_apart() {
    let mut m = StateManager::new();
    m.save_for_device("a".to_string(), snap(true, 0.1));
    m.save_for_device("b".to_string(), snap(false, 0.2));
    assert_eq!(m.take_for_device("b"), Some(snap(false, 0.2)));
    assert_eq!(m.take_for_device("a"), Some(snap(true, 0.1)));
}

#[test]
fn headset_snapshot_is_taken_once() {
    let mut m = StateManager::new();
    assert_eq!(m.take_if_saved(), None);
    m.save(snap(false, 0.5));
    m.save(snap(true, 0.75));
    assert_eq!(m.take_if_saved(), Some(snap(true, 0.75)));
    assert_eq!(m.take_if_saved(), None);
}

#[test]
fn volume_bits_keep_the_exact_level() {
    let s = snap(false, 0.3333333);
    assert_eq!(f32::from_bits(s.volume_bits), 0.3333333f32);
    assert_eq!(AudioState::default(), AudioState { was_muted: false, volume_bits: 0 });
    assert_eq!(f32::from_bits(AudioState::default().volume_bits), 0.0f32);
}
