use hypnos_audio::bluetooth::DeviceEvent;
use hypnos_audio::event_loop::{EventLoop, LoopAction, LoopInput, DISCONNECT_DEBOUNCE_MS};
use hypnos_audio::notifications::Notice;
use hypnos_audio::state::{AudioState, StateManager};

const DISCONNECTED: LoopInput = LoopInput::Device(DeviceEvent::HeadsetDisconnected);
const CONNECTED: LoopInput = LoopInput::Device(DeviceEvent::HeadsetConnected);

fn snap() -> AudioState {
    AudioState { was_muted: false, volume_bits: 0.6f32.to_bits() }
}

#[test]
fn debounce_is_half_a_second() {
    assert_eq!(DISCONNECT_DEBOUNCE_MS, 500);
}

#[test]
fn disconnect_saves_then_mutes_after_debounce() {
    let mut l = EventLoop::new();
    let mut s = StateManager::new();
    assert_eq!(l.step(&mut s, DISCONNECTED), vec![LoopAction::TakeSnapshot, LoopAction::StartDebounce(0)]);
    assert_eq!(l.step(&mut s, LoopInput::SnapshotTaken(Some(snap()))), vec![]);
    assert_eq!(l.step(&mut s, LoopInput::DebounceElapsed(0)), vec![LoopAction::Mute]);
    assert_eq!(
        l.step(&mut s, LoopInput::MuteFinished(true)),
        vec![LoopAction::Notify(Notice::HeadsetDisconnected)]
    );
    // the snapshot stays saved for the reconnect
    assert_eq!(l.step(&mut s, CONNECTED), vec![LoopAction::Restore(snap())]);
    assert_eq!(
        l.step(&mut s, LoopInput::RestoreFinished(true)),
        vec![LoopAction::Notify(Notice::HeadsetConnected)]
    );
}

#[test]
fn quick_reconnect_cancels_the_mute() {
    let mut l = EventLoop::new();
    let mut s = StateManager::new();
    l.step(&mut s, DISCONNECTED);
    l.step(&mut s, LoopInput::SnapshotTaken(Some(snap())));
    assert_eq!(
        l.step(&mut s, CONNECTED),
        vec![LoopAction::CancelDebounce, LoopAction::Restore(snap())]
    );
    // a timer that fired anyway is stale
    assert_eq!(l.step(&mut s, LoopInput::DebounceElapsed(0)), vec![]);
}

#[test]
fn repeated_disconnect_restarts_the_debounce() {
    let mut l = EventLoop::new();
    let mut s = StateManager::new();
    l.step(&mut s, DISCONNECTED);
    assert_eq!(
        l.step(&mut s, DISCONNECTED),
        vec![LoopAction::CancelDebounce, LoopAction::TakeSnapshot, LoopAction::StartDebounce(1)]
    );
    assert_eq!(l.step(&mut s, LoopInput::DebounceElapsed(0)), vec![]);
    assert_eq!(l.step(&mut s, LoopInput::DebounceElapsed(1)), vec![LoopAction::Mute]);
}

#[test]
fn failures_are_not_announced() {
    let mut l = EventLoop::new();
    let mut s = StateManager::new();
    assert_eq!(l.step(&mut s, LoopInput::MuteFinished(false)), vec![]);
    assert_eq!(l.step(&mut s, LoopInput::RestoreFinished(false)), vec![]);
}

#[test]
fn reconnect_without_snapshot_restores_nothing() {
    let mut l = EventLoop::new();
    let mut s = StateManager::new();
    l.step(&mut s, DISCONNECTED);
    assert_eq!(l.step(&mut s, LoopInput::SnapshotTaken(None)), vec![]);
    assert_eq!(l.step(&mut s, CONNECTED), vec![LoopAction::CancelDebounce]);
    assert_eq!(l.step(&mut s, CONNECTED), vec![]);
}

#[test]
fn snapshot_is_restored_only_once() {
    let mut l = EventLoop::new();
    let mut s = StateManager::new();
    l.step(&mut s, DISCONNECTED);
    l.step(&mut s, LoopInput::SnapshotTaken(Some(snap())));
    l.step(&mut s, LoopInput::DebounceElapsed(0));
    assert_eq!(l.step(&mut s, CONNECTED), vec![LoopAction::Restore(snap())]);
    assert_eq!(l.step(&mut s, CONNECTED), vec![]);
}

#[test]
fn a_debounce_mutes_at_most_once() {
    let mut l = EventLoop::new();
    let mut s = StateManager::new();
    l.step(&mut s, DISCONNECTED);
    assert_eq!(l.step(&mut s, LoopInput::DebounceElapsed(0)), vec![LoopAction::Mute]);
    assert_eq!(l.step(&mut s, LoopInput::DebounceElapsed(0)), vec![]);
}

#[test]
fn no_mute_for_a_debounce_never_started() {
    let mut l = EventLoop::new();
    let mut s = StateManager::new();
    l.step(&mut s, CONNECTED);
    assert_eq!(l.step(&mut s, LoopInput::DebounceElapsed(0)), vec![]);
    assert_eq!(l.step(&mut s, LoopInput::DebounceElapsed(7)), vec![]);
}
