use vstd::prelude::*;

use crate::bluetooth::DeviceEvent;
use crate::notifications::Notice;
use crate::state::{after_take_last, saved_last, AudioState, SavedStates, StateManager};

verus! {

/// What the event loop is told.
#[derive(Debug, Clone, Copy, PartialEq, Eq, Structural)]
pub enum LoopInput {
    /// A headset came or went.
    Device(DeviceEvent),
    /// The answer to `TakeSnapshot`: the current audio state, or `None` if it
    /// could not be read.
    SnapshotTaken(Option<AudioState>),
    /// The answer to `Restore`: whether restoring succeeded.
    RestoreFinished(bool),
    /// The debounce started with `StartDebounce(generation)` has run out.
    DebounceElapsed(u64),
    /// The answer to `Mute`: whether muting succeeded.
    MuteFinished(bool),
}

/// What the event loop asks its driver to do, in order.
#[derive(Debug, Clone, Copy, PartialEq, Eq, Structural)]
pub enum LoopAction {
    /// Abort the debounce that is still running.
    CancelDebounce,
    /// Read the current audio state and answer with `SnapshotTaken` before going
    /// on with the next action.
    TakeSnapshot,
    /// Restore this audio state and answer with `RestoreFinished`.
    Restore(AudioState),
    /// Wait the debounce delay, then answer with `DebounceElapsed(generation)`.
    StartDebounce(u64),
    /// Mute the system and answer with `MuteFinished`.
    Mute,
    /// Show this notification.
    Notify(Notice),
}

/// The delay, in milliseconds, between a disconnect and the mute it causes.
pub const DISCONNECT_DEBOUNCE_MS: u64 = 500;

/// What the event loop remembers: how many headset events it has seen (modulo
/// 2^64), and the generation of the debounce still running, if any.
pub struct LoopState {
    pub generation: u64,
    pub pending: Option<u64>,
}

/// The headset event loop: on disconnect it saves the audio state at once and mutes
/// after a debounce; on reconnect it cancels that debounce and restores the state.
/// Each headset event gets a generation number, and a debounce only mutes if it is
/// the one still running and no headset event came after the one that started it.
pub struct EventLoop {
    generation: u64,
    pending: Option<u64>,
}

impl View for EventLoop {
    type V = LoopState;

    closed spec fn view(&self) -> LoopState {
        LoopState { generation: self.generation, pending: self.pending }
    }
}

/// The generation after `g`: one more, wrapping to 0 after `u64::MAX`.
pub open spec fn next_generation(g: u64) -> u64 {
    if g == u64::MAX {
        0
    } else {
        (g + 1) as u64
    }
}

/// `CancelDebounce` if a debounce is running, else nothing.
pub open spec fn cancel_actions(pending: Option<u64>) -> Seq<LoopAction> {
    if pending is Some {
        seq![LoopAction::CancelDebounce]
    } else {
        Seq::empty()
    }
}

/// One step of the event loop: the new loop state, the new store of snapshots, and
/// the actions to perform.
pub open spec fn step_spec(m: LoopState, st: SavedStates, input: LoopInput) -> (
    LoopState,
    SavedStates,
    Seq<LoopAction>,
) {
    match input {
        LoopInput::Device(DeviceEvent::HeadsetConnected) => (
            LoopState { generation: next_generation(m.generation), pending: None },
            after_take_last(st),
            cancel_actions(m.pending) + match st.last {
                Some(s) => seq![LoopAction::Restore(s)],
                None => Seq::empty(),
            },
        ),
        LoopInput::Device(DeviceEvent::HeadsetDisconnected) => (
            LoopState { generation: next_generation(m.generation), pending: Some(m.generation) },
            st,
            cancel_actions(m.pending) + seq![
                LoopAction::TakeSnapshot,
                LoopAction::StartDebounce(m.generation),
            ],
        ),
        LoopInput::SnapshotTaken(r) => (
            m,
            match r {
                Some(s) => saved_last(st, s),
                None => st,
            },
            Seq::empty(),
        ),
        LoopInput::RestoreFinished(ok) => (
            m,
            st,
            if ok {
                seq![LoopAction::Notify(Notice::HeadsetConnected)]
            } else {
                Seq::empty()
            },
        ),
        LoopInput::DebounceElapsed(g) => if m.pending == Some(g) && next_generation(g)
            == m.generation {
            (
                LoopState { generation: m.generation, pending: None },
                st,
                seq![LoopAction::Mute],
            )
        } else {
            (m, st, Seq::empty())
        },
        LoopInput::MuteFinished(ok) => (
            m,
            st,
            if ok {
                seq![LoopAction::Notify(Notice::HeadsetDisconnected)]
            } else {
                Seq::empty()
            },
        ),
    }
}

impl EventLoop {
    /// A loop that has seen no event and runs no debounce.
    pub fn new() -> (l: EventLoop)
        ensures
            l@ == (LoopState { generation: 0, pending: None }),
    {
        EventLoop { generation: 0, pending: None }
    }

    /// Takes one input, updates the loop and the store of snapshots, and returns the
    /// actions for the driver to perform, in order.
    pub fn step(&mut self, states: &mut StateManager, input: LoopInput) -> (actions: Vec<
        LoopAction,
    >)
        ensures
            (final(self)@, final(states)@, actions@) == step_spec(old(self)@, old(states)@, input),
    {
        let mut actions: Vec<LoopAction> = Vec::new();
        match input {
            LoopInput::Device(event) => {
                let generation = self.generation;
                self.generation = self.generation.wrapping_add(1);
                if self.pending.is_some() {
                    actions.push(LoopAction::CancelDebounce);
                }
                self.pending = None;
                match event {
                    DeviceEvent::HeadsetConnected => {
                        match states.take_if_saved() {
                            Some(saved) => actions.push(LoopAction::Restore(saved)),
                            None => {},
                        }
                    },
                    DeviceEvent::HeadsetDisconnected => {
                        actions.push(LoopAction::TakeSnapshot);
                        actions.push(LoopAction::StartDebounce(generation));
                        self.pending = Some(generation);
                    },
                }
            },
            LoopInput::SnapshotTaken(r) => {
                match r {
                    Some(s) => states.save(s),
                    None => {},
                }
            },
            LoopInput::RestoreFinished(ok) => {
                if ok {
                    actions.push(LoopAction::Notify(Notice::HeadsetConnected));
                }
            },
            LoopInput::DebounceElapsed(g) => {
                if self.pending == Some(g) && g.wrapping_add(1) == self.generation {
                    self.pending = None;
                    actions.push(LoopAction::Mute);
                }
            },
            LoopInput::MuteFinished(ok) => {
                if ok {
                    actions.push(LoopAction::Notify(Notice::HeadsetDisconnected));
                }
            },
        }
        proof {
            let (m2, st2, acts) = step_spec(old(self)@, old(states)@, input);
            assert(actions@ =~= acts);
        }
        actions
    }
}

/// The loop state and store after feeding `inputs` one by one.
pub open spec fn run(m: LoopState, st: SavedStates, inputs: Seq<LoopInput>) -> (
    LoopState,
    SavedStates,
)
    decreases inputs.len(),
{
    if inputs.len() == 0 {
        (m, st)
    } else {
        let (m1, st1, _a) = step_spec(m, st, inputs[0]);
        run(m1, st1, inputs.drop_first())
    }
}

/// How many headset events `inputs` holds.
pub open spec fn device_count(inputs: Seq<LoopInput>) -> nat
    decreases inputs.len(),
{
    if inputs.len() == 0 {
        0
    } else {
        (if inputs[0] is Device {
            1nat
        } else {
            0nat
        }) + device_count(inputs.drop_first())
    }
}

/// Whether `inputs` holds an answer to a snapshot.
pub open spec fn has_snapshot(inputs: Seq<LoopInput>) -> bool {
    exists|k: int| 0 <= k < inputs.len() && #[trigger] inputs[k] is SnapshotTaken
}

/// Each headset event advances the generation by one, modulo 2^64; nothing else
/// changes it.
pub proof fn lemma_generation_after_run(m: LoopState, st: SavedStates, inputs: Seq<LoopInput>)
    ensures
        run(m, st, inputs).0.generation as int == (m.generation as int + device_count(inputs))
            % 0x1_0000_0000_0000_0000,
    decreases inputs.len(),
{
    let modulus: int = 0x1_0000_0000_0000_0000;
    if inputs.len() == 0 {
        vstd::arithmetic::div_mod::lemma_small_mod(m.generation as nat, modulus as nat);
    } else {
        let (m1, st1, _a) = step_spec(m, st, inputs[0]);
        lemma_generation_after_run(m1, st1, inputs.drop_first());
        let d = device_count(inputs.drop_first());
        if inputs[0] is Device {
            let a = m.generation as int + 1;
            assert(m1.generation as int == a % modulus) by {
                if m.generation == u64::MAX {
                    vstd::arithmetic::div_mod::lemma_mod_self_0(modulus);
                } else {
                    vstd::arithmetic::div_mod::lemma_small_mod(a as nat, modulus as nat);
                }
            }
            vstd::arithmetic::div_mod::lemma_add_mod_noop_right(d as int, a, modulus);
        } else {
            assert(m1.generation == m.generation);
        }
    }
}

/// Inputs that are neither headset events nor snapshots leave the store as it is.
pub proof fn lemma_store_kept(m: LoopState, st: SavedStates, inputs: Seq<LoopInput>)
    requires
        device_count(inputs) == 0,
        !has_snapshot(inputs),
    ensures
        run(m, st, inputs).1 == st,
    decreases inputs.len(),
{
    if inputs.len() > 0 {
        let (m1, st1, _a) = step_spec(m, st, inputs[0]);
        assert(!(inputs[0] is SnapshotTaken));
        assert(!has_snapshot(inputs.drop_first())) by {
            if has_snapshot(inputs.drop_first()) {
                let k = choose|k: int|
                    0 <= k < inputs.drop_first().len()
                        && #[trigger] inputs.drop_first()[k] is SnapshotTaken;
                assert(inputs[k + 1] is SnapshotTaken);
            }
        }
        lemma_store_kept(m1, st1, inputs.drop_first());
    }
}

/// Whether `inputs` holds the running out of the debounce of generation `g`.
pub open spec fn has_elapse_of(inputs: Seq<LoopInput>, g: u64) -> bool {
    exists|k: int| 0 <= k < inputs.len() && #[trigger] inputs[k] == LoopInput::DebounceElapsed(g)
}

/// Without headset events, the running debounce stays the same until it runs out.
pub proof fn lemma_pending_kept(m: LoopState, st: SavedStates, inputs: Seq<LoopInput>, g: u64)
    requires
        device_count(inputs) == 0,
        !has_elapse_of(inputs, g),
        m.pending == Some(g),
    ensures
        run(m, st, inputs).0.pending == Some(g),
        run(m, st, inputs).0.generation == m.generation,
    decreases inputs.len(),
{
    if inputs.len() > 0 {
        let (m1, st1, _a) = step_spec(m, st, inputs[0]);
        assert(inputs[0] != LoopInput::DebounceElapsed(g));
        assert(m1 == m);
        assert(!has_elapse_of(inputs.drop_first(), g)) by {
            if has_elapse_of(inputs.drop_first(), g) {
                let k = choose|k: int|
                    0 <= k < inputs.drop_first().len() && #[trigger] inputs.drop_first()[k]
                        == LoopInput::DebounceElapsed(g);
                assert(inputs[k + 1] == LoopInput::DebounceElapsed(g));
            }
        }
        lemma_pending_kept(m1, st1, inputs.drop_first(), g);
    }
}

/// Without headset events, no debounce starts running.
pub proof fn lemma_none_pending_kept(m: LoopState, st: SavedStates, inputs: Seq<LoopInput>)
    requires
        device_count(inputs) == 0,
        m.pending is None,
    ensures
        run(m, st, inputs).0.pending is None,
    decreases inputs.len(),
{
    if inputs.len() > 0 {
        let (m1, st1, _a) = step_spec(m, st, inputs[0]);
        lemma_none_pending_kept(m1, st1, inputs.drop_first());
    }
}

/// A debounce that is not the one running never mutes: not after a reconnect, and
/// not for a generation that never started a debounce.
pub proof fn law_no_mute_without_pending(m: LoopState, st: SavedStates, g: u64)
    requires
        m.pending != Some(g),
    ensures
        step_spec(m, st, LoopInput::DebounceElapsed(g)).2 == Seq::<LoopAction>::empty(),
        step_spec(m, st, LoopInput::DebounceElapsed(g)).0 == m,
{
}

/// A debounce mutes at most once: after it has muted, any later running out of the
/// same debounce does nothing (unless 2^64 or more headset events come in between,
/// so that the generation comes round again).
pub proof fn law_at_most_one_mute(m: LoopState, st: SavedStates, g: u64, rest: Seq<LoopInput>)
    requires
        step_spec(m, st, LoopInput::DebounceElapsed(g)).2 == seq![LoopAction::Mute],
        device_count(rest) < 0x1_0000_0000_0000_0000,
    ensures
        ({
            let (m1, st1, _a) = step_spec(m, st, LoopInput::DebounceElapsed(g));
            let (m2, st2) = run(m1, st1, rest);
            step_spec(m2, st2, LoopInput::DebounceElapsed(g)).2 == Seq::<LoopAction>::empty()
        }),
{
    let modulus: int = 0x1_0000_0000_0000_0000;
    let (m1, st1, _a) = step_spec(m, st, LoopInput::DebounceElapsed(g));
    let (m2, st2) = run(m1, st1, rest);
    assert(m1.pending is None);
    assert(m1.generation == m.generation);
    assert(next_generation(g) == m.generation);
    if device_count(rest) == 0 {
        lemma_none_pending_kept(m1, st1, rest);
    } else {
        lemma_generation_after_run(m1, st1, rest);
        let d = device_count(rest) as int;
        let g1 = m1.generation as int;
        vstd::arithmetic::div_mod::lemma_small_mod(m1.generation as nat, modulus as nat);
        if m2.generation == m1.generation {
            assert(0 <= g1 + d < 2 * modulus);
            if g1 + d < modulus {
                vstd::arithmetic::div_mod::lemma_small_mod((g1 + d) as nat, modulus as nat);
            } else {
                vstd::arithmetic::div_mod::lemma_mod_sub_multiples_vanish(g1 + d, modulus);
                vstd::arithmetic::div_mod::lemma_small_mod(
                    (g1 + d - modulus) as nat,
                    modulus as nat,
                );
            }
        }
    }
}

/// A disconnect saves the audio state right away: the snapshot is asked for before
/// the debounce starts, and a running debounce is cancelled first.
pub proof fn law_disconnect_snapshots_then_debounces(m: LoopState, st: SavedStates)
    ensures
        ({
            let (m1, st1, a) = step_spec(
                m,
                st,
                LoopInput::Device(DeviceEvent::HeadsetDisconnected),
            );
            &&& a == cancel_actions(m.pending) + seq![
                LoopAction::TakeSnapshot,
                LoopAction::StartDebounce(m.generation),
            ]
            &&& m1.pending == Some(m.generation)
        }),
{
}

/// If no headset event follows a disconnect before its debounce runs out (and that
/// debounce has not run out before), the debounce mutes the system.
pub proof fn law_quiet_debounce_mutes(m: LoopState, st: SavedStates, rest: Seq<LoopInput>)
    requires
        device_count(rest) == 0,
        !has_elapse_of(rest, m.generation),
    ensures
        ({
            let (m1, st1, _a) = step_spec(
                m,
                st,
                LoopInput::Device(DeviceEvent::HeadsetDisconnected),
            );
            let (m2, st2) = run(m1, st1, rest);
            step_spec(m2, st2, LoopInput::DebounceElapsed(m.generation)).2 == seq![
                LoopAction::Mute,
            ]
        }),
{
    let (m1, st1, _a) = step_spec(m, st, LoopInput::Device(DeviceEvent::HeadsetDisconnected));
    lemma_generation_after_run(m1, st1, rest);
    lemma_pending_kept(m1, st1, rest, m.generation);
    let modulus: int = 0x1_0000_0000_0000_0000;
    vstd::arithmetic::div_mod::lemma_small_mod(m1.generation as nat, modulus as nat);
}

/// If any headset event follows a disconnect (fewer than 2^64 of them, so that the
/// generation does not come round again), the disconnect's debounce is stale and
/// does nothing: a quick reconnect is never followed by a mute.
pub proof fn law_stale_debounce_never_mutes(m: LoopState, st: SavedStates, rest: Seq<LoopInput>)
    requires
        0 < device_count(rest) < 0x1_0000_0000_0000_0000,
    ensures
        ({
            let (m1, st1, _a) = step_spec(
                m,
                st,
                LoopInput::Device(DeviceEvent::HeadsetDisconnected),
            );
            let (m2, st2) = run(m1, st1, rest);
            &&& step_spec(m2, st2, LoopInput::DebounceElapsed(m.generation)).2 == Seq::<
                LoopAction,
            >::empty()
            &&& step_spec(m2, st2, LoopInput::DebounceElapsed(m.generation)).0 == m2
        }),
{
    let modulus: int = 0x1_0000_0000_0000_0000;
    let (m1, st1, _a) = step_spec(m, st, LoopInput::Device(DeviceEvent::HeadsetDisconnected));
    lemma_generation_after_run(m1, st1, rest);
    let (m2, st2) = run(m1, st1, rest);
    let d = device_count(rest) as int;
    let g1 = m1.generation as int;
    vstd::arithmetic::div_mod::lemma_small_mod(m1.generation as nat, modulus as nat);
    if m2.generation == m1.generation {
        // (g1 + d) % M == g1 with 0 < d < M is impossible
        vstd::arithmetic::div_mod::lemma_fundamental_div_mod(g1 + d, modulus);
        assert(0 <= g1 + d < 2 * modulus);
        if g1 + d < modulus {
            vstd::arithmetic::div_mod::lemma_small_mod((g1 + d) as nat, modulus as nat);
        } else {
            vstd::arithmetic::div_mod::lemma_mod_sub_multiples_vanish(g1 + d, modulus);
            vstd::arithmetic::div_mod::lemma_small_mod((g1 + d - modulus) as nat, modulus as nat);
        }
    }
}

/// A reconnect after a disconnect whose snapshot was `s` restores exactly `s`, as
/// long as no other headset event or snapshot came in between; the snapshot is then
/// gone from the store.
pub proof fn law_reconnect_restores_snapshot(
    m: LoopState,
    st: SavedStates,
    s: AudioState,
    between: Seq<LoopInput>,
)
    requires
        device_count(between) == 0,
        !has_snapshot(between),
    ensures
        ({
            let (m1, st1, _a1) = step_spec(
                m,
                st,
                LoopInput::Device(DeviceEvent::HeadsetDisconnected),
            );
            let (m2, st2, _a2) = step_spec(m1, st1, LoopInput::SnapshotTaken(Some(s)));
            let (m3, st3) = run(m2, st2, between);
            let (m4, st4, a4) = step_spec(
                m3,
                st3,
                LoopInput::Device(DeviceEvent::HeadsetConnected),
            );
            &&& a4.last() == LoopAction::Restore(s)
            &&& st4.last is None
            &&& m4.pending is None
        }),
{
    let (m1, st1, _a1) = step_spec(m, st, LoopInput::Device(DeviceEvent::HeadsetDisconnected));
    let (m2, st2, _a2) = step_spec(m1, st1, LoopInput::SnapshotTaken(Some(s)));
    lemma_store_kept(m2, st2, between);
}

/// A restore or a mute is announced exactly when it succeeded.
pub proof fn law_notify_only_on_success(m: LoopState, st: SavedStates, ok: bool)
    ensures
        step_spec(m, st, LoopInput::RestoreFinished(ok)).2 == (if ok {
            seq![LoopAction::Notify(Notice::HeadsetConnected)]
        } else {
            Seq::empty()
        }),
        step_spec(m, st, LoopInput::MuteFinished(ok)).2 == (if ok {
            seq![LoopAction::Notify(Notice::HeadsetDisconnected)]
        } else {
            Seq::empty()
        }),
        step_spec(m, st, LoopInput::RestoreFinished(ok)).0 == m,
        step_spec(m, st, LoopInput::MuteFinished(ok)).1 == st,
{
}

/// A reconnect with no saved headset snapshot restores nothing: its only action is
/// cancelling a running debounce, and the store is left as it was.
pub proof fn law_connect_without_snapshot_restores_nothing(m: LoopState, st: SavedStates)
    requires
        st.last is None,
    ensures
        step_spec(m, st, LoopInput::Device(DeviceEvent::HeadsetConnected)).2 == (if m.pending is Some {
            seq![LoopAction::CancelDebounce]
        } else {
            Seq::<LoopAction>::empty()
        }),
        step_spec(m, st, LoopInput::Device(DeviceEvent::HeadsetConnected)).1.per_device
            == st.per_device,
        step_spec(m, st, LoopInput::Device(DeviceEvent::HeadsetConnected)).1.last is None,
{
    assert(cancel_actions(m.pending) + Seq::<LoopAction>::empty() =~= cancel_actions(m.pending));
}

/// Every action has a cause in the input and the state: a restore gives back exactly
/// the saved headset snapshot on a reconnect; a mute answers the running out of the
/// debounce that is running; a snapshot and a debounce start only on a disconnect,
/// the debounce carrying the disconnect's generation; a cancel only on a headset
/// event while a debounce runs; a notification only after a successful restore or
/// mute. The per-device snapshots are never touched, and the headset snapshot is
/// dropped on a reconnect, set by a snapshot and otherwise kept.
pub proof fn law_actions_have_causes(m: LoopState, st: SavedStates, input: LoopInput)
    ensures
        ({
            let (m2, st2, a) = step_spec(m, st, input);
            &&& forall|k: int|
                0 <= k < a.len() ==> match #[trigger] a[k] {
                    LoopAction::Restore(s) => input == LoopInput::Device(
                        DeviceEvent::HeadsetConnected,
                    ) && st.last == Some(s),
                    LoopAction::Mute => m.pending is Some && input == LoopInput::DebounceElapsed(
                        m.pending->0,
                    ),
                    LoopAction::StartDebounce(g) => input == LoopInput::Device(
                        DeviceEvent::HeadsetDisconnected,
                    ) && g == m.generation,
                    LoopAction::TakeSnapshot => input == LoopInput::Device(
                        DeviceEvent::HeadsetDisconnected,
                    ),
                    LoopAction::CancelDebounce => input is Device && m.pending is Some,
                    LoopAction::Notify(n) => (n == Notice::HeadsetConnected && input
                        == LoopInput::RestoreFinished(true)) || (n == Notice::HeadsetDisconnected
                        && input == LoopInput::MuteFinished(true)),
                }
            &&& st2.per_device == st.per_device
            &&& st2.last == match input {
                LoopInput::Device(DeviceEvent::HeadsetConnected) => None,
                LoopInput::SnapshotTaken(Some(s)) => Some(s),
                _ => st.last,
            }
        }),
{
    let (m2, st2, a) = step_spec(m, st, input);
    assert forall|k: int| 0 <= k < a.len() implies match #[trigger] a[k] {
        LoopAction::Restore(s) => input == LoopInput::Device(DeviceEvent::HeadsetConnected)
            && st.last == Some(s),
        LoopAction::Mute => m.pending is Some && input == LoopInput::DebounceElapsed(
            m.pending->0,
        ),
        LoopAction::StartDebounce(g) => input == LoopInput::Device(
            DeviceEvent::HeadsetDisconnected,
        ) && g == m.generation,
        LoopAction::TakeSnapshot => input == LoopInput::Device(DeviceEvent::HeadsetDisconnected),
        LoopAction::CancelDebounce => input is Device && m.pending is Some,
        LoopAction::Notify(n) => (n == Notice::HeadsetConnected && input
            == LoopInput::RestoreFinished(true)) || (n == Notice::HeadsetDisconnected && input
            == LoopInput::MuteFinished(true)),
    } by {
        let c = cancel_actions(m.pending);
        if m.pending is Some {
            assert(c[0] == LoopAction::CancelDebounce);
        }
        match input {
            LoopInput::Device(DeviceEvent::HeadsetConnected) => {
                if k >= c.len() {
                    assert(st.last is Some);
                }
            },
            LoopInput::Device(DeviceEvent::HeadsetDisconnected) => {
                if k >= c.len() {
                    assert(k - c.len() == 0 || k - c.len() == 1);
                }
            },
            _ => {},
        }
    }
}

} // verus!
