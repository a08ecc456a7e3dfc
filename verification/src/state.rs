use vstd::hash_map::StringHashMap;
use vstd::prelude::*;

verus! {

/// A snapshot of the system audio: whether it was muted and its master volume.
///
/// The master volume is a scalar level in `[0, 1]`; the library carries it as the
/// IEEE-754 bit pattern of that `f32`, so that a snapshot is restored bit for bit.
#[derive(Debug, Clone, Copy, PartialEq, Eq, Structural)]
pub struct AudioState {
    pub was_muted: bool,
    pub volume_bits: u32,
}

impl Default for AudioState {
    /// Not muted, volume `0.0` (whose bit pattern is `0`).
    fn default() -> (s: AudioState)
        ensures
            s == (AudioState { was_muted: false, volume_bits: 0 }),
    {
        AudioState { was_muted: false, volume_bits: 0 }
    }
}

/// What a `StateManager` holds: the snapshot saved for each device id, and the
/// snapshot saved for the headset as a whole (the one the event loop uses).
pub struct SavedStates {
    pub per_device: Map<Seq<char>, AudioState>,
    pub last: Option<AudioState>,
}

/// Storage for audio snapshots taken when a headset goes away.
pub struct StateManager {
    saved: StringHashMap<AudioState>,
    last: Option<AudioState>,
}

impl View for StateManager {
    type V = SavedStates;

    closed spec fn view(&self) -> SavedStates {
        SavedStates { per_device: self.saved@, last: self.last }
    }
}

/// The store after saving `state` for `id`.
pub open spec fn saved_for_device(st: SavedStates, id: Seq<char>, state: AudioState) -> SavedStates {
    SavedStates { per_device: st.per_device.insert(id, state), last: st.last }
}

/// What taking the snapshot of `id` returns.
pub open spec fn taken_for_device(st: SavedStates, id: Seq<char>) -> Option<AudioState> {
    if st.per_device.contains_key(id) {
        Some(st.per_device[id])
    } else {
        None
    }
}

/// The store after taking the snapshot of `id`.
pub open spec fn after_take_for_device(st: SavedStates, id: Seq<char>) -> SavedStates {
    SavedStates { per_device: st.per_device.remove(id), last: st.last }
}

/// The store after saving `state` as the headset snapshot.
pub open spec fn saved_last(st: SavedStates, state: AudioState) -> SavedStates {
    SavedStates { per_device: st.per_device, last: Some(state) }
}

/// The store after taking the headset snapshot.
pub open spec fn after_take_last(st: SavedStates) -> SavedStates {
    SavedStates { per_device: st.per_device, last: None }
}

impl StateManager {
    /// An empty store.
    pub fn new() -> (m: StateManager)
        ensures
            m@.per_device == Map::<Seq<char>, AudioState>::empty(),
            m@.last is None,
    {
        StateManager { saved: StringHashMap::new(), last: None }
    }

    /// Saves `state` for `device_id`, replacing any snapshot saved for it before.
    pub fn save_for_device(&mut self, device_id: String, state: AudioState)
        ensures
            final(self)@ == saved_for_device(old(self)@, device_id@, state),
    {
        self.saved.insert(device_id, state);
    }

    /// Takes the snapshot saved for `device_id`, returning `None` if there is none;
    /// the snapshot is removed from the store.
    pub fn take_for_device(&mut self, device_id: &str) -> (r: Option<AudioState>)
        ensures
            r == taken_for_device(old(self)@, device_id@),
            final(self)@ == after_take_for_device(old(self)@, device_id@),
    {
        let r = match self.saved.get(device_id) {
            Some(s) => Some(*s),
            None => None,
        };
        self.saved.remove(device_id);
        r
    }

    /// Saves `state` as the headset snapshot, replacing the one saved before.
    pub fn save(&mut self, state: AudioState)
        ensures
            final(self)@ == saved_last(old(self)@, state),
    {
        self.last = Some(state);
    }

    /// Takes the headset snapshot if one is saved; the store no longer holds it.
    pub fn take_if_saved(&mut self) -> (r: Option<AudioState>)
        ensures
            r == old(self)@.last,
            final(self)@ == after_take_last(old(self)@),
    {
        let r = self.last;
        self.last = None;
        r
    }
}

/// Taking the snapshot of a device right after saving one for it gives that
/// snapshot back, and leaves the store without an entry for the device.
pub proof fn law_take_returns_saved(st: SavedStates, id: Seq<char>, state: AudioState)
    ensures
        taken_for_device(saved_for_device(st, id, state), id) == Some(state),
        after_take_for_device(saved_for_device(st, id, state), id).per_device
            == st.per_device.remove(id),
        taken_for_device(after_take_for_device(saved_for_device(st, id, state), id), id)
            is None,
{
    assert(after_take_for_device(saved_for_device(st, id, state), id).per_device =~= st.per_device.remove(id));
}

/// Saving or taking the snapshot of one device leaves the snapshot of any other
/// device as it was.
pub proof fn law_devices_independent(
    st: SavedStates,
    id: Seq<char>,
    other: Seq<char>,
    state: AudioState,
)
    requires
        id != other,
    ensures
        taken_for_device(saved_for_device(st, id, state), other) == taken_for_device(st, other),
        taken_for_device(after_take_for_device(st, id), other) == taken_for_device(st, other),
{
}

/// The headset snapshot, once saved, is given back by the next take, and a
/// second take finds nothing; a later save replaces an earlier one.
pub proof fn law_last_snapshot(st: SavedStates, first: AudioState, second: AudioState)
    ensures
        saved_last(st, first).last == Some(first),
        after_take_last(saved_last(st, first)).last is None,
        saved_last(saved_last(st, first), second).last == Some(second),
        after_take_last(st).per_device == st.per_device,
        saved_last(st, first).per_device == st.per_device,
{
}

/// Taking a device's snapshot removes that device from the store and nothing else:
/// afterwards the device has no entry (so the next take finds nothing), every other
/// device keeps its snapshot, no entry is added, and the headset snapshot is kept.
/// What the take returns is the snapshot the store held, or nothing if it held none.
pub proof fn law_take_removes_only_that_device(st: SavedStates, id: Seq<char>)
    ensures
        !after_take_for_device(st, id).per_device.contains_key(id),
        taken_for_device(after_take_for_device(st, id), id) is None,
        forall|k: Seq<char>|
            k != id ==> (#[trigger] after_take_for_device(st, id).per_device.contains_key(k)
                <==> st.per_device.contains_key(k)),
        forall|k: Seq<char>|
            k != id && st.per_device.contains_key(k) ==> #[trigger] after_take_for_device(
                st,
                id,
            ).per_device[k] == st.per_device[k],
        after_take_for_device(st, id).last == st.last,
        st.per_device.contains_key(id) ==> taken_for_device(st, id) == Some(st.per_device[id]),
        !st.per_device.contains_key(id) ==> taken_for_device(st, id) is None,
        !st.per_device.contains_key(id) ==> after_take_for_device(st, id).per_device
            == st.per_device,
{
    if !st.per_device.contains_key(id) {
        assert(st.per_device.remove(id) =~= st.per_device);
    }
}

} // verus!
