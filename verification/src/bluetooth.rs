use vstd::prelude::*;

verus! {

/// A headset came or went.
#[derive(Debug, Clone, Copy, PartialEq, Eq, Structural)]
pub enum DeviceEvent {
    HeadsetConnected,
    HeadsetDisconnected,
}

/// The state an audio endpoint reports when it changes (the endpoint state flags
/// of the system's device notifications).
#[derive(Debug, Clone, Copy, PartialEq, Eq, Structural)]
pub enum EndpointState {
    Active,
    Disabled,
    NotPresent,
    Unplugged,
    /// Any value outside the four flags above.
    Other,
}

/// The form factor an audio endpoint reports, as far as this library tells them apart.
#[derive(Debug, Clone, Copy, PartialEq, Eq, Structural)]
pub enum FormFactor {
    Headphones,
    Headset,
    Other,
}

/// Which headset event an endpoint state change stands for, if the endpoint is a headset.
pub open spec fn transition_of(state: EndpointState) -> Option<DeviceEvent> {
    match state {
        EndpointState::Active => Some(DeviceEvent::HeadsetConnected),
        EndpointState::NotPresent => Some(DeviceEvent::HeadsetDisconnected),
        EndpointState::Unplugged => Some(DeviceEvent::HeadsetDisconnected),
        _ => None,
    }
}

/// A change to `Active` is a connect; a change to `NotPresent` or `Unplugged` is a
/// disconnect; any other change is ignored (and the device is not even looked up).
pub fn endpoint_transition(state: EndpointState) -> (r: Option<DeviceEvent>)
    ensures
        r == transition_of(state),
{
    match state {
        EndpointState::Active => Some(DeviceEvent::HeadsetConnected),
        EndpointState::NotPresent => Some(DeviceEvent::HeadsetDisconnected),
        EndpointState::Unplugged => Some(DeviceEvent::HeadsetDisconnected),
        _ => None,
    }
}

/// Whether an endpoint counts as a headset. `form_factor` is `None` when the
/// endpoint's form-factor property is not an unsigned 32-bit value.
pub fn is_headphone_form_factor(form_factor: Option<FormFactor>) -> (r: bool)
    ensures
        r <==> (form_factor == Some(FormFactor::Headphones) || form_factor == Some(
            FormFactor::Headset,
        )),
{
    match form_factor {
        Some(FormFactor::Headphones) => true,
        Some(FormFactor::Headset) => true,
        _ => false,
    }
}

/// Exactly an endpoint becoming active is a connect, exactly one going away
/// (not present or unplugged) is a disconnect, and every other change (disabled, or
/// any other value) gives no event.
pub proof fn law_transitions(state: EndpointState)
    ensures
        (transition_of(state) == Some(DeviceEvent::HeadsetConnected)) <==> state
            == EndpointState::Active,
        (transition_of(state) == Some(DeviceEvent::HeadsetDisconnected)) <==> (state
            == EndpointState::NotPresent || state == EndpointState::Unplugged),
        (transition_of(state) is None) <==> (state == EndpointState::Disabled || state
            == EndpointState::Other),
{
}

} // verus!
