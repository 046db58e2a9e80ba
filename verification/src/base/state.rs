//! The connection state of a device and its allowed transitions.

use crate::base::error::{ErrorCode, QedlError};
use crate::text::push_str;
use vstd::prelude::*;

verus! {

#[derive(Debug, Clone, Copy, PartialEq, Eq, Hash, Structural)]
pub enum DeviceState {
    Disconnected,
    Connected,
    Ready,
    Busy,
    Resetting,
    Error,
}

/// The transitions a device may take: the normal flow, error recovery and a
/// reconnect in the middle of an operation.
pub open spec fn transition_allowed(from: DeviceState, to: DeviceState) -> bool {
    ||| from == DeviceState::Disconnected && to == DeviceState::Connected
    ||| from == DeviceState::Connected && to == DeviceState::Ready
    ||| from == DeviceState::Ready && to == DeviceState::Busy
    ||| from == DeviceState::Busy && to == DeviceState::Ready
    ||| from == DeviceState::Ready && to == DeviceState::Resetting
    ||| from == DeviceState::Resetting && to == DeviceState::Connected
    ||| from == DeviceState::Ready && to == DeviceState::Disconnected
    ||| from == DeviceState::Connected && to == DeviceState::Error
    ||| from == DeviceState::Busy && to == DeviceState::Error
    ||| from == DeviceState::Error && to == DeviceState::Disconnected
    ||| from == DeviceState::Error && to == DeviceState::Resetting
    ||| from == DeviceState::Error && to == DeviceState::Connected
    ||| from == DeviceState::Busy && to == DeviceState::Connected
    ||| from == DeviceState::Ready && to == DeviceState::Connected
}

/// The name `{:?}` gives a state.
pub open spec fn state_name(s: DeviceState) -> Seq<char> {
    match s {
        DeviceState::Disconnected => "Disconnected"@,
        DeviceState::Connected => "Connected"@,
        DeviceState::Ready => "Ready"@,
        DeviceState::Busy => "Busy"@,
        DeviceState::Resetting => "Resetting"@,
        DeviceState::Error => "Error"@,
    }
}

/// The description of a state.
pub open spec fn state_description(s: DeviceState) -> Seq<char> {
    match s {
        DeviceState::Disconnected => "device not connected"@,
        DeviceState::Connected => "device connected, waiting for handshake"@,
        DeviceState::Ready => "device ready for operations"@,
        DeviceState::Busy => "device is busy with an operation"@,
        DeviceState::Resetting => "device is resetting"@,
        DeviceState::Error => "device is in error state"@,
    }
}

/// A refused transition.
#[derive(Debug)]
pub struct StateError {
    pub from: DeviceState,
    pub to: DeviceState,
}

/// The message of a refused transition.
pub open spec fn state_error_message(from: DeviceState, to: DeviceState) -> Seq<char> {
    "invalid state transition from "@ + state_name(from) + " to "@ + state_name(to)
}

/// The name `{:?}` gives a state.
pub fn state_name_str(s: DeviceState) -> (r: &'static str)
    ensures
        r@ == state_name(s),
{
    match s {
        DeviceState::Disconnected => "Disconnected",
        DeviceState::Connected => "Connected",
        DeviceState::Ready => "Ready",
        DeviceState::Busy => "Busy",
        DeviceState::Resetting => "Resetting",
        DeviceState::Error => "Error",
    }
}

impl StateError {
    /// The top-level error for this refusal.
    pub fn to_qedl_error(&self) -> (e: QedlError)
        ensures
            e matches QedlError::WithCode { code, message } && code == ErrorCode::InvalidArgument
                && message@ == state_error_message(self.from, self.to),
    {
        let mut message = String::new();
        push_str(&mut message, "invalid state transition from ");
        push_str(&mut message, state_name_str(self.from));
        push_str(&mut message, " to ");
        push_str(&mut message, state_name_str(self.to));
        assert(message@ =~= state_error_message(self.from, self.to));
        QedlError::WithCode { code: ErrorCode::InvalidArgument, message }
    }
}

impl DeviceState {
    /// Moves to `target` when the transition is allowed.
    pub fn transition(self, target: DeviceState) -> (r: Result<DeviceState, StateError>)
        ensures
            transition_allowed(self, target) ==> r == Ok::<DeviceState, StateError>(target),
            !transition_allowed(self, target) ==> (r matches Err(e) && e.from == self && e.to
                == target),
    {
        let ok = match (self, target) {
            (DeviceState::Disconnected, DeviceState::Connected) => true,
            (DeviceState::Connected, DeviceState::Ready) => true,
            (DeviceState::Ready, DeviceState::Busy) => true,
            (DeviceState::Busy, DeviceState::Ready) => true,
            (DeviceState::Ready, DeviceState::Resetting) => true,
            (DeviceState::Resetting, DeviceState::Connected) => true,
            (DeviceState::Ready, DeviceState::Disconnected) => true,
            (DeviceState::Connected, DeviceState::Error) => true,
            (DeviceState::Busy, DeviceState::Error) => true,
            (DeviceState::Error, DeviceState::Disconnected) => true,
            (DeviceState::Error, DeviceState::Resetting) => true,
            (DeviceState::Error, DeviceState::Connected) => true,
            (DeviceState::Busy, DeviceState::Connected) => true,
            (DeviceState::Ready, DeviceState::Connected) => true,
            _ => false,
        };
        if ok {
            Ok(target)
        } else {
            Err(StateError { from: self, to: target })
        }
    }

    /// Whether the transition to `target` is allowed.
    pub fn can_transition(self, target: DeviceState) -> (r: bool)
        ensures
            r == transition_allowed(self, target),
    {
        self.transition(target).is_ok()
    }

    /// Only a ready device runs operations.
    pub fn can_execute(self) -> (r: bool)
        ensures
            r == (self == DeviceState::Ready),
    {
        self == DeviceState::Ready
    }

    pub fn description(&self) -> (r: &'static str)
        ensures
            r@ == state_description(*self),
    {
        match self {
            DeviceState::Disconnected => "device not connected",
            DeviceState::Connected => "device connected, waiting for handshake",
            DeviceState::Ready => "device ready for operations",
            DeviceState::Busy => "device is busy with an operation",
            DeviceState::Resetting => "device is resetting",
            DeviceState::Error => "device is in error state",
        }
    }
}

/// No state is a dead end: from every state some transition is allowed.
pub proof fn lemma_no_dead_end(s: DeviceState)
    ensures
        exists|t: DeviceState| transition_allowed(s, t),
{
    match s {
        DeviceState::Disconnected => assert(transition_allowed(s, DeviceState::Connected)),
        DeviceState::Connected => assert(transition_allowed(s, DeviceState::Ready)),
        DeviceState::Ready => assert(transition_allowed(s, DeviceState::Busy)),
        DeviceState::Busy => assert(transition_allowed(s, DeviceState::Ready)),
        DeviceState::Resetting => assert(transition_allowed(s, DeviceState::Connected)),
        DeviceState::Error => assert(transition_allowed(s, DeviceState::Disconnected)),
    }
}

/// A device never moves to the state it is in: every allowed transition
/// changes the state.
pub proof fn lemma_no_self_transition(s: DeviceState)
    ensures
        !transition_allowed(s, s),
{
}

} // verus!
