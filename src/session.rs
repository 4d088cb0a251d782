use vstd::prelude::*;
use crate::device::KnxError;
use crate::resolver::SessionDescriptor;

verus! {

/// Size of the buffer each interrupt read fills.
pub const PACKET_SIZE: usize = 64;

/// Time each interrupt read may block, in milliseconds.
pub const READ_TIMEOUT_MS: u64 = 1000;

/// Where a session stands. Every step goes forward; any failure ends it.
#[derive(Clone, Copy, Debug, PartialEq, Eq, Structural)]
pub enum SessionState {
    Unopened,
    Opened,
    DriverChecked,
    Claimed,
    Reading,
    Terminated,
}

/// What the caller is asked to do next.
#[derive(Clone, Copy, Debug, PartialEq, Eq, Structural)]
pub enum Action {
    /// Open the device for I/O.
    Open,
    /// Ask whether a kernel driver holds the interface.
    QueryDriver { interface: u8 },
    /// Detach the kernel driver from the interface.
    DetachDriver { interface: u8 },
    /// Claim the interface for this process.
    ClaimInterface { interface: u8 },
    /// Read one interrupt packet of at most `buffer_len` bytes.
    ReadInterrupt { endpoint: u8, buffer_len: usize, timeout_ms: u64 },
    /// Write out the first `len` bytes of the last packet read.
    Emit { len: usize },
    /// Stop: the session failed with this error.
    Stop { error: KnxError },
}

/// How an interrupt read ended.
#[derive(Clone, Copy, Debug, PartialEq, Eq, Structural)]
pub enum ReadOutcome {
    /// This many bytes arrived.
    Data(usize),
    TimedOut,
    Failed,
}

/// The outcome of the action last asked for.
#[derive(Clone, Copy, Debug, PartialEq, Eq, Structural)]
pub enum SessionEvent {
    Opened { ok: bool },
    /// Whether a kernel driver is active, or `None` where the query failed.
    DriverQueried { active: Option<bool> },
    Detached { ok: bool },
    Claimed { ok: bool },
    Read { outcome: ReadOutcome },
    Emitted,
}

/// The read asked for on the descriptor's input endpoint.
pub open spec fn read_action(d: SessionDescriptor) -> Action {
    Action::ReadInterrupt {
        endpoint: d.input_endpoint_address,
        buffer_len: PACKET_SIZE,
        timeout_ms: READ_TIMEOUT_MS,
    }
}

/// Stops the session with `error`.
pub open spec fn stop(error: KnxError) -> (SessionState, Action) {
    (SessionState::Terminated, Action::Stop { error })
}

/// The session's transition on an event, given the resolved descriptor.
pub open spec fn step_spec(state: SessionState, d: SessionDescriptor, event: SessionEvent) -> (
    SessionState,
    Action,
) {
    let iface = d.interface_number;
    match (state, event) {
        (SessionState::Unopened, SessionEvent::Opened { ok }) => if ok {
            (SessionState::Opened, Action::QueryDriver { interface: iface })
        } else {
            stop(KnxError::DeviceOpenFailed)
        },
        (SessionState::Opened, SessionEvent::DriverQueried { active }) => match active {
            None => stop(KnxError::DriverDetachFailed),
            Some(true) => (SessionState::Opened, Action::DetachDriver { interface: iface }),
            Some(false) => (SessionState::DriverChecked, Action::ClaimInterface { interface: iface }),
        },
        (SessionState::Opened, SessionEvent::Detached { ok }) => if ok {
            (SessionState::DriverChecked, Action::ClaimInterface { interface: iface })
        } else {
            stop(KnxError::DriverDetachFailed)
        },
        (SessionState::DriverChecked, SessionEvent::Claimed { ok }) => if ok {
            (SessionState::Claimed, read_action(d))
        } else {
            stop(KnxError::InterfaceClaimFailed)
        },
        (SessionState::Claimed, SessionEvent::Read { outcome })
        | (SessionState::Reading, SessionEvent::Read { outcome }) => match outcome {
            ReadOutcome::Data(n) => if n <= PACKET_SIZE {
                (SessionState::Reading, Action::Emit { len: n })
            } else {
                stop(KnxError::ReadFailed)
            },
            ReadOutcome::TimedOut => stop(KnxError::ReadTimeout),
            ReadOutcome::Failed => stop(KnxError::ReadFailed),
        },
        (SessionState::Reading, SessionEvent::Emitted) => (SessionState::Reading, read_action(d)),
        _ => stop(KnxError::UnexpectedEvent),
    }
}

/// The state a session starts in, and its first action.
pub fn start() -> (r: (SessionState, Action))
    ensures
        r == (SessionState::Unopened, Action::Open),
{
    (SessionState::Unopened, Action::Open)
}

/// Decides the session's next state and action from its state and the
/// outcome of the last action. A read that times out or fails ends the
/// session: nothing is retried.
pub fn step(state: SessionState, d: &SessionDescriptor, event: SessionEvent) -> (r: (
    SessionState,
    Action,
))
    ensures
        r == step_spec(state, *d, event),
        event == (SessionEvent::Read { outcome: ReadOutcome::TimedOut }) && (state
            == SessionState::Claimed || state == SessionState::Reading) ==> r == stop(
            KnxError::ReadTimeout,
        ),
        r.0 == SessionState::Terminated <==> r.1 is Stop,
        state == SessionState::Terminated ==> r.0 == SessionState::Terminated,
{
    let iface = d.interface_number;
    let read = Action::ReadInterrupt {
        endpoint: d.input_endpoint_address,
        buffer_len: PACKET_SIZE,
        timeout_ms: READ_TIMEOUT_MS,
    };
    match (state, event) {
        (SessionState::Unopened, SessionEvent::Opened { ok }) => if ok {
            (SessionState::Opened, Action::QueryDriver { interface: iface })
        } else {
            (SessionState::Terminated, Action::Stop { error: KnxError::DeviceOpenFailed })
        },
        (SessionState::Opened, SessionEvent::DriverQueried { active }) => match active {
            None => (SessionState::Terminated, Action::Stop { error: KnxError::DriverDetachFailed }),
            Some(true) => (SessionState::Opened, Action::DetachDriver { interface: iface }),
            Some(false) => (SessionState::DriverChecked, Action::ClaimInterface { interface: iface }),
        },
        (SessionState::Opened, SessionEvent::Detached { ok }) => if ok {
            (SessionState::DriverChecked, Action::ClaimInterface { interface: iface })
        } else {
            (SessionState::Terminated, Action::Stop { error: KnxError::DriverDetachFailed })
        },
        (SessionState::DriverChecked, SessionEvent::Claimed { ok }) => if ok {
            (SessionState::Claimed, read)
        } else {
            (SessionState::Terminated, Action::Stop { error: KnxError::InterfaceClaimFailed })
        },
        (SessionState::Claimed, SessionEvent::Read { outcome })
        | (SessionState::Reading, SessionEvent::Read { outcome }) => match outcome {
            ReadOutcome::Data(n) => if n <= PACKET_SIZE {
                (SessionState::Reading, Action::Emit { len: n })
            } else {
                (SessionState::Terminated, Action::Stop { error: KnxError::ReadFailed })
            },
            ReadOutcome::TimedOut => (SessionState::Terminated, Action::Stop { error: KnxError::ReadTimeout }),
            ReadOutcome::Failed => (SessionState::Terminated, Action::Stop { error: KnxError::ReadFailed }),
        },
        (SessionState::Reading, SessionEvent::Emitted) => (SessionState::Reading, read),
        _ => (SessionState::Terminated, Action::Stop { error: KnxError::UnexpectedEvent }),
    }
}

} // verus!
