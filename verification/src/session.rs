use crate::error::ErrorKind;
use vstd::prelude::*;

verus! {

/// Time the host lets pass before it tries to reach the broker, in
/// milliseconds.
pub const GRACE_MILLIS: u64 = 500;

/// Exit status of the host when it stops for want of a connected device.
pub const EXIT_NO_DEVICE: u8 = 1;

/// A device as the broker lists it.
#[derive(Debug, Clone, Copy, PartialEq, Eq, Structural)]
pub struct DeviceRecord {
    pub serial_id: u64,
    pub is_connected: bool,
}

/// Index of the first connected device at or after `start`, if there is one.
pub open spec fn first_connected_from(devices: Seq<DeviceRecord>, start: int) -> Option<int>
    decreases devices.len() - start,
{
    if start < 0 || start >= devices.len() {
        None
    } else if devices[start].is_connected {
        Some(start)
    } else {
        first_connected_from(devices, start + 1)
    }
}

/// Index of the first connected device in the order of the list.
pub open spec fn first_connected(devices: Seq<DeviceRecord>) -> Option<int> {
    first_connected_from(devices, 0)
}

/// The device that a session talks to: the first connected one.
pub open spec fn selected(devices: Seq<DeviceRecord>) -> Option<DeviceRecord> {
    match first_connected(devices) {
        Some(i) => Some(devices[i]),
        None => None,
    }
}

proof fn lemma_first_connected_from(devices: Seq<DeviceRecord>, start: int)
    requires
        0 <= start,
    ensures
        match first_connected_from(devices, start) {
            Some(i) => {
                &&& start <= i < devices.len()
                &&& devices[i].is_connected
                &&& forall|j: int| start <= j < i ==> !devices[j].is_connected
            },
            None => forall|j: int| start <= j < devices.len() ==> !devices[j].is_connected,
        },
    decreases devices.len() - start,
{
    if start < devices.len() && !devices[start].is_connected {
        lemma_first_connected_from(devices, start + 1);
    }
}

/// The selection is the connected device that no connected device precedes,
/// and there is none exactly when no device is connected.
pub proof fn lemma_first_connected(devices: Seq<DeviceRecord>)
    ensures
        match first_connected(devices) {
            Some(i) => {
                &&& 0 <= i < devices.len()
                &&& devices[i].is_connected
                &&& forall|j: int| 0 <= j < i ==> !devices[j].is_connected
            },
            None => forall|j: int| 0 <= j < devices.len() ==> !devices[j].is_connected,
        },
{
    lemma_first_connected_from(devices, 0);
}

/// Picks the device to talk to: the first in the list that is connected.
pub fn select_device(devices: &Vec<DeviceRecord>) -> (chosen: Option<DeviceRecord>)
    ensures
        chosen == selected(devices@),
{
    let n: usize = devices.len();
    let mut i: usize = 0;
    while i < n
        invariant
            i <= n,
            n == devices@.len(),
            first_connected(devices@) == first_connected_from(devices@, i as int),
        decreases n - i,
    {
        if devices[i].is_connected {
            return Some(devices[i]);
        }
        i += 1;
    }
    None
}

/// How a session is set up.
#[derive(Debug, Clone, Copy, PartialEq, Eq, Structural)]
pub struct SessionConfig {
    /// Start the companion broker before connecting.
    pub launch_broker: bool,
    /// Start over where no device is connected, in place of stopping.
    pub auto_retry: bool,
    /// Time to let pass before each attempt to connect, in milliseconds.
    pub grace_millis: u64,
}

/// Where a session stands.
#[derive(Debug, Clone, Copy, PartialEq, Eq, Structural)]
pub enum SessionState {
    /// No link to the broker.
    Disconnected,
    /// Reaching the broker and looking for a device.
    Connecting,
    /// Pushing telemetry to the device with this serial number.
    Connected { serial_id: u64 },
    /// Given up; nothing follows.
    Stopped,
}

/// What happened outside since the last step.
#[derive(Debug, Clone, PartialEq, Eq)]
pub enum SessionEvent {
    /// The program started, or the delay of a retry has passed.
    Start,
    /// A connection to the broker stands.
    BrokerReached,
    /// The broker did not answer.
    BrokerUnreachable,
    /// The broker listed its devices.
    Devices(Vec<DeviceRecord>),
    /// A telemetry message was handed to the transport.
    PushDelivered,
    /// A telemetry message was refused; the link itself still stands.
    PushFailed,
    /// The link to the broker broke.
    LinkLost,
}

/// A session event with its list as a sequence.
pub enum EventView {
    Start,
    BrokerReached,
    BrokerUnreachable,
    Devices(Seq<DeviceRecord>),
    PushDelivered,
    PushFailed,
    LinkLost,
}

impl View for SessionEvent {
    type V = EventView;

    open spec fn view(&self) -> EventView {
        match self {
            SessionEvent::Start => EventView::Start,
            SessionEvent::BrokerReached => EventView::BrokerReached,
            SessionEvent::BrokerUnreachable => EventView::BrokerUnreachable,
            SessionEvent::Devices(list) => EventView::Devices(list@),
            SessionEvent::PushDelivered => EventView::PushDelivered,
            SessionEvent::PushFailed => EventView::PushFailed,
            SessionEvent::LinkLost => EventView::LinkLost,
        }
    }
}

/// What the caller is to do next.
#[derive(Debug, Clone, Copy, PartialEq, Eq, Structural)]
pub enum SessionAction {
    /// Start the broker if asked to and put up with its absence, let the
    /// grace time pass, then try to reach the broker.
    Connect { launch_broker: bool, grace_millis: u64 },
    /// Ask the broker for its devices.
    Enumerate,
    /// Push the next telemetry message to this device at the next tick, after
    /// logging the error of the last push if there was one.
    Push { serial_id: u64, logged: Option<ErrorKind> },
    /// Show the error, let the delay pass, then start over.
    Retry { error: ErrorKind, delay_millis: u64 },
    /// Show the error and end the process with this status.
    Exit { error: ErrorKind, code: u8 },
    /// Nothing: the event means nothing in this state.
    Idle,
}

/// A step of the session: the state it leads to and what to do there.
#[derive(Debug, Clone, Copy, PartialEq, Eq, Structural)]
pub struct Transition {
    pub state: SessionState,
    pub action: SessionAction,
}

/// The session's transition relation.
pub open spec fn spec_step(config: SessionConfig, state: SessionState, event: EventView)
    -> Transition {
    let retry = |error: ErrorKind|
        Transition {
            state: SessionState::Disconnected,
            action: SessionAction::Retry { error, delay_millis: config.grace_millis },
        };
    let idle = Transition { state, action: SessionAction::Idle };
    match state {
        SessionState::Disconnected => match event {
            EventView::Start => Transition {
                state: SessionState::Connecting,
                action: SessionAction::Connect {
                    launch_broker: config.launch_broker,
                    grace_millis: config.grace_millis,
                },
            },
            _ => idle,
        },
        SessionState::Connecting => match event {
            EventView::BrokerReached => Transition {
                state: SessionState::Connecting,
                action: SessionAction::Enumerate,
            },
            EventView::BrokerUnreachable => retry(ErrorKind::BrokerUnreachable),
            EventView::LinkLost => retry(ErrorKind::BrokerUnreachable),
            EventView::Devices(list) => match selected(list) {
                Some(device) => Transition {
                    state: SessionState::Connected { serial_id: device.serial_id },
                    action: SessionAction::Push { serial_id: device.serial_id, logged: None },
                },
                None => if config.auto_retry {
                    retry(ErrorKind::NoDeviceConnected)
                } else {
                    Transition {
                        state: SessionState::Stopped,
                        action: SessionAction::Exit {
                            error: ErrorKind::NoDeviceConnected,
                            code: EXIT_NO_DEVICE,
                        },
                    }
                },
            },
            _ => idle,
        },
        SessionState::Connected { serial_id } => match event {
            EventView::PushDelivered => Transition {
                state,
                action: SessionAction::Push { serial_id, logged: None },
            },
            EventView::PushFailed => Transition {
                state,
                action: SessionAction::Push {
                    serial_id,
                    logged: Some(ErrorKind::TransportWriteFailed),
                },
            },
            EventView::LinkLost => retry(ErrorKind::TransportWriteFailed),
            _ => idle,
        },
        SessionState::Stopped => idle,
    }
}

/// Decides what a session does about an event.
pub fn step(config: &SessionConfig, state: SessionState, event: &SessionEvent) -> (next:
    Transition)
    ensures
        next == spec_step(*config, state, event@),
{
    let idle = Transition { state, action: SessionAction::Idle };
    match state {
        SessionState::Disconnected => match event {
            SessionEvent::Start => Transition {
                state: SessionState::Connecting,
                action: SessionAction::Connect {
                    launch_broker: config.launch_broker,
                    grace_millis: config.grace_millis,
                },
            },
            _ => idle,
        },
        SessionState::Connecting => match event {
            SessionEvent::BrokerReached => Transition {
                state: SessionState::Connecting,
                action: SessionAction::Enumerate,
            },
            SessionEvent::BrokerUnreachable => retry(config, ErrorKind::BrokerUnreachable),
            SessionEvent::LinkLost => retry(config, ErrorKind::BrokerUnreachable),
            SessionEvent::Devices(list) => match select_device(list) {
                Some(device) => Transition {
                    state: SessionState::Connected { serial_id: device.serial_id },
                    action: SessionAction::Push { serial_id: device.serial_id, logged: None },
                },
                None => if config.auto_retry {
                    retry(config, ErrorKind::NoDeviceConnected)
                } else {
                    Transition {
                        state: SessionState::Stopped,
                        action: SessionAction::Exit {
                            error: ErrorKind::NoDeviceConnected,
                            code: EXIT_NO_DEVICE,
                        },
                    }
                },
            },
            _ => idle,
        },
        SessionState::Connected { serial_id } => match event {
            SessionEvent::PushDelivered => Transition {
                state,
                action: SessionAction::Push { serial_id, logged: None },
            },
            SessionEvent::PushFailed => Transition {
                state,
                action: SessionAction::Push {
                    serial_id,
                    logged: Some(ErrorKind::TransportWriteFailed),
                },
            },
            SessionEvent::LinkLost => retry(config, ErrorKind::TransportWriteFailed),
            _ => idle,
        },
        SessionState::Stopped => idle,
    }
}

fn retry(config: &SessionConfig, error: ErrorKind) -> (next: Transition)
    ensures
        next == (Transition {
            state: SessionState::Disconnected,
            action: SessionAction::Retry { error, delay_millis: config.grace_millis },
        }),
{
    Transition {
        state: SessionState::Disconnected,
        action: SessionAction::Retry { error, delay_millis: config.grace_millis },
    }
}

/// A session becomes connected in one way only: while connecting, on a list
/// with a connected device, and then to the first such device of the list.
pub proof fn lemma_connected_by_selection(
    config: SessionConfig,
    state: SessionState,
    event: EventView,
    serial_id: u64,
)
    requires
        spec_step(config, state, event).state == (SessionState::Connected { serial_id }),
        state != (SessionState::Connected { serial_id }),
    ensures
        state == SessionState::Connecting,
        event matches EventView::Devices(list) && first_connected(list) matches Some(i)
            && list[i].serial_id == serial_id && list[i].is_connected,
{
    match event {
        EventView::Devices(list) => {
            lemma_first_connected(list);
        },
        _ => {},
    }
}

/// A push that fails costs a log line and nothing else: the session stays
/// connected to the same device and goes on to the next tick.
pub proof fn lemma_push_failure_not_fatal(config: SessionConfig, serial_id: u64)
    ensures
        spec_step(config, SessionState::Connected { serial_id }, EventView::PushFailed) == (
        Transition {
            state: SessionState::Connected { serial_id },
            action: SessionAction::Push {
                serial_id,
                logged: Some(ErrorKind::TransportWriteFailed),
            },
        }),
{
}

/// A session stops in one case only: the broker listed no connected device
/// and the session is not set to start over. The process then ends with a
/// status other than zero.
pub proof fn lemma_stops_only_without_device(
    config: SessionConfig,
    state: SessionState,
    event: EventView,
)
    requires
        state != SessionState::Stopped,
        spec_step(config, state, event).state == SessionState::Stopped,
    ensures
        !config.auto_retry,
        state == SessionState::Connecting,
        event matches EventView::Devices(list) && selected(list) is None,
        spec_step(config, state, event).action == (SessionAction::Exit {
            error: ErrorKind::NoDeviceConnected,
            code: EXIT_NO_DEVICE,
        }),
        EXIT_NO_DEVICE != 0,
{
}

} // verus!
