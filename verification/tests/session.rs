use pc_usage_monitor::error::ErrorKind;
use pc_usage_monitor::session::{
    select_device, step, DeviceRecord, SessionAction, SessionConfig, SessionEvent, SessionState,
    Transition, EXIT_NO_DEVICE, GRACE_MILLIS,
};

const A: u64 = 0xA;
const B: u64 = 0xB;
const C: u64 = 0xC;

fn device(serial_id: u64, is_connected: bool) -> DeviceRecord {
    DeviceRecord { serial_id, is_connected }
}

fn config(auto_retry: bool) -> SessionConfig {
    SessionConfig { launch_broker: true, auto_retry, grace_millis: GRACE_MILLIS }
}

fn retry(error: ErrorKind) -> Transition {
    Transition {
        state: SessionState::Disconnected,
        action: SessionAction::Retry { error, delay_millis: 500 },
    }
}

#[test]
fn selects_the_connected_device() {
    let devices = vec![device(A, false), device(B, true)];
    assert_eq!(select_device(&devices), Some(device(B, true)));
}

#[test]
fn selects_the_first_of_several_connected_devices() {
    let devices = vec![device(A, false), device(B, true), device(C, true)];
    assert_eq!(select_device(&devices), Some(device(B, true)));
    let devices = vec![device(C, true), device(B, true)];
    assert_eq!(select_device(&devices), Some(device(C, true)));
}

#[test]
fn selects_nothing_without_a_connected_device() {
    assert_eq!(select_device(&vec![]), None);
    assert_eq!(select_device(&vec![device(A, false), device(B, false)]), None);
}

#[test]
fn session_constants() {
    assert_eq!(GRACE_MILLIS, 500);
    assert_eq!(EXIT_NO_DEVICE, 1);
}

#[test]
fn start_leads_to_connecting() {
    let c = SessionConfig { launch_broker: false, auto_retry: false, grace_millis: 250 };
    assert_eq!(
        step(&c, SessionState::Disconnected, &SessionEvent::Start),
        Transition {
            state: SessionState::Connecting,
            action: SessionAction::Connect { launch_broker: false, grace_millis: 250 },
        }
    );
    assert_eq!(
        step(&config(false), SessionState::Disconnected, &SessionEvent::Start),
        Transition {
            state: SessionState::Connecting,
            action: SessionAction::Connect { launch_broker: true, grace_millis: 500 },
        }
    );
}

#[test]
fn reached_broker_is_asked_for_devices() {
    assert_eq!(
        step(&config(false), SessionState::Connecting, &SessionEvent::BrokerReached),
        Transition { state: SessionState::Connecting, action: SessionAction::Enumerate }
    );
}

#[test]
fn unreachable_broker_is_tried_again() {
    for auto_retry in [false, true] {
        assert_eq!(
            step(&config(auto_retry), SessionState::Connecting, &SessionEvent::BrokerUnreachable),
            retry(ErrorKind::BrokerUnreachable)
        );
        assert_eq!(
            step(&config(auto_retry), SessionState::Connecting, &SessionEvent::LinkLost),
            retry(ErrorKind::BrokerUnreachable)
        );
    }
}

#[test]
fn connected_device_starts_telemetry() {
    let event = SessionEvent::Devices(vec![device(A, false), device(B, true)]);
    assert_eq!(
        step(&config(false), SessionState::Connecting, &event),
        Transition {
            state: SessionState::Connected { serial_id: B },
            action: SessionAction::Push { serial_id: B, logged: None },
        }
    );
}

#[test]
fn no_device_ends_the_default_flow() {
    let event = SessionEvent::Devices(vec![device(A, false)]);
    assert_eq!(
        step(&config(false), SessionState::Connecting, &event),
        Transition {
            state: SessionState::Stopped,
            action: SessionAction::Exit { error: ErrorKind::NoDeviceConnected, code: 1 },
        }
    );
    let none = SessionEvent::Devices(vec![]);
    assert_eq!(
        step(&config(false), SessionState::Connecting, &none).state,
        SessionState::Stopped
    );
}

#[test]
fn no_device_is_retried_when_configured() {
    let event = SessionEvent::Devices(vec![device(A, false)]);
    assert_eq!(
        step(&config(true), SessionState::Connecting, &event),
        retry(ErrorKind::NoDeviceConnected)
    );
}

#[test]
fn push_results_keep_the_session_connected() {
    let connected = SessionState::Connected { serial_id: B };
    assert_eq!(
        step(&config(false), connected, &SessionEvent::PushDelivered),
        Transition {
            state: connected,
            action: SessionAction::Push { serial_id: B, logged: None },
        }
    );
    assert_eq!(
        step(&config(false), connected, &SessionEvent::PushFailed),
        Transition {
            state: connected,
            action: SessionAction::Push {
                serial_id: B,
                logged: Some(ErrorKind::TransportWriteFailed),
            },
        }
    );
}

#[test]
fn lost_link_disconnects_and_reconnects() {
    let connected = SessionState::Connected { serial_id: B };
    for auto_retry in [false, true] {
        assert_eq!(
            step(&config(auto_retry), connected, &SessionEvent::LinkLost),
            retry(ErrorKind::TransportWriteFailed)
        );
    }
    assert_eq!(
        step(&config(false), SessionState::Disconnected, &SessionEvent::Start).state,
        SessionState::Connecting
    );
}

#[test]
fn events_out_of_place_change_nothing() {
    let c = config(true);
    let connected = SessionState::Connected { serial_id: A };
    let list = SessionEvent::Devices(vec![device(B, true)]);
    let cases = [
        (SessionState::Disconnected, SessionEvent::BrokerReached),
        (SessionState::Disconnected, SessionEvent::PushFailed),
        (SessionState::Disconnected, SessionEvent::LinkLost),
        (SessionState::Disconnected, list.clone()),
        (SessionState::Connecting, SessionEvent::Start),
        (SessionState::Connecting, SessionEvent::PushDelivered),
        (SessionState::Connecting, SessionEvent::PushFailed),
        (connected, SessionEvent::Start),
        (connected, SessionEvent::BrokerReached),
        (connected, SessionEvent::BrokerUnreachable),
        (connected, list.clone()),
        (SessionState::Stopped, SessionEvent::Start),
        (SessionState::Stopped, SessionEvent::LinkLost),
        (SessionState::Stopped, list),
    ];
    for (state, event) in cases {
        assert_eq!(step(&c, state, &event), Transition { state, action: SessionAction::Idle });
    }
}

#[test]
fn a_whole_session() {
    let c = config(false);
    let mut state = SessionState::Disconnected;
    let events = [
        SessionEvent::Start,
        SessionEvent::BrokerReached,
        SessionEvent::Devices(vec![device(A, false), device(B, true)]),
        SessionEvent::PushDelivered,
        SessionEvent::PushFailed,
        SessionEvent::PushDelivered,
        SessionEvent::LinkLost,
        SessionEvent::Start,
        SessionEvent::BrokerUnreachable,
        SessionEvent::Start,
        SessionEvent::BrokerReached,
        SessionEvent::Devices(vec![]),
    ];
    let mut states = Vec::new();
    for event in events.iter() {
        state = step(&c, state, event).state;
        states.push(state);
    }
    assert_eq!(
        states,
        vec![
            SessionState::Connecting,
            SessionState::Connecting,
            SessionState::Connected { serial_id: B },
            SessionState::Connected { serial_id: B },
            SessionState::Connected { serial_id: B },
            SessionState::Connected { serial_id: B },
            SessionState::Disconnected,
            SessionState::Connecting,
            SessionState::Disconnected,
            SessionState::Connecting,
            SessionState::Connecting,
            SessionState::Stopped,
        ]
    );
}
