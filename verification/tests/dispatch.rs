use pc_usage_monitor::dispatch::{DispatchEngine, Effect, Frame, Header};
use pc_usage_monitor::error::{ErrorKind, Recovery};
use pc_usage_monitor::handlers::entry_for;
use pc_usage_monitor::icd::Endpoint;
use pc_usage_monitor::registry::{DispatchEntry, EndpointRegistry, HandlerKind};

const UNIQUE_ID: [u8; 8] = [0x10, 1, 2, 3, 4, 5, 6, 7];
const RESET: [u8; 8] = [0x20, 1, 2, 3, 4, 5, 6, 7];
const SLEEP: [u8; 8] = [0x30, 1, 2, 3, 4, 5, 6, 7];
const SET_LED: [u8; 8] = [0x40, 1, 2, 3, 4, 5, 6, 7];
const GET_LED: [u8; 8] = [0x41, 1, 2, 3, 4, 5, 6, 7];
const SET_DISPLAY: [u8; 8] = [0x50, 1, 2, 3, 4, 5, 6, 7];
const NAP: [u8; 8] = [0x60, 1, 2, 3, 4, 5, 6, 7];
const STRANGER: [u8; 8] = [0x70, 1, 2, 3, 4, 5, 6, 7];

fn engine() -> DispatchEngine {
    let table = vec![
        entry_for(Endpoint::GetUniqueId, UNIQUE_ID.to_vec()),
        entry_for(Endpoint::RebootToPicoBoot, RESET.to_vec()),
        entry_for(Endpoint::Sleep, SLEEP.to_vec()),
        entry_for(Endpoint::SetLed, SET_LED.to_vec()),
        entry_for(Endpoint::GetLed, GET_LED.to_vec()),
        entry_for(Endpoint::SetDisplay, SET_DISPLAY.to_vec()),
        DispatchEntry {
            key_prefix: NAP.to_vec(),
            handler_kind: HandlerKind::Pooled { pool_size: 1 },
            handler_ref: Endpoint::Sleep,
        },
    ];
    DispatchEngine::new(EndpointRegistry::new(table).unwrap())
}

fn frame(sequence_no: u32, key: &[u8]) -> Frame {
    Frame { sequence_no, endpoint_key: key.to_vec(), payload: vec![1, 2, 3] }
}

#[test]
fn engine_starts_with_nothing_in_flight() {
    let e = engine();
    assert_eq!(e.registry().len(), 7);
    assert_eq!(e.registry().min_key_len(), 1);
    for entry in 0..8 {
        assert_eq!(e.in_flight(entry), 0);
    }
}

#[test]
fn header_is_taken_from_the_frame() {
    let f = frame(77, &SLEEP);
    assert_eq!(f.header(), Header { endpoint_key: SLEEP.to_vec(), sequence_no: 77 });
}

#[test]
fn route_names_the_endpoint() {
    let e = engine();
    assert_eq!(e.route(&frame(1, &SET_LED)), Some(Endpoint::SetLed));
    assert_eq!(e.route(&frame(1, &GET_LED)), Some(Endpoint::GetLed));
    assert_eq!(e.route(&frame(1, &SLEEP)), Some(Endpoint::Sleep));
    assert_eq!(e.route(&frame(1, &STRANGER)), None);
}

#[test]
fn blocking_endpoints_run_at_once() {
    let mut e = engine();
    assert_eq!(
        e.dispatch(&frame(5, &UNIQUE_ID), true),
        Effect::RunBlocking { handler_ref: Endpoint::GetUniqueId, sequence_no: 5 }
    );
    assert_eq!(
        e.dispatch(&frame(6, &SET_LED), true),
        Effect::RunBlocking { handler_ref: Endpoint::SetLed, sequence_no: 6 }
    );
    assert_eq!(
        e.dispatch(&frame(7, &GET_LED), true),
        Effect::RunBlocking { handler_ref: Endpoint::GetLed, sequence_no: 7 }
    );
    assert_eq!(
        e.dispatch(&frame(8, &RESET), true),
        Effect::RunBlocking { handler_ref: Endpoint::RebootToPicoBoot, sequence_no: 8 }
    );
}

#[test]
fn display_endpoint_runs_inline() {
    let mut e = engine();
    assert_eq!(
        e.dispatch(&frame(9, &SET_DISPLAY), true),
        Effect::RunInline { handler_ref: Endpoint::SetDisplay, sequence_no: 9 }
    );
}

#[test]
fn reply_carries_the_sequence_number_of_the_request() {
    let mut e = engine();
    let keys: [&[u8]; 5] = [&UNIQUE_ID, &SLEEP, &SET_DISPLAY, &STRANGER, &NAP];
    for (i, sequence_no) in [0u32, 1, 0xFFFF, 0x1_0000, u32::MAX].into_iter().enumerate() {
        for ok in [true, false] {
            let effect = e.dispatch(&frame(sequence_no, keys[i]), ok);
            assert_eq!(effect.sequence_no(), sequence_no);
        }
    }
}

#[test]
fn pooled_endpoint_admits_three_calls_and_refuses_the_fourth() {
    let mut e = engine();
    let spawn = |sequence_no: u32, slot: usize| Effect::Spawn {
        handler_ref: Endpoint::Sleep,
        sequence_no,
        entry: 2,
        slot,
    };
    assert_eq!(e.dispatch(&frame(100, &SLEEP), true), spawn(100, 0));
    assert_eq!(e.dispatch(&frame(101, &SLEEP), true), spawn(101, 1));
    assert_eq!(e.dispatch(&frame(102, &SLEEP), true), spawn(102, 2));
    assert_eq!(
        e.dispatch(&frame(103, &SLEEP), true),
        Effect::ErrorReply { sequence_no: 103, kind: ErrorKind::PoolExhausted }
    );
    assert_eq!(e.in_flight(2), 3);
}

#[test]
fn completion_frees_the_slot() {
    let mut e = engine();
    for n in 0..3 {
        e.dispatch(&frame(100 + n, &SLEEP), true);
    }
    assert_eq!(e.complete(2, 1), Some(101));
    assert_eq!(e.in_flight(2), 2);
    assert_eq!(
        e.dispatch(&frame(104, &SLEEP), true),
        Effect::Spawn { handler_ref: Endpoint::Sleep, sequence_no: 104, entry: 2, slot: 1 }
    );
    assert_eq!(
        e.dispatch(&frame(105, &SLEEP), true),
        Effect::ErrorReply { sequence_no: 105, kind: ErrorKind::PoolExhausted }
    );
}

#[test]
fn completion_of_what_is_not_in_flight_changes_nothing() {
    let mut e = engine();
    e.dispatch(&frame(100, &SLEEP), true);
    let before = engine_state(&e);
    assert_eq!(e.complete(2, 1), None);
    assert_eq!(e.complete(2, 3), None);
    assert_eq!(e.complete(0, 0), None);
    assert_eq!(e.complete(7, 0), None);
    assert_eq!(e.complete(usize::MAX, usize::MAX), None);
    assert_eq!(engine_state(&e), before);
}

fn engine_state(e: &DispatchEngine) -> Vec<usize> {
    (0..7).map(|entry| e.in_flight(entry)).collect()
}

#[test]
fn pooled_endpoints_do_not_share_slots() {
    let mut e = engine();
    assert_eq!(
        e.dispatch(&frame(1, &NAP), true),
        Effect::Spawn { handler_ref: Endpoint::Sleep, sequence_no: 1, entry: 6, slot: 0 }
    );
    assert_eq!(
        e.dispatch(&frame(2, &NAP), true),
        Effect::ErrorReply { sequence_no: 2, kind: ErrorKind::PoolExhausted }
    );
    assert_eq!(
        e.dispatch(&frame(3, &SLEEP), true),
        Effect::Spawn { handler_ref: Endpoint::Sleep, sequence_no: 3, entry: 2, slot: 0 }
    );
    assert_eq!(e.in_flight(6), 1);
    assert_eq!(e.in_flight(2), 1);
}

#[test]
fn unknown_endpoint_gets_one_error_and_the_engine_goes_on() {
    let mut e = engine();
    e.dispatch(&frame(1, &SLEEP), true);
    let before = engine_state(&e);
    assert_eq!(
        e.dispatch(&frame(2, &STRANGER), true),
        Effect::ErrorReply { sequence_no: 2, kind: ErrorKind::UnknownEndpoint }
    );
    assert_eq!(
        e.dispatch(&frame(3, &[]), false),
        Effect::ErrorReply { sequence_no: 3, kind: ErrorKind::UnknownEndpoint }
    );
    assert_eq!(engine_state(&e), before);
    assert_eq!(
        e.dispatch(&frame(4, &GET_LED), true),
        Effect::RunBlocking { handler_ref: Endpoint::GetLed, sequence_no: 4 }
    );
    assert_eq!(
        e.dispatch(&frame(5, &SLEEP), true),
        Effect::Spawn { handler_ref: Endpoint::Sleep, sequence_no: 5, entry: 2, slot: 1 }
    );
}

#[test]
fn payload_of_the_wrong_shape_is_a_schema_mismatch() {
    let mut e = engine();
    for key in [&UNIQUE_ID, &SET_LED, &SET_DISPLAY, &SLEEP] {
        assert_eq!(
            e.dispatch(&frame(8, key), false),
            Effect::ErrorReply { sequence_no: 8, kind: ErrorKind::SchemaMismatch }
        );
    }
    assert_eq!(e.in_flight(2), 0);
}

#[test]
fn exhausted_pool_does_not_stop_other_endpoints() {
    let mut e = engine();
    for n in 0..4 {
        e.dispatch(&frame(n, &SLEEP), true);
    }
    assert_eq!(
        e.dispatch(&frame(9, &UNIQUE_ID), true),
        Effect::RunBlocking { handler_ref: Endpoint::GetUniqueId, sequence_no: 9 }
    );
}

#[test]
fn each_error_has_its_recovery() {
    assert_eq!(ErrorKind::UnknownEndpoint.recovery(), Recovery::ErrorReply);
    assert_eq!(ErrorKind::SchemaMismatch.recovery(), Recovery::ErrorReply);
    assert_eq!(ErrorKind::PoolExhausted.recovery(), Recovery::ErrorReply);
    assert_eq!(ErrorKind::TransportWriteFailed.recovery(), Recovery::Swallow);
    assert_eq!(ErrorKind::NoDeviceConnected.recovery(), Recovery::Operator);
    assert_eq!(ErrorKind::BrokerUnreachable.recovery(), Recovery::Operator);
}
