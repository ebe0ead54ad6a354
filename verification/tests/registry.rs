use pc_usage_monitor::icd::Endpoint;
use pc_usage_monitor::registry::{DispatchEntry, EndpointRegistry, HandlerKind};

fn row(key: &[u8], handler_ref: Endpoint) -> DispatchEntry {
    DispatchEntry { key_prefix: key.to_vec(), handler_kind: HandlerKind::Blocking, handler_ref }
}

#[test]
fn keys_that_differ_in_the_first_byte_need_one_byte() {
    let r = EndpointRegistry::new(vec![
        row(&[1, 2, 3, 4], Endpoint::GetLed),
        row(&[2, 2, 3, 4], Endpoint::SetLed),
    ])
    .unwrap();
    assert_eq!(r.min_key_len(), 1);
    assert_eq!(r.len(), 2);
    assert_eq!(r.entry(0), &row(&[1], Endpoint::GetLed));
    assert_eq!(r.entry(1), &row(&[2], Endpoint::SetLed));
}

#[test]
fn min_key_len_is_the_least_that_tells_keys_apart() {
    let r = EndpointRegistry::new(vec![
        row(&[9, 9, 1, 0], Endpoint::GetLed),
        row(&[9, 9, 2, 0], Endpoint::SetLed),
        row(&[9, 8, 1, 0], Endpoint::Sleep),
    ])
    .unwrap();
    assert_eq!(r.min_key_len(), 3);
    assert_eq!(r.entry(0).key_prefix, vec![9, 9, 1]);
    assert_eq!(r.entry(1).key_prefix, vec![9, 9, 2]);
    assert_eq!(r.entry(2).key_prefix, vec![9, 8, 1]);
    assert_eq!(r.entry(2).handler_ref, Endpoint::Sleep);
}

#[test]
fn keys_that_differ_only_in_the_last_byte_need_all_bytes() {
    let r = EndpointRegistry::new(vec![
        row(&[5, 5, 5, 5, 5, 5, 5, 1], Endpoint::GetLed),
        row(&[5, 5, 5, 5, 5, 5, 5, 2], Endpoint::SetLed),
    ])
    .unwrap();
    assert_eq!(r.min_key_len(), 8);
}

#[test]
fn empty_table_and_single_row() {
    let r = EndpointRegistry::new(vec![]).unwrap();
    assert_eq!(r.min_key_len(), 1);
    assert_eq!(r.len(), 0);
    assert_eq!(r.resolve(&vec![1, 2, 3]), None);
    let r = EndpointRegistry::new(vec![row(&[7, 7, 7], Endpoint::Sleep)]).unwrap();
    assert_eq!(r.min_key_len(), 1);
    assert_eq!(r.entry(0).key_prefix, vec![7]);
}

#[test]
fn keys_that_cannot_be_told_apart_are_rejected() {
    assert_eq!(
        EndpointRegistry::new(vec![row(&[1, 2], Endpoint::GetLed), row(&[1, 2], Endpoint::SetLed)]),
        None
    );
    assert_eq!(
        EndpointRegistry::new(vec![
            row(&[1, 2], Endpoint::GetLed),
            row(&[1, 2, 3], Endpoint::SetLed)
        ]),
        None
    );
    assert_eq!(EndpointRegistry::new(vec![row(&[], Endpoint::GetLed)]), None);
    assert_eq!(
        EndpointRegistry::new(vec![row(&[1], Endpoint::GetLed), row(&[], Endpoint::SetLed)]),
        None
    );
}

#[test]
fn keys_of_different_length_are_told_apart_within_the_shortest() {
    let r = EndpointRegistry::new(vec![
        row(&[1, 2], Endpoint::GetLed),
        row(&[1, 3, 3], Endpoint::SetLed),
    ])
    .unwrap();
    assert_eq!(r.min_key_len(), 2);
    assert_eq!(r.entry(1).key_prefix, vec![1, 3]);
}

#[test]
fn resolve_finds_the_row_by_its_key() {
    let r = EndpointRegistry::new(vec![
        row(&[9, 9, 1, 0], Endpoint::GetLed),
        row(&[9, 9, 2, 0], Endpoint::SetLed),
        row(&[9, 8, 1, 0], Endpoint::Sleep),
    ])
    .unwrap();
    assert_eq!(r.resolve(&vec![9, 9, 2, 0]).map(|e| e.handler_ref), Some(Endpoint::SetLed));
    assert_eq!(r.lookup(&vec![9, 9, 2, 0]), Some(1));
    assert_eq!(r.lookup(&vec![9, 8, 1, 0]), Some(2));
    assert_eq!(r.lookup(&vec![9, 9, 1, 0]), Some(0));
    assert_eq!(r.resolve(&vec![9, 9, 1, 0]), Some(&row(&[9, 9, 1], Endpoint::GetLed)));
}

#[test]
fn resolve_compares_no_more_than_the_minimum_key_length() {
    let r = EndpointRegistry::new(vec![
        row(&[9, 9, 1, 0], Endpoint::GetLed),
        row(&[9, 9, 2, 0], Endpoint::SetLed),
    ])
    .unwrap();
    assert_eq!(r.min_key_len(), 3);
    assert_eq!(r.lookup(&vec![9, 9, 2]), Some(1));
    assert_eq!(r.lookup(&vec![9, 9, 2, 77, 78]), Some(1));
}

#[test]
fn resolve_of_an_unknown_or_short_key_finds_nothing() {
    let r = EndpointRegistry::new(vec![
        row(&[9, 9, 1, 0], Endpoint::GetLed),
        row(&[9, 9, 2, 0], Endpoint::SetLed),
    ])
    .unwrap();
    assert_eq!(r.resolve(&vec![9, 9, 3, 0]), None);
    assert_eq!(r.resolve(&vec![8, 9, 1, 0]), None);
    assert_eq!(r.resolve(&vec![9, 9]), None);
    assert_eq!(r.resolve(&vec![]), None);
    assert_eq!(r.lookup(&vec![0]), None);
}
