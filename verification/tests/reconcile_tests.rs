use netlink_ddns::addr::Ipv4Address;
use netlink_ddns::netlink::{AddressQueryError, ChangeType, IpAddrChange};
use netlink_ddns::reconcile::{
    bootstrap_step, process_events, run_bootstrap, ReconcilerState, SyncAction,
};

fn added(octets: [u8; 4]) -> IpAddrChange {
    IpAddrChange {
        ctype: ChangeType::Add,
        iface: "eth0".to_string(),
        addr: Ipv4Address::new(octets[0], octets[1], octets[2], octets[3]),
    }
}

fn removed(octets: [u8; 4]) -> IpAddrChange {
    IpAddrChange {
        ctype: ChangeType::Del,
        iface: "eth0".to_string(),
        addr: Ipv4Address::new(octets[0], octets[1], octets[2], octets[3]),
    }
}

// Initial sync for host "test" in domain "example.com": no published
// record means one create call
#[test]
fn test_initial_sync_creates_when_absent() {
    let mut state = ReconcilerState::new();
    let local = Ipv4Address::new(10, 0, 0, 5);
    let action = state.initial_sync(local, None);
    assert_eq!(action, SyncAction::Create(local));
    assert_eq!(state.last_known_published, Some(local));
}

// Initial sync when the provider already returns the local address: no
// mutation call at all
#[test]
fn test_initial_sync_keeps_when_matching() {
    let mut state = ReconcilerState::new();
    let local = Ipv4Address::new(10, 0, 0, 5);
    let action = state.initial_sync(local, Some(local));
    assert_eq!(action, SyncAction::Keep);
    assert_eq!(state.last_known_published, Some(local));
}

// Initial sync when the published record differs: exactly one update call
#[test]
fn test_initial_sync_updates_when_differing() {
    let mut state = ReconcilerState::new();
    let local = Ipv4Address::new(10, 0, 0, 5);
    let published = Ipv4Address::new(10, 0, 0, 4);
    let action = state.initial_sync(local, Some(published));
    assert_eq!(action, SyncAction::Update(local));
    assert_eq!(state.last_known_published, Some(local));
}

// Two consecutive additions of the same address publish exactly once
#[test]
fn test_added_twice_updates_once() {
    let mut state = ReconcilerState::new();
    let events = vec![added([10, 0, 0, 7]), added([10, 0, 0, 7])];
    let calls = process_events(&mut state, &events);
    assert_eq!(calls, vec![Ipv4Address::new(10, 0, 0, 7)]);
    assert_eq!(state.last_known_published, Some(Ipv4Address::new(10, 0, 0, 7)));
}

#[test]
fn test_added_matching_cache_is_skipped() {
    let mut state = ReconcilerState::new();
    state.record_published(Ipv4Address::new(10, 0, 0, 7));
    let decision = state.streaming_decision(&added([10, 0, 0, 7]));
    assert_eq!(decision, None);
}

#[test]
fn test_added_differing_cache_updates() {
    let mut state = ReconcilerState::new();
    state.record_published(Ipv4Address::new(10, 0, 0, 7));
    let decision = state.streaming_decision(&added([10, 0, 0, 8]));
    assert_eq!(decision, Some(Ipv4Address::new(10, 0, 0, 8)));
}

// Removals never call the provider, whatever the cache holds
#[test]
fn test_removed_never_updates() {
    let empty = ReconcilerState::new();
    assert_eq!(empty.streaming_decision(&removed([10, 0, 0, 7])), None);

    let mut same = ReconcilerState::new();
    same.record_published(Ipv4Address::new(10, 0, 0, 7));
    assert_eq!(same.streaming_decision(&removed([10, 0, 0, 7])), None);

    let mut other = ReconcilerState::new();
    other.record_published(Ipv4Address::new(10, 0, 0, 9));
    assert_eq!(other.streaming_decision(&removed([10, 0, 0, 7])), None);

    let mut state = ReconcilerState::new();
    state.record_published(Ipv4Address::new(10, 0, 0, 9));
    let events = vec![removed([10, 0, 0, 9]), removed([10, 0, 0, 7])];
    let calls = process_events(&mut state, &events);
    assert!(calls.is_empty());
    assert_eq!(state.last_known_published, Some(Ipv4Address::new(10, 0, 0, 9)));
}

// A removal leaves the cache untouched, so re-adding the same address is
// treated as a duplicate and not re-published
#[test]
fn test_readd_after_remove_is_skipped() {
    let mut state = ReconcilerState::new();
    let events = vec![
        added([10, 0, 0, 7]),
        removed([10, 0, 0, 7]),
        added([10, 0, 0, 7]),
    ];
    let calls = process_events(&mut state, &events);
    assert_eq!(calls, vec![Ipv4Address::new(10, 0, 0, 7)]);
}

#[test]
fn test_changing_addresses_update_in_order() {
    let mut state = ReconcilerState::new();
    let events = vec![
        added([10, 0, 0, 1]),
        added([10, 0, 0, 2]),
        added([10, 0, 0, 2]),
        added([10, 0, 0, 1]),
    ];
    let calls = process_events(&mut state, &events);
    assert_eq!(
        calls,
        vec![
            Ipv4Address::new(10, 0, 0, 1),
            Ipv4Address::new(10, 0, 0, 2),
            Ipv4Address::new(10, 0, 0, 1),
        ]
    );
    assert_eq!(state.last_known_published, Some(Ipv4Address::new(10, 0, 0, 1)));
}

#[test]
fn test_bootstrap_step_decisions() {
    let ip = Ipv4Address::new(10, 0, 0, 5);
    assert_eq!(bootstrap_step(&Ok(Some(ip))), Some(ip));
    assert_eq!(bootstrap_step(&Ok(None)), None);
    assert_eq!(bootstrap_step(&Err(AddressQueryError::InterfaceNotFound)), None);
    assert_eq!(bootstrap_step(&Err(AddressQueryError::AmbiguousAddress)), None);
    assert_eq!(bootstrap_step(&Err(AddressQueryError::NonIpv4Address)), None);
}

// Failing exactly three times and then succeeding takes three retry-delay
// waits and proceeds exactly once, with the queried address
#[test]
fn test_bootstrap_retries_then_succeeds() {
    let ip = Ipv4Address::new(10, 0, 0, 5);
    let outcomes = vec![
        Err(AddressQueryError::InterfaceNotFound),
        Ok(None),
        Err(AddressQueryError::InterfaceNotFound),
        Ok(Some(ip)),
        Ok(Some(Ipv4Address::new(10, 0, 0, 9))),
    ];
    let outcome = run_bootstrap(&outcomes).expect("bootstrap should proceed");
    assert_eq!(outcome.waits, 3);
    assert_eq!(outcome.address, ip);
}

#[test]
fn test_bootstrap_without_success_never_proceeds() {
    let outcomes = vec![Ok(None), Err(AddressQueryError::InterfaceNotFound), Ok(None)];
    assert!(run_bootstrap(&outcomes).is_none());
}

#[test]
fn test_bootstrap_immediate_success_takes_no_wait() {
    let ip = Ipv4Address::new(192, 168, 42, 1);
    let outcome = run_bootstrap(&vec![Ok(Some(ip))]).expect("bootstrap should proceed");
    assert_eq!(outcome.waits, 0);
    assert_eq!(outcome.address, ip);
}
