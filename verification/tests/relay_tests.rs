use swink_agent::relay::{RelayNext, UpdateRelay, TOOL_UPDATE_BUFFER_CAPACITY};

fn drain(relay: &mut UpdateRelay<String>) -> Vec<String> {
    let mut out = Vec::new();
    loop {
        match relay.next() {
            RelayNext::Update(u) => out.push(u),
            RelayNext::Finished => return out,
            RelayNext::Wait => panic!("a closed relay never waits"),
        }
    }
}

#[test]
fn relay_coalesces_latest_overflow_update() {
    let mut relay = UpdateRelay::new();
    for idx in 0..(TOOL_UPDATE_BUFFER_CAPACITY + 8) {
        assert!(relay.push(format!("partial-{idx}")));
    }
    relay.close();
    let drained = drain(&mut relay);
    assert_eq!(drained.len(), TOOL_UPDATE_BUFFER_CAPACITY + 1);
    assert_eq!(drained.first().map(String::as_str), Some("partial-0"));
    assert_eq!(drained[TOOL_UPDATE_BUFFER_CAPACITY - 1], "partial-15");
    assert_eq!(drained.last().map(String::as_str), Some("partial-23"));
}

#[test]
fn open_relay_waits_and_closed_relay_refuses_updates() {
    let mut relay: UpdateRelay<String> = UpdateRelay::new();
    assert!(matches!(relay.next(), RelayNext::Wait));
    assert!(relay.push("a".to_string()));
    assert!(matches!(relay.next(), RelayNext::Update(u) if u == "a"));
    assert!(matches!(relay.next(), RelayNext::Wait));
    relay.close();
    assert!(!relay.push("late".to_string()));
    assert!(matches!(relay.next(), RelayNext::Finished));
}

#[test]
fn relay_within_capacity_keeps_every_update_in_order() {
    let mut relay = UpdateRelay::new();
    for idx in 0..TOOL_UPDATE_BUFFER_CAPACITY {
        relay.push(idx.to_string());
    }
    relay.close();
    let expected: Vec<String> = (0..TOOL_UPDATE_BUFFER_CAPACITY).map(|i| i.to_string()).collect();
    assert_eq!(drain(&mut relay), expected);
}
