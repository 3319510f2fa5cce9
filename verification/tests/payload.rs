use propane_monitor_embassy::payload::{CapacityError, Payload, Reading};

fn reading(n: u32) -> Reading {
    Reading { value: 100 + n, timestamp: 1_000 + n, auxiliary: 3_300 + n }
}

#[test]
fn new_payload_is_empty() {
    let payload = Payload::new(6);
    assert_eq!(payload.capacity(), 6);
    assert_eq!(payload.len(), 0);
    assert!(payload.is_empty());
    assert!(!payload.is_full());
    assert_eq!(payload.timeouts(), 0);
    assert!(payload.readings().is_empty());
}

#[test]
fn push_keeps_order() {
    let mut payload = Payload::new(3);
    assert_eq!(payload.push(reading(0)), Ok(()));
    assert_eq!(payload.push(reading(1)), Ok(()));
    assert_eq!(payload.readings(), &[reading(0), reading(1)][..]);
    assert_eq!(payload.len(), 2);
    assert!(!payload.is_empty());
}

#[test]
fn push_up_to_capacity_succeeds_then_fails() {
    let capacity: usize = 4;
    let mut payload = Payload::new(capacity);
    let mut expected: Vec<Reading> = Vec::new();
    for n in 0..capacity {
        assert!(!payload.is_full());
        assert_eq!(payload.push(reading(n as u32)), Ok(()));
        expected.push(reading(n as u32));
    }
    assert!(payload.is_full());
    assert_eq!(payload.len(), capacity);

    let extra = reading(99);
    assert_eq!(payload.push(extra), Err(CapacityError { rejected: extra }));
    assert_eq!(payload.len(), capacity);
    assert_eq!(payload.readings(), &expected[..]);
    assert_eq!(payload.timeouts(), 0);
}

#[test]
fn zero_capacity_takes_nothing() {
    let mut payload = Payload::new(0);
    assert!(payload.is_full());
    assert!(payload.is_empty());
    assert_eq!(payload.push(reading(1)), Err(CapacityError { rejected: reading(1) }));
    assert_eq!(payload.len(), 0);
}

#[test]
fn timeout_counts_and_keeps_readings() {
    let mut payload = Payload::new(2);
    payload.push(reading(7)).unwrap();
    payload.record_timeout();
    assert_eq!(payload.timeouts(), 1);
    payload.record_timeout();
    assert_eq!(payload.timeouts(), 2);
    assert_eq!(payload.readings(), &[reading(7)][..]);
    assert_eq!(payload.capacity(), 2);
}

#[test]
fn delivery_empties_and_zeroes() {
    let mut payload = Payload::new(2);
    payload.push(reading(1)).unwrap();
    payload.push(reading(2)).unwrap();
    payload.record_timeout();
    payload.mark_delivered();
    assert!(payload.is_empty());
    assert_eq!(payload.timeouts(), 0);
    assert_eq!(payload.capacity(), 2);
    assert_eq!(payload.push(reading(3)), Ok(()));
    assert_eq!(payload.readings(), &[reading(3)][..]);
}
