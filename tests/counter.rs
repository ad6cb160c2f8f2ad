use std::sync::{Arc, Mutex};

use offline_shell::counter::{HandlerFault, HitCounter};

#[test]
fn counter_starts_at_zero_and_counts() {
    let mut c = HitCounter::new();
    assert_eq!(c.value(), 0);
    assert_eq!(c.increment(), Ok(1));
    assert_eq!(c.increment(), Ok(2));
    assert_eq!(c.value(), 2);
}

#[test]
fn two_guarded_increments_add_two() {
    let shared = Arc::new(Mutex::new(HitCounter::new()));
    shared.lock().unwrap().increment().unwrap();
    let pre = shared.lock().unwrap().value();
    let a = Arc::clone(&shared);
    let b = Arc::clone(&shared);
    let first = a.lock().unwrap().increment().unwrap();
    let second = b.lock().unwrap().increment().unwrap();
    assert_eq!(first, pre + 1);
    assert_eq!(second, pre + 2);
    assert_eq!(shared.lock().unwrap().value(), pre + 2);
}

#[test]
fn fault_is_a_distinct_value() {
    assert_eq!(HandlerFault::CounterExhausted, HandlerFault::CounterExhausted);
}
