//! The concurrency admission gate: a batch of 20 fetches under a bound of 5
//! never has more than 5 in flight.

use linkcheck::gate::Gate;

#[test]
fn a_batch_of_twenty_never_exceeds_five_in_flight() {
    let mut gate = Gate::new(5);
    let mut waiting: u32 = 20;
    let mut in_flight: u32 = 0;
    let mut max_in_flight: u32 = 0;
    let mut finished: u32 = 0;
    while finished < 20 {
        // Admit as many waiting fetches as there are free slots.
        while waiting > 0 && gate.try_acquire() {
            waiting -= 1;
            in_flight += 1;
            if in_flight > max_in_flight {
                max_in_flight = in_flight;
            }
        }
        // One in-flight fetch completes and releases its slot.
        gate.release();
        in_flight -= 1;
        finished += 1;
    }
    assert_eq!(max_in_flight, 5);
    assert_eq!(waiting, 0);
}

#[test]
fn a_full_gate_refuses_and_a_release_reopens_it() {
    let mut gate = Gate::new(2);
    assert!(gate.try_acquire());
    assert!(gate.try_acquire());
    assert!(!gate.try_acquire());
    gate.release();
    assert!(gate.try_acquire());
    assert!(!gate.try_acquire());
}

#[test]
fn a_bound_of_one_serializes() {
    let mut gate = Gate::new(1);
    for _ in 0..10 {
        assert!(gate.try_acquire());
        assert!(!gate.try_acquire());
        gate.release();
    }
}
