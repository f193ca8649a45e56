use node_network::ids::OverlayShortId;
use node_network::single_flight::{SingleFlight, SubmitRole};

fn id_of(byte: u8) -> OverlayShortId {
    OverlayShortId::from_bytes(vec![byte; 32]).unwrap()
}

#[test]
fn first_submission_runs_later_ones_wait() {
    let mut sf = SingleFlight::new();
    let id = id_of(1);
    assert_eq!(sf.submit(&id), SubmitRole::Runner);
    // Of N concurrent submissions, every one after the first waits.
    for _ in 0..5 {
        assert_eq!(sf.submit(&id), SubmitRole::Waiter);
    }
    assert!(sf.is_running(&id));
}

#[test]
fn completion_clears_the_key() {
    let mut sf = SingleFlight::new();
    let id = id_of(2);
    assert_eq!(sf.submit(&id), SubmitRole::Runner);
    sf.complete(&id);
    assert!(!sf.is_running(&id));
    // A later resolution may bootstrap again, e.g. after a failed run.
    assert_eq!(sf.submit(&id), SubmitRole::Runner);
}

#[test]
fn overlays_have_independent_flights() {
    let mut sf = SingleFlight::new();
    let a = id_of(3);
    let b = id_of(4);
    assert_eq!(sf.submit(&a), SubmitRole::Runner);
    // A bootstrap in flight for one overlay does not block another.
    assert_eq!(sf.submit(&b), SubmitRole::Runner);
    // A failure ending the work for the first overlay leaves the second
    // running untouched.
    sf.complete(&a);
    assert!(!sf.is_running(&a));
    assert!(sf.is_running(&b));
    assert_eq!(sf.submit(&b), SubmitRole::Waiter);
}
