use lwd_mixnet_proxy::dial::{DialError, Round};
use lwd_mixnet_proxy::operations::{
    every_open_refused, first_request, Capacity, DialCounts, RefusalStreak, REFUSED_DIALS_LIMIT,
};

fn refused_round(size: usize) -> Round {
    let mut round = Round::new();
    for _ in 0..size {
        round.discard(0, DialError::Open("refused".to_string()));
    }
    round
}

#[test]
fn a_dial_of_refused_opens_opened_nothing() {
    assert!(every_open_refused(&vec![refused_round(2), refused_round(2)]));
    let mut probed = refused_round(1);
    probed.discard(10_000, DialError::Probe("timeout".to_string()));
    assert!(!every_open_refused(&vec![refused_round(2), probed]));
    let mut answered = Round::new();
    answered.answer();
    assert!(!every_open_refused(&vec![answered]));
    assert!(!every_open_refused(&Vec::new()));
}

#[test]
fn the_client_is_given_up_on_at_the_fifth_dial_in_a_row_that_opened_nothing() {
    let mut streak = RefusalStreak::new();
    let dials = [true, true, false, true, true, true, true, true];
    let verdicts: Vec<bool> = dials.iter().map(|dial| streak.observe(*dial)).collect();
    assert_eq!(
        verdicts,
        vec![false, false, false, false, false, false, false, true]
    );
    assert_eq!(streak.count, REFUSED_DIALS_LIMIT);
}

#[test]
fn a_full_house_drops_the_next_stream_until_one_is_let_go() {
    let mut capacity = Capacity::new(2);
    assert!(capacity.take_permit());
    assert!(capacity.take_permit());
    assert!(!capacity.take_permit());
    assert_eq!(capacity.holding(), 2);
    capacity.release();
    assert!(capacity.take_permit());
    let mut closed = Capacity::new(0);
    assert!(!closed.take_permit());
}

#[test]
fn both_rates_are_counted_from_the_same_dials() {
    let mut counts = DialCounts::new();
    let mut answered = Round::new();
    answered.answer();
    let mut silent = Round::new();
    silent.discard(10_000, DialError::Probe("timeout".to_string()));
    counts.observe(&vec![answered], true);
    let mut answered_again = Round::new();
    answered_again.answer();
    counts.observe(&vec![silent, answered_again], true);
    counts.observe(&vec![refused_round(2)], false);
    assert_eq!(
        counts,
        DialCounts {
            connections: 3,
            first_round_failures: 2,
            unestablished: 1,
        }
    );
}

#[test]
fn only_a_stream_that_carried_a_request_reaches_the_upstream() {
    assert_eq!(first_request(Some(Ok(42))), Some(42));
    assert_eq!(first_request(Some(Ok(0))), None);
    assert_eq!(first_request(None), None);
    let failed = std::io::Error::new(std::io::ErrorKind::ConnectionReset, "reset");
    assert_eq!(first_request(Some(Err(failed))), None);
}
