use lwd_mixnet_proxy::dial::{
    DialError, DialSettings, Dialled, Dialler, Discarded, GaveUp, Plan, ProbeSettings, Round,
    RoundRun, RoundStep,
};

fn probing(attempts: u32, concurrency: u32) -> DialSettings {
    DialSettings {
        reply_surbs: None,
        probe: Some(ProbeSettings {
            timeout: 10_000,
            attempts,
            concurrency,
        }),
    }
}

/// A round in which every one of `size` streams went unanswered.
fn silent_round(size: u32) -> Round {
    let mut round = Round::new();
    for n in 0..size {
        round.discard(u64::from(n) * 10, DialError::Probe(format!("timeout {n}")));
    }
    round
}

/// Run a dialler in which every stream goes unanswered, returning the round sizes it asked for.
fn sizes_until_giving_up(settings: DialSettings) -> (Vec<u32>, GaveUp) {
    let mut dialler = Dialler::start(&settings);
    let mut sizes = Vec::new();
    loop {
        match dialler.next() {
            Plan::Open { size, dialler: next } => {
                sizes.push(size);
                match next.record::<()>(None, silent_round(size)) {
                    Ok(_) => panic!("nothing answered"),
                    Err(next) => dialler = next,
                }
            }
            Plan::GiveUp(gave_up) => return (sizes, gave_up),
        }
    }
}

#[test]
fn attempts_are_grouped_into_full_rounds_then_the_rest() {
    let (sizes, gave_up) = sizes_until_giving_up(probing(5, 3));
    assert_eq!(sizes, vec![3, 2]);
    assert_eq!(gave_up.attempts(), 5);
    assert_eq!(gave_up.rounds.len(), 2);
}

#[test]
fn rounds_of_one_retry_in_series() {
    let (sizes, gave_up) = sizes_until_giving_up(probing(4, 1));
    assert_eq!(sizes, vec![1, 1, 1, 1]);
    assert_eq!(gave_up.attempts(), 4);
}

#[test]
fn without_a_probe_a_single_stream_is_opened() {
    let settings = DialSettings {
        reply_surbs: Some(20),
        probe: None,
    };
    let (sizes, gave_up) = sizes_until_giving_up(settings);
    assert_eq!(sizes, vec![1]);
    assert_eq!(gave_up.attempts(), 1);
}

#[test]
fn a_round_larger_than_the_attempts_is_cut_down() {
    let (sizes, _) = sizes_until_giving_up(probing(2, 3));
    assert_eq!(sizes, vec![2]);
}

#[test]
fn the_first_stream_to_answer_ends_the_dialling() {
    let dialler = Dialler::start(&probing(6, 3));
    let Plan::Open { size, dialler } = dialler.next() else {
        panic!("attempts are left")
    };
    assert_eq!(size, 3);
    let Err(dialler) = dialler.record::<&str>(None, silent_round(3)) else {
        panic!("nothing answered")
    };
    let Plan::Open { size, dialler } = dialler.next() else {
        panic!("attempts are left")
    };
    assert_eq!(size, 3);
    let mut round = silent_round(1);
    round.answer();
    let Ok(dialled): Result<Dialled<&str>, Dialler> = dialler.record(Some(("stream", 1234)), round)
    else {
        panic!("a stream answered")
    };
    assert_eq!(dialled.stream, "stream");
    assert_eq!(dialled.elapsed, 1234);
    assert_eq!(dialled.rounds.len(), 2);
    assert!(!dialled.rounds[0].answered);
    assert!(dialled.rounds[1].answered);
    assert_eq!(dialled.discarded(), 4);
}

#[test]
fn a_round_counts_what_it_opened() {
    let mut round = Round::default();
    assert_eq!(round.opened(), 0);
    round.discard(5, DialError::Open("refused".to_string()));
    assert_eq!(round.opened(), 1);
    round.answer();
    assert_eq!(round.opened(), 2);
}

#[test]
fn the_last_error_is_the_last_discarded_stream_of_the_last_round() {
    let mut first = Round::new();
    first.discard(1, DialError::Open("first".to_string()));
    let mut second = Round::new();
    second.discard(2, DialError::Probe("second".to_string()));
    second.discard(3, DialError::Probe("third".to_string()));
    let gave_up = GaveUp {
        rounds: vec![first, second],
    };
    match gave_up.last_error() {
        Some(DialError::Probe(message)) => assert_eq!(message, "third"),
        other => panic!("the last error should be the third: {other:?}"),
    }
    assert_eq!(gave_up.attempts(), 3);

    let none = GaveUp { rounds: Vec::new() };
    assert!(none.last_error().is_none());
    assert_eq!(none.attempts(), 0);

    let empty_last = GaveUp {
        rounds: vec![silent_round(2), Round::new()],
    };
    assert!(empty_last.last_error().is_none());
}

#[test]
fn a_discarded_stream_keeps_how_long_it_took() {
    let mut round = Round::new();
    round.discard(700, DialError::Probe("timeout".to_string()));
    let Discarded { elapsed, error } = &round.discarded[0];
    assert_eq!(*elapsed, 700);
    assert!(matches!(error, DialError::Probe(_)));
}

/// Run one round of `size` streams in which the opens and answers come out as given, in order,
/// returning the steps taken and how the round finished.
fn run_round(
    size: u32,
    probe: bool,
    opens: &[bool],
    answers: &[bool],
) -> (Vec<&'static str>, bool, Round) {
    let mut run = RoundRun::start(size, probe);
    let mut steps = Vec::new();
    let mut opens = opens.iter();
    let mut answers = answers.iter();
    loop {
        match run.next() {
            RoundStep::Open(next) => {
                steps.push("open");
                let outcome = if *opens.next().unwrap() {
                    Ok(())
                } else {
                    Err("refused".to_string())
                };
                run = next.opened(outcome, 1);
            }
            RoundStep::Announce(next) | RoundStep::Probe { run: next, .. } => {
                steps.push(if probe { "probe" } else { "announce" });
                let mut waiting = next;
                loop {
                    let outcome = if *answers.next().unwrap() {
                        Ok(())
                    } else {
                        Err("timeout".to_string())
                    };
                    match waiting.answered(outcome, 2) {
                        RoundStep::Finished { answered, round } => return (steps, answered, round),
                        RoundStep::Probe { run, .. } => waiting = run,
                        _ => panic!("only probes are awaited"),
                    }
                }
            }
            RoundStep::Finished { answered, round } => return (steps, answered, round),
        }
    }
}

#[test]
fn every_open_runs_before_any_probe_and_the_first_answer_ends_the_round() {
    let (steps, answered, round) = run_round(3, true, &[true, false, true], &[false, true]);
    assert_eq!(steps, vec!["open", "open", "open", "probe"]);
    assert!(answered && round.answered);
    assert_eq!(round.discarded.len(), 2);
    assert!(matches!(round.discarded[0].error, DialError::Open(_)));
    assert!(matches!(round.discarded[1].error, DialError::Probe(_)));
    assert_eq!(round.opened(), 3);
}

#[test]
fn a_round_in_which_nothing_answers_throws_every_stream_away() {
    let (_, answered, round) = run_round(3, true, &[true, true, false], &[false, false]);
    assert!(!answered && !round.answered);
    assert_eq!(round.discarded.len(), 3);
    let (steps, answered, round) = run_round(2, true, &[false, false], &[]);
    assert_eq!(steps, vec!["open", "open"]);
    assert!(!answered);
    assert_eq!(round.discarded.len(), 2);
}

#[test]
fn without_a_probe_the_one_stream_is_announced() {
    let (steps, answered, round) = run_round(1, false, &[true], &[true]);
    assert_eq!(steps, vec!["open", "announce"]);
    assert!(answered && round.answered && round.discarded.is_empty());
    let (_, answered, round) = run_round(1, false, &[true], &[false]);
    assert!(!answered);
    assert!(matches!(round.discarded[0].error, DialError::Probe(_)));
    let (steps, answered, round) = run_round(1, false, &[false], &[]);
    assert_eq!(steps, vec!["open"]);
    assert!(!answered);
    assert!(matches!(round.discarded[0].error, DialError::Open(_)));
}

#[test]
fn giving_up_spends_every_attempt_and_has_a_last_error() {
    let (_, gave_up) = sizes_until_giving_up(probing(7, 3));
    assert_eq!(gave_up.attempts(), 7);
    assert!(gave_up.rounds.iter().all(|round| !round.answered));
    assert!(gave_up.last_error().is_some());
}
