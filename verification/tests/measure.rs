use lwd_mixnet_proxy::dial::{DialError, Round};
use lwd_mixnet_proxy::measure::{
    arm_for_trial, arms, establishment, next_refusal_streak, refused_opens, round_failures,
    rate_too_low_to_judge, sequential_baseline, should_stop, tally, unanswered, Arm, Tally, Trial,
    REFUSAL_STREAK_LIMIT,
};

#[test]
fn arms_are_every_round_size_with_every_gap() {
    let found = arms(&vec![1, 3], &Some(vec![0, 30]));
    assert_eq!(
        found,
        vec![
            Arm { concurrency: 1, gap_secs: Some(0) },
            Arm { concurrency: 1, gap_secs: Some(30) },
            Arm { concurrency: 3, gap_secs: Some(0) },
            Arm { concurrency: 3, gap_secs: Some(30) },
        ]
    );
}

#[test]
fn without_gaps_each_round_size_is_one_arm() {
    let found = arms(&vec![1, 3], &None);
    assert_eq!(
        found,
        vec![
            Arm { concurrency: 1, gap_secs: None },
            Arm { concurrency: 3, gap_secs: None },
        ]
    );
    assert!(arms(&vec![1, 3], &Some(Vec::new())).is_empty());
    assert!(arms(&Vec::new(), &None).is_empty());
}

#[test]
fn trials_rotate_through_the_arms() {
    let picked: Vec<usize> = (1..=7).map(|number| arm_for_trial(number, 3)).collect();
    assert_eq!(picked, vec![0, 1, 2, 0, 1, 2, 0]);
}

#[test]
fn a_run_stops_after_enough_trials_open_nothing() {
    let mut streak = 0;
    let mut stopped_at = None;
    for (number, opened) in [2, 0, 0, 3, 0, 0, 0, 0, 0, 1].into_iter().enumerate() {
        streak = next_refusal_streak(streak, opened);
        if should_stop(streak) {
            stopped_at = Some(number + 1);
            break;
        }
    }
    assert_eq!(REFUSAL_STREAK_LIMIT, 5);
    assert_eq!(stopped_at, Some(9));
}

#[test]
fn a_trial_reports_its_first_round_and_what_it_opened() {
    let mut first = Round::new();
    first.discard(10, DialError::Probe("timeout".to_string()));
    first.discard(11, DialError::Probe("timeout".to_string()));
    let mut second = Round::new();
    second.answer();
    let trial = Trial {
        arm: Arm { concurrency: 2, gap_secs: None },
        rounds: vec![first, second],
        total: 20_000,
        established: Some(900),
    };
    assert!(trial.answered());
    assert!(trial.first_round_failed());
    assert_eq!(trial.opened(), 3);
    assert_eq!(trial.concurrency(), 2);

    let empty = Trial {
        arm: Arm { concurrency: 1, gap_secs: None },
        rounds: Vec::new(),
        total: 0,
        established: None,
    };
    assert!(!empty.answered());
    assert!(!empty.first_round_failed());
    assert_eq!(empty.opened(), 0);
}

fn round(unanswered: usize, answered: bool) -> Round {
    let mut round = Round::new();
    for _ in 0..unanswered {
        round.discard(10_000, DialError::Probe("timeout".to_string()));
    }
    if answered {
        round.answer();
    }
    round
}

fn trial(concurrency: u32, rounds: Vec<Round>, total: u64) -> Trial {
    let established = rounds.last().filter(|round| round.answered).map(|_| total);
    Trial {
        arm: Arm { concurrency, gap_secs: None },
        rounds,
        total,
        established,
    }
}

fn sample_trials() -> Vec<Trial> {
    vec![
        trial(1, vec![round(0, true)], 1_200),
        trial(3, vec![round(2, true)], 1_500),
        trial(1, vec![round(1, false), round(0, true)], 11_300),
        trial(3, vec![round(3, false), round(3, false)], 20_000),
        trial(1, vec![round(1, false), round(1, false)], 20_000),
    ]
}

#[test]
fn a_tally_counts_both_rates_from_the_same_trials() {
    let trials = sample_trials();
    assert_eq!(
        tally(&trials, Arm { concurrency: 1, gap_secs: None }),
        Tally {
            trials: 3,
            first_round_failures: 2,
            visible_failures: 1,
            opened: 5,
        }
    );
    assert_eq!(
        tally(&trials, Arm { concurrency: 3, gap_secs: None }),
        Tally {
            trials: 2,
            first_round_failures: 1,
            visible_failures: 1,
            opened: 9,
        }
    );
    assert_eq!(
        tally(&trials, Arm { concurrency: 2, gap_secs: None }),
        Tally {
            trials: 0,
            first_round_failures: 0,
            visible_failures: 0,
            opened: 0,
        }
    );
}

#[test]
fn each_round_is_counted_among_the_trials_that_reached_it() {
    let trials = sample_trials();
    let sequential = Arm { concurrency: 1, gap_secs: None };
    assert_eq!(round_failures(&trials, sequential, 0), (3, 2));
    assert_eq!(round_failures(&trials, sequential, 1), (2, 1));
    assert_eq!(round_failures(&trials, sequential, 2), (0, 0));
}

#[test]
fn establishment_is_what_answered_trials_waited() {
    let trials = sample_trials();
    assert_eq!(
        establishment(&trials, Arm { concurrency: 1, gap_secs: None }),
        vec![1_200, 11_300]
    );
    assert_eq!(
        establishment(&trials, Arm { concurrency: 3, gap_secs: None }),
        vec![1_500]
    );
}

#[test]
fn refused_opens_are_counted_apart_from_unanswered_streams() {
    let mut mixed = Round::new();
    mixed.discard(1, DialError::Open("refused".to_string()));
    mixed.discard(2, DialError::Probe("timeout".to_string()));
    mixed.discard(3, DialError::Probe("timeout".to_string()));
    assert_eq!(refused_opens(&mixed), 1);
    assert_eq!(unanswered(&mixed), 2);
    let mut refused = Round::new();
    refused.discard(1, DialError::Open("refused".to_string()));
    let trial = Trial {
        arm: Arm { concurrency: 3, gap_secs: None },
        rounds: vec![mixed, refused],
        total: 20_000,
        established: None,
    };
    assert_eq!(trial.refused_opens(), 2);
}

#[test]
fn a_rate_under_a_tenth_is_too_low_to_judge() {
    assert!(rate_too_low_to_judge(2, 30));
    assert!(!rate_too_low_to_judge(3, 30));
    assert!(!rate_too_low_to_judge(0, 0));
    assert!(rate_too_low_to_judge(usize::MAX / 20, usize::MAX));
    assert!(!rate_too_low_to_judge(usize::MAX / 5, usize::MAX));
}

#[test]
fn independence_is_judged_against_the_first_arm_of_rounds_of_one() {
    let arm = |concurrency| Arm { concurrency, gap_secs: None };
    assert_eq!(sequential_baseline(&vec![arm(3), arm(1), arm(1)]), Some(1));
    assert_eq!(sequential_baseline(&vec![arm(1), arm(1)]), None);
    assert_eq!(sequential_baseline(&vec![arm(2), arm(3)]), None);
    assert_eq!(sequential_baseline(&Vec::new()), None);
}
