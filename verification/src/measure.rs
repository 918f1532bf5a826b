//! The bookkeeping of measuring whether the probe and its retry are worth having.
//!
//! One trial is one dial. Round sizes, and quiet gaps before a dial, are compared by interleaving
//! them trial by trial: the transport's failure rate moved by an order of magnitude between one hour
//! and the next, so two configurations measured an hour apart cannot be told apart from the
//! weather. Every configuration under test is an [`Arm`], and trials rotate through them.

use vstd::prelude::*;

use crate::dial::{DialError, Discarded, Round, total_discarded, total_opened};

verus! {

/// Consecutive trials that open nothing before a run is abandoned. Enough to rule out a blip,
/// short enough not to spend the session on a dead client.
pub const REFUSAL_STREAK_LIMIT: usize = 5;

/// One configuration under test.
#[derive(Debug, Clone, Copy, PartialEq, Eq, PartialOrd, Ord, Structural)]
pub struct Arm {
    /// How many streams are opened at once.
    pub concurrency: u32,
    /// Quiet gap left before the measured stream was opened, in seconds, or `None` when not under
    /// test.
    pub gap_secs: Option<u64>,
}

/// The gaps under test: those given, or the single "no gap" when none were.
pub open spec fn gap_choices(gap_secs: Option<Seq<u64>>) -> Seq<Option<u64>> {
    match gap_secs {
        Some(gaps) => gaps.map_values(|gap: u64| Some(gap)),
        None => seq![None],
    }
}

/// The `k`th pairing of a round size with a gap, counting round size by round size.
pub open spec fn pairing(concurrency: Seq<u32>, gaps: Seq<Option<u64>>, k: int) -> Arm {
    Arm { concurrency: concurrency[k / gaps.len() as int], gap_secs: gaps[k % gaps.len() as int] }
}

/// Every pairing of a round size with a gap, round size by round size, in the order given.
pub open spec fn cross(concurrency: Seq<u32>, gaps: Seq<Option<u64>>) -> Seq<Arm> {
    Seq::new(concurrency.len() * gaps.len(), |k: int| pairing(concurrency, gaps, k))
}

proof fn lemma_cell(i: int, j: int, width: int)
    requires
        0 <= i,
        0 <= j < width,
    ensures
        (i * width + j) / width == i,
        (i * width + j) % width == j,
{
    vstd::arithmetic::div_mod::lemma_fundamental_div_mod_converse(i * width + j, width, i, j);
}

/// Every configuration under test, as the cross product of the round sizes and the gaps given.
pub fn arms(concurrency: &Vec<u32>, gap_secs: &Option<Vec<u64>>) -> (arms: Vec<Arm>)
    ensures
        arms@ == cross(
            concurrency@,
            gap_choices(
                match gap_secs {
                    Some(gaps) => Some(gaps@),
                    None => None,
                },
            ),
        ),
{
    let ghost given = match gap_secs {
        Some(gaps) => Some(gaps@),
        None => None,
    };
    let mut gaps: Vec<Option<u64>> = Vec::new();
    match gap_secs {
        Some(given_gaps) => {
            let mut g: usize = 0;
            while g < given_gaps.len()
                invariant
                    0 <= g <= given_gaps@.len(),
                    gaps@ == given_gaps@.take(g as int).map_values(|gap: u64| Some(gap)),
                decreases given_gaps@.len() - g,
            {
                gaps.push(Some(given_gaps[g]));
                g = g + 1;
                assert(gaps@ =~= given_gaps@.take(g as int).map_values(|gap: u64| Some(gap)));
            }
            assert(given_gaps@.take(g as int) =~= given_gaps@);
        },
        None => {
            gaps.push(None);
            assert(gaps@ =~= seq![None]);
        },
    }
    let ghost choices = gaps@;
    assert(choices == gap_choices(given));
    let width = gaps.len();
    if width == 0 {
        let none: Vec<Arm> = Vec::new();
        assert(none@ =~= cross(concurrency@, choices));
        return none;
    }

    let mut arms: Vec<Arm> = Vec::new();
    let mut i: usize = 0;
    while i < concurrency.len()
        invariant
            0 <= i <= concurrency@.len(),
            gaps@ == choices,
            width == choices.len(),
            width > 0,
            arms@.len() == i * width,
            forall|k: int|
                0 <= k < arms@.len() ==> #[trigger] arms@[k] == pairing(concurrency@, choices, k),
        decreases concurrency@.len() - i,
    {
        let mut j: usize = 0;
        while j < width
            invariant
                0 <= i < concurrency@.len(),
                0 <= j <= width,
                gaps@ == choices,
                width == choices.len(),
                width > 0,
                arms@.len() == i * width + j,
                forall|k: int|
                    0 <= k < arms@.len() ==> #[trigger] arms@[k] == pairing(concurrency@, choices, k),
            decreases width - j,
        {
            proof {
                lemma_cell(i as int, j as int, width as int);
            }
            arms.push(Arm { concurrency: concurrency[i], gap_secs: gaps[j] });
            j = j + 1;
        }
        proof {
            assert((i + 1) * width == i * width + width) by (nonlinear_arith);
        }
        i = i + 1;
    }
    assert(arms@ =~= cross(concurrency@, choices));
    arms
}

/// Which configuration the trial numbered `number`, counting from one, runs: trials rotate through
/// the arms in order.
pub fn arm_for_trial(number: usize, arms: usize) -> (index: usize)
    requires
        number >= 1,
        arms > 0,
    ensures
        index == (number - 1) % (arms as int),
        index < arms,
{
    (number - 1) % arms
}

/// How many trials in a row have opened no stream at all, after one that opened `opened`.
///
/// A client whose gateway has gone stops opening streams at all, and everything measured after
/// that is the client rather than the transport.
pub fn next_refusal_streak(streak: usize, opened: usize) -> (next: usize)
    requires
        streak < usize::MAX,
    ensures
        opened == 0 ==> next == streak + 1,
        opened > 0 ==> next == 0,
{
    if opened == 0 {
        streak + 1
    } else {
        0
    }
}

/// Whether a run should stop after `streak` trials in a row that opened nothing.
pub fn should_stop(streak: usize) -> (stop: bool)
    ensures
        stop <==> streak >= REFUSAL_STREAK_LIMIT,
{
    streak >= REFUSAL_STREAK_LIMIT
}

/// One dial, measured.
#[derive(Debug)]
pub struct Trial {
    pub arm: Arm,
    pub rounds: Vec<Round>,
    /// How long the whole trial took, retries included, in milliseconds. This is what a wallet
    /// waits.
    pub total: u64,
    /// How long the answering round took, in milliseconds, or `None` if none did.
    pub established: Option<u64>,
}

impl Trial {
    /// The round size this trial ran with.
    pub fn concurrency(&self) -> (concurrency: u32)
        ensures
            concurrency == self.arm.concurrency,
    {
        self.arm.concurrency
    }

    /// Whether a stream answered.
    pub fn answered(&self) -> (answered: bool)
        ensures
            answered == self.established is Some,
    {
        self.established.is_some()
    }

    /// Whether the streams opened together at the start all went unanswered.
    ///
    /// This is the comparable unit across round sizes: with rounds of one it is the raw per-stream
    /// rate, and with larger rounds it is how often a whole group came up empty.
    pub fn first_round_failed(&self) -> (failed: bool)
        ensures
            failed == (self.rounds@.len() > 0 && !self.rounds@[0].answered),
    {
        self.rounds.len() > 0 && !self.rounds[0].answered
    }

    /// How many streams the trial opened.
    pub fn opened(&self) -> (opened: usize)
        requires
            total_opened(self.rounds@) <= usize::MAX,
        ensures
            opened == total_opened(self.rounds@),
    {
        crate::dial::count_opened(&self.rounds)
    }
}

/// Whether a trial's first round went unanswered.
pub open spec fn first_round_failed(trial: Trial) -> bool {
    trial.rounds@.len() > 0 && !trial.rounds@[0].answered
}

/// How many of the trials run with `arm` satisfy `holds`.
pub open spec fn count_in_arm(trials: Seq<Trial>, arm: Arm, holds: spec_fn(Trial) -> bool) -> nat
    decreases trials.len(),
{
    if trials.len() == 0 {
        0
    } else {
        count_in_arm(trials.drop_last(), arm, holds) + if trials.last().arm == arm && holds(
            trials.last(),
        ) {
            1nat
        } else {
            0nat
        }
    }
}

/// How many streams the trials run with `arm` opened, all told.
pub open spec fn opened_in_arm(trials: Seq<Trial>, arm: Arm) -> nat
    decreases trials.len(),
{
    if trials.len() == 0 {
        0
    } else {
        opened_in_arm(trials.drop_last(), arm) + if trials.last().arm == arm {
            total_opened(trials.last().rounds@)
        } else {
            0nat
        }
    }
}

proof fn lemma_prefix_step(trials: Seq<Trial>, i: int)
    requires
        0 <= i < trials.len(),
    ensures
        trials.take(i + 1).drop_last() == trials.take(i),
        trials.take(i + 1).last() == trials[i],
{
    assert(trials.take(i + 1).drop_last() =~= trials.take(i));
}

proof fn lemma_count_step(trials: Seq<Trial>, arm: Arm, holds: spec_fn(Trial) -> bool, i: int)
    requires
        0 <= i < trials.len(),
    ensures
        count_in_arm(trials.take(i + 1), arm, holds) == count_in_arm(trials.take(i), arm, holds)
            + if trials[i].arm == arm && holds(trials[i]) {
            1nat
        } else {
            0nat
        },
{
    lemma_prefix_step(trials, i);
    let step = trials.take(i + 1);
    assert(step.len() > 0);
    assert(count_in_arm(step, arm, holds) == count_in_arm(step.drop_last(), arm, holds) + if step.last().arm == arm && holds(step.last()) { 1nat } else { 0nat });
}

proof fn lemma_opened_grows_with_prefix(trials: Seq<Trial>, arm: Arm, i: int)
    requires
        0 <= i <= trials.len(),
    ensures
        opened_in_arm(trials.take(i), arm) <= opened_in_arm(trials, arm),
    decreases trials.len() - i,
{
    if i == trials.len() {
        assert(trials.take(i) =~= trials);
    } else {
        lemma_prefix_step(trials, i);
        lemma_opened_grows_with_prefix(trials, arm, i + 1);
    }
}

/// How many streams `trials` opened, all told, whatever their arms.
pub open spec fn sum_opened(trials: Seq<Trial>) -> nat
    decreases trials.len(),
{
    if trials.len() == 0 {
        0
    } else {
        sum_opened(trials.drop_last()) + total_opened(trials.last().rounds@)
    }
}

/// An arm's counts are over its own trials and no others: the trials run with exactly that arm,
/// round size and gap both, counted whole. The trials counted are those run with the arm; the
/// first-round failures, those of them whose first round went unanswered; the visible failures,
/// those of them that ended with no stream; and the streams opened, all the streams those trials
/// opened.
pub proof fn lemma_arm_counts_are_its_own_trials(trials: Seq<Trial>, arm: Arm)
    ensures
        count_in_arm(trials, arm, |trial: Trial| true) == trials.filter(
            |trial: Trial| trial.arm == arm,
        ).len(),
        count_in_arm(trials, arm, |trial: Trial| first_round_failed(trial)) == trials.filter(
            |trial: Trial|
                trial.arm == arm && trial.rounds@.len() > 0 && !trial.rounds@[0].answered,
        ).len(),
        count_in_arm(trials, arm, |trial: Trial| trial.established is None) == trials.filter(
            |trial: Trial| trial.arm == arm && trial.established is None,
        ).len(),
        opened_in_arm(trials, arm) == sum_opened(trials.filter(|trial: Trial| trial.arm == arm)),
    decreases trials.len(),
{
    reveal(Seq::filter);
    if trials.len() > 0 {
        lemma_arm_counts_are_its_own_trials(trials.drop_last(), arm);
        let mine = trials.filter(|trial: Trial| trial.arm == arm);
        let before = trials.drop_last().filter(|trial: Trial| trial.arm == arm);
        if trials.last().arm == arm {
            assert(mine == before.push(trials.last()));
            assert(mine.drop_last() =~= before);
        } else {
            assert(mine == before);
        }
    }
}

/// A trial adds its streams to an arm's count exactly when it was run with that arm, round size and
/// gap both: one run with another gap or another round size leaves the count as it was.
pub proof fn lemma_only_the_arms_own_trials_add_streams(trials: Seq<Trial>, trial: Trial, arm: Arm)
    ensures
        trial.arm == arm ==> opened_in_arm(trials.push(trial), arm) == opened_in_arm(trials, arm)
            + total_opened(trial.rounds@),
        trial.arm != arm ==> opened_in_arm(trials.push(trial), arm) == opened_in_arm(trials, arm),
        trial.arm.concurrency == arm.concurrency && trial.arm.gap_secs != arm.gap_secs
            ==> opened_in_arm(trials.push(trial), arm) == opened_in_arm(trials, arm),
{
    assert(trials.push(trial).drop_last() =~= trials);
}

/// What one configuration's trials add up to: the pair of rates a report is about, counted from
/// the same trials, and what they cost.
#[derive(Debug, Clone, Copy, PartialEq, Eq, Structural)]
pub struct Tally {
    /// How many trials ran with the configuration.
    pub trials: usize,
    /// How many of them had every stream of their first round go unanswered.
    pub first_round_failures: usize,
    /// How many of them had no stream answer at all, which is what a wallet sees.
    pub visible_failures: usize,
    /// How many streams they opened.
    pub opened: usize,
}

/// Add up the trials run with `arm`.
#[verifier::loop_isolation(false)]
pub fn tally(trials: &Vec<Trial>, arm: Arm) -> (tally: Tally)
    requires
        opened_in_arm(trials@, arm) <= usize::MAX,
    ensures
        tally.trials == count_in_arm(trials@, arm, |trial: Trial| true),
        tally.first_round_failures == count_in_arm(
            trials@,
            arm,
            |trial: Trial| first_round_failed(trial),
        ),
        tally.visible_failures == count_in_arm(trials@, arm, |trial: Trial| trial.established is None),
        tally.opened == opened_in_arm(trials@, arm),
        tally.trials == trials@.filter(|trial: Trial| trial.arm == arm).len(),
        tally.first_round_failures == trials@.filter(
            |trial: Trial|
                trial.arm == arm && trial.rounds@.len() > 0 && !trial.rounds@[0].answered,
        ).len(),
        tally.visible_failures == trials@.filter(
            |trial: Trial| trial.arm == arm && trial.established is None,
        ).len(),
        tally.opened == sum_opened(trials@.filter(|trial: Trial| trial.arm == arm)),
{
    let ghost all = |trial: Trial| true;
    let ghost first = |trial: Trial| first_round_failed(trial);
    let ghost visible = |trial: Trial| trial.established is None;
    let mut tally = Tally { trials: 0, first_round_failures: 0, visible_failures: 0, opened: 0 };
    let mut i: usize = 0;
    while i < trials.len()
        invariant
            0 <= i <= trials@.len(),
            tally.trials == count_in_arm(trials@.take(i as int), arm, all),
            tally.first_round_failures == count_in_arm(trials@.take(i as int), arm, first),
            tally.visible_failures == count_in_arm(trials@.take(i as int), arm, visible),
            tally.opened == opened_in_arm(trials@.take(i as int), arm),
            tally.trials <= i,
            tally.first_round_failures <= i,
            tally.visible_failures <= i,
            opened_in_arm(trials@, arm) <= usize::MAX,
        decreases trials@.len() - i,
    {
        proof {
            lemma_prefix_step(trials@, i as int);
            lemma_opened_grows_with_prefix(trials@, arm, i + 1);
            lemma_count_step(trials@, arm, all, i as int);
            lemma_count_step(trials@, arm, first, i as int);
            lemma_count_step(trials@, arm, visible, i as int);
        }
        let trial = &trials[i];
        if trial.arm == arm {
            tally.trials = tally.trials + 1;
            if trial.first_round_failed() {
                tally.first_round_failures = tally.first_round_failures + 1;
            }
            if !trial.answered() {
                tally.visible_failures = tally.visible_failures + 1;
            }
            tally.opened = tally.opened + trial.opened();
        }
        i = i + 1;
    }
    assert(trials@.take(i as int) =~= trials@);
    proof {
        lemma_arm_counts_are_its_own_trials(trials@, arm);
    }
    tally
}

/// How many trials run with `arm` reached the round numbered `index`, counting from zero.
pub open spec fn reached_round(trials: Seq<Trial>, arm: Arm, index: nat) -> nat {
    count_in_arm(trials, arm, |trial: Trial| trial.rounds@.len() > index)
}

/// How many trials run with `arm` reached the round numbered `index` and had it go unanswered.
pub open spec fn failed_round(trials: Seq<Trial>, arm: Arm, index: nat) -> nat {
    count_in_arm(
        trials,
        arm,
        |trial: Trial| trial.rounds@.len() > index && !trial.rounds@[index as int].answered,
    )
}

/// A round's counts are over the arm's own trials and no others: the trials run with exactly that
/// arm that reached the round, and those of them whose round then went unanswered.
pub proof fn lemma_round_counts_are_its_own_trials(trials: Seq<Trial>, arm: Arm, index: nat)
    ensures
        reached_round(trials, arm, index) == trials.filter(
            |trial: Trial| trial.arm == arm && trial.rounds@.len() > index,
        ).len(),
        failed_round(trials, arm, index) == trials.filter(
            |trial: Trial|
                trial.arm == arm && trial.rounds@.len() > index
                    && !trial.rounds@[index as int].answered,
        ).len(),
    decreases trials.len(),
{
    reveal(Seq::filter);
    if trials.len() > 0 {
        lemma_round_counts_are_its_own_trials(trials.drop_last(), arm, index);
    }
}

/// How often the round numbered `index` was reached, and how often it then failed, among the
/// trials run with `arm`. Equal rates down the rounds mean failures are independent and retrying
/// multiplies; a rising rate means a failure predicts the next one.
#[verifier::loop_isolation(false)]
pub fn round_failures(trials: &Vec<Trial>, arm: Arm, index: usize) -> (counts: (usize, usize))
    ensures
        counts.0 == reached_round(trials@, arm, index as nat),
        counts.1 == failed_round(trials@, arm, index as nat),
        counts.0 == trials@.filter(
            |trial: Trial| trial.arm == arm && trial.rounds@.len() > index as nat,
        ).len(),
        counts.1 == trials@.filter(
            |trial: Trial|
                trial.arm == arm && trial.rounds@.len() > index as nat
                    && !trial.rounds@[index as int].answered,
        ).len(),
{
    let ghost reaches = |trial: Trial| trial.rounds@.len() > index as nat;
    let ghost fails = |trial: Trial|
        trial.rounds@.len() > index as nat && !trial.rounds@[index as int].answered;
    let mut reached: usize = 0;
    let mut failed: usize = 0;
    let mut i: usize = 0;
    while i < trials.len()
        invariant
            0 <= i <= trials@.len(),
            reached == count_in_arm(trials@.take(i as int), arm, reaches),
            failed == count_in_arm(trials@.take(i as int), arm, fails),
            reached <= i,
            failed <= i,
        decreases trials@.len() - i,
    {
        proof {
            lemma_count_step(trials@, arm, reaches, i as int);
            lemma_count_step(trials@, arm, fails, i as int);
        }
        let trial = &trials[i];
        if trial.arm == arm && trial.rounds.len() > index {
            reached = reached + 1;
            if !trial.rounds[index].answered {
                failed = failed + 1;
            }
        }
        i = i + 1;
    }
    assert(trials@.take(i as int) =~= trials@);
    proof {
        lemma_round_counts_are_its_own_trials(trials@, arm, index as nat);
    }
    (reached, failed)
}

/// How long establishing took, for every trial run with `arm` that a stream answered, in the order
/// run: what the wallet waited, retries included.
#[verifier::loop_isolation(false)]
pub fn establishment(trials: &Vec<Trial>, arm: Arm) -> (samples: Vec<u64>)
    ensures
        samples@ == trials@.filter(|trial: Trial| trial.arm == arm && trial.established is Some).map_values(
            |trial: Trial| trial.total,
        ),
{
    let ghost keep = |trial: Trial| trial.arm == arm && trial.established is Some;
    let mut samples: Vec<u64> = Vec::new();
    let mut i: usize = 0;
    while i < trials.len()
        invariant
            0 <= i <= trials@.len(),
            samples@ == trials@.take(i as int).filter(keep).map_values(|trial: Trial| trial.total),
        decreases trials@.len() - i,
    {
        proof {
            lemma_prefix_step(trials@, i as int);
            reveal(Seq::filter);
        }
        let trial = &trials[i];
        if trial.arm == arm && trial.established.is_some() {
            samples.push(trial.total);
        }
        proof {
            let before = trials@.take(i as int).filter(keep);
            let after = trials@.take(i + 1).filter(keep);
            assert(after == if keep(trials@[i as int]) {
                before.push(trials@[i as int])
            } else {
                before
            });
            assert(samples@ =~= after.map_values(|trial: Trial| trial.total));
        }
        i = i + 1;
    }
    assert(trials@.take(i as int) =~= trials@);
    samples
}

/// A round can only fail in trials that reached it, and no round is reached by more trials than
/// ran: the conditional rates are fractions of what they are conditioned on. The first round is
/// reached by every trial that opened one, and fails exactly where the first-round rate counts.
pub proof fn lemma_round_failures_are_within_reach(trials: Seq<Trial>, arm: Arm, index: nat)
    ensures
        failed_round(trials, arm, index) <= reached_round(trials, arm, index),
        reached_round(trials, arm, index) <= count_in_arm(trials, arm, |trial: Trial| true),
        failed_round(trials, arm, 0) == count_in_arm(
            trials,
            arm,
            |trial: Trial| first_round_failed(trial),
        ),
    decreases trials.len(),
{
    let reaches = |trial: Trial| trial.rounds@.len() > index;
    let fails = |trial: Trial| trial.rounds@.len() > index && !trial.rounds@[index as int].answered;
    let all = |trial: Trial| true;
    let first_fails = |trial: Trial| trial.rounds@.len() > 0nat && !trial.rounds@[0].answered;
    let first = |trial: Trial| first_round_failed(trial);
    if trials.len() > 0 {
        lemma_round_failures_are_within_reach(trials.drop_last(), arm, index);
        assert(count_in_arm(trials, arm, fails) == count_in_arm(trials.drop_last(), arm, fails) + if trials.last().arm == arm && fails(trials.last()) { 1nat } else { 0nat });
        assert(count_in_arm(trials, arm, reaches) == count_in_arm(trials.drop_last(), arm, reaches) + if trials.last().arm == arm && reaches(trials.last()) { 1nat } else { 0nat });
        assert(count_in_arm(trials, arm, all) == count_in_arm(trials.drop_last(), arm, all) + if trials.last().arm == arm { 1nat } else { 0nat });
        assert(count_in_arm(trials, arm, first_fails) == count_in_arm(trials.drop_last(), arm, first_fails) + if trials.last().arm == arm && first_fails(trials.last()) { 1nat } else { 0nat });
        assert(count_in_arm(trials, arm, first) == count_in_arm(trials.drop_last(), arm, first) + if trials.last().arm == arm && first(trials.last()) { 1nat } else { 0nat });
    }
}

/// How many of `discarded` were refused outright, rather than opened and left unanswered.
pub open spec fn refusals(discarded: Seq<Discarded>) -> nat
    decreases discarded.len(),
{
    if discarded.len() == 0 {
        0
    } else {
        refusals(discarded.drop_last()) + if discarded.last().error is Open {
            1nat
        } else {
            0nat
        }
    }
}

proof fn lemma_refusals_bounded(discarded: Seq<Discarded>)
    ensures
        refusals(discarded) <= discarded.len(),
    decreases discarded.len(),
{
    if discarded.len() > 0 {
        lemma_refusals_bounded(discarded.drop_last());
    }
}

/// How many opens of `round` the local client refused. A refusal is not a failure of the transport
/// and is counted apart: a client that degrades refuses every open, and folding that in reads as
/// the network failing.
pub fn refused_opens(round: &Round) -> (refused: usize)
    ensures
        refused == refusals(round.discarded@),
        refused <= round.discarded@.len(),
{
    let mut refused: usize = 0;
    let mut i: usize = 0;
    while i < round.discarded.len()
        invariant
            0 <= i <= round.discarded@.len(),
            refused == refusals(round.discarded@.take(i as int)),
            refused <= i,
        decreases round.discarded@.len() - i,
    {
        proof {
            assert(round.discarded@.take(i + 1).drop_last() =~= round.discarded@.take(i as int));
        }
        match &round.discarded[i].error {
            DialError::Open(_) => refused = refused + 1,
            DialError::Probe(_) => {},
        }
        i = i + 1;
    }
    assert(round.discarded@.take(i as int) =~= round.discarded@);
    refused
}

/// How many streams of `round` opened and then went unanswered.
pub fn unanswered(round: &Round) -> (unanswered: usize)
    ensures
        unanswered == round.discarded@.len() - refusals(round.discarded@),
{
    let refused = refused_opens(round);
    round.discarded.len() - refused
}

/// How many opens the local client refused over `rounds`, all told.
pub open spec fn total_refusals(rounds: Seq<Round>) -> nat
    decreases rounds.len(),
{
    if rounds.len() == 0 {
        0
    } else {
        total_refusals(rounds.drop_last()) + refusals(rounds.last().discarded@)
    }
}

proof fn lemma_refusals_within_discards(rounds: Seq<Round>)
    ensures
        total_refusals(rounds) <= total_discarded(rounds),
    decreases rounds.len(),
{
    if rounds.len() > 0 {
        lemma_refusals_within_discards(rounds.drop_last());
        lemma_refusals_bounded(rounds.last().discarded@);
    }
}

proof fn lemma_discards_grow_with_prefix(rounds: Seq<Round>, i: int)
    requires
        0 <= i <= rounds.len(),
    ensures
        total_discarded(rounds.take(i)) <= total_discarded(rounds),
        total_refusals(rounds.take(i)) <= total_discarded(rounds.take(i)),
    decreases rounds.len() - i,
{
    lemma_refusals_within_discards(rounds.take(i));
    if i == rounds.len() {
        assert(rounds.take(i) =~= rounds);
    } else {
        assert(rounds.take(i + 1).drop_last() =~= rounds.take(i));
        lemma_discards_grow_with_prefix(rounds, i + 1);
    }
}

impl Trial {
    /// How many opens the local client refused in this trial. Any refusal makes a run invalid as a
    /// measurement of the transport.
    pub fn refused_opens(&self) -> (refused: usize)
        requires
            total_discarded(self.rounds@) <= usize::MAX,
        ensures
            refused == total_refusals(self.rounds@),
    {
        let mut refused: usize = 0;
        let mut i: usize = 0;
        while i < self.rounds.len()
            invariant
                0 <= i <= self.rounds@.len(),
                refused == total_refusals(self.rounds@.take(i as int)),
                total_discarded(self.rounds@) <= usize::MAX,
            decreases self.rounds@.len() - i,
        {
            proof {
                assert(self.rounds@.take(i + 1).drop_last() =~= self.rounds@.take(i as int));
                lemma_discards_grow_with_prefix(self.rounds@, i + 1);
            }
            refused = refused + refused_opens(&self.rounds[i]);
            i = i + 1;
        }
        assert(self.rounds@.take(i as int) =~= self.rounds@);
        refused
    }
}

/// Whether a first-round failure rate of `failures` in `trials` is under a tenth: too low to tell
/// the design from a quiet afternoon, so any reduction measured against it is unmeasured.
pub fn rate_too_low_to_judge(failures: usize, trials: usize) -> (too_low: bool)
    ensures
        too_low == (failures * 10 < trials),
{
    (failures as u128) * 10 < trials as u128
}

/// Which arm the independence of simultaneous streams is judged against: the first that opens
/// streams one at a time, whose first-round rate is the per-stream rate; none when no arm does, or
/// when every arm does and there is no larger round to judge.
pub fn sequential_baseline(arms: &Vec<Arm>) -> (baseline: Option<usize>)
    ensures
        match baseline {
            Some(index) => {
                &&& index < arms@.len()
                &&& arms@[index as int].concurrency == 1
                &&& forall|k: int| 0 <= k < index ==> (#[trigger] arms@[k]).concurrency != 1
                &&& exists|k: int| 0 <= k < arms@.len() && (#[trigger] arms@[k]).concurrency != 1
            },
            None => (forall|k: int| 0 <= k < arms@.len() ==> (#[trigger] arms@[k]).concurrency != 1)
                || (forall|k: int| 0 <= k < arms@.len() ==> (#[trigger] arms@[k]).concurrency == 1),
        },
{
    let mut first: Option<usize> = None;
    let mut larger = false;
    let mut i: usize = 0;
    while i < arms.len()
        invariant
            0 <= i <= arms@.len(),
            match first {
                Some(index) => {
                    &&& index < i
                    &&& arms@[index as int].concurrency == 1
                    &&& forall|k: int| 0 <= k < index ==> (#[trigger] arms@[k]).concurrency != 1
                },
                None => forall|k: int| 0 <= k < i ==> (#[trigger] arms@[k]).concurrency != 1,
            },
            larger <==> exists|k: int| 0 <= k < i && (#[trigger] arms@[k]).concurrency != 1,
        decreases arms@.len() - i,
    {
        if arms[i].concurrency == 1 {
            if first.is_none() {
                first = Some(i);
            }
        } else {
            larger = true;
        }
        i = i + 1;
    }
    if larger {
        first
    } else {
        None
    }
}

} // verus!
