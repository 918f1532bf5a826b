//! How attempts to open a stream that has been shown to work are grouped and counted.
//!
//! Every attempt is a fresh stream, discarded whole when its probe goes unanswered. Nothing is
//! retried once the wallet's bytes are moving: resuming a conversation would mean rebuilding HTTP/2
//! state and replaying requests already in flight, and a request that was delivered twice is worse
//! than one that failed cleanly.
//!
//! Attempts are grouped into **rounds**, because how they are grouped decides what establishing a
//! connection costs. A failure is silent, so it is only ever discovered by the probe deadline
//! expiring: a round of one pays that deadline once per failure, in series, while a round of several
//! pays it once for the whole round and takes whichever stream answers first.
//!
//! Both the rounds and the streams within them are reported to the caller rather than only logged.
//! The gap between how often a stream fails and how often the wallet notices is what justifies this
//! project, and whether retrying helps at all depends on failures being independent, which can only
//! be seen by counting them separately.
//!
//! A [`Dialler`] decides how large each round is and when to stop; the caller opens and probes the
//! streams of each round and hands back what became of them. Times are in milliseconds.

use vstd::prelude::*;

verus! {

/// How hard to insist on a stream that answers.
#[derive(Debug, Clone, Copy, PartialEq, Eq, Structural)]
pub struct ProbeSettings {
    /// How long one probe waits for its echo, in milliseconds. Round trips measured seconds with a
    /// long tail, so a deadline tight enough to keep establishment quick also discards healthy
    /// streams: this is a trade, not a value to be tuned to a best.
    pub timeout: u64,
    /// How many streams may be opened in total before giving up.
    pub attempts: u32,
    /// How many are opened at once, at least one. One makes each failure cost a full deadline
    /// before the next attempt begins; more turns that sum into a minimum.
    pub concurrency: u32,
}

/// How to reach the listening half.
#[derive(Debug, Clone, Copy, PartialEq, Eq, Structural)]
pub struct DialSettings {
    /// Reply blocks attached to each outbound message; `None` leaves the transport's default.
    pub reply_surbs: Option<u32>,
    /// `None` sends the header without waiting for it, which is the shape this takes if the
    /// transport ever stops losing first payloads: a single stream, used as it is.
    pub probe: Option<ProbeSettings>,
}

impl DialSettings {
    /// How many streams may be opened in total.
    pub open spec fn attempts(self) -> u32 {
        match self.probe {
            Some(probe) => probe.attempts,
            None => 1,
        }
    }

    /// How many streams are opened at once.
    pub open spec fn concurrency(self) -> u32 {
        match self.probe {
            Some(probe) => probe.concurrency,
            None => 1,
        }
    }
}

/// Why one attempt did not produce a usable stream.
#[derive(Debug)]
pub enum DialError {
    /// Opening a stream failed; the transport's own account of why.
    Open(String),
    /// A fresh stream did not answer its probe; why.
    Probe(String),
}

/// A stream that was opened and thrown away.
#[derive(Debug)]
pub struct Discarded {
    /// How long after its round began it was given up on, in milliseconds.
    pub elapsed: u64,
    pub error: DialError,
}

/// One group of streams opened together.
#[derive(Debug)]
pub struct Round {
    /// Streams thrown away, with why and how long each took.
    pub discarded: Vec<Discarded>,
    /// Whether one of this round's streams answered.
    pub answered: bool,
}

impl Round {
    /// How many streams this round opened.
    pub open spec fn opened_count(self) -> nat {
        self.discarded@.len() + if self.answered {
            1nat
        } else {
            0nat
        }
    }

    /// A round that has opened nothing yet.
    pub fn new() -> (round: Round)
        ensures
            round.discarded@.len() == 0,
            !round.answered,
    {
        Round { discarded: Vec::new(), answered: false }
    }

    /// How many streams this round opened.
    pub fn opened(&self) -> (opened: usize)
        requires
            self.opened_count() <= usize::MAX,
        ensures
            opened == self.opened_count(),
    {
        let answered: usize = if self.answered {
            1
        } else {
            0
        };
        self.discarded.len() + answered
    }

    /// Record a stream thrown away `elapsed` milliseconds into the round.
    pub fn discard(&mut self, elapsed: u64, error: DialError)
        ensures
            final(self).discarded@ == old(self).discarded@.push(Discarded { elapsed, error }),
            final(self).answered == old(self).answered,
    {
        self.discarded.push(Discarded { elapsed, error });
    }

    /// Record that one of the round's streams answered.
    pub fn answer(&mut self)
        ensures
            final(self).discarded@ == old(self).discarded@,
            final(self).answered,
    {
        self.answered = true;
    }
}

impl Default for Round {
    fn default() -> (round: Round)
        ensures
            round.discarded@.len() == 0,
            !round.answered,
    {
        Round::new()
    }
}

/// How many streams the rounds opened, all told.
pub open spec fn total_opened(rounds: Seq<Round>) -> nat
    decreases rounds.len(),
{
    if rounds.len() == 0 {
        0
    } else {
        total_opened(rounds.drop_last()) + rounds.last().opened_count()
    }
}

/// How many streams the rounds threw away, all told.
pub open spec fn total_discarded(rounds: Seq<Round>) -> nat
    decreases rounds.len(),
{
    if rounds.len() == 0 {
        0
    } else {
        total_discarded(rounds.drop_last()) + rounds.last().discarded@.len()
    }
}

/// The error the last stream thrown away failed with, if the last round threw any away.
pub open spec fn last_failure(rounds: Seq<Round>) -> Option<DialError> {
    if rounds.len() > 0 && rounds.last().discarded@.len() > 0 {
        Some(rounds.last().discarded@.last().error)
    } else {
        None
    }
}

proof fn lemma_total_opened_push(rounds: Seq<Round>, round: Round)
    ensures
        total_opened(rounds.push(round)) == total_opened(rounds) + round.opened_count(),
{
    assert(rounds.push(round).drop_last() =~= rounds);
}

proof fn lemma_totals_of_prefix(rounds: Seq<Round>, i: int)
    requires
        0 <= i < rounds.len(),
    ensures
        total_opened(rounds.take(i + 1)) == total_opened(rounds.take(i)) + rounds[i].opened_count(),
        total_discarded(rounds.take(i + 1)) == total_discarded(rounds.take(i))
            + rounds[i].discarded@.len(),
{
    assert(rounds.take(i + 1).drop_last() =~= rounds.take(i));
}

proof fn lemma_totals_grow_with_prefix(rounds: Seq<Round>, i: int)
    requires
        0 <= i <= rounds.len(),
    ensures
        total_opened(rounds.take(i)) <= total_opened(rounds),
        total_discarded(rounds.take(i)) <= total_discarded(rounds),
    decreases rounds.len() - i,
{
    if i == rounds.len() {
        assert(rounds.take(i) =~= rounds);
    } else {
        lemma_totals_of_prefix(rounds, i);
        lemma_totals_grow_with_prefix(rounds, i + 1);
    }
}

/// How many streams the rounds opened, computed.
pub(crate) fn count_opened(rounds: &Vec<Round>) -> (opened: usize)
    requires
        total_opened(rounds@) <= usize::MAX,
    ensures
        opened == total_opened(rounds@),
{
    let mut opened: usize = 0;
    let mut i: usize = 0;
    while i < rounds.len()
        invariant
            0 <= i <= rounds@.len(),
            opened == total_opened(rounds@.take(i as int)),
            total_opened(rounds@) <= usize::MAX,
        decreases rounds@.len() - i,
    {
        proof {
            lemma_totals_of_prefix(rounds@, i as int);
            lemma_totals_grow_with_prefix(rounds@, i + 1);
        }
        opened = opened + rounds[i].opened();
        i = i + 1;
    }
    assert(rounds@.take(i as int) =~= rounds@);
    opened
}

/// A stream that answered, and what it cost to get one.
#[derive(Debug)]
pub struct Dialled<S> {
    pub stream: S,
    /// How long the answering round took, in milliseconds, which is what the probe adds to
    /// establishing.
    pub elapsed: u64,
    /// Every round run, the answering one last.
    pub rounds: Vec<Round>,
}

impl<S> Dialled<S> {
    /// How many streams were thrown away before one answered.
    pub fn discarded(&self) -> (discarded: usize)
        requires
            total_discarded(self.rounds@) <= usize::MAX,
        ensures
            discarded == total_discarded(self.rounds@),
    {
        let mut discarded: usize = 0;
        let mut i: usize = 0;
        while i < self.rounds.len()
            invariant
                0 <= i <= self.rounds@.len(),
                discarded == total_discarded(self.rounds@.take(i as int)),
                total_discarded(self.rounds@) <= usize::MAX,
            decreases self.rounds@.len() - i,
        {
            proof {
                lemma_totals_of_prefix(self.rounds@, i as int);
                lemma_totals_grow_with_prefix(self.rounds@, i + 1);
            }
            discarded = discarded + self.rounds[i].discarded.len();
            i = i + 1;
        }
        assert(self.rounds@.take(i as int) =~= self.rounds@);
        discarded
    }
}

/// Every attempt failed.
#[derive(Debug)]
pub struct GaveUp {
    pub rounds: Vec<Round>,
}

impl GaveUp {
    /// What the last attempt failed with, which is the one worth reporting.
    pub fn last_error(&self) -> (error: Option<&DialError>)
        ensures
            match last_failure(self.rounds@) {
                Some(failure) => error matches Some(e) && *e == failure,
                None => error is None,
            },
    {
        let rounds = self.rounds.len();
        if rounds == 0 {
            return None;
        }
        let last = &self.rounds[rounds - 1];
        let discarded = last.discarded.len();
        if discarded == 0 {
            return None;
        }
        Some(&last.discarded[discarded - 1].error)
    }

    /// How many streams were opened in total.
    pub fn attempts(&self) -> (attempts: usize)
        requires
            total_opened(self.rounds@) <= usize::MAX,
        ensures
            attempts == total_opened(self.rounds@),
    {
        count_opened(&self.rounds)
    }
}

/// The sizes of the rounds that `attempts` streams, opened `concurrency` at a time, are grouped
/// into: as many full rounds as fit, then what is left.
pub open spec fn round_sizes(attempts: nat, concurrency: nat) -> Seq<nat>
    decreases attempts,
{
    if attempts == 0 || concurrency == 0 {
        Seq::empty()
    } else {
        let size = if concurrency <= attempts {
            concurrency
        } else {
            attempts
        };
        seq![size] + round_sizes((attempts - size) as nat, concurrency)
    }
}

/// The sum of a sequence of counts.
pub open spec fn sum(counts: Seq<nat>) -> nat
    decreases counts.len(),
{
    if counts.len() == 0 {
        0
    } else {
        counts[0] + sum(counts.drop_first())
    }
}

/// Whether every round went unanswered having thrown at least one stream away, and so opened
/// exactly the streams it threw away.
pub open spec fn all_failed(rounds: Seq<Round>) -> bool {
    forall|i: int|
        0 <= i < rounds.len() ==> !(#[trigger] rounds[i]).answered && rounds[i].discarded@.len() > 0
}

/// How many streams each of `rounds` opened, in order.
pub open spec fn opened_counts(rounds: Seq<Round>) -> Seq<nat> {
    rounds.map_values(|round: Round| round.opened_count())
}

/// The round in flight, as a sequence of its size, or nothing when none is.
pub open spec fn in_flight_sizes(in_flight: nat) -> Seq<nat> {
    if in_flight > 0 {
        seq![in_flight]
    } else {
        Seq::empty()
    }
}

/// Running one round: open every stream of it first, then probe the ones that opened (or, without
/// a probe, announce the one stream), keeping the first to answer.
///
/// The opens all run before any probe does, deliberately: an open is not cancel safe, and
/// cancelling one mid-flight leaves a stream registered with no owner. Probes are cancelled freely
/// once one stream has answered, because by then the streams exist and dropping them deregisters
/// them. Every stream that fails to open, and every one that fails its probe, is thrown away.
pub struct RoundRun {
    size: u32,
    probe: bool,
    to_open: u32,
    awaiting: u32,
    round: Round,
}

/// What to do next in a round.
pub enum RoundStep {
    /// Open one more stream and hand back whether it opened.
    Open(RoundRun),
    /// Probe the `streams` opened streams still waiting, and hand back each result as it comes.
    Probe { streams: u32, run: RoundRun },
    /// Send the one opened stream its header without waiting for an echo, and hand back whether
    /// that worked.
    Announce(RoundRun),
    /// The round is over: one stream answered, or every stream was thrown away.
    Finished { answered: bool, round: Round },
}

impl RoundRun {
    #[verifier::type_invariant]
    closed spec fn consistent(self) -> bool {
        &&& self.size > 0
        &&& self.probe || self.size == 1
        &&& !self.round.answered
        &&& self.round.discarded@.len() + self.to_open + self.awaiting == self.size
    }

    /// How many streams the round opens.
    pub closed spec fn size(self) -> nat {
        self.size as nat
    }

    /// Whether the round's streams are probed, rather than announced.
    pub closed spec fn probing(self) -> bool {
        self.probe
    }

    /// How many streams are still to be opened.
    pub closed spec fn to_open(self) -> nat {
        self.to_open as nat
    }

    /// How many opened streams are still waiting for their answer.
    pub closed spec fn awaiting(self) -> nat {
        self.awaiting as nat
    }

    /// What the round has recorded so far.
    pub closed spec fn round(self) -> Round {
        self.round
    }

    /// Start a round of `size` streams, probed or, as a single stream, announced.
    pub fn start(size: u32, probe: bool) -> (run: RoundRun)
        requires
            size > 0,
            probe || size == 1,
        ensures
            run.size() == size,
            run.probing() == probe,
            run.to_open() == size,
            run.awaiting() == 0,
            run.round().discarded@.len() == 0,
            !run.round().answered,
    {
        RoundRun { size, probe, to_open: size, awaiting: 0, round: Round::new() }
    }

    /// What to do next: open what is still to be opened, then probe or announce what opened, and
    /// finish without an answer when nothing is left to wait for.
    pub fn next(self) -> (step: RoundStep)
        ensures
            self.to_open() > 0 ==> step == RoundStep::Open(self),
            self.to_open() == 0 && self.awaiting() > 0 && self.probing() ==> step == (RoundStep::Probe {
                streams: self.awaiting() as u32,
                run: self,
            }),
            self.to_open() == 0 && self.awaiting() > 0 && !self.probing() ==> step
                == RoundStep::Announce(self),
            self.to_open() == 0 && self.awaiting() == 0 ==> (step matches RoundStep::Finished {
                answered,
                round,
            } && {
                &&& !answered
                &&& round == self.round()
                &&& !round.answered
                &&& round.discarded@.len() == self.size()
            }),
    {
        proof {
            use_type_invariant(&self);
        }
        if self.to_open > 0 {
            RoundStep::Open(self)
        } else if self.awaiting > 0 {
            if self.probe {
                let streams = self.awaiting;
                RoundStep::Probe { streams, run: self }
            } else {
                RoundStep::Announce(self)
            }
        } else {
            RoundStep::Finished { answered: false, round: self.round }
        }
    }

    /// Record whether the stream just opened did: one that did now waits for its answer, one that
    /// did not is thrown away `elapsed` milliseconds into the round.
    pub fn opened(self, outcome: Result<(), String>, elapsed: u64) -> (run: RoundRun)
        requires
            self.to_open() > 0,
        ensures
            run.size() == self.size(),
            run.probing() == self.probing(),
            run.to_open() == self.to_open() - 1,
            match outcome {
                Ok(()) => {
                    &&& run.awaiting() == self.awaiting() + 1
                    &&& run.round() == self.round()
                },
                Err(message) => {
                    &&& run.awaiting() == self.awaiting()
                    &&& run.round().answered == self.round().answered
                    &&& run.round().discarded@ == self.round().discarded@.push(
                        Discarded { elapsed, error: DialError::Open(message) },
                    )
                },
            },
    {
        proof {
            use_type_invariant(&self);
        }
        let RoundRun { size, probe, to_open, awaiting, mut round } = self;
        match outcome {
            Ok(()) => RoundRun { size, probe, to_open: to_open - 1, awaiting: awaiting + 1, round },
            Err(message) => {
                round.discard(elapsed, DialError::Open(message));
                RoundRun { size, probe, to_open: to_open - 1, awaiting, round }
            },
        }
    }

    /// Record the answer of one opened stream, `elapsed` milliseconds into the round. The first
    /// stream to answer ends the round; one that does not is thrown away, and the round ends
    /// without an answer once none is left waiting.
    pub fn answered(self, outcome: Result<(), String>, elapsed: u64) -> (step: RoundStep)
        requires
            self.to_open() == 0,
            self.awaiting() > 0,
        ensures
            step matches RoundStep::Finished { answered, round } ==> {
                &&& answered == round.answered
                &&& round.opened_count() <= self.size()
                &&& !answered ==> round.discarded@.len() == self.size()
            },
            match outcome {
                Ok(()) => step matches RoundStep::Finished { answered, round } && {
                    &&& answered
                    &&& round.discarded@ == self.round().discarded@
                },
                Err(message) => {
                    let discarded = self.round().discarded@.push(
                        Discarded { elapsed, error: DialError::Probe(message) },
                    );
                    if self.awaiting() > 1 {
                        step matches RoundStep::Probe { streams, run } && {
                            &&& streams == self.awaiting() - 1
                            &&& run.awaiting() == self.awaiting() - 1
                            &&& run.to_open() == 0
                            &&& run.size() == self.size()
                            &&& run.probing() == self.probing()
                            &&& run.round().discarded@ == discarded
                        }
                    } else {
                        step matches RoundStep::Finished { answered, round } && {
                            &&& !answered
                            &&& round.discarded@ == discarded
                        }
                    }
                },
            },
    {
        proof {
            use_type_invariant(&self);
        }
        let RoundRun { size, probe, to_open, awaiting, mut round } = self;
        match outcome {
            Ok(()) => {
                round.answer();
                RoundStep::Finished { answered: true, round }
            },
            Err(message) => {
                round.discard(elapsed, DialError::Probe(message));
                let waiting = awaiting - 1;
                if waiting > 0 {
                    RoundStep::Probe {
                        streams: waiting,
                        run: RoundRun { size, probe, to_open, awaiting: waiting, round },
                    }
                } else {
                    RoundStep::Finished { answered: false, round }
                }
            },
        }
    }
}

/// Deciding how many streams to open next, and when to stop.
///
/// Holds how many attempts are left and every round run so far. What the rounds opened, what is
/// left, and the round in flight always add up to the attempts allowed, and every round recorded
/// so far went unanswered, so giving up spends every attempt.
pub struct Dialler {
    attempts: u32,
    concurrency: u32,
    remaining: u32,
    in_flight: u32,
    rounds: Vec<Round>,
}

/// What to do next.
pub enum Plan {
    /// Run a round of this many streams and hand back what became of it.
    Open { size: u32, dialler: Dialler },
    /// Every attempt has been spent.
    GiveUp(GaveUp),
}

impl Dialler {
    #[verifier::type_invariant]
    closed spec fn within_budget(self) -> bool {
        &&& self.concurrency > 0
        &&& self.attempts > 0
        &&& total_opened(self.rounds@) + self.remaining + self.in_flight == self.attempts
        &&& all_failed(self.rounds@)
        &&& opened_counts(self.rounds@) + in_flight_sizes(self.in_flight as nat) + round_sizes(
            self.remaining as nat,
            self.concurrency as nat,
        ) == round_sizes(self.attempts as nat, self.concurrency as nat)
    }

    /// How many streams may be opened in total.
    pub closed spec fn attempts(self) -> nat {
        self.attempts as nat
    }

    /// How many streams are opened at once.
    pub closed spec fn concurrency(self) -> nat {
        self.concurrency as nat
    }

    /// How many attempts have not been handed out yet.
    pub closed spec fn remaining(self) -> nat {
        self.remaining as nat
    }

    /// How many streams the round in flight opens.
    pub closed spec fn in_flight(self) -> nat {
        self.in_flight as nat
    }

    /// Every round run so far, in the order run.
    pub closed spec fn rounds(self) -> Seq<Round> {
        self.rounds@
    }

    /// Start dialling with `settings`: with a probe, its attempts opened its concurrency at a time;
    /// without one, a single stream.
    pub fn start(settings: &DialSettings) -> (dialler: Dialler)
        requires
            settings.attempts() > 0,
            settings.concurrency() > 0,
        ensures
            dialler.attempts() == settings.attempts(),
            dialler.concurrency() == settings.concurrency(),
            dialler.remaining() == settings.attempts(),
            settings.probe matches Some(probe) ==> dialler.attempts() == probe.attempts
                && dialler.concurrency() == probe.concurrency && dialler.remaining()
                == probe.attempts,
            settings.probe is None ==> dialler.attempts() == 1 && dialler.concurrency() == 1,
            dialler.in_flight() == 0,
            dialler.rounds() == Seq::<Round>::empty(),
    {
        let (attempts, concurrency) = match settings.probe {
            Some(probe) => (probe.attempts, probe.concurrency),
            None => (1, 1),
        };
        let rounds: Vec<Round> = Vec::new();
        proof {
            let sizes = round_sizes(attempts as nat, concurrency as nat);
            assert(opened_counts(rounds@) + in_flight_sizes(0) + sizes =~= sizes);
        }
        Dialler { attempts, concurrency, remaining: attempts, in_flight: 0, rounds }
    }

    /// The next round to run: as many streams as are opened at once, or as many as are left if
    /// that is fewer; or, with every attempt spent, giving up with every round run.
    pub fn next(self) -> (plan: Plan)
        requires
            self.in_flight() == 0,
        ensures
            self.remaining() > 0 ==> (plan matches Plan::Open { size, dialler } && {
                &&& size == round_sizes(self.remaining(), self.concurrency())[0]
                &&& size == if self.concurrency() <= self.remaining() {
                    self.concurrency()
                } else {
                    self.remaining()
                }
                &&& 0 < size <= self.concurrency()
                &&& dialler.remaining() == self.remaining() - size
                &&& dialler.in_flight() == size
                &&& dialler.attempts() == self.attempts()
                &&& dialler.concurrency() == self.concurrency()
                &&& dialler.rounds() == self.rounds()
            }),
            self.remaining() == 0 ==> (plan matches Plan::GiveUp(gave_up) && {
                &&& gave_up.rounds@ == self.rounds()
                &&& total_opened(gave_up.rounds@) == self.attempts()
                &&& opened_counts(gave_up.rounds@) == round_sizes(
                    self.attempts(),
                    self.concurrency(),
                )
                &&& all_failed(gave_up.rounds@)
                &&& last_failure(gave_up.rounds@) is Some
            }),
    {
        proof {
            use_type_invariant(&self);
        }
        if self.remaining > 0 {
            let size = if self.concurrency <= self.remaining {
                self.concurrency
            } else {
                self.remaining
            };
            proof {
                lemma_rounds_follow_on(self.remaining as nat, self.concurrency as nat);
                let sizes = round_sizes(self.remaining as nat, self.concurrency as nat);
                let rest = round_sizes((self.remaining - size) as nat, self.concurrency as nat);
                assert(sizes =~= seq![size as nat] + rest);
                assert(opened_counts(self.rounds@) + in_flight_sizes(size as nat) + rest
                    =~= opened_counts(self.rounds@) + in_flight_sizes(0) + sizes);
            }
            let dialler = Dialler {
                attempts: self.attempts,
                concurrency: self.concurrency,
                remaining: self.remaining - size,
                in_flight: size,
                rounds: self.rounds,
            };
            Plan::Open { size, dialler }
        } else {
            proof {
                assert(self.rounds@.len() > 0);
                assert(!self.rounds@[self.rounds@.len() - 1].answered);
                assert(round_sizes(0, self.concurrency as nat) =~= Seq::<nat>::empty());
                assert(opened_counts(self.rounds@) =~= opened_counts(self.rounds@) + in_flight_sizes(
                    0,
                ) + round_sizes(0, self.concurrency as nat));
            }
            Plan::GiveUp(GaveUp { rounds: self.rounds })
        }
    }

    /// Record what became of the round in flight. A stream that answered ends the dialling with
    /// it; otherwise the dialling goes on, with the round counted.
    pub fn record<S>(self, answered: Option<(S, u64)>, round: Round) -> (result: Result<
        Dialled<S>,
        Dialler,
    >)
        requires
            self.in_flight() > 0,
            round.answered == answered is Some,
            round.opened_count() <= self.in_flight(),
            answered is None ==> round.opened_count() == self.in_flight(),
        ensures
            match answered {
                Some((stream, elapsed)) => result matches Ok(dialled) && {
                    &&& dialled.stream == stream
                    &&& dialled.elapsed == elapsed
                    &&& dialled.rounds@ == self.rounds().push(round)
                    &&& dialled.rounds@.last().answered
                    &&& all_failed(dialled.rounds@.drop_last())
                    &&& total_opened(dialled.rounds@) <= self.attempts()
                    &&& dialled.rounds@.len() <= round_sizes(
                        self.attempts(),
                        self.concurrency(),
                    ).len()
                    &&& opened_counts(dialled.rounds@.drop_last()) == round_sizes(
                        self.attempts(),
                        self.concurrency(),
                    ).take(dialled.rounds@.len() - 1)
                    &&& dialled.rounds@.last().opened_count() <= round_sizes(
                        self.attempts(),
                        self.concurrency(),
                    )[dialled.rounds@.len() - 1]
                },
                None => result matches Err(dialler) && {
                    &&& dialler.rounds() == self.rounds().push(round)
                    &&& dialler.remaining() == self.remaining()
                    &&& dialler.in_flight() == 0
                    &&& dialler.attempts() == self.attempts()
                    &&& dialler.concurrency() == self.concurrency()
                },
            },
    {
        proof {
            use_type_invariant(&self);
            lemma_total_opened_push(self.rounds@, round);
            assert(self.rounds@.push(round).drop_last() =~= self.rounds@);
            let sizes = round_sizes(self.attempts as nat, self.concurrency as nat);
            let rest = round_sizes(self.remaining as nat, self.concurrency as nat);
            let before = opened_counts(self.rounds@);
            assert(in_flight_sizes(self.in_flight as nat) =~= seq![self.in_flight as nat]);
            assert(sizes == before + seq![self.in_flight as nat] + rest);
            assert(sizes.take(before.len() as int) =~= before);
            assert(sizes[before.len() as int] == self.in_flight);
            assert(opened_counts(self.rounds@.push(round)) =~= before.push(round.opened_count()));
        }
        let mut rounds = self.rounds;
        rounds.push(round);
        match answered {
            Some((stream, elapsed)) => Ok(Dialled { stream, elapsed, rounds }),
            None => {
                proof {
                    let rest = round_sizes(self.remaining as nat, self.concurrency as nat);
                    assert(opened_counts(rounds@) + in_flight_sizes(0) + rest
                        =~= opened_counts(self.rounds@) + in_flight_sizes(self.in_flight as nat)
                        + rest);
                    assert forall|i: int| 0 <= i < rounds@.len() implies !(#[trigger] rounds@[i]).answered
                        && rounds@[i].discarded@.len() > 0 by {
                        if i < rounds@.len() - 1 {
                            assert(rounds@[i] == self.rounds@[i]);
                        }
                    }
                }
                Err(
                    Dialler {
                        attempts: self.attempts,
                        concurrency: self.concurrency,
                        remaining: self.remaining,
                        in_flight: 0,
                        rounds,
                    },
                )
            },
        }
    }
}

/// The rounds a dialler hands out one after another are the round sizes of its attempts: each
/// round is the first of what is left, and what is left after it has the rest.
pub proof fn lemma_rounds_follow_on(remaining: nat, concurrency: nat)
    requires
        remaining > 0,
        concurrency > 0,
    ensures
        round_sizes(remaining, concurrency).len() > 0,
        round_sizes((remaining - round_sizes(remaining, concurrency)[0]) as nat, concurrency)
            == round_sizes(remaining, concurrency).drop_first(),
{
    let sizes = round_sizes(remaining, concurrency);
    let size = if concurrency <= remaining {
        concurrency
    } else {
        remaining
    };
    assert(sizes == seq![size] + round_sizes((remaining - size) as nat, concurrency));
    assert(sizes.drop_first() =~= round_sizes((remaining - size) as nat, concurrency));
}

/// Every attempt allowed is spent, and no more: the round sizes add up to the attempts.
pub proof fn lemma_rounds_spend_every_attempt(attempts: nat, concurrency: nat)
    requires
        concurrency > 0,
    ensures
        sum(round_sizes(attempts, concurrency)) == attempts,
    decreases attempts,
{
    if attempts > 0 {
        let size = if concurrency <= attempts {
            concurrency
        } else {
            attempts
        };
        let rest = round_sizes((attempts - size) as nat, concurrency);
        lemma_rounds_spend_every_attempt((attempts - size) as nat, concurrency);
        assert((seq![size] + rest).drop_first() =~= rest);
    }
}

/// Adding a count at the end adds it to the sum.
proof fn lemma_sum_push(counts: Seq<nat>, count: nat)
    ensures
        sum(counts.push(count)) == sum(counts) + count,
    decreases counts.len(),
{
    if counts.len() > 0 {
        assert(counts.push(count).drop_first() =~= counts.drop_first().push(count));
        assert(counts.push(count)[0] == counts[0]);
        lemma_sum_push(counts.drop_first(), count);
    } else {
        assert(counts.push(count).drop_first() =~= Seq::<nat>::empty());
        assert(sum(Seq::<nat>::empty()) == 0);
        assert(counts.push(count)[0] == count);
    }
}

/// The streams the rounds opened, all told, are the sum of what each round opened.
proof fn lemma_total_opened_is_the_sum(rounds: Seq<Round>)
    ensures
        total_opened(rounds) == sum(opened_counts(rounds)),
    decreases rounds.len(),
{
    if rounds.len() > 0 {
        let front = rounds.drop_last();
        lemma_total_opened_is_the_sum(front);
        assert(opened_counts(rounds) =~= opened_counts(front).push(rounds.last().opened_count()));
        lemma_sum_push(opened_counts(front), rounds.last().opened_count());
    } else {
        assert(opened_counts(rounds) =~= Seq::<nat>::empty());
    }
}

/// With a probe, the streams a dial may open in total are exactly the probe's attempts, opened the
/// probe's concurrency at a time: rounds sized as the settings group the attempts, which is how a
/// dial that gives up has run them, opened `probe.attempts` streams, no more and no fewer.
pub proof fn lemma_a_probe_spends_exactly_its_attempts(settings: DialSettings, rounds: Seq<Round>)
    requires
        settings.probe is Some,
        settings.probe.unwrap().concurrency > 0,
        opened_counts(rounds) == round_sizes(
            settings.attempts() as nat,
            settings.concurrency() as nat,
        ),
    ensures
        settings.attempts() == settings.probe.unwrap().attempts,
        settings.concurrency() == settings.probe.unwrap().concurrency,
        total_opened(rounds) == settings.probe.unwrap().attempts,
{
    let probe = settings.probe.unwrap();
    lemma_rounds_spend_every_attempt(probe.attempts as nat, probe.concurrency as nat);
    lemma_total_opened_is_the_sum(rounds);
}

/// No round opens more streams than are opened at once, every round opens at least one, and every
/// round but the last is full.
pub proof fn lemma_rounds_are_full_but_the_last(attempts: nat, concurrency: nat)
    requires
        concurrency > 0,
    ensures
        forall|i: int|
            0 <= i < round_sizes(attempts, concurrency).len() ==> 0 < #[trigger] round_sizes(
                attempts,
                concurrency,
            )[i] <= concurrency,
        forall|i: int|
            0 <= i < round_sizes(attempts, concurrency).len() - 1 ==> #[trigger] round_sizes(
                attempts,
                concurrency,
            )[i] == concurrency,
    decreases attempts,
{
    if attempts > 0 {
        let size = if concurrency <= attempts {
            concurrency
        } else {
            attempts
        };
        let rest = round_sizes((attempts - size) as nat, concurrency);
        lemma_rounds_are_full_but_the_last((attempts - size) as nat, concurrency);
        let sizes = round_sizes(attempts, concurrency);
        assert(sizes == seq![size] + rest);
        assert forall|i: int| 0 <= i < sizes.len() implies 0 < #[trigger] sizes[i] <= concurrency by {
            if i > 0 {
                assert(sizes[i] == rest[i - 1]);
            }
        }
        assert forall|i: int| 0 <= i < sizes.len() - 1 implies #[trigger] sizes[i] == concurrency by {
            if i > 0 {
                assert(sizes[i] == rest[i - 1]);
            } else {
                assert(rest.len() > 0);
            }
        }
    }
}

/// As many rounds are run as it takes to spend the attempts `concurrency` at a time: the fewest
/// that hold them all.
pub proof fn lemma_round_count(attempts: nat, concurrency: nat)
    requires
        concurrency > 0,
    ensures
        round_sizes(attempts, concurrency).len() * concurrency >= attempts,
        attempts > 0 ==> (round_sizes(attempts, concurrency).len() - 1) * concurrency < attempts,
    decreases attempts,
{
    if attempts > 0 {
        let size = if concurrency <= attempts {
            concurrency
        } else {
            attempts
        };
        let left = (attempts - size) as nat;
        lemma_round_count(left, concurrency);
        let n = round_sizes(left, concurrency).len();
        assert(round_sizes(attempts, concurrency).len() == n + 1);
        let count = round_sizes(attempts, concurrency).len();
        assert(count - 1 == n);
        assert((count - 1) * concurrency == n * concurrency);
        assert((n + 1) * concurrency == n * concurrency + concurrency) by (nonlinear_arith);
        if left == 0 {
            assert(n == 0);
            assert(0 * concurrency == 0) by (nonlinear_arith);
        } else {
            assert(n >= 1);
            assert(n * concurrency == (n - 1) * concurrency + concurrency) by (nonlinear_arith)
                requires
                    n >= 1,
            ;
        }
    }
}

/// Without a probe, exactly one stream is opened, in a round of its own.
pub proof fn lemma_without_a_probe_one_stream(settings: DialSettings)
    requires
        settings.probe is None,
    ensures
        round_sizes(settings.attempts() as nat, settings.concurrency() as nat) == seq![1nat],
{
    assert(round_sizes(0, 1) =~= Seq::<nat>::empty());
    assert(round_sizes(1, 1) =~= seq![1nat]);
}

/// The round numbered `i`, counting from zero, opens as many streams as are opened at once, or
/// what is left of the attempts after the rounds before it if that is fewer.
pub proof fn lemma_round_size_at(attempts: nat, concurrency: nat, i: int)
    requires
        concurrency > 0,
        0 <= i < round_sizes(attempts, concurrency).len(),
    ensures
        round_sizes(attempts, concurrency)[i] == if concurrency <= attempts - i * concurrency {
            concurrency as int
        } else {
            attempts - i * concurrency
        },
    decreases attempts,
{
    let size = if concurrency <= attempts {
        concurrency
    } else {
        attempts
    };
    let left = (attempts - size) as nat;
    let sizes = round_sizes(attempts, concurrency);
    assert(sizes == seq![size] + round_sizes(left, concurrency));
    if i > 0 {
        assert(sizes[i] == round_sizes(left, concurrency)[i - 1]);
        lemma_round_size_at(left, concurrency, i - 1);
        if concurrency > attempts {
            assert(left == 0);
            assert(round_sizes(0, concurrency).len() == 0);
        }
        assert(size == concurrency);
        assert((i - 1) * concurrency + concurrency == i * concurrency) by (nonlinear_arith);
    } else {
        assert(i * concurrency == 0) by (nonlinear_arith)
            requires
                i == 0,
        ;
    }
}

/// A dial that gives up has run every round of its attempts, each of them thrown away whole: the
/// round numbered `i` threw away as many streams as are opened at once, or what was left of the
/// attempts if that was fewer, and there are as many rounds as it takes to hold the attempts.
pub proof fn lemma_giving_up_ran_every_round(rounds: Seq<Round>, attempts: nat, concurrency: nat)
    requires
        concurrency > 0,
        all_failed(rounds),
        opened_counts(rounds) == round_sizes(attempts, concurrency),
    ensures
        rounds.len() == round_sizes(attempts, concurrency).len(),
        rounds.len() * concurrency >= attempts,
        attempts > 0 ==> (rounds.len() - 1) * concurrency < attempts,
        forall|i: int|
            0 <= i < rounds.len() ==> (#[trigger] rounds[i]).discarded@.len() == if concurrency
                <= attempts - i * concurrency {
                concurrency as int
            } else {
                attempts - i * concurrency
            },
{
    lemma_round_count(attempts, concurrency);
    assert(rounds.len() == opened_counts(rounds).len());
    assert forall|i: int| 0 <= i < rounds.len() implies (#[trigger] rounds[i]).discarded@.len()
        == if concurrency <= attempts - i * concurrency {
        concurrency as int
    } else {
        attempts - i * concurrency
    } by {
        assert(opened_counts(rounds)[i] == rounds[i].opened_count());
        lemma_round_size_at(attempts, concurrency, i);
    }
}

/// Without a probe a dial is one round of one stream: giving up, it opened that one stream and
/// threw it away; succeeding, its one round answered with nothing thrown away.
pub proof fn lemma_a_dial_without_a_probe(settings: DialSettings, rounds: Seq<Round>)
    requires
        settings.probe is None,
        rounds.len() >= 1,
        rounds.len() <= round_sizes(settings.attempts() as nat, settings.concurrency() as nat).len(),
        rounds.last().opened_count() <= round_sizes(
            settings.attempts() as nat,
            settings.concurrency() as nat,
        )[rounds.len() - 1],
    ensures
        rounds.len() == 1,
        rounds[0].opened_count() <= 1,
        rounds[0].answered ==> rounds[0].discarded@.len() == 0,
{
    lemma_without_a_probe_one_stream(settings);
}

} // verus!
