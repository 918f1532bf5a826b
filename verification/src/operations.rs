//! What the running halves keep count of beyond a single connection: a dialling client that has
//! stopped opening streams, the streams the serving half holds at once, and the pair of rates the
//! dialling half reports.

use vstd::prelude::*;

use crate::dial::Round;

verus! {

/// Consecutive dials in which the local client refused every open before the dialling half gives
/// up on it and exits, so that whatever supervises it restarts it.
pub const REFUSED_DIALS_LIMIT: u32 = 5;

/// Whether `rounds` went unanswered with every open refused outright: the dial never got as far
/// as a stream, which is the signature of a local client that has stopped working rather than of
/// a transport that loses streams.
pub open spec fn opened_nothing(rounds: Seq<Round>) -> bool {
    &&& rounds.len() > 0
    &&& forall|i: int| 0 <= i < rounds.len() ==> !(#[trigger] rounds[i]).answered
    &&& forall|i: int, j: int|
        0 <= i < rounds.len() && 0 <= j < rounds[i].discarded@.len() ==> (
        #[trigger] rounds[i].discarded@[j]).error is Open
}

/// Whether a dial that went through `rounds` opened nothing at all.
pub fn every_open_refused(rounds: &Vec<Round>) -> (refused: bool)
    ensures
        refused == opened_nothing(rounds@),
        // A dial that ran no round, or got a stream to answer, did open something.
        rounds@.len() == 0 ==> !refused,
        (exists|i: int| 0 <= i < rounds@.len() && (#[trigger] rounds@[i]).answered) ==> !refused,
        // A stream that opened and went unanswered in any round, the first included, means the
        // client is talking: the dial did not open nothing.
        (exists|i: int, j: int|
            0 <= i < rounds@.len() && 0 <= j < rounds@[i].discarded@.len() && (
            #[trigger] rounds@[i].discarded@[j]).error is Probe) ==> !refused,
        // Rounds that all went unanswered with every open refused are a dial that opened nothing.
        rounds@.len() > 0 && (forall|i: int| 0 <= i < rounds@.len() ==> !(
        #[trigger] rounds@[i]).answered) && (forall|i: int, j: int|
            0 <= i < rounds@.len() && 0 <= j < rounds@[i].discarded@.len() ==> (
            #[trigger] rounds@[i].discarded@[j]).error is Open) ==> refused,
{
    if rounds.len() == 0 {
        return false;
    }
    let mut i: usize = 0;
    while i < rounds.len()
        invariant
            0 <= i <= rounds@.len(),
            rounds@.len() > 0,
            forall|k: int| 0 <= k < i ==> !(#[trigger] rounds@[k]).answered,
            forall|k: int, j: int|
                0 <= k < i && 0 <= j < rounds@[k].discarded@.len() ==> (
                #[trigger] rounds@[k].discarded@[j]).error is Open,
        decreases rounds@.len() - i,
    {
        let round = &rounds[i];
        if round.answered {
            return false;
        }
        let mut j: usize = 0;
        while j < round.discarded.len()
            invariant
                0 <= i < rounds@.len(),
                *round == rounds@[i as int],
                0 <= j <= round.discarded@.len(),
                forall|m: int| 0 <= m < j ==> (#[trigger] round.discarded@[m]).error is Open,
            decreases round.discarded@.len() - j,
        {
            match &round.discarded[j].error {
                crate::dial::DialError::Open(_) => {},
                crate::dial::DialError::Probe(_) => {
                    return false;
                },
            }
            j = j + 1;
        }
        i = i + 1;
    }
    true
}

/// A dial with any stream that opened and went unanswered did not open nothing: whichever round
/// threw it away, the first included, the client was talking and the dial is no refusal.
pub proof fn lemma_an_unanswered_stream_is_no_refusal(rounds: Seq<Round>, i: int, j: int)
    requires
        0 <= i < rounds.len(),
        0 <= j < rounds[i].discarded@.len(),
        rounds[i].discarded@[j].error is Probe,
    ensures
        !opened_nothing(rounds),
{
    assert(!(rounds[i].discarded@[j].error is Open));
}

/// How many dials in a row opened nothing.
///
/// Only refusals across a whole dial count: a dial whose probes all went unanswered opened
/// streams, which means the client is talking and the transport is losing. Any dial that opens at
/// least one stream resets the streak.
#[derive(Debug, Clone, Copy, PartialEq, Eq, Structural)]
pub struct RefusalStreak {
    pub count: u32,
}

impl RefusalStreak {
    /// No dial has been refused yet.
    pub fn new() -> (streak: RefusalStreak)
        ensures
            streak.count == 0,
    {
        RefusalStreak { count: 0 }
    }

    /// Count one more dial, which did or did not open nothing, and say whether the streak has
    /// reached the point of giving up on the client.
    pub fn observe(&mut self, opened_nothing: bool) -> (give_up: bool)
        ensures
            final(self).count == streak_step(old(self).count, opened_nothing),
            !opened_nothing ==> final(self).count == 0 && !give_up,
            opened_nothing && old(self).count < u32::MAX ==> final(self).count == old(self).count
                + 1,
            opened_nothing && old(self).count == u32::MAX ==> final(self).count == u32::MAX,
            give_up <==> final(self).count >= REFUSED_DIALS_LIMIT,
    {
        self.count = if opened_nothing {
            self.count.saturating_add(1)
        } else {
            0
        };
        self.count >= REFUSED_DIALS_LIMIT
    }
}

/// How many streams the serving half holds at once, against how many it may.
///
/// This is the only abuse control it has: a stream arrives with nothing that identifies a sender,
/// so there is no one to account against. A stream that cannot be admitted is dropped, not
/// queued, because a queued stream would age toward the probe deadline its dialler is already
/// counting down.
pub struct Capacity {
    held: u32,
    limit: u32,
}

impl Capacity {
    #[verifier::type_invariant]
    closed spec fn within_limit(self) -> bool {
        self.held <= self.limit
    }

    /// How many streams are held.
    pub closed spec fn held(self) -> nat {
        self.held as nat
    }

    /// How many streams may be held at once.
    pub closed spec fn limit(self) -> nat {
        self.limit as nat
    }

    /// Room for `limit` streams, none held.
    pub fn new(limit: u32) -> (capacity: Capacity)
        ensures
            capacity.held() == 0,
            capacity.limit() == limit,
    {
        Capacity { held: 0, limit }
    }

    /// Admit one more stream if there is room: whether it was admitted.
    pub fn take_permit(&mut self) -> (admitted: bool)
        ensures
            admitted <==> old(self).held() < old(self).limit(),
            final(self).held() == old(self).held() + if admitted {
                1nat
            } else {
                0nat
            },
            final(self).limit() == old(self).limit(),
            final(self).held() <= final(self).limit(),
    {
        proof {
            use_type_invariant(&*self);
        }
        if self.held < self.limit {
            self.held = self.held + 1;
            true
        } else {
            false
        }
    }

    /// Let go of a stream that was admitted, by whichever deadline ended it.
    pub fn release(&mut self)
        requires
            old(self).held() > 0,
        ensures
            final(self).held() == old(self).held() - 1,
            final(self).limit() == old(self).limit(),
    {
        proof {
            use_type_invariant(&*self);
        }
        self.held = self.held - 1;
    }

    /// How many streams are held.
    pub fn holding(&self) -> (held: u32)
        ensures
            held == self.held(),
    {
        self.held
    }
}

/// The dialling half's counts, from the same dials: connections carried, connections whose first
/// round came up empty, and connections left with no stream to hand the wallet. The first rate
/// is the transport and drifts on its own; the second is what the proxy exists to keep near zero.
#[derive(Debug, Clone, Copy, PartialEq, Eq, Structural)]
pub struct DialCounts {
    pub connections: u64,
    pub first_round_failures: u64,
    pub unestablished: u64,
}

impl DialCounts {
    /// Nothing counted yet.
    pub fn new() -> (counts: DialCounts)
        ensures
            counts.connections == 0,
            counts.first_round_failures == 0,
            counts.unestablished == 0,
    {
        DialCounts { connections: 0, first_round_failures: 0, unestablished: 0 }
    }

    /// Count one dial that went through `rounds`, and did or did not end with a stream.
    pub fn observe(&mut self, rounds: &Vec<Round>, established: bool)
        requires
            old(self).connections < u64::MAX,
            old(self).first_round_failures < u64::MAX,
            old(self).unestablished < u64::MAX,
        ensures
            final(self).connections == old(self).connections + 1,
            final(self).first_round_failures == old(self).first_round_failures + if rounds@.len()
                > 0 && !rounds@[0].answered {
                1int
            } else {
                0int
            },
            final(self).unestablished == old(self).unestablished + if established {
                0int
            } else {
                1int
            },
    {
        self.connections = self.connections + 1;
        if rounds.len() > 0 && !rounds[0].answered {
            self.first_round_failures = self.first_round_failures + 1;
        }
        if !established {
            self.unestablished = self.unestablished + 1;
        }
    }
}

/// The streak after one more dial that did or did not open nothing.
pub open spec fn streak_step(count: u32, opened_nothing: bool) -> u32 {
    if opened_nothing {
        if count < u32::MAX {
            (count + 1) as u32
        } else {
            u32::MAX
        }
    } else {
        0
    }
}

/// The streak after each of `dials` in turn, from `count`.
pub open spec fn streak_after(count: u32, dials: Seq<bool>) -> u32
    decreases dials.len(),
{
    if dials.len() == 0 {
        count
    } else {
        streak_step(streak_after(count, dials.drop_last()), dials.last())
    }
}

/// How many of the last of `dials` opened nothing, back to the last that opened a stream.
pub open spec fn trailing_refusals(dials: Seq<bool>) -> nat
    decreases dials.len(),
{
    if dials.len() == 0 || !dials.last() {
        0
    } else {
        trailing_refusals(dials.drop_last()) + 1
    }
}

/// From a fresh streak, the count after any sequence of dials is how many of the last ones in a
/// row opened nothing: a client is given up on exactly when the last five dials all opened nothing,
/// and any dial that opened a stream starts the count again.
pub proof fn lemma_streak_counts_the_last_refusals(dials: Seq<bool>)
    ensures
        streak_after(0, dials) == if trailing_refusals(dials) < u32::MAX {
            trailing_refusals(dials)
        } else {
            u32::MAX as nat
        },
        streak_after(0, dials) >= REFUSED_DIALS_LIMIT <==> trailing_refusals(dials)
            >= REFUSED_DIALS_LIMIT,
    decreases dials.len(),
{
    if dials.len() > 0 {
        lemma_streak_counts_the_last_refusals(dials.drop_last());
    }
}

/// What the first read of an introduced stream, waited for up to the idle deadline, says of it:
/// how many bytes of request it carried, or nothing when it timed out (`None`), ended, or failed.
/// The upstream is touched only for a stream that carried a request, so one that was only probed,
/// or one its dialler discarded, never becomes a connection to the node.
pub fn first_request(read: Option<Result<usize, std::io::Error>>) -> (request: Option<usize>)
    ensures
        request == match read {
            Some(Ok(bytes)) => if bytes > 0 {
                Some(bytes)
            } else {
                None
            },
            _ => None,
        },
{
    match read {
        Some(Ok(bytes)) => if bytes > 0 {
            Some(bytes)
        } else {
            None
        },
        _ => None,
    }
}

} // verus!
