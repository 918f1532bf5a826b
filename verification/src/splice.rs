//! The decisions behind copying bytes between a local connection and a mixnet stream, under a
//! deadline.
//!
//! The transport offers no way to signal a close: dropping a stream tells the far side nothing, so
//! an end that walks away leaves the other holding a conversation that will never continue. Neither
//! side can wait for an error that is never coming, which makes the timers here the only thing
//! ending such a stream.
//!
//! Two of them, because a connection can be dead in two different ways:
//!
//! - **stalled**: the far side was written to and has answered nothing since. The clock runs from
//!   the oldest unanswered write, so a wallet that keeps talking into a dead stream cannot postpone
//!   the discovery.
//! - **idle**: nothing has moved in either direction. An idle connection is legitimate, so this is a
//!   reaper rather than a failure detector.
//!
//! Every time here is a count of milliseconds since the splice began, and every deadline a count of
//! milliseconds. The copying itself, and the clock, belong to the caller, which records what moved
//! in an [`Activity`] and asks the [`Watchdog`] on every tick whether to give up.

use vstd::prelude::*;

verus! {

/// The error a failed copy ends with.
#[verifier::external_type_specification]
#[verifier::external_body]
pub struct ExIoError(std::io::Error);

/// How long a splice may go without the far side answering, and without moving at all, in
/// milliseconds.
#[derive(Debug, Clone, Copy, PartialEq, Eq, Structural)]
pub struct Watchdog {
    /// Give up when the far side was sent bytes and has answered nothing for this long, counted
    /// from the first write of the unanswered run rather than the latest one.
    pub stall: Option<u64>,
    /// Give up when nothing has moved in either direction for this long.
    pub idle: Option<u64>,
}

impl Default for Watchdog {
    fn default() -> (watchdog: Watchdog)
        ensures
            watchdog.stall is None,
            watchdog.idle is None,
    {
        Watchdog { stall: None, idle: None }
    }
}

/// How a splice ended.
#[derive(Debug)]
pub enum Ended {
    /// One side reached end of stream, which is the ordinary close.
    Closed,
    /// The far side was written to and answered nothing for this many milliseconds.
    Stalled(u64),
    /// Nothing moved in either direction for this many milliseconds.
    Idle(u64),
    /// A copy failed, so one side is gone or the transport broke.
    Failed(std::io::Error),
}

/// How many bytes moved, per direction.
#[derive(Debug, Clone, Copy, PartialEq, Eq, Structural)]
pub struct Transfer {
    pub to_remote: u64,
    pub from_remote: u64,
}

impl Default for Transfer {
    fn default() -> (transfer: Transfer)
        ensures
            transfer.to_remote == 0,
            transfer.from_remote == 0,
    {
        Transfer { to_remote: 0, from_remote: 0 }
    }
}

/// One direction's byte count and the moment it last moved, in milliseconds since the splice began.
#[derive(Debug, Clone, Copy, PartialEq, Eq, Structural)]
pub struct Direction {
    pub bytes: u64,
    pub last_at_millis: u64,
}

impl Direction {
    /// When this direction last moved, or `None` if it never has.
    pub open spec fn last_moved(self) -> Option<u64> {
        if self.bytes > 0 {
            Some(self.last_at_millis)
        } else {
            None
        }
    }

    /// A direction nothing has moved on yet.
    pub fn new() -> (direction: Direction)
        ensures
            direction.bytes == 0,
            direction.last_at_millis == 0,
            direction.last_moved() is None,
    {
        Direction { bytes: 0, last_at_millis: 0 }
    }

    /// When this direction last moved, or `None` if it never has.
    ///
    /// The byte count is what distinguishes the two, because a millisecond count cannot: bytes that
    /// move in the first millisecond are stamped zero, and reading that as "never" leaves a request
    /// sent immediately after opening, which is the ordinary case, unable to be seen as outstanding.
    pub fn moved_at(&self) -> (moved: Option<u64>)
        ensures
            moved == self.last_moved(),
    {
        if self.bytes > 0 {
            Some(self.last_at_millis)
        } else {
            None
        }
    }

    /// Record `moved` bytes having moved at `now`. The count wraps as the counter it stands for
    /// does.
    pub fn record(&mut self, moved: u64, now: u64)
        ensures
            *final(self) == recorded(*old(self), moved, now),
            final(self).last_at_millis == now,
            final(self).bytes == (old(self).bytes + moved) % 0x1_0000_0000_0000_0000,
    {
        self.last_at_millis = now;
        self.bytes = self.bytes.wrapping_add(moved);
    }
}

/// A direction after `moved` bytes were recorded as moving at `at`.
pub open spec fn recorded(direction: Direction, moved: u64, at: u64) -> Direction {
    Direction {
        bytes: ((direction.bytes + moved) % 0x1_0000_0000_0000_0000) as u64,
        last_at_millis: at,
    }
}

/// A direction after each of `records`, a count of bytes and when they moved, was recorded in
/// turn.
pub open spec fn after_records(direction: Direction, records: Seq<(u64, u64)>) -> Direction
    decreases records.len(),
{
    if records.len() == 0 {
        direction
    } else {
        recorded(after_records(direction, records.drop_last()), records.last().0, records.last().1)
    }
}

/// How many bytes `records` counted, all told.
pub open spec fn total_moved(records: Seq<(u64, u64)>) -> nat
    decreases records.len(),
{
    if records.len() == 0 {
        0
    } else {
        total_moved(records.drop_last()) + records.last().0 as nat
    }
}

/// What has moved in each direction of one splice.
#[derive(Debug, Clone, Copy, PartialEq, Eq, Structural)]
pub struct Activity {
    pub to_remote: Direction,
    pub from_remote: Direction,
}

impl Activity {
    /// A splice that has moved nothing yet.
    pub fn new() -> (activity: Activity)
        ensures
            activity.to_remote.bytes == 0,
            activity.from_remote.bytes == 0,
            activity.to_remote.last_at_millis == 0,
            activity.from_remote.last_at_millis == 0,
    {
        Activity { to_remote: Direction::new(), from_remote: Direction::new() }
    }

    /// How many bytes moved, per direction.
    pub fn transfer(&self) -> (transfer: Transfer)
        ensures
            transfer.to_remote == self.to_remote.bytes,
            transfer.from_remote == self.from_remote.bytes,
    {
        Transfer { to_remote: self.to_remote.bytes, from_remote: self.from_remote.bytes }
    }
}

impl Default for Activity {
    fn default() -> (activity: Activity)
        ensures
            activity.to_remote.bytes == 0,
            activity.from_remote.bytes == 0,
            activity.to_remote.last_at_millis == 0,
            activity.from_remote.last_at_millis == 0,
    {
        Activity::new()
    }
}

/// When the current unanswered period began, if one is running.
#[derive(Debug, Clone, Copy, PartialEq, Eq, Structural)]
pub struct StallClock {
    pub since_millis: Option<u64>,
}

impl StallClock {
    /// A clock with no unanswered period running.
    pub fn new() -> (clock: StallClock)
        ensures
            clock.since_millis is None,
    {
        StallClock { since_millis: None }
    }
}

/// `later - earlier`, or zero if `earlier` is not earlier.
pub open spec fn elapsed(now: u64, earlier: u64) -> int {
    if now >= earlier {
        now - earlier
    } else {
        0
    }
}

/// Whether the far side was written to and has said nothing since.
pub open spec fn outstanding(wrote: Option<u64>, heard: Option<u64>) -> bool {
    &&& wrote is Some
    &&& (heard is None || heard->0 < wrote->0)
}

/// When the unanswered period that a check finds began.
///
/// It starts at the first unanswered write and only answers move it: whatever came back settled
/// everything written before it. With nothing outstanding there is no period.
pub open spec fn stall_start(since: Option<u64>, wrote: Option<u64>, heard: Option<u64>) -> Option<
    u64,
> {
    if outstanding(wrote, heard) {
        let start = match since {
            Some(since) => since,
            None => wrote->0,
        };
        let answered = match heard {
            Some(heard) => heard,
            None => 0,
        };
        Some(if start >= answered { start } else { answered })
    } else {
        None
    }
}

/// The last moment anything moved in either direction, or the beginning of the splice.
pub open spec fn last_movement(wrote: Option<u64>, heard: Option<u64>) -> u64 {
    match (wrote, heard) {
        (Some(w), Some(h)) => if w >= h { w } else { h },
        (Some(w), None) => w,
        (None, Some(h)) => h,
        (None, None) => 0,
    }
}

impl Watchdog {
    /// Whether a check at `now` that finds the unanswered period starting at `start` gives up on a
    /// stall.
    pub open spec fn stalls_at(self, start: Option<u64>, now: u64) -> bool {
        &&& start is Some
        &&& self.stall is Some
        &&& elapsed(now, start->0) >= self.stall->0
    }

    /// Whether a check at `now` gives up on the connection having been idle.
    pub open spec fn idles_at(self, wrote: Option<u64>, heard: Option<u64>, now: u64) -> bool {
        &&& self.idle is Some
        &&& elapsed(now, last_movement(wrote, heard)) >= self.idle->0
    }

    /// How often the deadlines are checked, in milliseconds.
    pub open spec fn period(self) -> u64 {
        if self.stall is None && self.idle is None {
            3_600_000
        } else {
            let shortest = match (self.stall, self.idle) {
                (Some(s), Some(i)) => if s <= i { s } else { i },
                (Some(s), None) => s,
                (None, Some(i)) => i,
                (None, None) => 3_600_000,
            };
            let quarter = shortest / 4;
            if quarter < 100 {
                100
            } else if quarter > 5000 {
                5000
            } else {
                quarter
            }
        }
    }

    /// Whether a deadline has passed, checked at `now`.
    ///
    /// The stall clock keeps the start of the current unanswered period from one check to the next:
    /// writes that follow do not move it, since letting them would hand a chatty wallet the power to
    /// postpone the deadline forever. Answers do move it, because whatever came back settled
    /// everything written before it. Times stamped after `now`, which is what bytes landing while
    /// the clock is read leave behind, count as no time at all: a deadline that has not been reached
    /// must never look like one that has.
    pub fn tripped(&self, clock: &mut StallClock, activity: &Activity, now: u64) -> (reason: Option<
        Ended,
    >)
        ensures
            ({
                let wrote = activity.to_remote.last_moved();
                let heard = activity.from_remote.last_moved();
                let start = stall_start(old(clock).since_millis, wrote, heard);
                &&& final(clock).since_millis == start
                &&& if self.stalls_at(start, now) {
                    reason == Some(Ended::Stalled(self.stall->0))
                } else if self.idles_at(wrote, heard, now) {
                    reason == Some(Ended::Idle(self.idle->0))
                } else {
                    reason is None
                }
            }),
            // A request is outstanding when the far side was written to and has said nothing
            // since. The unanswered period starts at the first write of it, answers move it on,
            // and further writes do not.
            ({
                let written = activity.to_remote.bytes > 0;
                let answered = activity.from_remote.bytes > 0;
                let wrote_at = activity.to_remote.last_at_millis;
                let heard_at = activity.from_remote.last_at_millis;
                let waiting = written && (!answered || heard_at < wrote_at);
                &&& !waiting ==> final(clock).since_millis is None
                &&& waiting && old(clock).since_millis is None ==> final(clock).since_millis
                    == Some(wrote_at)
                &&& waiting && old(clock).since_millis is Some ==> final(clock).since_millis
                    == Some(
                    if answered && heard_at > old(clock).since_millis->0 {
                        heard_at
                    } else {
                        old(clock).since_millis->0
                    },
                )
                &&& (reason matches Some(Ended::Stalled(stall)) ==> waiting && self.stall == Some(
                    stall,
                ) && (stall == 0 || now >= final(clock).since_millis->0 + stall))
                &&& (waiting && self.stall is Some && final(clock).since_millis->0
                    + self.stall->0 <= now ==> reason == Some(Ended::Stalled(self.stall->0)))
            }),
            // Idleness is nothing moving either way: a direction that moved within the idle
            // deadline, or is stamped after the check, keeps the connection from idling out.
            self.idle matches Some(idle) && activity.to_remote.bytes > 0
                && activity.to_remote.last_at_millis <= now && now
                - activity.to_remote.last_at_millis < idle ==> !(reason matches Some(
                Ended::Idle(_),
            )),
            self.idle matches Some(idle) && activity.from_remote.bytes > 0
                && activity.from_remote.last_at_millis <= now && now
                - activity.from_remote.last_at_millis < idle ==> !(reason matches Some(
                Ended::Idle(_),
            )),
            self.idle matches Some(idle) && idle > 0 && ((activity.to_remote.bytes > 0
                && activity.to_remote.last_at_millis > now) || (activity.from_remote.bytes > 0
                && activity.from_remote.last_at_millis > now)) ==> !(reason matches Some(
                Ended::Idle(_),
            )),
            // Idleness is reported only once the idle deadline has passed since the beginning and
            // since every movement either way (a deadline of zero has passed at once).
            reason matches Some(Ended::Idle(idle)) ==> self.idle == Some(idle) && (idle == 0 || (
            now >= idle && (activity.to_remote.bytes > 0 ==> now
                >= activity.to_remote.last_at_millis + idle) && (activity.from_remote.bytes > 0
                ==> now >= activity.from_remote.last_at_millis + idle))),
    {
        let wrote = activity.to_remote.moved_at();
        let heard = activity.from_remote.moved_at();

        let is_outstanding = match (wrote, heard) {
            (Some(w), Some(h)) => h < w,
            (Some(_), None) => true,
            _ => false,
        };
        if is_outstanding {
            let w = match wrote {
                Some(w) => w,
                None => 0,
            };
            let start = match clock.since_millis {
                Some(since) => since,
                None => w,
            };
            let answered = match heard {
                Some(h) => h,
                None => 0,
            };
            let since = if start >= answered {
                start
            } else {
                answered
            };
            clock.since_millis = Some(since);
            match self.stall {
                Some(stall) => {
                    if now.saturating_sub(since) >= stall {
                        return Some(Ended::Stalled(stall));
                    }
                },
                None => {},
            }
        } else {
            clock.since_millis = None;
        }
        match self.idle {
            Some(idle) => {
                let last = match (wrote, heard) {
                    (Some(w), Some(h)) => if w >= h {
                        w
                    } else {
                        h
                    },
                    (Some(w), None) => w,
                    (None, Some(h)) => h,
                    (None, None) => 0,
                };
                if now.saturating_sub(last) >= idle {
                    return Some(Ended::Idle(idle));
                }
            },
            None => {},
        }
        None
    }

    /// How often to check, in milliseconds. Checking four times per deadline keeps the overshoot
    /// under a quarter of it, within a floor of a tenth of a second and a ceiling of five seconds.
    /// With no deadline set the loop still ticks, hourly, and finds nothing to do.
    pub fn check_period(&self) -> (period: u64)
        ensures
            period == self.period(),
            self.stall is None && self.idle is None ==> period == 3_600_000,
            self.stall is Some || self.idle is Some ==> 100 <= period <= 5000,
            self.stall is Some && self.stall->0 >= 400 ==> 4 * period <= self.stall->0,
            self.idle is Some && self.idle->0 >= 400 ==> 4 * period <= self.idle->0,
            self.stall is Some && (self.idle is None || self.stall->0 <= self.idle->0) && 400
                <= self.stall->0 <= 20_000 ==> period == self.stall->0 / 4,
            self.idle is Some && (self.stall is None || self.idle->0 <= self.stall->0) && 400
                <= self.idle->0 <= 20_000 ==> period == self.idle->0 / 4,
    {
        let shortest = match (self.stall, self.idle) {
            (Some(s), Some(i)) => if s <= i {
                s
            } else {
                i
            },
            (Some(s), None) => s,
            (None, Some(i)) => i,
            (None, None) => {
                return 3_600_000;
            },
        };
        let quarter = shortest / 4;
        if quarter < 100 {
            100
        } else if quarter > 5000 {
            5000
        } else {
            quarter
        }
    }
}

/// A count of milliseconds as the watchdog keeps it: a count too large for it reads as the largest
/// it can hold, so a deadline can only ever look further away, never nearer.
pub fn saturating_millis(millis: u128) -> (kept: u64)
    ensures
        kept == if millis <= u64::MAX as u128 {
            millis
        } else {
            u64::MAX as u128
        },
{
    if millis <= u64::MAX as u128 {
        millis as u64
    } else {
        u64::MAX
    }
}

/// How a copy that returned ends the splice.
pub fn ended(result: Result<(), std::io::Error>) -> (ended: Ended)
    ensures
        match result {
            Ok(()) => ended is Closed,
            Err(error) => ended == Ended::Failed(error),
        },
{
    match result {
        Ok(()) => Ended::Closed,
        Err(error) => Ended::Failed(error),
    }
}

/// The stall deadline is measured from the first unanswered write, whatever is written after it:
/// two checks that find the far side silent since the same answer leave the period starting where
/// the first check put it, so a wallet that keeps writing into a dead stream cannot postpone the
/// deadline.
pub proof fn lemma_writes_do_not_postpone_the_stall(
    since: Option<u64>,
    first_write: Option<u64>,
    later_write: Option<u64>,
    heard: Option<u64>,
)
    requires
        outstanding(first_write, heard),
        outstanding(later_write, heard),
    ensures
        stall_start(stall_start(since, first_write, heard), later_write, heard) == stall_start(
            since,
            first_write,
            heard,
        ),
{
}

/// With no unanswered period running, the one a check finds starts at the unanswered write.
pub proof fn lemma_a_fresh_stall_starts_at_the_write(wrote: Option<u64>, heard: Option<u64>)
    requires
        outstanding(wrote, heard),
    ensures
        stall_start(None, wrote, heard) == wrote,
{
}

/// An answer clears the stall deadline: once the far side has spoken since the last write, no
/// period is running and no check gives up on a stall.
pub proof fn lemma_an_answer_clears_the_stall(
    watchdog: Watchdog,
    since: Option<u64>,
    wrote: Option<u64>,
    heard: Option<u64>,
    now: u64,
)
    requires
        !outstanding(wrote, heard),
    ensures
        stall_start(since, wrote, heard) is None,
        !watchdog.stalls_at(stall_start(since, wrote, heard), now),
{
}

/// A far side that keeps answering never adds up to a stall, however its answers interleave with
/// writes: while the last answer is more recent than the stall deadline, no check gives up on a
/// stall.
pub proof fn lemma_a_replying_far_side_does_not_stall(
    watchdog: Watchdog,
    since: Option<u64>,
    wrote: Option<u64>,
    heard: u64,
    now: u64,
)
    requires
        watchdog.stall is Some,
        elapsed(now, heard) < watchdog.stall->0,
    ensures
        !watchdog.stalls_at(stall_start(since, wrote, Some(heard)), now),
{
}

/// Bytes stamped after the watchdog read the clock never trip it: with both deadlines positive and
/// every time it sees no earlier than `now`, a check gives up on nothing.
pub proof fn lemma_stamps_ahead_of_the_clock_do_not_trip(
    watchdog: Watchdog,
    since: Option<u64>,
    wrote: Option<u64>,
    heard: Option<u64>,
    now: u64,
)
    requires
        watchdog.stall matches Some(stall) ==> stall > 0,
        watchdog.idle matches Some(idle) ==> idle > 0,
        since matches Some(since) ==> since >= now,
        wrote matches Some(wrote) ==> wrote >= now,
        heard matches Some(heard) ==> heard >= now,
        wrote is Some || heard is Some,
    ensures
        !watchdog.stalls_at(stall_start(since, wrote, heard), now),
        !watchdog.idles_at(wrote, heard, now),
{
}

/// Nothing having moved at all counts from the beginning of the splice: a connection that never
/// moved a byte idles out exactly once the idle deadline has passed since it began.
pub proof fn lemma_idle_counts_from_the_beginning(watchdog: Watchdog, now: u64)
    ensures
        watchdog.idles_at(None, None, now) <==> (watchdog.idle matches Some(idle) && now >= idle),
{
}

/// Idleness is measured from the latest movement either way: the last movement is the later of
/// the two directions' stamps, so a check never gives up on idleness while either direction has
/// moved within the idle deadline.
pub proof fn lemma_either_direction_keeps_the_connection_alive(
    watchdog: Watchdog,
    wrote: Option<u64>,
    heard: Option<u64>,
    now: u64,
)
    ensures
        wrote matches Some(w) ==> last_movement(wrote, heard) >= w,
        heard matches Some(h) ==> last_movement(wrote, heard) >= h,
        wrote is Some || heard is Some ==> (wrote == Some(last_movement(wrote, heard)) || heard
            == Some(last_movement(wrote, heard))),
        wrote matches Some(w) && watchdog.idle matches Some(idle) && now >= w && now - w < idle
            ==> !watchdog.idles_at(wrote, heard, now),
        heard matches Some(h) && watchdog.idle matches Some(idle) && now >= h && now - h < idle
            ==> !watchdog.idles_at(wrote, heard, now),
{
}

/// A stall is never reported early: a check gives up on a stall only once the deadline has passed
/// since the unanswered period began, and only when something is outstanding. (A deadline of zero
/// has passed at once.)
pub proof fn lemma_a_stall_is_never_early(
    watchdog: Watchdog,
    since: Option<u64>,
    wrote: Option<u64>,
    heard: Option<u64>,
    now: u64,
)
    requires
        watchdog.stalls_at(stall_start(since, wrote, heard), now),
    ensures
        outstanding(wrote, heard),
        watchdog.stall->0 == 0 || now >= stall_start(since, wrote, heard)->0 + watchdog.stall->0,
{
}

/// A watchdog with no deadline still ticks, hourly; one with a deadline is checked between a tenth
/// of a second and five seconds apart, and at least four times per deadline of 400 ms or more, which
/// keeps the overshoot under a quarter of it.
pub proof fn lemma_check_period_bounds(watchdog: Watchdog)
    ensures
        watchdog.period() > 0,
        watchdog.stall is None && watchdog.idle is None ==> watchdog.period() == 3_600_000,
        watchdog.stall is Some || watchdog.idle is Some ==> 100 <= watchdog.period() <= 5000,
        watchdog.stall is Some && watchdog.stall->0 >= 400 ==> 4 * watchdog.period() <= watchdog.stall->0,
        watchdog.idle is Some && watchdog.idle->0 >= 400 ==> 4 * watchdog.period() <= watchdog.idle->0,
{
}

/// A deadline, once passed, stays passed: for the same activity, any later check gives up too, so
/// the first check after a deadline passes is the one that reports it, at most one check period
/// late.
pub proof fn lemma_a_passed_deadline_stays_passed(
    watchdog: Watchdog,
    start: Option<u64>,
    wrote: Option<u64>,
    heard: Option<u64>,
    now: u64,
    later: u64,
)
    requires
        now <= later,
    ensures
        watchdog.stalls_at(start, now) ==> watchdog.stalls_at(start, later),
        watchdog.idles_at(wrote, heard, now) ==> watchdog.idles_at(wrote, heard, later),
{
}

/// Nothing hangs forever: a far side that stays silent after a write is given up on by the first
/// check once the stall deadline has passed since the unanswered period began, and a connection
/// that stays quiet is let go by the first check once the idle deadline has passed since anything
/// last moved.
pub proof fn lemma_silence_is_given_up_on(
    watchdog: Watchdog,
    since: Option<u64>,
    wrote: Option<u64>,
    heard: Option<u64>,
    now: u64,
)
    ensures
        outstanding(wrote, heard) && watchdog.stall is Some && now >= stall_start(
            since,
            wrote,
            heard,
        )->0 + watchdog.stall->0 ==> watchdog.stalls_at(stall_start(since, wrote, heard), now),
        watchdog.idle is Some && now >= last_movement(wrote, heard) + watchdog.idle->0
            ==> watchdog.idles_at(wrote, heard, now),
{
}

/// A direction counts every byte recorded on it: starting from nothing, after any sequence of
/// records its count is the sum of what they moved (wrapping as the counter does), and it was last
/// moved when the last of them was stamped. What a splice reports as its transfer is therefore
/// every byte that crossed each way.
pub proof fn lemma_every_record_is_counted(records: Seq<(u64, u64)>)
    ensures
        after_records(Direction { bytes: 0, last_at_millis: 0 }, records).bytes == total_moved(
            records,
        ) % 0x1_0000_0000_0000_0000,
        records.len() > 0 ==> after_records(
            Direction { bytes: 0, last_at_millis: 0 },
            records,
        ).last_at_millis == records.last().1,
        records.len() > 0 && total_moved(records) < 0x1_0000_0000_0000_0000 ==> after_records(
            Direction { bytes: 0, last_at_millis: 0 },
            records,
        ).last_moved() == (if total_moved(records) > 0 {
            Some(records.last().1)
        } else {
            None
        }),
    decreases records.len(),
{
    let start = Direction { bytes: 0, last_at_millis: 0 };
    if records.len() > 0 {
        let rest = records.drop_last();
        lemma_every_record_is_counted(rest);
        let before: int = total_moved(rest) as int;
        let moved: int = records.last().0 as int;
        let m: int = 0x1_0000_0000_0000_0000;
        assert(after_records(start, rest).bytes == before % m);
        vstd::arithmetic::div_mod::lemma_add_mod_noop(before, moved, m);
        vstd::arithmetic::div_mod::lemma_small_mod(moved as nat, m as nat);
        vstd::arithmetic::div_mod::lemma_mod_twice(before, m);
        assert(((before % m) + moved) % m == (before + moved) % m);
        if total_moved(records) < m {
            vstd::arithmetic::div_mod::lemma_small_mod(total_moved(records), m as nat);
        }
    }
}

} // verus!
