//! What a supervisor is told about a half that is still coming up.
//!
//! Startup is not instant and not reliable: the client has to find a gateway and register with it,
//! which was observed to fail outright on some attempts. A binary up/down answer cannot tell
//! "still registering" from "registered and broken", and those want different reactions from
//! whoever is watching.

use vstd::prelude::*;

verus! {

/// How far along a half is.
#[derive(Debug, Clone, Copy, PartialEq, Eq, Structural)]
pub enum State {
    /// The process is up and the mixnet client is not registered yet.
    Starting,
    /// Registered with a gateway, so the half has a mixnet address, but not yet carrying traffic.
    Registered,
    /// Carrying traffic: the dialling half is accepting local connections, the listening half is
    /// accepting mixnet streams.
    Serving,
}

impl State {
    /// Where this state stands in the order a half moves through.
    pub open spec fn rank(self) -> u8 {
        match self {
            State::Starting => 0,
            State::Registered => 1,
            State::Serving => 2,
        }
    }

    /// The name reported over HTTP, as a sequence of characters.
    pub open spec fn name(self) -> Seq<char> {
        match self {
            State::Starting => "starting"@,
            State::Registered => "registered"@,
            State::Serving => "serving"@,
        }
    }

    /// The state a stored code stands for: the three ranks, and anything else read as the start.
    pub open spec fn of_code(code: u8) -> State {
        if code == 1 {
            State::Registered
        } else if code == 2 {
            State::Serving
        } else {
            State::Starting
        }
    }

    /// The name reported over HTTP.
    pub fn as_str(self) -> (name: &'static str)
        ensures
            name@ == self.name(),
            self == State::Starting ==> name@ == "starting"@,
            self == State::Registered ==> name@ == "registered"@,
            self == State::Serving ==> name@ == "serving"@,
    {
        match self {
            State::Starting => "starting",
            State::Registered => "registered",
            State::Serving => "serving",
        }
    }

    /// Whether a supervisor should be sending work here yet.
    pub fn is_ready(self) -> (ready: bool)
        ensures
            ready <==> self == State::Serving,
    {
        match self {
            State::Serving => true,
            _ => false,
        }
    }

    /// The state's rank, as it is stored.
    pub fn code(self) -> (code: u8)
        ensures
            code == self.rank(),
    {
        match self {
            State::Starting => 0,
            State::Registered => 1,
            State::Serving => 2,
        }
    }

    /// The state a stored code stands for.
    pub fn from_code(code: u8) -> (state: State)
        ensures
            state == State::of_code(code),
    {
        match code {
            1 => State::Registered,
            2 => State::Serving,
            _ => State::Starting,
        }
    }
}

/// The later of two states: what a half is in once both have been reported.
pub open spec fn later(a: State, b: State) -> State {
    if a.rank() >= b.rank() {
        a
    } else {
        b
    }
}

/// The current state of one half.
///
/// The state is kept as its rank, and only ever raised. There is one `Health` per half and it
/// cannot be duplicated: whoever advances it and whoever reports it reach the same one, shared
/// behind a lock, so every report reads the state every advance left.
#[derive(Debug)]
pub struct Health {
    code: u8,
}

impl View for Health {
    type V = State;

    closed spec fn view(&self) -> State {
        State::of_code(self.code)
    }
}

impl Health {
    #[verifier::type_invariant]
    closed spec fn code_is_a_rank(self) -> bool {
        self.code <= 2
    }

    /// A half that has just started.
    pub fn starting() -> (health: Health)
        ensures
            health@ == State::Starting,
    {
        Health { code: 0 }
    }

    /// How far along the half is.
    pub fn state(&self) -> (state: State)
        ensures
            state == self@,
    {
        State::from_code(self.code)
    }

    /// Move to `state`. States only ever move forward, so a late report of an earlier one is
    /// ignored rather than allowed to walk the half backwards.
    pub fn advance_to(&mut self, state: State)
        ensures
            final(self)@ == later(old(self)@, state),
            // The half ends in one of the two states, never behind either: Starting comes before
            // Registered, which comes before Serving.
            final(self)@ == old(self)@ || final(self)@ == state,
            old(self)@ == State::Serving || state == State::Serving ==> final(self)@
                == State::Serving,
            old(self)@ == State::Starting ==> final(self)@ == state,
            state == State::Starting ==> final(self)@ == old(self)@,
            old(self)@ == State::Registered && state == State::Registered ==> final(self)@
                == State::Registered,
    {
        proof {
            use_type_invariant(&*self);
        }
        let code = state.code();
        if code > self.code {
            self.code = code;
        }
    }

    /// The body served on the health endpoint.
    pub fn as_json(&self) -> (body: String)
        ensures
            body@ == "{\"state\":\""@ + self@.name() + "\"}\n"@,
            self@ == State::Starting ==> body@ == "{\"state\":\"starting\"}\n"@,
            self@ == State::Registered ==> body@ == "{\"state\":\"registered\"}\n"@,
            self@ == State::Serving ==> body@ == "{\"state\":\"serving\"}\n"@,
    {
        let mut body = String::from_str("{\"state\":\"");
        body.append(self.state().as_str());
        body.append("\"}\n");
        proof {
            reveal_strlit("{\"state\":\"");
            reveal_strlit("\"}\n");
            reveal_strlit("starting");
            reveal_strlit("registered");
            reveal_strlit("serving");
            reveal_strlit("{\"state\":\"starting\"}\n");
            reveal_strlit("{\"state\":\"registered\"}\n");
            reveal_strlit("{\"state\":\"serving\"}\n");
            assert("{\"state\":\""@ + "starting"@ + "\"}\n"@ =~= "{\"state\":\"starting\"}\n"@);
            assert("{\"state\":\""@ + "registered"@ + "\"}\n"@
                =~= "{\"state\":\"registered\"}\n"@);
            assert("{\"state\":\""@ + "serving"@ + "\"}\n"@ =~= "{\"state\":\"serving\"}\n"@);
        }
        body
    }
}

impl Default for Health {
    fn default() -> (health: Health)
        ensures
            health@ == State::Starting,
    {
        Health::starting()
    }
}

/// A stored code read back is the state that was stored.
pub proof fn lemma_code_round_trip(state: State)
    ensures
        State::of_code(state.rank()) == state,
{
}

/// A half never moves backwards: whatever is reported, the state afterwards ranks at least as high
/// as both the state before and the state reported.
pub proof fn lemma_advance_only_moves_forward(current: State, reported: State)
    ensures
        later(current, reported).rank() >= current.rank(),
        later(current, reported).rank() >= reported.rank(),
        later(current, reported) == current || later(current, reported) == reported,
{
}

/// The order in which reports arrive does not matter: two reports applied either way round leave
/// the half in the same state, so a late report of an earlier state changes nothing.
pub proof fn lemma_reports_commute(current: State, first: State, second: State)
    ensures
        later(later(current, first), second) == later(later(current, second), first),
{
}

/// Reporting the state a half is already in, or one it has passed, leaves it where it is.
pub proof fn lemma_late_report_is_ignored(current: State, reported: State)
    requires
        reported.rank() <= current.rank(),
    ensures
        later(current, reported) == current,
{
}

} // verus!
