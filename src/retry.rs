use vstd::prelude::*;

verus! {

/// How the recorder answered an authenticated call.
#[derive(Clone, Copy, Debug, PartialEq, Eq, Structural)]
pub enum Reply {
    Success,
    /// HTTP 401: the session has expired or was never opened.
    Unauthorized,
    /// Any other failure: network error or another error status.
    Failure,
}

/// What has just happened to the client.
#[derive(Clone, Copy, Debug, PartialEq, Eq, Structural)]
pub enum Event {
    /// The authenticated call was answered.
    Replied(Reply),
    /// A login was attempted; `true` when it succeeded.
    LoggedIn(bool),
}

/// What the client must do next.
#[derive(Clone, Copy, Debug, PartialEq, Eq, Structural)]
pub enum Step {
    /// Make the authenticated call again.
    Call,
    /// Log in to the recorder.
    Login,
    /// Hand the answer of the last call to the caller.
    Succeed,
    /// Report the last failure to the caller.
    Fail,
}

#[derive(Clone, Copy, Debug, PartialEq, Eq, Structural)]
pub enum Phase {
    /// The first call is under way.
    FirstCall,
    /// The first call was refused with 401; a login is under way.
    LoggingIn,
    /// The call is made once more after the login.
    SecondCall,
    /// The outcome is settled.
    Done,
}

/// The retry policy's state: its phase, the calls made and the logins made.
pub struct RetryView {
    pub phase: Phase,
    pub calls: nat,
    pub logins: nat,
}

/// The states that the policy can reach from its start.
pub open spec fn reachable(v: RetryView) -> bool {
    match v.phase {
        Phase::FirstCall => v.calls == 1 && v.logins == 0,
        Phase::LoggingIn => v.calls == 1 && v.logins == 1,
        Phase::SecondCall => v.calls == 2 && v.logins == 1,
        Phase::Done => v.calls <= 2 && v.logins <= 1,
    }
}

/// The state in which the first call is made.
pub open spec fn start() -> RetryView {
    RetryView { phase: Phase::FirstCall, calls: 1, logins: 0 }
}

pub open spec fn settle(v: RetryView) -> RetryView {
    RetryView { phase: Phase::Done, ..v }
}

/// One move of the policy: a 401 on the first call asks for one login, a
/// successful login for one more call; every other event settles the outcome.
pub open spec fn advance(v: RetryView, e: Event) -> (RetryView, Step) {
    match (v.phase, e) {
        (Phase::FirstCall, Event::Replied(Reply::Success)) => (settle(v), Step::Succeed),
        (Phase::FirstCall, Event::Replied(Reply::Unauthorized)) => (
            RetryView { phase: Phase::LoggingIn, logins: v.logins + 1, ..v },
            Step::Login,
        ),
        (Phase::LoggingIn, Event::LoggedIn(true)) => (
            RetryView { phase: Phase::SecondCall, calls: v.calls + 1, ..v },
            Step::Call,
        ),
        (Phase::SecondCall, Event::Replied(Reply::Success)) => (settle(v), Step::Succeed),
        _ => (settle(v), Step::Fail),
    }
}

/// The state and the steps after a sequence of events.
pub open spec fn run(v: RetryView, events: Seq<Event>) -> (RetryView, Seq<Step>)
    decreases events.len(),
{
    if events.len() == 0 {
        (v, Seq::empty())
    } else {
        let (w, steps) = run(v, events.drop_last());
        let (x, s) = advance(w, events.last());
        (x, steps.push(s))
    }
}

/// Each move keeps the policy within the reachable states.
pub proof fn lemma_advance_reachable(v: RetryView, e: Event)
    requires
        reachable(v),
    ensures
        reachable(advance(v, e).0),
{
}

/// Whatever the recorder answers, a call is made at most twice and a login at
/// most once: a 401 after the login is reported, with no third call, and a
/// settled outcome never asks for another call or login.
pub proof fn lemma_bounded_attempts(events: Seq<Event>)
    ensures
        reachable(run(start(), events).0),
        run(start(), events).0.calls <= 2,
        run(start(), events).0.logins <= 1,
        forall|i: int, j: int|
            #![trigger run(start(), events).1[i], run(start(), events).1[j]]
            0 <= i < j < events.len() && (run(start(), events).1[i] == Step::Succeed
                || run(start(), events).1[i] == Step::Fail)
                ==> run(start(), events).1[j] == Step::Fail,
    decreases events.len(),
{
    if events.len() > 0 {
        let prev = events.drop_last();
        lemma_bounded_attempts(prev);
        lemma_settled_stays(prev);
        lemma_run_len(start(), prev);
        let steps = run(start(), events).1;
        assert forall|i: int, j: int|
            #![trigger steps[i], steps[j]]
            0 <= i < j < events.len() && (steps[i] == Step::Succeed || steps[i] == Step::Fail)
                implies steps[j] == Step::Fail by {
            assert(steps[i] == run(start(), prev).1[i]);
            if j < prev.len() {
                assert(steps[j] == run(start(), prev).1[j]);
            }
        }
    }
}

proof fn lemma_run_len(v: RetryView, events: Seq<Event>)
    ensures
        run(v, events).1.len() == events.len(),
    decreases events.len(),
{
    if events.len() > 0 {
        lemma_run_len(v, events.drop_last());
    }
}

/// Once a step has settled the outcome, the policy stays settled.
proof fn lemma_settled_stays(events: Seq<Event>)
    ensures
        forall|i: int|
            0 <= i < events.len() && (#[trigger] run(start(), events).1[i] == Step::Succeed
                || run(start(), events).1[i] == Step::Fail)
                ==> run(start(), events).0.phase == Phase::Done,
    decreases events.len(),
{
    if events.len() > 0 {
        lemma_settled_stays(events.drop_last());
        let prev = events.drop_last();
        lemma_run_len(start(), prev);
        assert forall|i: int| 0 <= i < prev.len() implies #[trigger] run(start(), events).1[i]
            == run(start(), prev).1[i] by {}
    }
}

/// The login-and-retry policy of one authenticated call to the recorder.
pub struct LoginRetry {
    phase: Phase,
    calls: u8,
    logins: u8,
}

impl LoginRetry {
    pub closed spec fn view(&self) -> RetryView {
        RetryView { phase: self.phase, calls: self.calls as nat, logins: self.logins as nat }
    }

    /// The policy as the first call is made.
    pub fn new() -> (r: LoginRetry)
        ensures
            r@ == start(),
            reachable(r@),
    {
        LoginRetry { phase: Phase::FirstCall, calls: 1, logins: 0 }
    }

    /// Takes in what happened and tells what to do next.
    pub fn next(&mut self, event: Event) -> (r: Step)
        requires
            reachable(old(self)@),
        ensures
            (final(self)@, r) == advance(old(self)@, event),
            reachable(final(self)@),
    {
        let r = match (self.phase, event) {
            (Phase::FirstCall, Event::Replied(Reply::Success)) => {
                self.phase = Phase::Done;
                Step::Succeed
            },
            (Phase::FirstCall, Event::Replied(Reply::Unauthorized)) => {
                self.phase = Phase::LoggingIn;
                self.logins = self.logins + 1;
                Step::Login
            },
            (Phase::LoggingIn, Event::LoggedIn(true)) => {
                self.phase = Phase::SecondCall;
                self.calls = self.calls + 1;
                Step::Call
            },
            (Phase::SecondCall, Event::Replied(Reply::Success)) => {
                self.phase = Phase::Done;
                Step::Succeed
            },
            _ => {
                self.phase = Phase::Done;
                Step::Fail
            },
        };
        r
    }

    /// Calls made so far, the first one included.
    pub fn calls(&self) -> (r: u8)
        ensures
            r as nat == self@.calls,
    {
        self.calls
    }

    /// Logins made so far.
    pub fn logins(&self) -> (r: u8)
        ensures
            r as nat == self@.logins,
    {
        self.logins
    }

    /// Whether the outcome is settled.
    pub fn is_done(&self) -> (r: bool)
        ensures
            r == (self@.phase == Phase::Done),
    {
        match self.phase {
            Phase::Done => true,
            _ => false,
        }
    }
}

} // verus!
