//! The retry policy of authenticated requests: on an unauthorized answer the
//! session logs in again once and the request is sent once more.
use vstd::prelude::*;

verus! {

/// Where an authenticated request stands.
#[derive(Debug, Clone, Copy, PartialEq, Eq, Structural)]
pub enum Phase {
    /// The request was sent with the token in hand.
    FirstAttempt,
    /// The first answer was "unauthorized"; a new login runs.
    Refreshing,
    /// The request was sent again with the new token.
    Retrying,
    /// The caller has its answer, or the failure.
    Done,
}

/// What happened last.
#[derive(Debug, Clone, Copy, PartialEq, Eq, Structural)]
pub enum DispatchEvent {
    /// An answer came with this status code.
    Response(u16),
    /// The new login succeeded or failed.
    Reauthenticated(bool),
}

/// What to do next.
#[derive(Debug, Clone, Copy, PartialEq, Eq, Structural)]
pub enum DispatchStep {
    /// Log in again with the session's credentials.
    Reauthenticate,
    /// Send the same request again with the new token.
    Resend,
    /// Hand the last answer to the caller as it is.
    Deliver,
    /// Report the failure to the caller.
    Fail,
}

/// The status code of an unauthorized answer.
pub open spec fn unauthorized(status: u16) -> bool {
    status == 401
}

/// The next phase and step after an event; an event that does not fit the
/// phase ends the request with a failure.
pub open spec fn dispatch_step(phase: Phase, event: DispatchEvent) -> (Phase, DispatchStep) {
    match (phase, event) {
        (Phase::FirstAttempt, DispatchEvent::Response(s)) => if unauthorized(s) {
            (Phase::Refreshing, DispatchStep::Reauthenticate)
        } else {
            (Phase::Done, DispatchStep::Deliver)
        },
        (Phase::Refreshing, DispatchEvent::Reauthenticated(ok)) => if ok {
            (Phase::Retrying, DispatchStep::Resend)
        } else {
            (Phase::Done, DispatchStep::Fail)
        },
        (Phase::Retrying, DispatchEvent::Response(_)) => (Phase::Done, DispatchStep::Deliver),
        _ => (Phase::Done, DispatchStep::Fail),
    }
}

/// The steps taken on a run of events from the given phase.
pub open spec fn dispatch_steps(phase: Phase, events: Seq<DispatchEvent>) -> Seq<DispatchStep>
    decreases events.len(),
{
    if events.len() == 0 {
        seq![]
    } else {
        let (next, step) = dispatch_step(phase, events[0]);
        seq![step] + dispatch_steps(next, events.drop_first())
    }
}

/// How many times a step occurs.
pub open spec fn step_count(steps: Seq<DispatchStep>, step: DispatchStep) -> nat
    decreases steps.len(),
{
    if steps.len() == 0 {
        0
    } else {
        (if steps[0] == step {
            1nat
        } else {
            0nat
        }) + step_count(steps.drop_first(), step)
    }
}

/// The retry policy of one authenticated request.
pub struct RequestRetry {
    phase: Phase,
}

impl RequestRetry {
    /// Where the request stands.
    pub closed spec fn phase(&self) -> Phase {
        self.phase
    }

    /// The policy of a request just sent with the token in hand.
    pub fn new() -> (r: RequestRetry)
        ensures
            r.phase() == Phase::FirstAttempt,
    {
        RequestRetry { phase: Phase::FirstAttempt }
    }

    /// Takes an event into account and says what to do next.
    pub fn step(&mut self, event: DispatchEvent) -> (r: DispatchStep)
        ensures
            (final(self).phase(), r) == dispatch_step(old(self).phase(), event),
    {
        let (next, step) = match (self.phase, event) {
            (Phase::FirstAttempt, DispatchEvent::Response(s)) => if s == 401 {
                (Phase::Refreshing, DispatchStep::Reauthenticate)
            } else {
                (Phase::Done, DispatchStep::Deliver)
            },
            (Phase::Refreshing, DispatchEvent::Reauthenticated(ok)) => if ok {
                (Phase::Retrying, DispatchStep::Resend)
            } else {
                (Phase::Done, DispatchStep::Fail)
            },
            (Phase::Retrying, DispatchEvent::Response(_)) => (Phase::Done, DispatchStep::Deliver),
            _ => (Phase::Done, DispatchStep::Fail),
        };
        self.phase = next;
        step
    }
}

proof fn lemma_no_reauth_after_first(phase: Phase, events: Seq<DispatchEvent>)
    requires
        phase != Phase::FirstAttempt,
    ensures
        step_count(dispatch_steps(phase, events), DispatchStep::Reauthenticate) == 0,
        phase != Phase::Refreshing ==> step_count(dispatch_steps(phase, events), DispatchStep::Resend) == 0,
    decreases events.len(),
{
    if events.len() > 0 {
        let (next, step) = dispatch_step(phase, events[0]);
        lemma_no_reauth_after_first(next, events.drop_first());
        let steps = dispatch_steps(phase, events);
        assert(steps.drop_first() =~= dispatch_steps(next, events.drop_first()));
    }
}

/// Whatever the answers, a request logs in again at most once and is sent
/// again at most once: a second unauthorized answer goes to the caller.
pub proof fn lemma_single_retry(events: Seq<DispatchEvent>)
    ensures
        step_count(dispatch_steps(Phase::FirstAttempt, events), DispatchStep::Reauthenticate) <= 1,
        step_count(dispatch_steps(Phase::FirstAttempt, events), DispatchStep::Resend) <= 1,
{
    if events.len() > 0 {
        let (next, step) = dispatch_step(Phase::FirstAttempt, events[0]);
        let steps = dispatch_steps(Phase::FirstAttempt, events);
        assert(steps.drop_first() =~= dispatch_steps(next, events.drop_first()));
        lemma_no_reauth_after_first(next, events.drop_first());
        assert(steps[0] == step);
        assert(step_count(steps, DispatchStep::Resend) == step_count(steps.drop_first(), DispatchStep::Resend));
        if next == Phase::Refreshing {
            let rest = events.drop_first();
            if rest.len() > 0 {
                let (after, _) = dispatch_step(next, rest[0]);
                let tail = dispatch_steps(next, rest);
                assert(tail.drop_first() =~= dispatch_steps(after, rest.drop_first()));
                assert(step_count(tail, DispatchStep::Resend) <= 1 + step_count(tail.drop_first(), DispatchStep::Resend));
                lemma_no_reauth_after_first(after, rest.drop_first());
                if after == Phase::Refreshing {
                    assert(false);
                }
            }
        }
    }
}

} // verus!
