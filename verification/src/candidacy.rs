//! The per-(job, candidate) application state machine.
//!
//! A candidacy starts in `Applied` and only ever moves forward:
//! `Applied -> Interviewed -> Approved` or `Applied -> Interviewed -> Rejected`.
//! An event that the current state does not support leaves the state
//! unchanged (a no-op rather than an error); callers that care compare the
//! state after the transition against the target they expected.

use vstd::prelude::*;

verus! {

/// Marker for a candidacy that has just been filed.
#[derive(Clone, Copy, PartialEq, Eq, Structural, Debug)]
pub struct AppliedApplication;

/// Marker for a candidacy whose owner has been interviewed.
#[derive(Clone, Copy, PartialEq, Eq, Structural, Debug)]
pub struct InterviewedApplication;

/// Marker for a candidacy that ended in rejection (terminal).
#[derive(Clone, Copy, PartialEq, Eq, Structural, Debug)]
pub struct RejectedApplication;

/// Marker for a candidacy that ended in approval (terminal).
#[derive(Clone, Copy, PartialEq, Eq, Structural, Debug)]
pub struct ApprovedApplication;

/// The progress of one candidate's application to one job.
#[derive(Clone, Copy, PartialEq, Eq, Structural, Debug)]
pub enum Candidacy {
    Applied(AppliedApplication),
    Interviewed(InterviewedApplication),
    Rejected(RejectedApplication),
    Approved(ApprovedApplication),
}

/// The decisions an actor can take on a candidacy.
#[derive(Clone, Copy, PartialEq, Eq, Structural, Debug)]
pub enum Event {
    Interview,
    Approve,
    Reject,
}

impl AppliedApplication {
    /// The only transition out of `Applied`.
    pub fn interview(self) -> (r: InterviewedApplication)
        ensures
            r == InterviewedApplication,
    {
        InterviewedApplication
    }
}

impl InterviewedApplication {
    /// Accept the candidate; terminal.
    pub fn approve(self) -> (r: ApprovedApplication)
        ensures
            r == ApprovedApplication,
    {
        ApprovedApplication
    }

    /// Turn the candidate down; terminal.
    pub fn reject(self) -> (r: RejectedApplication)
        ensures
            r == RejectedApplication,
    {
        RejectedApplication
    }
}

impl Candidacy {
    /// The transition table: the legal step for `event`, or the same state
    /// when the event is unsupported there.
    pub open spec fn spec_step(self, event: Event) -> Candidacy {
        match (self, event) {
            (Candidacy::Applied(_), Event::Interview) => Candidacy::Interviewed(
                InterviewedApplication,
            ),
            (Candidacy::Interviewed(_), Event::Approve) => Candidacy::Approved(
                ApprovedApplication,
            ),
            (Candidacy::Interviewed(_), Event::Reject) => Candidacy::Rejected(RejectedApplication),
            _ => self,
        }
    }

    /// True of the two states that permit no further transition.
    pub open spec fn is_terminal(self) -> bool {
        self is Rejected || self is Approved
    }

    /// Apply the `interview` event; a no-op unless the state is `Applied`.
    pub fn interview(self) -> (r: Self)
        ensures
            r == self.spec_step(Event::Interview),
    {
        if let Self::Applied(application) = self {
            Self::Interviewed(application.interview())
        } else {
            self
        }
    }

    /// Apply the `approve` event; a no-op unless the state is `Interviewed`.
    pub fn approve(self) -> (r: Self)
        ensures
            r == self.spec_step(Event::Approve),
    {
        if let Self::Interviewed(application) = self {
            Self::Approved(application.approve())
        } else {
            self
        }
    }

    /// Apply the `reject` event; a no-op unless the state is `Interviewed`.
    pub fn reject(self) -> (r: Self)
        ensures
            r == self.spec_step(Event::Reject),
    {
        if let Self::Interviewed(application) = self {
            Self::Rejected(application.reject())
        } else {
            self
        }
    }

    /// Apply one event through the transition table.
    pub fn step(self, event: Event) -> (r: Self)
        ensures
            r == self.spec_step(event),
    {
        match event {
            Event::Interview => self.interview(),
            Event::Approve => self.approve(),
            Event::Reject => self.reject(),
        }
    }

    /// The stored numeric form of the state.
    pub open spec fn spec_as_u8(self) -> u8 {
        match self {
            Candidacy::Applied(_) => 0,
            Candidacy::Interviewed(_) => 1,
            Candidacy::Rejected(_) => 2,
            Candidacy::Approved(_) => 3,
        }
    }

    /// The state a stored numeric form denotes; out-of-range codes read as
    /// the initial state.
    pub open spec fn spec_from_u8(code: u8) -> Candidacy {
        if code == 1 {
            Candidacy::Interviewed(InterviewedApplication)
        } else if code == 2 {
            Candidacy::Rejected(RejectedApplication)
        } else if code == 3 {
            Candidacy::Approved(ApprovedApplication)
        } else {
            Candidacy::Applied(AppliedApplication)
        }
    }

    /// Encode the state for storage.
    pub fn as_u8(self) -> (r: u8)
        ensures
            r == self.spec_as_u8(),
    {
        match self {
            Candidacy::Applied(_) => 0,
            Candidacy::Interviewed(_) => 1,
            Candidacy::Rejected(_) => 2,
            Candidacy::Approved(_) => 3,
        }
    }

    /// Decode a stored state.
    pub fn from_u8(code: u8) -> (r: Candidacy)
        ensures
            r == Self::spec_from_u8(code),
    {
        match code {
            1 => Candidacy::Interviewed(InterviewedApplication),
            2 => Candidacy::Rejected(RejectedApplication),
            3 => Candidacy::Approved(ApprovedApplication),
            _ => Candidacy::Applied(AppliedApplication),
        }
    }
}

/// The state after running a whole sequence of events from `s`.
pub open spec fn run(s: Candidacy, events: Seq<Event>) -> Candidacy
    decreases events.len(),
{
    if events.len() == 0 {
        s
    } else {
        run(s.spec_step(events[0]), events.drop_first())
    }
}

/// Each single step follows an edge of
/// `Applied -> Interviewed -> {Approved | Rejected}` or stays in place, so
/// any observed transition sequence is a subsequence of that chain.
pub proof fn lemma_step_is_forward(s: Candidacy, event: Event)
    ensures
        ({
            let t = s.spec_step(event);
            t == s || (s is Applied && t is Interviewed) || (s is Interviewed && t is Approved) || (
            s is Interviewed && t is Rejected)
        }),
{
}

/// Terminal states are stable: no sequence of events leaves `Approved` or
/// `Rejected`.
pub proof fn lemma_terminal_is_stable(s: Candidacy, events: Seq<Event>)
    requires
        s.is_terminal(),
    ensures
        run(s, events) == s,
    decreases events.len(),
{
    if events.len() > 0 {
        lemma_terminal_is_stable(s.spec_step(events[0]), events.drop_first());
    }
}

/// A run that ends `Approved` or `Rejected` passed through `Interviewed`:
/// some prefix of the event sequence leaves the candidacy in `Interviewed`.
pub proof fn lemma_no_decision_without_interview(events: Seq<Event>)
    ensures
        run(Candidacy::Applied(AppliedApplication), events).is_terminal() ==> exists|i: int|
            0 <= i <= events.len() && run(
                Candidacy::Applied(AppliedApplication),
                #[trigger] events.take(i),
            ) is Interviewed,
    decreases events.len(),
{
    let start = Candidacy::Applied(AppliedApplication);
    if events.len() == 0 {
        return ;
    }
    let rest = events.drop_first();
    let after_first = start.spec_step(events[0]);
    if after_first is Interviewed {
        assert(events.take(1) =~= seq![events[0]]);
        assert(run(start, events.take(1)) == run(after_first, events.take(1).drop_first()));
        assert(events.take(1).drop_first() =~= Seq::<Event>::empty());
        assert(run(start, events.take(1)) == after_first);
        if run(start, events).is_terminal() {
            assert(run(start, events.take(1)) is Interviewed);
        }
    } else {
        assert(after_first == start);
        lemma_no_decision_without_interview(rest);
        assert(run(start, events) == run(start, rest));
        if run(start, rest).is_terminal() {
            let j = choose|j: int|
                0 <= j <= rest.len() && run(start, #[trigger] rest.take(j)) is Interviewed;
            assert(events.take(j + 1).drop_first() =~= rest.take(j));
            assert(run(start, events.take(j + 1)) == run(start, rest.take(j)));
        }
    }
}

} // verus!
