//! The candidacy state machine on its own: each legal transition, each
//! no-op, and the stored numeric forms.

use hrsystem::AppliedApplication;
use hrsystem::ApprovedApplication;
use hrsystem::Candidacy;
use hrsystem::Event;
use hrsystem::InterviewedApplication;
use hrsystem::JobState;
use hrsystem::RejectedApplication;

#[test]
fn legal_transitions() {
    let applied = Candidacy::Applied(AppliedApplication);
    let interviewed = applied.interview();
    assert_eq!(interviewed, Candidacy::Interviewed(InterviewedApplication));
    assert_eq!(
        interviewed.approve(),
        Candidacy::Approved(ApprovedApplication)
    );
    assert_eq!(
        interviewed.reject(),
        Candidacy::Rejected(RejectedApplication)
    );
    assert_eq!(AppliedApplication.interview(), InterviewedApplication);
    assert_eq!(InterviewedApplication.approve(), ApprovedApplication);
    assert_eq!(InterviewedApplication.reject(), RejectedApplication);
}

#[test]
fn unsupported_events_are_no_ops() {
    let applied = Candidacy::Applied(AppliedApplication);
    assert_eq!(applied.approve(), applied);
    assert_eq!(applied.reject(), applied);
    let approved = Candidacy::Approved(ApprovedApplication);
    assert_eq!(approved.interview(), approved);
    assert_eq!(approved.approve(), approved);
    assert_eq!(approved.reject(), approved);
    let rejected = Candidacy::Rejected(RejectedApplication);
    assert_eq!(rejected.interview(), rejected);
    assert_eq!(rejected.approve(), rejected);
    assert_eq!(rejected.reject(), rejected);
    let interviewed = Candidacy::Interviewed(InterviewedApplication);
    assert_eq!(interviewed.interview(), interviewed);
}

#[test]
fn step_follows_the_table() {
    let applied = Candidacy::Applied(AppliedApplication);
    assert_eq!(
        applied.step(Event::Interview),
        Candidacy::Interviewed(InterviewedApplication)
    );
    assert_eq!(
        applied.step(Event::Interview).step(Event::Approve),
        Candidacy::Approved(ApprovedApplication)
    );
    assert_eq!(
        applied.step(Event::Interview).step(Event::Reject),
        Candidacy::Rejected(RejectedApplication)
    );
    assert_eq!(applied.step(Event::Approve), applied);
}

#[test]
fn candidacy_codes_round_trip() {
    assert_eq!(Candidacy::Applied(AppliedApplication).as_u8(), 0);
    assert_eq!(Candidacy::Interviewed(InterviewedApplication).as_u8(), 1);
    assert_eq!(Candidacy::Rejected(RejectedApplication).as_u8(), 2);
    assert_eq!(Candidacy::Approved(ApprovedApplication).as_u8(), 3);
    assert_eq!(Candidacy::from_u8(0), Candidacy::Applied(AppliedApplication));
    assert_eq!(
        Candidacy::from_u8(1),
        Candidacy::Interviewed(InterviewedApplication)
    );
    assert_eq!(
        Candidacy::from_u8(2),
        Candidacy::Rejected(RejectedApplication)
    );
    assert_eq!(
        Candidacy::from_u8(3),
        Candidacy::Approved(ApprovedApplication)
    );
    // An unknown code reads as the initial state.
    assert_eq!(Candidacy::from_u8(9), Candidacy::Applied(AppliedApplication));
}

#[test]
fn job_state_codes_round_trip() {
    assert_eq!(JobState::Open.as_u8(), 0);
    assert_eq!(JobState::Closed.as_u8(), 1);
    assert_eq!(JobState::from_u8(0), JobState::Open);
    assert_eq!(JobState::from_u8(1), JobState::Closed);
    // An unknown code reads as open.
    assert_eq!(JobState::from_u8(9), JobState::Open);
}
