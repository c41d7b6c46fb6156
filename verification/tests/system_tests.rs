//! The in-memory engine: the login scenario, the application workflow, the
//! closure of an approved posting, and each refusal with its error.

use hrsystem::AppliedApplication;
use hrsystem::ApprovedApplication;
use hrsystem::Candidacy;
use hrsystem::ErrorVariant;
use hrsystem::InterviewedApplication;
use hrsystem::JobState;
use hrsystem::RejectedApplication;
use hrsystem::System;

#[test]
fn login_scenario() {
    let mut system = System::new();
    let job_id = system.create_job_posting("Engineer".to_string()).unwrap();
    assert_eq!(job_id, 1);
    let cand_id = system
        .register_candidate("alice".to_string(), "pw".to_string())
        .unwrap();
    assert_eq!(cand_id, 1);
    let logged = system.login(&"alice".to_string(), &"pw".to_string()).unwrap();
    assert_eq!(logged.user, "alice".to_string());
    assert_eq!(logged.user_id, cand_id);
    assert_eq!(logged.token, 0);
    assert!(system.login(&"alice".to_string(), &"wrong".to_string()).is_none());
    assert!(system.login(&"bob".to_string(), &"pw".to_string()).is_none());
}

#[test]
fn apply_and_premature_approve() {
    let mut system = System::new();
    let job_id = system.create_job_posting("Engineer".to_string()).unwrap();
    let cand_id = system
        .register_candidate("alice".to_string(), "pw".to_string())
        .unwrap();
    let logged = system.login(&"alice".to_string(), &"pw".to_string()).unwrap();
    assert_eq!(
        system.apply(&logged.user, logged.token, cand_id, job_id),
        Ok(cand_id)
    );
    let job = system.get_job_by_id(&job_id).unwrap();
    assert_eq!(
        job.applicant_state(&"alice".to_string()),
        Some(Candidacy::Applied(AppliedApplication))
    );
    // Approving before the interview refuses the transition...
    assert_eq!(
        system.approve("alice".to_string(), job_id),
        Err(ErrorVariant::InvalidState)
    );
    // ... and the candidate remains Applied.
    let job = system.get_job_by_id(&job_id).unwrap();
    assert_eq!(
        job.applicant_state(&"alice".to_string()),
        Some(Candidacy::Applied(AppliedApplication))
    );
}

#[test]
fn approval_closes_the_posting() {
    let mut system = System::new();
    let job_id = system.create_job_posting("Engineer".to_string()).unwrap();
    let alice = system
        .register_candidate("alice".to_string(), "pw".to_string())
        .unwrap();
    let bob = system
        .register_candidate("bob".to_string(), "pw".to_string())
        .unwrap();
    assert!(system.apply(&"alice".to_string(), 0, alice, job_id).is_ok());
    assert!(system.interview("alice".to_string(), job_id).is_ok());
    let job = system.get_job_by_id(&job_id).unwrap();
    assert_eq!(
        job.applicant_state(&"alice".to_string()),
        Some(Candidacy::Interviewed(InterviewedApplication))
    );
    assert!(system.approve("alice".to_string(), job_id).is_ok());
    let job = system.get_job_by_id(&job_id).unwrap();
    assert_eq!(job.state, JobState::Closed);
    assert_eq!(
        job.applicant_state(&"alice".to_string()),
        Some(Candidacy::Approved(ApprovedApplication))
    );
    // Approving one candidate terminates the posting for everyone else.
    assert_eq!(
        system.apply(&"bob".to_string(), 0, bob, job_id),
        Err(ErrorVariant::InvalidState)
    );
}

#[test]
fn repeated_approval_changes_nothing_further() {
    let mut system = System::new();
    let job_id = system.create_job_posting("Engineer".to_string()).unwrap();
    let alice = system
        .register_candidate("alice".to_string(), "pw".to_string())
        .unwrap();
    assert!(system.apply(&"alice".to_string(), 0, alice, job_id).is_ok());
    assert!(system.interview("alice".to_string(), job_id).is_ok());
    assert!(system.approve("alice".to_string(), job_id).is_ok());
    // Repeated approve attempts fail on the precondition check alone and
    // leave the closed job and the candidacy exactly as they are.
    assert_eq!(
        system.approve("alice".to_string(), job_id),
        Err(ErrorVariant::InvalidState)
    );
    assert_eq!(
        system.approve("alice".to_string(), job_id),
        Err(ErrorVariant::InvalidState)
    );
    let job = system.get_job_by_id(&job_id).unwrap();
    assert_eq!(job.state, JobState::Closed);
    assert_eq!(
        job.applicant_state(&"alice".to_string()),
        Some(Candidacy::Approved(ApprovedApplication))
    );
}

#[test]
fn rejection_flow_leaves_posting_open() {
    let mut system = System::new();
    let job_id = system.create_job_posting("Engineer".to_string()).unwrap();
    let alice = system
        .register_candidate("alice".to_string(), "pw".to_string())
        .unwrap();
    assert!(system.apply(&"alice".to_string(), 0, alice, job_id).is_ok());
    // A reject before the interview is a silent no-op.
    assert!(system.reject("alice".to_string(), job_id).is_ok());
    let job = system.get_job_by_id(&job_id).unwrap();
    assert_eq!(
        job.applicant_state(&"alice".to_string()),
        Some(Candidacy::Applied(AppliedApplication))
    );
    assert!(system.interview("alice".to_string(), job_id).is_ok());
    assert!(system.reject("alice".to_string(), job_id).is_ok());
    let job = system.get_job_by_id(&job_id).unwrap();
    assert_eq!(
        job.applicant_state(&"alice".to_string()),
        Some(Candidacy::Rejected(RejectedApplication))
    );
    // Rejection does not close the posting.
    assert_eq!(job.state, JobState::Open);
}

#[test]
fn duplicate_username_is_refused() {
    let mut system = System::new();
    assert_eq!(
        system.register_candidate("alice".to_string(), "pw".to_string()),
        Ok(1)
    );
    assert_eq!(
        system.register_candidate("alice".to_string(), "other".to_string()),
        Err(ErrorVariant::Conflict)
    );
    // The first registration remains valid and retrievable.
    assert!(system.login(&"alice".to_string(), &"pw".to_string()).is_some());
    assert!(system.login(&"alice".to_string(), &"other".to_string()).is_none());
}

#[test]
fn duplicate_job_name_is_refused() {
    let mut system = System::new();
    assert_eq!(system.create_job_posting("Engineer".to_string()), Ok(1));
    assert_eq!(
        system.create_job_posting("Engineer".to_string()),
        Err(ErrorVariant::Conflict)
    );
    assert_eq!(system.create_job_posting("Gardener".to_string()), Ok(2));
    let jobs = system.list_jobs();
    assert_eq!(jobs.len(), 2);
    assert_eq!(jobs[0].name, "Engineer".to_string());
    assert_eq!(jobs[1].name, "Gardener".to_string());
}

#[test]
fn second_application_conflicts() {
    let mut system = System::new();
    let job_id = system.create_job_posting("Engineer".to_string()).unwrap();
    let alice = system
        .register_candidate("alice".to_string(), "pw".to_string())
        .unwrap();
    assert!(system.apply(&"alice".to_string(), 0, alice, job_id).is_ok());
    assert_eq!(
        system.apply(&"alice".to_string(), 0, alice, job_id),
        Err(ErrorVariant::Conflict)
    );
}

#[test]
fn bad_token_is_unauthorized() {
    let mut system = System::new();
    let job_id = system.create_job_posting("Engineer".to_string()).unwrap();
    let alice = system
        .register_candidate("alice".to_string(), "pw".to_string())
        .unwrap();
    assert_eq!(
        system.apply(&"alice".to_string(), 7, alice, job_id),
        Err(ErrorVariant::Unauthorized)
    );
}

#[test]
fn missing_records_are_not_found() {
    let mut system = System::new();
    assert!(system.get_job_by_id(&1).is_none());
    assert_eq!(
        system.apply(&"ghost".to_string(), 0, 1, 1),
        Err(ErrorVariant::NotFound)
    );
    let job_id = system.create_job_posting("Engineer".to_string()).unwrap();
    // No such candidate.
    assert_eq!(
        system.apply(&"ghost".to_string(), 0, 9, job_id),
        Err(ErrorVariant::NotFound)
    );
    assert_eq!(
        system.interview("ghost".to_string(), job_id),
        Err(ErrorVariant::NotFound)
    );
    assert_eq!(
        system.reject("ghost".to_string(), job_id),
        Err(ErrorVariant::NotFound)
    );
    assert_eq!(
        system.approve("ghost".to_string(), job_id),
        Err(ErrorVariant::NotFound)
    );
    // A registered candidate who never applied.
    let _ = system.register_candidate("alice".to_string(), "pw".to_string());
    assert_eq!(
        system.interview("alice".to_string(), job_id),
        Err(ErrorVariant::NotFound)
    );
}
