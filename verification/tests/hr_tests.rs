//! The durable engine, exercised against a fresh in-memory database.

use hrsystem::AppliedApplication;
use hrsystem::ApprovedApplication;
use hrsystem::Candidacy;
use hrsystem::ErrorVariant;
use hrsystem::HRSystem;
use hrsystem::InterviewedApplication;
use hrsystem::JobState;
use hrsystem::RejectedApplication;

fn first_job_applicant(system: &HRSystem, user: &str) -> Candidacy {
    let jobs = system.list_jobs().unwrap();
    let job = jobs.first().unwrap();
    job.applicant_state(&user.to_string()).unwrap()
}

#[test]
fn create_job_posting() {
    let mut system = HRSystem::new_in_memory().unwrap();
    let job_posting_id = system.create_job_posting("Engineer".to_string()).unwrap();
    assert_eq!(
        system.get_job_by_id(&job_posting_id).unwrap().name,
        "Engineer".to_string()
    );
}

#[test]
fn register_candidate() {
    let mut system = HRSystem::new_in_memory().unwrap();
    let _ = system.register_candidate("test".to_string(), "test".to_string());
    // Can login with correct password
    let token = system.login(&"test".to_string(), &"test".to_string());
    assert!(token.is_some());
    // Can't login with incorrect password
    let token = system.login(&"test".to_string(), &"incorrect".to_string());
    assert!(token.is_none());
}

#[test]
fn candidate_process() {
    let mut system = HRSystem::new_in_memory().unwrap();
    let job_posting_id = system.create_job_posting("Engineer".to_string()).unwrap();
    let _ = system.register_candidate("test".to_string(), "test".to_string());
    let _ = system.register_candidate("test1".to_string(), "test".to_string());
    let logged_in_user = system
        .login(&"test1".to_string(), &"test".to_string())
        .unwrap();
    assert!(system
        .apply(
            &logged_in_user.user,
            logged_in_user.token,
            logged_in_user.user_id,
            job_posting_id
        )
        .is_ok());
    assert_eq!(
        first_job_applicant(&system, "test1"),
        Candidacy::Applied(AppliedApplication)
    );

    // Must follow flow
    assert!(system.approve("test1".to_string(), job_posting_id).is_err());
    assert_eq!(
        first_job_applicant(&system, "test1"),
        Candidacy::Applied(AppliedApplication)
    );

    // Must follow flow
    assert!(system.reject("test1".to_string(), job_posting_id).is_ok());
    assert_eq!(
        first_job_applicant(&system, "test1"),
        Candidacy::Applied(AppliedApplication)
    );
    // Reject Flow
    assert!(system
        .interview("test1".to_string(), job_posting_id)
        .is_ok());
    assert_eq!(
        first_job_applicant(&system, "test1"),
        Candidacy::Interviewed(InterviewedApplication)
    );

    assert!(system.reject("test1".to_string(), job_posting_id).is_ok());
    assert_eq!(
        first_job_applicant(&system, "test1"),
        Candidacy::Rejected(RejectedApplication)
    );

    // Approve Flow

    let logged_in_user = system
        .login(&"test".to_string(), &"test".to_string())
        .unwrap();
    assert!(system
        .apply(
            &logged_in_user.user,
            logged_in_user.token,
            logged_in_user.user_id,
            job_posting_id
        )
        .is_ok());
    assert_eq!(
        first_job_applicant(&system, "test"),
        Candidacy::Applied(AppliedApplication)
    );
    assert!(system.interview("test".to_string(), job_posting_id).is_ok());
    assert_eq!(
        first_job_applicant(&system, "test"),
        Candidacy::Interviewed(InterviewedApplication)
    );

    assert!(system.approve("test".to_string(), job_posting_id).is_ok());
    assert_eq!(
        first_job_applicant(&system, "test"),
        Candidacy::Approved(ApprovedApplication)
    );

    // Gets closed
    let _ = system.register_candidate("test2".to_string(), "test".to_string());
    let logged_in_user = system
        .login(&"test2".to_string(), &"test".to_string())
        .unwrap();
    assert!(system
        .apply(
            &"test2".to_string(),
            logged_in_user.token,
            logged_in_user.user_id,
            job_posting_id
        )
        .is_err());
}

#[test]
fn approval_closes_job_in_store() {
    let mut system = HRSystem::new_in_memory().unwrap();
    let job_id = system.create_job_posting("Engineer".to_string()).unwrap();
    let cand_id = system
        .register_candidate("alice".to_string(), "pw".to_string())
        .unwrap();
    assert_eq!(
        system.get_job_by_id(&job_id).unwrap().state,
        JobState::Open
    );
    assert!(system.apply(&"alice".to_string(), 0, cand_id, job_id).is_ok());
    assert!(system.interview("alice".to_string(), job_id).is_ok());
    assert!(system.approve("alice".to_string(), job_id).is_ok());
    assert_eq!(
        system.get_job_by_id(&job_id).unwrap().state,
        JobState::Closed
    );
    // The closed posting refuses every further action.
    assert_eq!(
        system.interview("alice".to_string(), job_id),
        Err(ErrorVariant::InvalidState)
    );
    assert_eq!(
        system.approve("alice".to_string(), job_id),
        Err(ErrorVariant::InvalidState)
    );
}

#[test]
fn duplicate_job_name_is_refused_by_store() {
    let mut system = HRSystem::new_in_memory().unwrap();
    assert!(system.create_job_posting("Engineer".to_string()).is_ok());
    assert_eq!(
        system.create_job_posting("Engineer".to_string()),
        Err(ErrorVariant::Conflict)
    );
    assert!(system.create_job_posting("Gardener".to_string()).is_ok());
    assert_eq!(system.list_jobs().unwrap().len(), 2);
}

#[test]
fn duplicate_registration_is_refused_by_store() {
    let mut system = HRSystem::new_in_memory().unwrap();
    assert!(system
        .register_candidate("alice".to_string(), "pw".to_string())
        .is_ok());
    assert_eq!(
        system.register_candidate("alice".to_string(), "other".to_string()),
        Err(ErrorVariant::Conflict)
    );
    // The first registration is still the one that counts.
    assert!(system.login(&"alice".to_string(), &"pw".to_string()).is_some());
    assert!(system.login(&"alice".to_string(), &"other".to_string()).is_none());
}

#[test]
fn second_application_conflicts_in_store() {
    let mut system = HRSystem::new_in_memory().unwrap();
    let job_id = system.create_job_posting("Engineer".to_string()).unwrap();
    let cand_id = system
        .register_candidate("alice".to_string(), "pw".to_string())
        .unwrap();
    assert!(system.apply(&"alice".to_string(), 0, cand_id, job_id).is_ok());
    assert_eq!(
        system.apply(&"alice".to_string(), 0, cand_id, job_id),
        Err(ErrorVariant::Conflict)
    );
}

#[test]
fn missing_records_in_store() {
    let mut system = HRSystem::new_in_memory().unwrap();
    assert!(system.get_job_by_id(&7).is_none());
    assert_eq!(
        system.apply(&"ghost".to_string(), 0, 1, 7),
        Err(ErrorVariant::NotFound)
    );
    assert_eq!(
        system.interview("ghost".to_string(), 7),
        Err(ErrorVariant::NotFound)
    );
    let job_id = system.create_job_posting("Engineer".to_string()).unwrap();
    assert_eq!(
        system.interview("ghost".to_string(), job_id),
        Err(ErrorVariant::NotFound)
    );
    assert_eq!(
        system.approve("ghost".to_string(), job_id),
        Err(ErrorVariant::NotFound)
    );
}

#[test]
fn bad_token_is_unauthorized_in_store() {
    let mut system = HRSystem::new_in_memory().unwrap();
    let job_id = system.create_job_posting("Engineer".to_string()).unwrap();
    let cand_id = system
        .register_candidate("alice".to_string(), "pw".to_string())
        .unwrap();
    assert_eq!(
        system.apply(&"alice".to_string(), 1, cand_id, job_id),
        Err(ErrorVariant::Unauthorized)
    );
}
