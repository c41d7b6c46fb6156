//! A recruitment workflow engine: job postings, candidate registration, and
//! the forward-only progress of each candidacy through its review pipeline.
//!
//! The rules live in two engines with the same behaviour: [`System`] over an
//! in-memory store, verified end to end, and [`HRSystem`] over a SQLite
//! database reached through a small trusted storage port.

pub mod candidacy;
pub mod jobs;
pub mod system;
mod db;
pub mod hr;

pub use candidacy::AppliedApplication;
pub use candidacy::ApprovedApplication;
pub use candidacy::Candidacy;
pub use candidacy::Event;
pub use candidacy::InterviewedApplication;
pub use candidacy::RejectedApplication;
pub use hr::HRSystem;
pub use jobs::Candidate;
pub use jobs::ErrorVariant;
pub use jobs::Id;
pub use jobs::Job;
pub use jobs::JobState;
pub use jobs::LoggedUser;
pub use jobs::Token;
pub use system::System;
