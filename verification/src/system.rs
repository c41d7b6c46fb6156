//! The in-memory workflow engine.
//!
//! [`System`] holds every posting and candidate in process memory and
//! enforces the recruitment rules exactly: a job accepts actions only while
//! `Open`, a (job, candidate) pair holds at most one candidacy, a candidacy
//! only ever moves forward, and the first approval closes the posting for
//! everyone else.
//!
//! Identifiers are assigned monotonically: the job stored at position `i`
//! has identifier `i + 1`, and likewise for candidates.

use vstd::prelude::*;

use crate::candidacy::AppliedApplication;
use crate::candidacy::Candidacy;
use crate::candidacy::Event;
use crate::jobs::check_token;
use crate::jobs::lemma_app_at;
use crate::jobs::lemma_app_congruent;
use crate::jobs::token_valid;
use crate::jobs::Candidate;
use crate::jobs::ErrorVariant;
use crate::jobs::Id;
use crate::jobs::Job;
use crate::jobs::JobState;
use crate::jobs::LoggedUser;
use crate::jobs::Token;

verus! {

/// The largest number of records of one kind the engine will hold, so that
/// every assigned identifier fits in an `Id`.
pub const MAX_RECORDS: u64 = 0x7fff_ffff_ffff_fffe;

/// Some stored candidate carries this username.
pub open spec fn has_user(cands: Seq<Candidate>, user: Seq<char>) -> bool {
    exists|i: int| 0 <= i < cands.len() && cands[i].user@ == user
}

/// Some stored job carries this name.
pub open spec fn has_job_name(jobs: Seq<Job>, name: Seq<char>) -> bool {
    exists|i: int| 0 <= i < jobs.len() && jobs[i].name@ == name
}

/// `id` denotes a stored job (identifiers are positions shifted by one).
pub open spec fn valid_job_id(jobs: Seq<Job>, id: Id) -> bool {
    1 <= id <= jobs.len()
}

/// `id` denotes a stored candidate.
pub open spec fn valid_candidate_id(cands: Seq<Candidate>, id: Id) -> bool {
    1 <= id <= cands.len()
}

/// Job lifecycle states only ever advance: each already-stored posting
/// keeps its state or moves `Open -> Closed`; none reopens.
pub open spec fn jobs_monotone(before: Seq<Job>, after: Seq<Job>) -> bool {
    &&& before.len() <= after.len()
    &&& forall|i: int|
        #![trigger after[i]]
        0 <= i < before.len() ==> (after[i].state == before[i].state || (before[i].state
            == JobState::Open && after[i].state == JobState::Closed))
}

/// What `apply` returns, as a function of the state it starts from.
pub open spec fn spec_apply_outcome(
    jobs: Seq<Job>,
    cands: Seq<Candidate>,
    token: Token,
    candidate_id: Id,
    job_id: Id,
) -> Result<Id, ErrorVariant> {
    if !token_valid(token) {
        Err(ErrorVariant::Unauthorized)
    } else if !valid_job_id(jobs, job_id) {
        Err(ErrorVariant::NotFound)
    } else if jobs[job_id - 1].state != JobState::Open {
        Err(ErrorVariant::InvalidState)
    } else if !valid_candidate_id(cands, candidate_id) {
        Err(ErrorVariant::NotFound)
    } else if jobs[job_id - 1].apps().contains_key(cands[candidate_id - 1].user@) {
        Err(ErrorVariant::Conflict)
    } else {
        Ok(candidate_id)
    }
}

/// What `interview` and `reject` return, as a function of the state they
/// start from.
pub open spec fn spec_advance_outcome(
    jobs: Seq<Job>,
    cands: Seq<Candidate>,
    user: Seq<char>,
    job_id: Id,
) -> Result<(), ErrorVariant> {
    if !valid_job_id(jobs, job_id) {
        Err(ErrorVariant::NotFound)
    } else if jobs[job_id - 1].state != JobState::Open {
        Err(ErrorVariant::InvalidState)
    } else if !has_user(cands, user) {
        Err(ErrorVariant::NotFound)
    } else if !jobs[job_id - 1].apps().contains_key(user) {
        Err(ErrorVariant::NotFound)
    } else {
        Ok(())
    }
}

/// What `approve` returns: as `interview`, except that the candidate is
/// looked up first and a transition that would not land in `Approved` is
/// refused.
pub open spec fn spec_approve_outcome(
    jobs: Seq<Job>,
    cands: Seq<Candidate>,
    user: Seq<char>,
    job_id: Id,
) -> Result<(), ErrorVariant> {
    if !has_user(cands, user) {
        Err(ErrorVariant::NotFound)
    } else if !valid_job_id(jobs, job_id) {
        Err(ErrorVariant::NotFound)
    } else if jobs[job_id - 1].state != JobState::Open {
        Err(ErrorVariant::InvalidState)
    } else if !jobs[job_id - 1].apps().contains_key(user) {
        Err(ErrorVariant::NotFound)
    } else if !(jobs[job_id - 1].apps()[user].spec_step(Event::Approve) is Approved) {
        Err(ErrorVariant::InvalidState)
    } else {
        Ok(())
    }
}

/// At most one candidacy exists per (job, candidate) pair: two applicant
/// entries of one stored job that carry the same username are the same
/// entry.
pub proof fn lemma_at_most_one_candidacy(s: System, job_id: Id, i: int, j: int)
    requires
        s.wf(),
        valid_job_id(s.jobs_view(), job_id),
        0 <= i < s.jobs_view()[job_id - 1].applicants@.len(),
        0 <= j < s.jobs_view()[job_id - 1].applicants@.len(),
        s.jobs_view()[job_id - 1].applicants@[i].0@ == s.jobs_view()[job_id - 1].applicants@[j].0@,
    ensures
        i == j,
{
    let applicants = s.jobs_view()[job_id - 1].applicants@;
    assert(s.jobs_view()[job_id - 1].wf());
    if i < j {
        assert(applicants[i].0@ != applicants[j].0@);
    } else if j < i {
        assert(applicants[j].0@ != applicants[i].0@);
    }
}

/// The recruitment workflow engine over an in-memory store.
pub struct System {
    jobs: Vec<Job>,
    candidates: Vec<Candidate>,
}

impl System {
    /// The stored postings, in order of creation.
    pub closed spec fn jobs_view(self) -> Seq<Job> {
        self.jobs@
    }

    /// The registered candidates, in order of registration.
    pub closed spec fn candidates_view(self) -> Seq<Candidate> {
        self.candidates@
    }

    /// The structural invariant: identifiers are positions shifted by one,
    /// job names and usernames are unique, each job's applicant list is
    /// well formed, and the stores have room to assign the next identifier.
    pub open spec fn wf(self) -> bool {
        &&& self.jobs_view().len() <= MAX_RECORDS
        &&& self.candidates_view().len() <= MAX_RECORDS
        &&& forall|i: int|
            #![trigger self.jobs_view()[i]]
            0 <= i < self.jobs_view().len() ==> self.jobs_view()[i].id == i + 1
                && self.jobs_view()[i].wf()
        &&& forall|i: int|
            #![trigger self.candidates_view()[i]]
            0 <= i < self.candidates_view().len() ==> self.candidates_view()[i].id == i + 1
        &&& forall|i: int, j: int|
            0 <= i < j < self.candidates_view().len() ==> self.candidates_view()[i].user@
                != self.candidates_view()[j].user@
        &&& forall|i: int, j: int|
            0 <= i < j < self.jobs_view().len() ==> self.jobs_view()[i].name@
                != self.jobs_view()[j].name@
    }

    /// An engine with no postings and no candidates.
    pub fn new() -> (s: System)
        ensures
            s.wf(),
            s.jobs_view().len() == 0,
            s.candidates_view().len() == 0,
    {
        System { jobs: Vec::new(), candidates: Vec::new() }
    }

    /// The position of the job `job_id` denotes, if any.
    fn job_index(&self, job_id: Id) -> (r: Option<usize>)
        requires
            self.wf(),
        ensures
            r matches Some(i) ==> valid_job_id(self.jobs_view(), job_id) && i == job_id - 1,
            r is None ==> !valid_job_id(self.jobs_view(), job_id),
    {
        if 1 <= job_id && job_id <= self.jobs.len() as i64 {
            Some((job_id - 1) as usize)
        } else {
            None
        }
    }

    /// The position of the candidate registered under `user`, if any.
    fn find_candidate(&self, user: &String) -> (r: Option<usize>)
        ensures
            r matches Some(i) ==> i < self.candidates_view().len()
                && self.candidates_view()[i as int].user@ == user@,
            r is None ==> !has_user(self.candidates_view(), user@),
    {
        let mut i: usize = 0;
        while i < self.candidates.len()
            invariant
                i <= self.candidates_view().len(),
                forall|j: int| 0 <= j < i ==> self.candidates_view()[j].user@ != user@,
            decreases self.candidates_view().len() - i,
        {
            if self.candidates[i].user == *user {
                return Some(i);
            }
            i += 1;
        }
        None
    }

    /// All postings, in order of creation.
    pub fn list_jobs(&self) -> (r: &Vec<Job>)
        ensures
            r@ == self.jobs_view(),
    {
        &self.jobs
    }

    /// Create an open posting under a fresh identifier. Fails with
    /// [`ErrorVariant::Conflict`], and exactly then, when a posting of the
    /// same name exists; nothing changes on failure.
    pub fn create_job_posting(&mut self, name: String) -> (r: Result<Id, ErrorVariant>)
        requires
            old(self).wf(),
            old(self).jobs_view().len() < MAX_RECORDS,
        ensures
            final(self).wf(),
            final(self).candidates_view() == old(self).candidates_view(),
            jobs_monotone(old(self).jobs_view(), final(self).jobs_view()),
            r is Ok <==> !has_job_name(old(self).jobs_view(), name@),
            r is Err ==> r == Err::<Id, ErrorVariant>(ErrorVariant::Conflict) && *final(self)
                == *old(self),
            r matches Ok(id) ==> ({
                let jobs = final(self).jobs_view();
                &&& id == old(self).jobs_view().len() + 1
                &&& jobs.len() == old(self).jobs_view().len() + 1
                &&& forall|i: int|
                    0 <= i < old(self).jobs_view().len() ==> jobs[i] == old(self).jobs_view()[i]
                &&& jobs[jobs.len() - 1].id == id
                &&& jobs[jobs.len() - 1].name@ == name@
                &&& jobs[jobs.len() - 1].state == JobState::Open
                &&& jobs[jobs.len() - 1].apps() == Map::<Seq<char>, Candidacy>::empty()
            }),
    {
        let mut i: usize = 0;
        while i < self.jobs.len()
            invariant
                self.wf(),
                i <= self.jobs_view().len(),
                forall|j: int| 0 <= j < i ==> self.jobs_view()[j].name@ != name@,
            decreases self.jobs_view().len() - i,
        {
            if self.jobs[i].name == name {
                return Err(ErrorVariant::Conflict);
            }
            i += 1;
        }
        let id = (self.jobs.len() as i64) + 1;
        let mut job = Job::new(name);
        job.id = id;
        self.jobs.push(job);
        Ok(id)
    }

    /// The posting `id` denotes, as a copy carrying its applicants, or
    /// `None` exactly when no posting has that identifier.
    pub fn get_job_by_id(&self, id: &Id) -> (r: Option<Job>)
        requires
            self.wf(),
        ensures
            r is Some <==> valid_job_id(self.jobs_view(), *id),
            r matches Some(j) ==> ({
                let oj = self.jobs_view()[*id - 1];
                &&& j.id == oj.id
                &&& j.name@ == oj.name@
                &&& j.state == oj.state
                &&& j.apps() == oj.apps()
                &&& j.wf()
            }),
    {
        let idx = match self.job_index(*id) {
            None => { return None },
            Some(idx) => idx,
        };
        let source = &self.jobs[idx];
        let mut applicants: Vec<(String, Candidacy)> = Vec::new();
        let mut k: usize = 0;
        while k < source.applicants.len()
            invariant
                k <= source.applicants@.len(),
                applicants@.len() == k,
                forall|j: int|
                    #![trigger applicants@[j]]
                    0 <= j < k ==> applicants@[j].0@ == source.applicants@[j].0@ && applicants@[j].1
                        == source.applicants@[j].1,
            decreases source.applicants@.len() - k,
        {
            applicants.push((source.applicants[k].0.clone(), source.applicants[k].1));
            k += 1;
        }
        proof {
            assert(self.jobs_view()[idx as int].wf());
            lemma_app_congruent(applicants@, source.applicants@);
        }
        Some(Job { id: source.id, name: source.name.clone(), applicants, state: source.state })
    }

    /// Register a candidate under a fresh identifier. Fails with
    /// [`ErrorVariant::Conflict`], and exactly then, when the username is
    /// taken; the earlier registration is untouched either way.
    pub fn register_candidate(&mut self, user: String, password: String) -> (r: Result<
        Id,
        ErrorVariant,
    >)
        requires
            old(self).wf(),
            old(self).candidates_view().len() < MAX_RECORDS,
        ensures
            final(self).wf(),
            final(self).jobs_view() == old(self).jobs_view(),
            r is Ok <==> !has_user(old(self).candidates_view(), user@),
            r is Err ==> r == Err::<Id, ErrorVariant>(ErrorVariant::Conflict) && *final(self)
                == *old(self),
            r matches Ok(id) ==> ({
                let cands = final(self).candidates_view();
                &&& id == old(self).candidates_view().len() + 1
                &&& cands.len() == old(self).candidates_view().len() + 1
                &&& forall|i: int|
                    0 <= i < old(self).candidates_view().len() ==> cands[i] == old(
                        self,
                    ).candidates_view()[i]
                &&& cands[cands.len() - 1].id == id
                &&& cands[cands.len() - 1].user@ == user@
                &&& cands[cands.len() - 1].password@ == password@
            }),
    {
        if self.find_candidate(&user).is_some() {
            return Err(ErrorVariant::Conflict);
        }
        let id = (self.candidates.len() as i64) + 1;
        self.candidates.push(Candidate { id, user, password });
        Ok(id)
    }

    /// Authenticate. Succeeds exactly on a stored (username, credential)
    /// match; an absent user and a wrong credential are indistinguishable.
    /// Success mints the placeholder token.
    pub fn login(&self, user: &String, password: &String) -> (r: Option<LoggedUser>)
        requires
            self.wf(),
        ensures
            r matches Some(l) ==> ({
                &&& exists|i: int|
                    0 <= i < self.candidates_view().len() && (#[trigger] self.candidates_view()[i]).user@
                        == user@ && self.candidates_view()[i].password@ == password@
                        && l.user_id == self.candidates_view()[i].id
                &&& l.user@ == user@
                &&& token_valid(l.token)
            }),
            r is None <==> !exists|i: int|
                0 <= i < self.candidates_view().len() && (#[trigger] self.candidates_view()[i]).user@
                    == user@ && self.candidates_view()[i].password@ == password@,
    {
        let idx = match self.find_candidate(user) {
            None => { return None },
            Some(idx) => idx,
        };
        if self.candidates[idx].password == *password {
            Some(LoggedUser { user: user.clone(), user_id: self.candidates[idx].id, token: 0 })
        } else {
            proof {
                assert forall|i: int|
                    0 <= i < self.candidates_view().len() && self.candidates_view()[i].user@
                        == user@ implies i == idx by {
                    if i < idx as int {
                        assert(self.candidates_view()[i].user@ != self.candidates_view()[idx as int].user@);
                    } else if i > idx as int {
                        assert(self.candidates_view()[idx as int].user@
                            != self.candidates_view()[i].user@);
                    }
                }
            }
            None
        }
    }

    /// File a candidacy: the token must be valid, the job present and open,
    /// the candidate present, and the pair must not already hold a
    /// candidacy — a second application is refused with
    /// [`ErrorVariant::Conflict`] rather than overwritten. On success the
    /// candidacy starts in `Applied` and the candidate's identifier is
    /// returned; on failure nothing changes.
    pub fn apply(&mut self, user: &String, token: Token, candidate_id: Id, job_id: Id) -> (r:
        Result<Id, ErrorVariant>)
        requires
            old(self).wf(),
        ensures
            final(self).wf(),
            final(self).candidates_view() == old(self).candidates_view(),
            jobs_monotone(old(self).jobs_view(), final(self).jobs_view()),
            r == spec_apply_outcome(
                old(self).jobs_view(),
                old(self).candidates_view(),
                token,
                candidate_id,
                job_id,
            ),
            r is Err ==> *final(self) == *old(self),
            r is Ok ==> ({
                let before = old(self).jobs_view();
                let after = final(self).jobs_view();
                let oj = before[job_id - 1];
                let nj = after[job_id - 1];
                &&& after.len() == before.len()
                &&& forall|i: int| 0 <= i < before.len() && i != job_id - 1 ==> after[i] == before[i]
                &&& nj.id == oj.id
                &&& nj.name == oj.name
                &&& nj.state == oj.state
                &&& nj.apps() == oj.apps().insert(
                    old(self).candidates_view()[candidate_id - 1].user@,
                    Candidacy::Applied(AppliedApplication),
                )
            }),
    {
        if let Err(e) = check_token(token) {
            return Err(e);
        }
        let idx = match self.job_index(job_id) {
            None => { return Err(ErrorVariant::NotFound) },
            Some(idx) => idx,
        };
        if self.jobs[idx].state != JobState::Open {
            return Err(ErrorVariant::InvalidState);
        }
        if !(1 <= candidate_id && candidate_id <= self.candidates.len() as i64) {
            return Err(ErrorVariant::NotFound);
        }
        let cidx = (candidate_id - 1) as usize;
        let applicant_name = self.candidates[cidx].user.clone();
        proof {
            assert(self.jobs_view()[idx as int].wf());
        }
        if self.jobs[idx].applicant_state(&applicant_name).is_some() {
            return Err(ErrorVariant::Conflict);
        }
        let job = &mut self.jobs[idx];
        job.push_applicant(applicant_name, Candidacy::Applied(AppliedApplication));
        Ok(candidate_id)
    }

    /// Load the job and the candidacy that (`user`, `job_id`) denote, refuse
    /// a missing record or a job that is not open, and otherwise run one
    /// event through the candidacy's transition table (possibly a no-op).
    fn advance(&mut self, user: &String, job_id: Id, event: Event) -> (r: Result<(), ErrorVariant>)
        requires
            old(self).wf(),
        ensures
            final(self).wf(),
            final(self).candidates_view() == old(self).candidates_view(),
            jobs_monotone(old(self).jobs_view(), final(self).jobs_view()),
            r == spec_advance_outcome(
                old(self).jobs_view(),
                old(self).candidates_view(),
                user@,
                job_id,
            ),
            r is Err ==> *final(self) == *old(self),
            r is Ok ==> ({
                let before = old(self).jobs_view();
                let after = final(self).jobs_view();
                let oj = before[job_id - 1];
                let nj = after[job_id - 1];
                &&& after.len() == before.len()
                &&& forall|i: int| 0 <= i < before.len() && i != job_id - 1 ==> after[i] == before[i]
                &&& nj.id == oj.id
                &&& nj.name == oj.name
                &&& nj.state == oj.state
                &&& nj.apps() == oj.apps().insert(user@, oj.apps()[user@].spec_step(event))
            }),
    {
        let idx = match self.job_index(job_id) {
            None => { return Err(ErrorVariant::NotFound) },
            Some(idx) => idx,
        };
        if self.jobs[idx].state != JobState::Open {
            return Err(ErrorVariant::InvalidState);
        }
        if self.find_candidate(user).is_none() {
            return Err(ErrorVariant::NotFound);
        }
        proof {
            assert(self.jobs_view()[idx as int].wf());
        }
        let aidx = match self.jobs[idx].find_applicant_index(user) {
            None => { return Err(ErrorVariant::NotFound) },
            Some(a) => a,
        };
        let current = self.jobs[idx].applicants[aidx].1;
        proof {
            lemma_app_at(self.jobs_view()[idx as int].applicants@, aidx as int);
        }
        let next = current.step(event);
        let job = &mut self.jobs[idx];
        job.set_applicant(aidx, next);
        Ok(())
    }

    /// Move the candidacy `Applied -> Interviewed`; any other state is left
    /// as it is (still a success).
    pub fn interview(&mut self, user: String, job_id: Id) -> (r: Result<(), ErrorVariant>)
        requires
            old(self).wf(),
        ensures
            final(self).wf(),
            final(self).candidates_view() == old(self).candidates_view(),
            jobs_monotone(old(self).jobs_view(), final(self).jobs_view()),
            r == spec_advance_outcome(
                old(self).jobs_view(),
                old(self).candidates_view(),
                user@,
                job_id,
            ),
            r is Err ==> *final(self) == *old(self),
            r is Ok ==> ({
                let before = old(self).jobs_view();
                let after = final(self).jobs_view();
                let oj = before[job_id - 1];
                let nj = after[job_id - 1];
                &&& after.len() == before.len()
                &&& forall|i: int| 0 <= i < before.len() && i != job_id - 1 ==> after[i] == before[i]
                &&& nj.id == oj.id
                &&& nj.name == oj.name
                &&& nj.state == oj.state
                &&& nj.apps() == oj.apps().insert(
                    user@,
                    oj.apps()[user@].spec_step(Event::Interview),
                )
            }),
    {
        self.advance(&user, job_id, Event::Interview)
    }

    /// Move the candidacy `Interviewed -> Rejected`; any other state is left
    /// as it is (still a success — asymmetric with `approve`, which refuses
    /// a no-op).
    pub fn reject(&mut self, user: String, job_id: Id) -> (r: Result<(), ErrorVariant>)
        requires
            old(self).wf(),
        ensures
            final(self).wf(),
            final(self).candidates_view() == old(self).candidates_view(),
            jobs_monotone(old(self).jobs_view(), final(self).jobs_view()),
            r == spec_advance_outcome(
                old(self).jobs_view(),
                old(self).candidates_view(),
                user@,
                job_id,
            ),
            r is Err ==> *final(self) == *old(self),
            r is Ok ==> ({
                let before = old(self).jobs_view();
                let after = final(self).jobs_view();
                let oj = before[job_id - 1];
                let nj = after[job_id - 1];
                &&& after.len() == before.len()
                &&& forall|i: int| 0 <= i < before.len() && i != job_id - 1 ==> after[i] == before[i]
                &&& nj.id == oj.id
                &&& nj.name == oj.name
                &&& nj.state == oj.state
                &&& nj.apps() == oj.apps().insert(user@, oj.apps()[user@].spec_step(Event::Reject))
            }),
    {
        self.advance(&user, job_id, Event::Reject)
    }

    /// Move the candidacy `Interviewed -> Approved` and close the posting.
    /// A candidacy from which `approve` would be a no-op short of `Approved`
    /// is refused with [`ErrorVariant::InvalidState`] and nothing changes.
    /// Success closes the job, so every later action on it is refused.
    pub fn approve(&mut self, user: String, job_id: Id) -> (r: Result<(), ErrorVariant>)
        requires
            old(self).wf(),
        ensures
            final(self).wf(),
            final(self).candidates_view() == old(self).candidates_view(),
            jobs_monotone(old(self).jobs_view(), final(self).jobs_view()),
            r == spec_approve_outcome(
                old(self).jobs_view(),
                old(self).candidates_view(),
                user@,
                job_id,
            ),
            r is Err ==> *final(self) == *old(self),
            r is Ok ==> ({
                let before = old(self).jobs_view();
                let after = final(self).jobs_view();
                let oj = before[job_id - 1];
                let nj = after[job_id - 1];
                &&& after.len() == before.len()
                &&& forall|i: int| 0 <= i < before.len() && i != job_id - 1 ==> after[i] == before[i]
                &&& nj.id == oj.id
                &&& nj.name == oj.name
                &&& nj.state == JobState::Closed
                &&& nj.apps() == oj.apps().insert(
                    user@,
                    Candidacy::Approved(crate::candidacy::ApprovedApplication),
                )
            }),
    {
        if self.find_candidate(&user).is_none() {
            return Err(ErrorVariant::NotFound);
        }
        let idx = match self.job_index(job_id) {
            None => { return Err(ErrorVariant::NotFound) },
            Some(idx) => idx,
        };
        if self.jobs[idx].state != JobState::Open {
            return Err(ErrorVariant::InvalidState);
        }
        proof {
            assert(self.jobs_view()[idx as int].wf());
        }
        let aidx = match self.jobs[idx].find_applicant_index(&user) {
            None => { return Err(ErrorVariant::NotFound) },
            Some(a) => a,
        };
        let current = self.jobs[idx].applicants[aidx].1;
        proof {
            lemma_app_at(self.jobs_view()[idx as int].applicants@, aidx as int);
        }
        let next = current.approve();
        if !matches!(next, Candidacy::Approved(_)) {
            return Err(ErrorVariant::InvalidState);
        }
        let job = &mut self.jobs[idx];
        job.set_applicant(aidx, next);
        job.close();
        Ok(())
    }
}

} // verus!
