//! The workflow engine over the durable store.
//!
//! [`HRSystem`] enforces the same recruitment rules as the in-memory
//! engine, but reads and writes every record through the SQLite-backed
//! [storage port](crate::db). Its contracts are stated over the three table
//! views of the store; since the store itself can fail, each operation
//! either behaves exactly as the rules say or reports
//! [`ErrorVariant::StorageFailure`].

use vstd::prelude::*;

use crate::candidacy::Candidacy;
use crate::candidacy::Event;
use crate::db::DbStore;
use crate::jobs::app_has;
use crate::jobs::app_map;
use crate::jobs::app_names_unique;
use crate::jobs::check_token;
use crate::jobs::lemma_app_at;
use crate::jobs::token_valid;
use crate::jobs::ErrorVariant;
use crate::jobs::Id;
use crate::jobs::Job;
use crate::jobs::JobState;
use crate::jobs::LoggedUser;
use crate::jobs::Token;

verus! {

/// The job under `job_id` exists and reads as `Open`.
pub open spec fn db_job_open(jobs: Map<int, (Seq<char>, u8)>, job_id: int) -> bool {
    jobs.contains_key(job_id) && JobState::spec_from_u8(jobs[job_id].1) == JobState::Open
}

/// Job rows only ever advance: every stored posting keeps its name, and its
/// state either stays or moves `Open -> Closed`; none reopens.
pub open spec fn db_jobs_monotone(
    before: Map<int, (Seq<char>, u8)>,
    after: Map<int, (Seq<char>, u8)>,
) -> bool {
    forall|k: int|
        before.contains_key(k) ==> after.contains_key(k) && (#[trigger] after[k]).0 == before[k].0
            && (JobState::spec_from_u8(after[k].1) == JobState::spec_from_u8(before[k].1) || (
            JobState::spec_from_u8(before[k].1) == JobState::Open && JobState::spec_from_u8(
                after[k].1,
            ) == JobState::Closed))
}

/// The applicants of one job, as the join of the applications table with
/// the candidates table reads them: username to decoded candidacy state.
pub open spec fn job_applicants_view(
    cands: Map<Seq<char>, (int, Seq<char>)>,
    apps: Map<(int, int), u8>,
    job_id: int,
) -> Map<Seq<char>, Candidacy> {
    Map::new(
        |u: Seq<char>| cands.contains_key(u) && apps.contains_key((job_id, cands[u].0)),
        |u: Seq<char>| Candidacy::spec_from_u8(apps[(job_id, cands[u].0)]),
    )
}

/// An applicant list built from join rows reads as the join view itself.
proof fn lemma_applicants_match_join(
    list: Seq<(String, Candidacy)>,
    rows: Seq<(String, u8)>,
    cands: Map<Seq<char>, (int, Seq<char>)>,
    apps: Map<(int, int), u8>,
    job_id: int,
)
    requires
        list.len() == rows.len(),
        forall|i: int|
            #![trigger list[i]]
            0 <= i < list.len() ==> list[i].0@ == rows[i].0@ && list[i].1 == Candidacy::spec_from_u8(
                rows[i].1,
            ),
        forall|i: int|
            #![trigger rows[i]]
            0 <= i < rows.len() ==> cands.contains_key(rows[i].0@) && apps.contains_key(
                (job_id, cands[rows[i].0@].0),
            ) && rows[i].1 == apps[(job_id, cands[rows[i].0@].0)],
        forall|u: Seq<char>|
            cands.contains_key(u) && apps.contains_key((job_id, (#[trigger] cands[u]).0))
                ==> exists|i: int| 0 <= i < rows.len() && (#[trigger] rows[i]).0@ == u,
        forall|i: int, j: int| 0 <= i < j < rows.len() ==> rows[i].0@ != rows[j].0@,
    ensures
        app_names_unique(list),
        app_map(list) == job_applicants_view(cands, apps, job_id),
{
    assert forall|i: int, j: int| 0 <= i < j < list.len() implies list[i].0@ != list[j].0@ by {
        assert(list[i].0@ == rows[i].0@ && list[j].0@ == rows[j].0@);
    }
    let view = job_applicants_view(cands, apps, job_id);
    assert forall|u: Seq<char>| app_has(list, u) <==> view.contains_key(u) by {
        if app_has(list, u) {
            let i = choose|i: int| 0 <= i < list.len() && list[i].0@ == u;
            assert(rows[i].0@ == u);
        }
        if view.contains_key(u) {
            let i = choose|i: int| 0 <= i < rows.len() && rows[i].0@ == u;
            assert(list[i].0@ == u);
            assert(app_has(list, u));
        }
    }
    assert forall|u: Seq<char>| app_map(list).contains_key(u) implies app_map(list)[u] == view[u] by {
        let i = choose|i: int| 0 <= i < list.len() && list[i].0@ == u;
        lemma_app_at(list, i);
        assert(rows[i].0@ == u);
    }
    assert(app_map(list) =~= view);
}

/// The workflow engine over the durable store.
pub struct HRSystem {
    store: DbStore,
}

impl HRSystem {
    /// The jobs table: identifier to (name, lifecycle state code).
    pub closed spec fn jobs(self) -> Map<int, (Seq<char>, u8)> {
        self.store.jobs()
    }

    /// The candidates table: username to (identifier, credential).
    pub closed spec fn candidates(self) -> Map<Seq<char>, (int, Seq<char>)> {
        self.store.candidates()
    }

    /// The applications table: (job, candidate) pair to candidacy state
    /// code.
    pub closed spec fn applications(self) -> Map<(int, int), u8> {
        self.store.applications()
    }

    /// An engine over the durable database file; whatever the file already
    /// holds stays.
    pub fn new() -> (r: Result<HRSystem, ErrorVariant>)
        ensures
            r matches Err(e) ==> e == ErrorVariant::StorageFailure,
    {
        match DbStore::new_file("hr_store.db") {
            Ok(store) => Ok(HRSystem { store }),
            Err(_) => Err(ErrorVariant::StorageFailure),
        }
    }

    /// An engine over a fresh, empty in-memory database.
    pub fn new_in_memory() -> (r: Result<HRSystem, ErrorVariant>)
        ensures
            r matches Ok(s) ==> s.jobs().is_empty() && s.candidates().is_empty()
                && s.applications().is_empty(),
            r matches Err(e) ==> e == ErrorVariant::StorageFailure,
    {
        match DbStore::new_in_memory() {
            Ok(store) => Ok(HRSystem { store }),
            Err(_) => Err(ErrorVariant::StorageFailure),
        }
    }

    /// Create an open posting under a fresh identifier; a posting whose name
    /// is taken is refused with [`ErrorVariant::Conflict`]. On any failure
    /// the tables are unchanged.
    pub fn create_job_posting(&mut self, name: String) -> (r: Result<Id, ErrorVariant>)
        ensures
            db_jobs_monotone(old(self).jobs(), final(self).jobs()),
            final(self).candidates() == old(self).candidates(),
            final(self).applications() == old(self).applications(),
            r matches Ok(id) ==> !old(self).jobs().contains_key(id as int) && (forall|k: int|
                old(self).jobs().contains_key(k) ==> (#[trigger] old(self).jobs()[k]).0 != name@)
                && final(self).jobs() == old(self).jobs().insert(
                id as int,
                (name@, JobState::Open.spec_as_u8()),
            ),
            r is Err ==> final(self).jobs() == old(self).jobs(),
            r matches Err(e) ==> (e == ErrorVariant::Conflict || e == ErrorVariant::StorageFailure),
            r matches Err(e) ==> (e == ErrorVariant::Conflict ==> exists|k: int|
                old(self).jobs().contains_key(k) && (#[trigger] old(self).jobs()[k]).0 == name@),
    {
        match self.store.add_job(&name, JobState::Open.as_u8()) {
            Ok(id) => Ok(id),
            Err(e) => Err(
                match e {
                    crate::db::StoreError::Conflict => ErrorVariant::Conflict,
                    crate::db::StoreError::Failure => ErrorVariant::StorageFailure,
                },
            ),
        }
    }

    /// The posting `id` denotes, without its applicants, or `None` when no
    /// posting has that identifier or the store failed to answer.
    pub fn get_job_by_id(&self, id: &Id) -> (r: Option<Job>)
        ensures
            r matches Some(j) ==> self.jobs().contains_key(*id as int) && j.id == *id && j.name@
                == self.jobs()[*id as int].0 && j.state == JobState::spec_from_u8(
                self.jobs()[*id as int].1,
            ) && j.applicants@.len() == 0,
            !self.jobs().contains_key(*id as int) ==> r is None,
    {
        match self.store.get_job(*id) {
            Ok(Some((name, code))) => Some(
                Job { id: *id, name, applicants: Vec::new(), state: JobState::from_u8(code) },
            ),
            _ => None,
        }
    }

    /// Register a candidate under a fresh identifier; a taken username is
    /// refused with [`ErrorVariant::Conflict`] and the earlier registration
    /// is untouched.
    pub fn register_candidate(&mut self, user: String, password: String) -> (r: Result<
        Id,
        ErrorVariant,
    >)
        ensures
            final(self).jobs() == old(self).jobs(),
            final(self).applications() == old(self).applications(),
            r matches Ok(id) ==> !old(self).candidates().contains_key(user@) && (forall|
                u: Seq<char>,
            |
                old(self).candidates().contains_key(u) ==> (#[trigger] old(self).candidates()[u]).0
                    != id as int) && final(self).candidates() == old(self).candidates().insert(
                user@,
                (id as int, password@),
            ),
            r is Err ==> final(self).candidates() == old(self).candidates(),
            r matches Err(e) ==> (e == ErrorVariant::Conflict || e == ErrorVariant::StorageFailure),
            r matches Err(e) ==> (e == ErrorVariant::Conflict ==> old(
                self,
            ).candidates().contains_key(user@)),
            old(self).candidates().contains_key(user@) ==> r is Err,
    {
        match self.store.get_candidate(&user) {
            Err(_) => { return Err(ErrorVariant::StorageFailure) },
            Ok(Some(_)) => { return Err(ErrorVariant::Conflict) },
            Ok(None) => {},
        }
        match self.store.add_candidate(&user, &password) {
            Ok(id) => Ok(id),
            Err(_) => Err(ErrorVariant::StorageFailure),
        }
    }

    /// Authenticate against the stored credential; success mints the
    /// placeholder token. A missing user and a credential mismatch are
    /// indistinguishable, and a store failure reads as a failed login.
    pub fn login(&self, user: &String, password: &String) -> (r: Option<LoggedUser>)
        ensures
            r matches Some(l) ==> self.candidates().contains_key(user@) && self.candidates()[user@]
                == (l.user_id as int, password@) && l.user@ == user@ && token_valid(l.token),
            !self.candidates().contains_key(user@) ==> r is None,
            self.candidates().contains_key(user@) && self.candidates()[user@].1 != password@
                ==> r is None,
    {
        match self.store.get_candidate(user) {
            Ok(Some((id, stored))) => {
                if stored == *password {
                    Some(LoggedUser { user: user.clone(), user_id: id, token: 0 })
                } else {
                    None
                }
            },
            _ => None,
        }
    }

    /// File a candidacy: the token must be valid, the job present and open,
    /// and the pair must not already hold a candidacy — a second application
    /// is refused with [`ErrorVariant::Conflict`] rather than overwritten.
    /// On success the candidacy starts in `Applied`.
    pub fn apply(&mut self, user: &String, token: Token, candidate_id: Id, job_id: Id) -> (r:
        Result<Id, ErrorVariant>)
        ensures
            db_jobs_monotone(old(self).jobs(), final(self).jobs()),
            final(self).jobs() == old(self).jobs(),
            final(self).candidates() == old(self).candidates(),
            r is Err ==> final(self).applications() == old(self).applications(),
            r matches Ok(rid) ==> rid == candidate_id && token_valid(token) && db_job_open(
                old(self).jobs(),
                job_id as int,
            ) && !old(self).applications().contains_key((job_id as int, candidate_id as int))
                && final(self).applications() == old(self).applications().insert(
                (job_id as int, candidate_id as int),
                Candidacy::Applied(crate::candidacy::AppliedApplication).spec_as_u8(),
            ),
            r == Err::<Id, ErrorVariant>(ErrorVariant::Unauthorized) <==> !token_valid(token),
            r matches Err(e) ==> (e == ErrorVariant::Unauthorized || e == ErrorVariant::NotFound
                || e == ErrorVariant::InvalidState || e == ErrorVariant::Conflict || e
                == ErrorVariant::StorageFailure),
            r matches Err(e) ==> (e == ErrorVariant::NotFound ==> !old(self).jobs().contains_key(
                job_id as int,
            )),
            r matches Err(e) ==> (e == ErrorVariant::InvalidState ==> old(
                self,
            ).jobs().contains_key(job_id as int) && !db_job_open(old(self).jobs(), job_id as int)),
            r matches Err(e) ==> (e == ErrorVariant::Conflict ==> db_job_open(
                old(self).jobs(),
                job_id as int,
            ) && old(self).applications().contains_key((job_id as int, candidate_id as int))),
    {
        if let Err(e) = check_token(token) {
            return Err(e);
        }
        let code = match self.store.get_job(job_id) {
            Err(_) => { return Err(ErrorVariant::StorageFailure) },
            Ok(None) => { return Err(ErrorVariant::NotFound) },
            Ok(Some((_name, code))) => code,
        };
        if JobState::from_u8(code) != JobState::Open {
            return Err(ErrorVariant::InvalidState);
        }
        match self.store.get_application(job_id, candidate_id) {
            Err(_) => { return Err(ErrorVariant::StorageFailure) },
            Ok(Some(_)) => { return Err(ErrorVariant::Conflict) },
            Ok(None) => {},
        }
        let fresh = Candidacy::Applied(crate::candidacy::AppliedApplication);
        match self.store.insert_application(job_id, candidate_id, fresh.as_u8()) {
            Ok(()) => Ok(candidate_id),
            Err(crate::db::StoreError::Conflict) => Err(ErrorVariant::Conflict),
            Err(crate::db::StoreError::Failure) => Err(ErrorVariant::StorageFailure),
        }
    }

    /// Load job, candidate and candidacy, refuse a missing record or a job
    /// that is not open, and otherwise run one event through the candidacy's
    /// transition table (possibly a no-op).
    fn advance(&mut self, user: &String, job_id: Id, event: Event) -> (r: Result<
        (),
        ErrorVariant,
    >)
        ensures
            db_jobs_monotone(old(self).jobs(), final(self).jobs()),
            final(self).jobs() == old(self).jobs(),
            final(self).candidates() == old(self).candidates(),
            r is Err ==> final(self).applications() == old(self).applications(),
            r is Ok ==> db_job_open(old(self).jobs(), job_id as int) && old(
                self,
            ).candidates().contains_key(user@) && old(self).applications().contains_key(
                (job_id as int, old(self).candidates()[user@].0),
            ) && final(self).applications() == old(self).applications().insert(
                (job_id as int, old(self).candidates()[user@].0),
                Candidacy::spec_from_u8(
                    old(self).applications()[(job_id as int, old(self).candidates()[user@].0)],
                ).spec_step(event).spec_as_u8(),
            ),
            r matches Err(e) ==> (e == ErrorVariant::NotFound || e == ErrorVariant::InvalidState
                || e == ErrorVariant::StorageFailure),
            r matches Err(e) ==> (e == ErrorVariant::NotFound ==> !old(self).jobs().contains_key(
                job_id as int,
            ) || (db_job_open(old(self).jobs(), job_id as int) && !old(
                self,
            ).candidates().contains_key(user@)) || (db_job_open(old(self).jobs(), job_id as int)
                && old(self).candidates().contains_key(user@) && !old(
                self,
            ).applications().contains_key((job_id as int, old(self).candidates()[user@].0)))),
            r matches Err(e) ==> (e == ErrorVariant::InvalidState ==> old(
                self,
            ).jobs().contains_key(job_id as int) && !db_job_open(old(self).jobs(), job_id as int)),
    {
        let code = match self.store.get_job(job_id) {
            Err(_) => { return Err(ErrorVariant::StorageFailure) },
            Ok(None) => { return Err(ErrorVariant::NotFound) },
            Ok(Some((_name, code))) => code,
        };
        if JobState::from_u8(code) != JobState::Open {
            return Err(ErrorVariant::InvalidState);
        }
        let cid = match self.store.get_candidate(user) {
            Err(_) => { return Err(ErrorVariant::StorageFailure) },
            Ok(None) => { return Err(ErrorVariant::NotFound) },
            Ok(Some((cid, _password))) => cid,
        };
        let app_code = match self.store.get_application(job_id, cid) {
            Err(_) => { return Err(ErrorVariant::StorageFailure) },
            Ok(None) => { return Err(ErrorVariant::NotFound) },
            Ok(Some(code)) => code,
        };
        let next = Candidacy::from_u8(app_code).step(event);
        match self.store.update_application(job_id, cid, next.as_u8()) {
            Ok(()) => Ok(()),
            Err(_) => Err(ErrorVariant::StorageFailure),
        }
    }

    /// Move the candidacy `Applied -> Interviewed`; any other state is left
    /// as it is (still a success).
    pub fn interview(&mut self, user: String, job_id: Id) -> (r: Result<(), ErrorVariant>)
        ensures
            db_jobs_monotone(old(self).jobs(), final(self).jobs()),
            final(self).jobs() == old(self).jobs(),
            final(self).candidates() == old(self).candidates(),
            r is Err ==> final(self).applications() == old(self).applications(),
            r is Ok ==> db_job_open(old(self).jobs(), job_id as int) && old(
                self,
            ).candidates().contains_key(user@) && old(self).applications().contains_key(
                (job_id as int, old(self).candidates()[user@].0),
            ) && final(self).applications() == old(self).applications().insert(
                (job_id as int, old(self).candidates()[user@].0),
                Candidacy::spec_from_u8(
                    old(self).applications()[(job_id as int, old(self).candidates()[user@].0)],
                ).spec_step(Event::Interview).spec_as_u8(),
            ),
            r matches Err(e) ==> (e == ErrorVariant::NotFound || e == ErrorVariant::InvalidState
                || e == ErrorVariant::StorageFailure),
            r matches Err(e) ==> (e == ErrorVariant::NotFound ==> !old(self).jobs().contains_key(
                job_id as int,
            ) || (db_job_open(old(self).jobs(), job_id as int) && !old(
                self,
            ).candidates().contains_key(user@)) || (db_job_open(old(self).jobs(), job_id as int)
                && old(self).candidates().contains_key(user@) && !old(
                self,
            ).applications().contains_key((job_id as int, old(self).candidates()[user@].0)))),
            r matches Err(e) ==> (e == ErrorVariant::InvalidState ==> old(
                self,
            ).jobs().contains_key(job_id as int) && !db_job_open(old(self).jobs(), job_id as int)),
    {
        self.advance(&user, job_id, Event::Interview)
    }

    /// Move the candidacy `Interviewed -> Rejected`; any other state is left
    /// as it is (still a success — asymmetric with `approve`, which refuses
    /// a no-op).
    pub fn reject(&mut self, user: String, job_id: Id) -> (r: Result<(), ErrorVariant>)
        ensures
            db_jobs_monotone(old(self).jobs(), final(self).jobs()),
            final(self).jobs() == old(self).jobs(),
            final(self).candidates() == old(self).candidates(),
            r is Err ==> final(self).applications() == old(self).applications(),
            r is Ok ==> db_job_open(old(self).jobs(), job_id as int) && old(
                self,
            ).candidates().contains_key(user@) && old(self).applications().contains_key(
                (job_id as int, old(self).candidates()[user@].0),
            ) && final(self).applications() == old(self).applications().insert(
                (job_id as int, old(self).candidates()[user@].0),
                Candidacy::spec_from_u8(
                    old(self).applications()[(job_id as int, old(self).candidates()[user@].0)],
                ).spec_step(Event::Reject).spec_as_u8(),
            ),
            r matches Err(e) ==> (e == ErrorVariant::NotFound || e == ErrorVariant::InvalidState
                || e == ErrorVariant::StorageFailure),
            r matches Err(e) ==> (e == ErrorVariant::NotFound ==> !old(self).jobs().contains_key(
                job_id as int,
            ) || (db_job_open(old(self).jobs(), job_id as int) && !old(
                self,
            ).candidates().contains_key(user@)) || (db_job_open(old(self).jobs(), job_id as int)
                && old(self).candidates().contains_key(user@) && !old(
                self,
            ).applications().contains_key((job_id as int, old(self).candidates()[user@].0)))),
            r matches Err(e) ==> (e == ErrorVariant::InvalidState ==> old(
                self,
            ).jobs().contains_key(job_id as int) && !db_job_open(old(self).jobs(), job_id as int)),
    {
        self.advance(&user, job_id, Event::Reject)
    }

    /// Move the candidacy `Interviewed -> Approved` and close the posting.
    /// A candidacy from which `approve` would be a no-op short of `Approved`
    /// is refused with [`ErrorVariant::InvalidState`] and nothing changes.
    /// If the store fails between the two writes, the candidacy may read
    /// `Approved` while the job is still open; the contract says so.
    pub fn approve(&mut self, user: String, job_id: Id) -> (r: Result<(), ErrorVariant>)
        ensures
            db_jobs_monotone(old(self).jobs(), final(self).jobs()),
            final(self).candidates() == old(self).candidates(),
            r is Ok ==> old(self).candidates().contains_key(user@) && db_job_open(
                old(self).jobs(),
                job_id as int,
            ) && old(self).applications().contains_key(
                (job_id as int, old(self).candidates()[user@].0),
            ) && Candidacy::spec_from_u8(
                old(self).applications()[(job_id as int, old(self).candidates()[user@].0)],
            ).spec_step(Event::Approve) is Approved && final(self).applications() == old(
                self,
            ).applications().insert(
                (job_id as int, old(self).candidates()[user@].0),
                Candidacy::Approved(crate::candidacy::ApprovedApplication).spec_as_u8(),
            ) && final(self).jobs() == old(self).jobs().insert(
                job_id as int,
                (old(self).jobs()[job_id as int].0, JobState::Closed.spec_as_u8()),
            ),
            r matches Err(e) ==> (e == ErrorVariant::NotFound || e == ErrorVariant::InvalidState
                || e == ErrorVariant::StorageFailure),
            r matches Err(e) ==> (e == ErrorVariant::NotFound ==> !old(
                self,
            ).candidates().contains_key(user@) || !old(self).jobs().contains_key(job_id as int)
                || (db_job_open(old(self).jobs(), job_id as int) && !old(
                self,
            ).applications().contains_key((job_id as int, old(self).candidates()[user@].0)))),
            r matches Err(e) ==> (e == ErrorVariant::InvalidState ==> (old(
                self,
            ).jobs().contains_key(job_id as int) && !db_job_open(old(self).jobs(), job_id as int))
                || (old(self).applications().contains_key(
                (job_id as int, old(self).candidates()[user@].0),
            ) && !(Candidacy::spec_from_u8(
                old(self).applications()[(job_id as int, old(self).candidates()[user@].0)],
            ).spec_step(Event::Approve) is Approved))),
            r matches Err(e) ==> (e != ErrorVariant::StorageFailure ==> final(self).jobs() == old(
                self,
            ).jobs() && final(self).applications() == old(self).applications()),
            r matches Err(e) ==> (e == ErrorVariant::StorageFailure ==> final(self).jobs() == old(
                self,
            ).jobs() && (final(self).applications() == old(self).applications()
                || final(self).applications() == old(self).applications().insert(
                (job_id as int, old(self).candidates()[user@].0),
                Candidacy::Approved(crate::candidacy::ApprovedApplication).spec_as_u8(),
            ))),
    {
        let cid = match self.store.get_candidate(&user) {
            Err(_) => { return Err(ErrorVariant::StorageFailure) },
            Ok(None) => { return Err(ErrorVariant::NotFound) },
            Ok(Some((cid, _password))) => cid,
        };
        let code = match self.store.get_job(job_id) {
            Err(_) => { return Err(ErrorVariant::StorageFailure) },
            Ok(None) => { return Err(ErrorVariant::NotFound) },
            Ok(Some((_name, code))) => code,
        };
        if JobState::from_u8(code) != JobState::Open {
            return Err(ErrorVariant::InvalidState);
        }
        let app_code = match self.store.get_application(job_id, cid) {
            Err(_) => { return Err(ErrorVariant::StorageFailure) },
            Ok(None) => { return Err(ErrorVariant::NotFound) },
            Ok(Some(code)) => code,
        };
        let next = Candidacy::from_u8(app_code).approve();
        if !matches!(next, Candidacy::Approved(_)) {
            return Err(ErrorVariant::InvalidState);
        }
        if self.store.update_application(job_id, cid, next.as_u8()).is_err() {
            return Err(ErrorVariant::StorageFailure);
        }
        if self.store.update_job_state(job_id, JobState::Closed.as_u8()).is_err() {
            return Err(ErrorVariant::StorageFailure);
        }
        Ok(())
    }

    /// All postings with their applicants, assembled from the jobs table
    /// and, for each job, the join of applications with candidates.
    pub fn list_jobs(&self) -> (r: Result<Vec<Job>, ErrorVariant>)
        ensures
            r matches Err(e) ==> e == ErrorVariant::StorageFailure,
            r matches Ok(v) ==> (forall|i: int|
                #![trigger v@[i]]
                0 <= i < v@.len() ==> self.jobs().contains_key(v@[i].id as int) && v@[i].name@
                    == self.jobs()[v@[i].id as int].0 && v@[i].state == JobState::spec_from_u8(
                    self.jobs()[v@[i].id as int].1,
                ) && v@[i].wf() && v@[i].apps() == job_applicants_view(
                    self.candidates(),
                    self.applications(),
                    v@[i].id as int,
                )) && (forall|k: int|
                self.jobs().contains_key(k) ==> exists|i: int|
                    0 <= i < v@.len() && (#[trigger] v@[i]).id == k) && (forall|i: int, j: int|
                0 <= i < j < v@.len() ==> v@[i].id != v@[j].id),
    {
        let rows = match self.store.list_job_rows() {
            Err(_) => { return Err(ErrorVariant::StorageFailure) },
            Ok(rows) => rows,
        };
        let mut out: Vec<Job> = Vec::new();
        let mut i: usize = 0;
        while i < rows.len()
            invariant
                i <= rows@.len(),
                out@.len() == i,
                forall|k: int|
                    #![trigger rows@[k]]
                    0 <= k < rows@.len() ==> self.jobs().contains_key(rows@[k].0 as int)
                        && self.jobs()[rows@[k].0 as int] == (rows@[k].1@, rows@[k].2),
                forall|a: int, b: int| 0 <= a < b < rows@.len() ==> rows@[a].0 != rows@[b].0,
                forall|k: int|
                    #![trigger out@[k]]
                    0 <= k < i ==> out@[k].id == rows@[k].0 && out@[k].name@ == self.jobs()[rows@[k].0 as int].0
                        && out@[k].state == JobState::spec_from_u8(self.jobs()[rows@[k].0 as int].1)
                        && out@[k].wf() && out@[k].apps() == job_applicants_view(
                        self.candidates(),
                        self.applications(),
                        rows@[k].0 as int,
                    ),
            decreases rows@.len() - i,
        {
            let job_id = rows[i].0;
            let applicant_rows = match self.store.list_applicants(job_id) {
                Err(_) => { return Err(ErrorVariant::StorageFailure) },
                Ok(a) => a,
            };
            let mut applicants: Vec<(String, Candidacy)> = Vec::new();
            let mut k: usize = 0;
            while k < applicant_rows.len()
                invariant
                    k <= applicant_rows@.len(),
                    applicants@.len() == k,
                    forall|a: int|
                        #![trigger applicants@[a]]
                        0 <= a < k ==> applicants@[a].0@ == applicant_rows@[a].0@ && applicants@[a].1
                            == Candidacy::spec_from_u8(applicant_rows@[a].1),
                decreases applicant_rows@.len() - k,
            {
                applicants.push(
                    (applicant_rows[k].0.clone(), Candidacy::from_u8(applicant_rows[k].1)),
                );
                k += 1;
            }
            proof {
                lemma_applicants_match_join(
                    applicants@,
                    applicant_rows@,
                    self.candidates(),
                    self.applications(),
                    job_id as int,
                );
            }
            let name = rows[i].1.clone();
            let state = JobState::from_u8(rows[i].2);
            out.push(Job { id: job_id, name, applicants, state });
            i += 1;
        }
        proof {
            assert forall|k: int| self.jobs().contains_key(k) implies exists|i: int|
                0 <= i < out@.len() && (#[trigger] out@[i]).id == k by {
                let i = choose|i: int| 0 <= i < rows@.len() && (#[trigger] rows@[i]).0 == k;
                assert(out@[i].id == k);
            }
        }
        Ok(out)
    }
}

} // verus!
