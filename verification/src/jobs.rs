//! Job postings, candidates, sessions, and the error taxonomy.
//!
//! A posting's applicants are an association list from username to
//! [`Candidacy`], modelled in specifications as a `Map<Seq<char>, Candidacy>`
//! with unique keys. A posting's lifecycle state only ever moves
//! `Open -> Closed`, never back.

use vstd::prelude::*;

use crate::candidacy::Candidacy;

verus! {

/// Identifier of a stored record (job or candidate).
pub type Id = i64;

/// Bearer credential minted by a successful login.
pub type Token = u128;

/// The lifecycle state of a job posting.
#[derive(Clone, Copy, PartialEq, Eq, Structural, Debug)]
pub enum JobState {
    Open,
    Closed,
}

impl JobState {
    /// The stored numeric form of the state.
    pub open spec fn spec_as_u8(self) -> u8 {
        match self {
            JobState::Open => 0,
            JobState::Closed => 1,
        }
    }

    /// The state a stored numeric form denotes; unknown codes read as `Open`.
    pub open spec fn spec_from_u8(code: u8) -> JobState {
        if code == 1 {
            JobState::Closed
        } else {
            JobState::Open
        }
    }

    /// Encode the state for storage.
    pub fn as_u8(self) -> (r: u8)
        ensures
            r == self.spec_as_u8(),
    {
        match self {
            JobState::Open => 0,
            JobState::Closed => 1,
        }
    }

    /// Decode a stored state.
    pub fn from_u8(code: u8) -> (r: JobState)
        ensures
            r == Self::spec_from_u8(code),
    {
        if code == 1 {
            JobState::Closed
        } else {
            JobState::Open
        }
    }
}

/// Why an engine call failed; every failure is reported, never thrown.
#[derive(Clone, Copy, PartialEq, Eq, Structural, Debug)]
pub enum ErrorVariant {
    /// A job or candidate with the given identifier or username is absent.
    NotFound,
    /// A duplicate username or a duplicate application.
    Conflict,
    /// The job is not open, or the candidacy does not permit the transition.
    InvalidState,
    /// A bad credential or an invalid token.
    Unauthorized,
    /// The durable store reported a failure.
    StorageFailure,
}

/// A registered candidate identity.
pub struct Candidate {
    pub id: Id,
    pub user: String,
    pub password: String,
}

/// The binding of an authenticated candidate to a bearer token.
pub struct LoggedUser {
    pub user: String,
    pub user_id: Id,
    pub token: Token,
}

/// The only token value this design accepts: a placeholder for a real,
/// unguessable session token.
pub open spec fn token_valid(token: Token) -> bool {
    token == 0
}

/// Gate on the bearer token presented with an `apply` call.
pub fn check_token(token: Token) -> (r: Result<(), ErrorVariant>)
    ensures
        r is Ok <==> token_valid(token),
        r is Err ==> r == Err::<(), ErrorVariant>(ErrorVariant::Unauthorized),
{
    if token == 0 {
        Ok(())
    } else {
        Err(ErrorVariant::Unauthorized)
    }
}

/// No two entries of the applicant list carry the same username.
pub open spec fn app_names_unique(s: Seq<(String, Candidacy)>) -> bool {
    forall|i: int, j: int| 0 <= i < j < s.len() ==> s[i].0@ != s[j].0@
}

/// Some entry of the applicant list carries this username.
pub open spec fn app_has(s: Seq<(String, Candidacy)>, name: Seq<char>) -> bool {
    exists|i: int| 0 <= i < s.len() && s[i].0@ == name
}

/// The index of the entry carrying this username (unique when
/// `app_names_unique` holds).
pub open spec fn app_idx(s: Seq<(String, Candidacy)>, name: Seq<char>) -> int {
    choose|i: int| 0 <= i < s.len() && s[i].0@ == name
}

/// The applicant list read as a map from username to candidacy state.
pub open spec fn app_map(s: Seq<(String, Candidacy)>) -> Map<Seq<char>, Candidacy> {
    Map::new(|name: Seq<char>| app_has(s, name), |name: Seq<char>| s[app_idx(s, name)].1)
}

/// With unique names, the entry at index `i` is what the map holds under its
/// username.
pub proof fn lemma_app_at(s: Seq<(String, Candidacy)>, i: int)
    requires
        app_names_unique(s),
        0 <= i < s.len(),
    ensures
        app_map(s).contains_key(s[i].0@),
        app_map(s)[s[i].0@] == s[i].1,
{
    assert(app_has(s, s[i].0@));
    let j = app_idx(s, s[i].0@);
    assert(0 <= j < s.len() && s[j].0@ == s[i].0@);
    if i < j {
        assert(s[i].0@ != s[j].0@);
    } else if j < i {
        assert(s[j].0@ != s[i].0@);
    }
}

/// An empty applicant list is the empty map.
pub proof fn lemma_app_empty()
    ensures
        app_map(Seq::<(String, Candidacy)>::empty()) == Map::<Seq<char>, Candidacy>::empty(),
{
    assert(app_map(Seq::<(String, Candidacy)>::empty()) =~= Map::<Seq<char>, Candidacy>::empty());
}

/// Appending a fresh username inserts it into the map view.
pub proof fn lemma_app_push(s: Seq<(String, Candidacy)>, user: String, c: Candidacy)
    requires
        app_names_unique(s),
        !app_has(s, user@),
    ensures
        app_names_unique(s.push((user, c))),
        app_map(s.push((user, c))) == app_map(s).insert(user@, c),
{
    let t = s.push((user, c));
    assert forall|i: int, j: int| 0 <= i < j < t.len() implies t[i].0@ != t[j].0@ by {
        if j == s.len() {
            if t[i].0@ == user@ {
                assert(s[i].0@ == user@);
                assert(app_has(s, user@));
            }
        }
    }
    assert forall|k: Seq<char>|
        app_map(t).contains_key(k) <==> app_map(s).insert(user@, c).contains_key(k) by {
        if k == user@ {
            assert(t[s.len() as int].0@ == user@);
            assert(app_has(t, k));
        } else {
            if app_has(s, k) {
                let i = choose|i: int| 0 <= i < s.len() && s[i].0@ == k;
                assert(t[i].0@ == k);
                assert(app_has(t, k));
            }
            if app_has(t, k) {
                let i = choose|i: int| 0 <= i < t.len() && t[i].0@ == k;
                assert(i < s.len());
                assert(s[i].0@ == k);
                assert(app_has(s, k));
            }
        }
    }
    assert forall|k: Seq<char>| app_map(t).contains_key(k) implies app_map(t)[k] == app_map(
        s,
    ).insert(user@, c)[k] by {
        if k == user@ {
            lemma_app_at(t, s.len() as int);
        } else {
            let i = choose|i: int| 0 <= i < s.len() && s[i].0@ == k;
            lemma_app_at(s, i);
            assert(t[i].0@ == k && t[i].1 == s[i].1);
            lemma_app_at(t, i);
        }
    }
    assert(app_map(t) =~= app_map(s).insert(user@, c));
}

/// Overwriting the candidacy at index `i` updates the map view at that
/// entry's username and nothing else.
pub proof fn lemma_app_set(s: Seq<(String, Candidacy)>, i: int, c: Candidacy)
    requires
        app_names_unique(s),
        0 <= i < s.len(),
    ensures
        app_names_unique(s.update(i, (s[i].0, c))),
        app_map(s.update(i, (s[i].0, c))) == app_map(s).insert(s[i].0@, c),
{
    let t = s.update(i, (s[i].0, c));
    assert forall|a: int, b: int| 0 <= a < b < t.len() implies t[a].0@ != t[b].0@ by {
        assert(t[a].0 == s[a].0 && t[b].0 == s[b].0);
    }
    assert forall|k: Seq<char>|
        app_map(t).contains_key(k) <==> app_map(s).insert(s[i].0@, c).contains_key(k) by {
        if app_has(s, k) {
            let a = choose|a: int| 0 <= a < s.len() && s[a].0@ == k;
            assert(t[a].0@ == k);
            assert(app_has(t, k));
        }
        if app_has(t, k) {
            let a = choose|a: int| 0 <= a < t.len() && t[a].0@ == k;
            assert(s[a].0@ == k);
            assert(app_has(s, k));
        }
        assert(app_has(s, s[i].0@));
    }
    assert forall|k: Seq<char>| app_map(t).contains_key(k) implies app_map(t)[k] == app_map(
        s,
    ).insert(s[i].0@, c)[k] by {
        if k == s[i].0@ {
            assert(t[i].0@ == k && t[i].1 == c);
            lemma_app_at(t, i);
        } else {
            let a = choose|a: int| 0 <= a < s.len() && s[a].0@ == k;
            assert(a != i);
            lemma_app_at(s, a);
            assert(t[a].0@ == k && t[a].1 == s[a].1);
            lemma_app_at(t, a);
        }
    }
    assert(app_map(t) =~= app_map(s).insert(s[i].0@, c));
}

/// Entry-wise equal applicant lists (same usernames, same candidacies) read
/// as the same map.
pub proof fn lemma_app_congruent(a: Seq<(String, Candidacy)>, b: Seq<(String, Candidacy)>)
    requires
        a.len() == b.len(),
        forall|i: int| #![trigger a[i]] 0 <= i < a.len() ==> a[i].0@ == b[i].0@ && a[i].1 == b[i].1,
        app_names_unique(b),
    ensures
        app_names_unique(a),
        app_map(a) == app_map(b),
{
    assert forall|i: int, j: int| 0 <= i < j < a.len() implies a[i].0@ != a[j].0@ by {
        assert(a[i].0@ == b[i].0@ && a[j].0@ == b[j].0@);
    }
    assert forall|k: Seq<char>| app_has(a, k) <==> app_has(b, k) by {
        if app_has(a, k) {
            let i = choose|i: int| 0 <= i < a.len() && a[i].0@ == k;
            assert(b[i].0@ == k);
            assert(app_has(b, k));
        }
        if app_has(b, k) {
            let i = choose|i: int| 0 <= i < b.len() && b[i].0@ == k;
            assert(a[i].0@ == k);
            assert(app_has(a, k));
        }
    }
    assert forall|k: Seq<char>| app_map(a).contains_key(k) implies app_map(a)[k] == app_map(b)[k] by {
        let i = choose|i: int| 0 <= i < a.len() && a[i].0@ == k;
        lemma_app_at(a, i);
        assert(b[i].0@ == k);
        lemma_app_at(b, i);
    }
    assert(app_map(a) =~= app_map(b));
}

/// A job posting: its identity, lifecycle state, and the candidacies filed
/// against it, keyed by username.
pub struct Job {
    pub id: Id,
    pub name: String,
    pub applicants: Vec<(String, Candidacy)>,
    pub state: JobState,
}

impl Job {
    /// The structural invariant: applicant usernames are unique.
    pub open spec fn wf(self) -> bool {
        app_names_unique(self.applicants@)
    }

    /// The applicants read as a map from username to candidacy state.
    pub open spec fn apps(self) -> Map<Seq<char>, Candidacy> {
        app_map(self.applicants@)
    }

    /// A fresh posting: open, no applicants, identifier not yet assigned.
    pub fn new(name: String) -> (r: Job)
        ensures
            r.id == 0,
            r.name == name,
            r.state == JobState::Open,
            r.applicants@.len() == 0,
            r.wf(),
            r.apps() == Map::<Seq<char>, Candidacy>::empty(),
    {
        proof {
            lemma_app_empty();
        }
        Job { id: 0, name, applicants: Vec::new(), state: JobState::Open }
    }

    /// Close the posting. Idempotent: a closed posting stays exactly as it
    /// is, and the state never moves back to `Open`.
    pub fn close(&mut self)
        ensures
            final(self).state == JobState::Closed,
            final(self).id == old(self).id,
            final(self).name == old(self).name,
            final(self).applicants == old(self).applicants,
            old(self).state == JobState::Closed ==> *final(self) == *old(self),
    {
        self.state = JobState::Closed;
    }

    /// The index of the applicant entry for `user`, if one exists.
    pub(crate) fn find_applicant_index(&self, user: &String) -> (r: Option<usize>)
        ensures
            r matches Some(i) ==> i < self.applicants@.len() && self.applicants@[i as int].0@
                == user@,
            r is None ==> !app_has(self.applicants@, user@),
    {
        let mut i: usize = 0;
        while i < self.applicants.len()
            invariant
                i <= self.applicants@.len(),
                forall|j: int| 0 <= j < i ==> self.applicants@[j].0@ != user@,
            decreases self.applicants@.len() - i,
        {
            if self.applicants[i].0 == *user {
                return Some(i);
            }
            i += 1;
        }
        None
    }

    /// The candidacy `user` has filed against this posting, if any.
    pub fn applicant_state(&self, user: &String) -> (r: Option<Candidacy>)
        requires
            self.wf(),
        ensures
            r matches Some(c) ==> self.apps().contains_key(user@) && self.apps()[user@] == c,
            r is None <==> !self.apps().contains_key(user@),
    {
        match self.find_applicant_index(user) {
            Some(i) => {
                proof {
                    lemma_app_at(self.applicants@, i as int);
                }
                Some(self.applicants[i].1)
            },
            None => None,
        }
    }

    /// Record a fresh candidacy for `user`, in state `c`.
    pub(crate) fn push_applicant(&mut self, user: String, c: Candidacy)
        requires
            old(self).wf(),
            !old(self).apps().contains_key(user@),
        ensures
            final(self).wf(),
            final(self).apps() == old(self).apps().insert(user@, c),
            final(self).id == old(self).id,
            final(self).name == old(self).name,
            final(self).state == old(self).state,
            final(self).applicants@.len() == old(self).applicants@.len() + 1,
    {
        proof {
            lemma_app_push(self.applicants@, user, c);
        }
        self.applicants.push((user, c));
    }

    /// Overwrite the candidacy stored at entry `i`.
    pub(crate) fn set_applicant(&mut self, i: usize, c: Candidacy)
        requires
            old(self).wf(),
            i < old(self).applicants@.len(),
        ensures
            final(self).wf(),
            final(self).apps() == old(self).apps().insert(
                old(self).applicants@[i as int].0@,
                c,
            ),
            final(self).id == old(self).id,
            final(self).name == old(self).name,
            final(self).state == old(self).state,
            final(self).applicants@.len() == old(self).applicants@.len(),
    {
        proof {
            lemma_app_set(self.applicants@, i as int, c);
        }
        self.applicants[i].1 = c;
    }
}

} // verus!
