//! The durable storage port, backed by SQLite through `rusqlite`.
//!
//! The store keeps three tables: jobs keyed by a surrogate identifier with a
//! unique name, candidates keyed by a surrogate identifier with a unique
//! username, and applications keyed by the (job, candidate) pair. In
//! specifications their contents are read as three maps, named by
//! uninterpreted functions over the connection; each access method is a
//! trusted wrapper whose contract states, over those maps, what its single
//! SQL statement does.

use vstd::prelude::*;

verus! {

/// `rusqlite::Connection`, declared so that it can stand in a field; its
/// inside is opaque to the verifier.
#[verifier::external_type_specification]
#[verifier::external_body]
pub struct ExConnection(rusqlite::Connection);

/// The rows of the jobs table: identifier to (name, lifecycle state code).
pub uninterp spec fn db_jobs(c: rusqlite::Connection) -> Map<int, (Seq<char>, u8)>;

/// The rows of the candidates table: username to (identifier, credential).
/// The table declares usernames unique, so a map keyed by username holds
/// exactly its contents.
pub uninterp spec fn db_candidates(c: rusqlite::Connection) -> Map<Seq<char>, (int, Seq<char>)>;

/// The rows of the applications table: (job identifier, candidate
/// identifier) to candidacy state code.
pub uninterp spec fn db_applications(c: rusqlite::Connection) -> Map<(int, int), u8>;

/// How a storage call failed.
#[derive(Clone, Copy, PartialEq, Eq, Structural, Debug)]
pub(crate) enum StoreError {
    /// A uniqueness constraint refused the write.
    Conflict,
    /// Any other failure of the underlying store.
    Failure,
}

/// A handle on the durable store.
pub(crate) struct DbStore {
    conn: rusqlite::Connection,
}

impl DbStore {
    /// The jobs table of this store.
    pub closed spec fn jobs(self) -> Map<int, (Seq<char>, u8)> {
        db_jobs(self.conn)
    }

    /// The candidates table of this store.
    pub closed spec fn candidates(self) -> Map<Seq<char>, (int, Seq<char>)> {
        db_candidates(self.conn)
    }

    /// The applications table of this store.
    pub closed spec fn applications(self) -> Map<(int, int), u8> {
        db_applications(self.conn)
    }

    /// Relies on `rusqlite::Connection::open_in_memory` and
    /// `Connection::execute`: a fresh in-memory database holds no rows, and
    /// the three `create table` statements add none.
    #[verifier::external_body]
    pub(crate) fn new_in_memory() -> (r: Result<DbStore, StoreError>)
        ensures
            r matches Ok(s) ==> s.jobs().is_empty() && s.candidates().is_empty()
                && s.applications().is_empty(),
    {
        let conn = match rusqlite::Connection::open_in_memory() {
            Ok(c) => c,
            Err(_) => return Err(StoreError::Failure),
        };
        Self::create_tables(conn)
    }

    /// Relies on `rusqlite::Connection::open`: opens (creating it if absent)
    /// the database file, whose tables may already hold rows; nothing is
    /// claimed of the contents.
    #[verifier::external_body]
    pub(crate) fn new_file(path: &str) -> (r: Result<DbStore, StoreError>) {
        let conn = match rusqlite::Connection::open(path) {
            Ok(c) => c,
            Err(_) => return Err(StoreError::Failure),
        };
        Self::create_tables(conn)
    }

    /// Relies on `rusqlite::Connection::execute` running `create table if
    /// not exists`, which adds, removes and changes no row.
    #[verifier::external_body]
    fn create_tables(conn: rusqlite::Connection) -> (r: Result<DbStore, StoreError>)
        ensures
            r matches Ok(s) ==> s.jobs() == db_jobs(conn) && s.candidates() == db_candidates(conn)
                && s.applications() == db_applications(conn),
    {
        if conn.execute("create table if not exists jobs (id integer primary key, name text not null unique, state integer not null)", ()).is_err() {
            return Err(StoreError::Failure);
        }
        if conn.execute("create table if not exists candidates (id integer primary key, name text unique, password text not null)", ()).is_err() {
            return Err(StoreError::Failure);
        }
        if conn.execute("create table if not exists applications (state integer not null, job_id int, candidate_id int, primary key (job_id, candidate_id), foreign key (job_id) references jobs(id), foreign key (candidate_id) references candidates(id))", ()).is_err() {
            return Err(StoreError::Failure);
        }
        Ok(DbStore { conn })
    }

    /// Relies on `rusqlite::Connection::query_row` over `select name, state
    /// from jobs where id = ?1`: the row under that identifier, or
    /// `QueryReturnedNoRows` when there is none.
    #[verifier::external_body]
    pub(crate) fn get_job(&self, job_id: i64) -> (r: Result<Option<(String, u8)>, StoreError>)
        ensures
            r matches Ok(Some(v)) ==> self.jobs().contains_key(job_id as int) && self.jobs()[job_id as int] == (v.0@, v.1),
            r matches Ok(None) ==> !self.jobs().contains_key(job_id as int),
    {
        let q = self.conn.query_row(
            "select name, state from jobs where id = ?1",
            (job_id,),
            |row| -> rusqlite::Result<(String, u8)> { Ok((row.get(0)?, row.get(1)?)) },
        );
        match q {
            Ok(v) => Ok(Some(v)),
            Err(rusqlite::Error::QueryReturnedNoRows) => Ok(None),
            Err(_) => Err(StoreError::Failure),
        }
    }

    /// Relies on `rusqlite::Connection::execute` over `insert into jobs` and
    /// `Connection::last_insert_rowid`: a successful insert stores the row
    /// under a fresh identifier, which `last_insert_rowid` returns; the
    /// unique name constraint refuses a duplicate name (the unique-constraint
    /// extended result code, the only unique constraint on this table); a
    /// failed statement changes nothing.
    #[verifier::external_body]
    pub(crate) fn add_job(&mut self, name: &String, state: u8) -> (r: Result<i64, StoreError>)
        ensures
            r matches Ok(id) ==> !old(self).jobs().contains_key(id as int) && (forall|k: int|
                old(self).jobs().contains_key(k) ==> (#[trigger] old(self).jobs()[k]).0 != name@)
                && final(self).jobs() == old(self).jobs().insert(id as int, (name@, state)),
            r matches Err(e) ==> final(self).jobs() == old(self).jobs() && (e
                == StoreError::Conflict ==> exists|k: int|
                old(self).jobs().contains_key(k) && (#[trigger] old(self).jobs()[k]).0 == name@),
            final(self).candidates() == old(self).candidates(),
            final(self).applications() == old(self).applications(),
    {
        match self.conn.execute("insert into jobs (name, state) values (?1, ?2)", (name, state)) {
            Ok(_) => Ok(self.conn.last_insert_rowid()),
            Err(e) => {
                if e.sqlite_extended_error_code() == Some(rusqlite::ffi::SQLITE_CONSTRAINT_UNIQUE) {
                    Err(StoreError::Conflict)
                } else {
                    Err(StoreError::Failure)
                }
            },
        }
    }

    /// Relies on `rusqlite::Connection::execute` over `update jobs set state
    /// = ?2 where id = ?1`: rewrites the state of that row if it exists,
    /// touches nothing else; a failed statement changes nothing.
    #[verifier::external_body]
    pub(crate) fn update_job_state(&mut self, job_id: i64, state: u8) -> (r: Result<
        (),
        StoreError,
    >)
        ensures
            r is Ok && old(self).jobs().contains_key(job_id as int) ==> final(self).jobs() == old(
                self,
            ).jobs().insert(job_id as int, (old(self).jobs()[job_id as int].0, state)),
            r is Ok && !old(self).jobs().contains_key(job_id as int) ==> final(self).jobs() == old(
                self,
            ).jobs(),
            r is Err ==> final(self).jobs() == old(self).jobs(),
            final(self).candidates() == old(self).candidates(),
            final(self).applications() == old(self).applications(),
    {
        match self.conn.execute("update jobs set state = ?2 where id = ?1", (job_id, state)) {
            Ok(_) => Ok(()),
            Err(_) => Err(StoreError::Failure),
        }
    }

    /// Relies on `rusqlite::Connection::query_row` over `select id, password
    /// from candidates where name = ?1`: the row under that username, or
    /// `QueryReturnedNoRows` when there is none.
    #[verifier::external_body]
    pub(crate) fn get_candidate(&self, user: &String) -> (r: Result<
        Option<(i64, String)>,
        StoreError,
    >)
        ensures
            r matches Ok(Some(v)) ==> self.candidates().contains_key(user@) && self.candidates()[user@] == (v.0 as int, v.1@),
            r matches Ok(None) ==> !self.candidates().contains_key(user@),
    {
        let q = self.conn.query_row(
            "select id, password from candidates where name = ?1",
            (user.as_str(),),
            |row| -> rusqlite::Result<(i64, String)> { Ok((row.get(0)?, row.get(1)?)) },
        );
        match q {
            Ok(v) => Ok(Some(v)),
            Err(rusqlite::Error::QueryReturnedNoRows) => Ok(None),
            Err(_) => Err(StoreError::Failure),
        }
    }

    /// Relies on `rusqlite::Connection::execute` over `insert into
    /// candidates` and `Connection::last_insert_rowid`: a successful insert
    /// stores the row under a fresh identifier; the unique username
    /// constraint refuses a duplicate (the unique-constraint extended result
    /// code, the only unique constraint on this table); a failed statement
    /// changes nothing.
    #[verifier::external_body]
    pub(crate) fn add_candidate(&mut self, user: &String, password: &String) -> (r: Result<
        i64,
        StoreError,
    >)
        ensures
            r matches Ok(id) ==> !old(self).candidates().contains_key(user@) && (forall|
                u: Seq<char>,
            |
                old(self).candidates().contains_key(u) ==> (#[trigger] old(self).candidates()[u]).0
                    != id as int) && final(self).candidates() == old(self).candidates().insert(
                user@,
                (id as int, password@),
            ),
            r matches Err(e) ==> final(self).candidates() == old(self).candidates() && (e
                == StoreError::Conflict ==> old(self).candidates().contains_key(user@)),
            final(self).jobs() == old(self).jobs(),
            final(self).applications() == old(self).applications(),
    {
        let q = self.conn.execute(
            "insert into candidates (name, password) values (?1, ?2)",
            (user.as_str(), password.as_str()),
        );
        match q {
            Ok(_) => Ok(self.conn.last_insert_rowid()),
            Err(e) => {
                if e.sqlite_extended_error_code() == Some(rusqlite::ffi::SQLITE_CONSTRAINT_UNIQUE) {
                    Err(StoreError::Conflict)
                } else {
                    Err(StoreError::Failure)
                }
            },
        }
    }

    /// Relies on `rusqlite::Connection::query_row` over `select state from
    /// applications where job_id = ?1 and candidate_id = ?2`: the row under
    /// that pair, or `QueryReturnedNoRows` when there is none.
    #[verifier::external_body]
    pub(crate) fn get_application(&self, job_id: i64, candidate_id: i64) -> (r: Result<
        Option<u8>,
        StoreError,
    >)
        ensures
            r matches Ok(Some(state)) ==> self.applications().contains_key(
                (job_id as int, candidate_id as int),
            ) && self.applications()[(job_id as int, candidate_id as int)] == state,
            r matches Ok(None) ==> !self.applications().contains_key(
                (job_id as int, candidate_id as int),
            ),
    {
        let q = self.conn.query_row(
            "select state from applications where job_id = ?1 and candidate_id = ?2",
            (job_id, candidate_id),
            |row| -> rusqlite::Result<u8> { row.get(0) },
        );
        match q {
            Ok(v) => Ok(Some(v)),
            Err(rusqlite::Error::QueryReturnedNoRows) => Ok(None),
            Err(_) => Err(StoreError::Failure),
        }
    }

    /// Relies on `rusqlite::Connection::execute` over `insert into
    /// applications`: a successful insert stores the row under the given
    /// pair; the primary key on the pair refuses a duplicate (the
    /// primary-key extended result code); any other refusal, a foreign-key
    /// failure among them, reads as a plain failure. A failed statement
    /// changes nothing.
    #[verifier::external_body]
    pub(crate) fn insert_application(
        &mut self,
        job_id: i64,
        candidate_id: i64,
        state: u8,
    ) -> (r: Result<(), StoreError>)
        ensures
            r is Ok ==> !old(self).applications().contains_key(
                (job_id as int, candidate_id as int),
            ) && final(self).applications() == old(self).applications().insert(
                (job_id as int, candidate_id as int),
                state,
            ),
            r matches Err(e) ==> final(self).applications() == old(self).applications() && (e
                == StoreError::Conflict ==> old(self).applications().contains_key(
                (job_id as int, candidate_id as int),
            )),
            final(self).jobs() == old(self).jobs(),
            final(self).candidates() == old(self).candidates(),
    {
        let q = self.conn.execute(
            "insert into applications (job_id, candidate_id, state) values (?1, ?2, ?3)",
            (job_id, candidate_id, state),
        );
        match q {
            Ok(_) => Ok(()),
            Err(e) => {
                if e.sqlite_extended_error_code()
                    == Some(rusqlite::ffi::SQLITE_CONSTRAINT_PRIMARYKEY) {
                    Err(StoreError::Conflict)
                } else {
                    Err(StoreError::Failure)
                }
            },
        }
    }

    /// Relies on `rusqlite::Connection::execute` over `update applications
    /// set state = ?3 where job_id = ?1 and candidate_id = ?2`: rewrites the
    /// state of that row if it exists, touches nothing else; a failed
    /// statement changes nothing.
    #[verifier::external_body]
    pub(crate) fn update_application(
        &mut self,
        job_id: i64,
        candidate_id: i64,
        state: u8,
    ) -> (r: Result<(), StoreError>)
        ensures
            r is Ok && old(self).applications().contains_key((job_id as int, candidate_id as int))
                ==> final(self).applications() == old(self).applications().insert(
                (job_id as int, candidate_id as int),
                state,
            ),
            r is Ok && !old(self).applications().contains_key((job_id as int, candidate_id as int))
                ==> final(self).applications() == old(self).applications(),
            r is Err ==> final(self).applications() == old(self).applications(),
            final(self).jobs() == old(self).jobs(),
            final(self).candidates() == old(self).candidates(),
    {
        let q = self.conn.execute(
            "update applications set state = ?3 where job_id = ?1 and candidate_id = ?2",
            (job_id, candidate_id, state),
        );
        match q {
            Ok(_) => Ok(()),
            Err(_) => Err(StoreError::Failure),
        }
    }

    /// Relies on `rusqlite::Statement::query_map` over `select id, name,
    /// state from jobs`: one row for each row of the jobs table, each
    /// identifier once.
    #[verifier::external_body]
    pub(crate) fn list_job_rows(&self) -> (r: Result<Vec<(i64, String, u8)>, StoreError>)
        ensures
            r matches Ok(v) ==> (forall|i: int|
                0 <= i < v@.len() ==> self.jobs().contains_key((#[trigger] v@[i]).0 as int)
                    && self.jobs()[v@[i].0 as int] == (v@[i].1@, v@[i].2)) && (forall|k: int|
                self.jobs().contains_key(k) ==> exists|i: int|
                    0 <= i < v@.len() && (#[trigger] v@[i]).0 == k) && (forall|i: int, j: int|
                0 <= i < j < v@.len() ==> v@[i].0 != v@[j].0),
    {
        let mut stmt = self
            .conn
            .prepare("select id, name, state from jobs")
            .map_err(|_| StoreError::Failure)?;
        let rows = stmt
            .query_map((), |row| Ok((row.get(0)?, row.get(1)?, row.get(2)?)))
            .map_err(|_| StoreError::Failure)?;
        rows.collect::<rusqlite::Result<Vec<(i64, String, u8)>>>().map_err(|_| StoreError::Failure)
    }

    /// Relies on `rusqlite::Statement::query_map` over the join of
    /// applications with candidates on the candidate identifier, restricted
    /// to one job: one row per candidacy filed against that job whose
    /// candidate row exists, carrying the candidate's unique username and
    /// the candidacy's state.
    #[verifier::external_body]
    pub(crate) fn list_applicants(&self, job_id: i64) -> (r: Result<Vec<(String, u8)>, StoreError>)
        ensures
            r matches Ok(v) ==> (forall|i: int|
                0 <= i < v@.len() ==> self.candidates().contains_key((#[trigger] v@[i]).0@)
                    && self.applications().contains_key(
                    (job_id as int, self.candidates()[v@[i].0@].0),
                ) && v@[i].1 == self.applications()[(job_id as int, self.candidates()[v@[i].0@].0)])
                && (forall|u: Seq<char>|
                self.candidates().contains_key(u) && self.applications().contains_key(
                    (job_id as int, (#[trigger] self.candidates()[u]).0),
                ) ==> exists|i: int| 0 <= i < v@.len() && (#[trigger] v@[i]).0@ == u) && (forall|
                i: int,
                j: int,
            |
                0 <= i < j < v@.len() ==> v@[i].0@ != v@[j].0@),
    {
        let sql =
            "select candidates.name, applications.state from applications join candidates on candidates.id = applications.candidate_id where applications.job_id = ?1";
        let mut stmt = self.conn.prepare(sql).map_err(|_| StoreError::Failure)?;
        let rows = stmt
            .query_map((job_id,), |row| Ok((row.get(0)?, row.get(1)?)))
            .map_err(|_| StoreError::Failure)?;
        rows.collect::<rusqlite::Result<Vec<(String, u8)>>>().map_err(|_| StoreError::Failure)
    }
}

} // verus!
