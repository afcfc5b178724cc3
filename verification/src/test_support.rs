//! The guard that keeps integration tests away from databases that are not meant
//! for them.
use crate::text::{ascii_lower, std_to_ascii_lowercase};
use sqlx::postgres::PgConnectOptions;
use std::str::FromStr;
use vstd::prelude::*;

verus! {

#[verifier::external_type_specification]
#[verifier::external_body]
pub struct ExSqlxError(sqlx::Error);

/// Why a database was refused for integration tests.
#[derive(Debug, Clone, PartialEq, Eq)]
pub enum TestDatabaseError {
    /// The connection string could not be parsed.
    InvalidConnectionString,
    /// The connection string names no database.
    MissingDatabaseName,
    /// The database's name does not contain `test`.
    NotATestDatabase(String),
}

/// `t` occurs in `s` as a contiguous run of characters.
pub open spec fn contains_infix(s: Seq<char>, t: Seq<char>) -> bool {
    exists|i: int| 0 <= i && i + t.len() <= s.len() && #[trigger] s.subrange(i, i + t.len()) == t
}

/// The word that marks a database as one for tests.
pub open spec fn test_marker() -> Seq<char> {
    seq!['t', 'e', 's', 't']
}

/// The marker starts at position `k` of `s`.
spec fn marker_at(s: Seq<char>, k: int) -> bool {
    s[k] == 't' && s[k + 1] == 'e' && s[k + 2] == 's' && s[k + 3] == 't'
}

/// A database name is one for tests when, in ASCII lower case, it contains `test`.
pub open spec fn is_test_database_name(name: Seq<char>) -> bool {
    contains_infix(ascii_lower(name), test_marker())
}

/// Whether the name marks a database meant for tests: its ASCII lower-case form
/// contains `test`.
pub fn database_name_is_for_tests(name: &str) -> (r: bool)
    ensures
        r == is_test_database_name(name@),
{
    let lower = std_to_ascii_lowercase(name);
    let s = lower.as_str();
    let n = s.unicode_len();
    let ghost l = ascii_lower(name@);
    assert(s@ == l);
    let mut i: usize = 0;
    while 4 <= n - i
        invariant
            l == ascii_lower(name@),
            s@ == l,
            n == l.len(),
            i <= n,
            forall|k: int| 0 <= k < i && k + 4 <= n ==> !#[trigger] marker_at(l, k),
        decreases n - i,
    {
        if s.get_char(i) == 't' && s.get_char(i + 1) == 'e' && s.get_char(i + 2) == 's'
            && s.get_char(i + 3) == 't' {
            proof {
                assert(l.subrange(i as int, i as int + test_marker().len()) =~= test_marker());
            }
            return true;
        }
        i = i + 1;
    }
    proof {
        assert forall|k: int|
            0 <= k && k + test_marker().len() <= l.len() implies #[trigger] l.subrange(
            k,
            k + test_marker().len(),
        ) != test_marker() by {
            assert(!marker_at(l, k));
            if l.subrange(k, k + 4) == test_marker() {
                assert(l.subrange(k, k + 4)[0] == l[k]);
                assert(l.subrange(k, k + 4)[1] == l[k + 1]);
                assert(l.subrange(k, k + 4)[2] == l[k + 2]);
                assert(l.subrange(k, k + 4)[3] == l[k + 3]);
            }
        }
    }
    false
}

/// Accepts a database name that marks a database for tests; refuses a missing name
/// and any other name.
pub fn check_test_database_name(database_name: Option<String>) -> (r: Result<(), TestDatabaseError>)
    ensures
        match database_name {
            None => r == Err::<(), TestDatabaseError>(TestDatabaseError::MissingDatabaseName),
            Some(name) => if is_test_database_name(name@) {
                r is Ok
            } else {
                r matches Err(TestDatabaseError::NotATestDatabase(m)) && m@ == name@
            },
        },
{
    match database_name {
        None => Err(TestDatabaseError::MissingDatabaseName),
        Some(name) => {
            if database_name_is_for_tests(name.as_str()) {
                Ok(())
            } else {
                Err(TestDatabaseError::NotATestDatabase(name))
            }
        },
    }
}

/// What `PgConnectOptions::from_str` makes of a connection string, as far as the
/// string alone decides it: `None` when it refuses the string, `Some(Some(d))` when the
/// string names the database `d` (its percent-decoded path, or a `dbname` parameter,
/// which wins), and `Some(None)` when it names none, so that the environment's
/// `PGDATABASE` supplies it.
pub uninterp spec fn pg_url_database(url: Seq<char>) -> Option<Option<Seq<char>>>;

/// Parses the string with `PgConnectOptions::from_str` and reads the database with
/// `get_database`. Whether the parse succeeds depends on the string alone, and so does
/// the database whenever the string names one; when it names none, the database comes
/// from the environment, and nothing is stated of it.
#[verifier::external_body]
fn parse_database_name(database_url: &str) -> (r: Result<Option<String>, sqlx::Error>)
    ensures
        r is Ok <==> pg_url_database(database_url@) is Some,
        match (r, pg_url_database(database_url@)) {
            (Ok(db), Some(Some(d))) => db matches Some(name) && name@ == d,
            _ => true,
        },
{
    PgConnectOptions::from_str(database_url).map(|o| o.get_database().map(String::from))
}

/// The guard's answer when the connection string decides it: a string that does not
/// parse is refused, and a database that the string names is accepted exactly when its
/// name marks it as one for tests.
pub open spec fn url_guard_outcome(url: Seq<char>, r: Result<(), TestDatabaseError>) -> bool {
    match pg_url_database(url) {
        None => r == Err::<(), TestDatabaseError>(TestDatabaseError::InvalidConnectionString),
        Some(Some(d)) => if is_test_database_name(d) {
            r is Ok
        } else {
            r matches Err(TestDatabaseError::NotATestDatabase(m)) && m@ == d
        },
        Some(None) => r != Err::<(), TestDatabaseError>(TestDatabaseError::InvalidConnectionString),
    }
}

/// Refuses to run integration tests against a database whose name does not mark it
/// as one for tests, unless the caller allows any database.
pub fn assert_safe_test_database(database_url: &str, allow_non_test_db: bool) -> (r: Result<
    (),
    TestDatabaseError,
>)
    ensures
        allow_non_test_db ==> r is Ok,
        !allow_non_test_db ==> url_guard_outcome(database_url@, r),
        r matches Err(TestDatabaseError::NotATestDatabase(name)) ==> !is_test_database_name(
            name@,
        ),
{
    if allow_non_test_db {
        return Ok(());
    }
    match parse_database_name(database_url) {
        Err(_) => Err(TestDatabaseError::InvalidConnectionString),
        Ok(name) => check_test_database_name(name),
    }
}

} // verus!
