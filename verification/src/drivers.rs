//! Choosing the database to connect to, and small helpers of the document
//! store: serialisation predicates, field paths to unset, prefixed keys.

use vstd::prelude::*;
use crate::reference_db::ReferenceDb;
use crate::text::{views, lemma_views_push, push_char};

verus! {

/// Utility function to check if a boolean value is false
pub fn if_false(t: &bool) -> (r: bool)
    ensures
        r == !*t,
{
    !*t
}

/// Utility function to check if an option doesnt contain true
pub fn if_option_false(t: &Option<bool>) -> (r: bool)
    ensures
        r == (*t != Some(true)),
{
    match t {
        Some(true) => false,
        _ => true,
    }
}

/// Just a string ID struct
pub struct DocumentId {
    pub id: String,
}

/// A field that an update can unset.
pub trait IntoDocumentPath {
    /// Create JSON key path
    fn as_path(&self) -> Option<&'static str>;
}

/// Database information to use to create a client
pub enum DatabaseInfo {
    /// Auto-detect the database in use
    Auto,
    /// Auto-detect the database in use and create an empty testing database
    Test(String),
    /// Use the mock database
    Reference,
    /// Connect to MongoDB
    MongoDb { uri: String, database_name: String },
}

/// Database
pub enum Database {
    /// Mock database
    Reference(ReferenceDb),
}

/// What connecting with some database information comes to.
pub enum ConnectStep {
    /// Use a fresh reference database.
    UseReference,
    /// Connect to MongoDB at `uri`, using database `database_name`.
    UseMongo { uri: String, database_name: String },
    /// Make a fresh test database name and connect with `DatabaseInfo::Test`.
    NeedTestDatabase,
}

/// The value of `TEST_DB` that selects the reference database.
pub open spec fn reference_selector() -> Seq<char> {
    seq!['R', 'E', 'F', 'E', 'R', 'E', 'N', 'C', 'E']
}

/// The value of `TEST_DB` that selects MongoDB.
pub open spec fn mongodb_selector() -> Seq<char> {
    seq!['M', 'O', 'N', 'G', 'O', 'D', 'B']
}

/// The name of the database that auto-detection uses.
pub open spec fn default_database_name() -> Seq<char> {
    seq!['r', 'e', 'v', 'o', 'l', 't']
}

impl DatabaseInfo {
    /// Decide how to connect, given the value of the `TEST_DB` environment
    /// variable (if set) and the configured MongoDB URI. Automatic detection
    /// makes a test database when `TEST_DB` is set, uses MongoDB when a URI
    /// is configured, and the reference database otherwise; a test database
    /// needs `TEST_DB` to be `REFERENCE` or `MONGODB`.
    pub fn plan(self, test_db: Option<&str>, mongodb_uri: &str) -> (r: ConnectStep)
        requires
            self is Test ==> (test_db matches Some(v) && (v@ == reference_selector() || v@ == mongodb_selector())),
        ensures
            match self {
                DatabaseInfo::Auto => if test_db is Some {
                    r is NeedTestDatabase
                } else if mongodb_uri@.len() > 0 {
                    r matches ConnectStep::UseMongo { uri, database_name } && uri@ == mongodb_uri@
                        && database_name@ == default_database_name()
                } else {
                    r is UseReference
                },
                DatabaseInfo::Test(name) => if test_db.unwrap()@ == reference_selector() {
                    r is UseReference
                } else {
                    r matches ConnectStep::UseMongo { uri, database_name } && uri@ == mongodb_uri@ && database_name == name
                },
                DatabaseInfo::Reference => r is UseReference,
                DatabaseInfo::MongoDb { uri, database_name } => r == ConnectStep::UseMongo { uri, database_name },
            },
    {
        proof {
            reveal_strlit("REFERENCE");
            reveal_strlit("revolt");
            assert("REFERENCE"@ =~= reference_selector());
            assert("revolt"@ =~= default_database_name());
        }
        match self {
            DatabaseInfo::Auto => {
                if test_db.is_some() {
                    ConnectStep::NeedTestDatabase
                } else if mongodb_uri.unicode_len() > 0 {
                    ConnectStep::UseMongo { uri: mongodb_uri.to_owned(), database_name: String::from_str("revolt") }
                } else {
                    ConnectStep::UseReference
                }
            },
            DatabaseInfo::Test(name) => {
                let v = test_db.unwrap().to_owned();
                let reference = String::from_str("REFERENCE");
                if v == reference {
                    ConnectStep::UseReference
                } else {
                    ConnectStep::UseMongo { uri: mongodb_uri.to_owned(), database_name: name }
                }
            },
            DatabaseInfo::Reference => ConnectStep::UseReference,
            DatabaseInfo::MongoDb { uri, database_name } => ConnectStep::UseMongo { uri, database_name },
        }
    }
}

/// A fresh reference database: every table is empty.
pub fn connect_reference() -> (r: Database)
    ensures
        r matches Database::Reference(db) && ({
            &&& db.wf()
            &&& db.accounts.records().len() == 0
            &&& db.account_invites.records().len() == 0
            &&& db.safety_reports.records().len() == 0
            &&& db.admin_audits.records().len() == 0
            &&& db.admin_cases.records().len() == 0
            &&& db.admin_case_comments.records().len() == 0
            &&& db.admin_comments.records().len() == 0
        }),
{
    Database::Reference(ReferenceDb::new())
}

/// The decimal digit for `d`.
pub open spec fn digit_char(d: int) -> char {
    (d + 48) as char
}

/// The decimal form of `n`, without leading zeros.
pub open spec fn decimal(n: nat) -> Seq<char>
    decreases n,
{
    if n < 10 {
        seq![digit_char(n as int)]
    } else {
        decimal(n / 10).push(digit_char((n % 10) as int))
    }
}

/// The decimal form of `n`.
pub fn decimal_text(n: u64) -> (r: Vec<char>)
    ensures
        r@ == decimal(n as nat),
    decreases n,
{
    let table: [char; 10] = ['0', '1', '2', '3', '4', '5', '6', '7', '8', '9'];
    let d = (n % 10) as usize;
    let c = table[d];
    proof {
        assert(table@ =~= seq!['0', '1', '2', '3', '4', '5', '6', '7', '8', '9']);
        assert(c == digit_char((n % 10) as int));
    }
    if n < 10 {
        let mut v: Vec<char> = Vec::new();
        v.push(c);
        proof {
            assert(v@ =~= seq![digit_char(n as int)]);
        }
        v
    } else {
        let mut v = decimal_text(n / 10);
        v.push(c);
        v
    }
}

/// The name of a fresh test database: `revolt_test_` and the number.
pub open spec fn test_database_name(n: u64) -> Seq<char> {
    seq!['r', 'e', 'v', 'o', 'l', 't', '_', 't', 'e', 's', 't', '_'] + decimal(n as nat)
}

/// The name of a fresh test database, from a number drawn between one
/// million and ten million.
pub fn test_database(n: u64) -> (r: DatabaseInfo)
    requires
        1_000_000 <= n < 10_000_000,
    ensures
        r matches DatabaseInfo::Test(name) && name@ == test_database_name(n),
{
    let mut name = String::from_str("revolt_test_");
    proof {
        reveal_strlit("revolt_test_");
    }
    let digits = decimal_text(n);
    let ghost start = name@;
    let mut i: usize = 0;
    while i < digits.len()
        invariant
            i <= digits@.len(),
            name@ == start + digits@.take(i as int),
        decreases digits@.len() - i,
    {
        push_char(&mut name, digits[i]);
        proof {
            assert(digits@.take(i + 1) =~= digits@.take(i as int).push(digits@[i as int]));
        }
        i = i + 1;
    }
    proof {
        assert(digits@.take(digits@.len() as int) =~= digits@);
        assert(start =~= seq!['r', 'e', 'v', 'o', 'l', 't', '_', 't', 'e', 's', 't', '_']);
    }
    DatabaseInfo::Test(name)
}

/// The paths to unset for the removed fields that have one, each behind
/// `prefix` when one is given.
pub fn unset_paths(paths: &Vec<Option<String>>, prefix: &Option<String>) -> (r: Vec<String>)
    ensures
        views(r@) == unset_spec(paths@, match prefix { Some(p) => Some(p@), None => None }),
{
    let mut out: Vec<String> = Vec::new();
    let mut i: usize = 0;
    let ghost pv = match prefix { Some(p) => Some(p@), None => None };
    while i < paths.len()
        invariant
            i <= paths@.len(),
            pv == (match prefix { Some(p) => Some(p@), None => None }),
            views(out@) == unset_spec(paths@.take(i as int), pv),
        decreases paths@.len() - i,
    {
        proof {
            assert(paths@.take(i + 1).drop_last() =~= paths@.take(i as int));
        }
        if let Some(path) = &paths[i] {
            let full = match prefix {
                Some(p) => p.clone().concat(path.as_str()),
                None => path.clone(),
            };
            let ghost before = out@;
            out.push(full);
            proof {
                lemma_views_push(before, full);
            }
        }
        i = i + 1;
    }
    proof {
        assert(paths@.take(paths@.len() as int) =~= paths@);
    }
    out
}

/// The paths to unset: those of the fields that have one, behind the prefix.
pub open spec fn unset_spec(paths: Seq<Option<String>>, prefix: Option<Seq<char>>) -> Seq<Seq<char>>
    decreases paths.len(),
{
    if paths.len() == 0 {
        Seq::empty()
    } else {
        let rest = unset_spec(paths.drop_last(), prefix);
        match paths.last() {
            Some(p) => rest.push(
                match prefix {
                    Some(x) => x + p@,
                    None => p@,
                },
            ),
            None => rest,
        }
    }
}

/// The keys and values of a document's fields.
pub open spec fn prefixed_spec<V>(entries: Seq<(String, Option<V>)>, prefix: Seq<char>) -> Seq<(Seq<char>, V)>
    decreases entries.len(),
{
    if entries.len() == 0 {
        Seq::empty()
    } else {
        let rest = prefixed_spec(entries.drop_last(), prefix);
        match entries.last().1 {
            Some(v) => rest.push((prefix + entries.last().0@, v)),
            None => rest,
        }
    }
}

/// Prefix keys on a document's fields: fields that are null (`None`) are
/// dropped, the others get `prefix` in front of their key.
pub fn prefix_keys<V>(entries: Vec<(String, Option<V>)>, prefix: &str) -> (r: Vec<(String, V)>)
    ensures
        key_views(r@) == prefixed_spec(entries@, prefix@),
{
    let ghost all = entries@;
    let mut out: Vec<(String, V)> = Vec::new();
    let mut rest = entries;
    let ghost mut done: Seq<(String, Option<V>)> = Seq::empty();
    while rest.len() > 0
        invariant
            all == done + rest@,
            key_views(out@) == prefixed_spec(done, prefix@),
        decreases rest@.len(),
    {
        let ghost r0 = rest@;
        let e = rest.remove(0);
        proof {
            assert(r0 =~= seq![e] + rest@);
            assert(done.push(e).drop_last() =~= done);
            done = done.push(e);
            assert(all =~= done + rest@);
        }
        let (k, v) = e;
        if let Some(value) = v {
            let key = String::from_str(prefix).concat(k.as_str());
            let ghost before = out@;
            out.push((key, value));
            proof {
                assert(key_views(out@) =~= key_views(before).push((key@, value)));
            }
        }
    }
    proof {
        assert(done =~= all);
    }
    out
}

/// The keys of a list of pairs, by their characters.
pub open spec fn key_views<V>(v: Seq<(String, V)>) -> Seq<(Seq<char>, V)> {
    v.map_values(|e: (String, V)| (e.0@, e.1))
}

} // verus!
