//! The SQLite history backend's configuration: the database file and table names.
use vstd::prelude::*;
use crate::strutil::to_owned;
use vstd::string::*;

verus! {

/// The default database file.
pub fn default_path() -> (r: String)
    ensures
        r@ == "history.sqlite3"@,
{
    to_owned("history.sqlite3")
}

/// The default name of the table that maps element ids to numbers.
pub fn element_lookup_table() -> (r: String)
    ensures
        r@ == "elements"@,
{
    to_owned("elements")
}

/// The default name of the table that maps attribute ids to numbers.
pub fn attribute_lookup_table() -> (r: String)
    ensures
        r@ == "attributes"@,
{
    to_owned("attributes")
}

/// The default name of the table of online-state changes.
pub fn online_state_changes_table() -> (r: String)
    ensures
        r@ == "online_state_change"@,
{
    to_owned("online_state_change")
}

/// The default name of the table of attribute changes.
pub fn attribute_changes_table() -> (r: String)
    ensures
        r@ == "attribute_change"@,
{
    to_owned("attribute_change")
}

/// How the history is laid out in the database.
#[derive(Debug, PartialEq, Eq)]
pub enum Mode {
    /// Lookup tables for element and attribute ids, and one table per kind of change.
    Standard {
        /// The table that maps element ids to numbers.
        element_lookup_table: String,
        /// The table that maps attribute ids to numbers.
        attribute_lookup_table: String,
        /// The table of online-state changes.
        online_state_changes_table: String,
        /// The table of attribute changes.
        attribute_changes_table: String,
    },
}

impl Default for Mode {
    fn default() -> (r: Self)
        ensures
            r matches Mode::Standard { element_lookup_table: e, attribute_lookup_table: a, online_state_changes_table: o, attribute_changes_table: c }
                && e@ == "elements"@ && a@ == "attributes"@ && o@ == "online_state_change"@ && c@ == "attribute_change"@,
    {
        Mode::Standard {
            element_lookup_table: element_lookup_table(),
            attribute_lookup_table: attribute_lookup_table(),
            online_state_changes_table: online_state_changes_table(),
            attribute_changes_table: attribute_changes_table(),
        }
    }
}

/// The configuration of the SQLite backend.
#[derive(Debug, PartialEq, Eq)]
pub struct Config {
    /// The database file.
    pub path: String,
    /// The layout of the database.
    pub mode: Mode,
}

impl Default for Config {
    fn default() -> (r: Self)
        ensures
            r.path@ == "history.sqlite3"@,
    {
        Config { path: default_path(), mode: Mode::default() }
    }
}

/// The statements that create the tables of `mode` where they are missing: the
/// element lookup table, the attribute lookup table, the online-state changes and
/// the attribute changes, in this order.
pub open spec fn schema_spec(mode: Mode) -> Seq<Seq<char>> {
    match mode {
        Mode::Standard { element_lookup_table: e, attribute_lookup_table: a, online_state_changes_table: o, attribute_changes_table: c } => seq![
            "CREATE TABLE IF NOT EXISTS "@ + e@ + " (\n    id INTEGER NOT NULL CONSTRAINT element_pk PRIMARY KEY AUTOINCREMENT,\n    name TEXT NOT NULL UNIQUE\n)"@,
            "CREATE TABLE IF NOT EXISTS "@ + a@ + " (\n    id INTEGER NOT NULL CONSTRAINT attribute_pk PRIMARY KEY AUTOINCREMENT,\n    name TEXT NOT NULL UNIQUE\n)"@,
            "CREATE TABLE IF NOT EXISTS "@ + o@ + " (\n    id INTEGER NOT NULL CONSTRAINT online_state_change_pk PRIMARY KEY AUTOINCREMENT,\n    element_id INTEGER NOT NULL CONSTRAINT online_state_change_element_fk REFERENCES "@
                + e@ + ",\n    state INTEGER NOT NULL,\n    timestamp_secs INTEGER,\n    timestamp_subsec_nanos INTEGER\n)"@,
            "CREATE TABLE IF NOT EXISTS "@ + c@ + " (\n    id INTEGER NOT NULL CONSTRAINT attribute_change_pk PRIMARY KEY AUTOINCREMENT,\n    element_id INTEGER NOT NULL CONSTRAINT attribute_change_element_fk REFERENCES "@
                + e@ + ",\n    attribute_id INTEGER NOT NULL CONSTRAINT attribute_change_attribute_fk REFERENCES "@ + a@
                + ",\n    val TEXT,\n    timestamp_secs INTEGER,\n    timestamp_subsec_nanos INTEGER\n)"@,
        ],
    }
}

/// A query of the database, by what it does.
#[derive(Clone, Copy, Debug, PartialEq, Eq, Structural)]
pub enum Query {
    /// Looks an element's number up by its id (`$1`).
    FindElement,
    /// Adds an element id (`$1`) and gives back its row.
    AddElement,
    /// Looks an attribute's number up by its id (`$1`).
    FindAttribute,
    /// Adds an attribute id (`$1`) and gives back its row.
    AddAttribute,
    /// Stores an attribute change: element, attribute, value, seconds, nanoseconds.
    AddAttributeChange,
    /// Reads the changes of an attribute (`$2`) of an element (`$3`).
    AttributeChanges,
    /// Stores an online-state change: element, state, seconds, nanoseconds.
    AddOnlineStateChange,
    /// Reads the online-state changes of an element (`$2`).
    OnlineStateChanges,
}

/// The SQL text of query `q` in `mode`.
pub open spec fn query_spec(mode: Mode, q: Query) -> Seq<char> {
    match mode {
        Mode::Standard { element_lookup_table: e, attribute_lookup_table: a, online_state_changes_table: o, attribute_changes_table: c } => match q {
            Query::FindElement => "SELECT * FROM "@ + e@ + " WHERE name=$1"@,
            Query::AddElement => "INSERT INTO "@ + e@ + "(name) VALUES ($1) RETURNING *;"@,
            Query::FindAttribute => "SELECT * FROM "@ + a@ + " WHERE name=$1"@,
            Query::AddAttribute => "INSERT INTO "@ + a@ + "(name) VALUES ($1) RETURNING *;"@,
            Query::AddAttributeChange => "INSERT INTO "@ + c@
                + "(element_id, attribute_id, val, timestamp_secs, timestamp_subsec_nanos) VALUES ($1, $2, $3, $4, $5)"@,
            Query::AttributeChanges => "SELECT * FROM "@ + c@ + " WHERE element_id=$2 AND attribute_id=$3;"@,
            Query::AddOnlineStateChange => "INSERT INTO "@ + o@
                + "(element_id, state, timestamp_secs, timestamp_subsec_nanos) VALUES ($2, $3, $4, $5)"@,
            Query::OnlineStateChanges => "SELECT * FROM "@ + o@ + " WHERE element_id=$2;"@,
        },
    }
}

impl Mode {
    /// The statements that create the tables where they are missing.
    pub fn schema(&self) -> (r: Vec<String>)
        ensures
            r@.map_values(|s: String| s@) == schema_spec(*self),
    {
        match self {
            Mode::Standard { element_lookup_table: e, attribute_lookup_table: a, online_state_changes_table: o, attribute_changes_table: c } => {
                let e = e.as_str();
                let a = a.as_str();
                let r = vec![
                    String::from_str("CREATE TABLE IF NOT EXISTS ").concat(e)
                        .concat(" (\n    id INTEGER NOT NULL CONSTRAINT element_pk PRIMARY KEY AUTOINCREMENT,\n    name TEXT NOT NULL UNIQUE\n)"),
                    String::from_str("CREATE TABLE IF NOT EXISTS ").concat(a)
                        .concat(" (\n    id INTEGER NOT NULL CONSTRAINT attribute_pk PRIMARY KEY AUTOINCREMENT,\n    name TEXT NOT NULL UNIQUE\n)"),
                    String::from_str("CREATE TABLE IF NOT EXISTS ").concat(o.as_str())
                        .concat(" (\n    id INTEGER NOT NULL CONSTRAINT online_state_change_pk PRIMARY KEY AUTOINCREMENT,\n    element_id INTEGER NOT NULL CONSTRAINT online_state_change_element_fk REFERENCES ")
                        .concat(e).concat(",\n    state INTEGER NOT NULL,\n    timestamp_secs INTEGER,\n    timestamp_subsec_nanos INTEGER\n)"),
                    String::from_str("CREATE TABLE IF NOT EXISTS ").concat(c.as_str())
                        .concat(" (\n    id INTEGER NOT NULL CONSTRAINT attribute_change_pk PRIMARY KEY AUTOINCREMENT,\n    element_id INTEGER NOT NULL CONSTRAINT attribute_change_element_fk REFERENCES ")
                        .concat(e).concat(",\n    attribute_id INTEGER NOT NULL CONSTRAINT attribute_change_attribute_fk REFERENCES ").concat(a)
                        .concat(",\n    val TEXT,\n    timestamp_secs INTEGER,\n    timestamp_subsec_nanos INTEGER\n)"),
                ];
                proof {
                    assert(r@.map_values(|s: String| s@) =~= schema_spec(*self));
                }
                r
            },
        }
    }

    /// The SQL text of query `q`.
    pub fn query(&self, q: Query) -> (r: String)
        ensures
            r@ == query_spec(*self, q),
    {
        match self {
            Mode::Standard { element_lookup_table: e, attribute_lookup_table: a, online_state_changes_table: o, attribute_changes_table: c } => match q {
                Query::FindElement => String::from_str("SELECT * FROM ").concat(e.as_str()).concat(" WHERE name=$1"),
                Query::AddElement => String::from_str("INSERT INTO ").concat(e.as_str()).concat("(name) VALUES ($1) RETURNING *;"),
                Query::FindAttribute => String::from_str("SELECT * FROM ").concat(a.as_str()).concat(" WHERE name=$1"),
                Query::AddAttribute => String::from_str("INSERT INTO ").concat(a.as_str()).concat("(name) VALUES ($1) RETURNING *;"),
                Query::AddAttributeChange => String::from_str("INSERT INTO ").concat(c.as_str())
                    .concat("(element_id, attribute_id, val, timestamp_secs, timestamp_subsec_nanos) VALUES ($1, $2, $3, $4, $5)"),
                Query::AttributeChanges => String::from_str("SELECT * FROM ").concat(c.as_str())
                    .concat(" WHERE element_id=$2 AND attribute_id=$3;"),
                Query::AddOnlineStateChange => String::from_str("INSERT INTO ").concat(o.as_str())
                    .concat("(element_id, state, timestamp_secs, timestamp_subsec_nanos) VALUES ($2, $3, $4, $5)"),
                Query::OnlineStateChanges => String::from_str("SELECT * FROM ").concat(o.as_str()).concat(" WHERE element_id=$2;"),
            },
        }
    }
}

} // verus!
