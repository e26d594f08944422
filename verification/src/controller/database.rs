//! The controller's store: one table of named rows. The statements are put
//! together here; running them is the caller's part.

use crate::text::{concat3, decimal, u64_to_string};
use std::sync::Arc;
use vstd::prelude::*;
use vstd::string::*;

verus! {

/// Where the databases are kept when `DATABASE_LOCATION` is not set.
pub const DEFAULT_LOCATION: &'static str = "/var/lib/rik/data/";

/// The statements that make the table and its indexes.
pub const CREATE_TABLES: &'static str =
    "CREATE TABLE IF NOT EXISTS cluster (
                id              INTEGER PRIMARY KEY AUTOINCREMENT,
                name            TEXT NOT NULL,
                value           BLOB NOT NULL
            );
            CREATE INDEX IF NOT EXISTS cluster_name_index ON cluster (name);
            CREATE INDEX IF NOT EXISTS cluster_name_id_index ON cluster (name,id);";

/// The statement that adds a row; its parameters are the name and the value.
pub const INSERT: &'static str = "INSERT INTO cluster (name, value) VALUES (?1, ?2)";

/// The statement that removes a row; its parameter is the id.
pub const DELETE: &'static str = "DELETE FROM cluster WHERE id = (?1)";

/// The statement that changes a row; its parameters are the value and the id.
pub const UPDATE: &'static str = "UPDATE cluster SET value=(?1) WHERE id = (?2)";

/// A database, known by its name.
#[derive(Debug)]
pub struct RikDataBase {
    pub name: String,
}

impl RikDataBase {
    pub fn new(name: String) -> (r: Arc<RikDataBase>)
        ensures
            r.name == name,
    {
        Arc::new(RikDataBase { name })
    }

    /// The statements that make the tables.
    pub fn init_tables(&self) -> (r: &'static str)
        ensures
            r@ == CREATE_TABLES@,
    {
        CREATE_TABLES
    }

    /// Does nothing: tables are never dropped.
    pub fn drop_tables(&self) {
    }

    /// The file of the database: `<location><name>.db`, where `location` is
    /// the value of `DATABASE_LOCATION`, and `/var/lib/rik/data/` if it is not
    /// set.
    pub fn open(&self, location: Option<String>) -> (r: String)
        ensures
            r@ == (match location {
                Some(l) => l@,
                None => DEFAULT_LOCATION@,
            }) + self.name@ + ".db"@,
    {
        let file_path = match location {
            Some(l) => l,
            None => String::from_str(DEFAULT_LOCATION),
        };
        concat3(file_path.as_str(), self.name.as_str(), ".db")
    }
}

/// The statements that read the table.
pub struct RikRepository {

}

/// The statement that finds rows whose name begins with `prefix`.
pub open spec fn select_like(prefix: Seq<char>) -> Seq<char> {
    "SELECT id, name, value FROM cluster WHERE name LIKE '"@ + prefix + "%'"@
}

/// The statement that finds the row `id` if its name begins with `prefix`.
pub open spec fn select_one(id: usize, prefix: Seq<char>) -> Seq<char> {
    "SELECT id, name, value FROM cluster WHERE id = "@ + decimal(id as nat) + " AND name LIKE '"@
        + prefix + "%'"@
}

impl RikRepository {
    /// The statement that finds the row `id` among those of `element_type`.
    pub fn find_one(id: usize, element_type: &str) -> (r: String)
        ensures
            r@ == select_one(id, element_type@),
    {
        let mut out = String::from_str("SELECT id, name, value FROM cluster WHERE id = ");
        out.append(u64_to_string(id as u64).as_str());
        out.append(" AND name LIKE '");
        out.append(element_type);
        out.append("%'");
        out
    }

    /// The statement that finds a row whose name begins with `name`.
    pub fn check_duplicate_name(name: &str) -> (r: String)
        ensures
            r@ == select_like(name@),
    {
        concat3("SELECT id, name, value FROM cluster WHERE name LIKE '", name, "%'")
    }

    /// The statement that finds all rows of `element_type`.
    pub fn find_all(element_type: &str) -> (r: String)
        ensures
            r@ == select_like(element_type@),
    {
        concat3("SELECT id, name, value FROM cluster WHERE name LIKE '", element_type, "%'")
    }
}

} // verus!
