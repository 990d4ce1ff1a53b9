//! The statements of the service in SQL, for a storage that speaks it. Each
//! says in SQL what the model says of the tables in memory; parameters are
//! bound in the order of their `?`.

use vstd::prelude::*;
use crate::plan::Table;

verus! {

/// Creates the three tables and their indexes where they are missing, and
/// puts the sentinel row into each lookup table that lacks it.
pub const CREATE_TABLES: &'static str =
    "CREATE TABLE IF NOT EXISTS Cat ( id INTEGER PRIMARY KEY, bicmid_id INTEGER NOT NULL, created_at TEXT NOT NULL DEFAULT CURRENT_TIMESTAMP, url_origin_id INTEGER NOT NULL, url_path TEXT NOT NULL);\nCREATE INDEX IF NOT EXISTS Cat_bicmid_id ON Cat (bicmid_id);\nCREATE TABLE IF NOT EXISTS Bicmid ( id INTEGER PRIMARY KEY AUTOINCREMENT, created_at TEXT NOT NULL DEFAULT CURRENT_TIMESTAMP, value TEXT NOT NULL);\nCREATE UNIQUE INDEX IF NOT EXISTS Bicmid_value ON Bicmid (value);\nINSERT INTO Bicmid (id, value) SELECT * FROM (SELECT 0, '') AS Bicmid WHERE NOT EXISTS (SELECT * FROM Bicmid WHERE id = 0);\nCREATE TABLE IF NOT EXISTS UrlOrigin ( id INTEGER PRIMARY KEY AUTOINCREMENT, created_at TEXT NOT NULL DEFAULT CURRENT_TIMESTAMP, value TEXT NOT NULL);\nCREATE UNIQUE INDEX IF NOT EXISTS UrlOrigin_value ON UrlOrigin (value);\nINSERT INTO UrlOrigin (id, value) SELECT * FROM (SELECT 0, '') AS UrlOrigin WHERE NOT EXISTS (SELECT * FROM UrlOrigin WHERE id = 0);\n";

/// One page of a session's images, newest first: id, origin and path of
/// each. Parameters: the session's identity, the page size, the offset.
pub const LIST_CATS: &'static str =
    "SELECT Cat.id, UrlOrigin.value, Cat.url_path FROM Cat INNER JOIN Bicmid ON Cat.bicmid_id = Bicmid.id INNER JOIN UrlOrigin ON Cat.url_origin_id = UrlOrigin.id WHERE Bicmid.value = ? ORDER BY Cat.id DESC LIMIT ? OFFSET ?";

/// The number of a session's images. Parameter: the session's identity.
pub const COUNT_CATS: &'static str =
    "SELECT count(*) FROM Cat INNER JOIN Bicmid ON Cat.bicmid_id = Bicmid.id WHERE Bicmid.value = ?";

/// Deletes one image if it is the session's. Parameters: the session's
/// identity, the image's id.
pub const DELETE_CAT: &'static str =
    "DELETE FROM Cat WHERE id IN ( SELECT Cat.id FROM Cat INNER JOIN Bicmid ON Cat.bicmid_id = Bicmid.id WHERE Bicmid.value = ? AND Cat.id = ? )";

/// Adds an image row. Parameters: the identity row's id, the origin row's
/// id, the path.
pub const INSERT_CAT: &'static str = "INSERT INTO Cat (bicmid_id, url_origin_id, url_path) VALUES (?, ?, ?)";

/// Looks a session identity up. Parameter: the identity.
pub const SELECT_BICMID: &'static str = "SELECT id FROM Bicmid WHERE value = ?";

/// Looks a URL origin up. Parameter: the origin.
pub const SELECT_URL_ORIGIN: &'static str = "SELECT id FROM UrlOrigin WHERE value = ?";

/// Stores a session identity. Parameter: the identity.
pub const INSERT_BICMID: &'static str = "INSERT INTO Bicmid (value) VALUES (?)";

/// Stores a URL origin. Parameter: the origin.
pub const INSERT_URL_ORIGIN: &'static str = "INSERT INTO UrlOrigin (value) VALUES (?)";

/// The statement that looks a value up in `table`.
pub fn select_id(table: Table) -> (sql: &'static str)
    ensures
        sql@ == match table {
            Table::Bicmid => SELECT_BICMID@,
            Table::UrlOrigin => SELECT_URL_ORIGIN@,
        },
{
    match table {
        Table::Bicmid => SELECT_BICMID,
        Table::UrlOrigin => SELECT_URL_ORIGIN,
    }
}

/// The statement that stores a value in `table`.
pub fn insert_value(table: Table) -> (sql: &'static str)
    ensures
        sql@ == match table {
            Table::Bicmid => INSERT_BICMID@,
            Table::UrlOrigin => INSERT_URL_ORIGIN@,
        },
{
    match table {
        Table::Bicmid => INSERT_BICMID,
        Table::UrlOrigin => INSERT_URL_ORIGIN,
    }
}

} // verus!
