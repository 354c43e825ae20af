//! The path history store, as statements to run and rows to read.
//!
//! The store is an SQL database with two tables: `path_info`, one row per
//! path with an integer key, and `path_entry`, sizes seen for a path. This
//! module holds the statements and decodes what a query returns; running
//! them against a database is the caller's part.

use vstd::prelude::*;

verus! {

/// A path that the store knows, with the key under which it holds it.
#[derive(Clone, Debug, PartialEq, Eq)]
pub struct PathInfo {
    pub id: i32,
    pub path: String,
}

/// A value in a column of a row.
#[derive(Clone, Debug, PartialEq, Eq)]
pub enum SqlValue {
    Null,
    Integer(i64),
    /// A floating-point number; no column of the store holds one.
    Real,
    Text(String),
    Blob(Vec<u8>),
}

/// An SQL statement with the text values that fill its placeholders, in order.
#[derive(Clone, Debug, PartialEq, Eq)]
pub struct Statement {
    pub sql: String,
    pub params: Vec<String>,
}

/// Why a row could not be read as a `PathInfo`; each names the column.
#[derive(Clone, Copy, Debug, PartialEq, Eq, Structural)]
pub enum RowError {
    /// The row has no such column.
    MissingColumn(usize),
    /// The column holds a value of the wrong type.
    WrongType(usize),
    /// The column holds an integer that does not fit in 32 bits.
    OutOfRange(usize),
}

/// The statement that creates the table of paths.
pub open spec fn path_info_table() -> Seq<char> {
    "CREATE TABLE IF NOT EXISTS path_info (
        id   INTEGER PRIMARY KEY,
        path TEXT    NOT NULL
    )"@
}

/// The statement that creates the table of sizes.
pub open spec fn path_entry_table() -> Seq<char> {
    "CREATE TABLE IF NOT EXISTS path_entry (
        path_info INTEGER NOT NULL,
        path_size INTEGER NOT NULL,
        FOREIGN KEY(path_info) REFERENCES path_info(id)
    )"@
}

/// The statement that adds a path; its one placeholder is the path.
pub open spec fn insert_path() -> Seq<char> {
    "INSERT INTO path_info (path) VALUES (?1)"@
}

/// The query that reads every path with its key.
pub open spec fn select_paths() -> Seq<char> {
    "SELECT id, path FROM path_info"@
}

impl Statement {
    /// This statement has the text `sql` and the values `params`.
    pub open spec fn holds(self, sql: Seq<char>, params: Seq<Seq<char>>) -> bool {
        &&& self.sql@ == sql
        &&& self.params@.len() == params.len()
        &&& forall|i: int| 0 <= i < params.len() ==> (#[trigger] self.params@[i])@ == params[i]
    }
}

/// The key that the first column of `row` holds: an integer that fits in 32
/// bits.
pub open spec fn row_id(row: Seq<SqlValue>) -> Result<i32, RowError> {
    if row.len() < 1 {
        Err(RowError::MissingColumn(0))
    } else {
        match row[0] {
            SqlValue::Integer(i) => if i32::MIN <= i <= i32::MAX {
                Ok(i as i32)
            } else {
                Err(RowError::OutOfRange(0))
            },
            _ => Err(RowError::WrongType(0)),
        }
    }
}

/// The path that the second column of `row` holds: a text.
pub open spec fn row_path(row: Seq<SqlValue>) -> Result<String, RowError> {
    if row.len() < 2 {
        Err(RowError::MissingColumn(1))
    } else {
        match row[1] {
            SqlValue::Text(s) => Ok(s),
            _ => Err(RowError::WrongType(1)),
        }
    }
}

/// What `row` reads as: the key first, then the path; the first column that
/// cannot be read gives the error.
pub open spec fn decode_row(row: Seq<SqlValue>) -> Result<PathInfo, RowError> {
    match row_id(row) {
        Err(e) => Err(e),
        Ok(id) => match row_path(row) {
            Err(e) => Err(e),
            Ok(path) => Ok(PathInfo { id, path }),
        },
    }
}

/// The statements that set the store up, in the order to run them: the table
/// of paths, then the table of sizes, which refers to it. Both leave a table
/// that is there already as it is.
pub fn setup_db() -> (r: Vec<Statement>)
    ensures
        r@.len() == 2,
        r@[0].holds(path_info_table(), Seq::empty()),
        r@[1].holds(path_entry_table(), Seq::empty()),
{
    let mut statements: Vec<Statement> = Vec::new();
    statements.push(
        Statement {
            sql: "CREATE TABLE IF NOT EXISTS path_info (
        id   INTEGER PRIMARY KEY,
        path TEXT    NOT NULL
    )".to_owned(),
            params: Vec::new(),
        },
    );
    statements.push(
        Statement {
            sql: "CREATE TABLE IF NOT EXISTS path_entry (
        path_info INTEGER NOT NULL,
        path_size INTEGER NOT NULL,
        FOREIGN KEY(path_info) REFERENCES path_info(id)
    )".to_owned(),
            params: Vec::new(),
        },
    );
    statements
}

/// The statement that adds `path` to the store.
pub fn add_path_info(path: &str) -> (r: Statement)
    ensures
        r.holds(insert_path(), seq![path@]),
{
    let mut params: Vec<String> = Vec::new();
    params.push(path.to_owned());
    Statement { sql: "INSERT INTO path_info (path) VALUES (?1)".to_owned(), params }
}

/// The query whose rows `get_paths` reads.
pub fn paths_query() -> (r: Statement)
    ensures
        r.holds(select_paths(), Seq::empty()),
{
    Statement { sql: "SELECT id, path FROM path_info".to_owned(), params: Vec::new() }
}

fn read_row(row: &Vec<SqlValue>) -> (r: Result<PathInfo, RowError>)
    ensures
        r == decode_row(row@),
{
    if row.len() < 1 {
        return Err(RowError::MissingColumn(0));
    }
    let id: i32 = match &row[0] {
        SqlValue::Integer(i) => {
            if *i < -2147483648 || *i > 2147483647 {
                return Err(RowError::OutOfRange(0));
            }
            *i as i32
        },
        _ => {
            return Err(RowError::WrongType(0));
        },
    };
    if row.len() < 2 {
        return Err(RowError::MissingColumn(1));
    }
    match &row[1] {
        SqlValue::Text(s) => Ok(PathInfo { id, path: s.clone() }),
        _ => Err(RowError::WrongType(1)),
    }
}

/// Reads the rows of the paths query, in order. Returns every row as a
/// `PathInfo` when all can be read, else the error of the first row that
/// cannot.
pub fn get_paths(rows: &Vec<Vec<SqlValue>>) -> (r: Result<Vec<PathInfo>, RowError>)
    ensures
        match r {
            Ok(paths) => {
                &&& paths@.len() == rows@.len()
                &&& forall|i: int|
                    0 <= i < rows@.len() ==> decode_row(#[trigger] rows@[i]@) == Ok::<
                        PathInfo,
                        RowError,
                    >(paths@[i])
            },
            Err(e) => exists|i: int|
                {
                    &&& 0 <= i < rows@.len()
                    &&& decode_row(#[trigger] rows@[i]@) == Err::<PathInfo, RowError>(e)
                    &&& forall|j: int| 0 <= j < i ==> decode_row(#[trigger] rows@[j]@) is Ok
                },
        },
{
    let mut paths: Vec<PathInfo> = Vec::new();
    let mut k: usize = 0;
    while k < rows.len()
        invariant
            k <= rows@.len(),
            paths@.len() == k,
            forall|i: int|
                0 <= i < k ==> decode_row(#[trigger] rows@[i]@) == Ok::<PathInfo, RowError>(
                    paths@[i],
                ),
        decreases rows@.len() - k,
    {
        match read_row(&rows[k]) {
            Ok(info) => {
                paths.push(info);
            },
            Err(e) => {
                assert(decode_row(rows@[k as int]@) == Err::<PathInfo, RowError>(e));
                return Err(e);
            },
        }
        k += 1;
    }
    Ok(paths)
}

} // verus!
