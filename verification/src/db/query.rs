//! Questions to an SQLite database: the calls into `rusqlite`, and what came
//! back, as plain values.
//!
//! What a database answers depends on what it holds at the time, so nothing
//! here says what an answer is. Each question has a relation that holds of
//! the answers it was given, so that a caller's contract can say which
//! question it asked and what it made of the answer.
//!
//! Only the questions below are asked. The columns of their answers have plain
//! ASCII names, which `rusqlite` needs when it complains of a value.
//! They are meant for tables: over a view without an end, a question would not
//! come back, and nothing that is known of a connection tells the two apart.
use crate::text::opt_str;
use rusqlite::OptionalExtension;
use vstd::prelude::*;

verus! {

/// Asks for the columns of the storage table: name and declared type stand in
/// the second and third column of the answer.
pub const SCHEMA_SQL: &'static str = "PRAGMA table_info(LocalStorage)";

/// Asks for the first complaint of a fast integrity check, `ok` if none.
pub const INTEGRITY_SQL: &'static str = "PRAGMA quick_check";

/// Asks for the value under a key.
pub const VALUE_SQL: &'static str = "SELECT value FROM LocalStorage WHERE key = ?1";

/// Asks how many keys end in a suffix.
pub const SUFFIX_SQL: &'static str = "SELECT COUNT(*) FROM LocalStorage WHERE key LIKE '%' || ?1";

/// Asks for the version in the device database.
pub const VERSION_SQL: &'static str = "SELECT value FROM LocalStorage WHERE key = 'PatchVersion'";

/// Asks for the rows of the launcher's telemetry, so many of them.
pub const TELEMETRY_SQL: &'static str = "SELECT content FROM KDData LIMIT ?1";

/// A connection to an SQLite database.
#[verifier::external_type_specification]
#[verifier::external_body]
pub struct ExConnection(rusqlite::Connection);

/// What came back from a question for one text.
#[derive(Clone, Debug, PartialEq, Eq)]
pub enum TextRead {
    /// The question failed, or the value is no text.
    Failed,
    /// No row.
    Absent,
    /// The text of the first row.
    Found(String),
}

/// What came back from a question for one text, as data.
pub enum TextAnswer {
    Failed,
    Absent,
    Found(Seq<char>),
}

impl View for TextRead {
    type V = TextAnswer;

    open spec fn view(&self) -> TextAnswer {
        match self {
            TextRead::Failed => TextAnswer::Failed,
            TextRead::Absent => TextAnswer::Absent,
            TextRead::Found(s) => TextAnswer::Found(s@),
        }
    }
}

/// What came back from a question for pairs of texts.
#[derive(Clone, Debug, PartialEq, Eq)]
pub enum PairsRead {
    /// The file is no SQLite database.
    NotADatabase,
    /// The question failed otherwise.
    Failed,
    /// A row failed, or held something else than two texts.
    BadRow,
    /// The two texts of each row.
    Found(Vec<(String, String)>),
}

/// What came back from a question for pairs of texts, as data.
pub enum PairsAnswer {
    NotADatabase,
    Failed,
    BadRow,
    Found(Seq<(Seq<char>, Seq<char>)>),
}

impl View for PairsRead {
    type V = PairsAnswer;

    open spec fn view(&self) -> PairsAnswer {
        match self {
            PairsRead::NotADatabase => PairsAnswer::NotADatabase,
            PairsRead::Failed => PairsAnswer::Failed,
            PairsRead::BadRow => PairsAnswer::BadRow,
            PairsRead::Found(pairs) => PairsAnswer::Found(
                crate::db::accounts::pair_views(pairs@),
            ),
        }
    }
}

/// What a list of rows holds; a row that failed holds nothing.
pub open spec fn row_views(rows: Seq<Option<String>>) -> Seq<Option<Seq<char>>> {
    Seq::new(rows.len(), |i: int| crate::text::opt_view(rows[i]))
}

/// Holds when a connection gave an answer to a question for one text, asked
/// with one parameter or none.
pub uninterp spec fn gave_text(
    conn: rusqlite::Connection,
    sql: Seq<char>,
    param: Option<Seq<char>>,
    answer: TextAnswer,
) -> bool;

/// Holds when a connection gave an answer to a question for one number, asked
/// with one parameter.
pub uninterp spec fn gave_number(
    conn: rusqlite::Connection,
    sql: Seq<char>,
    param: Seq<char>,
    answer: Option<i64>,
) -> bool;

/// Holds when a connection gave an answer to a question for texts, asked with
/// one number as its parameter.
pub uninterp spec fn gave_texts(
    conn: rusqlite::Connection,
    sql: Seq<char>,
    param: i64,
    answer: Option<Seq<Option<Seq<char>>>>,
) -> bool;

/// Holds when a connection gave an answer to a question for the texts in two
/// columns.
pub uninterp spec fn gave_pairs(
    conn: rusqlite::Connection,
    sql: Seq<char>,
    first: usize,
    second: usize,
    answer: PairsAnswer,
) -> bool;

/// Calls `rusqlite::Connection::query_row` for the text in the first column
/// of the first row, and `OptionalExtension::optional`, which tells a missing
/// row from a failure. Claims only that this is the answer that the
/// connection gave.
#[verifier::external_body]
pub(crate) fn query_text(conn: &rusqlite::Connection, sql: &str, param: Option<&str>) -> (r:
    TextRead)
    requires
        sql@ == VALUE_SQL@ || sql@ == INTEGRITY_SQL@ || sql@ == VERSION_SQL@,
    ensures
        gave_text(*conn, sql@, opt_str(param), r@),
{
    match conn.query_row(sql, rusqlite::params_from_iter(param), |row| row.get(0)).optional() {
        Ok(Some(text)) => TextRead::Found(text),
        Ok(None) => TextRead::Absent,
        Err(_) => TextRead::Failed,
    }
}

/// Calls `rusqlite::Connection::query_row` for the integer in the first
/// column of the first row. Claims only that this is the answer that the
/// connection gave.
#[verifier::external_body]
pub(crate) fn query_number(conn: &rusqlite::Connection, sql: &str, param: &str) -> (r: Option<i64>)
    requires
        sql@ == SUFFIX_SQL@,
    ensures
        gave_number(*conn, sql@, param@, r),
{
    conn.query_row(sql, [param], |row| row.get(0)).ok()
}

/// Calls `rusqlite::Connection::prepare` and `rusqlite::Statement::query_map`
/// for the text in the first column of each row. Claims only that this is the
/// answer that the connection gave.
#[verifier::external_body]
pub(crate) fn query_texts(conn: &rusqlite::Connection, sql: &str, param: i64) -> (r: Option<
    Vec<Option<String>>,
>)
    requires
        sql@ == TELEMETRY_SQL@,
    ensures
        gave_texts(
            *conn,
            sql@,
            param,
            match r {
                Some(rows) => Some(row_views(rows@)),
                None => None,
            },
        ),
{
    let mut stmt = conn.prepare(sql).ok()?;
    let rows = stmt.query_map([param], |row| row.get(0)).ok()?;
    Some(rows.map(|cell| cell.ok()).collect())
}

/// Calls `rusqlite::Connection::prepare` and `rusqlite::Statement::query_map`
/// for the texts in two columns of each row, and `Error::sqlite_error_code`,
/// which tells a file that is no database from other failures. Claims only
/// that this is the answer that the connection gave.
#[verifier::external_body]
pub(crate) fn query_pairs(
    conn: &rusqlite::Connection,
    sql: &str,
    first: usize,
    second: usize,
) -> (r: PairsRead)
    requires
        sql@ == SCHEMA_SQL@,
    ensures
        gave_pairs(*conn, sql@, first, second, r@),
{
    let foreign = Some(rusqlite::ErrorCode::NotADatabase);
    let mut stmt = match conn.prepare(sql) {
        Ok(stmt) => stmt,
        Err(err) if err.sqlite_error_code() == foreign => return PairsRead::NotADatabase,
        Err(_) => return PairsRead::Failed,
    };
    let rows = stmt.query_map([], |row| Ok((row.get(first)?, row.get(second)?)));
    let Ok(rows) = rows else { return PairsRead::Failed };
    match rows.collect::<Result<Vec<(String, String)>, rusqlite::Error>>() {
        Ok(pairs) => PairsRead::Found(pairs),
        Err(err) if err.sqlite_error_code() == foreign => PairsRead::NotADatabase,
        Err(_) => PairsRead::BadRow,
    }
}

} // verus!
