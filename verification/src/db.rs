//! The trusted boundary to the embedded relational store (rusqlite). Each
//! item here wraps one operation of the store; the verifier believes their
//! contracts, which state only what rusqlite's own source shows. Everything
//! around these calls — SQL text construction, parameter preparation,
//! result sanitization — is verified code elsewhere in the crate.

use vstd::prelude::*;

verus! {

/// rusqlite's connection type, opaque to the verifier.
#[verifier::external_type_specification]
#[verifier::external_body]
pub struct ExConnection(rusqlite::Connection);

/// rusqlite's error type, opaque to the verifier.
#[verifier::external_type_specification]
#[verifier::external_body]
pub struct ExError(rusqlite::Error);

/// rusqlite's borrowed value type, opaque to the verifier.
#[verifier::external_type_specification]
#[verifier::external_body]
pub struct ExValueRef<'a>(rusqlite::types::ValueRef<'a>);

/// One parameter bound into a SQL statement. Numeric frame values are
/// bound as text; the store's column affinity turns a numeric-looking text
/// into a real value in a REAL column.
pub enum SqlParam {
    Null,
    Int(i64),
    Text(String),
}

/// One value read back from the store.
pub enum SqlOut {
    Null,
    Int(i64),
    /// A real value: its IEEE-754 bit pattern and its decimal rendering.
    Real { bits: u64, text: String },
    Text(String),
    Blob,
}

/// One query result: the column names and the rows, each row holding one
/// value per column.
pub struct QueryTable {
    pub columns: Vec<String>,
    pub rows: Vec<Vec<SqlOut>>,
}

/// The decimal rendering of the real value with the given bit pattern; a
/// function of the bits alone.
pub uninterp spec fn float_text(bits: u64) -> Seq<char>;

/// Opens a fresh in-memory store.
///
/// Relies on `rusqlite::Connection::open_in_memory`: fails only when the
/// underlying open call fails.
#[verifier::external_body]
pub fn open_in_memory_conn() -> (r: Result<rusqlite::Connection, rusqlite::Error>) {
    rusqlite::Connection::open_in_memory()
}

/// Runs one parameterless SQL statement, returning how many rows changed.
///
/// Relies on `rusqlite::Connection::execute` with no parameters.
#[verifier::external_body]
pub fn exec_sql(conn: &rusqlite::Connection, sql: &str) -> (r: Result<usize, rusqlite::Error>) {
    conn.execute(sql, [])
}

/// Runs one SQL statement with the given parameters bound in order.
///
/// Relies on `rusqlite::Connection::execute` and
/// `rusqlite::params_from_iter`; the body only converts each parameter to
/// the store's value type.
#[verifier::external_body]
pub fn exec_sql_params(conn: &rusqlite::Connection, sql: &str, params: &Vec<SqlParam>) -> (r:
    Result<usize, rusqlite::Error>) {
    let mut vals: Vec<rusqlite::types::Value> = Vec::new();
    for p in params.iter() {
        vals.push(match p {
            SqlParam::Null => rusqlite::types::Value::Null,
            SqlParam::Int(i) => rusqlite::types::Value::Integer(*i),
            SqlParam::Text(s) => rusqlite::types::Value::Text(s.clone()),
        });
    }
    conn.execute(sql, rusqlite::params_from_iter(vals))
}

/// The store's message for an error.
///
/// Relies on `rusqlite::Error`'s `Display` implementation through
/// `ToString::to_string`.
#[verifier::external_body]
pub fn error_text(e: &rusqlite::Error) -> String {
    e.to_string()
}

/// Converts one borrowed store value to an owned plain value.
///
/// Relies on `rusqlite::types::ValueRef`'s variants: reals keep their bit
/// pattern beside their rendering, text decodes lossily from UTF-8, blobs
/// carry no payload.
#[verifier::external_body]
pub fn sql_out_of(v: rusqlite::types::ValueRef<'_>) -> (r: SqlOut)
    ensures
        r matches SqlOut::Real { bits, text } ==> text@ == float_text(bits),
{
    match v {
        rusqlite::types::ValueRef::Null => SqlOut::Null,
        rusqlite::types::ValueRef::Integer(i) => SqlOut::Int(i),
        rusqlite::types::ValueRef::Real(f) => SqlOut::Real { bits: f.to_bits(), text: f.to_string() },
        rusqlite::types::ValueRef::Text(t) => SqlOut::Text(String::from_utf8_lossy(t).into_owned()),
        rusqlite::types::ValueRef::Blob(_) => SqlOut::Blob,
    }
}

/// Runs one read query and collects its column names and rows.
///
/// Relies on `rusqlite::Connection::prepare`, `Statement::column_names`,
/// `Statement::query`, `Rows::next` and `Row::get_ref`; the body only walks
/// the result set and converts each value. Every returned row holds one
/// value per returned column.
#[verifier::external_body]
pub fn run_query(conn: &rusqlite::Connection, sql: &str) -> (r: Result<QueryTable, rusqlite::Error>)
    ensures
        r matches Ok(t) ==> forall|i: int|
            0 <= i < t.rows@.len() ==> (#[trigger] t.rows@[i])@.len() == t.columns@.len(),
        r matches Ok(t) ==> forall|i: int, j: int|
            0 <= i < t.rows@.len() && 0 <= j < t.rows@[i]@.len() ==> ((#[trigger] t.rows@[i]@[j])
                matches SqlOut::Real { bits, text } ==> text@ == float_text(bits)),
{
    let mut stmt = conn.prepare(sql)?;
    let columns: Vec<String> = stmt.column_names().iter().map(|s| s.to_string()).collect();
    let ncols = columns.len();
    let mut out: Vec<Vec<SqlOut>> = Vec::new();
    let mut rows = stmt.query([])?;
    while let Some(row) = rows.next()? {
        let mut vals: Vec<SqlOut> = Vec::new();
        for i in 0..ncols {
            vals.push(sql_out_of(row.get_ref(i)?));
        }
        out.push(vals);
    }
    Ok(QueryTable { columns, rows: out })
}

} // verus!
