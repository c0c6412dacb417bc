//! Trusted access to the target application's embedded key-value store.
//!
//! The store is a single-file relational table of unique string keys and
//! string values, reached through `rusqlite`.  Its contents are modelled by
//! the uninterpreted map [`store_map`]; each wrapper states over that map what
//! the underlying SQL statement does.  The callers must ensure the target
//! application is not running while these run (file-lock discipline is
//! outside this model).

use vstd::prelude::*;
use crate::errors::AgentError;

verus! {

#[verifier::external_type_specification]
#[verifier::external_body]
pub struct ExConnection(rusqlite::Connection);

/// The contents of the item table behind an open store connection: the rows
/// whose value column holds text, which is all the engine ever writes.
pub uninterp spec fn store_map(c: rusqlite::Connection) -> Map<Seq<char>, Seq<char>>;

/// Relies on a parameterised rusqlite `SELECT` of the value column by key:
/// the key is the table's primary key, so at most one row matches and its
/// value is returned.  A row whose value is not text, and any query fault,
/// reads as absence, matching the engine's treat-errors-as-missing reads.
#[verifier::external_body]
pub fn store_get(conn: &rusqlite::Connection, key: &str) -> (r: Option<String>)
    ensures
        match r {
            Some(v) => store_map(*conn).dom().contains(key@) && v@ == store_map(*conn)[key@],
            None => !store_map(*conn).dom().contains(key@),
        },
{
    let q: Result<String, rusqlite::Error> = conn.query_row(
        "SELECT value FROM ItemTable WHERE key = ?1",
        [key],
        |row| row.get(0),
    );
    match q {
        Ok(v) => Some(v),
        Err(_) => None,
    }
}

/// Relies on rusqlite `prepare`/`query_map` over a `SELECT` of the key
/// column, restricted to text-valued rows to match what [`store_get`] can
/// read: the key column is the table's primary key, so the rows list every
/// stored key exactly once.
#[verifier::external_body]
pub fn store_keys(conn: &rusqlite::Connection) -> (r: Result<Vec<String>, AgentError>)
    ensures
        match r {
            Ok(ks) => {
                &&& forall|i: int|
                    0 <= i < ks.deep_view().len() ==> store_map(*conn).dom().contains(
                        #[trigger] ks.deep_view()[i],
                    )
                &&& forall|k: Seq<char>|
                    store_map(*conn).dom().contains(k) ==> ks.deep_view().contains(k)
                &&& forall|i: int, j: int|
                    0 <= i < j < ks.deep_view().len() ==> #[trigger] ks.deep_view()[i] != (
                    #[trigger] ks.deep_view()[j])
            },
            Err(e) => e matches AgentError::StoreAccessDenied(_),
        },
{
    let denied = |e: rusqlite::Error| AgentError::StoreAccessDenied(e.to_string());
    let mut stmt = conn.prepare("SELECT key FROM ItemTable WHERE typeof(value) = 'text'").map_err(
        denied,
    )?;
    let rows = stmt.query_map([], |row| row.get::<_, String>(0)).map_err(denied)?;
    let mut out: Vec<String> = Vec::new();
    for row in rows {
        out.push(row.map_err(denied)?);
    }
    Ok(out)
}

/// Relies on rusqlite `execute` of `INSERT OR REPLACE` keyed on the item
/// table's primary key: success stores exactly the given pair, and a failed
/// single statement leaves the table unchanged.
#[verifier::external_body]
pub fn store_set(conn: &mut rusqlite::Connection, key: &str, value: &str) -> (r: Result<
    (),
    AgentError,
>)
    ensures
        r is Ok ==> store_map(*final(conn)) == store_map(*old(conn)).insert(key@, value@),
        r is Err ==> store_map(*final(conn)) == store_map(*old(conn)),
{
    let q = conn.execute(
        "INSERT OR REPLACE INTO ItemTable (key, value) VALUES (?1, ?2)",
        (key, value),
    );
    match q {
        Ok(_) => Ok(()),
        Err(e) => Err(AgentError::StoreAccessDenied(e.to_string())),
    }
}

} // verus!
