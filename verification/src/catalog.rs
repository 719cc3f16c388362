//! Reading schema metadata out of a SQLite connection's catalog. Every call
//! into the database library stands behind a trusted wrapper; the snapshot
//! built from the calls is plain verified data.

use vstd::prelude::*;

verus! {

use vstd::string::{StrSliceExecFns, StringExecFns};
use crate::records::{Column, Index, IndexColumn, SqlValue};
use crate::schema::{DbSchema, TableDetail};

#[verifier::external_type_specification]
#[verifier::external_body]
pub struct ExConnection(rusqlite::Connection);

#[verifier::external_type_specification]
#[verifier::external_body]
pub struct ExSqliteError(rusqlite::Error);

#[verifier::external_type_specification]
#[verifier::external_body]
pub struct ExSqliteValue(rusqlite::types::Value);

/// The catalog-introspection step that failed.
#[derive(Debug)]
pub enum CatalogStep {
    Tables,
    Columns,
    Indices,
    IndexColumns,
}

/// A failure reading schema metadata from a connection. The comparison is
/// aborted on it and is never reported as "no differences".
#[derive(Debug)]
pub struct CatalogError {
    /// Which introspection step failed.
    pub step: CatalogStep,
    /// The table or index being inspected; empty for the table list.
    pub object: String,
    /// The database library's description of the failure.
    pub detail: String,
}

/// Doubling used when an identifier is embedded in a catalog query.
pub open spec fn sql_ident_char(c: char) -> Seq<char> {
    if c == '"' {
        seq!['"', '"']
    } else {
        seq![c]
    }
}

pub open spec fn spec_sql_ident_body(s: Seq<char>) -> Seq<char>
    decreases s.len(),
{
    if s.len() == 0 {
        Seq::empty()
    } else {
        sql_ident_char(s[0]) + spec_sql_ident_body(s.drop_first())
    }
}

/// An identifier quoted for embedding in a catalog query: surrounded by
/// double quotes with each inner `"` doubled, so that a name read from an
/// untrusted source cannot change the shape of the query.
pub open spec fn spec_sql_ident(s: Seq<char>) -> Seq<char> {
    seq!['"'] + spec_sql_ident_body(s) + seq!['"']
}

pub fn quote_ident(s: &str) -> (r: String)
    ensures
        r@ == spec_sql_ident(s@),
{
    let mut out = String::new();
    out.push('"');
    let len = s.unicode_len();
    let mut i: usize = 0;
    assert(s@.skip(0) =~= s@);
    while i < len
        invariant
            i <= len,
            len == s@.len(),
            out@ + spec_sql_ident_body(s@.skip(i as int)) == seq!['"']
                + spec_sql_ident_body(s@),
        decreases len - i,
    {
        let c = s.get_char(i);
        proof {
            let rest = s@.skip(i as int);
            assert(rest[0] == s@[i as int]);
            assert(rest.drop_first() =~= s@.skip(i + 1));
        }
        if c == '"' {
            out.push('"');
            out.push('"');
        } else {
            out.push(c);
        }
        proof {
            assert(out@ + spec_sql_ident_body(s@.skip(i + 1)) =~= seq!['"']
                + spec_sql_ident_body(s@));
        }
        i = i + 1;
    }
    proof {
        assert(spec_sql_ident_body(s@.skip(len as int)) =~= Seq::<char>::empty());
        assert(out@ + Seq::<char>::empty() =~= out@);
    }
    out.push('"');
    assert(out@ =~= spec_sql_ident(s@));
    out
}

/// Relies on rusqlite: prepares and runs the catalog query for the names of
/// all user tables, sorted ascending by name. What comes back depends on
/// the database behind the connection.
#[verifier::external_body]
fn query_tables(c: &rusqlite::Connection) -> (r: Result<Vec<String>, rusqlite::Error>) {
    c.prepare(
        "select name from sqlite_master where type = 'table' and name not like 'sqlite_%' order by name",
    )?
        .query_map([], |row| row.get(0))?
        .collect()
}

/// Relies on rusqlite's dynamically typed Value: each variant is carried
/// over one for one; a floating-point value is carried as the text it
/// renders to.
#[verifier::external_body]
fn value_of(v: rusqlite::types::Value) -> (r: SqlValue) {
    match v {
        rusqlite::types::Value::Null => SqlValue::Null,
        rusqlite::types::Value::Integer(i) => SqlValue::Integer(i),
        rusqlite::types::Value::Real(x) => SqlValue::Real(format!("{x:?}")),
        rusqlite::types::Value::Text(s) => SqlValue::Text(s),
        rusqlite::types::Value::Blob(b) => SqlValue::Blob(b),
    }
}

/// Relies on rusqlite: runs `pragma table_info` on an already-quoted table
/// name and carries each row over field by field, in the catalog's order.
#[verifier::external_body]
fn query_columns(c: &rusqlite::Connection, quoted: &str) -> (r: Result<
    Vec<Column>,
    rusqlite::Error,
>) {
    c.prepare(&format!("pragma table_info({quoted})"))?
        .query_map([], |row| {
            Ok(Column {
                cid: row.get(0)?,
                name: row.get(1)?,
                type_: row.get(2)?,
                notnull: row.get(3)?,
                dflt_value: value_of(row.get(4)?),
                pk: row.get(5)?,
            })
        })?
        .collect()
}

/// Relies on rusqlite: runs `pragma index_list` on an already-quoted table
/// name and carries each row over field by field, in the catalog's order.
#[verifier::external_body]
fn query_indices(c: &rusqlite::Connection, quoted: &str) -> (r: Result<
    Vec<Index>,
    rusqlite::Error,
>) {
    c.prepare(&format!("pragma index_list({quoted})"))?
        .query_map([], |row| {
            Ok(Index {
                seq_no: row.get(0)?,
                name: row.get(1)?,
                unique: row.get(2)?,
                origin: row.get(3)?,
                partial: row.get(4)?,
            })
        })?
        .collect()
}

/// Relies on rusqlite: runs `pragma index_info` on an already-quoted index
/// name and carries each row over field by field, in the catalog's order.
#[verifier::external_body]
fn query_index_columns(c: &rusqlite::Connection, quoted: &str) -> (r: Result<
    Vec<IndexColumn>,
    rusqlite::Error,
>) {
    c.prepare(&format!("pragma index_info({quoted})"))?
        .query_map([], |row| {
            Ok(IndexColumn { seqno: row.get(0)?, cid: row.get(1)?, name: row.get(2)? })
        })?
        .collect()
}

/// Relies on rusqlite's error rendering for the human-readable message.
#[verifier::external_body]
fn sqlite_error_text(e: &rusqlite::Error) -> (r: String) {
    format!("{e}")
}

fn catalog_error(step: CatalogStep, object: &str, e: &rusqlite::Error) -> (r: CatalogError)
    ensures
        r.step == step,
        r.object@ == object@,
{
    CatalogError { step, object: String::from_str(object), detail: sqlite_error_text(e) }
}

/// Reads a full snapshot of one connection's schema: the sorted table list
/// and, per table, its columns, its indices in raw catalog order, and each
/// index's column bindings. Any catalog failure aborts the snapshot.
pub fn snapshot(c: &rusqlite::Connection) -> (r: Result<DbSchema, CatalogError>)
    ensures
        r matches Ok(s) ==> s@.wf(),
{
    let table_names = match query_tables(c) {
        Ok(t) => t,
        Err(e) => {
            return Err(catalog_error(CatalogStep::Tables, "", &e));
        },
    };
    let mut tables: Vec<TableDetail> = Vec::new();
    let mut k: usize = 0;
    while k < table_names.len()
        invariant
            k <= table_names@.len(),
            tables@.len() == k,
            forall|i: int| 0 <= i < tables@.len() ==> (#[trigger] tables@[i])@.wf(),
        decreases table_names@.len() - k,
    {
        let t = &table_names[k];
        let q = quote_ident(t.as_str());
        let columns = match query_columns(c, q.as_str()) {
            Ok(v) => v,
            Err(e) => {
                return Err(catalog_error(CatalogStep::Columns, t.as_str(), &e));
            },
        };
        let indices = match query_indices(c, q.as_str()) {
            Ok(v) => v,
            Err(e) => {
                return Err(catalog_error(CatalogStep::Indices, t.as_str(), &e));
            },
        };
        let mut icols: Vec<Vec<IndexColumn>> = Vec::new();
        let mut j: usize = 0;
        while j < indices.len()
            invariant
                j <= indices@.len(),
                icols@.len() == j,
            decreases indices@.len() - j,
        {
            let iq = quote_ident(indices[j].name.as_str());
            let ic = match query_index_columns(c, iq.as_str()) {
                Ok(v) => v,
                Err(e) => {
                    return Err(
                        catalog_error(CatalogStep::IndexColumns, indices[j].name.as_str(), &e),
                    );
                },
            };
            icols.push(ic);
            j = j + 1;
        }
        let detail = TableDetail { columns, indices, icols };
        proof {
            assert(detail@.indices.len() == detail@.icols.len());
            assert(detail@.wf());
        }
        tables.push(detail);
        k = k + 1;
    }
    let s = DbSchema { table_names, tables };
    proof {
        assert(s@.table_names.len() == s@.tables.len());
        assert forall|i: int| 0 <= i < s@.tables.len() implies (#[trigger] s@.tables[i]).wf() by {
            assert(s@.tables[i] == tables@[i]@);
        }
        assert(s@.wf());
    }
    Ok(s)
}

} // verus!
