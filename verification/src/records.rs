//! The catalog records a schema is made of, and their canonical text
//! rendering. Equality of two records is equality of their rendered lines,
//! so the renderer shows every field.

use vstd::prelude::*;

verus! {

use vstd::string::StringExecFns;
use crate::text::{spec_quoted, dec_digits, dec_digits_i64, push_quoted, push_u64, push_i64};

/// A dynamically typed scalar read from the catalog (a column's default
/// value). A floating-point value is held as the text it renders to, so that
/// equality stays structural.
pub enum SqlValue {
    Null,
    Integer(i64),
    Real(String),
    Text(String),
    Blob(Vec<u8>),
}

#[verifier::ext_equal]
pub enum SqlValueV {
    Null,
    Integer(i64),
    Real(Seq<char>),
    Text(Seq<char>),
    Blob(Seq<u8>),
}

impl View for SqlValue {
    type V = SqlValueV;

    open spec fn view(&self) -> SqlValueV {
        match self {
            SqlValue::Null => SqlValueV::Null,
            SqlValue::Integer(i) => SqlValueV::Integer(*i),
            SqlValue::Real(s) => SqlValueV::Real(s@),
            SqlValue::Text(s) => SqlValueV::Text(s@),
            SqlValue::Blob(b) => SqlValueV::Blob(b@),
        }
    }
}

/// One column of a table, as `pragma table_info` reports it.
pub struct Column {
    pub cid: u32,
    pub name: String,
    pub type_: String,
    pub notnull: bool,
    pub dflt_value: SqlValue,
    pub pk: u32,
}

#[verifier::ext_equal]
pub struct ColumnV {
    pub cid: u32,
    pub name: Seq<char>,
    pub type_: Seq<char>,
    pub notnull: bool,
    pub dflt_value: SqlValueV,
    pub pk: u32,
}

impl View for Column {
    type V = ColumnV;

    open spec fn view(&self) -> ColumnV {
        ColumnV {
            cid: self.cid,
            name: self.name@,
            type_: self.type_@,
            notnull: self.notnull,
            dflt_value: self.dflt_value@,
            pk: self.pk,
        }
    }
}

/// One index of a table, as `pragma index_list` reports it.
pub struct Index {
    pub seq_no: u32,
    pub name: String,
    pub unique: bool,
    pub origin: String,
    pub partial: bool,
}

#[verifier::ext_equal]
pub struct IndexV {
    pub seq_no: u32,
    pub name: Seq<char>,
    pub unique: bool,
    pub origin: Seq<char>,
    pub partial: bool,
}

impl View for Index {
    type V = IndexV;

    open spec fn view(&self) -> IndexV {
        IndexV {
            seq_no: self.seq_no,
            name: self.name@,
            unique: self.unique,
            origin: self.origin@,
            partial: self.partial,
        }
    }
}

impl Clone for Index {
    fn clone(&self) -> (r: Self)
        ensures
            r == *self,
    {
        Index {
            seq_no: self.seq_no,
            name: self.name.clone(),
            unique: self.unique,
            origin: self.origin.clone(),
            partial: self.partial,
        }
    }
}

/// One column binding of an index, as `pragma index_info` reports it.
/// Its position within the index is semantically significant.
pub struct IndexColumn {
    pub seqno: u32,
    pub cid: u32,
    pub name: String,
}

#[verifier::ext_equal]
pub struct IndexColumnV {
    pub seqno: u32,
    pub cid: u32,
    pub name: Seq<char>,
}

impl View for IndexColumn {
    type V = IndexColumnV;

    open spec fn view(&self) -> IndexColumnV {
        IndexColumnV { seqno: self.seqno, cid: self.cid, name: self.name@ }
    }
}


/// The character sequences of a sequence of strings.
pub open spec fn line_views(ss: Seq<String>) -> Seq<Seq<char>> {
    ss.map_values(|s: String| s@)
}

pub open spec fn column_views(cs: Seq<Column>) -> Seq<ColumnV> {
    cs.map_values(|c: Column| c@)
}

pub open spec fn index_views(xs: Seq<Index>) -> Seq<IndexV> {
    xs.map_values(|x: Index| x@)
}

pub open spec fn index_column_views(xs: Seq<IndexColumn>) -> Seq<IndexColumnV> {
    xs.map_values(|x: IndexColumn| x@)
}

pub open spec fn spec_bool(b: bool) -> Seq<char> {
    if b {
        "true"@
    } else {
        "false"@
    }
}

fn push_bool(b: bool, out: &mut String)
    ensures
        final(out)@ == old(out)@ + spec_bool(b),
{
    if b {
        out.append("true");
    } else {
        out.append("false");
    }
}

/// The byte list of a blob, rendered `1, 2, 3`, position `i` and before.
pub open spec fn spec_bytes_upto(b: Seq<u8>, i: int) -> Seq<char>
    decreases i,
{
    if i <= 0 {
        Seq::empty()
    } else if i == 1 {
        dec_digits(b[0] as nat)
    } else {
        spec_bytes_upto(b, i - 1) + ", "@ + dec_digits(b[i - 1] as nat)
    }
}

pub open spec fn spec_render_value(v: SqlValueV) -> Seq<char> {
    match v {
        SqlValueV::Null => "Null"@,
        SqlValueV::Integer(i) => "Integer("@ + dec_digits_i64(i as int) + ")"@,
        SqlValueV::Real(s) => "Real("@ + s + ")"@,
        SqlValueV::Text(s) => "Text("@ + spec_quoted(s) + ")"@,
        SqlValueV::Blob(b) => "Blob(["@ + spec_bytes_upto(b, b.len() as int) + "])"@,
    }
}

fn push_value(v: &SqlValue, out: &mut String)
    ensures
        final(out)@ == old(out)@ + spec_render_value(v@),
{
    match v {
        SqlValue::Null => {
            out.append("Null");
        },
        SqlValue::Integer(i) => {
            out.append("Integer(");
            push_i64(*i, out);
            out.append(")");
        },
        SqlValue::Real(s) => {
            out.append("Real(");
            out.append(s.as_str());
            out.append(")");
        },
        SqlValue::Text(s) => {
            out.append("Text(");
            push_quoted(s.as_str(), out);
            out.append(")");
        },
        SqlValue::Blob(b) => {
            out.append("Blob([");
            let mut i: usize = 0;
            while i < b.len()
                invariant
                    i <= b@.len(),
                    out@ == old(out)@ + "Blob(["@ + spec_bytes_upto(b@, i as int),
                decreases b@.len() - i,
            {
                if i > 0 {
                    out.append(", ");
                }
                push_u64(b[i] as u64, out);
                i = i + 1;
            }
            out.append("])");
        },
    }
    assert(out@ =~= old(out)@ + spec_render_value(v@));
}

pub open spec fn spec_render_column(c: ColumnV) -> Seq<char> {
    "Column { cid: "@ + dec_digits(c.cid as nat) + ", name: "@ + spec_quoted(c.name) + ", type_: "@
        + spec_quoted(c.type_) + ", notnull: "@ + spec_bool(c.notnull) + ", dflt_value: "@
        + spec_render_value(c.dflt_value) + ", pk: "@ + dec_digits(c.pk as nat) + " }"@
}

/// Renders a column record completely and deterministically, one line.
pub fn render_column(c: &Column) -> (r: String)
    ensures
        r@ == spec_render_column(c@),
{
    let mut out = String::new();
    out.append("Column { cid: ");
    push_u64(c.cid as u64, &mut out);
    out.append(", name: ");
    push_quoted(c.name.as_str(), &mut out);
    out.append(", type_: ");
    push_quoted(c.type_.as_str(), &mut out);
    out.append(", notnull: ");
    push_bool(c.notnull, &mut out);
    out.append(", dflt_value: ");
    push_value(&c.dflt_value, &mut out);
    out.append(", pk: ");
    push_u64(c.pk as u64, &mut out);
    out.append(" }");
    assert(out@ =~= spec_render_column(c@));
    out
}

pub open spec fn spec_render_index(x: IndexV) -> Seq<char> {
    "Index { seq: "@ + dec_digits(x.seq_no as nat) + ", name: "@ + spec_quoted(x.name)
        + ", unique: "@ + spec_bool(x.unique) + ", origin: "@ + spec_quoted(x.origin)
        + ", partial: "@ + spec_bool(x.partial) + " }"@
}

/// Renders an index record completely and deterministically, one line.
pub fn render_index(x: &Index) -> (r: String)
    ensures
        r@ == spec_render_index(x@),
{
    let mut out = String::new();
    out.append("Index { seq: ");
    push_u64(x.seq_no as u64, &mut out);
    out.append(", name: ");
    push_quoted(x.name.as_str(), &mut out);
    out.append(", unique: ");
    push_bool(x.unique, &mut out);
    out.append(", origin: ");
    push_quoted(x.origin.as_str(), &mut out);
    out.append(", partial: ");
    push_bool(x.partial, &mut out);
    out.append(" }");
    assert(out@ =~= spec_render_index(x@));
    out
}

pub open spec fn spec_render_index_column(x: IndexColumnV) -> Seq<char> {
    "IndexColumn { seqno: "@ + dec_digits(x.seqno as nat) + ", cid: "@ + dec_digits(x.cid as nat)
        + ", name: "@ + spec_quoted(x.name) + " }"@
}

/// Renders an index-column binding completely and deterministically, one line.
pub fn render_index_column(x: &IndexColumn) -> (r: String)
    ensures
        r@ == spec_render_index_column(x@),
{
    let mut out = String::new();
    out.append("IndexColumn { seqno: ");
    push_u64(x.seqno as u64, &mut out);
    out.append(", cid: ");
    push_u64(x.cid as u64, &mut out);
    out.append(", name: ");
    push_quoted(x.name.as_str(), &mut out);
    out.append(" }");
    assert(out@ =~= spec_render_index_column(x@));
    out
}

/// The rendered lines of a column sequence, in order.
pub open spec fn spec_column_lines(cs: Seq<ColumnV>) -> Seq<Seq<char>> {
    cs.map_values(|c: ColumnV| spec_render_column(c))
}

pub fn column_lines(cs: &Vec<Column>) -> (r: Vec<String>)
    ensures
        line_views(r@) == spec_column_lines(column_views(cs@)),
{
    let mut r: Vec<String> = Vec::new();
    let mut i: usize = 0;
    while i < cs.len()
        invariant
            i <= cs@.len(),
            r@.len() == i,
            line_views(r@) =~~= spec_column_lines(column_views(cs@.subrange(0, i as int))),
        decreases cs@.len() - i,
    {
        r.push(render_column(&cs[i]));
        proof {
            let target = spec_column_lines(column_views(cs@.subrange(0, i + 1)));
            assert(r@.len() == i + 1);
            assert(line_views(r@).len() == r@.len());
            assert(line_views(r@).len() == i + 1);
            assert(target.len() == i + 1);
            assert forall|k: int| 0 <= k < i + 1 implies line_views(r@)[k] == target[k] by {
                assert(target[k] == spec_render_column(cs@.subrange(0, i + 1)[k]@));
                assert(cs@.subrange(0, i + 1)[k] == cs@[k]);
                if k < i {
                    assert(line_views(r@)[k] == r@[k]@);
                    assert(spec_column_lines(column_views(cs@.subrange(0, i as int)))[k]
                        == spec_render_column(cs@[k]@));
                }
            }
            assert(line_views(r@) =~~= target);
        }
        i = i + 1;
    }
    assert(cs@.subrange(0, cs@.len() as int) =~= cs@);
    r
}

/// The rendered lines of an index sequence, in order.
pub open spec fn spec_index_lines(xs: Seq<IndexV>) -> Seq<Seq<char>> {
    xs.map_values(|x: IndexV| spec_render_index(x))
}

pub fn index_lines(xs: &Vec<Index>) -> (r: Vec<String>)
    ensures
        line_views(r@) == spec_index_lines(index_views(xs@)),
{
    let mut r: Vec<String> = Vec::new();
    let mut i: usize = 0;
    while i < xs.len()
        invariant
            i <= xs@.len(),
            r@.len() == i,
            line_views(r@) =~~= spec_index_lines(index_views(xs@.subrange(0, i as int))),
        decreases xs@.len() - i,
    {
        r.push(render_index(&xs[i]));
        proof {
            let target = spec_index_lines(index_views(xs@.subrange(0, i + 1)));
            assert(r@.len() == i + 1);
            assert forall|k: int| 0 <= k < i + 1 implies line_views(r@)[k] == target[k] by {
                assert(target[k] == spec_render_index(xs@.subrange(0, i + 1)[k]@));
                assert(xs@.subrange(0, i + 1)[k] == xs@[k]);
                if k < i {
                    assert(line_views(r@)[k] == r@[k]@);
                    assert(spec_index_lines(index_views(xs@.subrange(0, i as int)))[k]
                        == spec_render_index(xs@[k]@));
                }
            }
            assert(line_views(r@) =~~= target);
        }
        i = i + 1;
    }
    assert(xs@.subrange(0, xs@.len() as int) =~= xs@);
    r
}

/// The rendered lines of an index-column sequence, in order.
pub open spec fn spec_index_column_lines(xs: Seq<IndexColumnV>) -> Seq<Seq<char>> {
    xs.map_values(|x: IndexColumnV| spec_render_index_column(x))
}

pub fn index_column_lines(xs: &Vec<IndexColumn>) -> (r: Vec<String>)
    ensures
        line_views(r@) == spec_index_column_lines(index_column_views(xs@)),
{
    let mut r: Vec<String> = Vec::new();
    let mut i: usize = 0;
    while i < xs.len()
        invariant
            i <= xs@.len(),
            r@.len() == i,
            line_views(r@) =~~= spec_index_column_lines(
                index_column_views(xs@.subrange(0, i as int)),
            ),
        decreases xs@.len() - i,
    {
        r.push(render_index_column(&xs[i]));
        proof {
            let target = spec_index_column_lines(index_column_views(xs@.subrange(0, i + 1)));
            assert(r@.len() == i + 1);
            assert forall|k: int| 0 <= k < i + 1 implies line_views(r@)[k] == target[k] by {
                assert(target[k] == spec_render_index_column(xs@.subrange(0, i + 1)[k]@));
                assert(xs@.subrange(0, i + 1)[k] == xs@[k]);
                if k < i {
                    assert(line_views(r@)[k] == r@[k]@);
                    assert(spec_index_column_lines(index_column_views(xs@.subrange(0, i as int)))[k]
                        == spec_render_index_column(xs@[k]@));
                }
            }
            assert(line_views(r@) =~~= target);
        }
        i = i + 1;
    }
    assert(xs@.subrange(0, xs@.len() as int) =~= xs@);
    r
}

} // verus!
