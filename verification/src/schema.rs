//! A value-level snapshot of one connection's schema: the table list and,
//! per table, its columns, its indices, and each index's column bindings.

use vstd::prelude::*;

verus! {

use crate::records::{
    Column, ColumnV, Index, IndexV, IndexColumn, IndexColumnV, column_views, index_views,
    index_column_views, line_views, column_lines, index_column_lines, spec_column_lines,
    spec_index_column_lines,
};

/// Everything the catalog reports about one table.
pub struct TableDetail {
    pub columns: Vec<Column>,
    pub indices: Vec<Index>,
    /// The column bindings of each index, parallel to `indices`.
    pub icols: Vec<Vec<IndexColumn>>,
}

#[verifier::ext_equal]
pub struct TableDetailV {
    pub columns: Seq<ColumnV>,
    pub indices: Seq<IndexV>,
    pub icols: Seq<Seq<IndexColumnV>>,
}

impl TableDetailV {
    pub open spec fn wf(self) -> bool {
        self.indices.len() == self.icols.len()
    }
}

impl View for TableDetail {
    type V = TableDetailV;

    open spec fn view(&self) -> TableDetailV {
        TableDetailV {
            columns: column_views(self.columns@),
            indices: index_views(self.indices@),
            icols: self.icols@.map_values(|c: Vec<IndexColumn>| index_column_views(c@)),
        }
    }
}

/// A snapshot of one connection's schema. `tables[k]` details the table
/// named `table_names[k]`.
pub struct DbSchema {
    pub table_names: Vec<String>,
    pub tables: Vec<TableDetail>,
}

#[verifier::ext_equal]
pub struct DbSchemaV {
    pub table_names: Seq<Seq<char>>,
    pub tables: Seq<TableDetailV>,
}

impl DbSchemaV {
    pub open spec fn wf(self) -> bool {
        &&& self.table_names.len() == self.tables.len()
        &&& forall|k: int| 0 <= k < self.tables.len() ==> (#[trigger] self.tables[k]).wf()
    }
}

impl View for DbSchema {
    type V = DbSchemaV;

    open spec fn view(&self) -> DbSchemaV {
        DbSchemaV {
            table_names: line_views(self.table_names@),
            tables: self.tables@.map_values(|t: TableDetail| t@),
        }
    }
}

/// The detail of the first table at position `k` or later that is named
/// `t`: what querying the catalog about `t` reports.
pub open spec fn lookup_table_from(s: DbSchemaV, t: Seq<char>, k: int) -> Option<TableDetailV>
    decreases s.table_names.len() - k,
{
    if k < 0 || k >= s.table_names.len() || k >= s.tables.len() {
        None
    } else if s.table_names[k] == t {
        Some(s.tables[k])
    } else {
        lookup_table_from(s, t, k + 1)
    }
}

pub open spec fn lookup_table(s: DbSchemaV, t: Seq<char>) -> Option<TableDetailV> {
    lookup_table_from(s, t, 0)
}

/// The columns the catalog reports for table `t`: empty when no such table
/// exists, as the catalog query itself reports no rows then.
pub open spec fn columns_of(s: DbSchemaV, t: Seq<char>) -> Seq<ColumnV> {
    match lookup_table(s, t) {
        Some(d) => d.columns,
        None => Seq::empty(),
    }
}

/// The indices the catalog reports for table `t`, in raw catalog order;
/// empty when no such table exists.
pub open spec fn indices_of(s: DbSchemaV, t: Seq<char>) -> Seq<IndexV> {
    match lookup_table(s, t) {
        Some(d) => d.indices,
        None => Seq::empty(),
    }
}

/// The column bindings of the first index at position `j` or later of one
/// table that is named `n`.
pub open spec fn icols_in_from(d: TableDetailV, n: Seq<char>, j: int) -> Option<Seq<IndexColumnV>>
    decreases d.indices.len() - j,
{
    if j < 0 || j >= d.indices.len() || j >= d.icols.len() {
        None
    } else if d.indices[j].name == n {
        Some(d.icols[j])
    } else {
        icols_in_from(d, n, j + 1)
    }
}

/// The column bindings of the index named `n`, searching tables from
/// position `k` on: what querying the catalog about index `n` reports.
pub open spec fn icols_lookup_from(s: DbSchemaV, n: Seq<char>, k: int) -> Seq<IndexColumnV>
    decreases s.tables.len() - k,
{
    if k < 0 || k >= s.tables.len() {
        Seq::empty()
    } else {
        match icols_in_from(s.tables[k], n, 0) {
            Some(c) => c,
            None => icols_lookup_from(s, n, k + 1),
        }
    }
}

/// The column bindings the catalog reports for the index named `n`: index
/// names are schema-global, so the table is found by search; empty when no
/// such index exists.
pub open spec fn icols_of(s: DbSchemaV, n: Seq<char>) -> Seq<IndexColumnV> {
    icols_lookup_from(s, n, 0)
}

/// Finds the detail recorded for the first table named `t`.
pub fn find_table<'a>(s: &'a DbSchema, t: &String) -> (r: Option<&'a TableDetail>)
    ensures
        match r {
            Some(d) => lookup_table(s@, t@) == Some(d@),
            None => lookup_table(s@, t@) is None,
        },
{
    let n = s.table_names.len();
    let mut k: usize = 0;
    while k < n
        invariant
            k <= n,
            n == s.table_names@.len(),
            lookup_table(s@, t@) == lookup_table_from(s@, t@, k as int),
        decreases n - k,
    {
        proof {
            assert(s@.table_names[k as int] == s.table_names@[k as int]@);
        }
        if k < s.tables.len() {
            if s.table_names[k] == *t {
                proof {
                    assert(s@.tables[k as int] == s.tables@[k as int]@);
                }
                return Some(&s.tables[k]);
            }
        } else {
            proof {
                assert(lookup_table_from(s@, t@, k as int) is None);
            }
            return None;
        }
        k = k + 1;
    }
    proof {
        assert(lookup_table_from(s@, t@, k as int) is None);
    }
    None
}

/// The rendered column lines the catalog reports for table `t`.
pub fn columns_lines_for(s: &DbSchema, t: &String) -> (r: Vec<String>)
    ensures
        line_views(r@) == spec_column_lines(columns_of(s@, t@)),
{
    match find_table(s, t) {
        Some(d) => column_lines(&d.columns),
        None => {
            let r: Vec<String> = Vec::new();
            assert(line_views(r@) =~= spec_column_lines(columns_of(s@, t@)));
            r
        },
    }
}

/// A copy of the indices the catalog reports for table `t`, raw order.
pub fn indices_for(s: &DbSchema, t: &String) -> (r: Vec<Index>)
    ensures
        index_views(r@) == indices_of(s@, t@),
{
    let mut r: Vec<Index> = Vec::new();
    match find_table(s, t) {
        Some(d) => {
            let mut j: usize = 0;
            while j < d.indices.len()
                invariant
                    j <= d.indices@.len(),
                    r@.len() == j,
                    forall|i: int| 0 <= i < j ==> r@[i] == d.indices@[i],
                decreases d.indices@.len() - j,
            {
                r.push(d.indices[j].clone());
                j = j + 1;
            }
            proof {
                assert(r@ =~= d.indices@);
                assert(index_views(r@) =~= indices_of(s@, t@));
            }
        },
        None => {
            proof {
                assert(index_views(r@) =~= indices_of(s@, t@));
            }
        },
    }
    r
}

/// The rendered index-column lines the catalog reports for index `n`.
pub fn index_column_lines_for(s: &DbSchema, n: &String) -> (r: Vec<String>)
    requires
        s@.wf(),
    ensures
        line_views(r@) == spec_index_column_lines(icols_of(s@, n@)),
{
    let tn = s.tables.len();
    let mut k: usize = 0;
    while k < tn
        invariant
            k <= tn,
            tn == s.tables@.len(),
            s@.wf(),
            icols_of(s@, n@) == icols_lookup_from(s@, n@, k as int),
        decreases tn - k,
    {
        let d = &s.tables[k];
        proof {
            assert(s@.tables[k as int] == d@);
            assert(d@.wf());
        }
        let jn = d.indices.len();
        let mut j: usize = 0;
        while j < jn
            invariant
                j <= jn,
                jn == d.indices@.len(),
                d@.wf(),
                d@ == s@.tables[k as int],
                0 <= (k as int) < s@.tables.len(),
                icols_of(s@, n@) == icols_lookup_from(s@, n@, k as int),
                icols_in_from(d@, n@, 0) == icols_in_from(d@, n@, j as int),
            decreases jn - j,
        {
            proof {
                assert(d@.indices[j as int] == d.indices@[j as int]@);
            }
            if d.indices[j].name == *n {
                proof {
                    assert(icols_in_from(d@, n@, j as int) == Some(d@.icols[j as int]));
                    assert(d@.icols[j as int] == index_column_views(d.icols@[j as int]@));
                    assert(icols_in_from(s@.tables[k as int], n@, 0) == Some(d@.icols[j as int]));
                    assert(icols_lookup_from(s@, n@, k as int) == d@.icols[j as int]);
                    assert(icols_of(s@, n@) == d@.icols[j as int]);
                }
                return index_column_lines(&d.icols[j]);
            }
            j = j + 1;
        }
        proof {
            assert(icols_in_from(d@, n@, jn as int) is None);
            assert(icols_in_from(d@, n@, 0) is None);
        }
        k = k + 1;
    }
    let r: Vec<String> = Vec::new();
    proof {
        assert(icols_lookup_from(s@, n@, k as int) =~= Seq::<IndexColumnV>::empty());
        assert(line_views(r@) =~= spec_index_column_lines(icols_of(s@, n@)));
    }
    r
}

} // verus!
