//! The comparison driver: diffs the table lists of two schema snapshots,
//! then per table the column lists, the name-sorted index lists, and each
//! index's column bindings, concatenating every non-empty labeled block.

use vstd::prelude::*;

verus! {

use vstd::string::StringExecFns;
use crate::records::{
    IndexV, spec_column_lines, spec_index_lines, spec_index_column_lines, spec_render_index,
    index_views, render_index, index_lines,
};
use crate::text::{spec_quoted, push_quoted};
use crate::diffs::{diff_slices, spec_diff_text};
use crate::order::{index_leq_fn, sort_indices};
use crate::schema::{DbSchema, DbSchemaV, columns_of, indices_of, icols_of, columns_lines_for,
    indices_for, index_column_lines_for};
use crate::catalog::{snapshot, CatalogError};

/// The order a table's indices are compared in: sorted by name, ties broken
/// by the remaining fields.
pub open spec fn sorted_indices_of(s: DbSchemaV, t: Seq<char>) -> Seq<IndexV> {
    indices_of(s, t).sort_by(index_leq_fn())
}

/// The labeled block for a table-list mismatch; empty when the lists agree.
pub open spec fn spec_table_block(n1: Seq<char>, n2: Seq<char>, a: DbSchemaV, b: DbSchemaV) -> Seq<
    char,
> {
    if a.table_names == b.table_names {
        Seq::empty()
    } else {
        "table list mismatch, "@ + n1 + " vs "@ + n2 + ":\n"@ + spec_diff_text(
            n1,
            n2,
            a.table_names,
            b.table_names,
        )
    }
}

/// The labeled block for one table's column mismatch; empty when equal.
pub open spec fn spec_column_block(
    n1: Seq<char>,
    n2: Seq<char>,
    a: DbSchemaV,
    b: DbSchemaV,
    t: Seq<char>,
) -> Seq<char> {
    let la = spec_column_lines(columns_of(a, t));
    let lb = spec_column_lines(columns_of(b, t));
    if la == lb {
        Seq::empty()
    } else {
        "table "@ + spec_quoted(t) + " column, "@ + n1 + " vs "@ + n2 + ":\n"@ + spec_diff_text(
            n1,
            n2,
            la,
            lb,
        )
    }
}

/// The labeled block for one table's index-list mismatch; empty when equal.
pub open spec fn spec_index_block(
    n1: Seq<char>,
    n2: Seq<char>,
    a: DbSchemaV,
    b: DbSchemaV,
    t: Seq<char>,
) -> Seq<char> {
    let la = spec_index_lines(sorted_indices_of(a, t));
    let lb = spec_index_lines(sorted_indices_of(b, t));
    if la == lb {
        Seq::empty()
    } else {
        "table "@ + spec_quoted(t) + " indices, "@ + n1 + " vs "@ + n2 + ":\n"@ + spec_diff_text(
            n1,
            n2,
            la,
            lb,
        )
    }
}

/// The labeled block for one index's column-binding mismatch; empty when
/// equal. The bindings are compared in intra-index order, never re-sorted.
pub open spec fn spec_icols_block(
    n1: Seq<char>,
    n2: Seq<char>,
    a: DbSchemaV,
    b: DbSchemaV,
    t: Seq<char>,
    x: IndexV,
) -> Seq<char> {
    let la = spec_index_column_lines(icols_of(a, x.name));
    let lb = spec_index_column_lines(icols_of(b, x.name));
    if la == lb {
        Seq::empty()
    } else {
        "table "@ + spec_quoted(t) + " index "@ + spec_render_index(x) + " columns "@ + n1
            + " vs "@ + n2 + ":\n"@ + spec_diff_text(n1, n2, la, lb)
    }
}

/// The first `j` index-column blocks of table `t`, driven by the first
/// schema's sorted index list.
pub open spec fn spec_icols_blocks_upto(
    n1: Seq<char>,
    n2: Seq<char>,
    a: DbSchemaV,
    b: DbSchemaV,
    t: Seq<char>,
    j: int,
) -> Seq<char>
    decreases j,
{
    if j <= 0 {
        Seq::empty()
    } else {
        spec_icols_blocks_upto(n1, n2, a, b, t, j - 1) + spec_icols_block(
            n1,
            n2,
            a,
            b,
            t,
            sorted_indices_of(a, t)[j - 1],
        )
    }
}

/// Everything reported for one table.
pub open spec fn spec_table_report(
    n1: Seq<char>,
    n2: Seq<char>,
    a: DbSchemaV,
    b: DbSchemaV,
    t: Seq<char>,
) -> Seq<char> {
    spec_column_block(n1, n2, a, b, t) + spec_index_block(n1, n2, a, b, t)
        + spec_icols_blocks_upto(n1, n2, a, b, t, sorted_indices_of(a, t).len() as int)
}

/// The per-table reports of the first `k` tables of the first schema.
pub open spec fn spec_tables_upto(
    n1: Seq<char>,
    n2: Seq<char>,
    a: DbSchemaV,
    b: DbSchemaV,
    k: int,
) -> Seq<char>
    decreases k,
{
    if k <= 0 {
        Seq::empty()
    } else {
        spec_tables_upto(n1, n2, a, b, k - 1) + spec_table_report(
            n1,
            n2,
            a,
            b,
            a.table_names[k - 1],
        )
    }
}

/// The whole report: the table-list block, then per-table blocks for every
/// table of the first schema, in order. Tables present only in the second
/// schema surface in the table-list block alone.
pub open spec fn spec_report(n1: Seq<char>, n2: Seq<char>, a: DbSchemaV, b: DbSchemaV) -> Seq<
    char,
> {
    spec_table_block(n1, n2, a, b) + spec_tables_upto(n1, n2, a, b, a.table_names.len() as int)
}

/// Compares two schema snapshots and renders every discrepancy, labeled by
/// its table or index. Returns nothing exactly when the rendered report is
/// empty; a returned report is never the empty string.
#[verifier::rlimit(100)]
pub fn compare_db_schemas(n1: &str, a: &DbSchema, n2: &str, b: &DbSchema) -> (r: Option<String>)
    requires
        a@.wf(),
        b@.wf(),
    ensures
        r matches Some(s) ==> s@ == spec_report(n1@, n2@, a@, b@) && s@.len() > 0,
        (r is None) <==> spec_report(n1@, n2@, a@, b@).len() == 0,
{
    let mut out = String::new();
    match diff_slices(n1, &a.table_names, n2, &b.table_names) {
        Some(d) => {
            out.append("table list mismatch, ");
            out.append(n1);
            out.append(" vs ");
            out.append(n2);
            out.append(":\n");
            out.append(d.as_str());
            proof {
                assert(a@.table_names != b@.table_names);
                assert(out@ =~= spec_table_block(n1@, n2@, a@, b@));
            }
        },
        None => {
            proof {
                assert(a@.table_names == b@.table_names);
                assert(out@ =~= spec_table_block(n1@, n2@, a@, b@));
            }
        },
    }
    let mut k: usize = 0;
    while k < a.table_names.len()
        invariant
            a@.wf(),
            b@.wf(),
            k <= a.table_names@.len(),
            out@ == spec_table_block(n1@, n2@, a@, b@) + spec_tables_upto(
                n1@,
                n2@,
                a@,
                b@,
                k as int,
            ),
        decreases a.table_names@.len() - k,
    {
        let t = &a.table_names[k];
        proof {
            assert(t@ == a@.table_names[k as int]);
        }
        let ghost base0 = out@;
        let la = columns_lines_for(a, t);
        let lb = columns_lines_for(b, t);
        match diff_slices(n1, &la, n2, &lb) {
            Some(d) => {
                out.append("table ");
                push_quoted(t.as_str(), &mut out);
                out.append(" column, ");
                out.append(n1);
                out.append(" vs ");
                out.append(n2);
                out.append(":\n");
                out.append(d.as_str());
                proof {
                    assert(out@ =~= base0 + spec_column_block(n1@, n2@, a@, b@, t@));
                }
            },
            None => {
                proof {
                    assert(out@ =~= base0 + spec_column_block(n1@, n2@, a@, b@, t@));
                }
            },
        }
        let ghost base1 = out@;
        let ia = sort_indices(indices_for(a, t));
        let ib = sort_indices(indices_for(b, t));
        proof {
            assert(index_views(ia@) == sorted_indices_of(a@, t@));
            assert(index_views(ib@) == sorted_indices_of(b@, t@));
        }
        let ila = index_lines(&ia);
        let ilb = index_lines(&ib);
        match diff_slices(n1, &ila, n2, &ilb) {
            Some(d) => {
                out.append("table ");
                push_quoted(t.as_str(), &mut out);
                out.append(" indices, ");
                out.append(n1);
                out.append(" vs ");
                out.append(n2);
                out.append(":\n");
                out.append(d.as_str());
                proof {
                    assert(out@ =~= base1 + spec_index_block(n1@, n2@, a@, b@, t@));
                }
            },
            None => {
                proof {
                    assert(out@ =~= base1 + spec_index_block(n1@, n2@, a@, b@, t@));
                }
            },
        }
        let ghost base2 = out@;
        let mut j: usize = 0;
        while j < ia.len()
            invariant
                a@.wf(),
                b@.wf(),
                j <= ia@.len(),
                index_views(ia@) == sorted_indices_of(a@, t@),
                t@ == a@.table_names[k as int],
                out@ == base2 + spec_icols_blocks_upto(n1@, n2@, a@, b@, t@, j as int),
            decreases ia@.len() - j,
        {
            let x = &ia[j];
            proof {
                assert(x@ == sorted_indices_of(a@, t@)[j as int]);
            }
            let ghost base3 = out@;
            let ca = index_column_lines_for(a, &x.name);
            let cb = index_column_lines_for(b, &x.name);
            match diff_slices(n1, &ca, n2, &cb) {
                Some(d) => {
                    out.append("table ");
                    push_quoted(t.as_str(), &mut out);
                    out.append(" index ");
                    let ir = render_index(x);
                    out.append(ir.as_str());
                    out.append(" columns ");
                    out.append(n1);
                    out.append(" vs ");
                    out.append(n2);
                    out.append(":\n");
                    out.append(d.as_str());
                    proof {
                        assert(out@ =~= base3 + spec_icols_block(n1@, n2@, a@, b@, t@, x@));
                    }
                },
                None => {
                    proof {
                        assert(out@ =~= base3 + spec_icols_block(n1@, n2@, a@, b@, t@, x@));
                    }
                },
            }
            proof {
                assert(out@ =~= base2 + spec_icols_blocks_upto(n1@, n2@, a@, b@, t@, j + 1));
            }
            j = j + 1;
        }
        proof {
            assert(out@ =~= base0 + spec_table_report(n1@, n2@, a@, b@, t@));
            assert(out@ =~= spec_table_block(n1@, n2@, a@, b@) + spec_tables_upto(
                n1@,
                n2@,
                a@,
                b@,
                k + 1,
            ));
        }
        k = k + 1;
    }
    if out.as_str().is_empty() {
        None
    } else {
        Some(out)
    }
}

/// How a returned report relates to the two schema snapshots it was
/// computed from.
pub open spec fn reflects(
    rep: Option<String>,
    n1: Seq<char>,
    n2: Seq<char>,
    a: DbSchemaV,
    b: DbSchemaV,
) -> bool {
    &&& a.wf()
    &&& b.wf()
    &&& ((rep is None) <==> spec_report(n1, n2, a, b).len() == 0)
    &&& (rep matches Some(s) ==> s@ == spec_report(n1, n2, a, b) && s@.len() > 0)
}

/// Compares the live schemas behind two connections and reports every
/// structural discrepancy as one labeled, unified-diff-formatted text. No
/// report means the snapshots read from the two catalogs compared equal in
/// every block; a catalog failure aborts the comparison and is returned as
/// an error, never as "no differences".
pub fn get_diffs(n1: &str, c1: &rusqlite::Connection, n2: &str, c2: &rusqlite::Connection) -> (r:
    Result<Option<String>, CatalogError>)
    ensures
        r matches Ok(rep) ==> exists|a: DbSchemaV, b: DbSchemaV| #[trigger] reflects(
            rep,
            n1@,
            n2@,
            a,
            b,
        ),
{
    let a = match snapshot(c1) {
        Ok(s) => s,
        Err(e) => {
            return Err(e);
        },
    };
    let b = match snapshot(c2) {
        Ok(s) => s,
        Err(e) => {
            return Err(e);
        },
    };
    let rep = compare_db_schemas(n1, &a, n2, &b);
    proof {
        assert(reflects(rep, n1@, n2@, a@, b@));
    }
    Ok(rep)
}

} // verus!
