//! What holds of the comparison: a report is empty exactly when every
//! compared sequence matches; comparing a snapshot with itself reports
//! nothing; whether anything is reported does not depend on the order of
//! the two arguments; a mismatch anywhere guarantees a report; and the
//! order indices are compared in depends only on the set of index records,
//! not on the catalog's enumeration order.

use vstd::prelude::*;

verus! {

use vstd::seq_lib::lemma_sorted_unique;
use crate::records::{
    IndexV, IndexColumnV, spec_column_lines, spec_index_lines, spec_index_column_lines,
    spec_render_index, spec_render_index_column,
};
use crate::schema::{DbSchemaV, columns_of, indices_of, icols_of};
use crate::order::{index_leq_fn, lemma_index_le_total_ordering};
use crate::distinct::{lemma_render_index_injective, lemma_render_index_column_injective};
use crate::compare::{
    sorted_indices_of, spec_table_block, spec_column_block, spec_index_block, spec_icols_block,
    spec_icols_blocks_upto, spec_table_report, spec_tables_upto, spec_report,
};

/// One table compares clean: equal column lines, equal sorted index lines,
/// and equal column-binding lines for each of the first schema's indices.
pub open spec fn table_matches(a: DbSchemaV, b: DbSchemaV, t: Seq<char>) -> bool {
    &&& spec_column_lines(columns_of(a, t)) == spec_column_lines(columns_of(b, t))
    &&& spec_index_lines(sorted_indices_of(a, t)) == spec_index_lines(sorted_indices_of(b, t))
    &&& forall|j: int|
        0 <= j < sorted_indices_of(a, t).len() ==> spec_index_column_lines(
            icols_of(a, (#[trigger] sorted_indices_of(a, t)[j]).name),
        ) == spec_index_column_lines(icols_of(b, sorted_indices_of(a, t)[j].name))
}

/// Two snapshots compare clean: equal table lists and every table of the
/// first matching.
pub open spec fn schemas_match(a: DbSchemaV, b: DbSchemaV) -> bool {
    &&& a.table_names == b.table_names
    &&& forall|k: int|
        0 <= k < a.table_names.len() ==> table_matches(a, b, #[trigger] a.table_names[k])
}

proof fn lemma_table_block_len(n1: Seq<char>, n2: Seq<char>, a: DbSchemaV, b: DbSchemaV)
    ensures
        spec_table_block(n1, n2, a, b).len() == 0 <==> a.table_names == b.table_names,
{
    if a.table_names != b.table_names {
        reveal_strlit("table list mismatch, ");
    }
}

proof fn lemma_column_block_len(
    n1: Seq<char>,
    n2: Seq<char>,
    a: DbSchemaV,
    b: DbSchemaV,
    t: Seq<char>,
)
    ensures
        spec_column_block(n1, n2, a, b, t).len() == 0 <==> spec_column_lines(columns_of(a, t))
            == spec_column_lines(columns_of(b, t)),
{
    if spec_column_lines(columns_of(a, t)) != spec_column_lines(columns_of(b, t)) {
        reveal_strlit("table ");
    }
}

proof fn lemma_index_block_len(
    n1: Seq<char>,
    n2: Seq<char>,
    a: DbSchemaV,
    b: DbSchemaV,
    t: Seq<char>,
)
    ensures
        spec_index_block(n1, n2, a, b, t).len() == 0 <==> spec_index_lines(
            sorted_indices_of(a, t),
        ) == spec_index_lines(sorted_indices_of(b, t)),
{
    if spec_index_lines(sorted_indices_of(a, t)) != spec_index_lines(sorted_indices_of(b, t)) {
        reveal_strlit("table ");
    }
}

proof fn lemma_icols_block_len(
    n1: Seq<char>,
    n2: Seq<char>,
    a: DbSchemaV,
    b: DbSchemaV,
    t: Seq<char>,
    x: crate::records::IndexV,
)
    ensures
        spec_icols_block(n1, n2, a, b, t, x).len() == 0 <==> spec_index_column_lines(
            icols_of(a, x.name),
        ) == spec_index_column_lines(icols_of(b, x.name)),
{
    if spec_index_column_lines(icols_of(a, x.name)) != spec_index_column_lines(
        icols_of(b, x.name),
    ) {
        reveal_strlit("table ");
    }
}

proof fn lemma_icols_upto_iff(
    n1: Seq<char>,
    n2: Seq<char>,
    a: DbSchemaV,
    b: DbSchemaV,
    t: Seq<char>,
    j: int,
)
    ensures
        spec_icols_blocks_upto(n1, n2, a, b, t, j).len() == 0 <==> forall|i: int|
            0 <= i < j ==> (#[trigger] spec_icols_block(
                n1,
                n2,
                a,
                b,
                t,
                sorted_indices_of(a, t)[i],
            )).len() == 0,
    decreases j,
{
    if j > 0 {
        lemma_icols_upto_iff(n1, n2, a, b, t, j - 1);
    }
}

proof fn lemma_table_report_iff(
    n1: Seq<char>,
    n2: Seq<char>,
    a: DbSchemaV,
    b: DbSchemaV,
    t: Seq<char>,
)
    ensures
        spec_table_report(n1, n2, a, b, t).len() == 0 <==> table_matches(a, b, t),
{
    lemma_column_block_len(n1, n2, a, b, t);
    lemma_index_block_len(n1, n2, a, b, t);
    let srt = sorted_indices_of(a, t);
    let m = srt.len() as int;
    lemma_icols_upto_iff(n1, n2, a, b, t, m);
    if spec_table_report(n1, n2, a, b, t).len() == 0 {
        assert(spec_column_block(n1, n2, a, b, t).len() == 0);
        assert(spec_index_block(n1, n2, a, b, t).len() == 0);
        assert(spec_icols_blocks_upto(n1, n2, a, b, t, m).len() == 0);
        assert forall|j: int| 0 <= j < srt.len() implies spec_index_column_lines(
            icols_of(a, (#[trigger] srt[j]).name),
        ) == spec_index_column_lines(icols_of(b, srt[j].name)) by {
            assert(spec_icols_block(n1, n2, a, b, t, srt[j]).len() == 0);
            lemma_icols_block_len(n1, n2, a, b, t, srt[j]);
        }
        assert(table_matches(a, b, t));
    } else if table_matches(a, b, t) {
        assert forall|i: int| 0 <= i < m implies (#[trigger] spec_icols_block(
            n1,
            n2,
            a,
            b,
            t,
            srt[i],
        )).len() == 0 by {
            lemma_icols_block_len(n1, n2, a, b, t, srt[i]);
            assert(spec_index_column_lines(icols_of(a, srt[i].name))
                == spec_index_column_lines(icols_of(b, srt[i].name)));
        }
        assert(spec_icols_blocks_upto(n1, n2, a, b, t, m).len() == 0);
        assert(false);
    }
}

proof fn lemma_tables_upto_iff(n1: Seq<char>, n2: Seq<char>, a: DbSchemaV, b: DbSchemaV, k: int)
    ensures
        spec_tables_upto(n1, n2, a, b, k).len() == 0 <==> forall|i: int|
            0 <= i < k ==> (#[trigger] spec_table_report(
                n1,
                n2,
                a,
                b,
                a.table_names[i],
            )).len() == 0,
    decreases k,
{
    if k > 0 {
        lemma_tables_upto_iff(n1, n2, a, b, k - 1);
    }
}

/// A report renders empty exactly when the two snapshots compare clean in
/// every block.
pub proof fn lemma_report_empty_iff(n1: Seq<char>, n2: Seq<char>, a: DbSchemaV, b: DbSchemaV)
    ensures
        spec_report(n1, n2, a, b).len() == 0 <==> schemas_match(a, b),
{
    lemma_table_block_len(n1, n2, a, b);
    let m = a.table_names.len() as int;
    lemma_tables_upto_iff(n1, n2, a, b, m);
    if spec_report(n1, n2, a, b).len() == 0 {
        assert(spec_table_block(n1, n2, a, b).len() == 0);
        assert(spec_tables_upto(n1, n2, a, b, m).len() == 0);
        assert forall|k: int| 0 <= k < a.table_names.len() implies table_matches(
            a,
            b,
            #[trigger] a.table_names[k],
        ) by {
            assert(spec_table_report(n1, n2, a, b, a.table_names[k]).len() == 0);
            lemma_table_report_iff(n1, n2, a, b, a.table_names[k]);
        }
        assert(schemas_match(a, b));
    } else if schemas_match(a, b) {
        assert forall|i: int| 0 <= i < m implies (#[trigger] spec_table_report(
            n1,
            n2,
            a,
            b,
            a.table_names[i],
        )).len() == 0 by {
            lemma_table_report_iff(n1, n2, a, b, a.table_names[i]);
            assert(table_matches(a, b, a.table_names[i]));
        }
        assert(spec_tables_upto(n1, n2, a, b, m).len() == 0);
        assert(false);
    }
}

/// Reflexivity: comparing any snapshot with itself, under any labels,
/// reports no differences.
pub proof fn lemma_compare_reflexive(n1: Seq<char>, n2: Seq<char>, s: DbSchemaV)
    ensures
        spec_report(n1, n2, s, s).len() == 0,
{
    assert(schemas_match(s, s));
    lemma_report_empty_iff(n1, n2, s, s);
}

/// Sensitivity: differing table lists alone guarantee a non-empty report.
pub proof fn lemma_table_list_sensitive(n1: Seq<char>, n2: Seq<char>, a: DbSchemaV, b: DbSchemaV)
    requires
        a.table_names != b.table_names,
    ensures
        spec_report(n1, n2, a, b).len() > 0,
{
    lemma_report_empty_iff(n1, n2, a, b);
}

/// Sensitivity: a mismatch in any table of the first schema, in its
/// columns, its sorted index list, or any index's column bindings,
/// guarantees a non-empty report.
pub proof fn lemma_table_mismatch_sensitive(
    n1: Seq<char>,
    n2: Seq<char>,
    a: DbSchemaV,
    b: DbSchemaV,
    k: int,
)
    requires
        0 <= k < a.table_names.len(),
        !table_matches(a, b, a.table_names[k]),
    ensures
        spec_report(n1, n2, a, b).len() > 0,
{
    lemma_report_empty_iff(n1, n2, a, b);
}

/// Equal rendered index lines mean equal index records: the renderer shows
/// every field and is injective.
pub proof fn lemma_index_lines_injective(s1: Seq<IndexV>, s2: Seq<IndexV>)
    requires
        spec_index_lines(s1) == spec_index_lines(s2),
    ensures
        s1 == s2,
{
    assert(spec_index_lines(s1).len() == s1.len());
    assert(spec_index_lines(s2).len() == s2.len());
    assert forall|i: int| 0 <= i < s1.len() implies s1[i] == s2[i] by {
        assert(spec_index_lines(s1)[i] == spec_render_index(s1[i]));
        assert(spec_index_lines(s2)[i] == spec_render_index(s2[i]));
        lemma_render_index_injective(s1[i], s2[i]);
    }
    assert(s1 =~= s2);
}

/// Equal rendered index-column lines mean equal binding records.
pub proof fn lemma_index_column_lines_injective(s1: Seq<IndexColumnV>, s2: Seq<IndexColumnV>)
    requires
        spec_index_column_lines(s1) == spec_index_column_lines(s2),
    ensures
        s1 == s2,
{
    assert(spec_index_column_lines(s1).len() == s1.len());
    assert(spec_index_column_lines(s2).len() == s2.len());
    assert forall|i: int| 0 <= i < s1.len() implies s1[i] == s2[i] by {
        assert(spec_index_column_lines(s1)[i] == spec_render_index_column(s1[i]));
        assert(spec_index_column_lines(s2)[i] == spec_render_index_column(s2[i]));
        lemma_render_index_column_injective(s1[i], s2[i]);
    }
    assert(s1 =~= s2);
}

/// Symmetry of detection, for the outcome: when two snapshots compare
/// clean, so do the swapped snapshots — with `lemma_report_empty_iff`,
/// either order of arguments reports a difference, or neither does.
pub proof fn lemma_match_symmetric(a: DbSchemaV, b: DbSchemaV)
    requires
        schemas_match(a, b),
    ensures
        schemas_match(b, a),
{
    assert forall|k: int| 0 <= k < b.table_names.len() implies table_matches(
        b,
        a,
        #[trigger] b.table_names[k],
    ) by {
        let t = b.table_names[k];
        assert(t == a.table_names[k]);
        assert(table_matches(a, b, t));
        lemma_index_lines_injective(sorted_indices_of(a, t), sorted_indices_of(b, t));
        assert forall|j: int| 0 <= j < sorted_indices_of(b, t).len()
            implies spec_index_column_lines(
            icols_of(b, (#[trigger] sorted_indices_of(b, t)[j]).name),
        ) == spec_index_column_lines(icols_of(a, sorted_indices_of(b, t)[j].name)) by {
            assert(sorted_indices_of(b, t)[j] == sorted_indices_of(a, t)[j]);
        }
    }
}

/// Order sensitivity for index columns: a difference in the column bindings
/// of any index of a table of the first schema — in any field, or in their
/// intra-index order, which is never re-sorted — guarantees a non-empty
/// report.
pub proof fn lemma_index_columns_sensitive(
    n1: Seq<char>,
    n2: Seq<char>,
    a: DbSchemaV,
    b: DbSchemaV,
    k: int,
    j: int,
)
    requires
        0 <= k < a.table_names.len(),
        0 <= j < sorted_indices_of(a, a.table_names[k]).len(),
        icols_of(a, sorted_indices_of(a, a.table_names[k])[j].name) != icols_of(
            b,
            sorted_indices_of(a, a.table_names[k])[j].name,
        ),
    ensures
        spec_report(n1, n2, a, b).len() > 0,
{
    let t = a.table_names[k];
    let n = sorted_indices_of(a, t)[j].name;
    if spec_index_column_lines(icols_of(a, n)) == spec_index_column_lines(icols_of(b, n)) {
        lemma_index_column_lines_injective(icols_of(a, n), icols_of(b, n));
    }
    assert(!table_matches(a, b, t));
    lemma_report_empty_iff(n1, n2, a, b);
}

/// Order independence for indices: the order a table's indices are compared
/// in depends only on the set of index records the catalog reports, not on
/// the order it enumerates them in.
pub proof fn lemma_index_order_independent(s1: DbSchemaV, s2: DbSchemaV, t: Seq<char>)
    requires
        indices_of(s1, t).to_multiset() == indices_of(s2, t).to_multiset(),
    ensures
        sorted_indices_of(s1, t) == sorted_indices_of(s2, t),
{
    lemma_index_le_total_ordering();
    indices_of(s1, t).lemma_sort_by_ensures(index_leq_fn());
    indices_of(s2, t).lemma_sort_by_ensures(index_leq_fn());
    lemma_sorted_unique(sorted_indices_of(s1, t), sorted_indices_of(s2, t), index_leq_fn());
}

/// Order independence for indices, end to end: two snapshots that agree on
/// their table lists, their columns, their index-column bindings, and the
/// set of each table's indices compare with no differences, whatever order
/// each catalog enumerated the indices in.
pub proof fn lemma_report_order_independent(
    n1: Seq<char>,
    n2: Seq<char>,
    a: DbSchemaV,
    b: DbSchemaV,
)
    requires
        a.table_names == b.table_names,
        forall|t: Seq<char>| #[trigger] columns_of(a, t) == columns_of(b, t),
        forall|t: Seq<char>| (#[trigger] indices_of(a, t)).to_multiset() == indices_of(
            b,
            t,
        ).to_multiset(),
        forall|n: Seq<char>| #[trigger] icols_of(a, n) == icols_of(b, n),
    ensures
        spec_report(n1, n2, a, b).len() == 0,
{
    assert forall|k: int| 0 <= k < a.table_names.len() implies table_matches(
        a,
        b,
        #[trigger] a.table_names[k],
    ) by {
        let t = a.table_names[k];
        lemma_index_order_independent(a, b, t);
    }
    lemma_report_empty_iff(n1, n2, a, b);
}

} // verus!
