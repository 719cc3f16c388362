//! The canonical comparison order of a table's indices: by name, with the
//! remaining fields breaking ties, so that the sorted sequence is determined
//! by the set of records alone.

use vstd::prelude::*;

verus! {

use vstd::relations::{total_ordering, sorted_by};
use vstd::seq_lib::lemma_sorted_unique;
use vstd::multiset::Multiset;
use crate::records::{Index, IndexV, index_views};
use crate::text::{
    lex_le, str_lex_le, lemma_lex_le_refl, lemma_lex_le_antisym, lemma_lex_le_trans,
    lemma_lex_le_total,
};

/// Name-major total order on index records.
pub open spec fn index_le(a: IndexV, b: IndexV) -> bool {
    if a.name != b.name {
        lex_le(a.name, b.name)
    } else if a.seq_no != b.seq_no {
        a.seq_no < b.seq_no
    } else if a.unique != b.unique {
        !a.unique
    } else if a.origin != b.origin {
        lex_le(a.origin, b.origin)
    } else if a.partial != b.partial {
        !a.partial
    } else {
        true
    }
}

/// `index_le` as a single function value, so every contract speaks of the
/// same term.
pub open spec fn index_leq_fn() -> spec_fn(IndexV, IndexV) -> bool {
    |a: IndexV, b: IndexV| index_le(a, b)
}

pub proof fn lemma_index_le_total_ordering()
    ensures
        total_ordering(index_leq_fn()),
{
    let leq = index_leq_fn();
    assert forall|a: IndexV| #[trigger] leq(a, a) by {
        lemma_lex_le_refl(a.name);
    }
    assert forall|a: IndexV, b: IndexV| #[trigger] leq(a, b) && #[trigger] leq(b, a)
        implies a == b by {
        if a.name != b.name {
            lemma_lex_le_antisym(a.name, b.name);
        } else if a.seq_no != b.seq_no {
        } else if a.unique != b.unique {
        } else if a.origin != b.origin {
            lemma_lex_le_antisym(a.origin, b.origin);
        } else if a.partial != b.partial {
        } else {
            assert(a =~= b);
        }
    }
    assert forall|a: IndexV, b: IndexV, c: IndexV|
        #[trigger] leq(a, b) && #[trigger] leq(b, c) implies leq(a, c) by {
        lemma_lex_le_refl(a.name);
        lemma_lex_le_refl(b.name);
        lemma_lex_le_refl(c.name);
        assert(lex_le(a.name, b.name));
        assert(lex_le(b.name, c.name));
        lemma_lex_le_trans(a.name, b.name, c.name);
        if a.name == c.name {
            lemma_lex_le_antisym(a.name, b.name);
            lemma_lex_le_antisym(b.name, c.name);
            assert(a.name == b.name && b.name == c.name);
            if a.seq_no == c.seq_no {
                assert(a.seq_no == b.seq_no && b.seq_no == c.seq_no);
                if a.unique == c.unique {
                    assert(a.unique == b.unique && b.unique == c.unique);
                    lemma_lex_le_refl(a.origin);
                    lemma_lex_le_refl(b.origin);
                    lemma_lex_le_refl(c.origin);
                    assert(lex_le(a.origin, b.origin));
                    assert(lex_le(b.origin, c.origin));
                    lemma_lex_le_trans(a.origin, b.origin, c.origin);
                    if a.origin == c.origin {
                        lemma_lex_le_antisym(a.origin, b.origin);
                        lemma_lex_le_antisym(b.origin, c.origin);
                    }
                }
            }
        }
    }
    assert forall|a: IndexV, b: IndexV| #[trigger] leq(a, b) || #[trigger] leq(b, a) by {
        if a.name != b.name {
            lemma_lex_le_total(a.name, b.name);
        } else if a.origin != b.origin {
            lemma_lex_le_total(a.origin, b.origin);
        }
    }
}

fn index_le_exec(a: &Index, b: &Index) -> (r: bool)
    ensures
        r == index_le(a@, b@),
{
    if a.name != b.name {
        str_lex_le(a.name.as_str(), b.name.as_str())
    } else if a.seq_no != b.seq_no {
        a.seq_no < b.seq_no
    } else if a.unique != b.unique {
        !a.unique
    } else if a.origin != b.origin {
        str_lex_le(a.origin.as_str(), b.origin.as_str())
    } else if a.partial != b.partial {
        !a.partial
    } else {
        true
    }
}

/// Sorts index records into the canonical comparison order.
pub fn sort_indices(v: Vec<Index>) -> (r: Vec<Index>)
    ensures
        index_views(r@) == index_views(v@).sort_by(index_leq_fn()),
{
    proof {
        lemma_index_le_total_ordering();
    }
    let ghost orig = index_views(v@);
    let mut src = v;
    let mut out: Vec<Index> = Vec::new();
    proof {
        broadcast use vstd::seq_lib::group_to_multiset_ensures;
        broadcast use vstd::multiset::group_multiset_axioms;

        assert(index_views(out@) =~= Seq::<IndexV>::empty());
        assert(index_views(out@).to_multiset() =~= Multiset::<IndexV>::empty());
        assert(index_views(out@).to_multiset().add(index_views(src@).to_multiset())
            =~= orig.to_multiset());
    }
    while src.len() > 0
        invariant
            total_ordering(index_leq_fn()),
            orig == index_views(v@),
            sorted_by(index_views(out@), index_leq_fn()),
            forall|p: int, q: int|
                0 <= p < out@.len() && 0 <= q < src@.len() ==> index_le(
                    #[trigger] index_views(out@)[p],
                    #[trigger] index_views(src@)[q],
                ),
            index_views(out@).to_multiset().add(index_views(src@).to_multiset())
                =~= orig.to_multiset(),
        decreases src@.len(),
    {
        let mut m: usize = 0;
        let mut j: usize = 1;
        while j < src.len()
            invariant
                total_ordering(index_leq_fn()),
                m < j,
                j <= src@.len(),
                src@.len() > 0,
                forall|k: int|
                    0 <= k < j ==> index_le(
                        index_views(src@)[m as int],
                        #[trigger] index_views(src@)[k],
                    ),
            decreases src@.len() - j,
        {
            if index_le_exec(&src[j], &src[m]) {
                proof {
                    let leq = index_leq_fn();
                    assert forall|k: int| 0 <= k < j + 1 implies index_le(
                        index_views(src@)[j as int],
                        #[trigger] index_views(src@)[k],
                    ) by {
                        if k < j {
                            assert(leq(index_views(src@)[j as int], index_views(src@)[m as int]));
                            assert(leq(index_views(src@)[m as int], index_views(src@)[k]));
                        } else {
                            assert(leq(index_views(src@)[j as int], index_views(src@)[j as int]));
                        }
                    }
                }
                m = j;
            } else {
                proof {
                    let leq = index_leq_fn();
                    assert(leq(index_views(src@)[m as int], index_views(src@)[j as int])
                        || leq(index_views(src@)[j as int], index_views(src@)[m as int]));
                }
            }
            j = j + 1;
        }
        let ghost pre_src = src@;
        let ghost pre_out = out@;
        let x = src.remove(m);
        out.push(x);
        proof {
            broadcast use vstd::seq_lib::group_to_multiset_ensures;

            let leq = index_leq_fn();
            assert(index_views(pre_src.remove(m as int)) =~= index_views(pre_src).remove(
                m as int,
            ));
            assert(index_views(pre_out.push(x)) =~= index_views(pre_out).push(x@));
            assert(index_views(out@).to_multiset() =~= index_views(pre_out).to_multiset().insert(
                x@,
            ));
            assert(index_views(src@).to_multiset() =~= index_views(pre_src).to_multiset().remove(
                x@,
            ));
            assert(index_views(pre_src).to_multiset().contains(x@));
            assert(index_views(out@).to_multiset().add(index_views(src@).to_multiset())
                =~= orig.to_multiset());
            assert forall|p: int, q: int|
                0 <= p < out@.len() && 0 <= q < src@.len() implies index_le(
                index_views(out@)[p],
                index_views(src@)[q],
            ) by {
                assert(index_views(src@)[q] == index_views(pre_src)[if q < m as int {
                    q
                } else {
                    q + 1
                }]);
                if p < out@.len() - 1 {
                    assert(index_views(out@)[p] == index_views(pre_out)[p]);
                } else {
                    assert(index_views(out@)[p] == x@);
                }
            }
            assert(sorted_by(index_views(out@), leq)) by {
                assert forall|p: int, q: int| 0 <= p < q < index_views(out@).len() implies #[trigger] leq(
                    index_views(out@)[p],
                    index_views(out@)[q],
                ) by {
                    if q < out@.len() - 1 {
                        assert(index_views(pre_out)[p] == index_views(out@)[p]);
                        assert(index_views(pre_out)[q] == index_views(out@)[q]);
                        assert(sorted_by(index_views(pre_out), leq));
                    } else {
                        assert(index_views(out@)[q] == x@);
                        assert(index_le(index_views(pre_out)[p], index_views(pre_src)[m as int]));
                    }
                }
            }
        }
    }
    proof {
        broadcast use vstd::seq_lib::group_to_multiset_ensures;

        let leq = index_leq_fn();
        assert(index_views(src@).to_multiset() =~= Multiset::<IndexV>::empty());
        assert(index_views(out@).to_multiset() =~= orig.to_multiset());
        orig.lemma_sort_by_ensures(leq);
        lemma_sorted_unique(index_views(out@), orig.sort_by(leq), leq);
    }
    out
}

} // verus!
