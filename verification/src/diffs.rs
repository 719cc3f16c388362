//! The sequence-diff engine: a longest-common-subsequence alignment of two
//! line sequences, rendered in unified-diff convention.

use vstd::prelude::*;

verus! {

use vstd::string::StringExecFns;
use crate::records::line_views;

/// One aligned line of a computed diff.
pub enum DiffLine {
    Removed(String),
    Shared(String),
    Added(String),
}

/// Tag 0: the line stands only in the left sequence; 1: in both; 2: only in
/// the right.
pub open spec fn line_view(d: DiffLine) -> (int, Seq<char>) {
    match d {
        DiffLine::Removed(s) => (0int, s@),
        DiffLine::Shared(s) => (1int, s@),
        DiffLine::Added(s) => (2int, s@),
    }
}

pub open spec fn diff_views(ds: Seq<DiffLine>) -> Seq<(int, Seq<char>)> {
    ds.map_values(|d: DiffLine| line_view(d))
}

/// The lines of an alignment that came from the left sequence, in order.
pub open spec fn keep_left(d: Seq<(int, Seq<char>)>) -> Seq<Seq<char>>
    decreases d.len(),
{
    if d.len() == 0 {
        Seq::empty()
    } else {
        (if d[0].0 != 2 {
            seq![d[0].1]
        } else {
            Seq::<Seq<char>>::empty()
        }) + keep_left(d.drop_first())
    }
}

/// The lines of an alignment that came from the right sequence, in order.
pub open spec fn keep_right(d: Seq<(int, Seq<char>)>) -> Seq<Seq<char>>
    decreases d.len(),
{
    if d.len() == 0 {
        Seq::empty()
    } else {
        (if d[0].0 != 0 {
            seq![d[0].1]
        } else {
            Seq::<Seq<char>>::empty()
        }) + keep_right(d.drop_first())
    }
}

/// The alignment that the longest-common-subsequence diff computes for two
/// line sequences. It is a function of its arguments alone.
pub uninterp spec fn lcs_diff(a: Seq<Seq<char>>, b: Seq<Seq<char>>) -> Seq<(int, Seq<char>)>;

/// Relies on diff::slice: it aligns two slices on a longest common
/// subsequence. Every element of the left slice appears once, in order, as a
/// removed or shared line; every element of the right slice once, in order,
/// as an added or shared line; a shared line pairs equal elements; and two
/// elementwise-equal slices align with every line shared.
#[verifier::external_body]
fn lcs_lines(a: &Vec<String>, b: &Vec<String>) -> (r: Vec<DiffLine>)
    ensures
        diff_views(r@) == lcs_diff(line_views(a@), line_views(b@)),
        keep_left(diff_views(r@)) == line_views(a@),
        keep_right(diff_views(r@)) == line_views(b@),
        line_views(a@) == line_views(b@) ==> forall|i: int|
            0 <= i < r@.len() ==> #[trigger] diff_views(r@)[i].0 == 1,
{
    let mut out = Vec::with_capacity(a.len());
    for item in diff::slice(&a[..], &b[..]) {
        out.push(match item {
            diff::Result::Left(s) => DiffLine::Removed(s.clone()),
            diff::Result::Both(s, _) => DiffLine::Shared(s.clone()),
            diff::Result::Right(s) => DiffLine::Added(s.clone()),
        });
    }
    out
}

/// An aligned line as it is printed: its marker, the line, a newline.
pub open spec fn line_of(e: (int, Seq<char>)) -> Seq<char> {
    (if e.0 == 0 {
        seq!['-']
    } else if e.0 == 1 {
        seq![' ']
    } else {
        seq!['+']
    }) + e.1 + seq!['\n']
}

/// The printed form of the first `i` lines of an alignment.
pub open spec fn diff_body_upto(d: Seq<(int, Seq<char>)>, i: int) -> Seq<char>
    decreases i,
{
    if i <= 0 {
        Seq::empty()
    } else {
        diff_body_upto(d, i - 1) + line_of(d[i - 1])
    }
}

pub open spec fn spec_header(n1: Seq<char>, n2: Seq<char>) -> Seq<char> {
    "--- "@ + n1 + "\n+++ "@ + n2 + "\n"@
}

/// The full rendered diff of two line sequences under the two labels.
pub open spec fn spec_diff_text(
    n1: Seq<char>,
    n2: Seq<char>,
    a: Seq<Seq<char>>,
    b: Seq<Seq<char>>,
) -> Seq<char> {
    spec_header(n1, n2) + diff_body_upto(lcs_diff(a, b), lcs_diff(a, b).len() as int)
}

proof fn lemma_all_shared(d: Seq<(int, Seq<char>)>)
    requires
        forall|i: int| 0 <= i < d.len() ==> #[trigger] d[i].0 == 1,
    ensures
        keep_left(d) == keep_right(d),
    decreases d.len(),
{
    if d.len() > 0 {
        let rest = d.drop_first();
        assert forall|i: int| 0 <= i < rest.len() implies #[trigger] rest[i].0 == 1 by {
            assert(rest[i] == d[i + 1]);
        }
        lemma_all_shared(d.drop_first());
        assert(keep_left(d) =~= keep_right(d));
    } else {
        assert(keep_left(d) =~= keep_right(d));
    }
}

/// If the two line sequences differ, returns their unified diff under the
/// two labels: the two-line header, then one line per aligned element.
/// Returns nothing exactly when the sequences are elementwise identical.
pub fn diff_slices(name1: &str, lines1: &Vec<String>, name2: &str, lines2: &Vec<String>) -> (r:
    Option<String>)
    ensures
        (r is None) <==> line_views(lines1@) == line_views(lines2@),
        r matches Some(s) ==> s@ == spec_diff_text(
            name1@,
            name2@,
            line_views(lines1@),
            line_views(lines2@),
        ),
        r matches Some(s) ==> s@.len() > 0,
{
    let items = lcs_lines(lines1, lines2);
    let ghost d = diff_views(items@);
    let mut out = String::new();
    out.append("--- ");
    out.append(name1);
    out.append("\n+++ ");
    out.append(name2);
    out.append("\n");
    proof {
        assert(out@ =~= spec_header(name1@, name2@));
    }
    let mut changed = false;
    let mut i: usize = 0;
    while i < items.len()
        invariant
            i <= items@.len(),
            d == diff_views(items@),
            out@ == spec_header(name1@, name2@) + diff_body_upto(d, i as int),
            changed <==> exists|j: int| 0 <= j < i && #[trigger] d[j].0 != 1,
        decreases items@.len() - i,
    {
        proof {
            assert(d[i as int] == line_view(items@[i as int]));
        }
        match &items[i] {
            DiffLine::Removed(s) => {
                changed = true;
                out.push('-');
                out.append(s.as_str());
                out.push('\n');
            },
            DiffLine::Shared(s) => {
                out.push(' ');
                out.append(s.as_str());
                out.push('\n');
            },
            DiffLine::Added(s) => {
                changed = true;
                out.push('+');
                out.append(s.as_str());
                out.push('\n');
            },
        }
        proof {
            assert(out@ =~= spec_header(name1@, name2@) + diff_body_upto(d, i + 1));
        }
        i = i + 1;
    }
    if !changed {
        proof {
            assert(forall|j: int| 0 <= j < d.len() ==> #[trigger] d[j].0 == 1);
            lemma_all_shared(d);
        }
        return None;
    }
    proof {
        reveal_strlit("--- ");
        assert(out@.len() >= spec_header(name1@, name2@).len());
        assert(spec_header(name1@, name2@).len() >= "--- "@.len());
        assert(diff_body_upto(d, d.len() as int).len() >= 0);
    }
    Some(out)
}

} // verus!
