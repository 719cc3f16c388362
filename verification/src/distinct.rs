//! The record renderers are injective: two records render to the same line
//! only if they are equal. Equality of rendered lines, which the diff
//! engine compares, therefore coincides with structural record equality.

use vstd::prelude::*;

verus! {

use crate::text::{dec_digits, digit_char, spec_escape, esc_char, spec_quoted};
use crate::records::{IndexV, IndexColumnV, spec_render_index, spec_render_index_column, spec_bool};

pub open spec fn is_digit_char(c: char) -> bool {
    ('0' as int) <= (c as int) <= ('9' as int)
}

proof fn lemma_digit_char_digit(d: nat)
    requires
        d < 10,
    ensures
        is_digit_char(digit_char(d)),
        (digit_char(d) as int) == ('0' as int) + d,
{
}

proof fn lemma_dec_digits_are_digits(n: nat)
    ensures
        forall|i: int| 0 <= i < dec_digits(n).len() ==> is_digit_char(#[trigger] dec_digits(n)[i]),
        dec_digits(n).len() >= 1,
    decreases n,
{
    if n < 10 {
        lemma_digit_char_digit(n);
    } else {
        lemma_dec_digits_are_digits(n / 10);
        lemma_digit_char_digit(n % 10);
        assert forall|i: int| 0 <= i < dec_digits(n).len() implies is_digit_char(
            #[trigger] dec_digits(n)[i],
        ) by {
            if i < dec_digits(n / 10).len() {
                assert(dec_digits(n)[i] == dec_digits(n / 10)[i]);
            } else {
                assert(dec_digits(n)[i] == digit_char(n % 10));
            }
        }
    }
}

proof fn lemma_dec_digits_injective(m: nat, n: nat)
    requires
        dec_digits(m) == dec_digits(n),
    ensures
        m == n,
    decreases m + n,
{
    lemma_dec_digits_are_digits(m);
    lemma_dec_digits_are_digits(n);
    if m < 10 && n < 10 {
        lemma_digit_char_digit(m);
        lemma_digit_char_digit(n);
        assert(dec_digits(m)[0] == digit_char(m));
        assert(dec_digits(n)[0] == digit_char(n));
    } else if m < 10 {
        assert(dec_digits(n).len() == dec_digits(n / 10).len() + 1);
        lemma_dec_digits_are_digits(n / 10);
        assert(dec_digits(m).len() == 1);
        assert(false);
    } else if n < 10 {
        assert(dec_digits(m).len() == dec_digits(m / 10).len() + 1);
        lemma_dec_digits_are_digits(m / 10);
        assert(dec_digits(n).len() == 1);
        assert(false);
    } else {
        let dm = dec_digits(m / 10);
        let dn = dec_digits(n / 10);
        assert(dm.push(digit_char(m % 10)) == dn.push(digit_char(n % 10)));
        assert(dm.push(digit_char(m % 10)).len() == dm.len() + 1);
        assert(dm.len() == dn.len());
        assert(dm.push(digit_char(m % 10))[dm.len() as int] == digit_char(m % 10));
        assert(dn.push(digit_char(n % 10))[dn.len() as int] == digit_char(n % 10));
        assert(digit_char(m % 10) == digit_char(n % 10));
        lemma_digit_char_digit(m % 10);
        lemma_digit_char_digit(n % 10);
        assert(m % 10 == n % 10);
        assert forall|i: int| 0 <= i < dm.len() implies dm[i] == dn[i] by {
            assert(dm.push(digit_char(m % 10))[i] == dm[i]);
            assert(dn.push(digit_char(n % 10))[i] == dn[i]);
        }
        assert(dm =~= dn);
        lemma_dec_digits_injective(m / 10, n / 10);
    }
}

proof fn lemma_cancel_left(x: Seq<char>, y: Seq<char>, z: Seq<char>)
    requires
        x + y == x + z,
    ensures
        y == z,
{
    assert((x + y).len() == x.len() + y.len());
    assert((x + z).len() == x.len() + z.len());
    assert(y.len() == z.len());
    assert forall|i: int| 0 <= i < y.len() implies y[i] == z[i] by {
        assert((x + y)[x.len() + i] == y[i]);
        assert((x + z)[x.len() + i] == z[i]);
    }
    assert(y =~= z);
}

/// A run of decimal digits followed by a non-digit determines itself: the
/// run and the rest can be read back off the concatenation.
proof fn lemma_digit_run_cut(d1: Seq<char>, r1: Seq<char>, d2: Seq<char>, r2: Seq<char>)
    requires
        d1 + r1 == d2 + r2,
        forall|i: int| 0 <= i < d1.len() ==> is_digit_char(#[trigger] d1[i]),
        forall|i: int| 0 <= i < d2.len() ==> is_digit_char(#[trigger] d2[i]),
        r1.len() > 0,
        r2.len() > 0,
        !is_digit_char(r1[0]),
        !is_digit_char(r2[0]),
    ensures
        d1 == d2,
        r1 == r2,
{
    if d1.len() < d2.len() {
        assert((d1 + r1)[d1.len() as int] == r1[0]);
        assert((d2 + r2)[d1.len() as int] == d2[d1.len() as int]);
        assert(false);
    } else if d2.len() < d1.len() {
        assert((d2 + r2)[d2.len() as int] == r2[0]);
        assert((d1 + r1)[d2.len() as int] == d1[d2.len() as int]);
        assert(false);
    } else {
        assert forall|i: int| 0 <= i < d1.len() implies d1[i] == d2[i] by {
            assert((d1 + r1)[i] == d1[i]);
            assert((d2 + r2)[i] == d2[i]);
        }
        assert(d1 =~= d2);
        lemma_cancel_left(d1, r1, r2);
    }
}

/// An escaped string closed by an unescaped double quote determines itself.
proof fn lemma_escape_cut(a: Seq<char>, r1: Seq<char>, b: Seq<char>, r2: Seq<char>)
    requires
        spec_escape(a) + seq!['"'] + r1 == spec_escape(b) + seq!['"'] + r2,
    ensures
        a == b,
        r1 == r2,
    decreases a.len() + b.len(),
{
    let ea = spec_escape(a) + seq!['"'] + r1;
    let eb = spec_escape(b) + seq!['"'] + r2;
    if a.len() == 0 && b.len() == 0 {
        assert(a =~= b);
        assert(seq!['"'] + r1 == seq!['"'] + r2);
        lemma_cancel_left(seq!['"'], r1, r2);
    } else if a.len() == 0 {
        assert(ea[0] == '"');
        assert(spec_escape(b) == esc_char(b[0]) + spec_escape(b.drop_first()));
        assert(eb[0] == esc_char(b[0])[0]);
        if b[0] == '"' || b[0] == '\\' {
            assert(esc_char(b[0])[0] == '\\');
        } else {
            assert(esc_char(b[0])[0] == b[0]);
        }
        assert(false);
    } else if b.len() == 0 {
        assert(eb[0] == '"');
        assert(spec_escape(a) == esc_char(a[0]) + spec_escape(a.drop_first()));
        assert(ea[0] == esc_char(a[0])[0]);
        if a[0] == '"' || a[0] == '\\' {
            assert(esc_char(a[0])[0] == '\\');
        } else {
            assert(esc_char(a[0])[0] == a[0]);
        }
        assert(false);
    } else {
        assert(spec_escape(a) == esc_char(a[0]) + spec_escape(a.drop_first()));
        assert(spec_escape(b) == esc_char(b[0]) + spec_escape(b.drop_first()));
        let ta = spec_escape(a.drop_first()) + seq!['"'] + r1;
        let tb = spec_escape(b.drop_first()) + seq!['"'] + r2;
        assert(ea =~= esc_char(a[0]) + ta);
        assert(eb =~= esc_char(b[0]) + tb);
        let ha = a[0] == '"' || a[0] == '\\';
        let hb = b[0] == '"' || b[0] == '\\';
        assert(ea[0] == esc_char(a[0])[0]);
        assert(eb[0] == esc_char(b[0])[0]);
        if ha && hb {
            assert(ea[1] == esc_char(a[0])[1]);
            assert(eb[1] == esc_char(b[0])[1]);
            assert(a[0] == b[0]);
        } else if ha && !hb {
            assert(esc_char(a[0])[0] == '\\');
            assert(esc_char(b[0])[0] == b[0]);
            assert(false);
        } else if !ha && hb {
            assert(esc_char(b[0])[0] == '\\');
            assert(esc_char(a[0])[0] == a[0]);
            assert(false);
        } else {
            assert(a[0] == b[0]);
        }
        assert(esc_char(a[0]) == esc_char(b[0]));
        lemma_cancel_left(esc_char(a[0]), ta, tb);
        lemma_escape_cut(a.drop_first(), r1, b.drop_first(), r2);
        assert(a.drop_first().len() == b.drop_first().len());
        assert(a.len() == b.len());
        assert forall|i: int| 0 <= i < a.len() implies a[i] == b[i] by {
            if i > 0 {
                assert(a[i] == a.drop_first()[i - 1]);
                assert(b[i] == b.drop_first()[i - 1]);
            }
        }
        assert(a =~= b);
    }
}

proof fn lemma_head_char(x: Seq<char>, y: Seq<char>)
    requires
        x.len() > 0,
    ensures
        (x + y)[0] == x[0],
{
}

proof fn lemma_reshape_head(
    a: Seq<char>,
    d: Seq<char>,
    l2: Seq<char>,
    q1: Seq<char>,
    l3: Seq<char>,
    b1: Seq<char>,
    l4: Seq<char>,
    q2: Seq<char>,
    l5: Seq<char>,
    b2: Seq<char>,
    l6: Seq<char>,
)
    ensures
        a + d + l2 + q1 + l3 + b1 + l4 + q2 + l5 + b2 + l6 == a + (d + (l2 + q1 + l3 + b1 + l4
            + q2 + l5 + b2 + l6)),
{
    assert(a + d + l2 + q1 + l3 + b1 + l4 + q2 + l5 + b2 + l6 =~= a + (d + (l2 + q1 + l3 + b1
        + l4 + q2 + l5 + b2 + l6)));
}

proof fn lemma_reshape9(
    l2: Seq<char>,
    q1: Seq<char>,
    l3: Seq<char>,
    b1: Seq<char>,
    l4: Seq<char>,
    q2: Seq<char>,
    l5: Seq<char>,
    b2: Seq<char>,
    l6: Seq<char>,
)
    ensures
        l2 + q1 + l3 + b1 + l4 + q2 + l5 + b2 + l6 == l2 + (q1 + l3 + b1 + l4 + q2 + l5 + b2
            + l6),
{
    assert(l2 + q1 + l3 + b1 + l4 + q2 + l5 + b2 + l6 =~= l2 + (q1 + l3 + b1 + l4 + q2 + l5 + b2
        + l6));
}

proof fn lemma_reshape_quoted9(
    q: Seq<char>,
    e: Seq<char>,
    l3: Seq<char>,
    b1: Seq<char>,
    l4: Seq<char>,
    q2: Seq<char>,
    l5: Seq<char>,
    b2: Seq<char>,
    l6: Seq<char>,
)
    ensures
        (q + e + q) + l3 + b1 + l4 + q2 + l5 + b2 + l6 == q + ((e + q) + (l3 + b1 + l4 + q2 + l5
            + b2 + l6)),
{
    assert((q + e + q) + l3 + b1 + l4 + q2 + l5 + b2 + l6 =~= q + ((e + q) + (l3 + b1 + l4 + q2
        + l5 + b2 + l6)));
}

proof fn lemma_reshape7(
    l3: Seq<char>,
    b1: Seq<char>,
    l4: Seq<char>,
    q2: Seq<char>,
    l5: Seq<char>,
    b2: Seq<char>,
    l6: Seq<char>,
)
    ensures
        l3 + b1 + l4 + q2 + l5 + b2 + l6 == l3 + (b1 + (l4 + q2 + l5 + b2 + l6)),
{
    assert(l3 + b1 + l4 + q2 + l5 + b2 + l6 =~= l3 + (b1 + (l4 + q2 + l5 + b2 + l6)));
}

proof fn lemma_reshape_quoted5(
    l4: Seq<char>,
    q: Seq<char>,
    e: Seq<char>,
    l5: Seq<char>,
    b2: Seq<char>,
    l6: Seq<char>,
)
    ensures
        l4 + (q + e + q) + l5 + b2 + l6 == l4 + (q + ((e + q) + (l5 + b2 + l6))),
{
    assert(l4 + (q + e + q) + l5 + b2 + l6 =~= l4 + (q + ((e + q) + (l5 + b2 + l6))));
}

proof fn lemma_reshape_pair(l: Seq<char>, b: Seq<char>, rest: Seq<char>)
    ensures
        l + b + rest == l + (b + rest),
{
    assert(l + b + rest =~= l + (b + rest));
}

proof fn lemma_bool_cut(b1: bool, r1: Seq<char>, b2: bool, r2: Seq<char>)
    requires
        spec_bool(b1) + r1 == spec_bool(b2) + r2,
    ensures
        b1 == b2,
        r1 == r2,
{
    reveal_strlit("true");
    reveal_strlit("false");
    if b1 != b2 {
        assert((spec_bool(b1) + r1)[0] == spec_bool(b1)[0]);
        assert((spec_bool(b2) + r2)[0] == spec_bool(b2)[0]);
        assert("true"@[0] != "false"@[0]);
        assert(false);
    }
    lemma_cancel_left(spec_bool(b1), r1, r2);
}

proof fn lemma_index_strip_seq(x: IndexV, y: IndexV)
    requires
        spec_render_index(x) == spec_render_index(y),
    ensures
        x.seq_no == y.seq_no,
        ", name: "@ + spec_quoted(x.name) + ", unique: "@ + spec_bool(x.unique) + ", origin: "@
            + spec_quoted(x.origin) + ", partial: "@ + spec_bool(x.partial) + " }"@ == ", name: "@
            + spec_quoted(y.name) + ", unique: "@ + spec_bool(y.unique) + ", origin: "@
            + spec_quoted(y.origin) + ", partial: "@ + spec_bool(y.partial) + " }"@,
{
    reveal_strlit(", name: ");
    lemma_dec_digits_are_digits(x.seq_no as nat);
    lemma_dec_digits_are_digits(y.seq_no as nat);
    let tail_x = ", name: "@ + spec_quoted(x.name) + ", unique: "@ + spec_bool(x.unique)
        + ", origin: "@ + spec_quoted(x.origin) + ", partial: "@ + spec_bool(x.partial) + " }"@;
    let tail_y = ", name: "@ + spec_quoted(y.name) + ", unique: "@ + spec_bool(y.unique)
        + ", origin: "@ + spec_quoted(y.origin) + ", partial: "@ + spec_bool(y.partial) + " }"@;
    lemma_reshape_head(
        "Index { seq: "@,
        dec_digits(x.seq_no as nat),
        ", name: "@,
        spec_quoted(x.name),
        ", unique: "@,
        spec_bool(x.unique),
        ", origin: "@,
        spec_quoted(x.origin),
        ", partial: "@,
        spec_bool(x.partial),
        " }"@,
    );
    lemma_reshape_head(
        "Index { seq: "@,
        dec_digits(y.seq_no as nat),
        ", name: "@,
        spec_quoted(y.name),
        ", unique: "@,
        spec_bool(y.unique),
        ", origin: "@,
        spec_quoted(y.origin),
        ", partial: "@,
        spec_bool(y.partial),
        " }"@,
    );
    lemma_cancel_left(
        "Index { seq: "@,
        dec_digits(x.seq_no as nat) + tail_x,
        dec_digits(y.seq_no as nat) + tail_y,
    );
    lemma_reshape9(
        ", name: "@,
        spec_quoted(x.name),
        ", unique: "@,
        spec_bool(x.unique),
        ", origin: "@,
        spec_quoted(x.origin),
        ", partial: "@,
        spec_bool(x.partial),
        " }"@,
    );
    lemma_reshape9(
        ", name: "@,
        spec_quoted(y.name),
        ", unique: "@,
        spec_bool(y.unique),
        ", origin: "@,
        spec_quoted(y.origin),
        ", partial: "@,
        spec_bool(y.partial),
        " }"@,
    );
    lemma_head_char(
        ", name: "@,
        spec_quoted(x.name) + ", unique: "@ + spec_bool(x.unique) + ", origin: "@ + spec_quoted(
            x.origin,
        ) + ", partial: "@ + spec_bool(x.partial) + " }"@,
    );
    lemma_head_char(
        ", name: "@,
        spec_quoted(y.name) + ", unique: "@ + spec_bool(y.unique) + ", origin: "@ + spec_quoted(
            y.origin,
        ) + ", partial: "@ + spec_bool(y.partial) + " }"@,
    );
    assert(!is_digit_char(','));
    lemma_digit_run_cut(dec_digits(x.seq_no as nat), tail_x, dec_digits(y.seq_no as nat), tail_y);
    lemma_dec_digits_injective(x.seq_no as nat, y.seq_no as nat);
}

proof fn lemma_index_strip_name(x: IndexV, y: IndexV)
    requires
        ", name: "@ + spec_quoted(x.name) + ", unique: "@ + spec_bool(x.unique) + ", origin: "@
            + spec_quoted(x.origin) + ", partial: "@ + spec_bool(x.partial) + " }"@ == ", name: "@
            + spec_quoted(y.name) + ", unique: "@ + spec_bool(y.unique) + ", origin: "@
            + spec_quoted(y.origin) + ", partial: "@ + spec_bool(y.partial) + " }"@,
    ensures
        x.name == y.name,
        ", unique: "@ + spec_bool(x.unique) + ", origin: "@ + spec_quoted(x.origin)
            + ", partial: "@ + spec_bool(x.partial) + " }"@ == ", unique: "@ + spec_bool(y.unique)
            + ", origin: "@ + spec_quoted(y.origin) + ", partial: "@ + spec_bool(y.partial)
            + " }"@,
{
    let rest_x = ", unique: "@ + spec_bool(x.unique) + ", origin: "@ + spec_quoted(x.origin)
        + ", partial: "@ + spec_bool(x.partial) + " }"@;
    let rest_y = ", unique: "@ + spec_bool(y.unique) + ", origin: "@ + spec_quoted(y.origin)
        + ", partial: "@ + spec_bool(y.partial) + " }"@;
    lemma_reshape9(
        ", name: "@,
        spec_quoted(x.name),
        ", unique: "@,
        spec_bool(x.unique),
        ", origin: "@,
        spec_quoted(x.origin),
        ", partial: "@,
        spec_bool(x.partial),
        " }"@,
    );
    lemma_reshape9(
        ", name: "@,
        spec_quoted(y.name),
        ", unique: "@,
        spec_bool(y.unique),
        ", origin: "@,
        spec_quoted(y.origin),
        ", partial: "@,
        spec_bool(y.partial),
        " }"@,
    );
    lemma_cancel_left(
        ", name: "@,
        spec_quoted(x.name) + ", unique: "@ + spec_bool(x.unique) + ", origin: "@ + spec_quoted(
            x.origin,
        ) + ", partial: "@ + spec_bool(x.partial) + " }"@,
        spec_quoted(y.name) + ", unique: "@ + spec_bool(y.unique) + ", origin: "@ + spec_quoted(
            y.origin,
        ) + ", partial: "@ + spec_bool(y.partial) + " }"@,
    );
    lemma_reshape_quoted9(
        seq!['"'],
        spec_escape(x.name),
        ", unique: "@,
        spec_bool(x.unique),
        ", origin: "@,
        spec_quoted(x.origin),
        ", partial: "@,
        spec_bool(x.partial),
        " }"@,
    );
    lemma_reshape_quoted9(
        seq!['"'],
        spec_escape(y.name),
        ", unique: "@,
        spec_bool(y.unique),
        ", origin: "@,
        spec_quoted(y.origin),
        ", partial: "@,
        spec_bool(y.partial),
        " }"@,
    );
    lemma_cancel_left(
        seq!['"'],
        (spec_escape(x.name) + seq!['"']) + rest_x,
        (spec_escape(y.name) + seq!['"']) + rest_y,
    );
    lemma_escape_cut(x.name, rest_x, y.name, rest_y);
}

proof fn lemma_index_strip_unique(x: IndexV, y: IndexV)
    requires
        ", unique: "@ + spec_bool(x.unique) + ", origin: "@ + spec_quoted(x.origin)
            + ", partial: "@ + spec_bool(x.partial) + " }"@ == ", unique: "@ + spec_bool(y.unique)
            + ", origin: "@ + spec_quoted(y.origin) + ", partial: "@ + spec_bool(y.partial)
            + " }"@,
    ensures
        x.unique == y.unique,
        x.origin == y.origin,
        x.partial == y.partial,
{
    lemma_reshape7(
        ", unique: "@,
        spec_bool(x.unique),
        ", origin: "@,
        spec_quoted(x.origin),
        ", partial: "@,
        spec_bool(x.partial),
        " }"@,
    );
    lemma_reshape7(
        ", unique: "@,
        spec_bool(y.unique),
        ", origin: "@,
        spec_quoted(y.origin),
        ", partial: "@,
        spec_bool(y.partial),
        " }"@,
    );
    let rest_x = ", origin: "@ + spec_quoted(x.origin) + ", partial: "@ + spec_bool(x.partial)
        + " }"@;
    let rest_y = ", origin: "@ + spec_quoted(y.origin) + ", partial: "@ + spec_bool(y.partial)
        + " }"@;
    lemma_cancel_left(", unique: "@, spec_bool(x.unique) + rest_x, spec_bool(y.unique) + rest_y);
    lemma_bool_cut(x.unique, rest_x, y.unique, rest_y);
    lemma_reshape_quoted5(
        ", origin: "@,
        seq!['"'],
        spec_escape(x.origin),
        ", partial: "@,
        spec_bool(x.partial),
        " }"@,
    );
    lemma_reshape_quoted5(
        ", origin: "@,
        seq!['"'],
        spec_escape(y.origin),
        ", partial: "@,
        spec_bool(y.partial),
        " }"@,
    );
    let part_x = ", partial: "@ + spec_bool(x.partial) + " }"@;
    let part_y = ", partial: "@ + spec_bool(y.partial) + " }"@;
    lemma_cancel_left(
        ", origin: "@,
        seq!['"'] + ((spec_escape(x.origin) + seq!['"']) + part_x),
        seq!['"'] + ((spec_escape(y.origin) + seq!['"']) + part_y),
    );
    lemma_cancel_left(
        seq!['"'],
        (spec_escape(x.origin) + seq!['"']) + part_x,
        (spec_escape(y.origin) + seq!['"']) + part_y,
    );
    lemma_escape_cut(x.origin, part_x, y.origin, part_y);
    lemma_reshape_pair(", partial: "@, spec_bool(x.partial), " }"@);
    lemma_reshape_pair(", partial: "@, spec_bool(y.partial), " }"@);
    lemma_cancel_left(", partial: "@, spec_bool(x.partial) + " }"@, spec_bool(y.partial) + " }"@);
    lemma_bool_cut(x.partial, " }"@, y.partial, " }"@);
}

/// The index renderer is injective: it shows every field, so two index
/// records render to the same line only if they are equal.
pub proof fn lemma_render_index_injective(x: IndexV, y: IndexV)
    requires
        spec_render_index(x) == spec_render_index(y),
    ensures
        x == y,
{
    lemma_index_strip_seq(x, y);
    lemma_index_strip_name(x, y);
    lemma_index_strip_unique(x, y);
    assert(x =~= y);
}

proof fn lemma_reshape7_head(
    a: Seq<char>,
    d1: Seq<char>,
    l2: Seq<char>,
    d2: Seq<char>,
    l3: Seq<char>,
    q: Seq<char>,
    l4: Seq<char>,
)
    ensures
        a + d1 + l2 + d2 + l3 + q + l4 == a + (d1 + (l2 + d2 + l3 + q + l4)),
{
    assert(a + d1 + l2 + d2 + l3 + q + l4 =~= a + (d1 + (l2 + d2 + l3 + q + l4)));
}

proof fn lemma_reshape5(
    l2: Seq<char>,
    d2: Seq<char>,
    l3: Seq<char>,
    q: Seq<char>,
    l4: Seq<char>,
)
    ensures
        l2 + d2 + l3 + q + l4 == l2 + (d2 + l3 + q + l4),
{
    assert(l2 + d2 + l3 + q + l4 =~= l2 + (d2 + l3 + q + l4));
}

proof fn lemma_reshape4(d2: Seq<char>, l3: Seq<char>, q: Seq<char>, l4: Seq<char>)
    ensures
        d2 + l3 + q + l4 == d2 + (l3 + q + l4),
{
    assert(d2 + l3 + q + l4 =~= d2 + (l3 + q + l4));
}

proof fn lemma_reshape_quoted_tail(q: Seq<char>, e: Seq<char>, l4: Seq<char>)
    ensures
        (q + e + q) + l4 == q + ((e + q) + l4),
{
    assert((q + e + q) + l4 =~= q + ((e + q) + l4));
}

/// The index-column renderer is injective: it shows every field, so two
/// column-binding records render to the same line only if they are equal.
#[verifier::rlimit(100)]
pub proof fn lemma_render_index_column_injective(x: IndexColumnV, y: IndexColumnV)
    requires
        spec_render_index_column(x) == spec_render_index_column(y),
    ensures
        x == y,
{
    reveal_strlit(", cid: ");
    reveal_strlit(", name: ");
    lemma_dec_digits_are_digits(x.seqno as nat);
    lemma_dec_digits_are_digits(y.seqno as nat);
    lemma_dec_digits_are_digits(x.cid as nat);
    lemma_dec_digits_are_digits(y.cid as nat);
    assert(!is_digit_char(','));
    let tail_x = ", cid: "@ + dec_digits(x.cid as nat) + ", name: "@ + spec_quoted(x.name)
        + " }"@;
    let tail_y = ", cid: "@ + dec_digits(y.cid as nat) + ", name: "@ + spec_quoted(y.name)
        + " }"@;
    lemma_reshape7_head(
        "IndexColumn { seqno: "@,
        dec_digits(x.seqno as nat),
        ", cid: "@,
        dec_digits(x.cid as nat),
        ", name: "@,
        spec_quoted(x.name),
        " }"@,
    );
    lemma_reshape7_head(
        "IndexColumn { seqno: "@,
        dec_digits(y.seqno as nat),
        ", cid: "@,
        dec_digits(y.cid as nat),
        ", name: "@,
        spec_quoted(y.name),
        " }"@,
    );
    lemma_cancel_left(
        "IndexColumn { seqno: "@,
        dec_digits(x.seqno as nat) + tail_x,
        dec_digits(y.seqno as nat) + tail_y,
    );
    lemma_reshape5(
        ", cid: "@,
        dec_digits(x.cid as nat),
        ", name: "@,
        spec_quoted(x.name),
        " }"@,
    );
    lemma_reshape5(
        ", cid: "@,
        dec_digits(y.cid as nat),
        ", name: "@,
        spec_quoted(y.name),
        " }"@,
    );
    lemma_head_char(
        ", cid: "@,
        dec_digits(x.cid as nat) + ", name: "@ + spec_quoted(x.name) + " }"@,
    );
    lemma_head_char(
        ", cid: "@,
        dec_digits(y.cid as nat) + ", name: "@ + spec_quoted(y.name) + " }"@,
    );
    lemma_digit_run_cut(dec_digits(x.seqno as nat), tail_x, dec_digits(y.seqno as nat), tail_y);
    lemma_dec_digits_injective(x.seqno as nat, y.seqno as nat);
    let rest_x = dec_digits(x.cid as nat) + ", name: "@ + spec_quoted(x.name) + " }"@;
    let rest_y = dec_digits(y.cid as nat) + ", name: "@ + spec_quoted(y.name) + " }"@;
    lemma_cancel_left(", cid: "@, rest_x, rest_y);
    lemma_reshape4(dec_digits(x.cid as nat), ", name: "@, spec_quoted(x.name), " }"@);
    lemma_reshape4(dec_digits(y.cid as nat), ", name: "@, spec_quoted(y.name), " }"@);
    lemma_reshape_pair(", name: "@, spec_quoted(x.name), " }"@);
    lemma_reshape_pair(", name: "@, spec_quoted(y.name), " }"@);
    lemma_head_char(", name: "@, spec_quoted(x.name) + " }"@);
    lemma_head_char(", name: "@, spec_quoted(y.name) + " }"@);
    lemma_digit_run_cut(
        dec_digits(x.cid as nat),
        ", name: "@ + spec_quoted(x.name) + " }"@,
        dec_digits(y.cid as nat),
        ", name: "@ + spec_quoted(y.name) + " }"@,
    );
    lemma_dec_digits_injective(x.cid as nat, y.cid as nat);
    lemma_cancel_left(", name: "@, spec_quoted(x.name) + " }"@, spec_quoted(y.name) + " }"@);
    lemma_reshape_quoted_tail(seq!['"'], spec_escape(x.name), " }"@);
    lemma_reshape_quoted_tail(seq!['"'], spec_escape(y.name), " }"@);
    lemma_cancel_left(
        seq!['"'],
        (spec_escape(x.name) + seq!['"']) + " }"@,
        (spec_escape(y.name) + seq!['"']) + " }"@,
    );
    lemma_escape_cut(x.name, " }"@, y.name, " }"@);
    assert(x =~= y);
}

} // verus!
