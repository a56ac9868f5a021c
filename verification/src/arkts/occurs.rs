//! Texts inside other texts.

use crate::text::{dec, indented, join, line_end, lines, without_cr};
use vstd::prelude::*;

verus! {

/// Whether `s` is `t` between two texts.
pub open spec fn split_at(t: Seq<char>, s: Seq<char>, a: Seq<char>, b: Seq<char>) -> bool {
    s == a + t + b
}

/// Whether `t` occurs in `s`.
pub open spec fn occurs(t: Seq<char>, s: Seq<char>) -> bool {
    exists|a: Seq<char>, b: Seq<char>| split_at(t, s, a, b)
}

/// Whether `t` occurs in one of the texts.
pub open spec fn occurs_in(t: Seq<char>, texts: Seq<Seq<char>>) -> bool {
    exists|i: int| 0 <= i < texts.len() && occurs(t, #[trigger] texts[i])
}

/// Whether the text stays on one line.
pub open spec fn plain(t: Seq<char>) -> bool {
    &&& t.len() > 0
    &&& forall|i: int| 0 <= i < t.len() ==> #[trigger] t[i] != '\n' && t[i] != '\r'
}

pub proof fn lemma_occurs_self(t: Seq<char>)
    ensures
        occurs(t, t),
{
    assert(t =~= Seq::<char>::empty() + t + Seq::<char>::empty());
    assert(split_at(t, t, Seq::empty(), Seq::empty()));
}

pub proof fn lemma_occurs_left(t: Seq<char>, s: Seq<char>, more: Seq<char>)
    requires
        occurs(t, s),
    ensures
        occurs(t, s + more),
{
    let (a, b) = choose|a: Seq<char>, b: Seq<char>| split_at(t, s, a, b);
    assert(s + more =~= a + t + (b + more));
    assert(split_at(t, s + more, a, b + more));
}

pub proof fn lemma_occurs_right(t: Seq<char>, more: Seq<char>, s: Seq<char>)
    requires
        occurs(t, s),
    ensures
        occurs(t, more + s),
{
    let (a, b) = choose|a: Seq<char>, b: Seq<char>| split_at(t, s, a, b);
    assert(more + s =~= (more + a) + t + b);
    assert(split_at(t, more + s, more + a, b));
}

/// What occurs in a piece occurs in the pieces joined.
pub proof fn lemma_occurs_join(t: Seq<char>, v: Seq<Seq<char>>, sep: Seq<char>, i: int)
    requires
        0 <= i < v.len(),
        occurs(t, v[i]),
    ensures
        occurs(t, join(v, sep)),
    decreases v.len(),
{
    if v.len() > 1 {
        let front = join(v.drop_last(), sep);
        if i < v.len() - 1 {
            assert(v.drop_last()[i] == v[i]);
            lemma_occurs_join(t, v.drop_last(), sep, i);
            lemma_occurs_left(t, front, sep);
            lemma_occurs_left(t, front + sep, v.last());
        } else {
            lemma_occurs_right(t, front + sep, v.last());
        }
    }
}

proof fn lemma_line_end(s: Seq<char>)
    ensures
        line_end(s) <= s.len(),
        line_end(s) < s.len() ==> s[line_end(s) as int] == '\n',
    decreases s.len(),
{
    if s.len() > 0 && s[0] != '\n' {
        lemma_line_end(s.skip(1));
    }
}

/// A text on one line that occurs in another occurs in one of its lines.
pub proof fn lemma_occurs_lines(t: Seq<char>, s: Seq<char>)
    requires
        plain(t),
        occurs(t, s),
    ensures
        occurs_in(t, lines(s)),
    decreases s.len(),
{
    let (a, b) = choose|a: Seq<char>, b: Seq<char>| split_at(t, s, a, b);
    let k = line_end(s) as int;
    lemma_line_end(s);
    if k >= s.len() {
        assert(lines(s)[0] == s);
    } else {
        let first = without_cr(s.take(k));
        let rest = lines(s.skip(k + 1));
        assert(lines(s) == seq![first] + rest);
        if k < a.len() {
            assert(s.skip(k + 1) =~= a.skip(k + 1) + t + b);
            assert(split_at(t, s.skip(k + 1), a.skip(k + 1), b));
            lemma_occurs_lines(t, s.skip(k + 1));
            let i = choose|i: int| 0 <= i < rest.len() && occurs(t, #[trigger] rest[i]);
            assert(lines(s)[i + 1] == rest[i]);
        } else {
            if k < a.len() + t.len() {
                assert(s[k] == t[k - a.len()]);
            }
            let tail = b.take(k - a.len() - t.len());
            assert(s.take(k) =~= a + t + tail);
            if s.take(k).last() == '\r' {
                if tail.len() == 0 {
                    assert(s.take(k).last() == t.last());
                    assert(t.last() == t[t.len() - 1]);
                } else {
                    assert(first =~= a + t + tail.drop_last());
                    assert(split_at(t, first, a, tail.drop_last()));
                }
            } else {
                assert(split_at(t, first, a, tail));
            }
            assert(occurs(t, first));
            assert(lines(s)[0] == first);
        }
    }
}

/// Indentation leaves what stays on one line.
pub proof fn lemma_occurs_indented(t: Seq<char>, s: Seq<char>, pad: Seq<char>)
    requires
        plain(t),
        occurs(t, s),
    ensures
        occurs(t, indented(s, pad)),
{
    lemma_occurs_lines(t, s);
    let all = lines(s);
    let padded = all.map_values(|l: Seq<char>| pad + l);
    let i = choose|i: int| 0 <= i < all.len() && occurs(t, #[trigger] all[i]);
    lemma_occurs_right(t, pad, all[i]);
    assert(padded[i] == pad + all[i]);
    lemma_occurs_join(t, padded, "\n"@, i);
}

/// Decimal numbers stay on one line.
pub proof fn lemma_dec_plain(n: nat)
    ensures
        plain(dec(n)),
    decreases n,
{
    if n >= 10 {
        lemma_dec_plain(n / 10);
    }
}

pub proof fn lemma_plain_concat(a: Seq<char>, b: Seq<char>)
    requires
        plain(a),
        plain(b),
    ensures
        plain(a + b),
{
    assert forall|i: int| 0 <= i < (a + b).len() implies #[trigger] (a + b)[i] != '\n' && (a
        + b)[i] != '\r' by {
        if i < a.len() {
            assert((a + b)[i] == a[i]);
        } else {
            assert((a + b)[i] == b[i - a.len()]);
        }
    }
}

} // verus!
