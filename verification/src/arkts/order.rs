//! The order of calls in a text.
//!
//! A text is read from left to right. Where a callback is called in it, the call is of
//! the next slot.

use crate::arkts::literal::{escape, escaped, string_lit};
use crate::arkts::occurs::{occurs, split_at};
use crate::arkts::refs::{plain_call, value_call};
use crate::text::{begins_with, dec, indented, join, levels, line_end, lines, without_cr};
use vstd::prelude::*;

verus! {

/// What every call of a callback begins with.
pub open spec fn mark() -> Seq<char> {
    "perryEntry.invokeCallback"@
}

/// Whether the text begins with what a call begins with.
pub open spec fn at_mark(s: Seq<char>) -> bool {
    begins_with(s, mark())
}

/// Whether the text begins with a call of the slot.
pub open spec fn at_call(s: Seq<char>, k: nat) -> bool {
    begins_with(s, plain_call(k)) || begins_with(s, value_call(k))
}

/// Whether the calls in the text, from left to right, are those of the slots from `i`
/// up to `k`: each slot is called once, in order, and nothing else is.
pub open spec fn in_order(s: Seq<char>, i: nat, k: nat) -> bool
    decreases s.len(),
{
    if s.len() == 0 {
        i == k
    } else if at_mark(s) {
        i < k && at_call(s, i) && in_order(s.skip(1), i + 1, k)
    } else {
        in_order(s.skip(1), i, k)
    }
}

/// Whether no call begins anywhere in the text.
pub open spec fn quiet(s: Seq<char>) -> bool {
    forall|j: int| 0 <= j < s.len() ==> !at_mark(#[trigger] s.skip(j))
}

/// Whether the character is one of those that a call begins with.
pub open spec fn in_mark(c: char) -> bool {
    c == 'p' || c == 'e' || c == 'r' || c == 'y' || c == 'E' || c == 'n' || c == 't' || c == '.'
        || c == 'i' || c == 'v' || c == 'o' || c == 'k' || c == 'C' || c == 'a' || c == 'l' || c
        == 'b' || c == 'c'
}

/// Whether nothing can begin in one text and go on in the other: a character at the
/// seam is none that a call begins with, or the first text ends with a dot that has
/// no `y` before it.
pub open spec fn seam(a: Seq<char>, b: Seq<char>) -> bool {
    ||| a.len() == 0
    ||| b.len() == 0
    ||| !in_mark(a.last())
    ||| !in_mark(b[0])
    ||| a.last() == '.' && (a.len() < 2 || a[a.len() - 2] != 'y')
}

// ---------------------------------------------------------------------------
// Quiet texts
// ---------------------------------------------------------------------------

proof fn lemma_mark()
    ensures
        mark().len() == 25,
        mark()[0] == 'p',
        forall|j: int| 0 <= j < 25 ==> in_mark(#[trigger] mark()[j]),
        forall|j: int| 0 < j < 25 ==> #[trigger] mark()[j] != 'p',
        forall|j: int| 0 <= j < 25 && #[trigger] mark()[j] == '.' ==> j == 10,
        mark()[9] == 'y',
{
    reveal_strlit("perryEntry.invokeCallback");
}

/// Where the character stands in what a call begins with.
spec fn place_in_mark(c: char) -> int {
    if c == 'p' {
        0
    } else if c == 'e' {
        1
    } else if c == 'r' {
        2
    } else if c == 'y' {
        4
    } else if c == 'E' {
        5
    } else if c == 'n' {
        6
    } else if c == 't' {
        7
    } else if c == '.' {
        10
    } else if c == 'i' {
        11
    } else if c == 'v' {
        13
    } else if c == 'o' {
        14
    } else if c == 'k' {
        15
    } else if c == 'C' {
        17
    } else if c == 'a' {
        18
    } else if c == 'l' {
        19
    } else if c == 'b' {
        21
    } else {
        23
    }
}

/// A text without one of the characters that a call begins with is quiet.
pub proof fn lemma_without(s: Seq<char>, c: char)
    requires
        in_mark(c),
        forall|j: int| 0 <= j < s.len() ==> #[trigger] s[j] != c,
    ensures
        quiet(s),
{
    reveal_strlit("perryEntry.invokeCallback");
    let p = place_in_mark(c);
    assert(mark()[p] == c);
    assert forall|j: int| 0 <= j < s.len() implies !at_mark(#[trigger] s.skip(j)) by {
        if at_mark(s.skip(j)) {
            assert(s.skip(j).take(25)[p] == c);
            assert(s[j + p] == c);
        }
    }
}

/// A suffix of a quiet text is quiet.
pub proof fn lemma_quiet_skip(s: Seq<char>, n: int)
    requires
        quiet(s),
        0 <= n <= s.len(),
    ensures
        quiet(s.skip(n)),
{
    assert forall|j: int| 0 <= j < s.skip(n).len() implies !at_mark(
        #[trigger] s.skip(n).skip(j),
    ) by {
        assert(s.skip(n).skip(j) =~= s.skip(n + j));
    }
}

/// A text in which what a call begins with does not occur is quiet.
pub proof fn lemma_unspelled(s: Seq<char>)
    requires
        !occurs(mark(), s),
    ensures
        quiet(s),
{
    lemma_mark();
    assert forall|j: int| 0 <= j < s.len() implies !at_mark(#[trigger] s.skip(j)) by {
        if at_mark(s.skip(j)) {
            let a = s.take(j);
            let b = s.skip(j + 25);
            assert(s =~= a + s.skip(j).take(25) + b);
            assert(split_at(mark(), s, a, b));
        }
    }
}

/// In a quiet text no slot is called.
pub proof fn lemma_quiet(s: Seq<char>, i: nat)
    requires
        quiet(s),
    ensures
        in_order(s, i, i),
    decreases s.len(),
{
    if s.len() > 0 {
        assert(s.skip(0) =~= s);
        assert(!at_mark(s.skip(0)));
        lemma_quiet_skip(s, 1);
        lemma_quiet(s.skip(1), i);
    }
}

/// A text that no slot is called in is quiet.
proof fn lemma_none_quiet(s: Seq<char>, i: nat)
    requires
        in_order(s, i, i),
    ensures
        quiet(s),
    decreases s.len(),
{
    lemma_order_grows(s, i, i);
    if s.len() > 0 {
        let rest = s.skip(1);
        if at_mark(s) {
            lemma_order_grows(rest, i + 1, i);
        }
        lemma_none_quiet(rest, i);
        assert forall|j: int| 0 <= j < s.len() implies !at_mark(#[trigger] s.skip(j)) by {
            if j == 0 {
                assert(s.skip(0) =~= s);
            } else {
                assert(s.skip(j) =~= rest.skip(j - 1));
            }
        }
    }
}

proof fn lemma_order_grows(s: Seq<char>, i: nat, k: nat)
    requires
        in_order(s, i, k),
    ensures
        i <= k,
    decreases s.len(),
{
    if s.len() > 0 {
        if at_mark(s) {
            lemma_order_grows(s.skip(1), i + 1, k);
        } else {
            lemma_order_grows(s.skip(1), i, k);
        }
    }
}

// ---------------------------------------------------------------------------
// Texts that are put together
// ---------------------------------------------------------------------------

proof fn lemma_begins_longer(a: Seq<char>, b: Seq<char>, t: Seq<char>)
    requires
        begins_with(a, t),
    ensures
        begins_with(a + b, t),
{
    assert((a + b).take(t.len() as int) =~= a.take(t.len() as int));
}

/// The calls of two texts that are put together come one after the other.
pub proof fn lemma_then(a: Seq<char>, b: Seq<char>, i: nat, j: nat, k: nat)
    requires
        in_order(a, i, j),
        in_order(b, j, k),
        seam(a, b),
    ensures
        in_order(a + b, i, k),
    decreases a.len(),
{
    if a.len() == 0 {
        assert(a + b =~= b);
    } else {
        let all = a + b;
        let rest = a.skip(1);
        assert(all.skip(1) =~= rest + b);
        if rest.len() > 0 {
            assert(rest.last() == a.last());
        }
        if at_mark(a) {
            lemma_begins_longer(a, b, mark());
            if begins_with(a, plain_call(i)) {
                lemma_begins_longer(a, b, plain_call(i));
            } else {
                lemma_begins_longer(a, b, value_call(i));
            }
            lemma_then(rest, b, i + 1, j, k);
            lemma_order_grows(b, j, k);
        } else {
            if at_mark(all) {
                lemma_mark();
                if a.len() >= 25 {
                    assert(a.take(25) =~= all.take(25));
                } else {
                    let n = a.len() as int;
                    assert(all.take(25)[n - 1] == a.last());
                    assert(all.take(25)[n] == b[0]);
                    if a.last() == '.' {
                        assert(n == 11);
                        assert(all.take(25)[9] == a[9]);
                    }
                }
            }
            lemma_then(rest, b, i, j, k);
        }
    }
}

/// Quiet texts that are put together.
pub proof fn lemma_quiet_then(a: Seq<char>, b: Seq<char>)
    requires
        quiet(a),
        quiet(b),
        seam(a, b),
    ensures
        quiet(a + b),
{
    lemma_quiet(a, 0);
    lemma_quiet(b, 0);
    lemma_then(a, b, 0, 0, 0);
    lemma_none_quiet(a + b, 0);
}

/// A quiet text behind calls nothing more.
pub proof fn lemma_more(a: Seq<char>, b: Seq<char>, i: nat, k: nat)
    requires
        in_order(a, i, k),
        quiet(b),
        seam(a, b),
    ensures
        in_order(a + b, i, k),
{
    lemma_quiet(b, k);
    lemma_then(a, b, i, k, k);
}

/// A quiet text in front and a quiet text behind.
pub proof fn lemma_between(a: Seq<char>, s: Seq<char>, b: Seq<char>, i: nat, k: nat)
    requires
        quiet(a),
        in_order(s, i, k),
        quiet(b),
        seam(a, s),
        seam(a + s, b),
    ensures
        in_order(a + s + b, i, k),
{
    lemma_quiet(a, i);
    lemma_quiet(b, k);
    lemma_then(a, s, i, i, k);
    lemma_then(a + s, b, i, k, k);
}

// ---------------------------------------------------------------------------
// Numbers and literals
// ---------------------------------------------------------------------------

pub proof fn lemma_dec_numeral(n: nat)
    ensures
        dec(n).len() > 0,
        forall|j: int| 0 <= j < dec(n).len() ==> '0' <= #[trigger] dec(n)[j] <= '9',
    decreases n,
{
    if n >= 10 {
        lemma_dec_numeral(n / 10);
    }
}

/// A call is one call, of its slot.
proof fn lemma_call_alone(s: Seq<char>, k: nat)
    requires
        s == plain_call(k) || s == value_call(k),
    ensures
        in_order(s, k, k + 1),
        !in_mark(s.last()),
        s.len() > 0,
        forall|j: int| 0 <= j < s.len() ==> #[trigger] s[j] != '\n' && s[j] != '\r',
{
    lemma_mark();
    lemma_dec_numeral(k);
    reveal_strlit("perryEntry.invokeCallback");
    reveal_strlit("perryEntry.invokeCallback(");
    reveal_strlit("perryEntry.invokeCallback1(");
    reveal_strlit(")");
    reveal_strlit(",");
    assert(s.take(25) =~= mark());
    let rest = s.skip(1);
    assert(s.take(s.len() as int) =~= s);
    let head = if s == plain_call(k) {
        "perryEntry.invokeCallback("@
    } else {
        "perryEntry.invokeCallback1("@
    };
    assert(s.take(head.len() as int) =~= head);
    assert forall|j: int| 0 <= j < rest.len() implies #[trigger] rest[j] != 'p' by {
        assert(rest[j] == s[j + 1]);
        if j + 1 < head.len() {
            assert(s[j + 1] == head[j + 1]);
        } else if j + 1 < head.len() + dec(k).len() {
            assert(s[j + 1] == dec(k)[j + 1 - head.len()]);
        }
    }
    lemma_without(rest, 'p');
    lemma_quiet(rest, k + 1);
    assert forall|j: int| 0 <= j < s.len() implies #[trigger] s[j] != '\n' && s[j] != '\r' by {
        if j < head.len() {
            assert(s[j] == head[j]);
        } else if j < head.len() + dec(k).len() {
            assert(s[j] == dec(k)[j - head.len()]);
        }
    }
}

/// A call between two quiet texts.
pub proof fn lemma_call(a: Seq<char>, s: Seq<char>, b: Seq<char>, k: nat)
    requires
        s == plain_call(k) || s == value_call(k),
        quiet(a),
        quiet(b),
        seam(a, s),
    ensures
        in_order(a + s + b, k, k + 1),
{
    lemma_call_alone(s, k);
    lemma_between(a, s, b, k, k + 1);
}

/// An escaped text that begins with one without backslashes was made from a text that
/// does.
proof fn lemma_escaped_prefix(s: Seq<char>, w: Seq<char>)
    requires
        begins_with(escaped(s), w),
        forall|j: int| 0 <= j < w.len() ==> #[trigger] w[j] != '\\',
    ensures
        begins_with(s, w),
    decreases w.len(),
{
    if w.len() > 0 {
        let e = escaped(s);
        let c = s[0];
        let tail = escaped(s.skip(1));
        assert(e.take(w.len() as int)[0] == w[0]);
        assert(e[0] == escape(c)[0]);
        assert(escape(c).len() == 1);
        assert(c == w[0]);
        let rest = w.skip(1);
        assert(tail.take(rest.len() as int) =~= rest) by {
            assert forall|j: int| 0 <= j < rest.len() implies tail[j] == rest[j] by {
                assert(e[j + 1] == tail[j]);
                assert(e.take(w.len() as int)[j + 1] == w[j + 1]);
            }
        }
        lemma_escaped_prefix(s.skip(1), rest);
        assert(s.take(w.len() as int) =~= w) by {
            assert forall|j: int| 0 < j < w.len() implies s[j] == w[j] by {
                assert(s.skip(1).take(rest.len() as int)[j - 1] == rest[j - 1]);
            }
        }
    } else {
        assert(s.take(0) =~= w);
    }
}

proof fn lemma_escaped_quiet(s: Seq<char>)
    requires
        quiet(s),
    ensures
        quiet(escaped(s)),
    decreases s.len(),
{
    if s.len() > 0 {
        lemma_mark();
        let c = s[0];
        let e = escaped(s);
        let tail = escaped(s.skip(1));
        let n = escape(c).len() as int;
        lemma_quiet_skip(s, 1);
        lemma_escaped_quiet(s.skip(1));
        assert(s.skip(0) =~= s);
        assert(!at_mark(s.skip(0)));
        assert forall|j: int| 0 <= j < e.len() implies !at_mark(#[trigger] e.skip(j)) by {
            if at_mark(e.skip(j)) {
                assert(e.skip(j).take(25)[0] == e[j]);
                if j >= n {
                    assert(e.skip(j) =~= tail.skip(j - n));
                } else if n == 2 {
                    assert(e[j] == escape(c)[j]);
                } else {
                    assert(e.skip(0) =~= e);
                    assert forall|l: int| 0 <= l < mark().len() implies #[trigger] mark()[l]
                        != '\\' by {
                        assert(in_mark(mark()[l]));
                    }
                    lemma_escaped_prefix(s, mark());
                }
            }
        }
    }
}

/// The literal of a quiet text is quiet, and nothing goes on at its quotes.
pub proof fn lemma_literal(s: Seq<char>)
    requires
        quiet(s),
    ensures
        quiet(string_lit(s)),
        string_lit(s).len() > 0,
        string_lit(s)[0] == '\'',
        string_lit(s).last() == '\'',
{
    let q = seq!['\''];
    lemma_escaped_quiet(s);
    lemma_without(q, 'p');
    lemma_quiet_then(q, escaped(s));
    lemma_quiet_then(q + escaped(s), q);
}

// ---------------------------------------------------------------------------
// Lists of texts
// ---------------------------------------------------------------------------

/// Whether the calls in the texts, one text after the other, are those of the slots
/// from `i` up to `k`.
pub open spec fn list_in_order(v: Seq<Seq<char>>, i: nat, k: nat) -> bool
    decreases v.len(),
{
    if v.len() == 0 {
        i == k
    } else {
        exists|j: nat|
            list_in_order(v.drop_last(), i, j) && #[trigger] in_order(v.last(), j, k)
    }
}

pub proof fn lemma_list_push(v: Seq<Seq<char>>, s: Seq<char>, i: nat, j: nat, k: nat)
    requires
        list_in_order(v, i, j),
        in_order(s, j, k),
    ensures
        list_in_order(v.push(s), i, k),
{
    assert(v.push(s).drop_last() =~= v);
    assert(v.push(s).last() == s);
}

pub proof fn lemma_list_one(s: Seq<char>, i: nat, k: nat)
    requires
        in_order(s, i, k),
    ensures
        list_in_order(seq![s], i, k),
{
    let none = Seq::<Seq<char>>::empty();
    lemma_list_push(none, s, i, i, k);
    assert(none.push(s) =~= seq![s]);
}

proof fn lemma_list_front(s: Seq<char>, v: Seq<Seq<char>>, i: nat, j: nat, k: nat)
    requires
        in_order(s, i, j),
        list_in_order(v, j, k),
    ensures
        list_in_order(seq![s] + v, i, k),
    decreases v.len(),
{
    if v.len() == 0 {
        lemma_list_one(s, i, k);
        assert(seq![s] + v =~= seq![s]);
    } else {
        let l = choose|l: nat|
            list_in_order(v.drop_last(), j, l) && #[trigger] in_order(v.last(), l, k);
        lemma_list_front(s, v.drop_last(), i, j, l);
        lemma_list_push(seq![s] + v.drop_last(), v.last(), i, l, k);
        assert((seq![s] + v.drop_last()).push(v.last()) =~= seq![s] + v);
    }
}

/// The texts with a separator at which nothing goes on.
pub proof fn lemma_join(v: Seq<Seq<char>>, sep: Seq<char>, i: nat, k: nat)
    requires
        list_in_order(v, i, k),
        quiet(sep),
        sep.len() > 0,
        !in_mark(sep[0]),
        !in_mark(sep.last()),
    ensures
        in_order(join(v, sep), i, k),
    decreases v.len(),
{
    if v.len() > 0 {
        let front = v.drop_last();
        let j = choose|j: nat|
            list_in_order(front, i, j) && #[trigger] in_order(v.last(), j, k);
        if v.len() == 1 {
            assert(v[0] == v.last());
            assert(i == j);
        } else {
            lemma_join(front, sep, i, j);
            lemma_quiet(sep, j);
            lemma_then(join(front, sep), sep, i, j, j);
            lemma_then(join(front, sep) + sep, v.last(), i, j, k);
        }
    }
}

/// Quiet texts with such a separator.
pub proof fn lemma_join_quiet(v: Seq<Seq<char>>, sep: Seq<char>)
    requires
        forall|j: int| 0 <= j < v.len() ==> quiet(#[trigger] v[j]),
        quiet(sep),
        sep.len() > 0,
        !in_mark(sep[0]),
        !in_mark(sep.last()),
    ensures
        quiet(join(v, sep)),
{
    lemma_list_quiet(v, 0);
    lemma_join(v, sep, 0, 0);
    lemma_none_quiet(join(v, sep), 0);
}

proof fn lemma_list_quiet(v: Seq<Seq<char>>, i: nat)
    requires
        forall|j: int| 0 <= j < v.len() ==> quiet(#[trigger] v[j]),
    ensures
        list_in_order(v, i, i),
    decreases v.len(),
{
    if v.len() > 0 {
        let front = v.drop_last();
        assert forall|j: int| 0 <= j < front.len() implies quiet(#[trigger] front[j]) by {
            assert(front[j] == v[j]);
        }
        lemma_list_quiet(front, i);
        assert(quiet(v[v.len() - 1]));
        lemma_quiet(v.last(), i);
    }
}

// ---------------------------------------------------------------------------
// Lines
// ---------------------------------------------------------------------------

/// No call goes across the end of a line.
proof fn lemma_split(a: Seq<char>, b: Seq<char>, i: nat, k: nat) -> (j: nat)
    requires
        in_order(a + b, i, k),
        b.len() > 0,
        b[0] == '\n' || b[0] == '\r',
    ensures
        in_order(a, i, j),
        in_order(b, j, k),
    decreases a.len(),
{
    let all = a + b;
    if a.len() == 0 {
        assert(all =~= b);
        i
    } else {
        let rest = a.skip(1);
        assert(all.skip(1) =~= rest + b);
        if at_mark(all) {
            lemma_call_alone(plain_call(i), i);
            lemma_call_alone(value_call(i), i);
            let c = if begins_with(all, plain_call(i)) {
                plain_call(i)
            } else {
                value_call(i)
            };
            if c.len() > a.len() {
                assert(all.take(c.len() as int)[a.len() as int] == b[0]);
            }
            assert(a.take(c.len() as int) =~= all.take(c.len() as int));
            reveal_strlit("perryEntry.invokeCallback");
            reveal_strlit("perryEntry.invokeCallback(");
            reveal_strlit("perryEntry.invokeCallback1(");
            assert(a.take(25) =~= mark()) by {
                assert(all.take(25) =~= a.take(25));
            }
            let j = lemma_split(rest, b, i + 1, k);
            lemma_order_grows(rest, i + 1, j);
            j
        } else {
            if at_mark(a) {
                lemma_begins_longer(a, b, mark());
            }
            lemma_split(rest, b, i, k)
        }
    }
}

proof fn lemma_line_end(s: Seq<char>)
    ensures
        line_end(s) <= s.len(),
        line_end(s) < s.len() ==> s[line_end(s) as int] == '\n',
    decreases s.len(),
{
    if s.len() > 0 && s[0] != '\n' {
        lemma_line_end(s.skip(1));
    }
}

/// The lines of a text call what the text calls.
proof fn lemma_lines(s: Seq<char>, i: nat, k: nat)
    requires
        in_order(s, i, k),
    ensures
        list_in_order(lines(s), i, k),
    decreases s.len(),
{
    if s.len() > 0 {
        lemma_line_end(s);
        let n = line_end(s) as int;
        if n >= s.len() {
            lemma_list_one(s, i, k);
        } else {
            let line = s.take(n);
            let rest = s.skip(n);
            assert(s =~= line + rest);
            let j = lemma_split(line, rest, i, k);
            lemma_mark();
            if at_mark(rest) {
                assert(rest.take(25)[0] == rest[0]);
            }
            assert(rest.skip(1) =~= s.skip(n + 1));
            lemma_lines(s.skip(n + 1), j, k);
            if line.len() > 0 && line.last() == '\r' {
                let short = line.drop_last();
                let end = seq!['\r'];
                assert(line =~= short + end);
                let l = lemma_split(short, end, i, j);
                lemma_without(end, 'p');
                lemma_quiet(end, l);
                assert(end.skip(1) =~= Seq::empty());
                assert(end.skip(0) =~= end);
                assert(!at_mark(end.skip(0)));
                assert(in_order(end.skip(1), l, j));
                assert(l == j);
            }
            lemma_list_front(without_cr(line), lines(s.skip(n + 1)), i, j, k);
        }
    }
}

proof fn lemma_list_padded(v: Seq<Seq<char>>, pad: Seq<char>, i: nat, k: nat)
    requires
        list_in_order(v, i, k),
        forall|j: int| 0 <= j < pad.len() ==> #[trigger] pad[j] == ' ',
    ensures
        list_in_order(v.map_values(|l: Seq<char>| pad + l), i, k),
    decreases v.len(),
{
    let out = v.map_values(|l: Seq<char>| pad + l);
    if v.len() > 0 {
        let front = v.drop_last();
        let j = choose|j: nat|
            list_in_order(front, i, j) && #[trigger] in_order(v.last(), j, k);
        lemma_list_padded(front, pad, i, j);
        lemma_without(pad, 'p');
        lemma_quiet(pad, j);
        lemma_then(pad, v.last(), j, j, k);
        assert(out.drop_last() =~= front.map_values(|l: Seq<char>| pad + l));
        lemma_list_push(out.drop_last(), pad + v.last(), i, j, k);
        assert(out =~= out.drop_last().push(pad + v.last()));
    }
}

/// A text that is moved in calls what it called.
pub proof fn lemma_indented(s: Seq<char>, pad: Seq<char>, i: nat, k: nat)
    requires
        in_order(s, i, k),
        forall|j: int| 0 <= j < pad.len() ==> #[trigger] pad[j] == ' ',
    ensures
        in_order(indented(s, pad), i, k),
{
    lemma_lines(s, i, k);
    lemma_list_padded(lines(s), pad, i, k);
    reveal_strlit("\n");
    lemma_without("\n"@, 'p');
    lemma_join(lines(s).map_values(|l: Seq<char>| pad + l), "\n"@, i, k);
}

/// The padding of a level.
pub proof fn lemma_levels(n: nat)
    ensures
        quiet(levels(n)),
        forall|j: int| 0 <= j < levels(n).len() ==> #[trigger] levels(n)[j] == ' ',
{
    lemma_without(levels(n), 'p');
}

} // verus!
