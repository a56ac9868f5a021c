//! What decimal numbers, joined texts, lines and indentation satisfy, whatever the
//! numbers and texts are.

use crate::text::{
    begins_with, dec, dec_int, digit, indented, join, levels, line_end, lines, without_cr,
};
use vstd::prelude::*;

verus! {

// ---------------------------------------------------------------------------
// Decimal numbers
// ---------------------------------------------------------------------------

/// The number that decimal digits spell.
pub open spec fn dec_value(s: Seq<char>) -> int
    decreases s.len(),
{
    if s.len() == 0 {
        0
    } else {
        10 * dec_value(s.drop_last()) + (s.last() as int - '0' as int)
    }
}

/// Whether the text is made of decimal digits, and does not begin with a zero that
/// could be left out.
pub open spec fn is_decimal(s: Seq<char>) -> bool {
    &&& s.len() > 0
    &&& forall|i: int| 0 <= i < s.len() ==> '0' <= #[trigger] s[i] <= '9'
    &&& s.len() > 1 ==> s[0] != '0'
}

/// The decimal text of a number is made of digits, and spells the number.
pub proof fn law_dec_reads_back(n: nat)
    ensures
        is_decimal(dec(n)),
        dec_value(dec(n)) == n,
        dec(n) == seq!['0'] <==> n == 0,
        dec(n)[0] == '0' <==> n == 0,
    decreases n,
{
    if n < 10 {
        reveal_with_fuel(dec_value, 2);
        assert(dec(n).drop_last() =~= Seq::empty());
        assert(dec(n)[0] == digit(n));
    } else {
        law_dec_reads_back(n / 10);
        assert(dec(n).drop_last() =~= dec(n / 10));
        assert(dec(n).last() == digit(n % 10));
        assert(dec(n)[0] == dec(n / 10)[0]);
        assert forall|i: int| 0 <= i < dec(n).len() implies '0' <= #[trigger] dec(n)[i] <= '9' by {
            if i < dec(n).len() - 1 {
                assert(dec(n)[i] == dec(n / 10)[i]);
            }
        }
    }
}

/// The decimal text of an integer spells its magnitude, behind a minus sign exactly
/// where it is negative; so different integers have different texts.
pub proof fn law_dec_int_reads_back(n: int)
    ensures
        n < 0 ==> dec_int(n).len() > 0 && dec_int(n)[0] == '-' && is_decimal(dec_int(n).skip(1))
            && dec_value(dec_int(n).skip(1)) == -n,
        n >= 0 ==> is_decimal(dec_int(n)) && dec_value(dec_int(n)) == n,
        dec_int(n).len() > 0,
        dec_int(n)[0] == '-' <==> n < 0,
{
    if n < 0 {
        law_dec_reads_back((-n) as nat);
        assert(dec_int(n).skip(1) =~= dec((-n) as nat));
    } else {
        law_dec_reads_back(n as nat);
        assert('0' <= dec_int(n)[0]);
    }
}

/// Different integers have different decimal texts.
pub proof fn law_dec_int_injective(a: int, b: int)
    requires
        dec_int(a) == dec_int(b),
    ensures
        a == b,
{
    law_dec_int_reads_back(a);
    law_dec_int_reads_back(b);
}

// ---------------------------------------------------------------------------
// Joined texts
// ---------------------------------------------------------------------------

/// Joining puts every text in, in order, with the separator between two neighbours
/// and nowhere else.
pub proof fn law_join(a: Seq<Seq<char>>, b: Seq<Seq<char>>, x: Seq<char>, sep: Seq<char>)
    ensures
        join(Seq::empty(), sep) == Seq::<char>::empty(),
        join(seq![x], sep) == x,
        a.len() > 0 && b.len() > 0 ==> join(a + b, sep) == join(a, sep) + sep + join(b, sep),
    decreases b.len(),
{
    if a.len() > 0 && b.len() == 1 {
        assert((a + b).drop_last() =~= a);
        assert((a + b).last() == b[0]);
    } else if a.len() > 0 && b.len() > 1 {
        law_join(a, b.drop_last(), x, sep);
        assert((a + b).drop_last() =~= a + b.drop_last());
        assert((a + b).last() == b.last());
        assert(join(a + b, sep) =~= join(a, sep) + sep + join(b, sep));
    }
}

// ---------------------------------------------------------------------------
// Lines
// ---------------------------------------------------------------------------

/// Whether the text holds no line feed.
pub open spec fn one_line(s: Seq<char>) -> bool {
    forall|i: int| 0 <= i < s.len() ==> #[trigger] s[i] != '\n'
}

proof fn lemma_line_end(a: Seq<char>, b: Seq<char>)
    requires
        one_line(a),
        b.len() > 0 ==> b[0] == '\n',
    ensures
        line_end(a + b) == a.len(),
    decreases a.len(),
{
    if a.len() > 0 {
        assert((a + b)[0] == a[0]);
        assert((a + b).skip(1) =~= a.skip(1) + b);
        assert(one_line(a.skip(1))) by {
            assert forall|i: int| 0 <= i < a.skip(1).len() implies #[trigger] a.skip(1)[i]
                != '\n' by {
                assert(a.skip(1)[i] == a[i + 1]);
            }
        }
        lemma_line_end(a.skip(1), b);
    } else {
        assert(a + b =~= b);
    }
}

/// A text without a line feed is one line, unless it is empty. A line feed ends a
/// line and is dropped, with one carriage return in front of it; the lines behind it
/// are those of the rest.
pub proof fn law_lines(line: Seq<char>, rest: Seq<char>)
    requires
        one_line(line),
    ensures
        lines(Seq::empty()) == Seq::<Seq<char>>::empty(),
        line.len() > 0 ==> lines(line) == seq![line],
        lines(line + seq!['\r', '\n'] + rest) == seq![line] + lines(rest),
        line.len() == 0 || line.last() != '\r' ==> lines(line + seq!['\n'] + rest) == seq![line]
            + lines(rest),
{
    if line.len() > 0 {
        lemma_line_end(line, Seq::empty());
        assert(line + Seq::empty() =~= line);
    }
    let tail = seq!['\n'] + rest;
    let with_cr = line.push('\r');
    assert(one_line(with_cr)) by {
        assert forall|i: int| 0 <= i < with_cr.len() implies #[trigger] with_cr[i] != '\n' by {
            if i < line.len() {
                assert(with_cr[i] == line[i]);
            }
        }
    }
    lemma_line_end(with_cr, tail);
    let s = line + seq!['\r', '\n'] + rest;
    assert(s =~= with_cr + tail);
    assert(s.take(with_cr.len() as int) =~= with_cr);
    assert(s.skip(with_cr.len() as int + 1) =~= rest);
    assert(without_cr(with_cr) =~= line);
    lemma_line_end(line, tail);
    let t = line + seq!['\n'] + rest;
    assert(t =~= line + tail);
    assert(t.take(line.len() as int) =~= line);
    assert(t.skip(line.len() as int + 1) =~= rest);
}

/// Indenting puts the padding in front of every line, and keeps the lines.
pub proof fn law_indented(line: Seq<char>, rest: Seq<char>, pad: Seq<char>)
    requires
        one_line(line),
        line.len() == 0 || line.last() != '\r',
    ensures
        indented(Seq::empty(), pad) == Seq::<char>::empty(),
        line.len() > 0 ==> indented(line, pad) == pad + line,
        rest.len() > 0 ==> indented(line + seq!['\n'] + rest, pad) == pad + line + seq!['\n']
            + indented(rest, pad),
{
    reveal_strlit("\n");
    assert("\n"@ =~= seq!['\n']);
    let padded = |l: Seq<char>| pad + l;
    law_lines(line, rest);
    assert(lines(Seq::empty()).map_values(padded) =~= Seq::empty());
    if line.len() > 0 {
        assert(lines(line).map_values(padded) =~= seq![pad + line]);
    }
    if rest.len() > 0 {
        let behind = lines(rest).map_values(padded);
        assert(lines(rest).len() > 0);
        assert(lines(line + seq!['\n'] + rest).map_values(padded) =~= seq![pad + line] + behind);
        law_join(seq![pad + line], behind, pad + line, "\n"@);
    }
}

/// A level of indentation is four spaces, and levels add up.
pub proof fn law_levels(a: nat, b: nat)
    ensures
        levels(0) == Seq::<char>::empty(),
        levels(1) == "    "@,
        levels(a + b) == levels(a) + levels(b),
{
    reveal_strlit("    ");
    assert(levels(1) =~= "    "@);
    assert(levels(a + b) =~= levels(a) + levels(b));
}

/// A text begins with another exactly where it is that one with something behind it.
pub proof fn law_begins_with(s: Seq<char>, prefix: Seq<char>, rest: Seq<char>)
    ensures
        begins_with(prefix + rest, prefix),
        begins_with(s, prefix) ==> s == prefix + s.skip(prefix.len() as int),
{
    assert((prefix + rest).take(prefix.len() as int) =~= prefix);
    if begins_with(s, prefix) {
        assert(s =~= s.take(prefix.len() as int) + s.skip(prefix.len() as int));
    }
}

} // verus!
