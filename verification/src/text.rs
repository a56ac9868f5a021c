//! Strings: their characters, comparison, and text put together from pieces.

use vstd::prelude::*;
use vstd::std_specs::iter::IteratorSpec;

verus! {

/// `String::push` puts the character behind the others.
pub assume_specification[ std::string::String::push ](s: &mut std::string::String, c: char)
    ensures
        final(s)@ == old(s)@.push(c),
;

/// The characters of the string.
pub fn chars_of(s: &str) -> (r: Vec<char>)
    ensures
        r@ == s@,
{
    let mut it = s.chars();
    let mut out: Vec<char> = Vec::new();
    loop
        invariant
            out@ + it.remaining() == s@,
        ensures
            out@ == s@,
        decreases s@.len() - out@.len(),
    {
        let ghost rest = it.remaining();
        match it.next() {
            Some(c) => {
                out.push(c);
                assert(out@ + it.remaining() =~= out@.drop_last() + rest);
            },
            None => {
                assert(out@ + rest =~= out@);
                break;
            },
        }
    }
    out
}

/// Whether the text begins with the other.
pub open spec fn begins_with(s: Seq<char>, prefix: Seq<char>) -> bool {
    prefix.len() <= s.len() && s.take(prefix.len() as int) == prefix
}

/// The text behind a prefix, if it begins with that.
pub fn strip_prefix(s: &str, prefix: &str) -> (r: Option<String>)
    ensures
        (match r {
            Some(t) => Some(t@),
            None => None,
        }) == (if begins_with(s@, prefix@) {
            Some(s@.skip(prefix@.len() as int))
        } else {
            None
        }),
{
    let v = chars_of(s);
    let p = chars_of(prefix);
    if p.len() > v.len() {
        return None;
    }
    let mut i: usize = 0;
    while i < p.len()
        invariant
            i <= p@.len() <= v@.len(),
            v@ == s@,
            p@ == prefix@,
            forall|j: int| 0 <= j < i ==> v@[j] == p@[j],
        decreases p@.len() - i,
    {
        if v[i] != p[i] {
            assert(s@.take(p@.len() as int)[i as int] != prefix@[i as int]);
            return None;
        }
        i += 1;
    }
    assert(s@.take(p@.len() as int) =~= prefix@);
    let rest = piece(&v, p.len(), v.len());
    assert(rest@ =~= s@.skip(prefix@.len() as int));
    Some(rest)
}

/// Whether two strings have the same characters.
pub fn str_eq(a: &str, b: &str) -> (r: bool)
    ensures
        r == (a@ == b@),
{
    let mut x = a.chars();
    let mut y = b.chars();
    let ghost mut k: int = 0;
    loop
        invariant
            0 <= k <= a@.len(),
            k <= b@.len(),
            x.remaining() == a@.skip(k),
            y.remaining() == b@.skip(k),
            a@.take(k) == b@.take(k),
        decreases a@.len() - k,
    {
        match (x.next(), y.next()) {
            (Some(c), Some(d)) => {
                if c != d {
                    assert(a@.skip(k)[0] == a@[k] && b@.skip(k)[0] == b@[k]);
                    return false;
                }
                proof {
                    assert(a@.skip(k).drop_first() =~= a@.skip(k + 1));
                    assert(b@.skip(k).drop_first() =~= b@.skip(k + 1));
                    assert(a@.skip(k)[0] == a@[k] && b@.skip(k)[0] == b@[k]);
                    assert(a@.take(k + 1) =~= a@.take(k).push(a@[k]));
                    assert(b@.take(k + 1) =~= b@.take(k).push(b@[k]));
                    k = k + 1;
                }
            },
            (None, None) => {
                assert(a@.take(k) =~= a@);
                assert(b@.take(k) =~= b@);
                return true;
            },
            _ => {
                return false;
            },
        }
    }
}

/// Whether two byte strings are the same.
pub fn bytes_eq(a: &Vec<u8>, b: &Vec<u8>) -> (r: bool)
    ensures
        r == (a@ == b@),
{
    if a.len() != b.len() {
        return false;
    }
    let mut i: usize = 0;
    while i < a.len()
        invariant
            i <= a@.len(),
            a@.len() == b@.len(),
            forall|j: int| 0 <= j < i ==> a@[j] == b@[j],
        decreases a@.len() - i,
    {
        if a[i] != b[i] {
            return false;
        }
        i += 1;
    }
    assert(a@ =~= b@);
    true
}

// ---------------------------------------------------------------------------
// Decimal numbers
// ---------------------------------------------------------------------------

/// The character of a decimal digit.
pub open spec fn digit(d: nat) -> char {
    (48 + d) as char
}

/// The decimal text of a natural number.
pub open spec fn dec(n: nat) -> Seq<char>
    decreases n,
{
    if n < 10 {
        seq![digit(n)]
    } else {
        dec(n / 10).push(digit(n % 10))
    }
}

/// The decimal text of an integer.
pub open spec fn dec_int(n: int) -> Seq<char> {
    if n < 0 {
        seq!['-'] + dec((-n) as nat)
    } else {
        dec(n as nat)
    }
}

proof fn lemma_dec_digit(n: nat)
    ensures
        dec(n).len() >= 1,
        dec(n).last() == digit(n % 10),
        dec(n).len() == 1 <==> n < 10,
        n >= 10 ==> dec(n).drop_last() == dec(n / 10),
    decreases n,
{
    if n >= 10 {
        lemma_dec_digit(n / 10);
        assert(dec(n).drop_last() =~= dec(n / 10));
    }
}

/// Different numbers have different decimal texts.
pub proof fn law_dec_injective(a: nat, b: nat)
    requires
        dec(a) == dec(b),
    ensures
        a == b,
    decreases a,
{
    lemma_dec_digit(a);
    lemma_dec_digit(b);
    if a >= 10 {
        law_dec_injective(a / 10, b / 10);
    }
}

/// The decimal text of the number.
pub fn dec_text(n: u64) -> (r: String)
    ensures
        r@ == dec(n as nat),
    decreases n,
{
    let c = (48u8 + (n % 10) as u8) as char;
    let mut out: String = if n < 10 {
        String::new()
    } else {
        dec_text(n / 10)
    };
    out.push(c);
    assert(out@ =~= dec(n as nat));
    out
}

/// The decimal text of the number.
pub fn dec_signed(n: i64) -> (r: String)
    ensures
        r@ == dec_int(n as int),
{
    if n < 0 {
        let magnitude: u64 = if n == i64::MIN {
            0x8000_0000_0000_0000
        } else {
            (-n) as u64
        };
        let mut out: String = String::new();
        out.push('-');
        out.append(&dec_text(magnitude));
        assert(out@ =~= dec_int(n as int));
        out
    } else {
        dec_text(n as u64)
    }
}

// ---------------------------------------------------------------------------
// Lines
// ---------------------------------------------------------------------------

/// The pieces with the separator between them.
pub open spec fn join(v: Seq<Seq<char>>, sep: Seq<char>) -> Seq<char>
    decreases v.len(),
{
    if v.len() == 0 {
        Seq::empty()
    } else if v.len() == 1 {
        v[0]
    } else {
        join(v.drop_last(), sep) + sep + v.last()
    }
}

/// Where the first line of the text ends: at its line feed, or at its end.
pub open spec fn line_end(s: Seq<char>) -> nat
    decreases s.len(),
{
    if s.len() == 0 || s[0] == '\n' {
        0
    } else {
        1 + line_end(s.skip(1))
    }
}

/// The line without the carriage return in front of its line feed.
pub open spec fn without_cr(s: Seq<char>) -> Seq<char> {
    if s.len() > 0 && s.last() == '\r' {
        s.drop_last()
    } else {
        s
    }
}

/// The lines of the text. A line ends with a line feed or with a carriage return
/// and a line feed, which are not part of it; the end of the last one is optional.
pub open spec fn lines(s: Seq<char>) -> Seq<Seq<char>>
    decreases s.len(),
{
    let k = line_end(s) as int;
    if s.len() == 0 {
        Seq::empty()
    } else if k >= s.len() {
        seq![s]
    } else {
        seq![without_cr(s.take(k))] + lines(s.skip(k + 1))
    }
}

/// The lines of the text, each with the padding in front.
pub open spec fn indented(s: Seq<char>, pad: Seq<char>) -> Seq<char> {
    join(lines(s).map_values(|l: Seq<char>| pad + l), "\n"@)
}

/// Four spaces for each level.
pub open spec fn levels(k: nat) -> Seq<char> {
    Seq::new(4 * k, |i: int| ' ')
}

/// The texts of the strings.
pub open spec fn strings_view(v: Seq<String>) -> Seq<Seq<char>> {
    v.map_values(|s: String| s@)
}

/// The pieces with the separator between them.
pub fn join_strings(v: &Vec<String>, sep: &str) -> (r: String)
    ensures
        r@ == join(strings_view(v@), sep@),
{
    let ghost all = strings_view(v@);
    let mut out: String = String::new();
    if v.len() == 0 {
        assert(out@ =~= Seq::empty());
        return out;
    }
    out.append(&v[0]);
    assert(out@ =~= v@[0]@);
    assert(all.take(1) =~= seq![v@[0]@]);
    let mut i: usize = 1;
    while i < v.len()
        invariant
            1 <= i <= v@.len(),
            all == strings_view(v@),
            out@ == join(all.take(i as int), sep@),
        decreases v@.len() - i,
    {
        out.append(sep);
        out.append(&v[i]);
        i += 1;
        assert(all.take(i as int).drop_last() =~= all.take(i - 1));
        assert(all.take(i as int).last() == v@[i - 1]@);
    }
    assert(all.take(i as int) =~= all);
    out
}

/// The characters from `i` up to `j`.
pub fn piece(v: &Vec<char>, i: usize, j: usize) -> (r: String)
    requires
        i <= j <= v@.len(),
    ensures
        r@ == v@.subrange(i as int, j as int),
{
    let mut out: String = String::new();
    let mut k: usize = i;
    while k < j
        invariant
            i <= k <= j <= v@.len(),
            out@ == v@.subrange(i as int, k as int),
        decreases j - k,
    {
        out.push(v[k]);
        k += 1;
        assert(v@.subrange(i as int, k as int) =~= v@.subrange(i as int, k - 1).push(v@[k - 1]));
    }
    out
}

/// Where the line that starts at `i` ends.
fn find_line_end(v: &Vec<char>, i: usize) -> (r: usize)
    requires
        i <= v@.len(),
    ensures
        i <= r <= v@.len(),
        r - i == line_end(v@.skip(i as int)),
        r < v@.len() ==> v@[r as int] == '\n',
{
    let mut j: usize = i;
    while j < v.len() && v[j] != '\n'
        invariant
            i <= j <= v@.len(),
            line_end(v@.skip(i as int)) == (j - i) + line_end(v@.skip(j as int)),
        decreases v@.len() - j,
    {
        assert(v@.skip(j as int)[0] == v@[j as int]);
        assert(v@.skip(j as int).skip(1) =~= v@.skip(j + 1));
        j += 1;
    }
    assert(j < v@.len() ==> v@.skip(j as int)[0] == v@[j as int]);
    j
}

/// The lines of the text.
pub fn lines_of(s: &str) -> (r: Vec<String>)
    ensures
        strings_view(r@) == lines(s@),
{
    let v = chars_of(s);
    let mut out: Vec<String> = Vec::new();
    let mut i: usize = 0;
    assert(v@.skip(0) =~= v@);
    assert(strings_view(out@) + lines(v@) =~= lines(v@));
    while i < v.len()
        invariant
            i <= v@.len(),
            strings_view(out@) + lines(v@.skip(i as int)) == lines(v@),
        decreases v@.len() - i,
    {
        let ghost rest = v@.skip(i as int);
        let ghost before = strings_view(out@);
        let j: usize = find_line_end(&v, i);
        if j == v.len() {
            let line = piece(&v, i, j);
            assert(line@ =~= rest);
            out.push(line);
            assert(strings_view(out@) =~= before + seq![rest]);
            i = j;
        } else {
            let end: usize = if j > i && v[j - 1] == '\r' {
                j - 1
            } else {
                j
            };
            let line = piece(&v, i, end);
            proof {
                let whole = rest.take(j - i);
                assert(j > i ==> whole.last() == v@[j - 1]);
                assert(line@ =~= without_cr(whole));
                assert(rest.skip(j - i + 1) =~= v@.skip(j + 1));
            }
            out.push(line);
            assert(strings_view(out@) =~= before + seq![line@]);
            assert(before + (seq![line@] + lines(v@.skip(j + 1))) =~= strings_view(out@) + lines(
                v@.skip(j + 1),
            ));
            i = j + 1;
        }
        assert(i == v@.len() ==> v@.skip(i as int).len() == 0);
    }
    assert(strings_view(out@) =~= lines(v@));
    out
}

/// The lines of the text, each with the padding in front.
pub fn indent(s: &str, pad: &str) -> (r: String)
    ensures
        r@ == indented(s@, pad@),
{
    let v = lines_of(s);
    let mut out: Vec<String> = Vec::new();
    let mut i: usize = 0;
    while i < v.len()
        invariant
            i <= v@.len(),
            out@.len() == i,
            forall|j: int| 0 <= j < i ==> (#[trigger] out@[j])@ == pad@ + v@[j]@,
        decreases v@.len() - i,
    {
        let mut line: String = pad.to_string();
        line.append(&v[i]);
        out.push(line);
        i += 1;
    }
    assert(strings_view(out@) =~= lines(s@).map_values(|l: Seq<char>| pad@ + l)) by {
        assert forall|j: int| 0 <= j < out@.len() implies #[trigger] strings_view(out@)[j] == pad@
            + lines(s@)[j] by {
            assert(strings_view(v@)[j] == v@[j]@);
        }
    }
    join_strings(&out, "\n")
}

/// Four spaces for each level.
pub fn pad_levels(k: usize) -> (r: String)
    ensures
        r@ == levels(k as nat),
{
    let mut out: String = String::new();
    let mut i: usize = 0;
    assert(out@ =~= levels(0));
    while i < k
        invariant
            i <= k,
            out@ == levels(i as nat),
        decreases k - i,
    {
        out.push(' ');
        out.push(' ');
        out.push(' ');
        out.push(' ');
        i += 1;
        assert(out@ =~= levels(i as nat));
    }
    out
}

} // verus!
