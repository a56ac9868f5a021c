//! The smallest pieces of ArkTS source: string literals, field names, curve
//! names.

use crate::text::{chars_of, str_eq};
use vstd::prelude::*;

verus! {

// ---------------------------------------------------------------------------
// String literals
// ---------------------------------------------------------------------------

/// A character as it stands inside a single-quoted literal.
pub open spec fn escape(c: char) -> Seq<char> {
    if c == '\\' {
        seq!['\\', '\\']
    } else if c == '\'' {
        seq!['\\', '\'']
    } else if c == '\n' {
        seq!['\\', 'n']
    } else if c == '\r' {
        seq!['\\', 'r']
    } else if c == '\t' {
        seq!['\\', 't']
    } else {
        seq![c]
    }
}

/// The text between the quotes of a literal.
pub open spec fn escaped(s: Seq<char>) -> Seq<char>
    decreases s.len(),
{
    if s.len() == 0 {
        Seq::empty()
    } else {
        escape(s[0]) + escaped(s.skip(1))
    }
}

/// The single-quoted literal for a string.
pub open spec fn string_lit(s: Seq<char>) -> Seq<char> {
    seq!['\''] + escaped(s) + seq!['\'']
}

/// The character that an escape stands for.
pub open spec fn unescape(c: char) -> Option<char> {
    if c == '\\' || c == '\'' {
        Some(c)
    } else if c == 'n' {
        Some('\n')
    } else if c == 'r' {
        Some('\r')
    } else if c == 't' {
        Some('\t')
    } else {
        None
    }
}

/// Reads up to the closing quote: the string so far, and the text behind it.
pub open spec fn read_to_quote(t: Seq<char>, read: Seq<char>) -> Option<(Seq<char>, Seq<char>)>
    decreases t.len(),
{
    if t.len() == 0 || t[0] == '\n' || t[0] == '\r' {
        None
    } else if t[0] == '\'' {
        Some((read, t.skip(1)))
    } else if t[0] == '\\' {
        if t.len() < 2 {
            None
        } else {
            match unescape(t[1]) {
                Some(c) => read_to_quote(t.skip(2), read.push(c)),
                None => None,
            }
        }
    } else {
        read_to_quote(t.skip(1), read.push(t[0]))
    }
}

/// Reads a single-quoted literal off the front of a text, as ArkTS does: the
/// string that it stands for, and what is left of the text.
pub open spec fn read_lit(t: Seq<char>) -> Option<(Seq<char>, Seq<char>)> {
    if t.len() > 0 && t[0] == '\'' {
        read_to_quote(t.skip(1), Seq::empty())
    } else {
        None
    }
}

proof fn lemma_read_escaped(s: Seq<char>, rest: Seq<char>, read: Seq<char>)
    ensures
        read_to_quote(escaped(s) + seq!['\''] + rest, read) == Some((read + s, rest)),
    decreases s.len(),
{
    let t = escaped(s) + seq!['\''] + rest;
    if s.len() == 0 {
        assert(t.skip(1) =~= rest);
        assert(read + s =~= read);
    } else {
        let c = s[0];
        let tail = escaped(s.skip(1)) + seq!['\''] + rest;
        assert(t =~= escape(c) + tail);
        lemma_read_escaped(s.skip(1), rest, read.push(c));
        assert(read.push(c) + s.skip(1) =~= read + s);
        if escape(c).len() == 2 {
            assert(t[0] == '\\' && t[1] == escape(c)[1]);
            assert(t.skip(2) =~= tail);
        } else {
            assert(t[0] == c);
            assert(t.skip(1) =~= tail);
        }
    }
}

/// A literal is read back as the string it was made from, whatever text follows
/// it: it ends where it should and loses nothing.
pub proof fn law_string_lit_reads_back(s: Seq<char>, rest: Seq<char>)
    ensures
        read_lit(string_lit(s) + rest) == Some((s, rest)),
{
    let t = string_lit(s) + rest;
    assert(t.skip(1) =~= escaped(s) + seq!['\''] + rest);
    lemma_read_escaped(s, rest, Seq::empty());
    assert(Seq::<char>::empty() + s =~= s);
}

/// Different strings have different literals.
pub proof fn law_string_lit_injective(a: Seq<char>, b: Seq<char>)
    requires
        string_lit(a) == string_lit(b),
    ensures
        a == b,
{
    law_string_lit_reads_back(a, Seq::empty());
    law_string_lit_reads_back(b, Seq::empty());
}

/// Escapes a string into an ArkTS single-quoted literal. Backslashes, single
/// quotes, line ends and tabs are escaped; every other character stands as it is.
pub fn arkts_string_lit(s: &str) -> (r: String)
    ensures
        r@ == string_lit(s@),
{
    let v = chars_of(s);
    let mut out: String = String::new();
    out.push('\'');
    assert(v@.skip(0) =~= v@);
    let mut i: usize = 0;
    while i < v.len()
        invariant
            i <= v@.len(),
            out@ + escaped(v@.skip(i as int)) == seq!['\''] + escaped(v@),
        decreases v@.len() - i,
    {
        let c = v[i];
        let ghost before = out@;
        if c == '\\' {
            out.push('\\');
            out.push('\\');
        } else if c == '\'' {
            out.push('\\');
            out.push('\'');
        } else if c == '\n' {
            out.push('\\');
            out.push('n');
        } else if c == '\r' {
            out.push('\\');
            out.push('r');
        } else if c == '\t' {
            out.push('\\');
            out.push('t');
        } else {
            out.push(c);
        }
        proof {
            assert(v@.skip(i as int)[0] == c);
            assert(v@.skip(i as int).skip(1) =~= v@.skip(i + 1));
            assert(out@ =~= before + escape(c));
            assert(out@ + escaped(v@.skip(i + 1)) =~= before + escaped(v@.skip(i as int)));
        }
        i += 1;
    }
    assert(out@ =~= seq!['\''] + escaped(v@));
    out.push('\'');
    assert(out@ =~= string_lit(s@));
    out
}

// ---------------------------------------------------------------------------
// Field names
// ---------------------------------------------------------------------------

pub open spec fn is_digit(c: char) -> bool {
    '0' <= c && c <= '9'
}

/// The characters of ArkTS names: ASCII letters, digits and the underscore.
pub open spec fn is_name_char(c: char) -> bool {
    ||| 'a' <= c && c <= 'z'
    ||| 'A' <= c && c <= 'Z'
    ||| is_digit(c)
    ||| c == '_'
}

/// Whether a text can stand as a name: not empty, name characters only, no digit
/// in front.
pub open spec fn is_name(s: Seq<char>) -> bool {
    &&& s.len() > 0
    &&& !is_digit(s[0])
    &&& forall|i: int| 0 <= i < s.len() ==> is_name_char(#[trigger] s[i])
}

/// The text with an underscore for every character that no name can hold.
pub open spec fn name_chars(s: Seq<char>) -> Seq<char> {
    s.map_values(|c: char| if is_name_char(c) { c } else { '_' })
}

/// The name made from an arbitrary text.
pub open spec fn sanitized(s: Seq<char>) -> Seq<char> {
    if s.len() == 0 {
        "default"@
    } else if is_digit(s[0]) {
        seq!['x'] + name_chars(s)
    } else {
        name_chars(s)
    }
}

/// What comes out of sanitizing is a name.
pub proof fn law_sanitized_is_name(s: Seq<char>)
    ensures
        is_name(sanitized(s)),
{
    reveal_strlit("default");
    if s.len() > 0 {
        let t = sanitized(s);
        assert forall|i: int| 0 <= i < t.len() implies is_name_char(#[trigger] t[i]) by {
            if is_digit(s[0]) && i > 0 {
                assert(t[i] == name_chars(s)[i - 1]);
            }
        }
    }
}

/// A text that is a name already stays as it is.
pub proof fn law_sanitized_keeps_names(s: Seq<char>)
    requires
        is_name(s),
    ensures
        sanitized(s) == s,
{
    assert(name_chars(s) =~= s);
}

/// Sanitizing twice is sanitizing once.
pub proof fn law_sanitized_idempotent(s: Seq<char>)
    ensures
        sanitized(sanitized(s)) == sanitized(s),
{
    law_sanitized_is_name(s);
    law_sanitized_keeps_names(sanitized(s));
}

fn name_char(c: char) -> (r: bool)
    ensures
        r == is_name_char(c),
{
    ('a' <= c && c <= 'z') || ('A' <= c && c <= 'Z') || ('0' <= c && c <= '9') || c == '_'
}

/// Turns an arbitrary id into a valid ArkTS field-name suffix. Every character
/// outside `[a-zA-Z0-9_]` becomes `_`, a leading digit gets an `x` in front, and
/// the empty id becomes `default`.
pub fn sanitize_text_id(s: &str) -> (r: String)
    ensures
        r@ == sanitized(s@),
{
    let v = chars_of(s);
    if v.len() == 0 {
        return "default".to_string();
    }
    let mut out: String = String::new();
    if '0' <= v[0] && v[0] <= '9' {
        out.push('x');
    }
    let ghost start = out@;
    let mut i: usize = 0;
    while i < v.len()
        invariant
            i <= v@.len(),
            out@ == start + name_chars(v@.take(i as int)),
        decreases v@.len() - i,
    {
        let c = v[i];
        if name_char(c) {
            out.push(c);
        } else {
            out.push('_');
        }
        i += 1;
        assert(v@.take(i as int) =~= v@.take(i - 1).push(c));
        assert(out@ =~= start + name_chars(v@.take(i as int)));
    }
    assert(v@.take(i as int) =~= v@);
    assert(out@ =~= sanitized(s@));
    out
}

// ---------------------------------------------------------------------------
// Curves
// ---------------------------------------------------------------------------

/// The member of ArkUI's `Curve` for a timing-function name.
pub open spec fn curve_name(s: Seq<char>) -> Seq<char> {
    if s == "linear"@ {
        "Linear"@
    } else if s == "ease"@ {
        "Ease"@
    } else if s == "ease-in"@ || s == "easeIn"@ {
        "EaseIn"@
    } else if s == "ease-out"@ || s == "easeOut"@ {
        "EaseOut"@
    } else if s == "ease-in-out"@ || s == "easeInOut"@ {
        "EaseInOut"@
    } else if s == "fast-out-slow-in"@ {
        "FastOutSlowIn"@
    } else if s == "linear-out-slow-in"@ {
        "LinearOutSlowIn"@
    } else if s == "fast-out-linear-in"@ {
        "FastOutLinearIn"@
    } else if s == "extreme-deceleration"@ {
        "ExtremeDeceleration"@
    } else if s == "sharp"@ {
        "Sharp"@
    } else if s == "rhythm"@ {
        "Rhythm"@
    } else if s == "smooth"@ {
        "Smooth"@
    } else if s == "friction"@ {
        "Friction"@
    } else {
        "Ease"@
    }
}

pub open spec fn curve_value(s: Seq<char>) -> Seq<char> {
    "Curve."@ + curve_name(s)
}

/// Maps a CSS-style curve name to ArkUI's `Curve` enum. A name that is not known
/// gives `Curve.Ease`.
pub fn arkts_curve_value(s: &str) -> (r: String)
    ensures
        r@ == curve_value(s@),
{
    let name: &str = if str_eq(s, "linear") {
        "Linear"
    } else if str_eq(s, "ease") {
        "Ease"
    } else if str_eq(s, "ease-in") || str_eq(s, "easeIn") {
        "EaseIn"
    } else if str_eq(s, "ease-out") || str_eq(s, "easeOut") {
        "EaseOut"
    } else if str_eq(s, "ease-in-out") || str_eq(s, "easeInOut") {
        "EaseInOut"
    } else if str_eq(s, "fast-out-slow-in") {
        "FastOutSlowIn"
    } else if str_eq(s, "linear-out-slow-in") {
        "LinearOutSlowIn"
    } else if str_eq(s, "fast-out-linear-in") {
        "FastOutLinearIn"
    } else if str_eq(s, "extreme-deceleration") {
        "ExtremeDeceleration"
    } else if str_eq(s, "sharp") {
        "Sharp"
    } else if str_eq(s, "rhythm") {
        "Rhythm"
    } else if str_eq(s, "smooth") {
        "Smooth"
    } else if str_eq(s, "friction") {
        "Friction"
    } else {
        "Ease"
    };
    let mut out: String = "Curve.".to_string();
    out.append(name);
    out
}

} // verus!
