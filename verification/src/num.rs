//! Numbers as the generated source shows them: 64-bit floating point, by its bits.

use crate::hir::Num;
use crate::model::NumView;
use crate::text::{dec, dec_int, dec_signed, dec_text};
use vstd::arithmetic::power2::{
    lemma2_to64, lemma2_to64_rest, lemma_pow2_adds, lemma_pow2_pos, lemma_pow2_strictly_increases,
    pow2,
};
use vstd::prelude::*;

verus! {

/// The bound below which whole numbers are written as integers.
pub const WHOLE_LIMIT: u64 = 1_000_000_000_000_000;

// ---------------------------------------------------------------------------
// Bits
// ---------------------------------------------------------------------------

pub open spec fn is_negative(bits: u64) -> bool {
    bits >= 0x8000_0000_0000_0000
}

/// The exponent field.
pub open spec fn biased(bits: u64) -> nat {
    ((bits / 0x10_0000_0000_0000) % 0x800) as nat
}

/// The fraction field.
pub open spec fn fraction(bits: u64) -> nat {
    (bits % 0x10_0000_0000_0000) as nat
}

pub open spec fn is_nan(bits: u64) -> bool {
    biased(bits) == 0x7ff && fraction(bits) != 0
}

/// The significand: a finite number is this times two to the [`exponent`].
pub open spec fn significand(bits: u64) -> nat {
    if biased(bits) == 0 {
        fraction(bits)
    } else {
        0x10_0000_0000_0000 + fraction(bits)
    }
}

pub open spec fn exponent(bits: u64) -> int {
    if biased(bits) == 0 {
        -1074
    } else {
        biased(bits) - 1075
    }
}

/// The number as an integer, if it is whole and its magnitude is below
/// [`WHOLE_LIMIT`].
pub open spec fn whole_value(bits: u64) -> Option<int> {
    let m = significand(bits);
    let e = exponent(bits);
    if m == 0 {
        Some(0)
    } else if e > 0 || e < -52 {
        None
    } else if m % pow2((-e) as nat) != 0 || m / pow2((-e) as nat) >= WHOLE_LIMIT {
        None
    } else if is_negative(bits) {
        Some(-((m / pow2((-e) as nat)) as int))
    } else {
        Some((m / pow2((-e) as nat)) as int)
    }
}

/// The number as source text: a whole one without a decimal point.
pub open spec fn number_text(n: NumView) -> Seq<char> {
    match whole_value(n.bits) {
        Some(v) => dec_int(v),
        None => n.text,
    }
}

/// The nearest value that 64 bits with a sign can hold.
pub open spec fn saturated(negative: bool, magnitude: nat) -> int {
    if negative {
        if magnitude > 0x8000_0000_0000_0000 {
            i64::MIN as int
        } else {
            -(magnitude as int)
        }
    } else {
        if magnitude > i64::MAX {
            i64::MAX as int
        } else {
            magnitude as int
        }
    }
}

/// The number cut off to an integer: 0 where it is not a number, and the nearest
/// 64-bit value where it is too large.
pub open spec fn truncated(bits: u64) -> int {
    let m = significand(bits);
    let e = exponent(bits);
    if is_nan(bits) {
        0
    } else if e >= 0 {
        saturated(is_negative(bits), m * pow2(e as nat))
    } else {
        saturated(is_negative(bits), m / pow2((-e) as nat))
    }
}

// ---------------------------------------------------------------------------
// Rounding
// ---------------------------------------------------------------------------

/// `x` over two to the `s`, rounded to the nearest, ties to even.
pub open spec fn round_shift(x: nat, s: nat) -> nat {
    let q = x / pow2(s);
    let r = x % pow2(s);
    if 2 * r > pow2(s) || (2 * r == pow2(s) && q % 2 == 1) {
        q + 1
    } else {
        q
    }
}

/// How many binary digits `x` has.
pub open spec fn bit_len(x: nat) -> nat
    decreases x,
{
    if x == 0 {
        0
    } else {
        1 + bit_len(x / 2)
    }
}

/// By how many binary digits `x` is longer than a significand.
pub open spec fn excess(x: nat) -> nat {
    if bit_len(x) > 53 {
        (bit_len(x) - 53) as nat
    } else {
        0
    }
}

/// `m` times two to the `e`, times 255 in floating point, rounded to the nearest
/// integer with ties away from zero.
pub open spec fn scaled(m: nat, e: int) -> nat {
    let s = excess(255 * m);
    let q = round_shift(255 * m, s);
    let e2 = e + s;
    if e2 >= 0 {
        q * pow2(e2 as nat)
    } else {
        (q + pow2((-e2 - 1) as nat)) / pow2((-e2) as nat)
    }
}

/// A color channel from 0 to 1 as a number from 0 to 255.
pub open spec fn channel(bits: u64) -> int {
    if is_nan(bits) {
        0
    } else {
        saturated(is_negative(bits), scaled(significand(bits), exponent(bits)))
    }
}

// ---------------------------------------------------------------------------
// Execution
// ---------------------------------------------------------------------------

/// Two to the power of `k`.
fn power_of_two(k: u32) -> (r: u64)
    requires
        k <= 63,
    ensures
        r == pow2(k as nat),
{
    let mut r: u64 = 1;
    let mut i: u32 = 0;
    proof {
        lemma2_to64();
    }
    while i < k
        invariant
            i <= k <= 63,
            r == pow2(i as nat),
        decreases k - i,
    {
        proof {
            lemma2_to64();
            lemma2_to64_rest();
            lemma_pow2_adds(i as nat, 1);
            lemma_pow2_grows((i + 1) as nat, 63);
        }
        r = r * 2;
        i += 1;
    }
    r
}

pub proof fn lemma_pow2_grows(a: nat, b: nat)
    requires
        a <= b,
    ensures
        pow2(a) <= pow2(b),
{
    if a < b {
        lemma_pow2_strictly_increases(a, b);
    }
}

/// The exponent field and the significand.
fn fields(bits: u64) -> (r: (u64, u64))
    ensures
        r.0 == biased(bits),
        r.1 == significand(bits),
        r.0 < 0x800,
        r.1 < 0x20_0000_0000_0000,
        r.0 > 0 ==> r.1 >= 0x10_0000_0000_0000,
{
    let b: u64 = (bits / 0x10_0000_0000_0000) % 0x800;
    let f: u64 = bits % 0x10_0000_0000_0000;
    if b == 0 {
        (b, f)
    } else {
        (b, 0x10_0000_0000_0000 + f)
    }
}

/// The number as an integer, if it is whole and not too large.
pub fn whole_number(bits: u64) -> (r: Option<i64>)
    ensures
        (match r {
            Some(v) => Some(v as int),
            None => None,
        }) == whole_value(bits),
{
    let (b, m) = fields(bits);
    if m == 0 {
        return Some(0);
    }
    if b < 1023 || b > 1075 {
        return None;
    }
    let p: u64 = power_of_two((1075 - b) as u32);
    proof {
        lemma_pow2_pos((1075 - b) as nat);
    }
    if m % p != 0 {
        return None;
    }
    let v: u64 = m / p;
    if v >= WHOLE_LIMIT {
        return None;
    }
    if bits >= 0x8000_0000_0000_0000 {
        Some(-(v as i64))
    } else {
        Some(v as i64)
    }
}

/// Formats a number as ArkTS source. Whole numbers have no decimal point (`8`,
/// not `8.0`).
pub fn fmt_num(n: &Num) -> (r: String)
    ensures
        r@ == number_text(n@),
{
    match whole_number(n.bits) {
        Some(v) => dec_signed(v),
        None => n.text.clone(),
    }
}

fn saturate(negative: bool, magnitude: u64) -> (r: i64)
    ensures
        r == saturated(negative, magnitude as nat),
{
    if negative {
        if magnitude >= 0x8000_0000_0000_0000 {
            i64::MIN
        } else {
            -(magnitude as i64)
        }
    } else {
        if magnitude >= 0x8000_0000_0000_0000 {
            i64::MAX
        } else {
            magnitude as i64
        }
    }
}

/// The number cut off to an integer.
pub fn truncate(bits: u64) -> (r: i64)
    ensures
        r == truncated(bits),
{
    let (b, m) = fields(bits);
    let negative = bits >= 0x8000_0000_0000_0000;
    if b == 0x7ff && m != 0x10_0000_0000_0000 {
        return 0;
    }
    if b >= 1075 {
        if b >= 1086 {
            proof {
                lemma2_to64();
                lemma_pow2_grows(11, (b - 1075) as nat);
                assert(m * pow2((b - 1075) as nat) >= 0x10_0000_0000_0000 * 2048)
                    by (nonlinear_arith)
                    requires
                        m >= 0x10_0000_0000_0000,
                        pow2((b - 1075) as nat) >= 2048,
                ;
            }
            return saturate(negative, u64::MAX);
        }
        let p: u64 = power_of_two((b - 1075) as u32);
        proof {
            lemma2_to64();
            lemma_pow2_grows((b - 1075) as nat, 10);
            assert(m * p <= 0x20_0000_0000_0000 * 1024) by (nonlinear_arith)
                requires
                    m < 0x20_0000_0000_0000,
                    p <= 1024,
            ;
        }
        return saturate(negative, m * p);
    }
    if b < 1012 {
        proof {
            lemma2_to64();
            lemma2_to64_rest();
            let k: nat = if b == 0 {
                1074
            } else {
                (1075 - b) as nat
            };
            lemma_pow2_grows(63, k);
            vstd::arithmetic::div_mod::lemma_basic_div(m as int, pow2(k) as int);
        }
        return saturate(negative, 0);
    }
    let p: u64 = power_of_two((1075 - b) as u32);
    proof {
        lemma_pow2_pos((1075 - b) as nat);
    }
    saturate(negative, m / p)
}

/// A number of `k` binary digits lies between two powers of two.
proof fn lemma_bit_len(x: nat)
    requires
        x > 0,
    ensures
        bit_len(x) > 0,
        pow2((bit_len(x) - 1) as nat) <= x < pow2(bit_len(x)),
    decreases x,
{
    reveal_with_fuel(bit_len, 2);
    let k = bit_len(x);
    lemma2_to64();
    if x > 1 {
        lemma_bit_len(x / 2);
        lemma_pow2_adds((k - 2) as nat, 1);
        lemma_pow2_adds((k - 1) as nat, 1);
    }
}

/// A number below a power of two has no more binary digits.
pub proof fn lemma_bit_len_bound(x: nat, k: nat)
    requires
        x < pow2(k),
    ensures
        bit_len(x) <= k,
{
    if x > 0 {
        lemma_bit_len(x);
        if bit_len(x) > k {
            lemma_pow2_grows(k, (bit_len(x) - 1) as nat);
        }
    }
}

fn count_bits(x: u64) -> (r: u32)
    ensures
        r == bit_len(x as nat),
        r <= 64,
{
    let mut y: u64 = x;
    let mut k: u32 = 0;
    proof {
        lemma2_to64();
        lemma_bit_len_bound(x as nat, 64);
    }
    while y > 0
        invariant
            k + bit_len(y as nat) == bit_len(x as nat),
            bit_len(x as nat) <= 64,
        decreases y,
    {
        y = y / 2;
        k += 1;
    }
    k
}

/// Rounds to the length of a significand: what was cut off, and what is left.
fn round_to_53(x: u64) -> (r: (u32, u64))
    ensures
        r.0 == excess(x as nat),
        r.0 <= 11,
        r.1 == round_shift(x as nat, excess(x as nat)),
        r.1 <= 0x20_0000_0000_0000,
        r.1 * pow2(r.0 as nat) <= x + pow2(r.0 as nat),
        x >= 0x10_0000_0000_0000 ==> r.1 >= 0x10_0000_0000_0000,
{
    let len: u32 = count_bits(x);
    let s: u32 = if len > 53 {
        len - 53
    } else {
        0
    };
    let p: u64 = power_of_two(s);
    proof {
        lemma_pow2_pos(s as nat);
        lemma2_to64();
        lemma2_to64_rest();
        if x > 0 {
            lemma_bit_len(x as nat);
        }
        if len > 53 {
            lemma_pow2_adds(s as nat, 53);
            lemma_pow2_adds(s as nat, 52);
            assert(pow2(len as nat) == p * 0x20_0000_0000_0000);
            assert(pow2((len - 1) as nat) == p * 0x10_0000_0000_0000);
            assert(0x10_0000_0000_0000 <= x / p < 0x20_0000_0000_0000) by (nonlinear_arith)
                requires
                    p > 0,
                    p * 0x10_0000_0000_0000 <= x < p * 0x20_0000_0000_0000,
            ;
        } else {
            lemma_pow2_grows(len as nat, 53);
            assert(p == 1);
            assert(x / p == x);
            assert(x % p == 0);
        }
    }
    let q: u64 = x / p;
    let r: u64 = x % p;
    proof {
        lemma_pow2_grows(s as nat, 11);
        assert(q * p <= x && (q + 1) * p <= x + p) by (nonlinear_arith)
            requires
                p > 0,
                q == x / p,
        ;
    }
    if 2 * r > p || (2 * r == p && q % 2 == 1) {
        (s, q + 1)
    } else {
        (s, q)
    }
}

/// `m` times two to the `e`, times 255, rounded to an integer; a result that is
/// too large for 64 bits with a sign is some number that is.
fn scale(m: u64, e: i64) -> (r: u64)
    requires
        m < 0x40_0000_0000_0000,
        -2000 <= e <= 2000,
        e > 0 ==> m >= 0x10_0000_0000_0000,
    ensures
        r == scaled(m as nat, e as int) || (r >= 0x8000_0000_0000_0000 && scaled(
            m as nat,
            e as int,
        ) >= 0x8000_0000_0000_0000),
{
    let (s, q) = round_to_53(255 * m);
    let e2: i64 = e + s as i64;
    if e2 >= 11 {
        proof {
            lemma2_to64();
            lemma_pow2_grows(11, e2 as nat);
            lemma2_to64_rest();
            lemma_bit_len_bound((255 * m) as nat, 62);
            assert(q * pow2(e2 as nat) >= 0x10_0000_0000_0000 * 2048) by (nonlinear_arith)
                requires
                    q >= 0x10_0000_0000_0000,
                    pow2(e2 as nat) >= 2048,
            ;
        }
        return u64::MAX;
    }
    if e2 >= 0 {
        let p: u64 = power_of_two(e2 as u32);
        proof {
            lemma2_to64();
            lemma_pow2_grows(e2 as nat, 10);
            assert(q * p <= 0x20_0000_0000_0000 * 1024) by (nonlinear_arith)
                requires
                    q <= 0x20_0000_0000_0000,
                    p <= 1024,
            ;
        }
        return q * p;
    }
    let k: i64 = -e2;
    if k > 60 {
        proof {
            lemma2_to64();
            lemma2_to64_rest();
            lemma_pow2_grows(60, (k - 1) as nat);
            lemma_pow2_adds((k - 1) as nat, 1);
            let a = q + pow2((k - 1) as nat);
            assert(a < pow2(k as nat));
            vstd::arithmetic::div_mod::lemma_basic_div(a as int, pow2(k as nat) as int);
        }
        return 0;
    }
    let half: u64 = power_of_two((k - 1) as u32);
    let p: u64 = power_of_two(k as u32);
    proof {
        lemma2_to64();
        lemma2_to64_rest();
        lemma_pow2_grows((k - 1) as nat, 60);
        lemma_pow2_pos(k as nat);
    }
    (q + half) / p
}

/// A color channel from 0 to 1 as a number from 0 to 255.
pub fn channel_of(bits: u64) -> (r: i64)
    ensures
        r == channel(bits),
{
    let (b, m) = fields(bits);
    if b == 0x7ff && m != 0x10_0000_0000_0000 {
        return 0;
    }
    let e: i64 = if b == 0 {
        -1074
    } else {
        b as i64 - 1075
    };
    saturate(bits >= 0x8000_0000_0000_0000, scale(m, e))
}

// ---------------------------------------------------------------------------
// Integers as numbers
// ---------------------------------------------------------------------------

/// The significand and the exponent of the number nearest to a natural number.
pub open spec fn nearest(x: nat) -> (nat, nat) {
    let s = excess(x);
    let q = round_shift(x, s);
    if q == 0x20_0000_0000_0000 {
        (0x10_0000_0000_0000, s + 1)
    } else {
        (q, s)
    }
}

/// Ten to the power of `k`.
pub open spec fn ten_to(k: nat) -> nat
    decreases k,
{
    if k == 0 {
        1
    } else {
        10 * ten_to((k - 1) as nat)
    }
}

/// Of the numbers that are read back as `q` times two to the `s`, the one with
/// the most zeros at its end, among `p` and fewer zeros.
pub open spec fn shortest(q: nat, s: nat, p: nat) -> nat
    decreases p,
{
    let v = q * pow2(s);
    let t = ten_to(p);
    let r = v % t;
    // Half the distance to the next number above, and to the one below, times four.
    let above = 2 * pow2(s);
    let below = if q == 0x10_0000_0000_0000 {
        pow2(s)
    } else {
        2 * pow2(s)
    };
    let even = q % 2 == 0;
    let down = 4 * r < below || (even && 4 * r == below);
    let up = 4 * (t - r) < above || (even && 4 * (t - r) == above);
    if p == 0 {
        v
    } else if up && (!down || 2 * r >= t) {
        (v - r + t) as nat
    } else if down {
        (v - r) as nat
    } else {
        shortest(q, s, (p - 1) as nat)
    }
}

/// An integer as source text, after it was made a floating-point number: those of
/// large magnitude are rounded to what such a number holds, and written with as
/// many digits as tell it from its neighbors.
pub open spec fn integer_text(n: int) -> Seq<char> {
    let magnitude = if n < 0 {
        (-n) as nat
    } else {
        n as nat
    };
    if magnitude < WHOLE_LIMIT {
        dec_int(n)
    } else {
        let (q, s) = nearest(magnitude);
        let v = if s == 0 {
            q
        } else {
            shortest(q, s, 18)
        };
        if n < 0 {
            seq!['-'] + dec(v)
        } else {
            dec(v)
        }
    }
}

/// A color channel given by an integer.
pub open spec fn integer_channel(n: int) -> int {
    let (q, s) = nearest(
        if n < 0 {
            (-n) as nat
        } else {
            n as nat
        },
    );
    saturated(n < 0, scaled(q, s as int))
}

fn magnitude_of(n: i64) -> (r: u64)
    ensures
        r == if n < 0 {
            -n as int
        } else {
            n as int
        },
        r <= 0x8000_0000_0000_0000,
{
    if n == i64::MIN {
        0x8000_0000_0000_0000
    } else if n < 0 {
        (-n) as u64
    } else {
        n as u64
    }
}

fn nearest_of(x: u64) -> (r: (u64, u32))
    requires
        x <= 0x8000_0000_0000_0000,
    ensures
        (r.0 as nat, r.1 as nat) == nearest(x as nat),
        r.0 <= 0x20_0000_0000_0000,
        r.1 <= 12,
        r.0 * pow2(r.1 as nat) <= x + 2048,
        r.1 > 0 ==> r.0 >= 0x10_0000_0000_0000,
{
    let (s, q) = round_to_53(x);
    proof {
        lemma2_to64();
        lemma2_to64_rest();
        lemma_pow2_grows(s as nat, 11);
        lemma_pow2_adds(s as nat, 1);
        if s > 0 && x < 0x10_0000_0000_0000 {
            lemma_bit_len_bound(x as nat, 52);
        }
    }
    if q == 0x20_0000_0000_0000 {
        proof {
            assert(0x10_0000_0000_0000 * pow2((s + 1) as nat) == q * pow2(s as nat))
                by (nonlinear_arith)
                requires
                    pow2((s + 1) as nat) == 2 * pow2(s as nat),
                    q == 0x20_0000_0000_0000,
            ;
        }
        (0x10_0000_0000_0000, s + 1)
    } else {
        (q, s)
    }
}

fn power_of_ten(k: u32) -> (r: u64)
    requires
        k <= 18,
    ensures
        r == ten_to(k as nat),
        1 <= r <= 1_000_000_000_000_000_000,
{
    reveal_with_fuel(ten_to, 20);
    let mut r: u64 = 1;
    let mut i: u32 = 0;
    while i < k
        invariant
            i <= k <= 18,
            r == ten_to(i as nat),
            1 <= r,
            r * ten_to((18 - i) as nat) == 1_000_000_000_000_000_000,
            ten_to((18 - i) as nat) >= 1,
        decreases k - i,
    {
        proof {
            let rest = ten_to((18 - i) as nat);
            let less = ten_to((18 - (i + 1)) as nat);
            lemma_ten_to_pos((18 - (i + 1)) as nat);
            assert(rest == 10 * less);
            assert((r * 10) * less == 1_000_000_000_000_000_000) by (nonlinear_arith)
                requires
                    r * rest == 1_000_000_000_000_000_000,
                    rest == 10 * less,
            ;
            assert(r * 10 <= 1_000_000_000_000_000_000) by (nonlinear_arith)
                requires
                    (r * 10) * less == 1_000_000_000_000_000_000,
                    less >= 1,
                    r >= 1,
            ;
        }
        r = r * 10;
        i += 1;
    }
    proof {
        let rest = ten_to((18 - i) as nat);
        assert(r <= 1_000_000_000_000_000_000) by (nonlinear_arith)
            requires
                r * rest == 1_000_000_000_000_000_000,
                rest >= 1,
                r >= 1,
        ;
    }
    r
}

proof fn lemma_ten_to_pos(k: nat)
    ensures
        ten_to(k) >= 1,
    decreases k,
{
    if k > 0 {
        lemma_ten_to_pos((k - 1) as nat);
    }
}

fn shortest_of(q: u64, s: u32) -> (r: u64)
    requires
        s <= 12,
        q * pow2(s as nat) <= 0x8000_0000_0000_0800,
    ensures
        r == shortest(q as nat, s as nat, 18),
{
    let unit: u64 = power_of_two(s);
    proof {
        lemma2_to64();
        lemma_pow2_grows(s as nat, 12);
    }
    let v: u64 = q * unit;
    let above: u64 = 2 * unit;
    let below: u64 = if q == 0x10_0000_0000_0000 {
        unit
    } else {
        2 * unit
    };
    let even = q % 2 == 0;
    let mut p: u32 = 18;
    while p > 0
        invariant
            p <= 18,
            unit == pow2(s as nat),
            unit <= 4096,
            v == q * unit,
            v <= 0x8000_0000_0000_0800,
            above == 2 * unit,
            below == if q == 0x10_0000_0000_0000 {
                unit as int
            } else {
                2 * unit
            },
            even == (q % 2 == 0),
            shortest(q as nat, s as nat, 18) == shortest(q as nat, s as nat, p as nat),
        decreases p,
    {
        let t: u64 = power_of_ten(p);
        let r: u64 = v % t;
        let down = 4 * r < below || (even && 4 * r == below);
        let up = 4 * (t - r) < above || (even && 4 * (t - r) == above);
        assert(r <= v) by (nonlinear_arith)
            requires
                r == v % t,
                t > 0,
                v >= 0,
        ;
        if up && (!down || 2 * r >= t) {
            return (v - r) + t;
        }
        if down {
            return v - r;
        }
        p -= 1;
    }
    v
}

/// Formats an integer as ArkTS source, after it was made a floating-point number.
pub fn fmt_integer(n: i64) -> (r: String)
    ensures
        r@ == integer_text(n as int),
{
    let m: u64 = magnitude_of(n);
    if m < WHOLE_LIMIT {
        return dec_signed(n);
    }
    let (q, s) = nearest_of(m);
    let v: u64 = if s == 0 {
        q
    } else {
        shortest_of(q, s)
    };
    if n < 0 {
        let mut out: String = String::new();
        out.push('-');
        out.append(&dec_text(v));
        assert(out@ =~= seq!['-'] + dec(v as nat));
        out
    } else {
        dec_text(v)
    }
}

/// A color channel given by an integer.
pub fn channel_of_integer(n: i64) -> (r: i64)
    ensures
        r == integer_channel(n as int),
{
    let m: u64 = magnitude_of(n);
    let (q, s) = nearest_of(m);
    saturate(n < 0, scale(q, s as i64))
}

} // verus!
