//! What the source text of a number, its whole part and its color channel have to do
//! with the number.
//!
//! A number is its significand times two to its exponent. Where the exponent is not
//! positive, both sides of an equation are taken times two to its opposite, so that
//! everything is said in whole numbers.

use crate::model::NumView;
use crate::num::{
    biased, bit_len, channel, excess, exponent, fraction, integer_channel, integer_text, is_nan,
    is_negative, lemma_bit_len_bound, lemma_pow2_grows, nearest, number_text, round_shift,
    saturated, scaled, shortest, significand, ten_to, truncated, whole_value, WHOLE_LIMIT,
};
use crate::text::dec_int;
use vstd::arithmetic::div_mod::{lemma_fundamental_div_mod, lemma_fundamental_div_mod_converse};
use vstd::arithmetic::power2::{lemma2_to64, lemma2_to64_rest, lemma_pow2_pos, pow2};
use vstd::prelude::*;

verus! {

/// The magnitude of an integer.
pub open spec fn magnitude(v: int) -> nat {
    if v < 0 {
        (-v) as nat
    } else {
        v as nat
    }
}

/// Whether the number is the integer.
pub open spec fn is_exactly(bits: u64, v: int) -> bool {
    &&& is_negative(bits) ==> v <= 0
    &&& !is_negative(bits) ==> v >= 0
    &&& if exponent(bits) >= 0 {
        magnitude(v) == significand(bits) * pow2(exponent(bits) as nat)
    } else {
        magnitude(v) * pow2((-exponent(bits)) as nat) == significand(bits)
    }
}

/// A number is taken for a whole one exactly where it is the integer, and its magnitude
/// is below the limit.
#[verifier::rlimit(40)]
pub proof fn law_whole_value_is_exact(bits: u64, v: int)
    ensures
        whole_value(bits) == Some(v) <==> is_exactly(bits, v) && magnitude(v) < WHOLE_LIMIT,
{
    let m = significand(bits);
    let e = exponent(bits);
    lemma2_to64();
    lemma2_to64_rest();
    if m == 0 {
        if e >= 0 {
            assert(0 * pow2(e as nat) == 0) by (nonlinear_arith);
        } else {
            let p = pow2((-e) as nat);
            lemma_pow2_pos((-e) as nat);
            assert(magnitude(v) * p == 0 <==> magnitude(v) == 0) by (nonlinear_arith)
                requires
                    p > 0,
                    magnitude(v) >= 0,
            ;
        }
    } else if e > 0 {
        assert(m >= 0x10_0000_0000_0000);
        lemma_pow2_grows(1, e as nat);
        let p = pow2(e as nat);
        assert(m * p >= 0x20_0000_0000_0000) by (nonlinear_arith)
            requires
                m >= 0x10_0000_0000_0000,
                p >= 2,
        ;
    } else if e < -52 {
        lemma_pow2_grows(53, (-e) as nat);
        let p = pow2((-e) as nat);
        assert(m < 0x20_0000_0000_0000);
        assert(magnitude(v) * p != m) by (nonlinear_arith)
            requires
                0 < m < 0x20_0000_0000_0000,
                p >= 0x20_0000_0000_0000,
                magnitude(v) >= 0,
        ;
    } else {
        let p = pow2((-e) as nat);
        lemma_pow2_pos((-e) as nat);
        lemma_fundamental_div_mod(m as int, p as int);
        let q = m / p;
        assert(p * q == q * p) by (nonlinear_arith);
        if e == 0 {
            assert(p == 1);
            assert(m * pow2(0) == m) by (nonlinear_arith)
                requires
                    pow2(0) == 1,
            ;
            assert(q * p == q) by (nonlinear_arith)
                requires
                    p == 1,
            ;
        }
        if is_exactly(bits, v) {
            if e < 0 {
                let k = magnitude(v);
                assert(k * p == p * k) by (nonlinear_arith);
                lemma_fundamental_div_mod_converse(m as int, p as int, k as int, 0);
                assert(q == k && m % p == 0);
            } else {
                assert(magnitude(v) == m);
                assert(m % p == 0);
                assert(q == m);
            }
        }
    }
}

/// A whole number is written as an integer, without a decimal point, and its digits are
/// those of the number.
pub proof fn law_whole_numbers_are_written_as_integers(n: NumView, v: int)
    requires
        is_exactly(n.bits, v),
        magnitude(v) < 1_000_000_000_000_000,
    ensures
        number_text(n) == dec_int(v),
{
    law_whole_value_is_exact(n.bits, v);
}

/// Every other number is written as it stands in the source.
pub proof fn law_other_numbers_keep_their_text(n: NumView)
    ensures
        (forall|v: int| #[trigger]
            is_exactly(n.bits, v) ==> magnitude(v) >= 1_000_000_000_000_000)
            ==> number_text(n) == n.text,
{
    if whole_value(n.bits) is Some {
        law_whole_value_is_exact(n.bits, whole_value(n.bits)->0);
        assert(is_exactly(n.bits, whole_value(n.bits)->0));
    }
}

/// An integer is cut off to itself where 64 bits can hold it, and to the nearest that
/// they can hold otherwise; what is not a number is cut off to 0.
pub proof fn law_truncated_keeps_integers(bits: u64, v: int)
    requires
        is_exactly(bits, v),
        !is_nan(bits),
    ensures
        i64::MIN <= v <= i64::MAX ==> truncated(bits) == v,
        v > i64::MAX ==> truncated(bits) == i64::MAX,
        v < i64::MIN ==> truncated(bits) == i64::MIN,
{
    let m = significand(bits);
    let e = exponent(bits);
    if e < 0 {
        let p = pow2((-e) as nat);
        lemma_pow2_pos((-e) as nat);
        let k = magnitude(v);
        assert(k * p == p * k) by (nonlinear_arith);
        lemma_fundamental_div_mod_converse(m as int, p as int, k as int, 0);
    }
}

/// A number between two integers is cut off towards 0.
pub proof fn law_truncated_goes_towards_zero(bits: u64)
    requires
        !is_nan(bits),
        exponent(bits) < 0,
        i64::MIN < truncated(bits) < i64::MAX,
    ensures
        ({
            let t = truncated(bits);
            let p = pow2((-exponent(bits)) as nat);
            &&& is_negative(bits) ==> t <= 0
            &&& !is_negative(bits) ==> t >= 0
            &&& magnitude(t) * p <= significand(bits) < (magnitude(t) + 1) * p
        }),
{
    let m = significand(bits);
    let p = pow2((-exponent(bits)) as nat);
    lemma_pow2_pos((-exponent(bits)) as nat);
    lemma_fundamental_div_mod(m as int, p as int);
    let q = m / p;
    assert(magnitude(truncated(bits)) == q);
    assert(q * p <= m < (q + 1) * p) by (nonlinear_arith)
        requires
            m == p * q + m % p,
            0 <= m % p < p,
    ;
}

// ---------------------------------------------------------------------------
// Integers
// ---------------------------------------------------------------------------

proof fn lemma_no_excess(x: nat)
    requires
        x < 0x20_0000_0000_0000,
    ensures
        excess(x) == 0,
        round_shift(x, 0) == x,
        nearest(x) == (x, 0nat),
{
    lemma2_to64();
    lemma2_to64_rest();
    lemma_bit_len_bound(x, 53);
    assert(x / 1 == x && x % 1 == 0);
}

/// An integer that a double can hold is written by its digits.
pub proof fn law_integers_are_written_by_their_digits(n: int)
    requires
        magnitude(n) < 0x20_0000_0000_0000,
    ensures
        integer_text(n) == dec_int(n),
{
    lemma_no_excess(magnitude(n));
}

/// An integer as a color channel is 255 times itself.
pub proof fn law_integer_channel_is_scaled(n: int)
    requires
        magnitude(n) < 0x2000_0000_0000,
    ensures
        integer_channel(n) == 255 * n,
{
    let x = magnitude(n);
    lemma_no_excess(x);
    lemma_no_excess(255 * x);
    lemma2_to64();
    assert((255 * x) * pow2(0) == 255 * x) by (nonlinear_arith)
        requires
            pow2(0) == 1,
    ;
}

/// A color channel is 255 times the number, rounded to the nearest integer, halves away
/// from 0, with the sign of the number. (Where 255 times the significand is longer than
/// a significand, it is itself rounded first.)
#[verifier::rlimit(40)]
pub proof fn law_channel_is_scaled(bits: u64)
    requires
        !is_nan(bits),
        exponent(bits) < 0,
        255 * significand(bits) < 0x20_0000_0000_0000,
    ensures
        ({
            let c = channel(bits);
            let p = pow2((-exponent(bits)) as nat);
            let x = 255 * significand(bits);
            &&& is_negative(bits) ==> c <= 0
            &&& !is_negative(bits) ==> c >= 0
            &&& 2 * magnitude(c) * p <= 2 * x + p
            &&& 2 * x + p < 2 * (magnitude(c) + 1) * p
        }),
{
    let m = significand(bits);
    let e = exponent(bits);
    let x = 255 * m;
    lemma_no_excess(x);
    let h = pow2((-e - 1) as nat);
    let p = pow2((-e) as nat);
    lemma_pow2_pos((-e) as nat);
    vstd::arithmetic::power2::lemma_pow2_unfold((-e) as nat);
    assert(p == 2 * h);
    lemma_fundamental_div_mod((x + h) as int, p as int);
    let q = (x + h) / p;
    assert(q * p <= x + h < (q + 1) * p) by (nonlinear_arith)
        requires
            x + h == p * q + (x + h) % p,
            0 <= (x + h) % p < p,
    ;
    assert(scaled(m, e) == q);
    assert(q <= x + h) by (nonlinear_arith)
        requires
            q * p <= x + h,
            p >= 1,
            q >= 0,
    ;
    assert(q <= x + 1) by (nonlinear_arith)
        requires
            q * p <= x + h,
            p == 2 * h,
            h >= 1,
            q >= 0,
            x >= 0,
    ;
    assert(saturated(is_negative(bits), q) == if is_negative(bits) {
        -(q as int)
    } else {
        q as int
    });
    assert(magnitude(channel(bits)) == q);
    assert(2 * q * p <= 2 * x + p < 2 * (q + 1) * p) by (nonlinear_arith)
        requires
            q * p <= x + h < (q + 1) * p,
            p == 2 * h,
    ;
}

/// What is not a number has the channel 0, and is cut off to 0.
pub proof fn law_not_a_number_is_zero(bits: u64)
    requires
        biased(bits) == 0x7ff,
        fraction(bits) != 0,
    ensures
        channel(bits) == 0,
        truncated(bits) == 0,
{
}

// ---------------------------------------------------------------------------
// Large integers
// ---------------------------------------------------------------------------

/// Rounding goes to the nearest multiple, and from the middle to the even one.
pub proof fn law_rounding_goes_to_the_nearest(x: nat, s: nat)
    ensures
        ({
            let q = round_shift(x, s);
            let p = pow2(s);
            &&& 2 * (q * p - x) <= p
            &&& 2 * (x - q * p) <= p
            &&& 2 * (q * p - x) == p || 2 * (x - q * p) == p ==> q % 2 == 0
        }),
{
    let p = pow2(s);
    lemma_pow2_pos(s);
    lemma_fundamental_div_mod(x as int, p as int);
    let d = x / p;
    let r = x % p;
    assert(d * p == p * d) by (nonlinear_arith);
    assert((d + 1) * p == d * p + p) by (nonlinear_arith);
}

/// The double that is nearest to an integer: its significand times a power of two is
/// within half a step of the integer, and the significand fits.
pub proof fn law_nearest_is_within_half_a_step(x: nat)
    ensures
        ({
            let (q, s) = nearest(x);
            let p = pow2(excess(x));
            &&& q < 0x20_0000_0000_0000
            &&& 2 * (q * pow2(s) - x) <= p
            &&& 2 * (x - q * pow2(s)) <= p
        }),
{
    let s = excess(x);
    let q = round_shift(x, s);
    let p = pow2(s);
    law_rounding_goes_to_the_nearest(x, s);
    lemma2_to64();
    lemma2_to64_rest();
    lemma_pow2_pos(s);
    assert(x < pow2(53 + s)) by {
        lemma_below_its_length(x);
        lemma_pow2_grows(bit_len(x), 53 + s);
    }
    vstd::arithmetic::power2::lemma_pow2_adds(53, s);
    assert(q <= 0x20_0000_0000_0000) by (nonlinear_arith)
        requires
            2 * (q * p - x) <= p,
            x < 0x20_0000_0000_0000 * p,
            p >= 1,
    ;
    if q == 0x20_0000_0000_0000 {
        vstd::arithmetic::power2::lemma_pow2_unfold(s + 1);
        assert(0x10_0000_0000_0000 * pow2(s + 1) == q * p) by (nonlinear_arith)
            requires
                pow2(s + 1) == 2 * p,
                q == 0x20_0000_0000_0000,
        ;
    }
}

proof fn lemma_below_its_length(x: nat)
    ensures
        x < pow2(bit_len(x)),
    decreases x,
{
    lemma2_to64();
    if x > 0 {
        lemma_below_its_length(x / 2);
        vstd::arithmetic::power2::lemma_pow2_unfold(bit_len(x));
    }
}

/// The digits of a large integer read back as the same double: what is written is no
/// further from it than half the distance to the next double, above or below.
pub proof fn law_written_integers_read_back(q: nat, s: nat, p: nat)
    ensures
        ({
            let v = q * pow2(s);
            let w = shortest(q, s, p);
            &&& 4 * (w - v) <= 2 * pow2(s)
            &&& 4 * (v - w) <= if q == 0x10_0000_0000_0000 {
                pow2(s)
            } else {
                2 * pow2(s)
            }
        }),
    decreases p,
{
    lemma_pow2_pos(s);
    if p > 0 {
        law_written_integers_read_back(q, s, (p - 1) as nat);
        lemma_ten_to_positive(p);
        let v = q * pow2(s);
        let t = ten_to(p);
        lemma_fundamental_div_mod(v as int, t as int);
        assert(v % t <= v) by (nonlinear_arith)
            requires
                t >= 1,
                v >= 0,
                v == t * (v / t) + v % t,
                v / t >= 0,
        ;
    }
}

proof fn lemma_ten_to_positive(k: nat)
    ensures
        ten_to(k) >= 1,
    decreases k,
{
    if k > 0 {
        lemma_ten_to_positive((k - 1) as nat);
    }
}

// ---------------------------------------------------------------------------
// Bits
// ---------------------------------------------------------------------------

/// The bits of a number are its sign, its exponent field and its fraction, one behind the
/// other.
pub proof fn law_bits_are_the_fields(bits: u64)
    ensures
        biased(bits) < 0x800,
        fraction(bits) < 0x10_0000_0000_0000,
        bits == (if is_negative(bits) {
            0x8000_0000_0000_0000int
        } else {
            0
        }) + 0x10_0000_0000_0000 * biased(bits) + fraction(bits),
{
    let sign: u64 = if bits >= 0x8000_0000_0000_0000 {
        0x8000_0000_0000_0000
    } else {
        0
    };
    assert(bits == sign + 0x10_0000_0000_0000 * ((bits / 0x10_0000_0000_0000) % 0x800) + bits
        % 0x10_0000_0000_0000) by (bit_vector)
        requires
            sign == if bits >= 0x8000_0000_0000_0000 {
                0x8000_0000_0000_0000u64
            } else {
                0u64
            },
    ;
}

/// Numbers follow their bits: where the bits go up by one, the significand goes up by one,
/// and where it is full, it is halved and the exponent goes up instead. The bits
/// `0x3ff0000000000000` are those of 1.
pub proof fn law_numbers_follow_their_bits(bits: u64, next: u64)
    requires
        !is_negative(bits),
        biased(bits) < 0x7ff,
        next == bits + 1,
    ensures
        fraction(bits) < 0x10_0000_0000_0000 - 1 || biased(bits) == 0 ==> significand(next)
            == significand(bits) + 1 && exponent(next) == exponent(bits),
        fraction(bits) == 0x10_0000_0000_0000 - 1 && biased(bits) > 0 ==> 2 * significand(next)
            == significand(bits) + 1 && exponent(next) == exponent(bits) + 1,
        is_exactly(0x3ff0_0000_0000_0000, 1),
{
    law_bits_are_the_fields(bits);
    law_bits_are_the_fields(next);
    lemma2_to64();
    lemma2_to64_rest();
    let one: u64 = 0x3ff0_0000_0000_0000;
    assert(one / 0x10_0000_0000_0000 == 0x3ff);
    assert(biased(one) == 0x3ff && fraction(one) == 0);
    assert(1 * pow2(52) == 0x10_0000_0000_0000);
    assert(bits < 0x8000_0000_0000_0000);
}

} // verus!
