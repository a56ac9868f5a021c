//! A function whose calls become integer multiplications computes just that.
//!
//! Its body is run here over whole numbers, with the bitwise operators as JavaScript
//! defines them: operands are taken modulo two to the 32nd, and results are signed, but
//! for `>>>`. Sums and products are exact; those of 16-bit halves stay far below the
//! whole numbers that a double can hold.

use crate::hir::{BinaryOp, LocalId};
use crate::inline::imul::{
    half_let, half_of, imul_polyfill, is_cross_sum, is_product, is_recombined, is_shifted_cross,
    is_upper_part, is_whole_product, let_id, own_lets, reads_half,
};
use crate::inline::meaning::{part_values, value};
use crate::inline::meaning_lets::run_lets;
use crate::model::{ExprView, FunctionView, StmtView};
use crate::walk::children;
use vstd::arithmetic::div_mod::{
    lemma_add_mod_noop, lemma_fundamental_div_mod, lemma_mod_mod, lemma_mod_multiples_vanish,
    lemma_small_mod,
};
use vstd::arithmetic::power2::{lemma2_to64, pow2};
use vstd::prelude::*;

verus! {

/// The number modulo two to the 32nd, from 0 on.
pub open spec fn to_uint32(x: int) -> int {
    x % 0x1_0000_0000
}

/// The number modulo two to the 32nd, with a sign.
pub open spec fn to_int32(x: int) -> int {
    if to_uint32(x) >= 0x8000_0000 {
        to_uint32(x) - 0x1_0000_0000
    } else {
        to_uint32(x)
    }
}

/// What an operator gives for whole numbers.
pub open spec fn arith(op: BinaryOp, x: int, y: int) -> int {
    match op {
        BinaryOp::Add => x + y,
        BinaryOp::Mul => x * y,
        BinaryOp::BitAnd => to_int32(((to_uint32(x) as u32) & (to_uint32(y) as u32)) as int),
        BinaryOp::BitOr => to_int32(((to_uint32(x) as u32) | (to_uint32(y) as u32)) as int),
        BinaryOp::Shl => to_int32(x * pow2((y % 32) as nat)),
        BinaryOp::UShr => to_uint32(x) / (pow2((y % 32) as nat) as int),
        BinaryOp::Shr => to_int32(x) / (pow2((y % 32) as nat) as int),
        _ => 0,
    }
}

/// What a node over whole numbers gives.
pub open spec fn whole_node() -> spec_fn(ExprView, Seq<int>) -> int {
    |e: ExprView, v: Seq<int>|
        match e {
            ExprView::Integer(n) => n as int,
            ExprView::Binary { op, .. } => arith(op, v[0], v[1]),
            _ => 0,
        }
}

/// The value of an expression over whole numbers.
pub open spec fn whole(e: ExprView, env: spec_fn(LocalId) -> int) -> int {
    value(e, env, 0, whole_node())
}

proof fn lemma_integer(n: i64, env: spec_fn(LocalId) -> int)
    ensures
        whole(ExprView::Integer(n), env) == n,
{
}

proof fn lemma_binary(op: BinaryOp, l: ExprView, r: ExprView, env: spec_fn(LocalId) -> int)
    ensures
        whole(ExprView::Binary { op, left: Box::new(l), right: Box::new(r) }, env) == arith(
            op,
            whole(l, env),
            whole(r, env),
        ),
{
    let e = ExprView::Binary { op, left: Box::new(l), right: Box::new(r) };
    assert(children(e)[0] == l && children(e)[1] == r);
    let v = part_values(e, env, 0, whole_node());
    assert(v[0] == whole(l, env) && v[1] == whole(r, env));
}

/// A 16-bit half of a number.
pub open spec fn half(x: int, upper: bool) -> int {
    if upper {
        to_uint32(x) / 0x1_0000
    } else {
        x % 0x1_0000
    }
}

#[verifier::rlimit(40)]
proof fn lemma_mask(x: int)
    ensures
        arith(BinaryOp::BitAnd, x, 0xffff) == x % 0x1_0000,
{
    let u = to_uint32(x) as u32;
    let low = u & 0xffffu32;
    assert(low == u % 0x1_0000u32) by (bit_vector)
        requires
            low == u & 0xffffu32,
    ;
    assert(0 <= to_uint32(x) < 0x1_0000_0000);
    assert(u as int == to_uint32(x));
    assert(to_uint32(0xffff) as u32 == 0xffffu32);
    lemma_mod_mod(x, 0x1_0000, 0x1_0000);
    assert(low as int == x % 0x1_0000);
    lemma_small(low as int);
}

proof fn lemma_small(x: int)
    requires
        0 <= x < 0x8000_0000,
    ensures
        to_int32(x) == x,
{
}

proof fn lemma_shifted_mask(a: int)
    ensures
        arith(BinaryOp::UShr, a, 16) % 0x1_0000 == half(a, true),
        arith(BinaryOp::Shr, a, 16) % 0x1_0000 == half(a, true),
{
    lemma2_to64();
    assert(16int % 32 == 16);
    let u = to_uint32(a);
    let q = u / 0x1_0000;
    assert(0 <= u < 0x1_0000_0000);
    assert(0 <= q < 0x1_0000);
    lemma_small_mod(q as nat, 0x1_0000);
    if u >= 0x8000_0000 {
        assert((u - 0x1_0000_0000) / 0x1_0000 == q - 0x1_0000);
        lemma_mod_multiples_vanish(-1, q, 0x1_0000);
    }
}

/// What extracts a half gives that half.
#[verifier::rlimit(40)]
proof fn lemma_half(e: ExprView, p0: LocalId, p1: LocalId, env: spec_fn(LocalId) -> int)
    ensures
        half_of(e, p0, p1) matches Some((id, upper)) ==> whole(e, env) == half(env(id), upper) && (
        id == p0 || id == p1),
{
    if half_of(e, p0, p1) is Some {
        match e {
            ExprView::Binary { op, left, right } => {
                lemma_binary(op, *left, *right, env);
                lemma_integer(0xffff, env);
                lemma_mask(whole(*left, env));
                match *left {
                    ExprView::Binary { op: op2, left: l2, right: r2 } => {
                        lemma_binary(op2, *l2, *r2, env);
                        lemma_integer(16, env);
                        lemma_shifted_mask(whole(*l2, env));
                    },
                    _ => {},
                }
            },
            _ => {},
        }
    }
}

/// Whether the variables of the first `k` lets hold the halves, and the parameters are
/// what they were.
spec fn halves_bound(
    body: Seq<StmtView>,
    k: int,
    p0: LocalId,
    p1: LocalId,
    env: spec_fn(LocalId) -> int,
    now: spec_fn(LocalId) -> int,
) -> bool {
    &&& now(p0) == env(p0)
    &&& now(p1) == env(p1)
    &&& forall|i: int|
        0 <= i < k ==> (#[trigger] half_let(body[i], p0, p1) matches Some((id, upper)) ==> now(
            let_id(body[i])->0,
        ) == half(env(id), upper))
}

proof fn lemma_halves(
    body: Seq<StmtView>,
    k: nat,
    p0: LocalId,
    p1: LocalId,
    env: spec_fn(LocalId) -> int,
)
    requires
        body.len() == 5,
        k <= 4,
        forall|i: int| 0 <= i < 4 ==> #[trigger] half_let(body[i], p0, p1) is Some,
        own_lets(body, p0, p1),
    ensures
        halves_bound(
            body,
            k as int,
            p0,
            p1,
            env,
            run_lets(body.take(k as int), env, 0, whole_node()),
        ),
    decreases k,
{
    let v = body.take(k as int);
    let now = run_lets(v, env, 0, whole_node());
    if k > 0 {
        let j = k - 1;
        lemma_halves(body, j as nat, p0, p1, env);
        let front = body.take(j);
        let before = run_lets(front, env, 0, whole_node());
        assert(v.drop_last() =~= front);
        assert(v.last() == body[j]);
        assert(half_let(body[j], p0, p1) is Some);
        match body[j] {
            StmtView::Let { id, init: Some(e), .. } => {
                lemma_half(e, p0, p1, before);
                assert(let_id(body[j]) == Some(id));
                assert(id != p0 && id != p1);
                assert forall|i: int|
                    0 <= i < k && (#[trigger] half_let(body[i], p0, p1)) is Some implies (half_let(
                    body[i],
                    p0,
                    p1,
                ) matches Some((q, upper)) ==> now(let_id(body[i])->0) == half(env(q), upper)) by {
                    if i < j {
                        assert(let_id(body[i]) != let_id(body[j]));
                        match body[i] {
                            StmtView::Let { id: y, .. } => {
                                assert(let_id(body[i]) == Some(y));
                                assert(now(y) == before(y));
                            },
                            _ => {},
                        }
                    }
                }
            },
            _ => {},
        }
    }
}

proof fn lemma_reads_half(
    e: ExprView,
    body: Seq<StmtView>,
    p0: LocalId,
    p1: LocalId,
    h: (LocalId, bool),
    env: spec_fn(LocalId) -> int,
    now: spec_fn(LocalId) -> int,
)
    requires
        halves_bound(body, 4, p0, p1, env, now),
        reads_half(e, body, p0, p1, h),
    ensures
        whole(e, now) == half(env(h.0), h.1),
{
    match e {
        ExprView::LocalGet(x) => {
            let i = choose|i: int|
                0 <= i < 4 && #[trigger] half_let(body[i], p0, p1) == Some(h) && let_id(body[i])
                    == Some(x);
            assert(half_let(body[i], p0, p1) == Some(h));
        },
        _ => {},
    }
}

proof fn lemma_product(
    e: ExprView,
    body: Seq<StmtView>,
    p0: LocalId,
    p1: LocalId,
    upper0: bool,
    upper1: bool,
    env: spec_fn(LocalId) -> int,
    now: spec_fn(LocalId) -> int,
)
    requires
        halves_bound(body, 4, p0, p1, env, now),
        is_product(e, body, p0, p1, upper0, upper1),
    ensures
        whole(e, now) == half(env(p0), upper0) * half(env(p1), upper1),
{
    match e {
        ExprView::Binary { op, left, right } => {
            lemma_binary(op, *left, *right, now);
            let x = half(env(p0), upper0);
            let y = half(env(p1), upper1);
            assert(x * y == y * x) by (nonlinear_arith);
            if reads_half(*left, body, p0, p1, (p0, upper0)) && reads_half(
                *right,
                body,
                p0,
                p1,
                (p1, upper1),
            ) {
                lemma_reads_half(*left, body, p0, p1, (p0, upper0), env, now);
                lemma_reads_half(*right, body, p0, p1, (p1, upper1), env, now);
            } else {
                lemma_reads_half(*left, body, p0, p1, (p1, upper1), env, now);
                lemma_reads_half(*right, body, p0, p1, (p0, upper0), env, now);
            }
        },
        _ => {},
    }
}

/// The sum of the two products of an upper and a lower half.
spec fn cross(a: int, b: int) -> int {
    half(a, true) * half(b, false) + half(a, false) * half(b, true)
}

proof fn lemma_cross(
    e: ExprView,
    body: Seq<StmtView>,
    p0: LocalId,
    p1: LocalId,
    env: spec_fn(LocalId) -> int,
    now: spec_fn(LocalId) -> int,
)
    requires
        halves_bound(body, 4, p0, p1, env, now),
        is_cross_sum(e, body, p0, p1),
    ensures
        whole(e, now) == cross(env(p0), env(p1)),
{
    match e {
        ExprView::Binary { op, left, right } => {
            lemma_binary(op, *left, *right, now);
            if is_product(*left, body, p0, p1, true, false) && is_product(
                *right,
                body,
                p0,
                p1,
                false,
                true,
            ) {
                lemma_product(*left, body, p0, p1, true, false, env, now);
                lemma_product(*right, body, p0, p1, false, true, env, now);
            } else {
                lemma_product(*left, body, p0, p1, false, true, env, now);
                lemma_product(*right, body, p0, p1, true, false, env, now);
            }
        },
        _ => {},
    }
}

/// What is taken modulo two to the 32nd stays the same modulo that.
proof fn lemma_taken_twice(x: int)
    ensures
        to_uint32(to_uint32(x)) == to_uint32(x),
        to_uint32(to_int32(x)) == to_uint32(x),
{
    let u = to_uint32(x);
    assert(0 <= u < 0x1_0000_0000);
    lemma_small_mod(u as nat, 0x1_0000_0000);
    lemma_mod_multiples_vanish(-1, u, 0x1_0000_0000);
}

proof fn lemma_shifts(x: int)
    ensures
        arith(BinaryOp::Shl, x, 16) == to_int32(x * 0x1_0000),
        arith(BinaryOp::UShr, x, 0) == to_uint32(x),
{
    lemma2_to64();
    assert(16int % 32 == 16 && 0int % 32 == 0);
    assert(to_uint32(x) / 1 == to_uint32(x));
}

proof fn lemma_upper(
    e: ExprView,
    body: Seq<StmtView>,
    p0: LocalId,
    p1: LocalId,
    env: spec_fn(LocalId) -> int,
    now: spec_fn(LocalId) -> int,
)
    requires
        halves_bound(body, 4, p0, p1, env, now),
        is_upper_part(e, body, p0, p1),
    ensures
        to_uint32(whole(e, now)) == to_uint32(cross(env(p0), env(p1)) * 0x1_0000),
{
    lemma_integer(16, now);
    lemma_integer(0, now);
    let d = cross(env(p0), env(p1)) * 0x1_0000;
    lemma_taken_twice(d);
    match e {
        ExprView::Binary { op, left, right } => {
            lemma_binary(op, *left, *right, now);
            lemma_shifts(whole(*left, now));
            if is_shifted_cross(e, body, p0, p1) {
                lemma_cross(*left, body, p0, p1, env, now);
                assert(whole(e, now) == to_int32(d));
            } else {
                match *left {
                    ExprView::Binary { op: op2, left: l2, right: r2 } => {
                        lemma_binary(op2, *l2, *r2, now);
                        lemma_shifts(whole(*l2, now));
                        lemma_cross(*l2, body, p0, p1, env, now);
                        assert(whole(*left, now) == to_int32(d));
                        assert(whole(e, now) == to_uint32(to_int32(d)));
                    },
                    _ => {},
                }
            }
        },
        _ => {},
    }
}

/// A number is its halves, and a multiple of two to the 32nd.
proof fn lemma_split(a: int)
    ensures
        a == half(a, false) + 0x1_0000 * half(a, true) + 0x1_0000_0000 * (a / 0x1_0000_0000),
{
    let u = to_uint32(a);
    lemma_fundamental_div_mod(a, 0x1_0000_0000);
    lemma_fundamental_div_mod(u, 0x1_0000);
    lemma_mod_mod(a, 0x1_0000, 0x1_0000);
    assert(u % 0x1_0000 == half(a, false));
    assert(u / 0x1_0000 == half(a, true));
}

proof fn lemma_expand(al: int, ah: int, ka: int, bl: int, bh: int, kb: int)
    by (nonlinear_arith)
    ensures
        (al + 0x1_0000 * ah + 0x1_0000_0000 * ka) * (bl + 0x1_0000 * bh + 0x1_0000_0000 * kb) == al
            * bl + 0x1_0000 * (ah * bl + al * bh) + 0x1_0000_0000 * (ah * bh + ka * (bl + 0x1_0000
            * bh + 0x1_0000_0000 * kb) + (al + 0x1_0000 * ah) * kb),
{
}

proof fn lemma_recombined(a: int, b: int, upper: int)
    requires
        to_uint32(upper) == to_uint32(cross(a, b) * 0x1_0000),
    ensures
        to_uint32(half(a, false) * half(b, false) + upper) == to_uint32(a * b),
{
    let al = half(a, false);
    let ah = half(a, true);
    let bl = half(b, false);
    let bh = half(b, true);
    let ka = a / 0x1_0000_0000;
    let kb = b / 0x1_0000_0000;
    lemma_split(a);
    lemma_split(b);
    lemma_expand(al, ah, ka, bl, bh, kb);
    let k = ah * bh + ka * b + (al + 0x1_0000 * ah) * kb;
    let low = al * bl;
    let c = ah * bl + al * bh;
    let d = cross(a, b) * 0x1_0000;
    assert(cross(a, b) == c);
    assert(a * b == 0x1_0000_0000 * k + (low + d));
    lemma_mod_multiples_vanish(k, low + d, 0x1_0000_0000);
    lemma_add_mod_noop(low, upper, 0x1_0000_0000);
    lemma_add_mod_noop(low, d, 0x1_0000_0000);
}

/// A function that is taken for a multiplication gives, for any two whole numbers, their
/// product modulo two to the 32nd, with a sign: what the built-in one gives.
#[verifier::rlimit(40)]
pub proof fn law_polyfill_multiplies(f: FunctionView, b: ExprView, env: spec_fn(LocalId) -> int)
    requires
        imul_polyfill(f),
        f.body[4] == StmtView::Return(Some(b)),
    ensures
        whole(b, run_lets(f.body.drop_last(), env, 0, whole_node())) == to_int32(
            env(f.params[0].id) * env(f.params[1].id),
        ),
{
    let p0 = f.params[0].id;
    let p1 = f.params[1].id;
    let body = f.body;
    let now = run_lets(body.drop_last(), env, 0, whole_node());
    assert(body.drop_last() =~= body.take(4));
    lemma_halves(body, 4, p0, p1, env);
    assert(is_whole_product(b, body, p0, p1));
    match b {
        ExprView::Binary { op, left, right } => {
            lemma_binary(op, *left, *right, now);
            lemma_integer(0, now);
            let x = whole(*left, now);
            let u = to_uint32(x) as u32;
            assert(u | 0u32 == u) by (bit_vector);
            assert(to_uint32(0) == 0);
            assert(is_recombined(*left, body, p0, p1));
            match *left {
                ExprView::Binary { op: op2, left: l2, right: r2 } => {
                    lemma_binary(op2, *l2, *r2, now);
                    if is_product(*l2, body, p0, p1, false, false) && is_upper_part(
                        *r2,
                        body,
                        p0,
                        p1,
                    ) {
                        lemma_product(*l2, body, p0, p1, false, false, env, now);
                        lemma_upper(*r2, body, p0, p1, env, now);
                        lemma_recombined(env(p0), env(p1), whole(*r2, now));
                    } else {
                        lemma_product(*r2, body, p0, p1, false, false, env, now);
                        lemma_upper(*l2, body, p0, p1, env, now);
                        lemma_recombined(env(p0), env(p1), whole(*l2, now));
                    }
                },
                _ => {},
            }
        },
        _ => {},
    }
}

/// `l op r`.
pub open spec fn binary(op: BinaryOp, l: ExprView, r: ExprView) -> ExprView {
    ExprView::Binary { op, left: Box::new(l), right: Box::new(r) }
}

/// The halves of a parameter are found in their usual spellings: the lower one by a mask,
/// the upper one by a shift and a mask, whether the shift keeps the sign or not. A mask of
/// another width, or a half of something else, is none.
pub proof fn law_halves_are_found(p: LocalId, p0: LocalId, p1: LocalId, k: i64, e: ExprView)
    requires
        p == p0 || p == p1,
    ensures
        half_of(
            binary(BinaryOp::BitAnd, ExprView::LocalGet(p), ExprView::Integer(0xffff)),
            p0,
            p1,
        ) == Some((p, false)),
        half_of(
            binary(
                BinaryOp::BitAnd,
                binary(BinaryOp::UShr, ExprView::LocalGet(p), ExprView::Integer(16)),
                ExprView::Integer(0xffff),
            ),
            p0,
            p1,
        ) == Some((p, true)),
        half_of(
            binary(
                BinaryOp::BitAnd,
                binary(BinaryOp::Shr, ExprView::LocalGet(p), ExprView::Integer(16)),
                ExprView::Integer(0xffff),
            ),
            p0,
            p1,
        ) == Some((p, true)),
        k != 0xffff ==> half_of(binary(BinaryOp::BitAnd, e, ExprView::Integer(k)), p0, p1) is None,
{
}

/// A function of the usual spelling is found, whatever its ids are: two parameters, a
/// constant for each half, and the product put together from them.
pub proof fn law_usual_polyfill_is_found(
    f: FunctionView,
    ah: LocalId,
    al: LocalId,
    bh: LocalId,
    bl: LocalId,
    shift: BinaryOp,
)
    requires
        !f.is_async,
        !f.is_generator,
        f.params.len() == 2,
        f.params[0].id != f.params[1].id,
        shift == BinaryOp::UShr || shift == BinaryOp::Shr,
        seq![f.params[0].id, f.params[1].id, ah, al, bh, bl].no_duplicates(),
        f.body.len() == 5,
        is_half_const(f.body[0], ah, upper_of(f.params[0].id, shift)),
        is_half_const(f.body[1], al, lower_of(f.params[0].id)),
        is_half_const(f.body[2], bh, upper_of(f.params[1].id, shift)),
        is_half_const(f.body[3], bl, lower_of(f.params[1].id)),
        f.body[4] == StmtView::Return(
            Some(
                binary(
                    BinaryOp::BitOr,
                    binary(
                        BinaryOp::Add,
                        binary(BinaryOp::Mul, ExprView::LocalGet(al), ExprView::LocalGet(bl)),
                        binary(
                            BinaryOp::UShr,
                            binary(
                                BinaryOp::Shl,
                                binary(
                                    BinaryOp::Add,
                                    binary(
                                        BinaryOp::Mul,
                                        ExprView::LocalGet(ah),
                                        ExprView::LocalGet(bl),
                                    ),
                                    binary(
                                        BinaryOp::Mul,
                                        ExprView::LocalGet(al),
                                        ExprView::LocalGet(bh),
                                    ),
                                ),
                                ExprView::Integer(16),
                            ),
                            ExprView::Integer(0),
                        ),
                    ),
                    ExprView::Integer(0),
                ),
            ),
        ),
    ensures
        imul_polyfill(f),
{
    let p0 = f.params[0].id;
    let p1 = f.params[1].id;
    let ids = seq![p0, p1, ah, al, bh, bl];
    assert(ids[0] == p0 && ids[1] == p1 && ids[2] == ah && ids[3] == al && ids[4] == bh && ids[5]
        == bl);
    let body = f.body;
    assert(half_let(body[0], p0, p1) == Some((p0, true)) && let_id(body[0]) == Some(ah));
    assert(half_let(body[1], p0, p1) == Some((p0, false)) && let_id(body[1]) == Some(al));
    assert(half_let(body[2], p0, p1) == Some((p1, true)) && let_id(body[2]) == Some(bh));
    assert(half_let(body[3], p0, p1) == Some((p1, false)) && let_id(body[3]) == Some(bl));
    assert(reads_half(ExprView::LocalGet(ah), body, p0, p1, (p0, true)));
    assert(reads_half(ExprView::LocalGet(al), body, p0, p1, (p0, false)));
    assert(reads_half(ExprView::LocalGet(bh), body, p0, p1, (p1, true)));
    assert(reads_half(ExprView::LocalGet(bl), body, p0, p1, (p1, false)));
    assert forall|i: int| 0 <= i < 4 implies #[trigger] half_let(body[i], p0, p1) is Some by {
        assert(i == 0 || i == 1 || i == 2 || i == 3);
    }
    assert(own_lets(body, p0, p1));
    let low = binary(BinaryOp::Mul, ExprView::LocalGet(al), ExprView::LocalGet(bl));
    let left = binary(BinaryOp::Mul, ExprView::LocalGet(ah), ExprView::LocalGet(bl));
    let right = binary(BinaryOp::Mul, ExprView::LocalGet(al), ExprView::LocalGet(bh));
    assert(is_product(low, body, p0, p1, false, false));
    assert(is_product(left, body, p0, p1, true, false));
    assert(is_product(right, body, p0, p1, false, true));
    let sum = binary(BinaryOp::Add, left, right);
    assert(is_cross_sum(sum, body, p0, p1));
    let shifted = binary(BinaryOp::Shl, sum, ExprView::Integer(16));
    assert(is_shifted_cross(shifted, body, p0, p1));
    let upper = binary(BinaryOp::UShr, shifted, ExprView::Integer(0));
    assert(is_upper_part(upper, body, p0, p1));
    assert(is_recombined(binary(BinaryOp::Add, low, upper), body, p0, p1));
}

/// The upper half of a variable, in its usual spelling.
pub open spec fn upper_of(p: LocalId, shift: BinaryOp) -> ExprView {
    binary(
        BinaryOp::BitAnd,
        binary(shift, ExprView::LocalGet(p), ExprView::Integer(16)),
        ExprView::Integer(0xffff),
    )
}

/// The lower half of a variable, in its usual spelling.
pub open spec fn lower_of(p: LocalId) -> ExprView {
    binary(BinaryOp::BitAnd, ExprView::LocalGet(p), ExprView::Integer(0xffff))
}

/// Whether the statement binds the id to the expression, for good.
pub open spec fn is_half_const(s: StmtView, id: LocalId, e: ExprView) -> bool {
    s matches StmtView::Let { id: x, mutable, init: Some(v), .. } && x == id && !mutable && v == e
}

} // verus!
