//! Functions that spell out a 32-bit integer multiplication. Their calls become
//! the built-in multiplication before anything is inlined.

use crate::hir::{BinaryOp, Expr, FuncId, Function, LocalId, Stmt};
use crate::model::{stmts_view, ExprView, FunctionView, StmtView};
use crate::rewrite::{rewrite_expr, rewrite_stmts, rewritten, rewritten_stmts, Pass, Rewrite};
use crate::shape::{is_integer, local_of};
use std::collections::HashSet;
use vstd::prelude::*;

verus! {

broadcast use vstd::std_specs::hash::group_hash_axioms;

/// What is shifted right by 16, if `e` is such a shift.
pub open spec fn shifted_by_16(e: ExprView) -> Option<ExprView> {
    match e {
        ExprView::Binary { op, left, right } => if (op == BinaryOp::UShr || op == BinaryOp::Shr)
            && *right == ExprView::Integer(16) {
            Some(*left)
        } else {
            None
        },
        _ => None,
    }
}

/// The parameter that `e` reads, if it is one of the two.
pub open spec fn param_read(e: ExprView, p0: LocalId, p1: LocalId) -> Option<LocalId> {
    match e {
        ExprView::LocalGet(id) => if id == p0 || id == p1 {
            Some(id)
        } else {
            None
        },
        _ => None,
    }
}

/// The parameter of which `e` is a 16-bit half, and whether it is the upper one:
/// `(p >>> 16) & 0xffff` or `(p >> 16) & 0xffff`, against `p & 0xffff`.
pub open spec fn half_of(e: ExprView, p0: LocalId, p1: LocalId) -> Option<(LocalId, bool)> {
    match e {
        ExprView::Binary { op, left, right } => if op == BinaryOp::BitAnd && *right
            == ExprView::Integer(0xffff) {
            match shifted_by_16(*left) {
                Some(x) => match param_read(x, p0, p1) {
                    Some(id) => Some((id, true)),
                    None => None,
                },
                None => match param_read(*left, p0, p1) {
                    Some(id) => Some((id, false)),
                    None => None,
                },
            }
        } else {
            None
        },
        _ => None,
    }
}

/// The half that an immutable let extracts.
pub open spec fn half_let(s: StmtView, p0: LocalId, p1: LocalId) -> Option<(LocalId, bool)> {
    match s {
        StmtView::Let { mutable, init, .. } => if mutable {
            None
        } else {
            match init {
                Some(e) => half_of(e, p0, p1),
                None => None,
            }
        },
        _ => None,
    }
}

/// Whether one of the first four statements extracts the half.
pub open spec fn extracts(
    body: Seq<StmtView>,
    p0: LocalId,
    p1: LocalId,
    id: LocalId,
    upper: bool,
) -> bool {
    exists|i: int| 0 <= i < 4 && #[trigger] half_let(body[i], p0, p1) == Some((id, upper))
}

/// The variable that a let binds.
pub open spec fn let_id(s: StmtView) -> Option<LocalId> {
    match s {
        StmtView::Let { id, .. } => Some(id),
        _ => None,
    }
}

/// Whether `e` reads the variable to which one of the first four statements binds
/// the half.
pub open spec fn reads_half(
    e: ExprView,
    body: Seq<StmtView>,
    p0: LocalId,
    p1: LocalId,
    half: (LocalId, bool),
) -> bool {
    match e {
        ExprView::LocalGet(x) => exists|i: int|
            0 <= i < 4 && #[trigger] half_let(body[i], p0, p1) == Some(half) && let_id(body[i])
                == Some(x),
        _ => false,
    }
}

/// Whether `e` multiplies a half of the first parameter and one of the second, in
/// either order.
pub open spec fn is_product(
    e: ExprView,
    body: Seq<StmtView>,
    p0: LocalId,
    p1: LocalId,
    upper0: bool,
    upper1: bool,
) -> bool {
    match e {
        ExprView::Binary { op, left, right } => op == BinaryOp::Mul && {
            ||| reads_half(*left, body, p0, p1, (p0, upper0)) && reads_half(
                *right,
                body,
                p0,
                p1,
                (p1, upper1),
            )
            ||| reads_half(*left, body, p0, p1, (p1, upper1)) && reads_half(
                *right,
                body,
                p0,
                p1,
                (p0, upper0),
            )
        },
        _ => false,
    }
}

/// Whether `e` adds the two products of an upper and a lower half.
pub open spec fn is_cross_sum(
    e: ExprView,
    body: Seq<StmtView>,
    p0: LocalId,
    p1: LocalId,
) -> bool {
    match e {
        ExprView::Binary { op, left, right } => op == BinaryOp::Add && {
            ||| is_product(*left, body, p0, p1, true, false) && is_product(
                *right,
                body,
                p0,
                p1,
                false,
                true,
            )
            ||| is_product(*left, body, p0, p1, false, true) && is_product(
                *right,
                body,
                p0,
                p1,
                true,
                false,
            )
        },
        _ => false,
    }
}

/// Whether `e` is that sum `<< 16`.
pub open spec fn is_shifted_cross(
    e: ExprView,
    body: Seq<StmtView>,
    p0: LocalId,
    p1: LocalId,
) -> bool {
    match e {
        ExprView::Binary { op, left, right } => op == BinaryOp::Shl && is_cross_sum(
            *left,
            body,
            p0,
            p1,
        ) && *right == ExprView::Integer(16),
        _ => false,
    }
}

/// Whether `e` is what the upper halves add to the product: the shifted sum, with or
/// without `>>> 0`, which changes nothing under the final `| 0`.
pub open spec fn is_upper_part(
    e: ExprView,
    body: Seq<StmtView>,
    p0: LocalId,
    p1: LocalId,
) -> bool {
    ||| is_shifted_cross(e, body, p0, p1)
    ||| match e {
        ExprView::Binary { op, left, right } => op == BinaryOp::UShr && is_shifted_cross(
            *left,
            body,
            p0,
            p1,
        ) && *right == ExprView::Integer(0),
        _ => false,
    }
}

/// Whether `e` recombines the product of the parameters from their halves:
/// `al * bl + (((ah * bl + al * bh) << 16) >>> 0)`, each operator's operands in
/// either order.
pub open spec fn is_recombined(
    e: ExprView,
    body: Seq<StmtView>,
    p0: LocalId,
    p1: LocalId,
) -> bool {
    match e {
        ExprView::Binary { op, left, right } => op == BinaryOp::Add && {
            ||| is_product(*left, body, p0, p1, false, false) && is_upper_part(
                *right,
                body,
                p0,
                p1,
            )
            ||| is_upper_part(*left, body, p0, p1) && is_product(
                *right,
                body,
                p0,
                p1,
                false,
                false,
            )
        },
        _ => false,
    }
}

/// Whether `e` is the recombined product `| 0`.
pub open spec fn is_whole_product(
    e: ExprView,
    body: Seq<StmtView>,
    p0: LocalId,
    p1: LocalId,
) -> bool {
    match e {
        ExprView::Binary { op, left, right } => op == BinaryOp::BitOr && is_recombined(
            *left,
            body,
            p0,
            p1,
        ) && *right == ExprView::Integer(0),
        _ => false,
    }
}

/// Whether the statement returns the recombined product `| 0`.
pub open spec fn returns_product(
    s: StmtView,
    body: Seq<StmtView>,
    p0: LocalId,
    p1: LocalId,
) -> bool {
    match s {
        StmtView::Return(Some(e)) => is_whole_product(e, body, p0, p1),
        _ => false,
    }
}

/// Whether the first four statements bind four variables that are no parameters.
pub open spec fn own_lets(body: Seq<StmtView>, p0: LocalId, p1: LocalId) -> bool {
    &&& forall|i: int|
        0 <= i < 4 ==> #[trigger] let_id(body[i]) != Some(p0) && let_id(body[i]) != Some(p1)
    &&& forall|i: int, j: int|
        0 <= i < j < 4 ==> #[trigger] let_id(body[i]) != #[trigger] let_id(body[j])
}

/// Whether the function is a multiplication polyfill: two parameters, four lets
/// that extract the halves of both, and a return of the recombined product `| 0`.
pub open spec fn imul_polyfill(f: FunctionView) -> bool {
    let p0 = f.params[0].id;
    let p1 = f.params[1].id;
    &&& !f.is_async
    &&& !f.is_generator
    &&& f.params.len() == 2
    &&& f.body.len() == 5
    &&& p0 != p1
    &&& forall|i: int| 0 <= i < 4 ==> #[trigger] half_let(f.body[i], p0, p1) is Some
    &&& extracts(f.body, p0, p1, p0, true)
    &&& extracts(f.body, p0, p1, p0, false)
    &&& extracts(f.body, p0, p1, p1, true)
    &&& extracts(f.body, p0, p1, p1, false)
    &&& own_lets(f.body, p0, p1)
    &&& returns_product(f.body[4], f.body, p0, p1)
}

fn find_shifted_by_16(e: &Expr) -> (r: Option<&Expr>)
    ensures
        (match r {
            Some(x) => Some(x@),
            None => None,
        }) == shifted_by_16(e@),
{
    match e {
        Expr::Binary { op, left, right } => {
            if (*op == BinaryOp::UShr || *op == BinaryOp::Shr) && is_integer(right, 16) {
                Some(left)
            } else {
                None
            }
        },
        _ => None,
    }
}

fn find_param_read(e: &Expr, p0: LocalId, p1: LocalId) -> (r: Option<LocalId>)
    ensures
        r == param_read(e@, p0, p1),
{
    match local_of(e) {
        Some(id) => if id == p0 || id == p1 {
            Some(id)
        } else {
            None
        },
        None => None,
    }
}

/// Whether an expression extracts the upper or the lower 16-bit half of one of
/// the parameters: the parameter, and whether it is the upper half.
pub fn is_half_extract(e: &Expr, p0: LocalId, p1: LocalId) -> (r: Option<(LocalId, bool)>)
    ensures
        r == half_of(e@, p0, p1),
{
    match e {
        Expr::Binary { op, left, right } => {
            if *op != BinaryOp::BitAnd || !is_integer(right, 0xffff) {
                return None;
            }
            match find_shifted_by_16(left) {
                Some(x) => match find_param_read(x, p0, p1) {
                    Some(id) => Some((id, true)),
                    None => None,
                },
                None => match find_param_read(left, p0, p1) {
                    Some(id) => Some((id, false)),
                    None => None,
                },
            }
        },
        _ => None,
    }
}

fn is_half_let(s: &Stmt, p0: LocalId, p1: LocalId) -> (r: Option<(LocalId, bool)>)
    ensures
        r == half_let(s@, p0, p1),
{
    match s {
        Stmt::Let { mutable, init, .. } => if *mutable {
            None
        } else {
            match init {
                Some(e) => is_half_extract(e, p0, p1),
                None => None,
            }
        },
        _ => None,
    }
}

fn find_let_id(s: &Stmt) -> (r: Option<LocalId>)
    ensures
        r == let_id(s@),
{
    match s {
        Stmt::Let { id, .. } => Some(*id),
        _ => None,
    }
}

fn does_read_half(
    e: &Expr,
    body: &Vec<Stmt>,
    p0: LocalId,
    p1: LocalId,
    half: (LocalId, bool),
) -> (r: bool)
    requires
        body@.len() == 5,
    ensures
        r == reads_half(e@, stmts_view(body@), p0, p1, half),
{
    let x: LocalId = match local_of(e) {
        Some(x) => x,
        None => {
            return false;
        },
    };
    let ghost stmts = stmts_view(body@);
    let mut i: usize = 0;
    while i < 4
        invariant
            i <= 4,
            body@.len() == 5,
            stmts == stmts_view(body@),
            e@ == ExprView::LocalGet(x),
            forall|j: int|
                0 <= j < i ==> !(#[trigger] half_let(stmts[j], p0, p1) == Some(half) && let_id(
                    stmts[j],
                ) == Some(x)),
        decreases 4 - i,
    {
        assert(stmts[i as int] == body@[i as int].view());
        match (is_half_let(&body[i], p0, p1), find_let_id(&body[i])) {
            (Some(h), Some(y)) => {
                if h.0 == half.0 && h.1 == half.1 && y == x {
                    assert(half_let(stmts[i as int], p0, p1) == Some(half));
                    return true;
                }
            },
            _ => {},
        }
        i += 1;
    }
    false
}

fn does_multiply(
    e: &Expr,
    body: &Vec<Stmt>,
    p0: LocalId,
    p1: LocalId,
    upper0: bool,
    upper1: bool,
) -> (r: bool)
    requires
        body@.len() == 5,
    ensures
        r == is_product(e@, stmts_view(body@), p0, p1, upper0, upper1),
{
    match e {
        Expr::Binary { op, left, right } => *op == BinaryOp::Mul && ((does_read_half(
            left,
            body,
            p0,
            p1,
            (p0, upper0),
        ) && does_read_half(right, body, p0, p1, (p1, upper1))) || (does_read_half(
            left,
            body,
            p0,
            p1,
            (p1, upper1),
        ) && does_read_half(right, body, p0, p1, (p0, upper0)))),
        _ => false,
    }
}

fn does_add_cross(e: &Expr, body: &Vec<Stmt>, p0: LocalId, p1: LocalId) -> (r: bool)
    requires
        body@.len() == 5,
    ensures
        r == is_cross_sum(e@, stmts_view(body@), p0, p1),
{
    match e {
        Expr::Binary { op, left, right } => *op == BinaryOp::Add && ((does_multiply(
            left,
            body,
            p0,
            p1,
            true,
            false,
        ) && does_multiply(right, body, p0, p1, false, true)) || (does_multiply(
            left,
            body,
            p0,
            p1,
            false,
            true,
        ) && does_multiply(right, body, p0, p1, true, false))),
        _ => false,
    }
}

fn does_shift_cross(e: &Expr, body: &Vec<Stmt>, p0: LocalId, p1: LocalId) -> (r: bool)
    requires
        body@.len() == 5,
    ensures
        r == is_shifted_cross(e@, stmts_view(body@), p0, p1),
{
    match e {
        Expr::Binary { op, left, right } => *op == BinaryOp::Shl && is_integer(right, 16)
            && does_add_cross(left, body, p0, p1),
        _ => false,
    }
}

fn does_make_upper_part(e: &Expr, body: &Vec<Stmt>, p0: LocalId, p1: LocalId) -> (r: bool)
    requires
        body@.len() == 5,
    ensures
        r == is_upper_part(e@, stmts_view(body@), p0, p1),
{
    match e {
        Expr::Binary { op, left, right } => if *op == BinaryOp::UShr {
            is_integer(right, 0) && does_shift_cross(left, body, p0, p1)
        } else {
            does_shift_cross(e, body, p0, p1)
        },
        _ => false,
    }
}

fn does_recombine(e: &Expr, body: &Vec<Stmt>, p0: LocalId, p1: LocalId) -> (r: bool)
    requires
        body@.len() == 5,
    ensures
        r == is_recombined(e@, stmts_view(body@), p0, p1),
{
    match e {
        Expr::Binary { op, left, right } => *op == BinaryOp::Add && ((does_multiply(
            left,
            body,
            p0,
            p1,
            false,
            false,
        ) && does_make_upper_part(right, body, p0, p1)) || (does_make_upper_part(
            left,
            body,
            p0,
            p1,
        ) && does_multiply(right, body, p0, p1, false, false))),
        _ => false,
    }
}

fn does_make_product(e: &Expr, body: &Vec<Stmt>, p0: LocalId, p1: LocalId) -> (r: bool)
    requires
        body@.len() == 5,
    ensures
        r == is_whole_product(e@, stmts_view(body@), p0, p1),
{
    match e {
        Expr::Binary { op, left, right } => *op == BinaryOp::BitOr && is_integer(right, 0)
            && does_recombine(left, body, p0, p1),
        _ => false,
    }
}

fn does_return_product(s: &Stmt, body: &Vec<Stmt>, p0: LocalId, p1: LocalId) -> (r: bool)
    requires
        body@.len() == 5,
    ensures
        r == returns_product(s@, stmts_view(body@), p0, p1),
{
    match s {
        Stmt::Return(Some(e)) => does_make_product(e, body, p0, p1),
        _ => false,
    }
}

/// Whether the first four statements bind four variables that are no parameters.
fn has_own_lets(body: &Vec<Stmt>, p0: LocalId, p1: LocalId) -> (r: bool)
    requires
        body@.len() == 5,
        forall|i: int| 0 <= i < 4 ==> (#[trigger] stmts_view(body@)[i]) is Let,
    ensures
        r == own_lets(stmts_view(body@), p0, p1),
{
    let ghost stmts = stmts_view(body@);
    let mut i: usize = 0;
    while i < 4
        invariant
            i <= 4,
            body@.len() == 5,
            stmts == stmts_view(body@),
            forall|j: int| 0 <= j < 4 ==> (#[trigger] stmts[j]) is Let,
            forall|j: int|
                0 <= j < i ==> #[trigger] let_id(stmts[j]) != Some(p0) && let_id(stmts[j]) != Some(
                    p1,
                ),
            forall|j: int, k: int|
                0 <= j < k < i ==> #[trigger] let_id(stmts[j]) != #[trigger] let_id(stmts[k]),
        decreases 4 - i,
    {
        assert(stmts[i as int] == body@[i as int].view());
        let x: LocalId = match find_let_id(&body[i]) {
            Some(x) => x,
            None => {
                return false;
            },
        };
        assert(let_id(stmts[i as int]) == Some(x));
        if x == p0 || x == p1 {
            return false;
        }
        let mut k: usize = 0;
        while k < i
            invariant
                k <= i < 4,
                body@.len() == 5,
                stmts == stmts_view(body@),
                let_id(stmts[i as int]) == Some(x),
                forall|j: int| 0 <= j < k ==> #[trigger] let_id(stmts[j]) != Some(x),
            decreases i - k,
        {
            assert(stmts[k as int] == body@[k as int].view());
            match find_let_id(&body[k]) {
                Some(y) => {
                    if y == x {
                        assert(let_id(stmts[k as int]) == let_id(stmts[i as int]));
                        return false;
                    }
                },
                None => {},
            }
            k += 1;
        }
        i += 1;
    }
    true
}

/// Detects whether a function is a Math.imul polyfill.
pub fn detect_math_imul_polyfill(f: &Function) -> (r: bool)
    ensures
        r == imul_polyfill(f@),
{
    if f.is_async || f.is_generator || f.params.len() != 2 || f.body.len() != 5 {
        return false;
    }
    let p0: LocalId = f.params[0].id;
    let p1: LocalId = f.params[1].id;
    assert(f@.params[0].id == p0 && f@.params[1].id == p1);
    if p0 == p1 {
        return false;
    }
    let ghost body = f@.body;
    let mut hi0 = false;
    let mut lo0 = false;
    let mut hi1 = false;
    let mut lo1 = false;
    let mut i: usize = 0;
    while i < 4
        invariant
            i <= 4,
            f.body@.len() == 5,
            body == stmts_view(f.body@),
            body == f@.body,
            p0 != p1,
            p0 == f@.params[0].id,
            p1 == f@.params[1].id,
            forall|j: int| 0 <= j < i ==> #[trigger] half_let(body[j], p0, p1) is Some,
            hi0 == exists|j: int|
                0 <= j < i && #[trigger] half_let(body[j], p0, p1) == Some((p0, true)),
            lo0 == exists|j: int|
                0 <= j < i && #[trigger] half_let(body[j], p0, p1) == Some((p0, false)),
            hi1 == exists|j: int|
                0 <= j < i && #[trigger] half_let(body[j], p0, p1) == Some((p1, true)),
            lo1 == exists|j: int|
                0 <= j < i && #[trigger] half_let(body[j], p0, p1) == Some((p1, false)),
        decreases 4 - i,
    {
        assert(body[i as int] == f.body@[i as int].view());
        match is_half_let(&f.body[i], p0, p1) {
            Some((id, upper)) => {
                assert(half_let(body[i as int], p0, p1) == Some((id, upper)));
                if id == p0 {
                    if upper {
                        hi0 = true;
                    } else {
                        lo0 = true;
                    }
                } else {
                    if upper {
                        hi1 = true;
                    } else {
                        lo1 = true;
                    }
                }
            },
            None => {
                assert(half_let(body[i as int], p0, p1) is None);
                return false;
            },
        }
        i += 1;
    }
    assert(body[4] == f.body@[4].view());
    hi0 && lo0 && hi1 && lo1 && has_own_lets(&f.body, p0, p1) && does_return_product(
        &f.body[4],
        &f.body,
        p0,
        p1,
    )
}

/// Turns `imul(a, b)` into the built-in multiplication, in statements.
pub fn rewrite_imul_calls_in_stmts(stmts: &mut Vec<Stmt>, imul_ids: &HashSet<FuncId>)
    ensures
        stmts_view(final(stmts)@) == rewrite_stmts(
            stmts_view(old(stmts)@),
            Rewrite::Imul(imul_ids@),
        ),
{
    *stmts = rewritten_stmts(stmts, Pass::Imul(imul_ids));
}

/// Turns `imul(a, b)` into the built-in multiplication, in an expression.
pub fn rewrite_imul_calls_in_expr(e: &mut Expr, imul_ids: &HashSet<FuncId>)
    ensures
        final(e)@ == rewrite_expr(old(e)@, Rewrite::Imul(imul_ids@)),
{
    *e = rewritten(e, Pass::Imul(imul_ids));
}

} // verus!
