//! Which modules have a page: all whose bindings do not run in a circle.

use crate::arkts::harvest::{
    app_body, app_index, const_bindings, harvest, lemma_app_found, with_states,
};
use crate::arkts::leaf::EmitView;
use crate::arkts::state::state_registry;
use crate::arkts::value::{lemma_prop_smaller, numeric, object_props, prop_in};
use crate::arkts::widget::{
    bare, deeper, for_each, grid, in_loop, kids, kids_at, lazy_list, lazy_vstack,
    lemma_loop_body_smaller, loop_body, loop_param, shown, stack, tab, tab_blocks, tab_list, tabs,
    widget, widgets, EnvView, PlaceView,
};
use crate::hir::LocalId;
use crate::model::{ExprView, ModuleView};
use crate::walk::{children, lemma_children_smaller};
use vstd::prelude::*;

verus! {

/// Whether the variable stands where a widget, or a part of one, is expected.
pub open spec fn shows(e: ExprView, id: LocalId) -> bool
    decreases e,
{
    match e {
        ExprView::LocalGet(x) => x == id,
        ExprView::NativeMethodCall { .. }
        | ExprView::Array(_)
        | ExprView::Object(_)
        | ExprView::New { .. } => {
            proof {
                assert forall|i: int| 0 <= i < children(e).len() implies decreases_to!(
                    e => #[trigger] children(e)[i],
                ) by {
                    lemma_children_smaller(e, i);
                }
            }
            exists|i: int| 0 <= i < children(e).len() && shows(#[trigger] children(e)[i], id)
        },
        ExprView::ArrayMap { callback, .. } => {
            proof {
                lemma_loop_body_smaller(*callback);
            }
            loop_body(*callback) is Some && shows(loop_body(*callback)->0, id)
        },
        _ => false,
    }
}

/// By how many levels the widgets of an expression are set in at most, bindings
/// aside.
pub open spec fn span(e: ExprView) -> nat
    decreases e, 1nat, 0nat,
{
    match e {
        ExprView::NativeMethodCall { .. } => 3 + kids_span(e, children(e).len()),
        ExprView::Array(_) | ExprView::Object(_) | ExprView::New { .. } => kids_span(
            e,
            children(e).len(),
        ),
        ExprView::ArrayMap { callback, .. } => {
            proof {
                lemma_loop_body_smaller(*callback);
            }
            3 + (if loop_body(*callback) is Some {
                span(loop_body(*callback)->0)
            } else {
                0
            })
        },
        _ => 0,
    }
}

/// The largest span among the first `k` children.
pub open spec fn kids_span(e: ExprView, k: nat) -> nat
    decreases e, 0nat, k,
{
    if k == 0 || k > children(e).len() {
        0
    } else {
        proof {
            lemma_children_smaller(e, k - 1);
        }
        let front = kids_span(e, (k - 1) as nat);
        let last = span(children(e)[k - 1]);
        if front < last {
            last
        } else {
            front
        }
    }
}

proof fn lemma_kids_span(e: ExprView, k: nat, i: int)
    requires
        0 <= i < k <= children(e).len(),
    ensures
        span(children(e)[i]) <= kids_span(e, k),
    decreases k,
{
    if i < k - 1 {
        lemma_kids_span(e, (k - 1) as nat, i);
    }
}

/// Whether the bindings can be ordered: what the binding of a variable shows has a
/// smaller rank than the variable; and whether none spans more than `h` levels.
pub open spec fn ordered(
    bindings: Map<LocalId, ExprView>,
    rank: spec_fn(LocalId) -> nat,
    h: nat,
) -> bool {
    &&& forall|id: LocalId, other: LocalId|
        bindings.contains_key(id) && bindings.contains_key(other) && #[trigger] shows(
            bindings[id],
            other,
        ) ==> rank(other) < rank(id)
    &&& forall|id: LocalId| bindings.contains_key(id) ==> span(#[trigger] bindings[id]) <= h
}

/// Whether what the expression shows can be followed, and set in, from the depth.
pub open spec fn fits(
    e: ExprView,
    bindings: Map<LocalId, ExprView>,
    rank: spec_fn(LocalId) -> nat,
    h: nat,
    depth: nat,
    left: nat,
) -> bool {
    &&& forall|id: LocalId| bindings.contains_key(id) && #[trigger] shows(e, id) ==> rank(id) < left
    &&& depth + span(e) + left * h + 3 <= usize::MAX
}

pub open spec fn all_fit(
    v: Seq<ExprView>,
    bindings: Map<LocalId, ExprView>,
    rank: spec_fn(LocalId) -> nat,
    h: nat,
    depth: nat,
    left: nat,
) -> bool {
    forall|i: int| 0 <= i < v.len() ==> fits(#[trigger] v[i], bindings, rank, h, depth, left)
}

proof fn lemma_child_fits(
    e: ExprView,
    i: int,
    bindings: Map<LocalId, ExprView>,
    rank: spec_fn(LocalId) -> nat,
    h: nat,
    depth: nat,
    left: nat,
)
    requires
        e is NativeMethodCall || e is Array || e is Object || e is New,
        0 <= i < children(e).len(),
        fits(e, bindings, rank, h, depth, left),
    ensures
        fits(
            children(e)[i],
            bindings,
            rank,
            h,
            depth + if e is NativeMethodCall {
                3nat
            } else {
                0nat
            },
            left,
        ),
{
    lemma_kids_span(e, children(e).len(), i);
    assert forall|id: LocalId|
        bindings.contains_key(id) && #[trigger] shows(children(e)[i], id) implies rank(id)
        < left by {
        assert(shows(e, id));
    }
}

proof fn lemma_widget_fits(
    e: ExprView,
    env: EnvView,
    p: PlaceView,
    emit: EmitView,
    left: nat,
    rank: spec_fn(LocalId) -> nat,
    h: nat,
)
    requires
        ordered(env.bindings, rank, h),
        fits(e, env.bindings, rank, h, p.depth, left),
    ensures
        widget(e, env, p, emit, left) is Some,
    decreases left, e, 2nat,
{
    match e {
        ExprView::LocalGet(id) => {
            if env.bindings.contains_key(id) {
                assert(shows(e, id));
                let bound = env.bindings[id];
                let less = (left - 1) as nat;
                assert(left * h == less * h + h) by (nonlinear_arith)
                    requires
                        left == less + 1,
                ;
                assert(fits(bound, env.bindings, rank, h, p.depth, less));
                lemma_shown_fits(bound, env, p, emit, less, rank, h);
            } else {
                lemma_shown_fits(e, env, p, emit, left, rank, h);
            }
        },
        _ => lemma_shown_fits(e, env, p, emit, left, rank, h),
    }
}

proof fn lemma_shown_fits(
    e: ExprView,
    env: EnvView,
    p: PlaceView,
    emit: EmitView,
    left: nat,
    rank: spec_fn(LocalId) -> nat,
    h: nat,
)
    requires
        ordered(env.bindings, rank, h),
        fits(e, env.bindings, rank, h, p.depth, left),
    ensures
        shown(e, env, p, emit, left) is Some,
    decreases left, e, 1nat,
{
    match e {
        ExprView::NativeMethodCall { object, method, args, .. } => {
            assert forall|i: int| 0 <= i < args.len() implies fits(
                #[trigger] args[i],
                env.bindings,
                rank,
                h,
                p.depth + 3,
                left,
            ) by {
                let k: int = if object is Some {
                    i + 1
                } else {
                    i
                };
                assert(children(e)[k] == args[i]);
                lemma_child_fits(e, k, env.bindings, rank, h, p.depth, left);
            }
            lemma_bare_fits(method, args, env, p, emit, left, rank, h);
        },
        ExprView::ArrayMap { .. } => lemma_for_each_fits(e, env, p, emit, left, rank, h),
        _ => {},
    }
}

proof fn lemma_bare_fits(
    name: Seq<char>,
    args: Seq<ExprView>,
    env: EnvView,
    p: PlaceView,
    emit: EmitView,
    left: nat,
    rank: spec_fn(LocalId) -> nat,
    h: nat,
)
    requires
        ordered(env.bindings, rank, h),
        all_fit(args, env.bindings, rank, h, p.depth + 3, left),
    ensures
        bare(name, args, env, p, emit, left) is Some,
    decreases left, args, 3nat,
{
    lemma_stack_fits("Column"@, args, env, p, emit, left, rank, h);
    lemma_stack_fits("Row"@, args, env, p, emit, left, rank, h);
    lemma_kids_at_fits(args, 0, env, deeper(p, 2), emit, left, rank, h);
    lemma_lazy_fits(args, env, p, emit, left, rank, h);
    lemma_kids_at_fits(args, 1, env, deeper(p, 1), emit, left, rank, h);
    lemma_tabs_fits(args, env, p, emit, left, rank, h);
    lemma_grid_fits(args, env, p, emit, left, rank, h);
}

/// What fits further in fits further out.
proof fn lemma_kids_at_fits(
    args: Seq<ExprView>,
    i: int,
    env: EnvView,
    p: PlaceView,
    emit: EmitView,
    left: nat,
    rank: spec_fn(LocalId) -> nat,
    h: nat,
)
    requires
        ordered(env.bindings, rank, h),
        all_fit(args, env.bindings, rank, h, p.depth, left) || all_fit(
            args,
            env.bindings,
            rank,
            h,
            p.depth + 1,
            left,
        ) || all_fit(args, env.bindings, rank, h, p.depth + 2, left),
    ensures
        kids_at(args, i, env, p, emit, left) is Some,
    decreases left, args, 0nat,
{
    if 0 <= i < args.len() {
        assert(fits(args[i], env.bindings, rank, h, p.depth, left));
        lemma_kids_fits(args[i], env, p, emit, left, rank, h);
    }
}

proof fn lemma_kids_fits(
    e: ExprView,
    env: EnvView,
    p: PlaceView,
    emit: EmitView,
    left: nat,
    rank: spec_fn(LocalId) -> nat,
    h: nat,
)
    requires
        ordered(env.bindings, rank, h),
        fits(e, env.bindings, rank, h, p.depth, left),
    ensures
        kids(e, env, p, emit, left) is Some,
    decreases left, e, 3nat,
{
    match e {
        ExprView::Array(items) => {
            assert forall|i: int| 0 <= i < items.len() implies fits(
                #[trigger] items[i],
                env.bindings,
                rank,
                h,
                p.depth,
                left,
            ) by {
                assert(children(e)[i] == items[i]);
                lemma_child_fits(e, i, env.bindings, rank, h, p.depth, left);
            }
            lemma_widgets_fits(items, items.len(), env, p, emit, left, rank, h);
        },
        ExprView::ArrayMap { .. } => lemma_widget_fits(e, env, p, emit, left, rank, h),
        _ => {},
    }
}

proof fn lemma_widgets_fits(
    items: Seq<ExprView>,
    k: nat,
    env: EnvView,
    p: PlaceView,
    emit: EmitView,
    left: nat,
    rank: spec_fn(LocalId) -> nat,
    h: nat,
)
    requires
        ordered(env.bindings, rank, h),
        all_fit(items, env.bindings, rank, h, p.depth, left),
    ensures
        widgets(items, k, env, p, emit, left) is Some,
    decreases left, items, k,
{
    if 0 < k <= items.len() {
        lemma_widgets_fits(items, (k - 1) as nat, env, p, emit, left, rank, h);
        let front = widgets(items, (k - 1) as nat, env, p, emit, left)->0;
        lemma_widget_fits(items[k - 1], env, p, front.emit, left, rank, h);
    }
}

proof fn lemma_stack_fits(
    kind: Seq<char>,
    args: Seq<ExprView>,
    env: EnvView,
    p: PlaceView,
    emit: EmitView,
    left: nat,
    rank: spec_fn(LocalId) -> nat,
    h: nat,
)
    requires
        ordered(env.bindings, rank, h),
        all_fit(args, env.bindings, rank, h, p.depth + 3, left),
    ensures
        stack(kind, args, env, p, emit, left) is Some,
    decreases left, args, 0nat,
{
    let i: int = if args.len() > 0 && numeric(args[0]) is Some {
        1
    } else {
        0
    };
    if i < args.len() {
        assert(fits(args[i], env.bindings, rank, h, p.depth + 3, left));
        lemma_kids_fits(args[i], env, deeper(p, 1), emit, left, rank, h);
    }
}

proof fn lemma_body_fits(
    e: ExprView,
    bindings: Map<LocalId, ExprView>,
    rank: spec_fn(LocalId) -> nat,
    h: nat,
    depth: nat,
    left: nat,
)
    requires
        fits(e, bindings, rank, h, depth, left),
    ensures
        e matches ExprView::ArrayMap { callback, .. } ==> loop_body(*callback) matches Some(body)
            ==> fits(body, bindings, rank, h, depth + 3, left),
{
    match e {
        ExprView::ArrayMap { callback, .. } => match loop_body(*callback) {
            Some(body) => {
                assert forall|id: LocalId|
                    bindings.contains_key(id) && #[trigger] shows(body, id) implies rank(id)
                    < left by {
                    assert(shows(e, id));
                }
            },
            None => {},
        },
        _ => {},
    }
}

proof fn lemma_for_each_fits(
    e: ExprView,
    env: EnvView,
    p: PlaceView,
    emit: EmitView,
    left: nat,
    rank: spec_fn(LocalId) -> nat,
    h: nat,
)
    requires
        e is ArrayMap,
        ordered(env.bindings, rank, h),
        fits(e, env.bindings, rank, h, p.depth, left),
    ensures
        for_each(e, env, p, emit, left) is Some,
    decreases left, e, 0nat,
{
    lemma_body_fits(e, env.bindings, rank, h, p.depth, left);
    match e {
        ExprView::ArrayMap { callback, .. } => {
            if loop_param(*callback) is Some && loop_body(*callback) is Some {
                lemma_loop_body_smaller(*callback);
                lemma_widget_fits(
                    loop_body(*callback)->0,
                    env,
                    in_loop(p, loop_param(*callback)->0, 1),
                    emit,
                    left,
                    rank,
                    h,
                );
            }
        },
        _ => {},
    }
}

proof fn lemma_lazy_fits(
    args: Seq<ExprView>,
    env: EnvView,
    p: PlaceView,
    emit: EmitView,
    left: nat,
    rank: spec_fn(LocalId) -> nat,
    h: nat,
)
    requires
        ordered(env.bindings, rank, h),
        all_fit(args, env.bindings, rank, h, p.depth + 3, left),
    ensures
        lazy_vstack(args, env, p, emit, left) is Some,
    decreases left, args, 0nat,
{
    if args.len() > 0 {
        assert(fits(args[0], env.bindings, rank, h, p.depth + 3, left));
        if args[0] is ArrayMap {
            lemma_lazy_list_fits(args[0], env, p, emit, left, rank, h);
        } else {
            lemma_kids_fits(args[0], env, deeper(p, 1), emit, left, rank, h);
        }
    }
}

proof fn lemma_lazy_list_fits(
    e: ExprView,
    env: EnvView,
    p: PlaceView,
    emit: EmitView,
    left: nat,
    rank: spec_fn(LocalId) -> nat,
    h: nat,
)
    requires
        e is ArrayMap,
        ordered(env.bindings, rank, h),
        fits(e, env.bindings, rank, h, p.depth, left),
    ensures
        lazy_list(e, env, p, emit, left) is Some,
    decreases left, e, 0nat,
{
    lemma_body_fits(e, env.bindings, rank, h, p.depth, left);
    match e {
        ExprView::ArrayMap { callback, .. } => {
            if loop_param(*callback) is Some && loop_body(*callback) is Some {
                lemma_loop_body_smaller(*callback);
                lemma_widget_fits(
                    loop_body(*callback)->0,
                    env,
                    in_loop(p, loop_param(*callback)->0, 3),
                    emit,
                    left,
                    rank,
                    h,
                );
            }
        },
        _ => {},
    }
}

proof fn lemma_tabs_fits(
    args: Seq<ExprView>,
    env: EnvView,
    p: PlaceView,
    emit: EmitView,
    left: nat,
    rank: spec_fn(LocalId) -> nat,
    h: nat,
)
    requires
        ordered(env.bindings, rank, h),
        all_fit(args, env.bindings, rank, h, p.depth + 3, left),
    ensures
        tabs(args, env, p, emit, left) is Some,
    decreases left, args, 0nat,
{
    if args.len() > 0 && args[0] is Array {
        assert(fits(args[0], env.bindings, rank, h, p.depth + 3, left));
        lemma_tab_list_fits(args[0], env, p, emit, left, rank, h);
    }
}

proof fn lemma_tab_list_fits(
    e: ExprView,
    env: EnvView,
    p: PlaceView,
    emit: EmitView,
    left: nat,
    rank: spec_fn(LocalId) -> nat,
    h: nat,
)
    requires
        e is Array,
        ordered(env.bindings, rank, h),
        fits(e, env.bindings, rank, h, p.depth + 3, left),
    ensures
        tab_list(e, env, p, emit, left) is Some,
    decreases left, e, 3nat,
{
    match e {
        ExprView::Array(items) => {
            assert forall|i: int| 0 <= i < items.len() implies fits(
                #[trigger] items[i],
                env.bindings,
                rank,
                h,
                p.depth + 3,
                left,
            ) by {
                assert(children(e)[i] == items[i]);
                lemma_child_fits(e, i, env.bindings, rank, h, p.depth + 3, left);
            }
            lemma_tab_blocks_fits(items, items.len(), env, p, emit, left, rank, h);
        },
        _ => {},
    }
}

proof fn lemma_tab_blocks_fits(
    items: Seq<ExprView>,
    k: nat,
    env: EnvView,
    p: PlaceView,
    emit: EmitView,
    left: nat,
    rank: spec_fn(LocalId) -> nat,
    h: nat,
)
    requires
        ordered(env.bindings, rank, h),
        all_fit(items, env.bindings, rank, h, p.depth + 3, left),
    ensures
        tab_blocks(items, k, env, p, emit, left) is Some,
    decreases left, items, k,
{
    if 0 < k <= items.len() {
        lemma_tab_blocks_fits(items, (k - 1) as nat, env, p, emit, left, rank, h);
        let front = tab_blocks(items, (k - 1) as nat, env, p, emit, left)->0;
        lemma_tab_fits(items[k - 1], env, p, front.emit, left, rank, h);
    }
}

proof fn lemma_tab_fits(
    e: ExprView,
    env: EnvView,
    p: PlaceView,
    emit: EmitView,
    left: nat,
    rank: spec_fn(LocalId) -> nat,
    h: nat,
)
    requires
        ordered(env.bindings, rank, h),
        fits(e, env.bindings, rank, h, p.depth + 3, left),
    ensures
        tab(e, env, p, emit, left) is Some,
    decreases left, e, 3nat,
{
    if object_props(e, env.classes) is Some {
        match prop_in(e, env.classes, "body"@) {
            Some(body) => {
                lemma_prop_smaller(e, env.classes, "body"@);
                let i = choose|i: int|
                    0 <= i < children(e).len() && #[trigger] children(e)[i] == body;
                lemma_child_fits(e, i, env.bindings, rank, h, p.depth + 3, left);
                lemma_widget_fits(body, env, deeper(p, 2), emit, left, rank, h);
            },
            None => {},
        }
    }
}

proof fn lemma_grid_fits(
    args: Seq<ExprView>,
    env: EnvView,
    p: PlaceView,
    emit: EmitView,
    left: nat,
    rank: spec_fn(LocalId) -> nat,
    h: nat,
)
    requires
        ordered(env.bindings, rank, h),
        all_fit(args, env.bindings, rank, h, p.depth + 3, left),
    ensures
        grid(args, env, p, emit, left) is Some,
    decreases left, args, 0nat,
{
    if args.len() > 1 && args[1] is Array {
        assert(fits(args[1], env.bindings, rank, h, p.depth + 3, left));
        lemma_kids_fits(args[1], env, deeper(p, 2), emit, left, rank, h);
    }
}

/// A module whose bindings do not run in a circle has a page, or no `App` call. The
/// bindings have ranks below the number of statements, and no variable shows one of
/// its rank or above; nothing is set in deeper than levels can be counted.
pub proof fn law_ordered_bindings_have_a_page(
    m: ModuleView,
    rank: spec_fn(LocalId) -> nat,
    h: nat,
)
    requires
        ({
            let init = with_states(m.init);
            &&& ordered(const_bindings(init), rank, h)
            &&& forall|id: LocalId|
                const_bindings(init).contains_key(id) ==> #[trigger] rank(id) < init.len()
            &&& forall|i: int|
                0 <= i < init.len() ==> (#[trigger] app_body(init[i], m.classes) matches Some(body)
                    ==> span(body) <= h)
            &&& h + init.len() * h + 3 <= usize::MAX
        }),
    ensures
        !(harvest(m) is Endless),
{
    let init = with_states(m.init);
    let i = app_index(init, m.classes);
    if i < init.len() {
        lemma_app_found(init, m.classes);
        let env = EnvView {
            bindings: const_bindings(init),
            classes: m.classes,
            states: state_registry(m.init).0,
        };
        let body = app_body(init[i as int], m.classes)->0;
        assert(span(body) <= h);
        assert(fits(body, env.bindings, rank, h, 0, init.len()));
        lemma_widget_fits(
            body,
            env,
            PlaceView { depth: 0, locals: Seq::empty() },
            EmitView { callbacks: Seq::empty(), slots: Seq::empty(), lazies: Seq::empty() },
            init.len(),
            rank,
            h,
        );
    }
}

} // verus!
