//! What holds of harvesting as a whole.

use crate::arkts::harvest::{
    app_body, app_index, harvest, lemma_app_found, module_with_states, noop, with_states,
    HarvestView,
};
use crate::arkts::leaf::{menu_items, menu_list, reactive_id, registered, text_slots, EmitView};
use crate::arkts::literal::sanitized;
use crate::arkts::state::{names_of, state_registry};
use crate::arkts::value::{at, lemma_prop_smaller, numeric, object_props, prop_in};
use crate::arkts::widget::{
    bare, deeper, for_each, grid, in_loop, kids, kids_at, lazy_field_id, lazy_list, lazy_vstack,
    lemma_loop_body_smaller, loop_body, loop_param, scrollview, section, shown, stack, state_text,
    tab, tab_blocks, tab_list, tabs, widget, widgets, EnvView, PlaceView,
};
use crate::model::{ExprView, ModuleView, StmtView};
use crate::rewrite::Rewrite;
use crate::rewrite_module::law_idle_rewrite_keeps_module;
use crate::text::{dec, law_dec_injective};
use vstd::prelude::*;

verus! {

/// Whether what is registered makes sense: every callback is a closure, the field
/// of every reactive text is named after its id, and the lazy lists are numbered.
pub open spec fn sound(emit: EmitView) -> bool {
    &&& forall|i: int| 0 <= i < emit.callbacks.len() ==> #[trigger] emit.callbacks[i] is Closure
    &&& forall|i: int|
        0 <= i < emit.slots.len() ==> (#[trigger] emit.slots[i]).field_id == sanitized(
            emit.slots[i].original_id,
        )
    &&& forall|i: int|
        0 <= i < emit.lazies.len() ==> (#[trigger] emit.lazies[i]).field_id == lazy_field_id(
            i as nat,
        )
}

/// Whether everything that was registered is still there, at its place.
pub open spec fn extends(before: EmitView, after: EmitView) -> bool {
    &&& before.callbacks.is_prefix_of(after.callbacks)
    &&& before.slots.is_prefix_of(after.slots)
    &&& before.lazies.is_prefix_of(after.lazies)
}

/// Whether a step keeps what is registered, and keeps it sound.
pub open spec fn keeps(before: EmitView, after: EmitView) -> bool {
    sound(before) ==> sound(after) && extends(before, after)
}

pub proof fn lemma_keeps_trans(a: EmitView, b: EmitView, c: EmitView)
    requires
        keeps(a, b),
        keeps(b, c),
    ensures
        keeps(a, c),
{
    if sound(a) {
        lemma_prefix_trans(a.callbacks, b.callbacks, c.callbacks);
        lemma_prefix_trans(a.slots, b.slots, c.slots);
        lemma_prefix_trans(a.lazies, b.lazies, c.lazies);
    }
}

pub proof fn lemma_prefix_trans<T>(a: Seq<T>, b: Seq<T>, c: Seq<T>)
    requires
        a.is_prefix_of(b),
        b.is_prefix_of(c),
    ensures
        a.is_prefix_of(c),
{
    assert(c.subrange(0, a.len() as int) =~= b.subrange(0, a.len() as int));
}

pub proof fn lemma_prefix_push<T>(a: Seq<T>, x: T)
    ensures
        a.is_prefix_of(a),
        a.is_prefix_of(a.push(x)),
{
    assert(a.subrange(0, a.len() as int) =~= a);
    assert(a.push(x).subrange(0, a.len() as int) =~= a);
}

pub proof fn lemma_keeps_same(emit: EmitView)
    ensures
        keeps(emit, emit),
{
    assert(emit.callbacks.subrange(0, emit.callbacks.len() as int) =~= emit.callbacks);
    assert(emit.slots.subrange(0, emit.slots.len() as int) =~= emit.slots);
    assert(emit.lazies.subrange(0, emit.lazies.len() as int) =~= emit.lazies);
}

pub proof fn lemma_keeps_callback(emit: EmitView, e: Option<ExprView>)
    ensures
        keeps(emit, EmitView { callbacks: registered(e, emit.callbacks), ..emit }),
{
    lemma_keeps_same(emit);
    if e is Some && e->0 is Closure {
        lemma_prefix_push(emit.callbacks, e->0);
    }
}

proof fn lemma_keeps_text(emit: EmitView, args: Seq<ExprView>)
    ensures
        keeps(emit, EmitView { slots: text_slots(args, emit.slots), ..emit }),
{
    lemma_keeps_same(emit);
    if reactive_id(args) is Some {
        lemma_prefix_push(emit.slots, text_slots(args, emit.slots).last());
    }
}

pub proof fn lemma_keeps_menu(emit: EmitView, items: Seq<ExprView>)
    ensures
        keeps(emit, EmitView { callbacks: menu_items(items, emit.callbacks).1, ..emit }),
    decreases items.len(),
{
    lemma_keeps_same(emit);
    if items.len() > 0 {
        lemma_keeps_menu(emit, items.drop_last());
        let (_, cbs) = menu_items(items.drop_last(), emit.callbacks);
        let mid = EmitView { callbacks: cbs, ..emit };
        let action = crate::arkts::leaf::menu_action(items.last());
        lemma_keeps_callback(mid, action);
        lemma_keeps_trans(
            emit,
            mid,
            EmitView { callbacks: registered(action, cbs), ..emit },
        );
    }
}

pub proof fn lemma_widget(e: ExprView, env: EnvView, p: PlaceView, emit: EmitView, left: nat, more: nat)
    requires
        left <= more,
    ensures
        widget(e, env, p, emit, left) matches Some(run) ==> keeps(emit, run.emit) && widget(
            e,
            env,
            p,
            emit,
            more,
        ) == Some(run),
    decreases left, e, 2nat,
{
    match state_text(e, env.states) {
        Some(s) => {
            lemma_keeps_same(emit);
            lemma_prefix_push(emit.slots, crate::arkts::page::slot_for(s.name, s.initial));
        },
        None => match e {
            ExprView::LocalGet(id) => {
                if env.bindings.contains_key(id) {
                    if left > 0 {
                        lemma_shown(
                            env.bindings[id],
                            env,
                            p,
                            emit,
                            (left - 1) as nat,
                            (more - 1) as nat,
                        );
                    }
                } else {
                    lemma_shown(e, env, p, emit, left, more);
                }
            },
            _ => lemma_shown(e, env, p, emit, left, more),
        },
    }
}

pub proof fn lemma_shown(e: ExprView, env: EnvView, p: PlaceView, emit: EmitView, left: nat, more: nat)
    requires
        left <= more,
    ensures
        shown(e, env, p, emit, left) matches Some(run) ==> keeps(emit, run.emit) && shown(
            e,
            env,
            p,
            emit,
            more,
        ) == Some(run),
    decreases left, e, 1nat,
{
    lemma_keeps_same(emit);
    match e {
        ExprView::NativeMethodCall { method, args, .. } => {
            lemma_bare(method, args, env, p, emit, left, more);
        },
        ExprView::ArrayMap { .. } => lemma_for_each(e, env, p, emit, left, more),
        _ => {},
    }
}

pub proof fn lemma_bare(
    name: Seq<char>,
    args: Seq<ExprView>,
    env: EnvView,
    p: PlaceView,
    emit: EmitView,
    left: nat,
    more: nat,
)
    requires
        left <= more,
    ensures
        bare(name, args, env, p, emit, left) matches Some(run) ==> keeps(emit, run.emit) && bare(
            name,
            args,
            env,
            p,
            emit,
            more,
        ) == Some(run),
    decreases left, args, 3nat,
{
    if name == "Text"@ {
        lemma_keeps_text(emit, args);
    } else if name == "VStack"@ {
        lemma_stack("Column"@, args, env, p, emit, left, more);
    } else if name == "HStack"@ {
        lemma_stack("Row"@, args, env, p, emit, left, more);
    } else if name == "Button"@ || name == "TextField"@ || name == "Toggle"@ {
        lemma_keeps_callback(emit, at(args, 1));
    } else if name == "Slider"@ {
        lemma_keeps_callback(emit, at(args, 2));
    } else if name == "Spacer"@ || name == "Divider"@ || name == "Image"@ || name == "ImageFile"@ {
        lemma_keeps_same(emit);
    } else if name == "ScrollView"@ {
        lemma_scrollview(args, env, p, emit, left, more);
    } else if name == "LazyVStack"@ {
        lemma_lazy_vstack(args, env, p, emit, left, more);
    } else if name == "Picker"@ {
        lemma_keeps_callback(emit, at(args, 1));
    } else if name == "ProgressView"@ {
        lemma_keeps_same(emit);
    } else if name == "Section"@ {
        lemma_section(args, env, p, emit, left, more);
    } else if name == "Tabs"@ {
        lemma_tabs(args, env, p, emit, left, more);
    } else if name == "Modal"@ || name == "Dialog"@ {
        lemma_keeps_same(emit);
    } else if name == "Menu"@ || name == "ContextMenu"@ {
        lemma_keeps_menu(emit, menu_list(args));
    } else if name == "Grid"@ {
        lemma_grid(args, env, p, emit, left, more);
    } else {
        lemma_keeps_same(emit);
    }
}

proof fn lemma_scrollview(
    args: Seq<ExprView>,
    env: EnvView,
    p: PlaceView,
    emit: EmitView,
    left: nat,
    more: nat,
)
    requires
        left <= more,
    ensures
        scrollview(args, env, p, emit, left) matches Some(run) ==> keeps(emit, run.emit)
            && scrollview(args, env, p, emit, more) == Some(run),
    decreases left, args, 2nat,
{
    lemma_kids_at(args, 0, env, deeper(p, 2), emit, left, more);
}

proof fn lemma_section(
    args: Seq<ExprView>,
    env: EnvView,
    p: PlaceView,
    emit: EmitView,
    left: nat,
    more: nat,
)
    requires
        left <= more,
    ensures
        section(args, env, p, emit, left) matches Some(run) ==> keeps(emit, run.emit) && section(
            args,
            env,
            p,
            emit,
            more,
        ) == Some(run),
    decreases left, args, 2nat,
{
    lemma_kids_at(args, 1, env, deeper(p, 1), emit, left, more);
}

pub proof fn lemma_kids_at(
    args: Seq<ExprView>,
    i: int,
    env: EnvView,
    p: PlaceView,
    emit: EmitView,
    left: nat,
    more: nat,
)
    requires
        left <= more,
    ensures
        kids_at(args, i, env, p, emit, left) matches Some(run) ==> keeps(emit, run.emit) && kids_at(
            args,
            i,
            env,
            p,
            emit,
            more,
        ) == Some(run),
    decreases left, args, 0nat,
{
    lemma_keeps_same(emit);
    if 0 <= i < args.len() {
        lemma_kids(args[i], env, p, emit, left, more);
    }
}

pub proof fn lemma_kids(e: ExprView, env: EnvView, p: PlaceView, emit: EmitView, left: nat, more: nat)
    requires
        left <= more,
    ensures
        kids(e, env, p, emit, left) matches Some(run) ==> keeps(emit, run.emit) && kids(
            e,
            env,
            p,
            emit,
            more,
        ) == Some(run),
    decreases left, e, 3nat,
{
    lemma_keeps_same(emit);
    match e {
        ExprView::Array(items) => lemma_widgets(items, items.len(), env, p, emit, left, more),
        ExprView::ArrayMap { .. } => lemma_widget(e, env, p, emit, left, more),
        _ => {},
    }
}

pub proof fn lemma_widgets(
    items: Seq<ExprView>,
    k: nat,
    env: EnvView,
    p: PlaceView,
    emit: EmitView,
    left: nat,
    more: nat,
)
    requires
        left <= more,
    ensures
        widgets(items, k, env, p, emit, left) matches Some(run) ==> keeps(emit, run.emit)
            && widgets(items, k, env, p, emit, more) == Some(run),
    decreases left, items, k,
{
    lemma_keeps_same(emit);
    if 0 < k <= items.len() {
        lemma_widgets(items, (k - 1) as nat, env, p, emit, left, more);
        match widgets(items, (k - 1) as nat, env, p, emit, left) {
            Some(front) => {
                lemma_widget(items[k - 1], env, p, front.emit, left, more);
                match widget(items[k - 1], env, p, front.emit, left) {
                    Some(run) => lemma_keeps_trans(emit, front.emit, run.emit),
                    None => {},
                }
            },
            None => {},
        }
    }
}

proof fn lemma_stack(
    kind: Seq<char>,
    args: Seq<ExprView>,
    env: EnvView,
    p: PlaceView,
    emit: EmitView,
    left: nat,
    more: nat,
)
    requires
        left <= more,
    ensures
        stack(kind, args, env, p, emit, left) matches Some(run) ==> keeps(emit, run.emit) && stack(
            kind,
            args,
            env,
            p,
            emit,
            more,
        ) == Some(run),
    decreases left, args, 0nat,
{
    lemma_keeps_same(emit);
    let i: int = if args.len() > 0 && numeric(args[0]) is Some {
        1
    } else {
        0
    };
    if i < args.len() {
        lemma_kids(args[i], env, deeper(p, 1), emit, left, more);
    }
}

proof fn lemma_for_each(e: ExprView, env: EnvView, p: PlaceView, emit: EmitView, left: nat, more: nat)
    requires
        left <= more,
    ensures
        for_each(e, env, p, emit, left) matches Some(run) ==> keeps(emit, run.emit) && for_each(
            e,
            env,
            p,
            emit,
            more,
        ) == Some(run),
    decreases left, e, 0nat,
{
    lemma_keeps_same(emit);
    match e {
        ExprView::ArrayMap { callback, .. } => {
            if loop_param(*callback) is Some && loop_body(*callback) is Some {
                lemma_loop_body_smaller(*callback);
                lemma_widget(
                    loop_body(*callback)->0,
                    env,
                    in_loop(p, loop_param(*callback)->0, 1),
                    emit,
                    left,
                    more,
                );
            }
        },
        _ => {},
    }
}

proof fn lemma_lazy_vstack(
    args: Seq<ExprView>,
    env: EnvView,
    p: PlaceView,
    emit: EmitView,
    left: nat,
    more: nat,
)
    requires
        left <= more,
    ensures
        lazy_vstack(args, env, p, emit, left) matches Some(run) ==> keeps(emit, run.emit)
            && lazy_vstack(args, env, p, emit, more) == Some(run),
    decreases left, args, 0nat,
{
    lemma_keeps_same(emit);
    if args.len() > 0 {
        if args[0] is ArrayMap {
            lemma_lazy_list(args[0], env, p, emit, left, more);
        } else {
            lemma_kids(args[0], env, deeper(p, 1), emit, left, more);
        }
    }
}

proof fn lemma_lazy_list(
    e: ExprView,
    env: EnvView,
    p: PlaceView,
    emit: EmitView,
    left: nat,
    more: nat,
)
    requires
        left <= more,
    ensures
        lazy_list(e, env, p, emit, left) matches Some(run) ==> keeps(emit, run.emit) && lazy_list(
            e,
            env,
            p,
            emit,
            more,
        ) == Some(run),
    decreases left, e, 0nat,
{
    lemma_keeps_same(emit);
    match e {
        ExprView::ArrayMap { callback, .. } => {
            let body_emit = if loop_param(*callback) is Some && loop_body(*callback) is Some {
                lemma_loop_body_smaller(*callback);
                let inner = in_loop(p, loop_param(*callback)->0, 3);
                lemma_widget(loop_body(*callback)->0, env, inner, emit, left, more);
                match widget(loop_body(*callback)->0, env, inner, emit, left) {
                    Some(run) => run.emit,
                    None => emit,
                }
            } else {
                emit
            };
            match lazy_list(e, env, p, emit, left) {
                Some(run) => {
                    lemma_prefix_push(body_emit.lazies, run.emit.lazies.last());
                    lemma_keeps_same(body_emit);
                    assert(keeps(body_emit, run.emit));
                    lemma_keeps_trans(emit, body_emit, run.emit);
                },
                None => {},
            }
        },
        _ => {},
    }
}

proof fn lemma_tabs(
    args: Seq<ExprView>,
    env: EnvView,
    p: PlaceView,
    emit: EmitView,
    left: nat,
    more: nat,
)
    requires
        left <= more,
    ensures
        tabs(args, env, p, emit, left) matches Some(run) ==> keeps(emit, run.emit) && tabs(
            args,
            env,
            p,
            emit,
            more,
        ) == Some(run),
    decreases left, args, 0nat,
{
    lemma_keeps_same(emit);
    if args.len() > 0 && args[0] is Array {
        lemma_tab_list(args[0], env, p, emit, left, more);
    }
}

pub proof fn lemma_tab_list(
    e: ExprView,
    env: EnvView,
    p: PlaceView,
    emit: EmitView,
    left: nat,
    more: nat,
)
    requires
        left <= more,
    ensures
        tab_list(e, env, p, emit, left) matches Some(run) ==> keeps(emit, run.emit) && tab_list(
            e,
            env,
            p,
            emit,
            more,
        ) == Some(run),
    decreases left, e, 3nat,
{
    match e {
        ExprView::Array(items) => lemma_tab_blocks(items, items.len(), env, p, emit, left, more),
        _ => {},
    }
}

pub proof fn lemma_tab_blocks(
    items: Seq<ExprView>,
    k: nat,
    env: EnvView,
    p: PlaceView,
    emit: EmitView,
    left: nat,
    more: nat,
)
    requires
        left <= more,
    ensures
        tab_blocks(items, k, env, p, emit, left) matches Some(run) ==> keeps(emit, run.emit)
            && tab_blocks(items, k, env, p, emit, more) == Some(run),
    decreases left, items, k,
{
    lemma_keeps_same(emit);
    if 0 < k <= items.len() {
        lemma_tab_blocks(items, (k - 1) as nat, env, p, emit, left, more);
        match tab_blocks(items, (k - 1) as nat, env, p, emit, left) {
            Some(front) => {
                lemma_tab(items[k - 1], env, p, front.emit, left, more);
                match tab(items[k - 1], env, p, front.emit, left) {
                    Some(run) => lemma_keeps_trans(emit, front.emit, run.emit),
                    None => {},
                }
            },
            None => {},
        }
    }
}

pub proof fn lemma_tab(e: ExprView, env: EnvView, p: PlaceView, emit: EmitView, left: nat, more: nat)
    requires
        left <= more,
    ensures
        tab(e, env, p, emit, left) matches Some(run) ==> keeps(emit, run.emit) && tab(
            e,
            env,
            p,
            emit,
            more,
        ) == Some(run),
    decreases left, e, 3nat,
{
    lemma_keeps_same(emit);
    if object_props(e, env.classes) is Some {
        match prop_in(e, env.classes, "body"@) {
            Some(body) => {
                lemma_prop_smaller(e, env.classes, "body"@);
                lemma_widget(body, env, deeper(p, 2), emit, left, more);
            },
            None => {},
        }
    }
}

proof fn lemma_grid(
    args: Seq<ExprView>,
    env: EnvView,
    p: PlaceView,
    emit: EmitView,
    left: nat,
    more: nat,
)
    requires
        left <= more,
    ensures
        grid(args, env, p, emit, left) matches Some(run) ==> keeps(emit, run.emit) && grid(
            args,
            env,
            p,
            emit,
            more,
        ) == Some(run),
    decreases left, args, 0nat,
{
    lemma_keeps_same(emit);
    if args.len() > 1 && args[1] is Array {
        lemma_kids(args[1], env, deeper(p, 2), emit, left, more);
    }
}

// ---------------------------------------------------------------------------
// Laws
// ---------------------------------------------------------------------------

/// A widget leaves what was registered before it at its place, so a callback keeps
/// its slot; and what it registers is sound.
pub proof fn law_widget_keeps_registrations(
    e: ExprView,
    env: EnvView,
    p: PlaceView,
    emit: EmitView,
    left: nat,
)
    requires
        sound(emit),
        widget(e, env, p, emit, left) is Some,
    ensures
        sound(widget(e, env, p, emit, left)->0.emit),
        extends(emit, widget(e, env, p, emit, left)->0.emit),
{
    lemma_widget(e, env, p, emit, left, left);
}

/// How many bindings may be followed decides whether there is a widget, not which.
pub proof fn law_bindings_decide_only_success(
    e: ExprView,
    env: EnvView,
    p: PlaceView,
    emit: EmitView,
    left: nat,
    more: nat,
)
    requires
        left <= more,
        widget(e, env, p, emit, left) is Some,
    ensures
        widget(e, env, p, emit, more) == widget(e, env, p, emit, left),
{
    lemma_widget(e, env, p, emit, left, more);
}

/// Every callback of a page is a closure.
pub proof fn law_callbacks_are_closures(m: ModuleView)
    ensures
        harvest(m) matches HarvestView::Page { callbacks, .. } ==> forall|i: int|
            0 <= i < callbacks.len() ==> #[trigger] callbacks[i] is Closure,
{
    let init = with_states(m.init);
    let i = app_index(init, m.classes);
    if i < init.len() {
        let env = EnvView {
            bindings: crate::arkts::harvest::const_bindings(init),
            classes: m.classes,
            states: state_registry(m.init).0,
        };
        lemma_widget(
            app_body(init[i as int], m.classes)->0,
            env,
            PlaceView { depth: 0, locals: Seq::empty() },
            EmitView { callbacks: Seq::empty(), slots: Seq::empty(), lazies: Seq::empty() },
            init.len(),
            init.len(),
        );
    }
}

/// No two lazy lists of a sound registration share a page field.
pub proof fn law_lazy_fields_distinct(emit: EmitView, i: int, j: int)
    requires
        sound(emit),
        0 <= i < j < emit.lazies.len(),
    ensures
        emit.lazies[i].field_id != emit.lazies[j].field_id,
{
    if lazy_field_id(i as nat) == lazy_field_id(j as nat) {
        let k = "lazy_source_"@.len() as int;
        assert(lazy_field_id(i as nat).skip(k) =~= dec(i as nat));
        assert(lazy_field_id(j as nat).skip(k) =~= dec(j as nat));
        law_dec_injective(i as nat, j as nat);
    }
}

/// Harvesting takes the first `App` call, and that one only: where it stood, nothing
/// is done; every other statement, and the rest of the module, stays but for the calls
/// of state variables.
pub proof fn law_only_the_app_call_goes(m: ModuleView)
    ensures
        harvest(m) matches HarvestView::Page { module, .. } ==> {
            let init = with_states(m.init);
            let i = app_index(init, m.classes) as int;
            &&& 0 <= i < init.len()
            &&& app_body(init[i], m.classes) is Some
            &&& forall|j: int| 0 <= j < i ==> app_body(#[trigger] init[j], m.classes) is None
            &&& module.init.len() == init.len()
            &&& module.init[i] == noop()
            &&& app_body(module.init[i], m.classes) is None
            &&& forall|j: int| 0 <= j < init.len() && j != i ==> #[trigger] module.init[j] == init[j]
            &&& module.functions == module_with_states(m).functions
            &&& module.classes == module_with_states(m).classes
            &&& module.name == m.name
        },
        harvest(m) is NoApp ==> forall|j: int|
            0 <= j < with_states(m.init).len() ==> app_body(
                #[trigger] with_states(m.init)[j],
                m.classes,
            ) is None,
{
    lemma_app_found(with_states(m.init), m.classes);
}

/// Without state variables nothing is rewritten.
pub proof fn law_no_states_no_rewrite(m: ModuleView)
    requires
        state_registry(m.init).1 == 0,
    ensures
        module_with_states(m) == m,
{
    lemma_no_states(m.init);
    let names = names_of(state_registry(m.init).0);
    assert(names =~= Map::empty());
    law_idle_rewrite_keeps_module(m, Rewrite::State(names));
}

proof fn lemma_no_states(init: Seq<StmtView>)
    requires
        state_registry(init).1 == 0,
    ensures
        state_registry(init).0 == Map::<crate::hir::LocalId, crate::arkts::state::StateView>::empty(),
    decreases init.len(),
{
    if init.len() > 0 {
        lemma_no_states(init.drop_last());
    }
}

} // verus!
