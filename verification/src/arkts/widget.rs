//! The widget tree.
//!
//! A widget may be given by a variable, which stands for the expression that it is
//! bound to. A variable that is reached from its own binding has no finite tree;
//! `left` bounds how many bindings are followed into each other, and where it does
//! not suffice there is no result.

use crate::arkts::leaf::{
    button, emit_button, emit_image, emit_menu, emit_modal, emit_picker, emit_progressview,
    emit_slider, emit_text, emit_textfield, emit_toggle, emit_unsupported, image, menu, menu_items,
    menu_list, picker, progress, push_slot, registered, slider, string_or, text_or, text_slots,
    text_widget, textfield, toggle, unsupported, Emit, EmitView, MODAL,
};
use crate::arkts::literal::{arkts_string_lit, sanitized, string_lit};
use crate::arkts::page::{lazies_view, slot_for, LazyDataSource, LazyView};
use crate::arkts::state::{states_map, StateBinding, StateView};
use crate::arkts::style::{emit_style_modifiers, style_modifiers};
use crate::arkts::value::{
    arg_at, arkts_array_source, array_source, at, extract_style_object, is_object,
    lemma_prop_smaller, numeric, numeric_arg_or, numeric_expr, numeric_or, numeric_text,
    object_prop, object_props, opt_ref_view, prop_in, Numeric, NumericView,
};
use crate::copy::copy_ids;
use crate::hir::{Class, Expr, LocalId, Stmt};
use crate::model::{
    classes_view, exprs_view, params_view, stmts_view, ClassView, ExprView, StmtView,
};
use crate::num::{truncate, truncated};
use crate::rewrite::exprs_map;
use crate::shape::{find_member_of_local, member_of_local};
use crate::text::{
    dec, dec_text, indent, indented, join, join_strings, levels, pad_levels, str_eq, strings_view,
};
use std::collections::HashMap;
use vstd::prelude::*;

verus! {

broadcast use vstd::std_specs::hash::group_hash_axioms;

// ---------------------------------------------------------------------------
// Model
// ---------------------------------------------------------------------------

/// What widgets are looked up in: the variables that are bound once, the classes,
/// and the state variables.
pub struct EnvView {
    pub bindings: Map<LocalId, ExprView>,
    pub classes: Seq<ClassView>,
    pub states: Map<LocalId, StateView>,
}

/// Where a widget stands: its indentation, and the variables of the loops around
/// it.
pub struct PlaceView {
    pub depth: nat,
    pub locals: Seq<LocalId>,
}

/// The place some levels further in.
pub open spec fn deeper(p: PlaceView, k: nat) -> PlaceView {
    PlaceView { depth: p.depth + k, ..p }
}

/// The place in the body of a loop over the variable, some levels further in.
pub open spec fn in_loop(p: PlaceView, id: LocalId, k: nat) -> PlaceView {
    PlaceView { depth: p.depth + k, locals: p.locals.push(id) }
}

/// The text of a widget, and what is registered after it.
pub struct WidgetRun {
    pub text: Seq<char>,
    pub emit: EmitView,
}

/// The texts of several widgets, and what is registered after them.
pub struct ListRun {
    pub texts: Seq<Seq<char>>,
    pub emit: EmitView,
}

pub const UNRECOGNIZED: &'static str =
    "// unrecognized body expression (must be a perry/ui widget call)\n\
    Text('[unrecognized body]').fontSize(16).fontColor('#888888')";

pub const NOT_AN_ARRAY: &'static str =
    "// children arg wasn't an array literal — Phase 2 v1.5 limitation\n\
    Text('[non-array children]').fontSize(16).fontColor('#888888')";

/// The state variable whose text `x.text()` shows.
pub open spec fn state_text(e: ExprView, states: Map<LocalId, StateView>) -> Option<StateView> {
    match e {
        ExprView::Call { callee, args, .. } => match member_of_local(*callee) {
            Some((id, name)) => if args.len() == 0 && name == "text"@ && states.contains_key(id) {
                Some(states[id])
            } else {
                None
            },
            None => None,
        },
        _ => None,
    }
}

/// The expression that the first statement with one returns or computes.
pub open spec fn first_expr(body: Seq<StmtView>) -> Option<ExprView>
    decreases body.len(),
{
    if body.len() == 0 {
        None
    } else {
        match body[0] {
            StmtView::Return(Some(e)) => Some(e),
            StmtView::Expr(e) => Some(e),
            _ => first_expr(body.skip(1)),
        }
    }
}

/// The variable of a loop: the first parameter of its closure.
pub open spec fn loop_param(callback: ExprView) -> Option<LocalId> {
    match callback {
        ExprView::Closure { params, .. } => if params.len() > 0 {
            Some(params[0].id)
        } else {
            None
        },
        _ => None,
    }
}

/// The widget in the body of a loop.
pub open spec fn loop_body(callback: ExprView) -> Option<ExprView> {
    match callback {
        ExprView::Closure { body, .. } => first_expr(body),
        _ => None,
    }
}

proof fn lemma_first_expr(body: Seq<StmtView>)
    ensures
        first_expr(body) matches Some(e) ==> decreases_to!(body => e),
    decreases body.len(),
{
    if body.len() > 0 {
        match body[0] {
            StmtView::Return(Some(e)) => {
                assert(decreases_to!(body => body[0]));
                assert(decreases_to!(body[0] => body[0]->Return_0));
            },
            StmtView::Expr(e) => {
                assert(decreases_to!(body => body[0]));
                assert(decreases_to!(body[0] => e));
            },
            _ => {
                lemma_first_expr(body.skip(1));
                assert(decreases_to!(body => body.skip(1)));
            },
        }
    }
}

/// The body of a loop is smaller than its closure.
pub proof fn lemma_loop_body_smaller(callback: ExprView)
    ensures
        loop_body(callback) matches Some(e) ==> decreases_to!(callback => e),
{
    match callback {
        ExprView::Closure { body, .. } => {
            lemma_first_expr(body);
            assert(decreases_to!(callback => body));
        },
        _ => {},
    }
}

// ---------------------------------------------------------------------------
// Texts of containers
// ---------------------------------------------------------------------------

/// The texts, one under the other, at the level.
pub open spec fn stacked(texts: Seq<Seq<char>>, level: nat) -> Seq<char> {
    join(texts.map_values(|t: Seq<char>| indented(t, levels(level))), "\n"@)
}

/// The space between the children of a stack: a number in front of the children or
/// behind them, or 8.
pub open spec fn stack_spacing(args: Seq<ExprView>) -> Seq<char> {
    if args.len() > 0 && numeric(args[0]) is Some {
        numeric_text(numeric(args[0])->0)
    } else if args.len() > 0 && (args[0] is Array || args[0] is ArrayMap) {
        numeric_or(at(args, 1), "8"@)
    } else {
        "8"@
    }
}

pub open spec fn stack_text(
    kind: Seq<char>,
    space: Seq<char>,
    texts: Seq<Seq<char>>,
    depth: nat,
) -> Seq<char> {
    kind + "({ space: "@ + space + " }) {\n"@ + stacked(texts, depth + 1) + "\n"@ + levels(depth)
        + "}"@
}

pub open spec fn scroll_text(texts: Seq<Seq<char>>, depth: nat) -> Seq<char> {
    "Scroll() {\n"@ + levels(depth + 1) + "Column({ space: 8 }) {\n"@ + stacked(texts, depth + 2)
        + "\n"@ + levels(depth + 1) + "}\n"@ + levels(depth) + "}"@
}

pub open spec fn section_text(title: Seq<char>, texts: Seq<Seq<char>>, depth: nat) -> Seq<char> {
    "Column({ space: 4 }) {\n"@ + levels(depth + 1) + "Text("@ + string_lit(title)
        + ").fontSize(14).fontColor('#888888')"@ + (if texts.len() == 0 {
        ""@
    } else {
        "\n"@ + stacked(texts, depth + 1)
    }) + "\n"@ + levels(depth) + "}"@
}

pub open spec fn eager_text(texts: Seq<Seq<char>>, depth: nat) -> Seq<char> {
    "// LazyVStack with explicit children: rendered eagerly as Column.\n"@ + levels(depth)
        + "// For real lazy rendering, pass `items.map(item => Widget)`.\n"@ + levels(depth)
        + "Column({ space: 8 }) {\n"@ + stacked(texts, depth + 1) + "\n"@ + levels(depth) + "}"@
}

pub open spec fn for_each_text(source: Seq<char>, body: Seq<char>, depth: nat) -> Seq<char> {
    "ForEach("@ + source + ", (__item: any) => {\n"@ + indented(body, levels(depth + 1)) + "\n"@
        + levels(depth) + "}, (__item: any) => __item)"@
}

pub open spec fn lazy_text(field: Seq<char>, body: Seq<char>, depth: nat) -> Seq<char> {
    "List() {\n"@ + levels(depth + 1) + "LazyForEach(this."@ + field + ", (__item: any) => {\n"@
        + levels(depth + 2) + "ListItem() {\n"@ + indented(body, levels(depth + 3)) + "\n"@
        + levels(depth + 2) + "}\n"@ + levels(depth + 1) + "}, (__item: any) => __item)\n"@
        + levels(depth) + "}"@
}

/// The page field of the `k`-th lazy list.
pub open spec fn lazy_field_id(k: nat) -> Seq<char> {
    "lazy_source_"@ + dec(k)
}

pub open spec fn invalid_tab_text(depth: nat) -> Seq<char> {
    levels(depth + 1) + "// tab spec wasn't an object\n"@ + levels(depth + 1)
        + "TabContent() {\n"@ + levels(depth + 1) + "    Text('[invalid tab]').fontSize(16)\n"@
        + levels(depth + 1) + "}.tabBar('?')"@
}

pub open spec fn tab_text(label: Seq<char>, body: Seq<char>, depth: nat) -> Seq<char> {
    levels(depth + 1) + "TabContent() {\n"@ + indented(body, levels(depth + 2)) + "\n"@ + levels(
        depth + 1,
    ) + "}.tabBar("@ + string_lit(label) + ")"@
}

pub open spec fn tabs_text(blocks: Seq<Seq<char>>, depth: nat) -> Seq<char> {
    "Tabs() {\n"@ + join(blocks, "\n"@) + "\n"@ + levels(depth) + "}"@
}

pub open spec fn grid_item_text(body: Seq<char>, depth: nat) -> Seq<char> {
    levels(depth + 1) + "GridItem() {\n"@ + indented(body, levels(depth + 2)) + "\n"@ + levels(
        depth + 1,
    ) + "}"@
}

/// The number of columns of a grid: 2 if none is given, and from 1 to 12.
pub open spec fn grid_columns(args: Seq<ExprView>) -> int {
    let given: int = match at(args, 0) {
        Some(e) => match numeric(e) {
            Some(NumericView::Float(n)) => truncated(n.bits),
            Some(NumericView::Whole(n)) => n as int,
            None => 2,
        },
        None => 2,
    };
    if given < 1 {
        1
    } else if given > 12 {
        12
    } else {
        given
    }
}

pub open spec fn grid_text(columns: nat, texts: Seq<Seq<char>>, depth: nat) -> Seq<char> {
    "Grid() {\n"@ + join(texts.map_values(|t: Seq<char>| grid_item_text(t, depth)), "\n"@) + "\n"@
        + levels(depth) + "}.columnsTemplate('"@ + join(Seq::new(columns, |i: int| "1fr"@), " "@)
        + "')"@
}

/// The modifiers of the style that the last argument gives.
pub open spec fn style_text(args: Seq<ExprView>, classes: Seq<ClassView>) -> Seq<char> {
    if args.len() == 0 {
        Seq::empty()
    } else {
        match object_props(args.last(), classes) {
            Some(props) => style_modifiers(props),
            None => Seq::empty(),
        }
    }
}

// ---------------------------------------------------------------------------
// The walk
// ---------------------------------------------------------------------------

/// The widget that an expression gives.
pub open spec fn widget(e: ExprView, env: EnvView, p: PlaceView, emit: EmitView, left: nat) -> Option<
    WidgetRun,
>
    decreases left, e, 2nat,
{
    if p.depth + 3 > usize::MAX {
        None
    } else {
        match state_text(e, env.states) {
            Some(s) => Some(
                WidgetRun {
                    text: "Text(this.text_"@ + sanitized(s.name) + ").fontSize(20)"@,
                    emit: EmitView { slots: emit.slots.push(slot_for(s.name, s.initial)), ..emit },
                },
            ),
            None => match e {
                ExprView::LocalGet(id) => if env.bindings.contains_key(id) {
                    if left == 0 {
                        None
                    } else {
                        shown(env.bindings[id], env, p, emit, (left - 1) as nat)
                    }
                } else {
                    shown(e, env, p, emit, left)
                },
                _ => shown(e, env, p, emit, left),
            },
        }
    }
}

/// The widget that the expression itself is: a call of a widget with its style, or
/// a loop. Anything else is noted in its place.
pub open spec fn shown(e: ExprView, env: EnvView, p: PlaceView, emit: EmitView, left: nat) -> Option<
    WidgetRun,
>
    decreases left, e, 1nat,
{
    match e {
        ExprView::NativeMethodCall { module, method, args, .. } => if module == "perry/ui"@ {
            match bare(method, args, env, p, emit, left) {
                Some(run) => Some(
                    WidgetRun { text: run.text + style_text(args, env.classes), ..run },
                ),
                None => None,
            }
        } else {
            Some(WidgetRun { text: UNRECOGNIZED@, emit })
        },
        ExprView::ArrayMap { .. } => for_each(e, env, p, emit, left),
        _ => Some(WidgetRun { text: UNRECOGNIZED@, emit }),
    }
}

/// A widget that registers callbacks only.
pub open spec fn with_callbacks(text: Seq<char>, callbacks: Seq<ExprView>, emit: EmitView) -> Option<
    WidgetRun,
> {
    Some(WidgetRun { text, emit: EmitView { callbacks, ..emit } })
}

/// The widget of a name, without its style.
pub open spec fn bare(
    name: Seq<char>,
    args: Seq<ExprView>,
    env: EnvView,
    p: PlaceView,
    emit: EmitView,
    left: nat,
) -> Option<WidgetRun>
    decreases left, args, 3nat,
{
    if name == "Text"@ {
        Some(
            WidgetRun {
                text: text_widget(args, p.locals),
                emit: EmitView {
                    slots: text_slots(args, emit.slots),
                    ..emit
                },
            },
        )
    } else if name == "VStack"@ {
        stack("Column"@, args, env, p, emit, left)
    } else if name == "HStack"@ {
        stack("Row"@, args, env, p, emit, left)
    } else if name == "Button"@ {
        with_callbacks(
            button(string_or(at(args, 0), "Button"@), at(args, 1), emit.callbacks),
            registered(at(args, 1), emit.callbacks),
            emit,
        )
    } else if name == "TextField"@ {
        with_callbacks(
            textfield(args, emit.callbacks),
            registered(at(args, 1), emit.callbacks),
            emit,
        )
    } else if name == "Toggle"@ {
        with_callbacks(toggle(args, emit.callbacks), registered(at(args, 1), emit.callbacks), emit)
    } else if name == "Slider"@ {
        with_callbacks(slider(args, emit.callbacks), registered(at(args, 2), emit.callbacks), emit)
    } else if name == "Spacer"@ {
        Some(WidgetRun { text: "Blank()"@, emit })
    } else if name == "Divider"@ {
        Some(WidgetRun { text: "Divider()"@, emit })
    } else if name == "Image"@ || name == "ImageFile"@ {
        Some(WidgetRun { text: image(args), emit })
    } else if name == "ScrollView"@ {
        scrollview(args, env, p, emit, left)
    } else if name == "LazyVStack"@ {
        lazy_vstack(args, env, p, emit, left)
    } else if name == "Picker"@ {
        with_callbacks(picker(args, emit.callbacks), registered(at(args, 1), emit.callbacks), emit)
    } else if name == "ProgressView"@ {
        Some(WidgetRun { text: progress(args), emit })
    } else if name == "Section"@ {
        section(args, env, p, emit, left)
    } else if name == "Tabs"@ {
        tabs(args, env, p, emit, left)
    } else if name == "Modal"@ || name == "Dialog"@ {
        Some(WidgetRun { text: MODAL@, emit })
    } else if name == "Menu"@ || name == "ContextMenu"@ {
        with_callbacks(
            menu(args, emit.callbacks),
            menu_items(menu_list(args), emit.callbacks).1,
            emit,
        )
    } else if name == "Grid"@ {
        grid(args, env, p, emit, left)
    } else {
        Some(WidgetRun { text: unsupported(name), emit })
    }
}

/// `ScrollView(children)`.
pub open spec fn scrollview(
    args: Seq<ExprView>,
    env: EnvView,
    p: PlaceView,
    emit: EmitView,
    left: nat,
) -> Option<WidgetRun>
    decreases left, args, 2nat,
{
    match kids_at(args, 0, env, deeper(p, 2), emit, left) {
        Some(run) => Some(WidgetRun { text: scroll_text(run.texts, p.depth), emit: run.emit }),
        None => None,
    }
}

/// `Section(title, children)`.
pub open spec fn section(
    args: Seq<ExprView>,
    env: EnvView,
    p: PlaceView,
    emit: EmitView,
    left: nat,
) -> Option<WidgetRun>
    decreases left, args, 2nat,
{
    match kids_at(args, 1, env, deeper(p, 1), emit, left) {
        Some(run) => Some(
            WidgetRun {
                text: section_text(string_or(at(args, 0), ""@), run.texts, p.depth),
                emit: run.emit,
            },
        ),
        None => None,
    }
}

/// The children that an argument gives, if it is there.
pub open spec fn kids_at(
    args: Seq<ExprView>,
    i: int,
    env: EnvView,
    p: PlaceView,
    emit: EmitView,
    left: nat,
) -> Option<ListRun>
    decreases left, args, 0nat,
{
    if 0 <= i < args.len() {
        kids(args[i], env, p, emit, left)
    } else {
        Some(ListRun { texts: Seq::empty(), emit })
    }
}

/// The children that an expression gives: the items of an array, or a loop. Other
/// expressions give none.
pub open spec fn kids(e: ExprView, env: EnvView, p: PlaceView, emit: EmitView, left: nat) -> Option<
    ListRun,
>
    decreases left, e, 3nat,
{
    match e {
        ExprView::Array(items) => widgets(items, items.len(), env, p, emit, left),
        ExprView::ArrayMap { .. } => match widget(e, env, p, emit, left) {
            Some(run) => Some(ListRun { texts: seq![run.text], emit: run.emit }),
            None => None,
        },
        _ => Some(ListRun { texts: Seq::empty(), emit }),
    }
}

/// The first `k` items as widgets, in order.
pub open spec fn widgets(
    items: Seq<ExprView>,
    k: nat,
    env: EnvView,
    p: PlaceView,
    emit: EmitView,
    left: nat,
) -> Option<ListRun>
    decreases left, items, k,
{
    if k == 0 || k > items.len() {
        Some(ListRun { texts: Seq::empty(), emit })
    } else {
        match widgets(items, (k - 1) as nat, env, p, emit, left) {
            Some(front) => match widget(items[k - 1], env, p, front.emit, left) {
                Some(run) => Some(
                    ListRun { texts: front.texts.push(run.text), emit: run.emit },
                ),
                None => None,
            },
            None => None,
        }
    }
}

/// `VStack` and `HStack`.
pub open spec fn stack(
    kind: Seq<char>,
    args: Seq<ExprView>,
    env: EnvView,
    p: PlaceView,
    emit: EmitView,
    left: nat,
) -> Option<WidgetRun>
    decreases left, args, 0nat,
{
    let i: int = if args.len() > 0 && numeric(args[0]) is Some {
        1
    } else {
        0
    };
    let run = if i < args.len() {
        if args[i] is Array || args[i] is ArrayMap {
            kids(args[i], env, deeper(p, 1), emit, left)
        } else {
            Some(ListRun { texts: seq![NOT_AN_ARRAY@], emit })
        }
    } else {
        Some(ListRun { texts: Seq::empty(), emit })
    };
    match run {
        Some(list) => Some(
            WidgetRun {
                text: stack_text(kind, stack_spacing(args), list.texts, p.depth),
                emit: list.emit,
            },
        ),
        None => None,
    }
}

/// A loop, `array.map(item => widget)`.
pub open spec fn for_each(e: ExprView, env: EnvView, p: PlaceView, emit: EmitView, left: nat) -> Option<
    WidgetRun,
>
    decreases left, e, 0nat,
{
    match e {
        ExprView::ArrayMap { array, callback } => {
            let source = array_source(*array, env.bindings);
            if loop_param(*callback) is Some && loop_body(*callback) is Some {
                proof {
                    lemma_loop_body_smaller(*callback);
                }
                match widget(
                    loop_body(*callback)->0,
                    env,
                    in_loop(p, loop_param(*callback)->0, 1),
                    emit,
                    left,
                ) {
                    Some(run) => Some(
                        WidgetRun { text: for_each_text(source, run.text, p.depth), ..run },
                    ),
                    None => None,
                }
            } else {
                Some(
                    WidgetRun {
                        text: for_each_text(
                            source,
                            "Text('[non-closure ForEach body]').fontSize(16).fontColor('#888888')"@,
                            p.depth,
                        ),
                        emit,
                    },
                )
            }
        },
        _ => None,
    }
}

/// `LazyVStack`: a loop becomes a lazy list with a data source of its own; a list of
/// children is shown as a column.
pub open spec fn lazy_vstack(
    args: Seq<ExprView>,
    env: EnvView,
    p: PlaceView,
    emit: EmitView,
    left: nat,
) -> Option<WidgetRun>
    decreases left, args, 0nat,
{
    if args.len() > 0 && args[0] is ArrayMap {
        lazy_list(args[0], env, p, emit, left)
    } else if args.len() > 0 && args[0] is Array {
        match kids(args[0], env, deeper(p, 1), emit, left) {
            Some(run) => Some(WidgetRun { text: eager_text(run.texts, p.depth), emit: run.emit }),
            None => None,
        }
    } else {
        Some(WidgetRun { text: eager_text(Seq::empty(), p.depth), emit })
    }
}

/// The lazy list for a body: its data source is registered behind those of the
/// lists inside the body.
pub open spec fn lazy_run(source: Seq<char>, body: WidgetRun, depth: nat) -> WidgetRun {
    let field = lazy_field_id(body.emit.lazies.len());
    WidgetRun {
        text: lazy_text(field, body.text, depth),
        emit: EmitView {
            lazies: body.emit.lazies.push(LazyView { field_id: field, items_source: source }),
            ..body.emit
        },
    }
}

/// A loop as a lazy list.
pub open spec fn lazy_list(e: ExprView, env: EnvView, p: PlaceView, emit: EmitView, left: nat) -> Option<
    WidgetRun,
>
    decreases left, e, 0nat,
{
    match e {
        ExprView::ArrayMap { array, callback } => {
            let source = array_source(*array, env.bindings);
            if loop_param(*callback) is None {
                Some(
                    lazy_run(
                        source,
                        WidgetRun {
                            text: "Text('[non-closure ForEach body]').fontSize(16)"@,
                            emit,
                        },
                        p.depth,
                    ),
                )
            } else if loop_body(*callback) is None {
                Some(
                    lazy_run(
                        source,
                        WidgetRun { text: "Text('[empty body]').fontSize(16)"@, emit },
                        p.depth,
                    ),
                )
            } else {
                proof {
                    lemma_loop_body_smaller(*callback);
                }
                match widget(
                    loop_body(*callback)->0,
                    env,
                    in_loop(p, loop_param(*callback)->0, 3),
                    emit,
                    left,
                ) {
                    Some(run) => Some(lazy_run(source, run, p.depth)),
                    None => None,
                }
            }
        },
        _ => None,
    }
}

/// `Tabs([{ label, body }, ..])`.
pub open spec fn tabs(
    args: Seq<ExprView>,
    env: EnvView,
    p: PlaceView,
    emit: EmitView,
    left: nat,
) -> Option<WidgetRun>
    decreases left, args, 0nat,
{
    if args.len() > 0 && args[0] is Array {
        match tab_list(args[0], env, p, emit, left) {
            Some(run) => Some(WidgetRun { text: tabs_text(run.texts, p.depth), emit: run.emit }),
            None => None,
        }
    } else {
        Some(WidgetRun { text: tabs_text(Seq::empty(), p.depth), emit })
    }
}

/// The tabs of an array literal.
pub open spec fn tab_list(e: ExprView, env: EnvView, p: PlaceView, emit: EmitView, left: nat) -> Option<
    ListRun,
>
    decreases left, e, 3nat,
{
    match e {
        ExprView::Array(items) => tab_blocks(items, items.len(), env, p, emit, left),
        _ => None,
    }
}

/// The first `k` tabs, in order.
pub open spec fn tab_blocks(
    items: Seq<ExprView>,
    k: nat,
    env: EnvView,
    p: PlaceView,
    emit: EmitView,
    left: nat,
) -> Option<ListRun>
    decreases left, items, k,
{
    if k == 0 || k > items.len() {
        Some(ListRun { texts: Seq::empty(), emit })
    } else {
        match tab_blocks(items, (k - 1) as nat, env, p, emit, left) {
            Some(front) => match tab(items[k - 1], env, p, front.emit, left) {
                Some(run) => Some(
                    ListRun { texts: front.texts.push(run.text), emit: run.emit },
                ),
                None => None,
            },
            None => None,
        }
    }
}

/// One tab.
pub open spec fn tab(e: ExprView, env: EnvView, p: PlaceView, emit: EmitView, left: nat) -> Option<
    WidgetRun,
>
    decreases left, e, 3nat,
{
    if object_props(e, env.classes) is None {
        Some(WidgetRun { text: invalid_tab_text(p.depth), emit })
    } else {
        let label = string_or(prop_in(e, env.classes, "label"@), "Tab"@);
        match prop_in(e, env.classes, "body"@) {
            Some(body) => {
                proof {
                    lemma_prop_smaller(e, env.classes, "body"@);
                }
                match widget(body, env, deeper(p, 2), emit, left) {
                    Some(run) => Some(
                        WidgetRun { text: tab_text(label, run.text, p.depth), ..run },
                    ),
                    None => None,
                }
            },
            None => Some(
                WidgetRun {
                    text: tab_text(label, "Text('[empty tab]').fontSize(16)"@, p.depth),
                    emit,
                },
            ),
        }
    }
}

/// `Grid(columns, items)`.
pub open spec fn grid(
    args: Seq<ExprView>,
    env: EnvView,
    p: PlaceView,
    emit: EmitView,
    left: nat,
) -> Option<WidgetRun>
    decreases left, args, 0nat,
{
    let run = if args.len() > 1 && args[1] is Array {
        kids(args[1], env, deeper(p, 2), emit, left)
    } else {
        Some(ListRun { texts: Seq::empty(), emit })
    };
    match run {
        Some(list) => Some(
            WidgetRun {
                text: grid_text(grid_columns(args) as nat, list.texts, p.depth),
                emit: list.emit,
            },
        ),
        None => None,
    }
}

// ---------------------------------------------------------------------------
// Execution
// ---------------------------------------------------------------------------

/// What widgets are looked up in.
pub struct Env<'a> {
    pub bindings: &'a HashMap<LocalId, Expr>,
    pub classes: &'a Vec<Class>,
    pub states: &'a HashMap<LocalId, StateBinding>,
}

impl<'a> Env<'a> {
    pub open spec fn view(self) -> EnvView {
        EnvView {
            bindings: exprs_map(self.bindings@),
            classes: classes_view(self.classes@),
            states: states_map(self.states@),
        }
    }
}

/// Where a widget stands.
pub struct Place {
    pub depth: usize,
    pub locals: Vec<LocalId>,
}

impl Place {
    pub open spec fn view(self) -> PlaceView {
        PlaceView { depth: self.depth as nat, locals: self.locals@ }
    }

    fn deeper(&self, k: usize) -> (r: Place)
        requires
            self.depth + k <= usize::MAX,
        ensures
            r@ == deeper(self@, k as nat),
    {
        Place { depth: self.depth + k, locals: copy_ids(&self.locals) }
    }

    fn in_loop(&self, id: LocalId, k: usize) -> (r: Place)
        requires
            self.depth + k <= usize::MAX,
        ensures
            r@ == in_loop(self@, id, k as nat),
    {
        let mut locals: Vec<LocalId> = copy_ids(&self.locals);
        locals.push(id);
        Place { depth: self.depth + k, locals }
    }
}

/// Whether a text, with what is registered after it, is the run.
pub open spec fn is_run(r: Option<String>, emit: EmitView, want: Option<WidgetRun>) -> bool {
    match r {
        Some(t) => want == Some(WidgetRun { text: t@, emit }),
        None => want is None,
    }
}

/// Whether texts, with what is registered after them, are the run.
pub open spec fn is_list(r: Option<Vec<String>>, emit: EmitView, want: Option<ListRun>) -> bool {
    match r {
        Some(v) => want == Some(ListRun { texts: strings_view(v@), emit }),
        None => want is None,
    }
}

fn find_state_text<'a>(e: &Expr, states: &'a HashMap<LocalId, StateBinding>) -> (r: Option<
    &'a StateBinding,
>)
    ensures
        (match r {
            Some(b) => Some(b@),
            None => None,
        }) == state_text(e@, states_map(states@)),
{
    match e {
        Expr::Call { callee, args, .. } => {
            let ghost all = exprs_view(args@);
            assert(all.len() == args@.len());
            match find_member_of_local(callee) {
                Some((id, name)) => {
                    if args.len() != 0 || !str_eq(name, "text") {
                        return None;
                    }
                    states.get(&id)
                },
                None => None,
            }
        },
        _ => None,
    }
}

fn find_first_expr(body: &Vec<Stmt>) -> (r: Option<&Expr>)
    ensures
        opt_ref_view(r) == first_expr(stmts_view(body@)),
        r matches Some(e) ==> decreases_to!(*body => *e),
{
    let ghost all = stmts_view(body@);
    let mut i: usize = 0;
    assert(all.skip(0) =~= all);
    while i < body.len()
        invariant
            i <= body@.len(),
            all == stmts_view(body@),
            all.len() == body@.len(),
            first_expr(all) == first_expr(all.skip(i as int)),
        decreases body@.len() - i,
    {
        let s: &Stmt = &body[i];
        assert(all.skip(i as int)[0] == s@);
        assert(all.skip(i as int).skip(1) =~= all.skip(i + 1));
        match s {
            Stmt::Return(Some(e)) => {
                return Some(e);
            },
            Stmt::Expr(e) => {
                return Some(e);
            },
            _ => {},
        }
        i += 1;
    }
    None
}

fn find_loop_param(callback: &Expr) -> (r: Option<LocalId>)
    ensures
        r == loop_param(callback@),
{
    match callback {
        Expr::Closure { params, .. } => {
            let ghost all = params_view(params@);
            assert(all.len() == params@.len());
            if params.len() > 0 {
                assert(all[0] == params@[0].view());
                Some(params[0].id)
            } else {
                None
            }
        },
        _ => None,
    }
}

fn find_loop_body(callback: &Expr) -> (r: Option<&Expr>)
    ensures
        opt_ref_view(r) == loop_body(callback@),
        r matches Some(e) ==> decreases_to!(*callback => *e),
{
    match callback {
        Expr::Closure { body, .. } => find_first_expr(body),
        _ => None,
    }
}

fn write_stacked(texts: &Vec<String>, level: usize) -> (r: String)
    ensures
        r@ == stacked(strings_view(texts@), level as nat),
{
    let ghost all = strings_view(texts@);
    let pad: String = pad_levels(level);
    let mut out: Vec<String> = Vec::new();
    let mut i: usize = 0;
    while i < texts.len()
        invariant
            i <= texts@.len(),
            pad@ == levels(level as nat),
            out@.len() == i,
            forall|j: int|
                0 <= j < i ==> (#[trigger] out@[j])@ == indented(texts@[j]@, levels(level as nat)),
        decreases texts@.len() - i,
    {
        out.push(indent(&texts[i], &pad));
        i += 1;
    }
    assert(strings_view(out@) =~= all.map_values(
        |t: Seq<char>| indented(t, levels(level as nat)),
    ));
    join_strings(&out, "\n")
}

fn write_spacing(args: &Vec<Expr>) -> (r: String)
    ensures
        r@ == stack_spacing(exprs_view(args@)),
{
    match arg_at(args, 0) {
        Some(e) => match numeric_expr(e) {
            Some(n) => n.text(),
            None => match e {
                Expr::Array(_) | Expr::ArrayMap { .. } => numeric_arg_or(args, 1, "8"),
                _ => "8".to_string(),
            },
        },
        None => "8".to_string(),
    }
}

fn write_stack(kind: &str, space: &str, texts: &Vec<String>, depth: usize) -> (r: String)
    requires
        depth + 1 <= usize::MAX,
    ensures
        r@ == stack_text(kind@, space@, strings_view(texts@), depth as nat),
{
    let mut out: String = kind.to_string();
    out.append("({ space: ");
    out.append(space);
    out.append(" }) {\n");
    out.append(&write_stacked(texts, depth + 1));
    out.append("\n");
    out.append(&pad_levels(depth));
    out.append("}");
    out
}

fn write_scroll(texts: &Vec<String>, depth: usize) -> (r: String)
    requires
        depth + 2 <= usize::MAX,
    ensures
        r@ == scroll_text(strings_view(texts@), depth as nat),
{
    let mid: String = pad_levels(depth + 1);
    let mut out: String = "Scroll() {\n".to_string();
    out.append(&mid);
    out.append("Column({ space: 8 }) {\n");
    out.append(&write_stacked(texts, depth + 2));
    out.append("\n");
    out.append(&mid);
    out.append("}\n");
    out.append(&pad_levels(depth));
    out.append("}");
    out
}

fn write_section(title: &str, texts: &Vec<String>, depth: usize) -> (r: String)
    requires
        depth + 1 <= usize::MAX,
    ensures
        r@ == section_text(title@, strings_view(texts@), depth as nat),
{
    let rest: String = if texts.len() == 0 {
        "".to_string()
    } else {
        let mut x: String = "\n".to_string();
        x.append(&write_stacked(texts, depth + 1));
        x
    };
    let mut out: String = "Column({ space: 4 }) {\n".to_string();
    out.append(&pad_levels(depth + 1));
    out.append("Text(");
    out.append(&arkts_string_lit(title));
    out.append(").fontSize(14).fontColor('#888888')");
    out.append(&rest);
    out.append("\n");
    out.append(&pad_levels(depth));
    out.append("}");
    out
}

fn write_eager(texts: &Vec<String>, depth: usize) -> (r: String)
    requires
        depth + 1 <= usize::MAX,
    ensures
        r@ == eager_text(strings_view(texts@), depth as nat),
{
    let outer: String = pad_levels(depth);
    let mut out: String =
        "// LazyVStack with explicit children: rendered eagerly as Column.\n".to_string();
    out.append(&outer);
    out.append("// For real lazy rendering, pass `items.map(item => Widget)`.\n");
    out.append(&outer);
    out.append("Column({ space: 8 }) {\n");
    out.append(&write_stacked(texts, depth + 1));
    out.append("\n");
    out.append(&outer);
    out.append("}");
    out
}

fn write_for_each(source: &str, body: &str, depth: usize) -> (r: String)
    requires
        depth + 1 <= usize::MAX,
    ensures
        r@ == for_each_text(source@, body@, depth as nat),
{
    let mut out: String = "ForEach(".to_string();
    out.append(source);
    out.append(", (__item: any) => {\n");
    out.append(&indent(body, &pad_levels(depth + 1)));
    out.append("\n");
    out.append(&pad_levels(depth));
    out.append("}, (__item: any) => __item)");
    out
}

fn write_lazy(field: &str, body: &str, depth: usize) -> (r: String)
    requires
        depth + 3 <= usize::MAX,
    ensures
        r@ == lazy_text(field@, body@, depth as nat),
{
    let inner: String = pad_levels(depth + 1);
    let mid: String = pad_levels(depth + 2);
    let mut out: String = "List() {\n".to_string();
    out.append(&inner);
    out.append("LazyForEach(this.");
    out.append(field);
    out.append(", (__item: any) => {\n");
    out.append(&mid);
    out.append("ListItem() {\n");
    out.append(&indent(body, &pad_levels(depth + 3)));
    out.append("\n");
    out.append(&mid);
    out.append("}\n");
    out.append(&inner);
    out.append("}, (__item: any) => __item)\n");
    out.append(&pad_levels(depth));
    out.append("}");
    out
}

/// Registers a lazy list; the result is the widget that shows it.
fn push_lazy(source: String, body: &str, depth: usize, emit: &mut Emit) -> (r: String)
    requires
        depth + 3 <= usize::MAX,
    ensures
        (WidgetRun { text: r@, emit: final(emit)@ }) == lazy_run(
            source@,
            WidgetRun { text: body@, emit: old(emit)@ },
            depth as nat,
        ),
{
    let mut field: String = "lazy_source_".to_string();
    field.append(&dec_text(emit.lazy_sources.len() as u64));
    let out: String = write_lazy(&field, body, depth);
    let ghost before = lazies_view(emit.lazy_sources@);
    let lazy = LazyDataSource { field_id: field, items_source: source };
    emit.lazy_sources.push(lazy);
    assert(lazies_view(emit.lazy_sources@) =~= before.push(lazy@));
    out
}

fn write_invalid_tab(depth: usize) -> (r: String)
    requires
        depth + 1 <= usize::MAX,
    ensures
        r@ == invalid_tab_text(depth as nat),
{
    let pad: String = pad_levels(depth + 1);
    let mut out: String = pad_levels(depth + 1);
    out.append("// tab spec wasn't an object\n");
    out.append(&pad);
    out.append("TabContent() {\n");
    out.append(&pad);
    out.append("    Text('[invalid tab]').fontSize(16)\n");
    out.append(&pad);
    out.append("}.tabBar('?')");
    out
}

fn write_tab(label: &str, body: &str, depth: usize) -> (r: String)
    requires
        depth + 2 <= usize::MAX,
    ensures
        r@ == tab_text(label@, body@, depth as nat),
{
    let mut out: String = pad_levels(depth + 1);
    out.append("TabContent() {\n");
    out.append(&indent(body, &pad_levels(depth + 2)));
    out.append("\n");
    out.append(&pad_levels(depth + 1));
    out.append("}.tabBar(");
    out.append(&arkts_string_lit(label));
    out.append(")");
    out
}

fn write_tabs(blocks: &Vec<String>, depth: usize) -> (r: String)
    ensures
        r@ == tabs_text(strings_view(blocks@), depth as nat),
{
    let mut out: String = "Tabs() {\n".to_string();
    out.append(&join_strings(blocks, "\n"));
    out.append("\n");
    out.append(&pad_levels(depth));
    out.append("}");
    out
}

fn write_grid_item(body: &str, depth: usize) -> (r: String)
    requires
        depth + 2 <= usize::MAX,
    ensures
        r@ == grid_item_text(body@, depth as nat),
{
    let mut out: String = pad_levels(depth + 1);
    out.append("GridItem() {\n");
    out.append(&indent(body, &pad_levels(depth + 2)));
    out.append("\n");
    out.append(&pad_levels(depth + 1));
    out.append("}");
    out
}

fn columns_of(args: &Vec<Expr>) -> (r: i64)
    ensures
        r == grid_columns(exprs_view(args@)),
        1 <= r <= 12,
{
    let given: i64 = match arg_at(args, 0) {
        Some(e) => match numeric_expr(e) {
            Some(Numeric::Float(n)) => truncate(n.bits),
            Some(Numeric::Whole(n)) => n,
            None => 2,
        },
        None => 2,
    };
    if given < 1 {
        1
    } else if given > 12 {
        12
    } else {
        given
    }
}

fn write_grid(columns: i64, texts: &Vec<String>, depth: usize) -> (r: String)
    requires
        depth + 2 <= usize::MAX,
        1 <= columns <= 12,
    ensures
        r@ == grid_text(columns as nat, strings_view(texts@), depth as nat),
{
    let mut items: Vec<String> = Vec::new();
    let mut i: usize = 0;
    while i < texts.len()
        invariant
            i <= texts@.len(),
            depth + 2 <= usize::MAX,
            items@.len() == i,
            forall|j: int|
                0 <= j < i ==> (#[trigger] items@[j])@ == grid_item_text(texts@[j]@, depth as nat),
        decreases texts@.len() - i,
    {
        items.push(write_grid_item(&texts[i], depth));
        i += 1;
    }
    assert(strings_view(items@) =~= strings_view(texts@).map_values(
        |t: Seq<char>| grid_item_text(t, depth as nat),
    ));
    let mut template: Vec<String> = Vec::new();
    let mut k: i64 = 0;
    while k < columns
        invariant
            0 <= k <= columns <= 12,
            template@.len() == k,
            forall|j: int| 0 <= j < k ==> (#[trigger] template@[j])@ == "1fr"@,
        decreases columns - k,
    {
        template.push("1fr".to_string());
        k += 1;
    }
    assert(strings_view(template@) =~= Seq::new(columns as nat, |i: int| "1fr"@));
    let mut out: String = "Grid() {\n".to_string();
    out.append(&join_strings(&items, "\n"));
    out.append("\n");
    out.append(&pad_levels(depth));
    out.append("}.columnsTemplate('");
    out.append(&join_strings(&template, " "));
    out.append("')");
    out
}

fn write_style(args: &Vec<Expr>, classes: &Vec<Class>) -> (r: String)
    ensures
        r@ == style_text(exprs_view(args@), classes_view(classes@)),
{
    if args.len() > 0 {
        assert(exprs_view(args@).last() == args@[args@.len() - 1].view());
        match extract_style_object(&args[args.len() - 1], classes) {
            Some(props) => {
                return emit_style_modifiers(&props);
            },
            None => {},
        }
    }
    let none: String = String::new();
    assert(none@ =~= Seq::empty());
    none
}

fn no_texts() -> (r: Vec<String>)
    ensures
        strings_view(r@) == Seq::<Seq<char>>::empty(),
{
    let r: Vec<String> = Vec::new();
    assert(strings_view(r@) =~= Seq::<Seq<char>>::empty());
    r
}

fn one_text(t: String) -> (r: Vec<String>)
    ensures
        strings_view(r@) == seq![t@],
{
    let mut r: Vec<String> = Vec::new();
    r.push(t);
    assert(strings_view(r@) =~= seq![t@]);
    r
}

/// Emits the ArkUI source of a widget. Closures are added to the callbacks, and the
/// handlers name them by their positions there; reactive texts and lazy lists are
/// registered for the page. What is not known is noted in place; nothing is an
/// error. There is no result where `left` bindings do not suffice.
pub fn emit_widget(e: &Expr, env: &Env, p: &Place, emit: &mut Emit, left: usize) -> (r: Option<
    String,
>)
    ensures
        is_run(r, final(emit)@, widget(e@, env@, p@, old(emit)@, left as nat)),
    decreases left, e, 2nat,
{
    if p.depth > usize::MAX - 3 {
        return None;
    }
    match find_state_text(e, env.states) {
        Some(b) => {
            return Some(push_slot(&b.synth_id, &b.initial_str, &mut emit.text_slots));
        },
        None => {},
    }
    match e {
        Expr::LocalGet(id) => match env.bindings.get(id) {
            Some(bound) => if left == 0 {
                None
            } else {
                emit_shown(bound, env, p, emit, left - 1)
            },
            None => emit_shown(e, env, p, emit, left),
        },
        _ => emit_shown(e, env, p, emit, left),
    }
}

fn emit_shown(e: &Expr, env: &Env, p: &Place, emit: &mut Emit, left: usize) -> (r: Option<String>)
    requires
        p.depth + 3 <= usize::MAX,
    ensures
        is_run(r, final(emit)@, shown(e@, env@, p@, old(emit)@, left as nat)),
    decreases left, e, 1nat,
{
    match e {
        Expr::NativeMethodCall { module, method, args, .. } => {
            if !str_eq(module, "perry/ui") {
                return Some(UNRECOGNIZED.to_string());
            }
            match emit_bare(method, args, env, p, emit, left) {
                Some(text) => {
                    let mut out: String = text;
                    out.append(&write_style(args, env.classes));
                    Some(out)
                },
                None => None,
            }
        },
        Expr::ArrayMap { .. } => emit_for_each(e, env, p, emit, left),
        _ => Some(UNRECOGNIZED.to_string()),
    }
}

fn emit_bare(
    name: &String,
    args: &Vec<Expr>,
    env: &Env,
    p: &Place,
    emit: &mut Emit,
    left: usize,
) -> (r: Option<String>)
    requires
        p.depth + 3 <= usize::MAX,
    ensures
        is_run(r, final(emit)@, bare(name@, exprs_view(args@), env@, p@, old(emit)@, left as nat)),
    decreases left, args, 3nat,
{
    if str_eq(name, "Text") {
        Some(emit_text(args, &mut emit.text_slots, &p.locals))
    } else if str_eq(name, "VStack") {
        emit_stack("Column", args, env, p, emit, left)
    } else if str_eq(name, "HStack") {
        emit_stack("Row", args, env, p, emit, left)
    } else if str_eq(name, "Button") {
        Some(emit_button(args, &mut emit.callbacks))
    } else if str_eq(name, "TextField") {
        Some(emit_textfield(args, &mut emit.callbacks))
    } else if str_eq(name, "Toggle") {
        Some(emit_toggle(args, &mut emit.callbacks))
    } else if str_eq(name, "Slider") {
        Some(emit_slider(args, &mut emit.callbacks))
    } else if str_eq(name, "Spacer") {
        Some("Blank()".to_string())
    } else if str_eq(name, "Divider") {
        Some("Divider()".to_string())
    } else if str_eq(name, "Image") || str_eq(name, "ImageFile") {
        Some(emit_image(args))
    } else if str_eq(name, "ScrollView") {
        emit_scrollview(args, env, p, emit, left)
    } else if str_eq(name, "LazyVStack") {
        emit_lazy_vstack(args, env, p, emit, left)
    } else if str_eq(name, "Picker") {
        Some(emit_picker(args, &mut emit.callbacks))
    } else if str_eq(name, "ProgressView") {
        Some(emit_progressview(args))
    } else if str_eq(name, "Section") {
        emit_section(args, env, p, emit, left)
    } else if str_eq(name, "Tabs") {
        emit_tabs(args, env, p, emit, left)
    } else if str_eq(name, "Modal") || str_eq(name, "Dialog") {
        Some(emit_modal())
    } else if str_eq(name, "Menu") || str_eq(name, "ContextMenu") {
        Some(emit_menu(args, &mut emit.callbacks))
    } else if str_eq(name, "Grid") {
        emit_grid(args, env, p, emit, left)
    } else {
        Some(emit_unsupported(name))
    }
}

/// The children at an argument.
fn emit_kids_at(
    args: &Vec<Expr>,
    i: usize,
    env: &Env,
    p: &Place,
    emit: &mut Emit,
    left: usize,
) -> (r: Option<Vec<String>>)
    ensures
        is_list(
            r,
            final(emit)@,
            kids_at(exprs_view(args@), i as int, env@, p@, old(emit)@, left as nat),
        ),
    decreases left, args, 0nat,
{
    match arg_at(args, i) {
        Some(e) => emit_kids(e, env, p, emit, left),
        None => Some(no_texts()),
    }
}

fn emit_kids(e: &Expr, env: &Env, p: &Place, emit: &mut Emit, left: usize) -> (r: Option<
    Vec<String>,
>)
    ensures
        is_list(r, final(emit)@, kids(e@, env@, p@, old(emit)@, left as nat)),
    decreases left, e, 3nat,
{
    match e {
        Expr::Array(items) => emit_items(items, env, p, emit, left),
        Expr::ArrayMap { .. } => match emit_widget(e, env, p, emit, left) {
            Some(t) => Some(one_text(t)),
            None => None,
        },
        _ => Some(no_texts()),
    }
}

proof fn lemma_widgets_stop(
    items: Seq<ExprView>,
    j: nat,
    k: nat,
    env: EnvView,
    p: PlaceView,
    emit: EmitView,
    left: nat,
)
    requires
        j <= k <= items.len(),
        widgets(items, j, env, p, emit, left) is None,
    ensures
        widgets(items, k, env, p, emit, left) is None,
    decreases k,
{
    if j < k {
        lemma_widgets_stop(items, j, (k - 1) as nat, env, p, emit, left);
    }
}

fn emit_items(items: &Vec<Expr>, env: &Env, p: &Place, emit: &mut Emit, left: usize) -> (r: Option<
    Vec<String>,
>)
    ensures
        is_list(
            r,
            final(emit)@,
            widgets(
                exprs_view(items@),
                exprs_view(items@).len(),
                env@,
                p@,
                old(emit)@,
                left as nat,
            ),
        ),
    decreases left, items, 0nat,
{
    let ghost all = exprs_view(items@);
    let ghost start = emit@;
    let mut out: Vec<String> = no_texts();
    let mut k: usize = 0;
    while k < items.len()
        invariant
            k <= items@.len(),
            all == exprs_view(items@),
            all.len() == items@.len(),
            start == old(emit)@,
            widgets(all, k as nat, env@, p@, start, left as nat) == Some(
                ListRun { texts: strings_view(out@), emit: emit@ },
            ),
        decreases items@.len() - k,
    {
        assert(all[k as int] == items@[k as int].view());
        match emit_widget(&items[k], env, p, emit, left) {
            Some(t) => {
                let ghost before = strings_view(out@);
                out.push(t);
                assert(strings_view(out@) =~= before.push(t@));
            },
            None => {
                proof {
                    lemma_widgets_stop(
                        all,
                        (k + 1) as nat,
                        all.len(),
                        env@,
                        p@,
                        start,
                        left as nat,
                    );
                }
                return None;
            },
        }
        k += 1;
    }
    Some(out)
}

/// `VStack` and `HStack`: an array of children, with the spacing in front of it or
/// behind it; without a spacing it is 8.
fn emit_stack(
    kind: &str,
    args: &Vec<Expr>,
    env: &Env,
    p: &Place,
    emit: &mut Emit,
    left: usize,
) -> (r: Option<String>)
    requires
        p.depth + 3 <= usize::MAX,
    ensures
        is_run(
            r,
            final(emit)@,
            stack(kind@, exprs_view(args@), env@, p@, old(emit)@, left as nat),
        ),
    decreases left, args, 0nat,
{
    let space: String = write_spacing(args);
    let i: usize = match arg_at(args, 0) {
        Some(e) => if numeric_expr(e).is_some() {
            1
        } else {
            0
        },
        None => 0,
    };
    let texts: Vec<String> = match arg_at(args, i) {
        Some(e) => match e {
            Expr::Array(_) | Expr::ArrayMap { .. } => {
                let inner = p.deeper(1);
                match emit_kids(e, env, &inner, emit, left) {
                    Some(v) => v,
                    None => {
                        return None;
                    },
                }
            },
            _ => one_text(NOT_AN_ARRAY.to_string()),
        },
        None => no_texts(),
    };
    Some(write_stack(kind, &space, &texts, p.depth))
}

/// `ScrollView(children)`: a column inside a scroll area.
fn emit_scrollview(args: &Vec<Expr>, env: &Env, p: &Place, emit: &mut Emit, left: usize) -> (r: Option<
    String,
>)
    requires
        p.depth + 3 <= usize::MAX,
    ensures
        is_run(
            r,
            final(emit)@,
            scrollview(exprs_view(args@), env@, p@, old(emit)@, left as nat),
        ),
    decreases left, args, 2nat,
{
    let inner = p.deeper(2);
    match emit_kids_at(args, 0, env, &inner, emit, left) {
        Some(texts) => Some(write_scroll(&texts, p.depth)),
        None => None,
    }
}

/// `Section(title, children)`: the children under a small grey title.
fn emit_section(args: &Vec<Expr>, env: &Env, p: &Place, emit: &mut Emit, left: usize) -> (r: Option<
    String,
>)
    requires
        p.depth + 3 <= usize::MAX,
    ensures
        is_run(r, final(emit)@, section(exprs_view(args@), env@, p@, old(emit)@, left as nat)),
    decreases left, args, 2nat,
{
    let title: String = text_or(arg_at(args, 0), "");
    let inner = p.deeper(1);
    match emit_kids_at(args, 1, env, &inner, emit, left) {
        Some(texts) => Some(write_section(&title, &texts, p.depth)),
        None => None,
    }
}

/// A loop: `ForEach` over the array, with the closure's body for each item.
fn emit_for_each(e: &Expr, env: &Env, p: &Place, emit: &mut Emit, left: usize) -> (r: Option<
    String,
>)
    requires
        p.depth + 3 <= usize::MAX,
    ensures
        is_run(r, final(emit)@, for_each(e@, env@, p@, old(emit)@, left as nat)),
    decreases left, e, 0nat,
{
    match e {
        Expr::ArrayMap { array, callback } => {
            let source: String = arkts_array_source(array, env.bindings);
            let param: Option<LocalId> = find_loop_param(callback);
            match (param, find_loop_body(callback)) {
                (Some(id), Some(body)) => {
                    let inner = p.in_loop(id, 1);
                    match emit_widget(body, env, &inner, emit, left) {
                        Some(t) => Some(write_for_each(&source, &t, p.depth)),
                        None => None,
                    }
                },
                _ => Some(
                    write_for_each(
                        &source,
                        "Text('[non-closure ForEach body]').fontSize(16).fontColor('#888888')",
                        p.depth,
                    ),
                ),
            }
        },
        _ => None,
    }
}

/// `LazyVStack(items.map(item => widget))`: a lazy list with a data source of its
/// own. With an array of children it is a column.
fn emit_lazy_vstack(args: &Vec<Expr>, env: &Env, p: &Place, emit: &mut Emit, left: usize) -> (r: Option<
    String,
>)
    requires
        p.depth + 3 <= usize::MAX,
    ensures
        is_run(r, final(emit)@, lazy_vstack(exprs_view(args@), env@, p@, old(emit)@, left as nat)),
    decreases left, args, 0nat,
{
    match arg_at(args, 0) {
        Some(e) => match e {
            Expr::ArrayMap { .. } => emit_lazy_list(e, env, p, emit, left),
            Expr::Array(_) => {
                let inner = p.deeper(1);
                match emit_kids(e, env, &inner, emit, left) {
                    Some(texts) => Some(write_eager(&texts, p.depth)),
                    None => None,
                }
            },
            _ => Some(write_eager(&no_texts(), p.depth)),
        },
        None => Some(write_eager(&no_texts(), p.depth)),
    }
}

fn emit_lazy_list(e: &Expr, env: &Env, p: &Place, emit: &mut Emit, left: usize) -> (r: Option<
    String,
>)
    requires
        p.depth + 3 <= usize::MAX,
    ensures
        is_run(r, final(emit)@, lazy_list(e@, env@, p@, old(emit)@, left as nat)),
    decreases left, e, 0nat,
{
    match e {
        Expr::ArrayMap { array, callback } => {
            let source: String = arkts_array_source(array, env.bindings);
            match find_loop_param(callback) {
                Some(id) => match find_loop_body(callback) {
                    Some(body) => {
                        let inner = p.in_loop(id, 3);
                        match emit_widget(body, env, &inner, emit, left) {
                            Some(t) => Some(push_lazy(source, &t, p.depth, emit)),
                            None => None,
                        }
                    },
                    None => Some(
                        push_lazy(source, "Text('[empty body]').fontSize(16)", p.depth, emit),
                    ),
                },
                None => Some(
                    push_lazy(
                        source,
                        "Text('[non-closure ForEach body]').fontSize(16)",
                        p.depth,
                        emit,
                    ),
                ),
            }
        },
        _ => None,
    }
}

/// `Tabs([{ label, body }, ..])`: the content of each tab, with its label.
fn emit_tabs(args: &Vec<Expr>, env: &Env, p: &Place, emit: &mut Emit, left: usize) -> (r: Option<
    String,
>)
    requires
        p.depth + 3 <= usize::MAX,
    ensures
        is_run(r, final(emit)@, tabs(exprs_view(args@), env@, p@, old(emit)@, left as nat)),
    decreases left, args, 0nat,
{
    match arg_at(args, 0) {
        Some(e) => match e {
            Expr::Array(_) => match emit_tab_list(e, env, p, emit, left) {
                Some(blocks) => Some(write_tabs(&blocks, p.depth)),
                None => None,
            },
            _ => Some(write_tabs(&no_texts(), p.depth)),
        },
        None => Some(write_tabs(&no_texts(), p.depth)),
    }
}

proof fn lemma_tabs_stop(
    items: Seq<ExprView>,
    j: nat,
    k: nat,
    env: EnvView,
    p: PlaceView,
    emit: EmitView,
    left: nat,
)
    requires
        j <= k <= items.len(),
        tab_blocks(items, j, env, p, emit, left) is None,
    ensures
        tab_blocks(items, k, env, p, emit, left) is None,
    decreases k,
{
    if j < k {
        lemma_tabs_stop(items, j, (k - 1) as nat, env, p, emit, left);
    }
}

fn emit_tab_list(e: &Expr, env: &Env, p: &Place, emit: &mut Emit, left: usize) -> (r: Option<
    Vec<String>,
>)
    requires
        p.depth + 3 <= usize::MAX,
    ensures
        is_list(r, final(emit)@, tab_list(e@, env@, p@, old(emit)@, left as nat)),
    decreases left, e, 3nat,
{
    match e {
        Expr::Array(items) => emit_tab_blocks(items, env, p, emit, left),
        _ => None,
    }
}

fn emit_tab_blocks(items: &Vec<Expr>, env: &Env, p: &Place, emit: &mut Emit, left: usize) -> (r: Option<
    Vec<String>,
>)
    requires
        p.depth + 3 <= usize::MAX,
    ensures
        is_list(
            r,
            final(emit)@,
            tab_blocks(
                exprs_view(items@),
                exprs_view(items@).len(),
                env@,
                p@,
                old(emit)@,
                left as nat,
            ),
        ),
    decreases left, items, 0nat,
{
    let ghost all = exprs_view(items@);
    let ghost start = emit@;
    let mut out: Vec<String> = no_texts();
    let mut k: usize = 0;
    while k < items.len()
        invariant
            k <= items@.len(),
            p.depth + 3 <= usize::MAX,
            all == exprs_view(items@),
            all.len() == items@.len(),
            start == old(emit)@,
            tab_blocks(all, k as nat, env@, p@, start, left as nat) == Some(
                ListRun { texts: strings_view(out@), emit: emit@ },
            ),
        decreases items@.len() - k,
    {
        assert(all[k as int] == items@[k as int].view());
        match emit_tab(&items[k], env, p, emit, left) {
            Some(t) => {
                let ghost before = strings_view(out@);
                out.push(t);
                assert(strings_view(out@) =~= before.push(t@));
            },
            None => {
                proof {
                    lemma_tabs_stop(all, (k + 1) as nat, all.len(), env@, p@, start, left as nat);
                }
                return None;
            },
        }
        k += 1;
    }
    Some(out)
}

fn emit_tab(e: &Expr, env: &Env, p: &Place, emit: &mut Emit, left: usize) -> (r: Option<String>)
    requires
        p.depth + 3 <= usize::MAX,
    ensures
        is_run(r, final(emit)@, tab(e@, env@, p@, old(emit)@, left as nat)),
    decreases left, e, 3nat,
{
    if !is_object(e, env.classes) {
        return Some(write_invalid_tab(p.depth));
    }
    let label: String = text_or(object_prop(e, env.classes, "label"), "Tab");
    match object_prop(e, env.classes, "body") {
        Some(body) => {
            let inner = p.deeper(2);
            match emit_widget(body, env, &inner, emit, left) {
                Some(t) => Some(write_tab(&label, &t, p.depth)),
                None => None,
            }
        },
        None => Some(write_tab(&label, "Text('[empty tab]').fontSize(16)", p.depth)),
    }
}

/// `Grid(columns, items)`: each item in a cell of its own.
fn emit_grid(args: &Vec<Expr>, env: &Env, p: &Place, emit: &mut Emit, left: usize) -> (r: Option<
    String,
>)
    requires
        p.depth + 3 <= usize::MAX,
    ensures
        is_run(r, final(emit)@, grid(exprs_view(args@), env@, p@, old(emit)@, left as nat)),
    decreases left, args, 0nat,
{
    let columns: i64 = columns_of(args);
    let texts: Vec<String> = match arg_at(args, 1) {
        Some(e) => match e {
            Expr::Array(_) => {
                let inner = p.deeper(2);
                match emit_kids(e, env, &inner, emit, left) {
                    Some(v) => v,
                    None => {
                        return None;
                    },
                }
            },
            _ => no_texts(),
        },
        None => no_texts(),
    };
    Some(write_grid(columns, &texts, p.depth))
}

} // verus!
