//! A page refers to all that its widgets have registered.

use crate::arkts::harvest::{app_body, app_index, const_bindings, harvest, with_states, HarvestView};
use crate::arkts::laws::{
    lemma_bare, lemma_keeps_same, lemma_kids, lemma_kids_at, lemma_prefix_push, lemma_tab,
    lemma_tab_blocks, lemma_tab_list, lemma_widget, lemma_widgets, sound,
};
use crate::arkts::leaf::{string_or, EmitView};
use crate::arkts::literal::string_lit;
use crate::arkts::occurs::{
    lemma_occurs_left, lemma_occurs_right, lemma_occurs_self, occurs, split_at,
};
use crate::arkts::page::{
    apply_method, lazy_field, lazy_fields, page, slot_case, slot_cases, slot_field, slot_fields,
    slot_for, LazyView, SlotView, LAZY_CLASS, PAGE_HEAD,
};
use crate::arkts::refs::{
    called, carries, lemma_button_refers, lemma_carries_between, lemma_carries_each,
    lemma_carries_indented, lemma_carries_join, lemma_carries_push, lemma_carries_stacked,
    lemma_carries_trans, lemma_field_refers, lemma_menu_refers, lemma_occurs_alone,
    lemma_picker_refers, lemma_refers_carried, lemma_refers_then, lemma_slider_refers,
    lemma_slot_refers, lemma_text_refers, lemma_toggle_refers, list_ref, refers,
};
use crate::arkts::state::state_registry;
use crate::arkts::value::{array_source, at, lemma_prop_smaller, numeric, object_props, prop_in};
use crate::arkts::widget::{
    bare, deeper, eager_text, for_each, for_each_text, grid, grid_columns, grid_item_text,
    grid_text, in_loop, kids, kids_at, lazy_field_id, lazy_list, lazy_run, lazy_text, lazy_vstack,
    lemma_loop_body_smaller, loop_body, loop_param, scroll_text, scrollview, section, section_text,
    shown, stack, stack_spacing, stack_text, stacked, state_text, style_text, tab, tab_blocks,
    tab_list, tab_text, tabs, tabs_text, widget, widgets, EnvView, PlaceView, WidgetRun,
};
use crate::model::{ExprView, ModuleView};
use crate::text::{indented, join, levels};
use vstd::prelude::*;

verus! {

// ---------------------------------------------------------------------------
// Containers
// ---------------------------------------------------------------------------

/// A container that puts the stacked texts between two others.
proof fn lemma_carries_column(
    texts: Seq<Seq<char>>,
    level: nat,
    a: Seq<char>,
    b: Seq<char>,
    whole: Seq<char>,
)
    requires
        whole == a + stacked(texts, level) + b,
    ensures
        carries(texts, seq![whole]),
{
    lemma_carries_stacked(texts, level);
    lemma_carries_between(a, stacked(texts, level), b);
    lemma_carries_trans(texts, seq![stacked(texts, level)], seq![whole]);
}

/// A container that puts an indented text between two others.
proof fn lemma_carries_block(
    text: Seq<char>,
    pad: Seq<char>,
    a: Seq<char>,
    b: Seq<char>,
    whole: Seq<char>,
)
    requires
        whole == a + indented(text, pad) + b,
    ensures
        carries(seq![text], seq![whole]),
{
    lemma_carries_indented(text, pad);
    lemma_carries_between(a, indented(text, pad), b);
    lemma_carries_trans(seq![text], seq![indented(text, pad)], seq![whole]);
}

proof fn lemma_carries_stack(kind: Seq<char>, space: Seq<char>, texts: Seq<Seq<char>>, depth: nat)
    ensures
        carries(texts, seq![stack_text(kind, space, texts, depth)]),
{
    let whole = stack_text(kind, space, texts, depth);
    let a = kind + "({ space: "@ + space + " }) {\n"@;
    let b = "\n"@ + levels(depth) + "}"@;
    assert(whole =~= a + stacked(texts, depth + 1) + b);
    lemma_carries_column(texts, depth + 1, a, b, whole);
}

proof fn lemma_carries_scroll(texts: Seq<Seq<char>>, depth: nat)
    ensures
        carries(texts, seq![scroll_text(texts, depth)]),
{
    let whole = scroll_text(texts, depth);
    let a = "Scroll() {\n"@ + levels(depth + 1) + "Column({ space: 8 }) {\n"@;
    let b = "\n"@ + levels(depth + 1) + "}\n"@ + levels(depth) + "}"@;
    assert(whole =~= a + stacked(texts, depth + 2) + b);
    lemma_carries_column(texts, depth + 2, a, b, whole);
}

proof fn lemma_carries_section(title: Seq<char>, texts: Seq<Seq<char>>, depth: nat)
    ensures
        carries(texts, seq![section_text(title, texts, depth)]),
{
    if texts.len() > 0 {
        let whole = section_text(title, texts, depth);
        let a = "Column({ space: 4 }) {\n"@ + levels(depth + 1) + "Text("@ + string_lit(title)
            + ").fontSize(14).fontColor('#888888')"@ + "\n"@;
        let b = "\n"@ + levels(depth) + "}"@;
        assert(whole =~= a + stacked(texts, depth + 1) + b);
        lemma_carries_column(texts, depth + 1, a, b, whole);
    }
}

proof fn lemma_carries_eager(texts: Seq<Seq<char>>, depth: nat)
    ensures
        carries(texts, seq![eager_text(texts, depth)]),
{
    let whole = eager_text(texts, depth);
    let a = "// LazyVStack with explicit children: rendered eagerly as Column.\n"@ + levels(depth)
        + "// For real lazy rendering, pass `items.map(item => Widget)`.\n"@ + levels(depth)
        + "Column({ space: 8 }) {\n"@;
    let b = "\n"@ + levels(depth) + "}"@;
    assert(whole =~= a + stacked(texts, depth + 1) + b);
    lemma_carries_column(texts, depth + 1, a, b, whole);
}

proof fn lemma_carries_for_each(source: Seq<char>, body: Seq<char>, depth: nat)
    ensures
        carries(seq![body], seq![for_each_text(source, body, depth)]),
{
    let whole = for_each_text(source, body, depth);
    let a = "ForEach("@ + source + ", (__item: any) => {\n"@;
    let b = "\n"@ + levels(depth) + "}, (__item: any) => __item)"@;
    assert(whole =~= a + indented(body, levels(depth + 1)) + b);
    lemma_carries_block(body, levels(depth + 1), a, b, whole);
}

proof fn lemma_carries_lazy(field: Seq<char>, body: Seq<char>, depth: nat)
    ensures
        carries(seq![body], seq![lazy_text(field, body, depth)]),
        occurs(list_ref(field), lazy_text(field, body, depth)),
{
    let whole = lazy_text(field, body, depth);
    let lead = "List() {\n"@ + levels(depth + 1);
    let a = lead + "LazyForEach(this."@ + field + ", (__item: any) => {\n"@ + levels(depth + 2)
        + "ListItem() {\n"@;
    let b = "\n"@ + levels(depth + 2) + "}\n"@ + levels(depth + 1)
        + "}, (__item: any) => __item)\n"@ + levels(depth) + "}"@;
    assert(whole =~= a + indented(body, levels(depth + 3)) + b);
    lemma_carries_block(body, levels(depth + 3), a, b, whole);
    reveal_strlit(", (__item: any) => {\n");
    reveal_strlit(",");
    reveal_strlit(" (__item: any) => {\n");
    let rest = " (__item: any) => {\n"@ + levels(depth + 2) + "ListItem() {\n"@ + indented(
        body,
        levels(depth + 3),
    ) + b;
    assert(", (__item: any) => {\n"@ =~= ","@ + " (__item: any) => {\n"@);
    assert(whole =~= lead + list_ref(field) + rest);
    assert(split_at(list_ref(field), whole, lead, rest));
}

proof fn lemma_carries_tab(label: Seq<char>, body: Seq<char>, depth: nat)
    ensures
        carries(seq![body], seq![tab_text(label, body, depth)]),
{
    let whole = tab_text(label, body, depth);
    let a = levels(depth + 1) + "TabContent() {\n"@;
    let b = "\n"@ + levels(depth + 1) + "}.tabBar("@ + string_lit(label) + ")"@;
    assert(whole =~= a + indented(body, levels(depth + 2)) + b);
    lemma_carries_block(body, levels(depth + 2), a, b, whole);
}

proof fn lemma_carries_tabs(blocks: Seq<Seq<char>>, depth: nat)
    ensures
        carries(blocks, seq![tabs_text(blocks, depth)]),
{
    let whole = tabs_text(blocks, depth);
    let joined = join(blocks, "\n"@);
    let b = "\n"@ + levels(depth) + "}"@;
    assert(whole =~= "Tabs() {\n"@ + joined + b);
    lemma_carries_join(blocks, "\n"@);
    lemma_carries_between("Tabs() {\n"@, joined, b);
    lemma_carries_trans(blocks, seq![joined], seq![whole]);
}

proof fn lemma_carries_grid(columns: nat, texts: Seq<Seq<char>>, depth: nat)
    ensures
        carries(texts, seq![grid_text(columns, texts, depth)]),
{
    let whole = grid_text(columns, texts, depth);
    let each = texts.map_values(|t: Seq<char>| grid_item_text(t, depth));
    assert forall|i: int| 0 <= i < texts.len() implies carries(
        seq![#[trigger] texts[i]],
        seq![each[i]],
    ) by {
        let a = levels(depth + 1) + "GridItem() {\n"@;
        let b = "\n"@ + levels(depth + 1) + "}"@;
        assert(each[i] =~= a + indented(texts[i], levels(depth + 2)) + b);
        lemma_carries_block(texts[i], levels(depth + 2), a, b, each[i]);
    }
    lemma_carries_each(texts, each);
    let joined = join(each, "\n"@);
    let template = join(Seq::new(columns, |i: int| "1fr"@), " "@);
    let b = "\n"@ + levels(depth) + "}.columnsTemplate('"@ + template + "')"@;
    assert(whole =~= "Grid() {\n"@ + joined + b);
    lemma_carries_join(each, "\n"@);
    lemma_carries_between("Grid() {\n"@, joined, b);
    lemma_carries_trans(each, seq![joined], seq![whole]);
    lemma_carries_trans(texts, each, seq![whole]);
}

// ---------------------------------------------------------------------------
// The walk
// ---------------------------------------------------------------------------

proof fn lemma_widget_refers(
    e: ExprView,
    env: EnvView,
    p: PlaceView,
    emit: EmitView,
    left: nat,
)
    requires
        sound(emit),
    ensures
        widget(e, env, p, emit, left) matches Some(run) ==> refers(emit, run.emit, seq![run.text]),
    decreases left, e, 2nat,
{
    match state_text(e, env.states) {
        Some(s) => lemma_slot_refers(emit, slot_for(s.name, s.initial)),
        None => match e {
            ExprView::LocalGet(id) => {
                if env.bindings.contains_key(id) {
                    if left > 0 {
                        lemma_shown_refers(env.bindings[id], env, p, emit, (left - 1) as nat);
                    }
                } else {
                    lemma_shown_refers(e, env, p, emit, left);
                }
            },
            _ => lemma_shown_refers(e, env, p, emit, left),
        },
    }
}

proof fn lemma_shown_refers(
    e: ExprView,
    env: EnvView,
    p: PlaceView,
    emit: EmitView,
    left: nat,
)
    requires
        sound(emit),
    ensures
        shown(e, env, p, emit, left) matches Some(run) ==> refers(emit, run.emit, seq![run.text]),
    decreases left, e, 1nat,
{
    match e {
        ExprView::NativeMethodCall { method, args, .. } => {
            lemma_bare_refers(method, args, env, p, emit, left);
            match bare(method, args, env, p, emit, left) {
                Some(run) => {
                    let style = style_text(args, env.classes);
                    lemma_bare(method, args, env, p, emit, left, left);
                    assert(run.text + style =~= Seq::empty() + run.text + style);
                    lemma_carries_between(Seq::empty(), run.text, style);
                    lemma_refers_carried(
                        emit,
                        run.emit,
                        seq![run.text],
                        seq![run.text + style],
                    );
                },
                None => {},
            }
        },
        ExprView::ArrayMap { .. } => lemma_for_each_refers(e, env, p, emit, left),
        _ => {},
    }
}

proof fn lemma_bare_refers(
    name: Seq<char>,
    args: Seq<ExprView>,
    env: EnvView,
    p: PlaceView,
    emit: EmitView,
    left: nat,
)
    requires
        sound(emit),
    ensures
        bare(name, args, env, p, emit, left) matches Some(run) ==> refers(emit, run.emit, seq![run.text]),
    decreases left, args, 3nat,
{
    if name == "Text"@ {
        lemma_text_refers(args, p.locals, emit);
    } else if name == "VStack"@ {
        lemma_stack_refers("Column"@, args, env, p, emit, left);
    } else if name == "HStack"@ {
        lemma_stack_refers("Row"@, args, env, p, emit, left);
    } else if name == "Button"@ {
        lemma_button_refers(string_or(at(args, 0), "Button"@), at(args, 1), emit);
    } else if name == "TextField"@ {
        lemma_field_refers(args, emit);
    } else if name == "Toggle"@ {
        lemma_toggle_refers(args, emit);
    } else if name == "Slider"@ {
        lemma_slider_refers(args, emit);
    } else if name == "Spacer"@ || name == "Divider"@ || name == "Image"@ || name == "ImageFile"@ {
    } else if name == "ScrollView"@ {
        lemma_scroll_refers(args, env, p, emit, left);
    } else if name == "LazyVStack"@ {
        lemma_lazy_refers(args, env, p, emit, left);
    } else if name == "Picker"@ {
        lemma_picker_refers(args, emit);
    } else if name == "ProgressView"@ {
    } else if name == "Section"@ {
        lemma_section_refers(args, env, p, emit, left);
    } else if name == "Tabs"@ {
        lemma_tabs_refers(args, env, p, emit, left);
    } else if name == "Modal"@ || name == "Dialog"@ {
    } else if name == "Menu"@ || name == "ContextMenu"@ {
        lemma_menu_refers(args, emit);
    } else if name == "Grid"@ {
        lemma_grid_refers(args, env, p, emit, left);
    }
}

proof fn lemma_scroll_refers(
    args: Seq<ExprView>,
    env: EnvView,
    p: PlaceView,
    emit: EmitView,
    left: nat,
)
    requires
        sound(emit),
    ensures
        scrollview(args, env, p, emit, left) matches Some(run) ==> refers(emit, run.emit, seq![run.text]),
    decreases left, args, 2nat,
{
    let inner = deeper(p, 2);
    lemma_kids_at_refers(args, 0, env, inner, emit, left);
    lemma_kids_at(args, 0, env, inner, emit, left, left);
    match kids_at(args, 0, env, inner, emit, left) {
        Some(run) => {
            lemma_carries_scroll(run.texts, p.depth);
            lemma_refers_carried(
                emit,
                run.emit,
                run.texts,
                seq![scroll_text(run.texts, p.depth)],
            );
        },
        None => {},
    }
}

proof fn lemma_section_refers(
    args: Seq<ExprView>,
    env: EnvView,
    p: PlaceView,
    emit: EmitView,
    left: nat,
)
    requires
        sound(emit),
    ensures
        section(args, env, p, emit, left) matches Some(run) ==> refers(emit, run.emit, seq![run.text]),
    decreases left, args, 2nat,
{
    let inner = deeper(p, 1);
    lemma_kids_at_refers(args, 1, env, inner, emit, left);
    lemma_kids_at(args, 1, env, inner, emit, left, left);
    match kids_at(args, 1, env, inner, emit, left) {
        Some(run) => {
            let title = string_or(at(args, 0), ""@);
            lemma_carries_section(title, run.texts, p.depth);
            lemma_refers_carried(
                emit,
                run.emit,
                run.texts,
                seq![section_text(title, run.texts, p.depth)],
            );
        },
        None => {},
    }
}

proof fn lemma_kids_at_refers(
    args: Seq<ExprView>,
    i: int,
    env: EnvView,
    p: PlaceView,
    emit: EmitView,
    left: nat,
)
    requires
        sound(emit),
    ensures
        kids_at(args, i, env, p, emit, left) matches Some(run) ==> refers(emit, run.emit, run.texts),
    decreases left, args, 0nat,
{
    if 0 <= i < args.len() {
        lemma_kids_refers(args[i], env, p, emit, left);
    }
}

proof fn lemma_kids_refers(
    e: ExprView,
    env: EnvView,
    p: PlaceView,
    emit: EmitView,
    left: nat,
)
    requires
        sound(emit),
    ensures
        kids(e, env, p, emit, left) matches Some(run) ==> refers(emit, run.emit, run.texts),
    decreases left, e, 3nat,
{
    match e {
        ExprView::Array(items) => lemma_widgets_refers(items, items.len(), env, p, emit, left),
        ExprView::ArrayMap { .. } => lemma_widget_refers(e, env, p, emit, left),
        _ => {},
    }
}

proof fn lemma_widgets_refers(
    items: Seq<ExprView>,
    k: nat,
    env: EnvView,
    p: PlaceView,
    emit: EmitView,
    left: nat,
)
    requires
        sound(emit),
    ensures
        widgets(items, k, env, p, emit, left) matches Some(run) ==> refers(emit, run.emit, run.texts),
    decreases left, items, k,
{
    if 0 < k <= items.len() {
        lemma_widgets_refers(items, (k - 1) as nat, env, p, emit, left);
        lemma_widgets(items, (k - 1) as nat, env, p, emit, left, left);
        match widgets(items, (k - 1) as nat, env, p, emit, left) {
            Some(front) => {
                lemma_widget_refers(items[k - 1], env, p, front.emit, left);
                lemma_widget(items[k - 1], env, p, front.emit, left, left);
                match widget(items[k - 1], env, p, front.emit, left) {
                    Some(run) => {
                        let all = front.texts.push(run.text);
                        lemma_carries_push(front.texts, run.text);
                        lemma_refers_carried(emit, front.emit, front.texts, all);
                        lemma_refers_carried(front.emit, run.emit, seq![run.text], all);
                        lemma_refers_then(emit, front.emit, run.emit, all);
                    },
                    None => {},
                }
            },
            None => {},
        }
    }
}

proof fn lemma_stack_refers(
    kind: Seq<char>,
    args: Seq<ExprView>,
    env: EnvView,
    p: PlaceView,
    emit: EmitView,
    left: nat,
)
    requires
        sound(emit),
    ensures
        stack(kind, args, env, p, emit, left) matches Some(run) ==> refers(emit, run.emit, seq![run.text]),
    decreases left, args, 0nat,
{
    let i: int = if args.len() > 0 && numeric(args[0]) is Some {
        1
    } else {
        0
    };
    if i < args.len() && (args[i] is Array || args[i] is ArrayMap) {
        let inner = deeper(p, 1);
        lemma_kids_refers(args[i], env, inner, emit, left);
        lemma_kids(args[i], env, inner, emit, left, left);
        match kids(args[i], env, inner, emit, left) {
            Some(run) => {
                lemma_carries_stack(kind, stack_spacing(args), run.texts, p.depth);
                lemma_refers_carried(
                    emit,
                    run.emit,
                    run.texts,
                    seq![stack_text(kind, stack_spacing(args), run.texts, p.depth)],
                );
            },
            None => {},
        }
    }
}

proof fn lemma_for_each_refers(
    e: ExprView,
    env: EnvView,
    p: PlaceView,
    emit: EmitView,
    left: nat,
)
    requires
        sound(emit),
    ensures
        for_each(e, env, p, emit, left) matches Some(run) ==> refers(emit, run.emit, seq![run.text]),
    decreases left, e, 0nat,
{
    match e {
        ExprView::ArrayMap { array, callback } => {
            if loop_param(*callback) is Some && loop_body(*callback) is Some {
                lemma_loop_body_smaller(*callback);
                let body = loop_body(*callback)->0;
                let inner = in_loop(p, loop_param(*callback)->0, 1);
                lemma_widget_refers(body, env, inner, emit, left);
                lemma_widget(body, env, inner, emit, left, left);
                match widget(body, env, inner, emit, left) {
                    Some(run) => {
                        let source = array_source(*array, env.bindings);
                        lemma_carries_for_each(source, run.text, p.depth);
                        lemma_refers_carried(
                            emit,
                            run.emit,
                            seq![run.text],
                            seq![for_each_text(source, run.text, p.depth)],
                        );
                    },
                    None => {},
                }
            }
        },
        _ => {},
    }
}

proof fn lemma_lazy_refers(
    args: Seq<ExprView>,
    env: EnvView,
    p: PlaceView,
    emit: EmitView,
    left: nat,
)
    requires
        sound(emit),
    ensures
        lazy_vstack(args, env, p, emit, left) matches Some(run) ==> refers(emit, run.emit, seq![run.text]),
    decreases left, args, 0nat,
{
    if args.len() > 0 && args[0] is ArrayMap {
        lemma_lazy_list_refers(args[0], env, p, emit, left);
    } else if args.len() > 0 && args[0] is Array {
        let inner = deeper(p, 1);
        lemma_kids_refers(args[0], env, inner, emit, left);
        lemma_kids(args[0], env, inner, emit, left, left);
        match kids(args[0], env, inner, emit, left) {
            Some(run) => {
                lemma_carries_eager(run.texts, p.depth);
                lemma_refers_carried(
                    emit,
                    run.emit,
                    run.texts,
                    seq![eager_text(run.texts, p.depth)],
                );
            },
            None => {},
        }
    }
}

/// A lazy list refers to what its body refers to, and to its own source.
proof fn lemma_lazy_run_refers(source: Seq<char>, emit: EmitView, body: WidgetRun, depth: nat)
    requires
        sound(body.emit),
        refers(emit, body.emit, seq![body.text]),
    ensures
        refers(
            emit,
            lazy_run(source, body, depth).emit,
            seq![lazy_run(source, body, depth).text],
        ),
{
    let run = lazy_run(source, body, depth);
    let field = lazy_field_id(body.emit.lazies.len());
    lemma_carries_lazy(field, body.text, depth);
    lemma_refers_carried(emit, body.emit, seq![body.text], seq![run.text]);
    lemma_occurs_alone(list_ref(field), run.text);
    lemma_prefix_push(body.emit.lazies, run.emit.lazies.last());
    lemma_keeps_same(body.emit);
    lemma_refers_then(emit, body.emit, run.emit, seq![run.text]);
}

proof fn lemma_lazy_list_refers(
    e: ExprView,
    env: EnvView,
    p: PlaceView,
    emit: EmitView,
    left: nat,
)
    requires
        sound(emit),
    ensures
        lazy_list(e, env, p, emit, left) matches Some(run) ==> refers(emit, run.emit, seq![run.text]),
    decreases left, e, 0nat,
{
    match e {
        ExprView::ArrayMap { array, callback } => {
            let source = array_source(*array, env.bindings);
            if loop_param(*callback) is None {
                let text = "Text('[non-closure ForEach body]').fontSize(16)"@;
                lemma_lazy_run_refers(source, emit, WidgetRun { text, emit }, p.depth);
            } else if loop_body(*callback) is None {
                let text = "Text('[empty body]').fontSize(16)"@;
                lemma_lazy_run_refers(source, emit, WidgetRun { text, emit }, p.depth);
            } else {
                lemma_loop_body_smaller(*callback);
                let body = loop_body(*callback)->0;
                let inner = in_loop(p, loop_param(*callback)->0, 3);
                lemma_widget_refers(body, env, inner, emit, left);
                lemma_widget(body, env, inner, emit, left, left);
                match widget(body, env, inner, emit, left) {
                    Some(run) => lemma_lazy_run_refers(source, emit, run, p.depth),
                    None => {},
                }
            }
        },
        _ => {},
    }
}

proof fn lemma_tabs_refers(
    args: Seq<ExprView>,
    env: EnvView,
    p: PlaceView,
    emit: EmitView,
    left: nat,
)
    requires
        sound(emit),
    ensures
        tabs(args, env, p, emit, left) matches Some(run) ==> refers(emit, run.emit, seq![run.text]),
    decreases left, args, 0nat,
{
    if args.len() > 0 && args[0] is Array {
        lemma_tab_list_refers(args[0], env, p, emit, left);
        lemma_tab_list(args[0], env, p, emit, left, left);
        match tab_list(args[0], env, p, emit, left) {
            Some(run) => {
                lemma_carries_tabs(run.texts, p.depth);
                lemma_refers_carried(
                    emit,
                    run.emit,
                    run.texts,
                    seq![tabs_text(run.texts, p.depth)],
                );
            },
            None => {},
        }
    }
}

proof fn lemma_tab_list_refers(
    e: ExprView,
    env: EnvView,
    p: PlaceView,
    emit: EmitView,
    left: nat,
)
    requires
        sound(emit),
    ensures
        tab_list(e, env, p, emit, left) matches Some(run) ==> refers(emit, run.emit, run.texts),
    decreases left, e, 3nat,
{
    match e {
        ExprView::Array(items) => lemma_tab_blocks_refers(items, items.len(), env, p, emit, left),
        _ => {},
    }
}

proof fn lemma_tab_blocks_refers(
    items: Seq<ExprView>,
    k: nat,
    env: EnvView,
    p: PlaceView,
    emit: EmitView,
    left: nat,
)
    requires
        sound(emit),
    ensures
        tab_blocks(items, k, env, p, emit, left) matches Some(run) ==> refers(emit, run.emit, run.texts),
    decreases left, items, k,
{
    if 0 < k <= items.len() {
        lemma_tab_blocks_refers(items, (k - 1) as nat, env, p, emit, left);
        lemma_tab_blocks(items, (k - 1) as nat, env, p, emit, left, left);
        match tab_blocks(items, (k - 1) as nat, env, p, emit, left) {
            Some(front) => {
                lemma_tab_refers(items[k - 1], env, p, front.emit, left);
                lemma_tab(items[k - 1], env, p, front.emit, left, left);
                match tab(items[k - 1], env, p, front.emit, left) {
                    Some(run) => {
                        let all = front.texts.push(run.text);
                        lemma_carries_push(front.texts, run.text);
                        lemma_refers_carried(emit, front.emit, front.texts, all);
                        lemma_refers_carried(front.emit, run.emit, seq![run.text], all);
                        lemma_refers_then(emit, front.emit, run.emit, all);
                    },
                    None => {},
                }
            },
            None => {},
        }
    }
}

proof fn lemma_tab_refers(
    e: ExprView,
    env: EnvView,
    p: PlaceView,
    emit: EmitView,
    left: nat,
)
    requires
        sound(emit),
    ensures
        tab(e, env, p, emit, left) matches Some(run) ==> refers(emit, run.emit, seq![run.text]),
    decreases left, e, 3nat,
{
    if object_props(e, env.classes) is Some {
        match prop_in(e, env.classes, "body"@) {
            Some(body) => {
                lemma_prop_smaller(e, env.classes, "body"@);
                let inner = deeper(p, 2);
                lemma_widget_refers(body, env, inner, emit, left);
                lemma_widget(body, env, inner, emit, left, left);
                match widget(body, env, inner, emit, left) {
                    Some(run) => {
                        let label = string_or(prop_in(e, env.classes, "label"@), "Tab"@);
                        lemma_carries_tab(label, run.text, p.depth);
                        lemma_refers_carried(
                            emit,
                            run.emit,
                            seq![run.text],
                            seq![tab_text(label, run.text, p.depth)],
                        );
                    },
                    None => {},
                }
            },
            None => {},
        }
    }
}

proof fn lemma_grid_refers(
    args: Seq<ExprView>,
    env: EnvView,
    p: PlaceView,
    emit: EmitView,
    left: nat,
)
    requires
        sound(emit),
    ensures
        grid(args, env, p, emit, left) matches Some(run) ==> refers(emit, run.emit, seq![run.text]),
    decreases left, args, 0nat,
{
    if args.len() > 1 && args[1] is Array {
        let inner = deeper(p, 2);
        lemma_kids_refers(args[1], env, inner, emit, left);
        lemma_kids(args[1], env, inner, emit, left, left);
        match kids(args[1], env, inner, emit, left) {
            Some(run) => {
                let columns = grid_columns(args) as nat;
                lemma_carries_grid(columns, run.texts, p.depth);
                lemma_refers_carried(
                    emit,
                    run.emit,
                    run.texts,
                    seq![grid_text(columns, run.texts, p.depth)],
                );
            },
            None => {},
        }
    }
}

// ---------------------------------------------------------------------------
// Laws
// ---------------------------------------------------------------------------

/// A widget refers to all that it registers: it calls every callback by its slot,
/// shows the field of every reactive text, and lists every lazy source.
pub proof fn law_widget_refers_to_registrations(
    e: ExprView,
    env: EnvView,
    p: PlaceView,
    emit: EmitView,
    left: nat,
)
    requires
        sound(emit),
        widget(e, env, p, emit, left) is Some,
    ensures
        refers(
            emit,
            widget(e, env, p, emit, left)->0.emit,
            seq![widget(e, env, p, emit, left)->0.text],
        ),
{
    lemma_widget_refers(e, env, p, emit, left);
}

proof fn lemma_page_carries(body: Seq<char>, slots: Seq<SlotView>, lazies: Seq<LazyView>)
    ensures
        carries(seq![body], seq![page(body, slots, lazies)]),
{
    let whole = page(body, slots, lazies);
    let a = PAGE_HEAD@ + (if lazies.len() == 0 {
        ""@
    } else {
        LAZY_CLASS@
    }) + "@Entry\n@Component\nstruct Index {\n"@ + slot_fields(slots) + lazy_fields(lazies)
        + apply_method(slots) + "    build() {\n        Column() {\n"@;
    let b =
        "\n        }\n        .width('100%')\n        .height('100%')\n        .justifyContent(FlexAlign.Center)\n    }\n}\n"@;
    lemma_carries_block(body, "            "@, a, b, whole);
}

/// The page calls every callback by its slot: the handler of slot `k` calls
/// `callbacks[k]`, and every closure that is handed out has one.
pub proof fn law_page_calls_every_callback(m: ModuleView)
    ensures
        harvest(m) matches HarvestView::Page { source, callbacks, .. } ==> forall|k: nat|
            k < callbacks.len() ==> #[trigger] called(k, seq![source]),
{
    let init = with_states(m.init);
    let i = app_index(init, m.classes);
    if i < init.len() {
        let env = EnvView {
            bindings: const_bindings(init),
            classes: m.classes,
            states: state_registry(m.init).0,
        };
        let body = app_body(init[i as int], m.classes)->0;
        let p = PlaceView { depth: 0, locals: Seq::empty() };
        let none = EmitView {
            callbacks: Seq::empty(),
            slots: Seq::empty(),
            lazies: Seq::empty(),
        };
        lemma_widget_refers(body, env, p, none, init.len());
        lemma_widget(body, env, p, none, init.len(), init.len());
        match widget(body, env, p, none, init.len()) {
            Some(run) => {
                let source = page(run.text, run.emit.slots, run.emit.lazies);
                lemma_page_carries(run.text, run.emit.slots, run.emit.lazies);
                lemma_refers_carried(none, run.emit, seq![run.text], seq![source]);
            },
            None => {},
        }
    }
}

proof fn lemma_slot_listed(v: Seq<SlotView>, i: int)
    requires
        0 <= i < v.len(),
    ensures
        occurs(slot_field(v[i]), slot_fields(v)),
        occurs(slot_case(v[i]), slot_cases(v)),
    decreases v.len(),
{
    let front = v.drop_last();
    if i < v.len() - 1 {
        assert(front[i] == v[i]);
        lemma_slot_listed(front, i);
        lemma_occurs_left(slot_field(v[i]), slot_fields(front), slot_field(v.last()));
        lemma_occurs_left(slot_case(v[i]), slot_cases(front), slot_case(v.last()));
    } else {
        lemma_occurs_self(slot_field(v[i]));
        lemma_occurs_self(slot_case(v[i]));
        lemma_occurs_right(slot_field(v[i]), slot_fields(front), slot_field(v[i]));
        lemma_occurs_right(slot_case(v[i]), slot_cases(front), slot_case(v[i]));
    }
}

proof fn lemma_lazy_listed(v: Seq<LazyView>, i: int)
    requires
        0 <= i < v.len(),
    ensures
        occurs(lazy_field(v[i]), lazy_fields(v)),
    decreases v.len(),
{
    let front = v.drop_last();
    if i < v.len() - 1 {
        assert(front[i] == v[i]);
        lemma_lazy_listed(front, i);
        lemma_occurs_left(lazy_field(v[i]), lazy_fields(front), lazy_field(v.last()));
    } else {
        lemma_occurs_self(lazy_field(v[i]));
        lemma_occurs_right(lazy_field(v[i]), lazy_fields(front), lazy_field(v[i]));
    }
}

/// What occurs between two texts occurs in the whole.
proof fn lemma_occurs_between(t: Seq<char>, a: Seq<char>, s: Seq<char>, b: Seq<char>)
    requires
        occurs(t, s),
    ensures
        occurs(t, a + s + b),
{
    lemma_occurs_right(t, a, s);
    lemma_occurs_left(t, a + s, b);
}

/// The page has a field and a case of the update method for every reactive text,
/// and a field for every lazy list.
#[verifier::spinoff_prover]
#[verifier::rlimit(40)]
pub proof fn law_page_declares_every_registration(
    body: Seq<char>,
    slots: Seq<SlotView>,
    lazies: Seq<LazyView>,
)
    ensures
        forall|i: int|
            0 <= i < slots.len() ==> occurs(
                slot_field(#[trigger] slots[i]),
                page(body, slots, lazies),
            ) && occurs(slot_case(slots[i]), page(body, slots, lazies)),
        forall|i: int|
            0 <= i < lazies.len() ==> occurs(
                lazy_field(#[trigger] lazies[i]),
                page(body, slots, lazies),
            ),
{
    let whole = page(body, slots, lazies);
    let head = PAGE_HEAD@ + (if lazies.len() == 0 {
        ""@
    } else {
        LAZY_CLASS@
    }) + "@Entry\n@Component\nstruct Index {\n"@;
    let build = "    build() {\n        Column() {\n"@ + indented(body, "            "@)
        + "\n        }\n        .width('100%')\n        .height('100%')\n        .justifyContent(FlexAlign.Center)\n    }\n}\n"@;
    let method_head = "    applyTextUpdate(id: string, value: string): void {\n        switch (id) {\n"@;
    let method_tail = "            default: break;\n        }\n    }\n"@;
    let fields = slot_fields(slots);
    let lists = lazy_fields(lazies);
    let method = apply_method(slots);
    let rest = lists + method + build;
    let before = head + fields + lists + method_head;
    let after = method_tail + build;
    assert(whole =~= head + fields + rest);
    assert(whole =~= before + slot_cases(slots) + after);
    assert(whole =~= head + fields + lists + (method + build));
    assert forall|i: int| 0 <= i < slots.len() implies occurs(
        slot_field(#[trigger] slots[i]),
        whole,
    ) && occurs(slot_case(slots[i]), whole) by {
        lemma_slot_listed(slots, i);
        lemma_occurs_between(slot_field(slots[i]), head, fields, rest);
        lemma_occurs_between(slot_case(slots[i]), before, slot_cases(slots), after);
    }
    assert forall|i: int| 0 <= i < lazies.len() implies occurs(
        lazy_field(#[trigger] lazies[i]),
        whole,
    ) by {
        lemma_lazy_listed(lazies, i);
        lemma_occurs_between(lazy_field(lazies[i]), head + fields, lists, method + build);
    }
}

} // verus!
