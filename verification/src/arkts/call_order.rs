//! The page calls every callback once, in the order of the slots.

use crate::arkts::callbacks::{lemma_bindings_lack, lemma_loop_body_lacks, lemma_prop_lacks};
use crate::arkts::harvest::{
    app_body, app_call, app_index, const_bindings, harvest, lemma_app_found, with_states,
    HarvestView,
};
use crate::arkts::leaf::{button, registered, string_or, EmitView, MODAL};
use crate::arkts::literal::{sanitized, string_lit};
use crate::arkts::occurs::{occurs, split_at};
use crate::arkts::order::{
    at_mark, in_order, lemma_between, lemma_indented, lemma_list_one, lemma_list_push,
    lemma_literal, lemma_more, lemma_quiet, lemma_quiet_then, lemma_without, list_in_order, mark,
    quiet,
};
use crate::arkts::page::{
    apply_method, lazy_field, lazy_fields, page, slot_case, slot_cases, slot_field, slot_fields,
    slot_for, LazyView, SlotView, LAZY_CLASS, PAGE_HEAD,
};
use crate::arkts::quiet::{
    all_tame, bindings_tame, lemma_dec_int_quiet, lemma_dec_quiet, lemma_numeric_or_quiet,
    lemma_numeric_quiet, lemma_sanitized_quiet, lemma_source_quiet, lemma_style_quiet, lemma_tame,
    spelled, tame,
};
use crate::arkts::slots::{
    in_turn, lemma_arg_tame, lemma_button, lemma_eager_text, lemma_for_each_text, lemma_grid_text,
    lemma_image, lemma_invalid_tab, lemma_lazy_field_quiet, lemma_lazy_pushed, lemma_lazy_text,
    lemma_menu, lemma_picker, lemma_progress, lemma_quiet_between, lemma_quiet_in_turn,
    lemma_scroll_text, lemma_section_text, lemma_slider, lemma_slot_pushed, lemma_stack_text,
    lemma_string_or_quiet, lemma_tab_text, lemma_tabs_text, lemma_text, lemma_textfield,
    lemma_toggle, lemma_unsupported, list_in_turn, quiet_emit, quiet_lazy, quiet_slot, quiet_states,
};
use crate::arkts::state::{declared_state, names_of, state_registry};
use crate::arkts::value::{array_source, at, lemma_prop_smaller, numeric, object_props, prop_in};
use crate::arkts::widget::{
    bare, deeper, for_each, grid, grid_columns, in_loop, invalid_tab_text, kids, kids_at,
    lazy_field_id, lazy_list, lazy_run, lazy_vstack, lemma_loop_body_smaller, loop_body, loop_param,
    section, shown, stack, scrollview, stack_spacing, state_text, style_text, tab, tab_blocks,
    tab_list, tab_text, tabs, widget, widgets, EnvView, ListRun, PlaceView, WidgetRun, NOT_AN_ARRAY,
    UNRECOGNIZED,
};
use crate::hir::LocalId;
use crate::inline::scan::{
    cases_have, expr_has, lemma_cases_lack, lemma_expr_lacks, lemma_stmt_has, lemma_stmts_lack,
    opt_expr_has, stmt_has, stmts_have,
};
use crate::model::{CaseView, ClassView, ExprView, ModuleView, StmtView};
use crate::rebuild::lemma_children_of_rebuilt;
use crate::rewrite::{
    rewrite_cases, rewrite_children, rewrite_expr, rewrite_stmt, rewrite_stmts, state_set, Rewrite,
};
use crate::rewrite_laws::lemma_closure_children;
use crate::shape::member_of_local;
use crate::text::{dec, indented};
use crate::walk::{children, lemma_children_smaller};
use vstd::prelude::*;

verus! {

// ---------------------------------------------------------------------------
// The walk
// ---------------------------------------------------------------------------

proof fn lemma_args_tame(e: ExprView)
    requires
        e is NativeMethodCall,
        tame(e),
    ensures
        all_tame(e->NativeMethodCall_args),
{
    lemma_tame(e);
    let args = e->NativeMethodCall_args;
    let shift: int = children(e).len() - args.len();
    assert forall|i: int| 0 <= i < args.len() implies tame(#[trigger] args[i]) by {
        assert(children(e)[i + shift] == args[i]);
    }
}

proof fn lemma_loop_body_tame(callback: ExprView)
    requires
        tame(callback),
    ensures
        loop_body(callback) matches Some(e) ==> tame(e),
{
    lemma_loop_body_lacks(callback, spelled());
}

proof fn lemma_widget_order(
    e: ExprView,
    env: EnvView,
    p: PlaceView,
    emit: EmitView,
    left: nat,
)
    requires
        tame(e),
        bindings_tame(env.bindings),
        quiet_states(env.states),
        quiet_emit(emit),
    ensures
        widget(e, env, p, emit, left) matches Some(run) ==> in_turn(
            run.text,
            emit,
            run.emit,
        ),
    decreases left, e, 2nat,
{
    match state_text(e, env.states) {
        Some(s) => {
            match e {
                ExprView::Call { callee, .. } => {
                    let (id, _) = member_of_local(*callee)->0;
                    assert(env.states.contains_key(id));
                },
                _ => {},
            }
            reveal_strlit("Text(this.text_");
            lemma_without("Text(this.text_"@, 'k');
            reveal_strlit(").fontSize(20)");
            lemma_without(").fontSize(20)"@, 'k');
            lemma_sanitized_quiet(s.name);
            lemma_quiet_between("Text(this.text_"@, sanitized(s.name), ").fontSize(20)"@);
            lemma_slot_pushed(emit, slot_for(s.name, s.initial));
            lemma_quiet(
                "Text(this.text_"@ + sanitized(s.name) + ").fontSize(20)"@,
                emit.callbacks.len(),
            );
        },
        None => match e {
            ExprView::LocalGet(id) => {
                if env.bindings.contains_key(id) {
                    if left > 0 {
                        lemma_shown_order(env.bindings[id], env, p, emit, (left - 1) as nat);
                    }
                } else {
                    lemma_shown_order(e, env, p, emit, left);
                }
            },
            _ => lemma_shown_order(e, env, p, emit, left),
        },
    }
}

proof fn lemma_shown_order(
    e: ExprView,
    env: EnvView,
    p: PlaceView,
    emit: EmitView,
    left: nat,
)
    requires
        tame(e),
        bindings_tame(env.bindings),
        quiet_states(env.states),
        quiet_emit(emit),
    ensures
        shown(e, env, p, emit, left) matches Some(run) ==> in_turn(
            run.text,
            emit,
            run.emit,
        ),
    decreases left, e, 1nat,
{
    lemma_unrecognized(emit);
    lemma_tame(e);
    match e {
        ExprView::NativeMethodCall { method, args, .. } => {
            lemma_args_tame(e);
            lemma_bare_order(method, args, env, p, emit, left);
            lemma_style_quiet(args, env.classes);
            match bare(method, args, env, p, emit, left) {
                Some(run) => {
                    let style = style_text(args, env.classes);
                    lemma_more(
                        run.text,
                        style,
                        emit.callbacks.len(),
                        run.emit.callbacks.len(),
                    );
                    if style.len() == 0 {
                        assert(run.text + style =~= run.text);
                    }
                },
                None => {},
            }
        },
        ExprView::ArrayMap { .. } => lemma_for_each_order(e, env, p, emit, left),
        _ => {},
    }
}

proof fn lemma_bare_order(
    name: Seq<char>,
    args: Seq<ExprView>,
    env: EnvView,
    p: PlaceView,
    emit: EmitView,
    left: nat,
)
    requires
        quiet(name),
        all_tame(args),
        bindings_tame(env.bindings),
        quiet_states(env.states),
        quiet_emit(emit),
    ensures
        bare(name, args, env, p, emit, left) matches Some(run) ==> in_turn(
            run.text,
            emit,
            run.emit,
        ),
    decreases left, args, 3nat,
{
    if name == "Text"@ {
        lemma_text(args, p.locals, emit);
    } else if name == "VStack"@ {
        lemma_kinds();
        lemma_stack_order("Column"@, args, env, p, emit, left);
    } else if name == "HStack"@ {
        lemma_kinds();
        lemma_stack_order("Row"@, args, env, p, emit, left);
    } else if name == "Button"@ {
        lemma_labelled(args, emit);
    } else if name == "TextField"@ {
        lemma_textfield(args, emit);
    } else if name == "Toggle"@ {
        lemma_toggle(args, emit);
    } else if name == "Slider"@ {
        lemma_slider(args, emit);
    } else if name == "Spacer"@ {
        lemma_fixed(emit);
    } else if name == "Divider"@ {
        lemma_fixed(emit);
    } else if name == "Image"@ || name == "ImageFile"@ {
        lemma_image(args, emit);
    } else if name == "ScrollView"@ {
        lemma_scrollview_order(args, env, p, emit, left);
    } else if name == "LazyVStack"@ {
        lemma_lazy_vstack_order(args, env, p, emit, left);
    } else if name == "Picker"@ {
        lemma_picker(args, emit);
    } else if name == "ProgressView"@ {
        lemma_progress(args, emit);
    } else if name == "Section"@ {
        lemma_section_order(args, env, p, emit, left);
    } else if name == "Tabs"@ {
        lemma_tabs_order(args, env, p, emit, left);
    } else if name == "Modal"@ || name == "Dialog"@ {
        lemma_fixed(emit);
    } else if name == "Menu"@ || name == "ContextMenu"@ {
        lemma_menu(args, emit);
    } else if name == "Grid"@ {
        lemma_grid_order(args, env, p, emit, left);
    } else {
        lemma_unsupported(name, emit);
    }
}

proof fn lemma_fixed(emit: EmitView)
    requires
        quiet_emit(emit),
    ensures
        in_turn(MODAL@, emit, emit),
        in_turn("Blank()"@, emit, emit),
        in_turn("Divider()"@, emit, emit),
{
    reveal_strlit(
        "// Modal: configure with `showDialog(...)` from a closure body \
    (Phase 2 v12.5 — needs runtime FFI bridge to AlertDialog.show)\n\
    Text('[Modal — call showDialog() instead]').fontSize(16).fontColor('#888888')",
    );
    lemma_without(MODAL@, 'k');
    lemma_quiet_in_turn(MODAL@, emit);
    reveal_strlit("Blank()");
    lemma_without("Blank()"@, 'v');
    lemma_quiet_in_turn("Blank()"@, emit);
    reveal_strlit("Divider()");
    lemma_without("Divider()"@, 'k');
    lemma_quiet_in_turn("Divider()"@, emit);
}

/// What stands in a loop without a widget.
proof fn lemma_loop_notes(emit: EmitView)
    requires
        quiet_emit(emit),
    ensures
        in_turn(
            "Text('[non-closure ForEach body]').fontSize(16).fontColor('#888888')"@,
            emit,
            emit,
        ),
        in_turn("Text('[non-closure ForEach body]').fontSize(16)"@, emit, emit),
        in_turn("Text('[empty body]').fontSize(16)"@, emit, emit),
{
    reveal_strlit("Text('[non-closure ForEach body]').fontSize(16).fontColor('#888888')");
    lemma_without("Text('[non-closure ForEach body]').fontSize(16).fontColor('#888888')"@, 'k');
    reveal_strlit("Text('[non-closure ForEach body]').fontSize(16)");
    lemma_without("Text('[non-closure ForEach body]').fontSize(16)"@, 'k');
    reveal_strlit("Text('[empty body]').fontSize(16)");
    lemma_without("Text('[empty body]').fontSize(16)"@, 'k');
    lemma_quiet_in_turn(
        "Text('[non-closure ForEach body]').fontSize(16).fontColor('#888888')"@,
        emit,
    );
    lemma_quiet_in_turn("Text('[non-closure ForEach body]').fontSize(16)"@, emit);
    lemma_quiet_in_turn("Text('[empty body]').fontSize(16)"@, emit);
}

proof fn lemma_unrecognized(emit: EmitView)
    requires
        quiet_emit(emit),
    ensures
        in_turn(UNRECOGNIZED@, emit, emit),
{
    reveal_strlit(
        "// unrecognized body expression (must be a perry/ui widget call)\n\
    Text('[unrecognized body]').fontSize(16).fontColor('#888888')",
    );
    lemma_without(UNRECOGNIZED@, 'k');
    lemma_quiet_in_turn(UNRECOGNIZED@, emit);
}

proof fn lemma_kinds()
    ensures
        quiet("Column"@),
        quiet("Row"@),
{
    reveal_strlit("Column");
    lemma_without("Column"@, 'k');
    reveal_strlit("Row");
    lemma_without("Row"@, 'k');
}

proof fn lemma_labelled(args: Seq<ExprView>, emit: EmitView)
    requires
        all_tame(args),
        quiet_emit(emit),
    ensures
        in_turn(
            button(string_or(at(args, 0), "Button"@), at(args, 1), emit.callbacks),
            emit,
            EmitView { callbacks: registered(at(args, 1), emit.callbacks), ..emit },
        ),
{
    reveal_strlit("Button");
    lemma_without("Button"@, 'k');
    lemma_arg_tame(args, 0);
    lemma_string_or_quiet(at(args, 0), "Button"@);
    lemma_button(string_or(at(args, 0), "Button"@), at(args, 1), emit);
}

/// What a stack has besides its children.
proof fn lemma_stack_parts(args: Seq<ExprView>, n: nat)
    requires
        all_tame(args),
    ensures
        quiet(stack_spacing(args)),
        list_in_order(seq![NOT_AN_ARRAY@], n, n),
{
    reveal_strlit(
        "// children arg wasn't an array literal — Phase 2 v1.5 limitation\n\
    Text('[non-array children]').fontSize(16).fontColor('#888888')",
    );
    lemma_without(NOT_AN_ARRAY@, 'k');
    reveal_strlit("8");
    lemma_without("8"@, 'k');
    lemma_quiet(NOT_AN_ARRAY@, n);
    lemma_list_one(NOT_AN_ARRAY@, n, n);
    lemma_arg_tame(args, 1);
    lemma_numeric_or_quiet(at(args, 1), "8"@);
    if args.len() > 0 {
        lemma_numeric_quiet(args[0]);
    }
}

proof fn lemma_tab_label(e: ExprView, classes: Seq<ClassView>)
    requires
        tame(e),
    ensures
        quiet(string_or(prop_in(e, classes, "label"@), "Tab"@)),
{
    reveal_strlit("Tab");
    lemma_without("Tab"@, 'k');
    lemma_prop_lacks(e, classes, "label"@, spelled());
    lemma_string_or_quiet(prop_in(e, classes, "label"@), "Tab"@);
}

proof fn lemma_empty_tab(label: Seq<char>, depth: nat, emit: EmitView)
    requires
        quiet(label),
        quiet_emit(emit),
    ensures
        in_turn(tab_text(label, "Text('[empty tab]').fontSize(16)"@, depth), emit, emit),
{
    reveal_strlit("Text('[empty tab]').fontSize(16)");
    lemma_without("Text('[empty tab]').fontSize(16)"@, 'k');
    let note = "Text('[empty tab]').fontSize(16)"@;
    lemma_quiet(note, emit.callbacks.len());
    lemma_tab_text(label, note, depth, emit.callbacks.len(), emit.callbacks.len());
}

proof fn lemma_scrollview_order(
    args: Seq<ExprView>,
    env: EnvView,
    p: PlaceView,
    emit: EmitView,
    left: nat,
)
    requires
        all_tame(args),
        bindings_tame(env.bindings),
        quiet_states(env.states),
        quiet_emit(emit),
    ensures
        scrollview(args, env, p, emit, left) matches Some(run) ==> in_turn(
            run.text,
            emit,
            run.emit,
        ),
    decreases left, args, 2nat,
{
    lemma_kids_at_order(args, 0, env, deeper(p, 2), emit, left);
    match kids_at(args, 0, env, deeper(p, 2), emit, left) {
        Some(run) => lemma_scroll_text(
            run.texts,
            p.depth,
            emit.callbacks.len(),
            run.emit.callbacks.len(),
        ),
        None => {},
    }
}

proof fn lemma_section_order(
    args: Seq<ExprView>,
    env: EnvView,
    p: PlaceView,
    emit: EmitView,
    left: nat,
)
    requires
        all_tame(args),
        bindings_tame(env.bindings),
        quiet_states(env.states),
        quiet_emit(emit),
    ensures
        section(args, env, p, emit, left) matches Some(run) ==> in_turn(
            run.text,
            emit,
            run.emit,
        ),
    decreases left, args, 2nat,
{
    reveal_strlit("");
    lemma_without(""@, 'k');
    lemma_arg_tame(args, 0);
    lemma_string_or_quiet(at(args, 0), ""@);
    lemma_kids_at_order(args, 1, env, deeper(p, 1), emit, left);
    match kids_at(args, 1, env, deeper(p, 1), emit, left) {
        Some(run) => lemma_section_text(
            string_or(at(args, 0), ""@),
            run.texts,
            p.depth,
            emit.callbacks.len(),
            run.emit.callbacks.len(),
        ),
        None => {},
    }
}

proof fn lemma_kids_at_order(
    args: Seq<ExprView>,
    i: int,
    env: EnvView,
    p: PlaceView,
    emit: EmitView,
    left: nat,
)
    requires
        all_tame(args),
        bindings_tame(env.bindings),
        quiet_states(env.states),
        quiet_emit(emit),
    ensures
        kids_at(args, i, env, p, emit, left) matches Some(run) ==> list_in_turn(
            run.texts,
            emit,
            run.emit,
        ),
    decreases left, args, 0nat,
{
    if 0 <= i < args.len() {
        lemma_kids_order(args[i], env, p, emit, left);
    }
}

proof fn lemma_kids_order(
    e: ExprView,
    env: EnvView,
    p: PlaceView,
    emit: EmitView,
    left: nat,
)
    requires
        tame(e),
        bindings_tame(env.bindings),
        quiet_states(env.states),
        quiet_emit(emit),
    ensures
        kids(e, env, p, emit, left) matches Some(run) ==> list_in_turn(
            run.texts,
            emit,
            run.emit,
        ),
    decreases left, e, 3nat,
{
    lemma_tame(e);
    match e {
        ExprView::Array(items) => lemma_widgets_order(items, items.len(), env, p, emit, left),
        ExprView::ArrayMap { .. } => {
            lemma_widget_order(e, env, p, emit, left);
            match widget(e, env, p, emit, left) {
                Some(run) => lemma_list_one(
                    run.text,
                    emit.callbacks.len(),
                    run.emit.callbacks.len(),
                ),
                None => {},
            }
        },
        _ => {},
    }
}

proof fn lemma_widgets_order(
    items: Seq<ExprView>,
    k: nat,
    env: EnvView,
    p: PlaceView,
    emit: EmitView,
    left: nat,
)
    requires
        all_tame(items),
        bindings_tame(env.bindings),
        quiet_states(env.states),
        quiet_emit(emit),
    ensures
        widgets(items, k, env, p, emit, left) matches Some(run) ==> list_in_turn(
            run.texts,
            emit,
            run.emit,
        ),
    decreases left, items, k,
{
    if 0 < k <= items.len() {
        lemma_widgets_order(items, (k - 1) as nat, env, p, emit, left);
        match widgets(items, (k - 1) as nat, env, p, emit, left) {
            Some(front) => {
                lemma_widget_order(items[k - 1], env, p, front.emit, left);
                match widget(items[k - 1], env, p, front.emit, left) {
                    Some(run) => lemma_list_push(
                        front.texts,
                        run.text,
                        emit.callbacks.len(),
                        front.emit.callbacks.len(),
                        run.emit.callbacks.len(),
                    ),
                    None => {},
                }
            },
            None => {},
        }
    }
}

proof fn lemma_stack_order(
    kind: Seq<char>,
    args: Seq<ExprView>,
    env: EnvView,
    p: PlaceView,
    emit: EmitView,
    left: nat,
)
    requires
        quiet(kind),
        all_tame(args),
        bindings_tame(env.bindings),
        quiet_states(env.states),
        quiet_emit(emit),
    ensures
        stack(kind, args, env, p, emit, left) matches Some(run) ==> in_turn(
            run.text,
            emit,
            run.emit,
        ),
    decreases left, args, 0nat,
{
    lemma_stack_parts(args, emit.callbacks.len());
    let i: int = if args.len() > 0 && numeric(args[0]) is Some {
        1
    } else {
        0
    };
    let run = if i < args.len() {
        if args[i] is Array || args[i] is ArrayMap {
            lemma_kids_order(args[i], env, deeper(p, 1), emit, left);
            kids(args[i], env, deeper(p, 1), emit, left)
        } else {
            Some(ListRun { texts: seq![NOT_AN_ARRAY@], emit })
        }
    } else {
        Some(ListRun { texts: Seq::empty(), emit })
    };
    match run {
        Some(list) => lemma_stack_text(
            kind,
            stack_spacing(args),
            list.texts,
            p.depth,
            emit.callbacks.len(),
            list.emit.callbacks.len(),
        ),
        None => {},
    }
}

proof fn lemma_for_each_order(
    e: ExprView,
    env: EnvView,
    p: PlaceView,
    emit: EmitView,
    left: nat,
)
    requires
        tame(e),
        bindings_tame(env.bindings),
        quiet_states(env.states),
        quiet_emit(emit),
    ensures
        for_each(e, env, p, emit, left) matches Some(run) ==> in_turn(
            run.text,
            emit,
            run.emit,
        ),
    decreases left, e, 0nat,
{
    lemma_tame(e);
    match e {
        ExprView::ArrayMap { array, callback } => {
            assert(children(e)[0] == *array);
            assert(children(e)[1] == *callback);
            let source = array_source(*array, env.bindings);
            lemma_source_quiet(*array, env.bindings);
            if loop_param(*callback) is Some && loop_body(*callback) is Some {
                lemma_loop_body_smaller(*callback);
                lemma_loop_body_tame(*callback);
                let inner = in_loop(p, loop_param(*callback)->0, 1);
                lemma_widget_order(loop_body(*callback)->0, env, inner, emit, left);
                match widget(loop_body(*callback)->0, env, inner, emit, left) {
                    Some(run) => lemma_for_each_text(
                        source,
                        run.text,
                        p.depth,
                        emit.callbacks.len(),
                        run.emit.callbacks.len(),
                    ),
                    None => {},
                }
            } else {
                lemma_loop_notes(emit);
                let note = "Text('[non-closure ForEach body]').fontSize(16).fontColor('#888888')"@;
                lemma_for_each_text(
                    source,
                    note,
                    p.depth,
                    emit.callbacks.len(),
                    emit.callbacks.len(),
                );
            }
        },
        _ => {},
    }
}

proof fn lemma_lazy_vstack_order(
    args: Seq<ExprView>,
    env: EnvView,
    p: PlaceView,
    emit: EmitView,
    left: nat,
)
    requires
        all_tame(args),
        bindings_tame(env.bindings),
        quiet_states(env.states),
        quiet_emit(emit),
    ensures
        lazy_vstack(args, env, p, emit, left) matches Some(run) ==> in_turn(
            run.text,
            emit,
            run.emit,
        ),
    decreases left, args, 0nat,
{
    lemma_eager_text(
        Seq::empty(),
        p.depth,
        emit.callbacks.len(),
        emit.callbacks.len(),
    );
    if args.len() > 0 {
        if args[0] is ArrayMap {
            lemma_lazy_list_order(args[0], env, p, emit, left);
        } else if args[0] is Array {
            lemma_kids_order(args[0], env, deeper(p, 1), emit, left);
            match kids(args[0], env, deeper(p, 1), emit, left) {
                Some(run) => lemma_eager_text(
                    run.texts,
                    p.depth,
                    emit.callbacks.len(),
                    run.emit.callbacks.len(),
                ),
                None => {},
            }
        }
    }
}

proof fn lemma_lazy_run(source: Seq<char>, body: WidgetRun, depth: nat, emit: EmitView)
    requires
        quiet(source),
        in_turn(body.text, emit, body.emit),
    ensures
        in_turn(
            lazy_run(source, body, depth).text,
            emit,
            lazy_run(source, body, depth).emit,
        ),
{
    let field = lazy_field_id(body.emit.lazies.len());
    lemma_lazy_field_quiet(body.emit.lazies.len());
    lemma_lazy_text(
        field,
        body.text,
        depth,
        emit.callbacks.len(),
        body.emit.callbacks.len(),
    );
    lemma_lazy_pushed(body.emit, LazyView { field_id: field, items_source: source });
}

proof fn lemma_lazy_list_order(
    e: ExprView,
    env: EnvView,
    p: PlaceView,
    emit: EmitView,
    left: nat,
)
    requires
        tame(e),
        bindings_tame(env.bindings),
        quiet_states(env.states),
        quiet_emit(emit),
    ensures
        lazy_list(e, env, p, emit, left) matches Some(run) ==> in_turn(
            run.text,
            emit,
            run.emit,
        ),
    decreases left, e, 0nat,
{
    lemma_tame(e);
    match e {
        ExprView::ArrayMap { array, callback } => {
            assert(children(e)[0] == *array);
            assert(children(e)[1] == *callback);
            let source = array_source(*array, env.bindings);
            lemma_source_quiet(*array, env.bindings);
            if loop_param(*callback) is None {
                lemma_loop_notes(emit);
                let note = "Text('[non-closure ForEach body]').fontSize(16)"@;
                lemma_lazy_run(source, WidgetRun { text: note, emit }, p.depth, emit);
            } else if loop_body(*callback) is None {
                lemma_loop_notes(emit);
                let note = "Text('[empty body]').fontSize(16)"@;
                lemma_lazy_run(source, WidgetRun { text: note, emit }, p.depth, emit);
            } else {
                lemma_loop_body_smaller(*callback);
                lemma_loop_body_tame(*callback);
                let inner = in_loop(p, loop_param(*callback)->0, 3);
                lemma_widget_order(loop_body(*callback)->0, env, inner, emit, left);
                match widget(loop_body(*callback)->0, env, inner, emit, left) {
                    Some(run) => lemma_lazy_run(source, run, p.depth, emit),
                    None => {},
                }
            }
        },
        _ => {},
    }
}

proof fn lemma_tabs_order(
    args: Seq<ExprView>,
    env: EnvView,
    p: PlaceView,
    emit: EmitView,
    left: nat,
)
    requires
        all_tame(args),
        bindings_tame(env.bindings),
        quiet_states(env.states),
        quiet_emit(emit),
    ensures
        tabs(args, env, p, emit, left) matches Some(run) ==> in_turn(
            run.text,
            emit,
            run.emit,
        ),
    decreases left, args, 0nat,
{
    lemma_tabs_text(
        Seq::empty(),
        p.depth,
        emit.callbacks.len(),
        emit.callbacks.len(),
    );
    if args.len() > 0 && args[0] is Array {
        lemma_tab_list_order(args[0], env, p, emit, left);
        match tab_list(args[0], env, p, emit, left) {
            Some(run) => lemma_tabs_text(
                run.texts,
                p.depth,
                emit.callbacks.len(),
                run.emit.callbacks.len(),
            ),
            None => {},
        }
    }
}

proof fn lemma_tab_list_order(
    e: ExprView,
    env: EnvView,
    p: PlaceView,
    emit: EmitView,
    left: nat,
)
    requires
        tame(e),
        bindings_tame(env.bindings),
        quiet_states(env.states),
        quiet_emit(emit),
    ensures
        tab_list(e, env, p, emit, left) matches Some(run) ==> list_in_turn(
            run.texts,
            emit,
            run.emit,
        ),
    decreases left, e, 3nat,
{
    lemma_tame(e);
    match e {
        ExprView::Array(items) => lemma_tab_blocks_order(items, items.len(), env, p, emit, left),
        _ => {},
    }
}

proof fn lemma_tab_blocks_order(
    items: Seq<ExprView>,
    k: nat,
    env: EnvView,
    p: PlaceView,
    emit: EmitView,
    left: nat,
)
    requires
        all_tame(items),
        bindings_tame(env.bindings),
        quiet_states(env.states),
        quiet_emit(emit),
    ensures
        tab_blocks(items, k, env, p, emit, left) matches Some(run) ==> list_in_turn(
            run.texts,
            emit,
            run.emit,
        ),
    decreases left, items, k,
{
    if 0 < k <= items.len() {
        lemma_tab_blocks_order(items, (k - 1) as nat, env, p, emit, left);
        match tab_blocks(items, (k - 1) as nat, env, p, emit, left) {
            Some(front) => {
                lemma_tab_order(items[k - 1], env, p, front.emit, left);
                match tab(items[k - 1], env, p, front.emit, left) {
                    Some(run) => lemma_list_push(
                        front.texts,
                        run.text,
                        emit.callbacks.len(),
                        front.emit.callbacks.len(),
                        run.emit.callbacks.len(),
                    ),
                    None => {},
                }
            },
            None => {},
        }
    }
}

proof fn lemma_tab_order(
    e: ExprView,
    env: EnvView,
    p: PlaceView,
    emit: EmitView,
    left: nat,
)
    requires
        tame(e),
        bindings_tame(env.bindings),
        quiet_states(env.states),
        quiet_emit(emit),
    ensures
        tab(e, env, p, emit, left) matches Some(run) ==> in_turn(
            run.text,
            emit,
            run.emit,
        ),
    decreases left, e, 3nat,
{
    lemma_invalid_tab(p.depth);
    lemma_quiet_in_turn(invalid_tab_text(p.depth), emit);
    if object_props(e, env.classes) is Some {
        lemma_tab_label(e, env.classes);
        let label = string_or(prop_in(e, env.classes, "label"@), "Tab"@);
        match prop_in(e, env.classes, "body"@) {
            Some(body) => {
                lemma_prop_smaller(e, env.classes, "body"@);
                lemma_prop_lacks(e, env.classes, "body"@, spelled());
                lemma_widget_order(body, env, deeper(p, 2), emit, left);
                match widget(body, env, deeper(p, 2), emit, left) {
                    Some(run) => lemma_tab_text(
                        label,
                        run.text,
                        p.depth,
                        emit.callbacks.len(),
                        run.emit.callbacks.len(),
                    ),
                    None => {},
                }
            },
            None => lemma_empty_tab(label, p.depth, emit),
        }
    }
}

proof fn lemma_grid_order(
    args: Seq<ExprView>,
    env: EnvView,
    p: PlaceView,
    emit: EmitView,
    left: nat,
)
    requires
        all_tame(args),
        bindings_tame(env.bindings),
        quiet_states(env.states),
        quiet_emit(emit),
    ensures
        grid(args, env, p, emit, left) matches Some(run) ==> in_turn(
            run.text,
            emit,
            run.emit,
        ),
    decreases left, args, 0nat,
{
    let run = if args.len() > 1 && args[1] is Array {
        lemma_kids_order(args[1], env, deeper(p, 2), emit, left);
        kids(args[1], env, deeper(p, 2), emit, left)
    } else {
        Some(ListRun { texts: Seq::empty(), emit })
    };
    match run {
        Some(list) => lemma_grid_text(
            grid_columns(args) as nat,
            list.texts,
            p.depth,
            emit.callbacks.len(),
            list.emit.callbacks.len(),
        ),
        None => {},
    }
}


// ---------------------------------------------------------------------------
// The page
// ---------------------------------------------------------------------------

proof fn lemma_slot_texts(s: SlotView)
    requires
        quiet_slot(s),
    ensures
        quiet(slot_field(s)),
        slot_field(s).last() == '\n',
        slot_field(s).len() > 0,
        quiet(slot_case(s)),
        slot_case(s).last() == '\n',
        slot_case(s).len() > 0,
{
    reveal_strlit("    @State text_");
    lemma_without("    @State text_"@, 'k');
    reveal_strlit(": string = ");
    lemma_without(": string = "@, 'k');
    reveal_strlit(";\n");
    lemma_without(";\n"@, 'k');
    lemma_literal(s.initial);
    lemma_quiet_between("    @State text_"@, s.field_id, ": string = "@);
    lemma_quiet_between(
        "    @State text_"@ + s.field_id + ": string = "@,
        string_lit(s.initial),
        ";\n"@,
    );
    reveal_strlit("            case ");
    lemma_without("            case "@, 'k');
    reveal_strlit(": this.text_");
    lemma_without(": this.text_"@, 'k');
    reveal_strlit(" = value; break;\n");
    lemma_without(" = value; break;\n"@, 'C');
    lemma_literal(s.original_id);
    lemma_quiet_between("            case "@, string_lit(s.original_id), ": this.text_"@);
    lemma_quiet_between(
        "            case "@ + string_lit(s.original_id) + ": this.text_"@,
        s.field_id,
        " = value; break;\n"@,
    );
}

proof fn lemma_slots_quiet(v: Seq<SlotView>)
    requires
        forall|i: int| 0 <= i < v.len() ==> quiet_slot(#[trigger] v[i]),
    ensures
        quiet(slot_fields(v)),
        slot_fields(v).len() > 0 ==> slot_fields(v).last() == '\n',
        quiet(slot_cases(v)),
        slot_cases(v).len() > 0 ==> slot_cases(v).last() == '\n',
    decreases v.len(),
{
    if v.len() > 0 {
        let front = v.drop_last();
        assert forall|i: int| 0 <= i < front.len() implies quiet_slot(#[trigger] front[i]) by {
            assert(front[i] == v[i]);
        }
        lemma_slots_quiet(front);
        assert(quiet_slot(v[v.len() - 1]));
        lemma_slot_texts(v.last());
        lemma_quiet_then(slot_fields(front), slot_field(v.last()));
        lemma_quiet_then(slot_cases(front), slot_case(v.last()));
    }
}

proof fn lemma_lazies_quiet(v: Seq<LazyView>)
    requires
        forall|i: int| 0 <= i < v.len() ==> quiet_lazy(#[trigger] v[i]),
    ensures
        quiet(lazy_fields(v)),
        lazy_fields(v).len() > 0 ==> lazy_fields(v).last() == '\n',
    decreases v.len(),
{
    if v.len() > 0 {
        let front = v.drop_last();
        assert forall|i: int| 0 <= i < front.len() implies quiet_lazy(#[trigger] front[i]) by {
            assert(front[i] == v[i]);
        }
        lemma_lazies_quiet(front);
        let s = v.last();
        assert(quiet_lazy(v[v.len() - 1]));
        reveal_strlit("    @State ");
        lemma_without("    @State "@, 'k');
        reveal_strlit(": PerryListDataSource = new PerryListDataSource(");
        lemma_without(": PerryListDataSource = new PerryListDataSource("@, 'k');
        reveal_strlit(");\n");
        lemma_without(");\n"@, 'k');
        let a = "    @State "@ + s.field_id + ": PerryListDataSource = new PerryListDataSource("@;
        lemma_quiet_between(
            "    @State "@,
            s.field_id,
            ": PerryListDataSource = new PerryListDataSource("@,
        );
        lemma_quiet_between(a, s.items_source, ");\n"@);
        lemma_quiet_then(lazy_fields(front), lazy_field(s));
    }
}

proof fn lemma_method_quiet(v: Seq<SlotView>)
    requires
        forall|i: int| 0 <= i < v.len() ==> quiet_slot(#[trigger] v[i]),
    ensures
        quiet(apply_method(v)),
        apply_method(v).len() > 0,
        apply_method(v).last() == '\n',
{
    reveal_strlit("    applyTextUpdate(id: string, value: string): void {\n        switch (id) {\n");
    lemma_without("    applyTextUpdate(id: string, value: string): void {\n        switch (id) {\n"@, 'k');
    reveal_strlit("            default: break;\n        }\n    }\n");
    lemma_without("            default: break;\n        }\n    }\n"@, 'v');
    lemma_slots_quiet(v);
    lemma_quiet_between(
        "    applyTextUpdate(id: string, value: string): void {\n        switch (id) {\n"@,
        slot_cases(v),
        "            default: break;\n        }\n    }\n"@,
    );
}

/// What comes before the widgets.
spec fn page_start(slots: Seq<SlotView>, lazies: Seq<LazyView>) -> Seq<char> {
    PAGE_HEAD@ + (if lazies.len() == 0 {
        ""@
    } else {
        LAZY_CLASS@
    }) + "@Entry\n@Component\nstruct Index {\n"@ + slot_fields(slots) + lazy_fields(lazies)
        + apply_method(slots) + "    build() {\n        Column() {\n"@
}

proof fn lemma_lazy_class_quiet()
    ensures
        quiet(LAZY_CLASS@),
        LAZY_CLASS@.len() > 0,
        LAZY_CLASS@.last() == '\n',
{
    reveal_strlit(
        "class PerryListDataSource implements IDataSource {\n\
    private items: any[];\n\
    private listeners: DataChangeListener[] = [];\n\
    constructor(items: any[]) { this.items = items; }\n\
    totalCount(): number { return this.items.length; }\n\
    getData(idx: number): any { return this.items[idx]; }\n\
    registerDataChangeListener(listener: DataChangeListener): void { this.listeners.push(listener); }\n\
    unregisterDataChangeListener(listener: DataChangeListener): void { this.listeners = this.listeners.filter(l => l !== listener); }\n\
    }\n\n",
    );
    lemma_without(LAZY_CLASS@, 'k');
}

proof fn lemma_page_head_quiet()
    ensures
        quiet(PAGE_HEAD@),
        PAGE_HEAD@.len() > 0,
        PAGE_HEAD@.last() == '\n',
{
    reveal_strlit(
        "// Auto-generated by Perry (perry-codegen-arkts) — do not edit.\n\
    // Regenerated every `perry compile --target harmonyos`.\n\
    //\n\
    // Source of truth is the `App({body: ...})` call in your\n\
    // TypeScript entry. Edit there; this file is overwritten.\n\
    import perryEntry from 'libentry.so';\n\
    import promptAction from '@ohos.promptAction';\n\
    \n",
    );
    lemma_without(PAGE_HEAD@, 'C');
}

proof fn lemma_page_start_quiet(slots: Seq<SlotView>, lazies: Seq<LazyView>)
    requires
        forall|i: int| 0 <= i < slots.len() ==> quiet_slot(#[trigger] slots[i]),
        forall|i: int| 0 <= i < lazies.len() ==> quiet_lazy(#[trigger] lazies[i]),
    ensures
        quiet(page_start(slots, lazies)),
        page_start(slots, lazies).len() > 0,
        page_start(slots, lazies).last() == '\n',
{
    reveal_strlit("");
    lemma_without(""@, 'k');
    reveal_strlit("@Entry\n@Component\nstruct Index {\n");
    lemma_without("@Entry\n@Component\nstruct Index {\n"@, 'k');
    reveal_strlit("    build() {\n        Column() {\n");
    lemma_without("    build() {\n        Column() {\n"@, 'k');
    lemma_page_head_quiet();
    lemma_lazy_class_quiet();
    lemma_slots_quiet(slots);
    lemma_lazies_quiet(lazies);
    lemma_method_quiet(slots);
    let class = if lazies.len() == 0 {
        ""@
    } else {
        LAZY_CLASS@
    };
    let a = PAGE_HEAD@ + class;
    lemma_quiet_then(PAGE_HEAD@, class);
    let b = a + "@Entry\n@Component\nstruct Index {\n"@;
    lemma_quiet_then(a, "@Entry\n@Component\nstruct Index {\n"@);
    let c = b + slot_fields(slots);
    lemma_quiet_then(b, slot_fields(slots));
    assert(c.last() == '\n');
    let d = c + lazy_fields(lazies);
    lemma_quiet_then(c, lazy_fields(lazies));
    assert(d.last() == '\n');
    let e = d + apply_method(slots);
    lemma_quiet_then(d, apply_method(slots));
    lemma_quiet_then(e, "    build() {\n        Column() {\n"@);
}

proof fn lemma_page_order(body: Seq<char>, emit: EmitView, i: nat, k: nat)
    requires
        quiet_emit(emit),
        in_order(body, i, k),
    ensures
        in_order(page(body, emit.slots, emit.lazies), i, k),
{
    let start = page_start(emit.slots, emit.lazies);
    lemma_page_start_quiet(emit.slots, emit.lazies);
    reveal_strlit("            ");
    lemma_indented(body, "            "@, i, k);
    reveal_strlit("\n        }\n        .width('100%')\n        .height('100%')\n        .justifyContent(FlexAlign.Center)\n    }\n}\n");
    lemma_without("\n        }\n        .width('100%')\n        .height('100%')\n        .justifyContent(FlexAlign.Center)\n    }\n}\n"@, 'k');
    let end =
        "\n        }\n        .width('100%')\n        .height('100%')\n        .justifyContent(FlexAlign.Center)\n    }\n}\n"@;
    lemma_between(start, indented(body, "            "@), end, i, k);
}

// ---------------------------------------------------------------------------
// State variables
// ---------------------------------------------------------------------------

/// What a call begins with does not occur in a quiet text.
proof fn lemma_quiet_unspelled(s: Seq<char>)
    requires
        quiet(s),
    ensures
        !occurs(mark(), s),
{
    if occurs(mark(), s) {
        let (a, b) = choose|a: Seq<char>, b: Seq<char>| split_at(mark(), s, a, b);
        reveal_strlit("perryEntry.invokeCallback");
        let j = a.len() as int;
        assert(s.skip(j).take(mark().len() as int) =~= mark());
        assert(at_mark(s.skip(j)));
    }
}

proof fn lemma_states_quiet(v: Seq<StmtView>)
    requires
        !stmts_have(v, spelled()),
    ensures
        quiet_states(state_registry(v).0),
    decreases v.len(),
{
    if v.len() > 0 {
        let t = spelled();
        let front = v.drop_last();
        lemma_stmts_lack(v, t);
        lemma_stmts_lack(front, t);
        assert forall|i: int| 0 <= i < front.len() implies !stmt_has(#[trigger] front[i], t) by {
            assert(front[i] == v[i]);
        }
        lemma_states_quiet(front);
        let s = v.last();
        assert(!stmt_has(v[v.len() - 1], t));
        lemma_stmt_has(s, t);
        let (before, k) = state_registry(front);
        let all = state_registry(v).0;
        match declared_state(s) {
            Some((id, value)) => {
                reveal_strlit("__state_");
                lemma_without("__state_"@, 'k');
                reveal_strlit("true");
                lemma_without("true"@, 'k');
                reveal_strlit("false");
                lemma_without("false"@, 'k');
                lemma_dec_quiet(k);
                lemma_quiet_then("__state_"@, dec(k));
                match s {
                    StmtView::Let { init: Some(e), .. } => {
                        lemma_args_tame(e);
                        assert(e->NativeMethodCall_args[0] == value);
                        lemma_tame(value);
                        lemma_numeric_quiet(value);
                        match value {
                            ExprView::Integer(n) => lemma_dec_int_quiet(n as int),
                            _ => {},
                        }
                    },
                    _ => {},
                }
                assert forall|x: LocalId| #[trigger] all.contains_key(x) implies quiet(
                    all[x].name,
                ) && quiet(all[x].initial) by {
                    if x != id {
                        assert(before.contains_key(x));
                    }
                }
            },
            None => {},
        }
    }
}

/// Whether no name holds what a call begins with.
spec fn names_tame(names: Map<LocalId, Seq<char>>) -> bool {
    forall|id: LocalId| #[trigger] names.contains_key(id) ==> !occurs(mark(), names[id])
}

/// Rewriting the calls of state variables keeps an expression tame.
proof fn lemma_states_keep_tame(e: ExprView, names: Map<LocalId, Seq<char>>)
    requires
        tame(e),
        names_tame(names),
    ensures
        tame(rewrite_expr(e, Rewrite::State(names))),
    decreases e, 1nat,
{
    let t = spelled();
    let r = Rewrite::State(names);
    let once = rewrite_expr(e, r);
    let kids = rewrite_children(e, r);
    lemma_expr_lacks(e, t);
    assert forall|i: int| 0 <= i < kids.len() implies !expr_has(#[trigger] kids[i], t) by {
        lemma_children_smaller(e, i);
        lemma_states_keep_tame(children(e)[i], names);
    }
    lemma_expr_lacks(once, t);
    if e is Closure {
        lemma_closure_children(e, r);
        match e {
            ExprView::Closure { body, .. } => lemma_states_keep_tame_stmts(body, names),
            _ => {},
        }
    } else {
        match state_set(e, names) {
            Some(name) => {
                lemma_expr_lacks(ExprView::String(name), t);
                reveal_strlit("setText");
                lemma_without("setText"@, 'k');
                lemma_quiet_unspelled("setText"@);
                assert(!expr_has(kids[1], t));
                assert(children(once)[0] == ExprView::String(name));
                assert(children(once)[1] == kids[1]);
            },
            None => lemma_children_of_rebuilt(e, kids),
        }
    }
}

proof fn lemma_states_keep_tame_opt(o: Option<ExprView>, names: Map<LocalId, Seq<char>>)
    requires
        !opt_expr_has(o, spelled()),
        names_tame(names),
    ensures
        o matches Some(e) ==> tame(rewrite_expr(e, Rewrite::State(names))),
    decreases o, 2nat,
{
    match o {
        Some(e) => lemma_states_keep_tame(e, names),
        None => {},
    }
}

proof fn lemma_states_keep_tame_stmts(v: Seq<StmtView>, names: Map<LocalId, Seq<char>>)
    requires
        !stmts_have(v, spelled()),
        names_tame(names),
    ensures
        !stmts_have(rewrite_stmts(v, Rewrite::State(names)), spelled()),
    decreases v, 0nat,
{
    let out = rewrite_stmts(v, Rewrite::State(names));
    lemma_stmts_lack(v, spelled());
    lemma_stmts_lack(out, spelled());
    assert forall|i: int| 0 <= i < out.len() implies !stmt_has(#[trigger] out[i], spelled()) by {
        lemma_states_keep_tame_stmt(v[i], names);
    }
}

proof fn lemma_states_keep_tame_cases(v: Seq<CaseView>, names: Map<LocalId, Seq<char>>)
    requires
        !cases_have(v, spelled()),
        names_tame(names),
    ensures
        !cases_have(rewrite_cases(v, Rewrite::State(names)), spelled()),
    decreases v, 0nat,
{
    let out = rewrite_cases(v, Rewrite::State(names));
    lemma_cases_lack(v, spelled());
    lemma_cases_lack(out, spelled());
    assert forall|i: int| 0 <= i < out.len() implies !opt_expr_has(
        (#[trigger] out[i]).test,
        spelled(),
    ) && !stmts_have(out[i].body, spelled()) by {
        assert(!opt_expr_has(v[i].test, spelled()) && !stmts_have(v[i].body, spelled()));
        match v[i].test {
            Some(e) => lemma_states_keep_tame(e, names),
            None => {},
        }
        lemma_states_keep_tame_stmts(v[i].body, names);
    }
}

proof fn lemma_states_keep_tame_stmt(s: StmtView, names: Map<LocalId, Seq<char>>)
    requires
        !stmt_has(s, spelled()),
        names_tame(names),
    ensures
        !stmt_has(rewrite_stmt(s, Rewrite::State(names)), spelled()),
    decreases s, 0nat,
{
    lemma_stmt_has(s, spelled());
    lemma_stmt_has(rewrite_stmt(s, Rewrite::State(names)), spelled());
    match s {
        StmtView::Let { init: Some(e), .. } => lemma_states_keep_tame(e, names),
        StmtView::Expr(e) => lemma_states_keep_tame(e, names),
        StmtView::Return(Some(e)) => lemma_states_keep_tame(e, names),
        StmtView::Throw(e) => lemma_states_keep_tame(e, names),
        StmtView::If { condition, then_branch, else_branch } => {
            lemma_states_keep_tame(condition, names);
            lemma_states_keep_tame_stmts(then_branch, names);
            match else_branch {
                Some(b) => lemma_states_keep_tame_stmts(b, names),
                None => {},
            }
        },
        StmtView::While { condition, body } => {
            lemma_states_keep_tame(condition, names);
            lemma_states_keep_tame_stmts(body, names);
        },
        StmtView::DoWhile { body, condition } => {
            lemma_states_keep_tame(condition, names);
            lemma_states_keep_tame_stmts(body, names);
        },
        StmtView::For { init, condition, update, body } => {
            match init {
                Some(i) => lemma_states_keep_tame_stmt(*i, names),
                None => {},
            }
            lemma_states_keep_tame_opt(condition, names);
            lemma_states_keep_tame_opt(update, names);
            lemma_states_keep_tame_stmts(body, names);
        },
        StmtView::Labeled { body, .. } => lemma_states_keep_tame_stmt(*body, names),
        StmtView::Try { body, catch, finally } => {
            lemma_states_keep_tame_stmts(body, names);
            match catch {
                Some(c) => lemma_states_keep_tame_stmts(c.body, names),
                None => {},
            }
            match finally {
                Some(b) => lemma_states_keep_tame_stmts(b, names),
                None => {},
            }
        },
        StmtView::Switch { discriminant, cases } => {
            lemma_states_keep_tame(discriminant, names);
            lemma_states_keep_tame_cases(cases, names);
        },
        _ => {},
    }
}

// ---------------------------------------------------------------------------
// Law
// ---------------------------------------------------------------------------

/// The page calls its callbacks in the order in which their widgets are declared: read
/// from left to right, the calls in the source are those of the slots 0, 1, and so on
/// up to the last one, each once. No literal of the program, and no name of a widget in
/// it, holds what a call begins with.
pub proof fn law_page_calls_in_order(m: ModuleView)
    requires
        !stmts_have(m.init, spelled()),
    ensures
        harvest(m) matches HarvestView::Page { source, callbacks, .. } ==> in_order(
            source,
            0,
            callbacks.len(),
        ),
{
    let t = spelled();
    let states = state_registry(m.init).0;
    let names = names_of(states);
    let init = with_states(m.init);
    lemma_states_quiet(m.init);
    assert forall|id: LocalId| #[trigger] names.contains_key(id) implies !occurs(
        mark(),
        names[id],
    ) by {
        assert(states.contains_key(id));
        lemma_quiet_unspelled(states[id].name);
    }
    lemma_states_keep_tame_stmts(m.init, names);
    lemma_stmts_lack(init, t);
    let i = app_index(init, m.classes);
    if i < init.len() {
        lemma_app_found(init, m.classes);
        let call = init[i as int];
        assert(!stmt_has(init[i as int], t));
        lemma_stmt_has(call, t);
        match call {
            StmtView::Expr(e) => {
                assert(app_body(call, m.classes) == app_call(e, m.classes));
                lemma_args_tame(e);
                lemma_prop_lacks(e->NativeMethodCall_args[0], m.classes, "body"@, t);
            },
            _ => {},
        }
        lemma_bindings_lack(init, t);
        let body = app_body(call, m.classes)->0;
        let env = EnvView { bindings: const_bindings(init), classes: m.classes, states };
        let place = PlaceView { depth: 0, locals: Seq::empty() };
        let none = EmitView {
            callbacks: Seq::empty(),
            slots: Seq::empty(),
            lazies: Seq::empty(),
        };
        lemma_widget_order(body, env, place, none, init.len());
        match widget(body, env, place, none, init.len()) {
            Some(run) => {
                lemma_page_order(run.text, run.emit, 0, run.emit.callbacks.len());
            },
            None => {},
        }
    }
}

} // verus!
