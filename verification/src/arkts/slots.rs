//! The texts of widgets call the slots that are registered with them, in order.

use crate::arkts::leaf::{
    button, handler, image, image_source, menu, menu_action, menu_item, menu_items, menu_list,
    picker, picker_options, progress, reactive_id, registered, slider, string_items, string_or,
    text_content, text_slots, text_widget, textfield, toggle, unsupported, EmitView,
};
use crate::arkts::literal::{sanitized, string_lit};
use crate::arkts::order::{
    in_mark, in_order, lemma_between, lemma_call, lemma_indented, lemma_join, lemma_join_quiet,
    lemma_levels, lemma_list_push, lemma_literal, lemma_more, lemma_quiet, lemma_quiet_skip,
    lemma_quiet_then, lemma_then, lemma_without, list_in_order, quiet, seam,
};
use crate::arkts::page::{slot_for, LazyView, SlotView, DRAIN};
use crate::arkts::quiet::{
    all_tame, lemma_dec_quiet, lemma_numeric_or_quiet, lemma_prop_tame, lemma_props_tame,
    lemma_sanitized_quiet, lemma_tame, tame,
};
use crate::arkts::refs::{plain_call, value_call};
use crate::arkts::state::StateView;
use crate::arkts::value::{at, find_prop, items_of, numeric_or, string_of};
use crate::arkts::widget::{
    eager_text, for_each_text, grid_item_text, grid_text, invalid_tab_text, lazy_field_id,
    lazy_text, scroll_text, section_text, stack_text, stacked, tab_text, tabs_text,
};
use crate::hir::LocalId;
use crate::model::ExprView;
use crate::text::{begins_with, dec, indented, join, levels};
use vstd::prelude::*;

verus! {

// ---------------------------------------------------------------------------
// What is registered
// ---------------------------------------------------------------------------

pub open spec fn quiet_slot(s: SlotView) -> bool {
    quiet(s.original_id) && quiet(s.field_id) && quiet(s.initial)
}

pub open spec fn quiet_lazy(s: LazyView) -> bool {
    quiet(s.field_id) && quiet(s.items_source)
}

/// Whether no registered text calls a callback.
pub open spec fn quiet_emit(emit: EmitView) -> bool {
    &&& forall|i: int| 0 <= i < emit.slots.len() ==> quiet_slot(#[trigger] emit.slots[i])
    &&& forall|i: int| 0 <= i < emit.lazies.len() ==> quiet_lazy(#[trigger] emit.lazies[i])
}

pub open spec fn quiet_states(states: Map<LocalId, StateView>) -> bool {
    forall|id: LocalId| #[trigger]
        states.contains_key(id) ==> quiet(states[id].name) && quiet(states[id].initial)
}

/// Whether the text calls the slots that were registered with it, in order, and ends
/// where nothing can go on.
pub open spec fn in_turn(text: Seq<char>, before: EmitView, after: EmitView) -> bool {
    &&& in_order(text, before.callbacks.len(), after.callbacks.len())
    &&& text.len() > 0
    &&& !in_mark(text.last())
    &&& quiet_emit(after)
}

pub open spec fn list_in_turn(texts: Seq<Seq<char>>, before: EmitView, after: EmitView) -> bool {
    list_in_order(texts, before.callbacks.len(), after.callbacks.len()) && quiet_emit(after)
}

pub proof fn lemma_quiet_in_turn(text: Seq<char>, emit: EmitView)
    requires
        quiet(text),
        text.len() > 0,
        !in_mark(text.last()),
        quiet_emit(emit),
    ensures
        in_turn(text, emit, emit),
{
    lemma_quiet(text, emit.callbacks.len());
}

pub proof fn lemma_slot_pushed(emit: EmitView, s: SlotView)
    requires
        quiet_emit(emit),
        quiet_slot(s),
    ensures
        quiet_emit(EmitView { slots: emit.slots.push(s), ..emit }),
{
    let all = emit.slots.push(s);
    assert forall|i: int| 0 <= i < all.len() implies quiet_slot(#[trigger] all[i]) by {
        if i < emit.slots.len() {
            assert(all[i] == emit.slots[i]);
        }
    }
}

pub proof fn lemma_lazy_pushed(emit: EmitView, s: LazyView)
    requires
        quiet_emit(emit),
        quiet_lazy(s),
    ensures
        quiet_emit(EmitView { lazies: emit.lazies.push(s), ..emit }),
{
    let all = emit.lazies.push(s);
    assert forall|i: int| 0 <= i < all.len() implies quiet_lazy(#[trigger] all[i]) by {
        if i < emit.lazies.len() {
            assert(all[i] == emit.lazies[i]);
        }
    }
}

/// A quiet text between two others.
pub proof fn lemma_quiet_between(a: Seq<char>, s: Seq<char>, b: Seq<char>)
    requires
        quiet(a),
        quiet(s),
        quiet(b),
        seam(a, s),
        seam(a + s, b),
    ensures
        quiet(a + s + b),
{
    lemma_quiet_then(a, s);
    lemma_quiet_then(a + s, b);
}

pub proof fn lemma_arg_tame(args: Seq<ExprView>, i: int)
    requires
        all_tame(args),
    ensures
        at(args, i) matches Some(e) ==> tame(e),
{
}

pub proof fn lemma_string_or_quiet(o: Option<ExprView>, other: Seq<char>)
    requires
        o matches Some(e) ==> tame(e),
        quiet(other),
    ensures
        quiet(string_or(o, other)),
        string_of(o) matches Some(s) ==> quiet(s),
{
    match o {
        Some(e) => lemma_tame(e),
        None => {},
    }
}

// ---------------------------------------------------------------------------
// Handlers
// ---------------------------------------------------------------------------

/// A handler calls the slot that its closure gets.
proof fn lemma_handler(
    e: Option<ExprView>,
    lead: Seq<char>,
    call: Seq<char>,
    rest: Seq<char>,
    head: Seq<char>,
    tail: Seq<char>,
    callbacks: Seq<ExprView>,
)
    requires
        call == plain_call(callbacks.len()) || call == value_call(callbacks.len()),
        head + dec(callbacks.len()) + tail == lead + call + rest,
        quiet(lead),
        lead.len() > 0,
        !in_mark(lead.last()),
        quiet(rest),
        rest.len() > 0,
        !in_mark(rest.last()),
    ensures
        in_order(
            handler(e, head, tail, callbacks),
            callbacks.len(),
            registered(e, callbacks).len(),
        ),
        handler(e, head, tail, callbacks).len() > 0 ==> handler(e, head, tail, callbacks).last()
            == ')',
{
    let n = callbacks.len();
    let text = handler(e, head, tail, callbacks);
    if e is Some && e->0 is Closure {
        reveal_strlit(
            "let __t = perryEntry.drainToast();\n    \
    while (__t !== undefined) { \
    promptAction.showToast({ message: __t }); \
    __t = perryEntry.drainToast(); \
    }\n    \
    let __u = perryEntry.drainTextUpdate();\n    \
    while (__u !== undefined) { \
    this.applyTextUpdate(__u.id, __u.value); \
    __u = perryEntry.drainTextUpdate(); \
    }\n  ",
        );
        lemma_without(DRAIN@, 'k');
        reveal_strlit("})");
        lemma_without("})"@, 'k');
        lemma_quiet_then(rest, DRAIN@);
        lemma_quiet_then(rest + DRAIN@, "})"@);
        let after = rest + DRAIN@ + "})"@;
        lemma_call(lead, call, after, n);
        assert(text =~= lead + call + after);
    } else {
        lemma_quiet(text, n);
    }
}

proof fn lemma_click(e: Option<ExprView>, callbacks: Seq<ExprView>)
    ensures
        ({
            let text = handler(
                e,
                ".onClick(() => {\n    perryEntry.invokeCallback("@,
                ");\n    "@,
                callbacks,
            );
            &&& in_order(text, callbacks.len(), registered(e, callbacks).len())
            &&& text.len() > 0 ==> text.last() == ')'
        }),
{
    reveal_strlit(".onClick(() => {\n    perryEntry.invokeCallback(");
    reveal_strlit("perryEntry.invokeCallback(");
    reveal_strlit(");\n    ");
    reveal_strlit(")");
    reveal_strlit(".onClick(() => {\n    ");
    lemma_without(".onClick(() => {\n    "@, 'v');
    reveal_strlit(";\n    ");
    lemma_without(";\n    "@, 'k');
    let head = ".onClick(() => {\n    perryEntry.invokeCallback("@;
    let tail = ");\n    "@;
    let lead = ".onClick(() => {\n    "@;
    let call = plain_call(callbacks.len());
    assert(head =~= lead + "perryEntry.invokeCallback("@);
    assert(tail =~= ")"@ + ";\n    "@);
    assert(head + dec(callbacks.len()) + tail =~= lead + call + ";\n    "@);
    lemma_handler(e, lead, call, ";\n    "@, head, tail, callbacks);
}

proof fn lemma_field(e: Option<ExprView>, callbacks: Seq<ExprView>)
    ensures
        ({
            let text = handler(
                e,
                ".onChange((value: string) => {\n    perryEntry.invokeCallback1("@,
                ", value);\n    "@,
                callbacks,
            );
            &&& in_order(text, callbacks.len(), registered(e, callbacks).len())
            &&& text.len() > 0 ==> text.last() == ')'
        }),
{
    reveal_strlit(".onChange((value: string) => {\n    perryEntry.invokeCallback1(");
    reveal_strlit("perryEntry.invokeCallback1(");
    reveal_strlit(", value);\n    ");
    reveal_strlit(",");
    reveal_strlit(".onChange((value: string) => {\n    ");
    lemma_without(".onChange((value: string) => {\n    "@, 'k');
    reveal_strlit(" value);\n    ");
    lemma_without(" value);\n    "@, 'k');
    let head = ".onChange((value: string) => {\n    perryEntry.invokeCallback1("@;
    let tail = ", value);\n    "@;
    let lead = ".onChange((value: string) => {\n    "@;
    let rest = " value);\n    "@;
    let call = value_call(callbacks.len());
    assert(head =~= lead + "perryEntry.invokeCallback1("@);
    assert(tail =~= ","@ + rest);
    assert(head + dec(callbacks.len()) + tail =~= lead + call + rest);
    lemma_handler(e, lead, call, rest, head, tail, callbacks);
}

proof fn lemma_switch(e: Option<ExprView>, callbacks: Seq<ExprView>)
    ensures
        ({
            let text = handler(
                e,
                ".onChange((isOn: boolean) => {\n    perryEntry.invokeCallback1("@,
                ", isOn);\n    "@,
                callbacks,
            );
            &&& in_order(text, callbacks.len(), registered(e, callbacks).len())
            &&& text.len() > 0 ==> text.last() == ')'
        }),
{
    reveal_strlit(".onChange((isOn: boolean) => {\n    perryEntry.invokeCallback1(");
    reveal_strlit("perryEntry.invokeCallback1(");
    reveal_strlit(", isOn);\n    ");
    reveal_strlit(",");
    reveal_strlit(".onChange((isOn: boolean) => {\n    ");
    lemma_without(".onChange((isOn: boolean) => {\n    "@, 'k');
    reveal_strlit(" isOn);\n    ");
    lemma_without(" isOn);\n    "@, 'k');
    let head = ".onChange((isOn: boolean) => {\n    perryEntry.invokeCallback1("@;
    let tail = ", isOn);\n    "@;
    let lead = ".onChange((isOn: boolean) => {\n    "@;
    let rest = " isOn);\n    "@;
    let call = value_call(callbacks.len());
    assert(head =~= lead + "perryEntry.invokeCallback1("@);
    assert(tail =~= ","@ + rest);
    assert(head + dec(callbacks.len()) + tail =~= lead + call + rest);
    lemma_handler(e, lead, call, rest, head, tail, callbacks);
}

proof fn lemma_slide(e: Option<ExprView>, callbacks: Seq<ExprView>)
    ensures
        ({
            let text = handler(
                e,
                ".onChange((value: number, _mode: SliderChangeMode) => {\n    perryEntry.invokeCallback1("@,
                ", value);\n    "@,
                callbacks,
            );
            &&& in_order(text, callbacks.len(), registered(e, callbacks).len())
            &&& text.len() > 0 ==> text.last() == ')'
        }),
{
    reveal_strlit(".onChange((value: number, _mode: SliderChangeMode) => {\n    perryEntry.invokeCallback1(");
    reveal_strlit("perryEntry.invokeCallback1(");
    reveal_strlit(", value);\n    ");
    reveal_strlit(",");
    reveal_strlit(".onChange((value: number, _mode: SliderChangeMode) => {\n    ");
    lemma_without(".onChange((value: number, _mode: SliderChangeMode) => {\n    "@, 'k');
    reveal_strlit(" value);\n    ");
    lemma_without(" value);\n    "@, 'k');
    let head = ".onChange((value: number, _mode: SliderChangeMode) => {\n    perryEntry.invokeCallback1("@;
    let tail = ", value);\n    "@;
    let lead = ".onChange((value: number, _mode: SliderChangeMode) => {\n    "@;
    let rest = " value);\n    "@;
    let call = value_call(callbacks.len());
    assert(head =~= lead + "perryEntry.invokeCallback1("@);
    assert(tail =~= ","@ + rest);
    assert(head + dec(callbacks.len()) + tail =~= lead + call + rest);
    lemma_handler(e, lead, call, rest, head, tail, callbacks);
}

proof fn lemma_pick(e: Option<ExprView>, callbacks: Seq<ExprView>)
    ensures
        ({
            let text = handler(
                e,
                ".onChange((_value: string, index: number) => {\n    perryEntry.invokeCallback1("@,
                ", index);\n    "@,
                callbacks,
            );
            &&& in_order(text, callbacks.len(), registered(e, callbacks).len())
            &&& text.len() > 0 ==> text.last() == ')'
        }),
{
    reveal_strlit(".onChange((_value: string, index: number) => {\n    perryEntry.invokeCallback1(");
    reveal_strlit("perryEntry.invokeCallback1(");
    reveal_strlit(", index);\n    ");
    reveal_strlit(",");
    reveal_strlit(".onChange((_value: string, index: number) => {\n    ");
    lemma_without(".onChange((_value: string, index: number) => {\n    "@, 'k');
    reveal_strlit(" index);\n    ");
    lemma_without(" index);\n    "@, 'k');
    let head = ".onChange((_value: string, index: number) => {\n    perryEntry.invokeCallback1("@;
    let tail = ", index);\n    "@;
    let lead = ".onChange((_value: string, index: number) => {\n    "@;
    let rest = " index);\n    "@;
    let call = value_call(callbacks.len());
    assert(head =~= lead + "perryEntry.invokeCallback1("@);
    assert(tail =~= ","@ + rest);
    assert(head + dec(callbacks.len()) + tail =~= lead + call + rest);
    lemma_handler(e, lead, call, rest, head, tail, callbacks);
}

// ---------------------------------------------------------------------------
// Widgets without children
// ---------------------------------------------------------------------------

/// A quiet text with a handler behind it.
proof fn lemma_handled(
    base: Seq<char>,
    h: Seq<char>,
    e: Option<ExprView>,
    emit: EmitView,
)
    requires
        quiet(base),
        base.len() > 0,
        !in_mark(base.last()),
        in_order(h, emit.callbacks.len(), registered(e, emit.callbacks).len()),
        h.len() > 0 ==> h.last() == ')',
        quiet_emit(emit),
    ensures
        in_turn(base + h, emit, EmitView { callbacks: registered(e, emit.callbacks), ..emit }),
{
    let n = emit.callbacks.len();
    lemma_quiet(base, n);
    lemma_then(base, h, n, n, registered(e, emit.callbacks).len());
    if h.len() == 0 {
        assert(base + h =~= base);
    }
}

pub proof fn lemma_text(args: Seq<ExprView>, locals: Seq<LocalId>, emit: EmitView)
    requires
        all_tame(args),
        quiet_emit(emit),
    ensures
        in_turn(
            text_widget(args, locals),
            emit,
            EmitView { slots: text_slots(args, emit.slots), ..emit },
        ),
{
    let text = text_widget(args, locals);
    reveal_strlit("");
    lemma_without(""@, 'k');
    lemma_arg_tame(args, 0);
    lemma_arg_tame(args, 1);
    lemma_string_or_quiet(at(args, 0), ""@);
    lemma_string_or_quiet(at(args, 1), ""@);
    reveal_strlit("Text('[non-literal Text arg]').fontSize(20).fontColor('#888888')");
    lemma_without("Text('[non-literal Text arg]').fontSize(20).fontColor('#888888')"@, 'k');
    reveal_strlit(").fontSize(20)");
    lemma_without(").fontSize(20)"@, 'k');
    match text_content(at(args, 0), locals) {
        Some(content) => {
            match reactive_id(args) {
                Some(id) => {
                    reveal_strlit("Text(this.text_");
                    lemma_without("Text(this.text_"@, 'k');
                    lemma_sanitized_quiet(id);
                    lemma_quiet_between("Text(this.text_"@, sanitized(id), ").fontSize(20)"@);
                },
                None => {
                    reveal_strlit("Text(");
                    lemma_without("Text("@, 'k');
                    reveal_strlit("__item");
                    lemma_without("__item"@, 'k');
                    match string_of(at(args, 0)) {
                        Some(s) => lemma_literal(s),
                        None => {},
                    }
                    lemma_quiet_between("Text("@, content, ").fontSize(20)"@);
                },
            }
        },
        None => {},
    }
    match reactive_id(args) {
        Some(id) => {
            lemma_sanitized_quiet(id);
            lemma_slot_pushed(emit, slot_for(id, string_of(at(args, 0))->0));
        },
        None => {},
    }
    lemma_quiet(text, emit.callbacks.len());
}

pub proof fn lemma_button(label: Seq<char>, action: Option<ExprView>, emit: EmitView)
    requires
        quiet(label),
        quiet_emit(emit),
    ensures
        in_turn(
            button(label, action, emit.callbacks),
            emit,
            EmitView { callbacks: registered(action, emit.callbacks), ..emit },
        ),
{
    reveal_strlit("Button(");
    lemma_without("Button("@, 'k');
    reveal_strlit(").fontSize(16)");
    lemma_without(").fontSize(16)"@, 'k');
    lemma_literal(label);
    lemma_quiet_between("Button("@, string_lit(label), ").fontSize(16)"@);
    lemma_click(action, emit.callbacks);
    let h = handler(
        action,
        ".onClick(() => {\n    perryEntry.invokeCallback("@,
        ");\n    "@,
        emit.callbacks,
    );
    lemma_handled("Button("@ + string_lit(label) + ").fontSize(16)"@, h, action, emit);
}

pub proof fn lemma_textfield(args: Seq<ExprView>, emit: EmitView)
    requires
        all_tame(args),
        quiet_emit(emit),
    ensures
        in_turn(
            textfield(args, emit.callbacks),
            emit,
            EmitView { callbacks: registered(at(args, 1), emit.callbacks), ..emit },
        ),
{
    reveal_strlit("");
    lemma_without(""@, 'k');
    reveal_strlit("TextInput({ placeholder: ");
    lemma_without("TextInput({ placeholder: "@, 'k');
    reveal_strlit(" })");
    lemma_without(" })"@, 'k');
    let hint = string_or(at(args, 0), ""@);
    lemma_arg_tame(args, 0);
    lemma_string_or_quiet(at(args, 0), ""@);
    lemma_literal(hint);
    lemma_quiet_between("TextInput({ placeholder: "@, string_lit(hint), " })"@);
    lemma_field(at(args, 1), emit.callbacks);
    let h = handler(
        at(args, 1),
        ".onChange((value: string) => {\n    perryEntry.invokeCallback1("@,
        ", value);\n    "@,
        emit.callbacks,
    );
    let base = "TextInput({ placeholder: "@ + string_lit(hint) + " })"@;
    lemma_handled(base, h, at(args, 1), emit);
}

pub proof fn lemma_toggle(args: Seq<ExprView>, emit: EmitView)
    requires
        all_tame(args),
        quiet_emit(emit),
    ensures
        in_turn(
            toggle(args, emit.callbacks),
            emit,
            EmitView { callbacks: registered(at(args, 1), emit.callbacks), ..emit },
        ),
{
    reveal_strlit("");
    lemma_without(""@, 'k');
    reveal_strlit("Toggle({ type: ToggleType.Switch, isOn: false })");
    lemma_without("Toggle({ type: ToggleType.Switch, isOn: false })"@, 'k');
    let label = string_or(at(args, 0), ""@);
    lemma_arg_tame(args, 0);
    lemma_string_or_quiet(at(args, 0), ""@);
    lemma_switch(at(args, 1), emit.callbacks);
    let h = handler(
        at(args, 1),
        ".onChange((isOn: boolean) => {\n    perryEntry.invokeCallback1("@,
        ", isOn);\n    "@,
        emit.callbacks,
    );
    if label.len() == 0 {
        lemma_handled("Toggle({ type: ToggleType.Switch, isOn: false })"@, h, at(args, 1), emit);
    } else {
        reveal_strlit("Row({ space: 8 }) {\n    Text(");
        lemma_without("Row({ space: 8 }) {\n    Text("@, 'k');
        reveal_strlit(").fontSize(16)\n    Toggle({ type: ToggleType.Switch, isOn: false })");
        lemma_without(").fontSize(16)\n    Toggle({ type: ToggleType.Switch, isOn: false })"@, 'k');
        reveal_strlit("\n}");
        lemma_without("\n}"@, 'k');
        lemma_literal(label);
        let base = "Row({ space: 8 }) {\n    Text("@ + string_lit(label)
            + ").fontSize(16)\n    Toggle({ type: ToggleType.Switch, isOn: false })"@;
        lemma_quiet_between(
            "Row({ space: 8 }) {\n    Text("@,
            string_lit(label),
            ").fontSize(16)\n    Toggle({ type: ToggleType.Switch, isOn: false })"@,
        );
        lemma_handled(base, h, at(args, 1), emit);
        lemma_more(
            base + h,
            "\n}"@,
            emit.callbacks.len(),
            registered(at(args, 1), emit.callbacks).len(),
        );
    }
}

pub proof fn lemma_slider(args: Seq<ExprView>, emit: EmitView)
    requires
        all_tame(args),
        quiet_emit(emit),
    ensures
        in_turn(
            slider(args, emit.callbacks),
            emit,
            EmitView { callbacks: registered(at(args, 2), emit.callbacks), ..emit },
        ),
{
    reveal_strlit("0");
    lemma_without("0"@, 'k');
    reveal_strlit("100");
    lemma_without("100"@, 'k');
    reveal_strlit("Slider({ value: ");
    lemma_without("Slider({ value: "@, 'k');
    reveal_strlit(", min: ");
    lemma_without(", min: "@, 'k');
    reveal_strlit(", max: ");
    lemma_without(", max: "@, 'k');
    reveal_strlit(", step: 1, style: SliderStyle.OutSet })");
    lemma_without(", step: 1, style: SliderStyle.OutSet })"@, 'k');
    lemma_arg_tame(args, 0);
    lemma_arg_tame(args, 1);
    let min = numeric_or(at(args, 0), "0"@);
    let max = numeric_or(at(args, 1), "100"@);
    lemma_numeric_or_quiet(at(args, 0), "0"@);
    lemma_numeric_or_quiet(at(args, 1), "100"@);
    let a = "Slider({ value: "@ + min + ", min: "@;
    lemma_quiet_between("Slider({ value: "@, min, ", min: "@);
    let b = a + min + ", max: "@;
    lemma_quiet_between(a, min, ", max: "@);
    let base = b + max + ", step: 1, style: SliderStyle.OutSet })"@;
    lemma_quiet_between(b, max, ", step: 1, style: SliderStyle.OutSet })"@);
    lemma_slide(at(args, 2), emit.callbacks);
    let h = handler(
        at(args, 2),
        ".onChange((value: number, _mode: SliderChangeMode) => {\n    perryEntry.invokeCallback1("@,
        ", value);\n    "@,
        emit.callbacks,
    );
    lemma_handled(base, h, at(args, 2), emit);
}

pub proof fn lemma_image(args: Seq<ExprView>, emit: EmitView)
    requires
        all_tame(args),
        quiet_emit(emit),
    ensures
        in_turn(image(args), emit, emit),
{
    reveal_strlit("");
    lemma_without(""@, 'k');
    reveal_strlit("Text('[non-literal Image src]').fontSize(16).fontColor('#888888')");
    lemma_without("Text('[non-literal Image src]').fontSize(16).fontColor('#888888')"@, 'k');
    lemma_arg_tame(args, 0);
    lemma_string_or_quiet(at(args, 0), ""@);
    match string_of(at(args, 0)) {
        Some(s) => {
            reveal_strlit("Image(");
            lemma_without("Image("@, 'k');
            reveal_strlit(").width('100%').height(200)");
            lemma_without(").width('100%').height(200)"@, 'k');
            reveal_strlit("$r('app.media.");
            lemma_without("$r('app.media."@, 'k');
            reveal_strlit("$r('app.icon.");
            lemma_without("$r('app.icon."@, 'k');
            reveal_strlit("')");
            lemma_without("')"@, 'k');
            lemma_literal(s);
            if begins_with(s, "@app.media/"@) {
                let rest = s.skip("@app.media/"@.len() as int);
                lemma_quiet_skip(s, "@app.media/"@.len() as int);
                lemma_quiet_between("$r('app.media."@, rest, "')"@);
            } else if begins_with(s, "@app.icon/"@) {
                let rest = s.skip("@app.icon/"@.len() as int);
                lemma_quiet_skip(s, "@app.icon/"@.len() as int);
                lemma_quiet_between("$r('app.icon."@, rest, "')"@);
            }
            lemma_quiet_between("Image("@, image_source(s), ").width('100%').height(200)"@);
        },
        None => {},
    }
    lemma_quiet_in_turn(image(args), emit);
}

proof fn lemma_string_items_quiet(items: Seq<ExprView>)
    requires
        all_tame(items),
    ensures
        forall|i: int|
            0 <= i < string_items(items).len() ==> quiet(#[trigger] string_items(items)[i]),
    decreases items.len(),
{
    if items.len() > 0 {
        let front = items.drop_last();
        assert forall|i: int| 0 <= i < front.len() implies tame(#[trigger] front[i]) by {
            assert(front[i] == items[i]);
        }
        lemma_string_items_quiet(front);
        assert(tame(items[items.len() - 1]));
        lemma_tame(items.last());
        match items.last() {
            ExprView::String(s) => lemma_literal(s),
            _ => {},
        }
        let all = string_items(items);
        assert forall|i: int| 0 <= i < all.len() implies quiet(#[trigger] all[i]) by {
            if i < string_items(front).len() {
                assert(all[i] == string_items(front)[i]);
            }
        }
    }
}

pub proof fn lemma_picker(args: Seq<ExprView>, emit: EmitView)
    requires
        all_tame(args),
        quiet_emit(emit),
    ensures
        in_turn(
            picker(args, emit.callbacks),
            emit,
            EmitView { callbacks: registered(at(args, 1), emit.callbacks), ..emit },
        ),
{
    reveal_strlit("TextPicker({ range: [");
    lemma_without("TextPicker({ range: ["@, 'v');
    reveal_strlit(", ");
    lemma_without(", "@, 'k');
    reveal_strlit("], value: ");
    lemma_without("], value: "@, 'k');
    reveal_strlit("''");
    lemma_without("''"@, 'k');
    reveal_strlit(" })");
    lemma_without(" })"@, 'k');
    let options = picker_options(args);
    match items_of(at(args, 0)) {
        Some(items) => {
            lemma_tame(args[0]);
            lemma_string_items_quiet(items);
        },
        None => {},
    }
    lemma_join_quiet(options, ", "@);
    let range = join(options, ", "@);
    let chosen = if options.len() == 0 {
        "''"@
    } else {
        options[0]
    };
    let a = "TextPicker({ range: ["@ + range + "], value: "@;
    lemma_quiet_between("TextPicker({ range: ["@, range, "], value: "@);
    lemma_quiet_between(a, chosen, " })"@);
    lemma_pick(at(args, 1), emit.callbacks);
    let h = handler(
        at(args, 1),
        ".onChange((_value: string, index: number) => {\n    perryEntry.invokeCallback1("@,
        ", index);\n    "@,
        emit.callbacks,
    );
    lemma_handled(a + chosen + " })"@, h, at(args, 1), emit);
}

pub proof fn lemma_progress(args: Seq<ExprView>, emit: EmitView)
    requires
        all_tame(args),
        quiet_emit(emit),
    ensures
        in_turn(progress(args), emit, emit),
{
    reveal_strlit("0");
    lemma_without("0"@, 'k');
    reveal_strlit("100");
    lemma_without("100"@, 'k');
    reveal_strlit("Progress({ value: ");
    lemma_without("Progress({ value: "@, 'k');
    reveal_strlit(", total: ");
    lemma_without(", total: "@, 'k');
    reveal_strlit(", type: ProgressType.Linear })");
    lemma_without(", type: ProgressType.Linear })"@, 'k');
    lemma_arg_tame(args, 0);
    lemma_arg_tame(args, 1);
    lemma_numeric_or_quiet(at(args, 0), "0"@);
    lemma_numeric_or_quiet(at(args, 1), "100"@);
    let value = numeric_or(at(args, 0), "0"@);
    let total = numeric_or(at(args, 1), "100"@);
    lemma_quiet_between("Progress({ value: "@, value, ", total: "@);
    lemma_quiet_between(
        "Progress({ value: "@ + value + ", total: "@,
        total,
        ", type: ProgressType.Linear })"@,
    );
    lemma_quiet_in_turn(progress(args), emit);
}

proof fn lemma_menu_items(items: Seq<ExprView>, emit: EmitView)
    requires
        all_tame(items),
        quiet_emit(emit),
    ensures
        list_in_order(
            menu_items(items, emit.callbacks).0,
            emit.callbacks.len(),
            menu_items(items, emit.callbacks).1.len(),
        ),
    decreases items.len(),
{
    if items.len() > 0 {
        let front = items.drop_last();
        assert forall|i: int| 0 <= i < front.len() implies tame(#[trigger] front[i]) by {
            assert(front[i] == items[i]);
        }
        lemma_menu_items(front, emit);
        let (texts, cbs) = menu_items(front, emit.callbacks);
        let e = items.last();
        assert(tame(items[items.len() - 1]));
        reveal_strlit("Text('[invalid menu item]').fontSize(14).fontColor('#888888')");
        lemma_without("Text('[invalid menu item]').fontSize(14).fontColor('#888888')"@, 'k');
        reveal_strlit("Item");
        lemma_without("Item"@, 'k');
        match e {
            ExprView::Object(props) => {
                lemma_props_tame(e, Seq::empty());
                lemma_prop_tame(props, "label"@);
                let label = find_prop(props, "label"@);
                lemma_string_or_quiet(label, "Item"@);
                lemma_button(
                    string_or(label, "Item"@),
                    menu_action(e),
                    EmitView { callbacks: cbs, ..emit },
                );
            },
            _ => lemma_quiet(menu_item(e, cbs), cbs.len()),
        }
        lemma_list_push(
            texts,
            menu_item(e, cbs),
            emit.callbacks.len(),
            cbs.len(),
            registered(menu_action(e), cbs).len(),
        );
    }
}

pub proof fn lemma_menu(args: Seq<ExprView>, emit: EmitView)
    requires
        all_tame(args),
        quiet_emit(emit),
    ensures
        in_turn(
            menu(args, emit.callbacks),
            emit,
            EmitView { callbacks: menu_items(menu_list(args), emit.callbacks).1, ..emit },
        ),
{
    if menu_list(args).len() > 0 {
        lemma_tame(args[0]);
    }
    lemma_menu_items(menu_list(args), emit);
    let (texts, cbs) = menu_items(menu_list(args), emit.callbacks);
    reveal_strlit("Column({ space: 4 }) {\n    ");
    lemma_without("Column({ space: 4 }) {\n    "@, 'k');
    reveal_strlit("\n    ");
    lemma_without("\n    "@, 'k');
    reveal_strlit("\n}");
    lemma_without("\n}"@, 'k');
    lemma_join(texts, "\n    "@, emit.callbacks.len(), cbs.len());
    lemma_between(
        "Column({ space: 4 }) {\n    "@,
        join(texts, "\n    "@),
        "\n}"@,
        emit.callbacks.len(),
        cbs.len(),
    );
}

pub proof fn lemma_unsupported(name: Seq<char>, emit: EmitView)
    requires
        quiet(name),
        quiet_emit(emit),
    ensures
        in_turn(unsupported(name), emit, emit),
{
    reveal_strlit("// unsupported perry/ui widget: ");
    lemma_without("// unsupported perry/ui widget: "@, 'k');
    reveal_strlit(" (Phase 2 v12)\nText('[unsupported: ");
    lemma_without(" (Phase 2 v12)\nText('[unsupported: "@, 'k');
    reveal_strlit("]').fontSize(16).fontColor('#888888')");
    lemma_without("]').fontSize(16).fontColor('#888888')"@, 'k');
    let a = "// unsupported perry/ui widget: "@ + name + " (Phase 2 v12)\nText('[unsupported: "@;
    lemma_quiet_between(
        "// unsupported perry/ui widget: "@,
        name,
        " (Phase 2 v12)\nText('[unsupported: "@,
    );
    lemma_quiet_between(a, name, "]').fontSize(16).fontColor('#888888')"@);
    lemma_quiet_in_turn(unsupported(name), emit);
}

// ---------------------------------------------------------------------------
// Containers
// ---------------------------------------------------------------------------

/// Texts that are each changed so that they call what they called.
proof fn lemma_list_mapped(
    v: Seq<Seq<char>>,
    f: spec_fn(Seq<char>) -> Seq<char>,
    i: nat,
    k: nat,
)
    requires
        list_in_order(v, i, k),
        forall|s: Seq<char>, a: nat, b: nat| #[trigger] in_order(s, a, b) ==> in_order(f(s), a, b),
    ensures
        list_in_order(v.map_values(f), i, k),
    decreases v.len(),
{
    let out = v.map_values(f);
    if v.len() > 0 {
        let front = v.drop_last();
        let j = choose|j: nat| list_in_order(front, i, j) && #[trigger] in_order(v.last(), j, k);
        lemma_list_mapped(front, f, i, j);
        assert(out.drop_last() =~= front.map_values(f));
        lemma_list_push(out.drop_last(), f(v.last()), i, j, k);
        assert(out =~= out.drop_last().push(f(v.last())));
    }
}

proof fn lemma_stacked(texts: Seq<Seq<char>>, level: nat, i: nat, k: nat)
    requires
        list_in_order(texts, i, k),
    ensures
        in_order(stacked(texts, level), i, k),
{
    let f = |t: Seq<char>| indented(t, levels(level));
    lemma_levels(level);
    assert forall|s: Seq<char>, a: nat, b: nat| #[trigger] in_order(s, a, b) implies in_order(
        f(s),
        a,
        b,
    ) by {
        lemma_indented(s, levels(level), a, b);
    }
    lemma_list_mapped(texts, f, i, k);
    reveal_strlit("\n");
    lemma_without("\n"@, 'k');
    lemma_join(texts.map_values(f), "\n"@, i, k);
}

/// The end of a block: a new line, the padding, and what closes it.
proof fn lemma_close(depth: nat, close: Seq<char>)
    requires
        quiet(close),
        close.len() > 0,
        !in_mark(close[0]),
    ensures
        quiet("\n"@ + levels(depth) + close),
        ("\n"@ + levels(depth) + close)[0] == '\n',
        ("\n"@ + levels(depth) + close).last() == close.last(),
{
    reveal_strlit("\n");
    lemma_without("\n"@, 'k');
    lemma_levels(depth);
    lemma_quiet_then("\n"@, levels(depth));
    lemma_quiet_then("\n"@ + levels(depth), close);
}

/// A padded line of a head.
proof fn lemma_padded(a: Seq<char>, depth: nat, s: Seq<char>)
    requires
        quiet(a),
        a.len() > 0,
        !in_mark(a.last()),
        quiet(s),
    ensures
        quiet(a + levels(depth) + s),
{
    lemma_levels(depth);
    lemma_quiet_then(a, levels(depth));
    lemma_quiet_then(a + levels(depth), s);
}

pub proof fn lemma_stack_text(
    kind: Seq<char>,
    space: Seq<char>,
    texts: Seq<Seq<char>>,
    depth: nat,
    i: nat,
    k: nat,
)
    requires
        quiet(kind),
        quiet(space),
        list_in_order(texts, i, k),
    ensures
        in_order(stack_text(kind, space, texts, depth), i, k),
        stack_text(kind, space, texts, depth).last() == '}',
        stack_text(kind, space, texts, depth).len() > 0,
{
    reveal_strlit("({ space: ");
    lemma_without("({ space: "@, 'k');
    reveal_strlit(" }) {\n");
    lemma_without(" }) {\n"@, 'k');
    reveal_strlit("\n");
    lemma_without("\n"@, 'k');
    reveal_strlit("}");
    lemma_without("}"@, 'k');
    lemma_quiet_then(kind, "({ space: "@);
    lemma_quiet_between(kind + "({ space: "@, space, " }) {\n"@);
    let head = kind + "({ space: "@ + space + " }) {\n"@;
    lemma_stacked(texts, depth + 1, i, k);
    lemma_close(depth, "}"@);
    let tail = "\n"@ + levels(depth) + "}"@;
    lemma_between(head, stacked(texts, depth + 1), tail, i, k);
    assert(stack_text(kind, space, texts, depth) =~= head + stacked(texts, depth + 1) + tail);
}

pub proof fn lemma_scroll_text(texts: Seq<Seq<char>>, depth: nat, i: nat, k: nat)
    requires
        list_in_order(texts, i, k),
    ensures
        in_order(scroll_text(texts, depth), i, k),
        scroll_text(texts, depth).last() == '}',
        scroll_text(texts, depth).len() > 0,
{
    reveal_strlit("Scroll() {\n");
    lemma_without("Scroll() {\n"@, 'k');
    reveal_strlit("Column({ space: 8 }) {\n");
    lemma_without("Column({ space: 8 }) {\n"@, 'k');
    reveal_strlit("\n");
    lemma_without("\n"@, 'k');
    reveal_strlit("}\n");
    lemma_without("}\n"@, 'k');
    reveal_strlit("}");
    lemma_without("}"@, 'k');
    lemma_padded("Scroll() {\n"@, depth + 1, "Column({ space: 8 }) {\n"@);
    let head = "Scroll() {\n"@ + levels(depth + 1) + "Column({ space: 8 }) {\n"@;
    let body = stacked(texts, depth + 2);
    lemma_stacked(texts, depth + 2, i, k);
    lemma_close(depth + 1, "}\n"@);
    let inner = "\n"@ + levels(depth + 1) + "}\n"@;
    lemma_padded(inner, depth, "}"@);
    let tail = inner + levels(depth) + "}"@;
    lemma_between(head, body, tail, i, k);
    assert(scroll_text(texts, depth) =~= head + body + tail);
}

pub proof fn lemma_section_text(
    title: Seq<char>,
    texts: Seq<Seq<char>>,
    depth: nat,
    i: nat,
    k: nat,
)
    requires
        quiet(title),
        list_in_order(texts, i, k),
    ensures
        in_order(section_text(title, texts, depth), i, k),
        section_text(title, texts, depth).last() == '}',
        section_text(title, texts, depth).len() > 0,
{
    reveal_strlit("Column({ space: 4 }) {\n");
    lemma_without("Column({ space: 4 }) {\n"@, 'k');
    reveal_strlit("Text(");
    lemma_without("Text("@, 'k');
    reveal_strlit(").fontSize(14).fontColor('#888888')");
    lemma_without(").fontSize(14).fontColor('#888888')"@, 'k');
    reveal_strlit("\n");
    lemma_without("\n"@, 'k');
    reveal_strlit("}");
    lemma_without("}"@, 'k');
    reveal_strlit("");
    lemma_without(""@, 'k');
    lemma_literal(title);
    lemma_padded("Column({ space: 4 }) {\n"@, depth + 1, "Text("@);
    let a = "Column({ space: 4 }) {\n"@ + levels(depth + 1) + "Text("@;
    lemma_quiet_between(a, string_lit(title), ").fontSize(14).fontColor('#888888')"@);
    let head = a + string_lit(title) + ").fontSize(14).fontColor('#888888')"@;
    let body = if texts.len() == 0 {
        ""@
    } else {
        "\n"@ + stacked(texts, depth + 1)
    };
    lemma_stacked(texts, depth + 1, i, k);
    if texts.len() == 0 {
        lemma_quiet(""@, i);
    } else {
        lemma_quiet("\n"@, i);
        lemma_then("\n"@, stacked(texts, depth + 1), i, i, k);
    }
    lemma_close(depth, "}"@);
    let tail = "\n"@ + levels(depth) + "}"@;
    lemma_between(head, body, tail, i, k);
    assert(section_text(title, texts, depth) =~= head + body + tail);
}

pub proof fn lemma_eager_text(texts: Seq<Seq<char>>, depth: nat, i: nat, k: nat)
    requires
        list_in_order(texts, i, k),
    ensures
        in_order(eager_text(texts, depth), i, k),
        eager_text(texts, depth).last() == '}',
        eager_text(texts, depth).len() > 0,
{
    reveal_strlit("// LazyVStack with explicit children: rendered eagerly as Column.\n");
    lemma_without("// LazyVStack with explicit children: rendered eagerly as Column.\n"@, 'v');
    reveal_strlit("// For real lazy rendering, pass `items.map(item => Widget)`.\n");
    lemma_without("// For real lazy rendering, pass `items.map(item => Widget)`.\n"@, 'k');
    reveal_strlit("Column({ space: 8 }) {\n");
    lemma_without("Column({ space: 8 }) {\n"@, 'k');
    reveal_strlit("\n");
    lemma_without("\n"@, 'k');
    reveal_strlit("}");
    lemma_without("}"@, 'k');
    let first = "// LazyVStack with explicit children: rendered eagerly as Column.\n"@;
    let second = "// For real lazy rendering, pass `items.map(item => Widget)`.\n"@;
    lemma_padded(first, depth, second);
    lemma_padded(first + levels(depth) + second, depth, "Column({ space: 8 }) {\n"@);
    let head = first + levels(depth) + second + levels(depth) + "Column({ space: 8 }) {\n"@;
    let body = stacked(texts, depth + 1);
    lemma_stacked(texts, depth + 1, i, k);
    lemma_close(depth, "}"@);
    let tail = "\n"@ + levels(depth) + "}"@;
    lemma_between(head, body, tail, i, k);
    assert(eager_text(texts, depth) =~= head + body + tail);
}

pub proof fn lemma_for_each_text(source: Seq<char>, body: Seq<char>, depth: nat, i: nat, k: nat)
    requires
        quiet(source),
        in_order(body, i, k),
    ensures
        in_order(for_each_text(source, body, depth), i, k),
        for_each_text(source, body, depth).last() == ')',
        for_each_text(source, body, depth).len() > 0,
{
    reveal_strlit("ForEach(");
    lemma_without("ForEach("@, 'k');
    reveal_strlit(", (__item: any) => {\n");
    lemma_without(", (__item: any) => {\n"@, 'k');
    reveal_strlit("\n");
    lemma_without("\n"@, 'k');
    reveal_strlit("}, (__item: any) => __item)");
    lemma_without("}, (__item: any) => __item)"@, 'k');
    lemma_quiet_between("ForEach("@, source, ", (__item: any) => {\n"@);
    let head = "ForEach("@ + source + ", (__item: any) => {\n"@;
    lemma_levels(depth + 1);
    lemma_indented(body, levels(depth + 1), i, k);
    lemma_close(depth, "}, (__item: any) => __item)"@);
    let tail = "\n"@ + levels(depth) + "}, (__item: any) => __item)"@;
    let inner = indented(body, levels(depth + 1));
    lemma_between(head, inner, tail, i, k);
    assert(for_each_text(source, body, depth) =~= head + inner + tail);
}

pub proof fn lemma_lazy_field_quiet(n: nat)
    ensures
        quiet(lazy_field_id(n)),
{
    reveal_strlit("lazy_source_");
    lemma_without("lazy_source_"@, 'k');
    lemma_dec_quiet(n);
    lemma_quiet_then("lazy_source_"@, dec(n));
}

pub proof fn lemma_lazy_text(field: Seq<char>, body: Seq<char>, depth: nat, i: nat, k: nat)
    requires
        quiet(field),
        in_order(body, i, k),
    ensures
        in_order(lazy_text(field, body, depth), i, k),
        lazy_text(field, body, depth).last() == '}',
        lazy_text(field, body, depth).len() > 0,
{
    reveal_strlit("List() {\n");
    lemma_without("List() {\n"@, 'k');
    reveal_strlit("LazyForEach(this.");
    lemma_without("LazyForEach(this."@, 'k');
    reveal_strlit(", (__item: any) => {\n");
    lemma_without(", (__item: any) => {\n"@, 'k');
    reveal_strlit("ListItem() {\n");
    lemma_without("ListItem() {\n"@, 'k');
    reveal_strlit("\n");
    lemma_without("\n"@, 'k');
    reveal_strlit("}\n");
    lemma_without("}\n"@, 'k');
    reveal_strlit("}, (__item: any) => __item)\n");
    lemma_without("}, (__item: any) => __item)\n"@, 'k');
    reveal_strlit("}");
    lemma_without("}"@, 'k');
    lemma_quiet_between("LazyForEach(this."@, field, ", (__item: any) => {\n"@);
    let each = "LazyForEach(this."@ + field + ", (__item: any) => {\n"@;
    lemma_padded("List() {\n"@, depth + 1, each);
    let a = "List() {\n"@ + levels(depth + 1) + each;
    lemma_padded(a, depth + 2, "ListItem() {\n"@);
    let head = a + levels(depth + 2) + "ListItem() {\n"@;
    lemma_levels(depth + 3);
    lemma_indented(body, levels(depth + 3), i, k);
    let inner = indented(body, levels(depth + 3));
    lemma_close(depth + 2, "}\n"@);
    let b = "\n"@ + levels(depth + 2) + "}\n"@;
    lemma_padded(b, depth + 1, "}, (__item: any) => __item)\n"@);
    let c = b + levels(depth + 1) + "}, (__item: any) => __item)\n"@;
    lemma_padded(c, depth, "}"@);
    let tail = c + levels(depth) + "}"@;
    assert(tail[0] == '\n');
    lemma_between(head, inner, tail, i, k);
    assert(lazy_text(field, body, depth) =~= head + inner + tail);
}

pub proof fn lemma_invalid_tab(depth: nat)
    ensures
        quiet(invalid_tab_text(depth)),
        invalid_tab_text(depth).len() > 0,
        invalid_tab_text(depth).last() == ')',
{
    reveal_strlit("// tab spec wasn't an object\n");
    lemma_without("// tab spec wasn't an object\n"@, 'k');
    reveal_strlit("TabContent() {\n");
    lemma_without("TabContent() {\n"@, 'k');
    reveal_strlit("    Text('[invalid tab]').fontSize(16)\n");
    lemma_without("    Text('[invalid tab]').fontSize(16)\n"@, 'k');
    reveal_strlit("}.tabBar('?')");
    lemma_without("}.tabBar('?')"@, 'k');
    let pad = levels(depth + 1);
    lemma_levels(depth + 1);
    let a = pad + "// tab spec wasn't an object\n"@;
    lemma_quiet_then(pad, "// tab spec wasn't an object\n"@);
    lemma_padded(a, depth + 1, "TabContent() {\n"@);
    let b = a + pad + "TabContent() {\n"@;
    lemma_padded(b, depth + 1, "    Text('[invalid tab]').fontSize(16)\n"@);
    let c = b + pad + "    Text('[invalid tab]').fontSize(16)\n"@;
    lemma_padded(c, depth + 1, "}.tabBar('?')"@);
}

pub proof fn lemma_tab_text(label: Seq<char>, body: Seq<char>, depth: nat, i: nat, k: nat)
    requires
        quiet(label),
        in_order(body, i, k),
    ensures
        in_order(tab_text(label, body, depth), i, k),
        tab_text(label, body, depth).len() > 0,
        tab_text(label, body, depth).last() == ')',
{
    reveal_strlit("TabContent() {\n");
    lemma_without("TabContent() {\n"@, 'k');
    reveal_strlit("\n");
    lemma_without("\n"@, 'k');
    reveal_strlit("}.tabBar(");
    lemma_without("}.tabBar("@, 'k');
    reveal_strlit(")");
    lemma_without(")"@, 'k');
    let pad = levels(depth + 1);
    lemma_levels(depth + 1);
    lemma_quiet_then(pad, "TabContent() {\n"@);
    let head = pad + "TabContent() {\n"@;
    lemma_levels(depth + 2);
    lemma_indented(body, levels(depth + 2), i, k);
    let inner = indented(body, levels(depth + 2));
    lemma_literal(label);
    lemma_close(depth + 1, "}.tabBar("@);
    let a = "\n"@ + pad + "}.tabBar("@;
    lemma_quiet_between(a, string_lit(label), ")"@);
    let tail = a + string_lit(label) + ")"@;
    assert(tail[0] == '\n');
    lemma_between(head, inner, tail, i, k);
    assert(tab_text(label, body, depth) =~= head + inner + tail);
}

pub proof fn lemma_tabs_text(blocks: Seq<Seq<char>>, depth: nat, i: nat, k: nat)
    requires
        list_in_order(blocks, i, k),
    ensures
        in_order(tabs_text(blocks, depth), i, k),
        tabs_text(blocks, depth).len() > 0,
        tabs_text(blocks, depth).last() == '}',
{
    reveal_strlit("Tabs() {\n");
    lemma_without("Tabs() {\n"@, 'k');
    reveal_strlit("\n");
    lemma_without("\n"@, 'k');
    reveal_strlit("}");
    lemma_without("}"@, 'k');
    lemma_join(blocks, "\n"@, i, k);
    lemma_close(depth, "}"@);
    let tail = "\n"@ + levels(depth) + "}"@;
    lemma_between("Tabs() {\n"@, join(blocks, "\n"@), tail, i, k);
    assert(tabs_text(blocks, depth) =~= "Tabs() {\n"@ + join(blocks, "\n"@) + tail);
}

proof fn lemma_grid_item(body: Seq<char>, depth: nat, i: nat, k: nat)
    requires
        in_order(body, i, k),
    ensures
        in_order(grid_item_text(body, depth), i, k),
{
    reveal_strlit("GridItem() {\n");
    lemma_without("GridItem() {\n"@, 'k');
    reveal_strlit("\n");
    lemma_without("\n"@, 'k');
    reveal_strlit("}");
    lemma_without("}"@, 'k');
    let pad = levels(depth + 1);
    lemma_levels(depth + 1);
    lemma_quiet_then(pad, "GridItem() {\n"@);
    lemma_levels(depth + 2);
    lemma_indented(body, levels(depth + 2), i, k);
    let inner = indented(body, levels(depth + 2));
    lemma_close(depth + 1, "}"@);
    let tail = "\n"@ + pad + "}"@;
    lemma_between(pad + "GridItem() {\n"@, inner, tail, i, k);
    assert(grid_item_text(body, depth) =~= pad + "GridItem() {\n"@ + inner + tail);
}

proof fn lemma_grid_body(texts: Seq<Seq<char>>, depth: nat, i: nat, k: nat)
    requires
        list_in_order(texts, i, k),
    ensures
        in_order(
            join(texts.map_values(|t: Seq<char>| grid_item_text(t, depth)), "\n"@),
            i,
            k,
        ),
{
    let f = |t: Seq<char>| grid_item_text(t, depth);
    assert forall|s: Seq<char>, a: nat, b: nat| #[trigger] in_order(s, a, b) implies in_order(
        f(s),
        a,
        b,
    ) by {
        lemma_grid_item(s, depth, a, b);
    }
    lemma_list_mapped(texts, f, i, k);
    reveal_strlit("\n");
    lemma_without("\n"@, 'k');
    lemma_join(texts.map_values(f), "\n"@, i, k);
}

/// The end of a grid.
proof fn lemma_grid_end(columns: nat, depth: nat)
    ensures
        ({
            let parts = Seq::new(columns, |i: int| "1fr"@);
            let tail = "\n"@ + levels(depth) + "}.columnsTemplate('"@ + join(parts, " "@) + "')"@;
            quiet(tail) && tail.len() > 0 && tail[0] == '\n' && tail.last() == ')'
        }),
{
    reveal_strlit("}.columnsTemplate('");
    lemma_without("}.columnsTemplate('"@, 'k');
    reveal_strlit("1fr");
    lemma_without("1fr"@, 'k');
    reveal_strlit(" ");
    lemma_without(" "@, 'k');
    reveal_strlit("')");
    lemma_without("')"@, 'k');
    reveal_strlit("\n");
    let parts = Seq::new(columns, |i: int| "1fr"@);
    assert forall|j: int| 0 <= j < parts.len() implies quiet(#[trigger] parts[j]) by {}
    lemma_join_quiet(parts, " "@);
    lemma_close(depth, "}.columnsTemplate('"@);
    let a = "\n"@ + levels(depth) + "}.columnsTemplate('"@;
    lemma_quiet_between(a, join(parts, " "@), "')"@);
}

pub proof fn lemma_grid_text(columns: nat, texts: Seq<Seq<char>>, depth: nat, i: nat, k: nat)
    requires
        list_in_order(texts, i, k),
    ensures
        in_order(grid_text(columns, texts, depth), i, k),
        grid_text(columns, texts, depth).len() > 0,
        grid_text(columns, texts, depth).last() == ')',
{
    reveal_strlit("Grid() {\n");
    lemma_without("Grid() {\n"@, 'k');
    reveal_strlit("\n");
    lemma_without("\n"@, 'k');
    let f = |t: Seq<char>| grid_item_text(t, depth);
    let body = join(texts.map_values(f), "\n"@);
    lemma_grid_body(texts, depth, i, k);
    lemma_grid_end(columns, depth);
    let a = "\n"@ + levels(depth) + "}.columnsTemplate('"@;
    let parts = Seq::new(columns, |i: int| "1fr"@);
    let tail = a + join(parts, " "@) + "')"@;
    lemma_between("Grid() {\n"@, body, tail, i, k);
    assert(grid_text(columns, texts, depth) =~= "Grid() {\n"@ + body + tail);
}

} // verus!
