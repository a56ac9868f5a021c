//! The page refers to everything that was registered for it.

use crate::arkts::laws::{extends, lemma_keeps_callback, lemma_keeps_menu, sound};
use crate::arkts::leaf::{
    button, handler, menu, menu_action, menu_item, menu_items, menu_list, picker, picker_options,
    reactive_id, registered, slider, string_or, text_slots, text_widget, textfield, toggle,
    EmitView,
};
use crate::arkts::literal::{is_name, law_sanitized_is_name, sanitized, string_lit};
use crate::arkts::occurs::{
    lemma_dec_plain, lemma_occurs_indented, lemma_occurs_join, lemma_occurs_left,
    lemma_occurs_right, lemma_plain_concat, occurs, occurs_in, plain, split_at,
};
use crate::arkts::page::{slot_for, SlotView, DRAIN};
use crate::arkts::value::{at, find_prop, numeric_or, string_of};
use crate::arkts::widget::{lazy_field_id, stacked};
use crate::hir::LocalId;
use crate::model::ExprView;
use crate::text::{dec, indented, join, levels};
use vstd::prelude::*;

verus! {

// ---------------------------------------------------------------------------
// References
// ---------------------------------------------------------------------------

/// The call of a callback without an argument, by its slot.
pub open spec fn plain_call(k: nat) -> Seq<char> {
    "perryEntry.invokeCallback("@ + dec(k) + ")"@
}

/// The call of a callback with an argument, by its slot, up to the argument.
pub open spec fn value_call(k: nat) -> Seq<char> {
    "perryEntry.invokeCallback1("@ + dec(k) + ","@
}

/// The text that shows a page field.
pub open spec fn text_ref(field: Seq<char>) -> Seq<char> {
    "Text(this.text_"@ + field + ")"@
}

/// The list over a page field.
pub open spec fn list_ref(field: Seq<char>) -> Seq<char> {
    "LazyForEach(this."@ + field + ","@
}

/// Whether one of the texts calls the callback.
pub open spec fn called(k: nat, texts: Seq<Seq<char>>) -> bool {
    occurs_in(plain_call(k), texts) || occurs_in(value_call(k), texts)
}

/// Whether the texts refer to all that was registered between two states.
pub open spec fn refers(before: EmitView, after: EmitView, texts: Seq<Seq<char>>) -> bool {
    &&& forall|k: nat| before.callbacks.len() <= k < after.callbacks.len() ==> #[trigger] called(k, texts)
    &&& forall|k: int|
        before.slots.len() <= k < after.slots.len() ==> occurs_in(
            text_ref((#[trigger] after.slots[k]).field_id),
            texts,
        )
    &&& forall|k: int|
        before.lazies.len() <= k < after.lazies.len() ==> occurs_in(
            list_ref((#[trigger] after.lazies[k]).field_id),
            texts,
        )
}

/// Whether whatever stays on one line and occurs in the first texts occurs in the
/// others.
pub open spec fn carries(a: Seq<Seq<char>>, b: Seq<Seq<char>>) -> bool {
    forall|t: Seq<char>| plain(t) && occurs_in(t, a) ==> #[trigger] occurs_in(t, b)
}

proof fn lemma_calls_plain(k: nat)
    ensures
        plain(plain_call(k)),
        plain(value_call(k)),
{
    lemma_dec_plain(k);
    reveal_strlit("perryEntry.invokeCallback(");
    reveal_strlit("perryEntry.invokeCallback1(");
    reveal_strlit(")");
    reveal_strlit(",");
    lemma_plain_concat("perryEntry.invokeCallback("@, dec(k));
    lemma_plain_concat("perryEntry.invokeCallback("@ + dec(k), ")"@);
    lemma_plain_concat("perryEntry.invokeCallback1("@, dec(k));
    lemma_plain_concat("perryEntry.invokeCallback1("@ + dec(k), ","@);
}

proof fn lemma_name_plain(s: Seq<char>)
    requires
        is_name(s),
    ensures
        plain(s),
{
    assert forall|i: int| 0 <= i < s.len() implies #[trigger] s[i] != '\n' && s[i] != '\r' by {}
}

proof fn lemma_text_ref_plain(id: Seq<char>)
    ensures
        plain(text_ref(sanitized(id))),
{
    law_sanitized_is_name(id);
    lemma_name_plain(sanitized(id));
    reveal_strlit("Text(this.text_");
    reveal_strlit(")");
    lemma_plain_concat("Text(this.text_"@, sanitized(id));
    lemma_plain_concat("Text(this.text_"@ + sanitized(id), ")"@);
}

proof fn lemma_list_ref_plain(k: nat)
    ensures
        plain(list_ref(lazy_field_id(k))),
{
    lemma_dec_plain(k);
    reveal_strlit("lazy_source_");
    lemma_plain_concat("lazy_source_"@, dec(k));
    reveal_strlit("LazyForEach(this.");
    reveal_strlit(",");
    lemma_plain_concat("LazyForEach(this."@, lazy_field_id(k));
    lemma_plain_concat("LazyForEach(this."@ + lazy_field_id(k), ","@);
}

/// Texts that carry others refer to what those refer to.
pub proof fn lemma_refers_carried(
    before: EmitView,
    after: EmitView,
    a: Seq<Seq<char>>,
    b: Seq<Seq<char>>,
)
    requires
        sound(after),
        refers(before, after, a),
        carries(a, b),
    ensures
        refers(before, after, b),
{
    assert forall|k: nat|
        before.callbacks.len() <= k < after.callbacks.len() implies #[trigger] called(k, b) by {
        lemma_calls_plain(k);
        assert(called(k, a));
    }
    assert forall|k: int| before.slots.len() <= k < after.slots.len() implies occurs_in(
        text_ref((#[trigger] after.slots[k]).field_id),
        b,
    ) by {
        lemma_text_ref_plain(after.slots[k].original_id);
    }
    assert forall|k: int| before.lazies.len() <= k < after.lazies.len() implies occurs_in(
        list_ref((#[trigger] after.lazies[k]).field_id),
        b,
    ) by {
        lemma_list_ref_plain(k as nat);
    }
}

/// One step after the other.
pub proof fn lemma_refers_then(
    x: EmitView,
    y: EmitView,
    z: EmitView,
    texts: Seq<Seq<char>>,
)
    requires
        extends(y, z),
        refers(x, y, texts),
        refers(y, z, texts),
    ensures
        refers(x, z, texts),
{
    assert forall|k: nat|
        x.callbacks.len() <= k < z.callbacks.len() implies #[trigger] called(k, texts) by {
        if k < y.callbacks.len() {
            assert(called(k, texts));
        }
    }
    assert forall|k: int| x.slots.len() <= k < z.slots.len() implies occurs_in(
        text_ref((#[trigger] z.slots[k]).field_id),
        texts,
    ) by {
        if k < y.slots.len() {
            assert(z.slots.subrange(0, y.slots.len() as int)[k] == y.slots[k]);
        }
    }
    assert forall|k: int| x.lazies.len() <= k < z.lazies.len() implies occurs_in(
        list_ref((#[trigger] z.lazies[k]).field_id),
        texts,
    ) by {
        if k < y.lazies.len() {
            assert(z.lazies.subrange(0, y.lazies.len() as int)[k] == y.lazies[k]);
        }
    }
}

// ---------------------------------------------------------------------------
// Handlers
// ---------------------------------------------------------------------------

/// A handler calls its callback by the slot that it gets.
proof fn lemma_handler_calls(
    e: Option<ExprView>,
    lead: Seq<char>,
    call: Seq<char>,
    close: Seq<char>,
    rest: Seq<char>,
    callbacks: Seq<ExprView>,
)
    requires
        e is Some,
        e->0 is Closure,
    ensures
        occurs(
            call + dec(callbacks.len()) + close,
            handler(e, lead + call, close + rest, callbacks),
        ),
{
    let t = call + dec(callbacks.len()) + close;
    let s = handler(e, lead + call, close + rest, callbacks);
    let tail = rest + DRAIN@ + "})"@;
    assert(s =~= lead + t + tail);
    assert(split_at(t, s, lead, tail));
}

proof fn lemma_click_calls(e: Option<ExprView>, callbacks: Seq<ExprView>)
    requires
        e is Some,
        e->0 is Closure,
    ensures
        occurs(
            plain_call(callbacks.len()),
            handler(
                e,
                ".onClick(() => {\n    perryEntry.invokeCallback("@,
                ");\n    "@,
                callbacks,
            ),
        ),
{
    reveal_strlit(".onClick(() => {\n    perryEntry.invokeCallback(");
    reveal_strlit(".onClick(() => {\n    ");
    reveal_strlit("perryEntry.invokeCallback(");
    reveal_strlit(");\n    ");
    reveal_strlit(")");
    reveal_strlit(";\n    ");
    assert(".onClick(() => {\n    perryEntry.invokeCallback("@ =~= ".onClick(() => {\n    "@
        + "perryEntry.invokeCallback("@);
    assert(");\n    "@ =~= ")"@ + ";\n    "@);
    lemma_handler_calls(
        e,
        ".onClick(() => {\n    "@,
        "perryEntry.invokeCallback("@,
        ")"@,
        ";\n    "@,
        callbacks,
    );
}

proof fn lemma_field_calls(e: Option<ExprView>, callbacks: Seq<ExprView>)
    requires
        e is Some,
        e->0 is Closure,
    ensures
        occurs(
            value_call(callbacks.len()),
            handler(
                e,
                ".onChange((value: string) => {\n    perryEntry.invokeCallback1("@,
                ", value);\n    "@,
                callbacks,
            ),
        ),
{
    reveal_strlit(".onChange((value: string) => {\n    perryEntry.invokeCallback1(");
    reveal_strlit(".onChange((value: string) => {\n    ");
    reveal_strlit("perryEntry.invokeCallback1(");
    reveal_strlit(", value);\n    ");
    reveal_strlit(",");
    reveal_strlit(" value);\n    ");
    assert(".onChange((value: string) => {\n    perryEntry.invokeCallback1("@
        =~= ".onChange((value: string) => {\n    "@ + "perryEntry.invokeCallback1("@);
    assert(", value);\n    "@ =~= ","@ + " value);\n    "@);
    lemma_handler_calls(
        e,
        ".onChange((value: string) => {\n    "@,
        "perryEntry.invokeCallback1("@,
        ","@,
        " value);\n    "@,
        callbacks,
    );
}

proof fn lemma_toggle_calls(e: Option<ExprView>, callbacks: Seq<ExprView>)
    requires
        e is Some,
        e->0 is Closure,
    ensures
        occurs(
            value_call(callbacks.len()),
            handler(
                e,
                ".onChange((isOn: boolean) => {\n    perryEntry.invokeCallback1("@,
                ", isOn);\n    "@,
                callbacks,
            ),
        ),
{
    reveal_strlit(".onChange((isOn: boolean) => {\n    perryEntry.invokeCallback1(");
    reveal_strlit(".onChange((isOn: boolean) => {\n    ");
    reveal_strlit("perryEntry.invokeCallback1(");
    reveal_strlit(", isOn);\n    ");
    reveal_strlit(",");
    reveal_strlit(" isOn);\n    ");
    assert(".onChange((isOn: boolean) => {\n    perryEntry.invokeCallback1("@
        =~= ".onChange((isOn: boolean) => {\n    "@ + "perryEntry.invokeCallback1("@);
    assert(", isOn);\n    "@ =~= ","@ + " isOn);\n    "@);
    lemma_handler_calls(
        e,
        ".onChange((isOn: boolean) => {\n    "@,
        "perryEntry.invokeCallback1("@,
        ","@,
        " isOn);\n    "@,
        callbacks,
    );
}

proof fn lemma_slider_calls(e: Option<ExprView>, callbacks: Seq<ExprView>)
    requires
        e is Some,
        e->0 is Closure,
    ensures
        occurs(
            value_call(callbacks.len()),
            handler(
                e,
                ".onChange((value: number, _mode: SliderChangeMode) => {\n    perryEntry.invokeCallback1("@,
                ", value);\n    "@,
                callbacks,
            ),
        ),
{
    reveal_strlit(".onChange((value: number, _mode: SliderChangeMode) => {\n    perryEntry.invokeCallback1(");
    reveal_strlit(".onChange((value: number, _mode: SliderChangeMode) => {\n    ");
    reveal_strlit("perryEntry.invokeCallback1(");
    reveal_strlit(", value);\n    ");
    reveal_strlit(",");
    reveal_strlit(" value);\n    ");
    assert(".onChange((value: number, _mode: SliderChangeMode) => {\n    perryEntry.invokeCallback1("@
        =~= ".onChange((value: number, _mode: SliderChangeMode) => {\n    "@ + "perryEntry.invokeCallback1("@);
    assert(", value);\n    "@ =~= ","@ + " value);\n    "@);
    lemma_handler_calls(
        e,
        ".onChange((value: number, _mode: SliderChangeMode) => {\n    "@,
        "perryEntry.invokeCallback1("@,
        ","@,
        " value);\n    "@,
        callbacks,
    );
}

proof fn lemma_picker_calls(e: Option<ExprView>, callbacks: Seq<ExprView>)
    requires
        e is Some,
        e->0 is Closure,
    ensures
        occurs(
            value_call(callbacks.len()),
            handler(
                e,
                ".onChange((_value: string, index: number) => {\n    perryEntry.invokeCallback1("@,
                ", index);\n    "@,
                callbacks,
            ),
        ),
{
    reveal_strlit(".onChange((_value: string, index: number) => {\n    perryEntry.invokeCallback1(");
    reveal_strlit(".onChange((_value: string, index: number) => {\n    ");
    reveal_strlit("perryEntry.invokeCallback1(");
    reveal_strlit(", index);\n    ");
    reveal_strlit(",");
    reveal_strlit(" index);\n    ");
    assert(".onChange((_value: string, index: number) => {\n    perryEntry.invokeCallback1("@
        =~= ".onChange((_value: string, index: number) => {\n    "@ + "perryEntry.invokeCallback1("@);
    assert(", index);\n    "@ =~= ","@ + " index);\n    "@);
    lemma_handler_calls(
        e,
        ".onChange((_value: string, index: number) => {\n    "@,
        "perryEntry.invokeCallback1("@,
        ","@,
        " index);\n    "@,
        callbacks,
    );
}

// ---------------------------------------------------------------------------
// Widgets without children
// ---------------------------------------------------------------------------

pub proof fn lemma_occurs_alone(t: Seq<char>, s: Seq<char>)
    requires
        occurs(t, s),
    ensures
        occurs_in(t, seq![s]),
{
    assert(seq![s][0] == s);
}

/// A text that calls a closure by its slot refers to it once it is registered.
proof fn lemma_registered_refers(e: Option<ExprView>, emit: EmitView, text: Seq<char>)
    requires
        e is Some && e->0 is Closure ==> occurs(plain_call(emit.callbacks.len()), text) || occurs(
            value_call(emit.callbacks.len()),
            text,
        ),
    ensures
        refers(
            emit,
            EmitView { callbacks: registered(e, emit.callbacks), ..emit },
            seq![text],
        ),
{
    let n = emit.callbacks.len();
    if e is Some && e->0 is Closure {
        if occurs(plain_call(n), text) {
            lemma_occurs_alone(plain_call(n), text);
        } else {
            lemma_occurs_alone(value_call(n), text);
        }
        assert(called(n, seq![text]));
    }
}

pub proof fn lemma_button_refers(label: Seq<char>, action: Option<ExprView>, emit: EmitView)
    ensures
        refers(
            emit,
            EmitView { callbacks: registered(action, emit.callbacks), ..emit },
            seq![button(label, action, emit.callbacks)],
        ),
{
    if action is Some && action->0 is Closure {
        lemma_click_calls(action, emit.callbacks);
        lemma_occurs_right(
            plain_call(emit.callbacks.len()),
            "Button("@ + string_lit(label) + ").fontSize(16)"@,
            handler(
                action,
                ".onClick(() => {\n    perryEntry.invokeCallback("@,
                ");\n    "@,
                emit.callbacks,
            ),
        );
    }
    lemma_registered_refers(action, emit, button(label, action, emit.callbacks));
}

pub proof fn lemma_field_refers(args: Seq<ExprView>, emit: EmitView)
    ensures
        refers(
            emit,
            EmitView { callbacks: registered(at(args, 1), emit.callbacks), ..emit },
            seq![textfield(args, emit.callbacks)],
        ),
{
    let e = at(args, 1);
    if e is Some && e->0 is Closure {
        lemma_field_calls(e, emit.callbacks);
        lemma_occurs_right(
            value_call(emit.callbacks.len()),
            "TextInput({ placeholder: "@ + string_lit(string_or(at(args, 0), ""@)) + " })"@,
            handler(
                e,
                ".onChange((value: string) => {\n    perryEntry.invokeCallback1("@,
                ", value);\n    "@,
                emit.callbacks,
            ),
        );
    }
    lemma_registered_refers(e, emit, textfield(args, emit.callbacks));
}

pub proof fn lemma_toggle_refers(args: Seq<ExprView>, emit: EmitView)
    ensures
        refers(
            emit,
            EmitView { callbacks: registered(at(args, 1), emit.callbacks), ..emit },
            seq![toggle(args, emit.callbacks)],
        ),
{
    let e = at(args, 1);
    if e is Some && e->0 is Closure {
        let t = value_call(emit.callbacks.len());
        let label = string_or(at(args, 0), ""@);
        let onchange = handler(
            e,
            ".onChange((isOn: boolean) => {\n    perryEntry.invokeCallback1("@,
            ", isOn);\n    "@,
            emit.callbacks,
        );
        lemma_toggle_calls(e, emit.callbacks);
        if label.len() == 0 {
            lemma_occurs_right(t, "Toggle({ type: ToggleType.Switch, isOn: false })"@, onchange);
        } else {
            let lead = "Row({ space: 8 }) {\n    Text("@ + string_lit(label)
                + ").fontSize(16)\n    Toggle({ type: ToggleType.Switch, isOn: false })"@;
            lemma_occurs_right(t, lead, onchange);
            lemma_occurs_left(t, lead + onchange, "\n}"@);
        }
    }
    lemma_registered_refers(e, emit, toggle(args, emit.callbacks));
}

pub proof fn lemma_slider_refers(args: Seq<ExprView>, emit: EmitView)
    ensures
        refers(
            emit,
            EmitView { callbacks: registered(at(args, 2), emit.callbacks), ..emit },
            seq![slider(args, emit.callbacks)],
        ),
{
    let e = at(args, 2);
    if e is Some && e->0 is Closure {
        let min = numeric_or(at(args, 0), "0"@);
        let max = numeric_or(at(args, 1), "100"@);
        lemma_slider_calls(e, emit.callbacks);
        lemma_occurs_right(
            value_call(emit.callbacks.len()),
            "Slider({ value: "@ + min + ", min: "@ + min + ", max: "@ + max
                + ", step: 1, style: SliderStyle.OutSet })"@,
            handler(
                e,
                ".onChange((value: number, _mode: SliderChangeMode) => {\n    perryEntry.invokeCallback1("@,
                ", value);\n    "@,
                emit.callbacks,
            ),
        );
    }
    lemma_registered_refers(e, emit, slider(args, emit.callbacks));
}

pub proof fn lemma_picker_refers(args: Seq<ExprView>, emit: EmitView)
    ensures
        refers(
            emit,
            EmitView { callbacks: registered(at(args, 1), emit.callbacks), ..emit },
            seq![picker(args, emit.callbacks)],
        ),
{
    let e = at(args, 1);
    if e is Some && e->0 is Closure {
        let options = picker_options(args);
        lemma_picker_calls(e, emit.callbacks);
        lemma_occurs_right(
            value_call(emit.callbacks.len()),
            "TextPicker({ range: ["@ + join(options, ", "@) + "], value: "@ + (
            if options.len() == 0 {
                "''"@
            } else {
                options[0]
            }) + " })"@,
            handler(
                e,
                ".onChange((_value: string, index: number) => {\n    perryEntry.invokeCallback1("@,
                ", index);\n    "@,
                emit.callbacks,
            ),
        );
    }
    lemma_registered_refers(e, emit, picker(args, emit.callbacks));
}

/// A reactive text shows the field of its slot.
proof fn lemma_shown_text(field: Seq<char>)
    ensures
        occurs(text_ref(field), "Text(this.text_"@ + field + ").fontSize(20)"@),
{
    reveal_strlit(").fontSize(20)");
    reveal_strlit(")");
    reveal_strlit(".fontSize(20)");
    let s = "Text(this.text_"@ + field + ").fontSize(20)"@;
    assert(s =~= Seq::empty() + text_ref(field) + ".fontSize(20)"@);
    assert(split_at(text_ref(field), s, Seq::empty(), ".fontSize(20)"@));
}

pub proof fn lemma_slot_refers(emit: EmitView, slot: SlotView)
    ensures
        refers(
            emit,
            EmitView { slots: emit.slots.push(slot), ..emit },
            seq!["Text(this.text_"@ + slot.field_id + ").fontSize(20)"@],
        ),
{
    lemma_shown_text(slot.field_id);
    lemma_occurs_alone(
        text_ref(slot.field_id),
        "Text(this.text_"@ + slot.field_id + ").fontSize(20)"@,
    );
}

pub proof fn lemma_text_refers(args: Seq<ExprView>, locals: Seq<LocalId>, emit: EmitView)
    ensures
        refers(
            emit,
            EmitView { slots: text_slots(args, emit.slots), ..emit },
            seq![text_widget(args, locals)],
        ),
{
    match reactive_id(args) {
        Some(id) => lemma_slot_refers(emit, slot_for(id, string_of(at(args, 0))->0)),
        None => {},
    }
}

// ---------------------------------------------------------------------------
// Lists
// ---------------------------------------------------------------------------

pub proof fn lemma_carries_trans(a: Seq<Seq<char>>, b: Seq<Seq<char>>, c: Seq<Seq<char>>)
    requires
        carries(a, b),
        carries(b, c),
    ensures
        carries(a, c),
{
    assert forall|t: Seq<char>| plain(t) && occurs_in(t, a) implies #[trigger] occurs_in(t, c) by {
        assert(occurs_in(t, b));
    }
}

pub proof fn lemma_carries_push(v: Seq<Seq<char>>, s: Seq<char>)
    ensures
        carries(v, v.push(s)),
        carries(seq![s], v.push(s)),
{
    let all = v.push(s);
    assert forall|t: Seq<char>| plain(t) && occurs_in(t, v) implies #[trigger] occurs_in(
        t,
        all,
    ) by {
        let i = choose|i: int| 0 <= i < v.len() && occurs(t, #[trigger] v[i]);
        assert(all[i] == v[i]);
    }
    assert forall|t: Seq<char>| plain(t) && occurs_in(t, seq![s]) implies #[trigger] occurs_in(
        t,
        all,
    ) by {
        assert(all[v.len() as int] == s);
    }
}

/// A text between two others.
pub proof fn lemma_carries_between(a: Seq<char>, s: Seq<char>, b: Seq<char>)
    ensures
        carries(seq![s], seq![a + s + b]),
{
    assert forall|t: Seq<char>| plain(t) && occurs_in(t, seq![s]) implies #[trigger] occurs_in(
        t,
        seq![a + s + b],
    ) by {
        assert(occurs(t, s));
        lemma_occurs_right(t, a, s);
        lemma_occurs_left(t, a + s, b);
        lemma_occurs_alone(t, a + s + b);
    }
}

pub proof fn lemma_carries_join(v: Seq<Seq<char>>, sep: Seq<char>)
    ensures
        carries(v, seq![join(v, sep)]),
{
    assert forall|t: Seq<char>| plain(t) && occurs_in(t, v) implies #[trigger] occurs_in(
        t,
        seq![join(v, sep)],
    ) by {
        let i = choose|i: int| 0 <= i < v.len() && occurs(t, #[trigger] v[i]);
        lemma_occurs_join(t, v, sep, i);
        lemma_occurs_alone(t, join(v, sep));
    }
}

pub proof fn lemma_carries_indented(s: Seq<char>, pad: Seq<char>)
    ensures
        carries(seq![s], seq![indented(s, pad)]),
{
    assert forall|t: Seq<char>| plain(t) && occurs_in(t, seq![s]) implies #[trigger] occurs_in(
        t,
        seq![indented(s, pad)],
    ) by {
        assert(occurs(t, s));
        lemma_occurs_indented(t, s, pad);
        lemma_occurs_alone(t, indented(s, pad));
    }
}

/// Texts that are carried one by one.
pub proof fn lemma_carries_each(v: Seq<Seq<char>>, w: Seq<Seq<char>>)
    requires
        v.len() == w.len(),
        forall|i: int| 0 <= i < v.len() ==> carries(seq![#[trigger] v[i]], seq![w[i]]),
    ensures
        carries(v, w),
{
    assert forall|t: Seq<char>| plain(t) && occurs_in(t, v) implies #[trigger] occurs_in(t, w) by {
        let i = choose|i: int| 0 <= i < v.len() && occurs(t, #[trigger] v[i]);
        lemma_occurs_alone(t, v[i]);
        assert(carries(seq![v[i]], seq![w[i]]));
        assert(occurs_in(t, seq![w[i]]));
        assert(occurs(t, w[i]));
    }
}

pub proof fn lemma_carries_stacked(texts: Seq<Seq<char>>, level: nat)
    ensures
        carries(texts, seq![stacked(texts, level)]),
{
    let each = texts.map_values(|t: Seq<char>| indented(t, levels(level)));
    assert forall|i: int| 0 <= i < texts.len() implies carries(
        seq![#[trigger] texts[i]],
        seq![each[i]],
    ) by {
        lemma_carries_indented(texts[i], levels(level));
    }
    lemma_carries_each(texts, each);
    lemma_carries_join(each, "\n"@);
    lemma_carries_trans(texts, each, seq![join(each, "\n"@)]);
}

proof fn lemma_menu_items_refer(items: Seq<ExprView>, emit: EmitView)
    requires
        sound(emit),
    ensures
        refers(
            emit,
            EmitView { callbacks: menu_items(items, emit.callbacks).1, ..emit },
            menu_items(items, emit.callbacks).0,
        ),
    decreases items.len(),
{
    if items.len() > 0 {
        let (front, cbs) = menu_items(items.drop_last(), emit.callbacks);
        let mid = EmitView { callbacks: cbs, ..emit };
        let e = items.last();
        let text = menu_item(e, cbs);
        let after = EmitView { callbacks: registered(menu_action(e), cbs), ..emit };
        lemma_menu_items_refer(items.drop_last(), emit);
        lemma_keeps_menu(emit, items.drop_last());
        lemma_keeps_callback(mid, menu_action(e));
        match e {
            ExprView::Object(props) => lemma_button_refers(
                string_or(find_prop(props, "label"@), "Item"@),
                find_prop(props, "action"@),
                mid,
            ),
            _ => {},
        }
        lemma_carries_push(front, text);
        lemma_refers_carried(emit, mid, front, front.push(text));
        lemma_refers_carried(mid, after, seq![text], front.push(text));
        lemma_refers_then(emit, mid, after, front.push(text));
    }
}

pub proof fn lemma_menu_refers(args: Seq<ExprView>, emit: EmitView)
    requires
        sound(emit),
    ensures
        refers(
            emit,
            EmitView { callbacks: menu_items(menu_list(args), emit.callbacks).1, ..emit },
            seq![menu(args, emit.callbacks)],
        ),
{
    let (texts, cbs) = menu_items(menu_list(args), emit.callbacks);
    lemma_menu_items_refer(menu_list(args), emit);
    lemma_keeps_menu(emit, menu_list(args));
    lemma_carries_join(texts, "\n    "@);
    let joined = join(texts, "\n    "@);
    lemma_carries_between("Column({ space: 4 }) {\n    "@, joined, "\n}"@);
    lemma_carries_trans(texts, seq![joined], seq![menu(args, emit.callbacks)]);
    lemma_refers_carried(
        emit,
        EmitView { callbacks: cbs, ..emit },
        texts,
        seq![menu(args, emit.callbacks)],
    );
}

} // verus!
