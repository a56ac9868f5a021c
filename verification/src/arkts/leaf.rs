//! Widgets without children.

use crate::arkts::literal::{arkts_string_lit, sanitize_text_id, sanitized, string_lit};
use crate::arkts::page::{
    drain_loop_body, lazies_view, slot_for, slots_view, LazyDataSource, LazyView, SlotView,
    TextSlot, DRAIN,
};
use crate::arkts::value::{
    arg_at, at, find_prop, first_string_arg, items_of, literal_text, numeric_arg_or, numeric_or,
    opt_ref_view, prop_of, string_of,
};
use crate::hir::{Expr, LocalId};
use crate::inline::scan::contains_id;
use crate::model::{exprs_view, ExprView};
use crate::text::{begins_with, dec, dec_text, join, join_strings, strings_view, strip_prefix};
use vstd::prelude::*;

verus! {

// ---------------------------------------------------------------------------
// What the walk collects
// ---------------------------------------------------------------------------

/// What was registered so far: callbacks, whose slot is their position, reactive
/// texts, and lazy lists.
pub struct EmitView {
    pub callbacks: Seq<ExprView>,
    pub slots: Seq<SlotView>,
    pub lazies: Seq<LazyView>,
}

pub struct Emit {
    pub callbacks: Vec<Expr>,
    pub text_slots: Vec<TextSlot>,
    pub lazy_sources: Vec<LazyDataSource>,
}

impl Emit {
    pub open spec fn view(self) -> EmitView {
        EmitView {
            callbacks: exprs_view(self.callbacks@),
            slots: slots_view(self.text_slots@),
            lazies: lazies_view(self.lazy_sources@),
        }
    }
}

// ---------------------------------------------------------------------------
// Event handlers
// ---------------------------------------------------------------------------

/// The handler for a closure: it calls the callback by its slot, which is written
/// between `head` and `tail`, and then drains the queues.
pub open spec fn handler(
    e: Option<ExprView>,
    head: Seq<char>,
    tail: Seq<char>,
    callbacks: Seq<ExprView>,
) -> Seq<char> {
    if e is Some && e->0 is Closure {
        head + dec(callbacks.len()) + tail + DRAIN@ + "})"@
    } else {
        Seq::empty()
    }
}

/// The callbacks with the closure at their end, if it is one.
pub open spec fn registered(e: Option<ExprView>, callbacks: Seq<ExprView>) -> Seq<ExprView> {
    if e is Some && e->0 is Closure {
        callbacks.push(e->0)
    } else {
        callbacks
    }
}

/// The text of a string literal, or the other text.
pub open spec fn string_or(e: Option<ExprView>, other: Seq<char>) -> Seq<char> {
    match string_of(e) {
        Some(s) => s,
        None => other,
    }
}

// ---------------------------------------------------------------------------
// Widgets
// ---------------------------------------------------------------------------

/// What stands in a `Text`: a literal, or the loop variable inside a loop.
pub open spec fn text_content(e: Option<ExprView>, locals: Seq<LocalId>) -> Option<Seq<char>> {
    match e {
        Some(ExprView::String(s)) => Some(string_lit(s)),
        Some(ExprView::LocalGet(id)) => if locals.contains(id) {
            Some("__item"@)
        } else {
            None
        },
        _ => None,
    }
}

/// The id under which a text is reactive: `Text("hi", "id")`.
pub open spec fn reactive_id(args: Seq<ExprView>) -> Option<Seq<char>> {
    if string_of(at(args, 0)) is Some {
        string_of(at(args, 1))
    } else {
        None
    }
}

/// `Text("hi")`, `Text("hi", "id")`, `Text(item)`.
pub open spec fn text_widget(args: Seq<ExprView>, locals: Seq<LocalId>) -> Seq<char> {
    match text_content(at(args, 0), locals) {
        Some(content) => match reactive_id(args) {
            Some(id) => "Text(this.text_"@ + sanitized(id) + ").fontSize(20)"@,
            None => "Text("@ + content + ").fontSize(20)"@,
        },
        None => "Text('[non-literal Text arg]').fontSize(20).fontColor('#888888')"@,
    }
}

/// The slots after a `Text`.
pub open spec fn text_slots(args: Seq<ExprView>, slots: Seq<SlotView>) -> Seq<SlotView> {
    match reactive_id(args) {
        Some(id) => slots.push(slot_for(id, string_of(at(args, 0))->0)),
        None => slots,
    }
}

/// `Button(label, onPress)`.
pub open spec fn button(
    label: Seq<char>,
    action: Option<ExprView>,
    callbacks: Seq<ExprView>,
) -> Seq<char> {
    "Button("@ + string_lit(label) + ").fontSize(16)"@ + handler(
        action,
        ".onClick(() => {\n    perryEntry.invokeCallback("@,
        ");\n    "@,
        callbacks,
    )
}

/// `TextField(placeholder, onChange)`.
pub open spec fn textfield(args: Seq<ExprView>, callbacks: Seq<ExprView>) -> Seq<char> {
    "TextInput({ placeholder: "@ + string_lit(string_or(at(args, 0), ""@)) + " })"@ + handler(
        at(args, 1),
        ".onChange((value: string) => {\n    perryEntry.invokeCallback1("@,
        ", value);\n    "@,
        callbacks,
    )
}

/// `Toggle(label, onChange)`: a label that is not empty stands beside it in a row.
pub open spec fn toggle(args: Seq<ExprView>, callbacks: Seq<ExprView>) -> Seq<char> {
    let label = string_or(at(args, 0), ""@);
    let onchange = handler(
        at(args, 1),
        ".onChange((isOn: boolean) => {\n    perryEntry.invokeCallback1("@,
        ", isOn);\n    "@,
        callbacks,
    );
    if label.len() == 0 {
        "Toggle({ type: ToggleType.Switch, isOn: false })"@ + onchange
    } else {
        "Row({ space: 8 }) {\n    Text("@ + string_lit(label)
            + ").fontSize(16)\n    Toggle({ type: ToggleType.Switch, isOn: false })"@ + onchange
            + "\n}"@
    }
}

/// `Slider(min, max, onChange)`.
pub open spec fn slider(args: Seq<ExprView>, callbacks: Seq<ExprView>) -> Seq<char> {
    let min = numeric_or(at(args, 0), "0"@);
    let max = numeric_or(at(args, 1), "100"@);
    "Slider({ value: "@ + min + ", min: "@ + min + ", max: "@ + max
        + ", step: 1, style: SliderStyle.OutSet })"@ + handler(
        at(args, 2),
        ".onChange((value: number, _mode: SliderChangeMode) => {\n    perryEntry.invokeCallback1("@,
        ", value);\n    "@,
        callbacks,
    )
}

/// The source of an image: a resource of the app by its path, or a literal.
pub open spec fn image_source(s: Seq<char>) -> Seq<char> {
    if begins_with(s, "@app.media/"@) {
        "$r('app.media."@ + s.skip("@app.media/"@.len() as int) + "')"@
    } else if begins_with(s, "@app.icon/"@) {
        "$r('app.icon."@ + s.skip("@app.icon/"@.len() as int) + "')"@
    } else {
        string_lit(s)
    }
}

/// `Image(src)`.
pub open spec fn image(args: Seq<ExprView>) -> Seq<char> {
    match string_of(at(args, 0)) {
        Some(s) => "Image("@ + image_source(s) + ").width('100%').height(200)"@,
        None => "Text('[non-literal Image src]').fontSize(16).fontColor('#888888')"@,
    }
}

/// The literals of the string items.
pub open spec fn string_items(items: Seq<ExprView>) -> Seq<Seq<char>>
    decreases items.len(),
{
    if items.len() == 0 {
        Seq::empty()
    } else {
        let front = string_items(items.drop_last());
        match items.last() {
            ExprView::String(s) => front.push(string_lit(s)),
            _ => front,
        }
    }
}

/// The options of a picker.
pub open spec fn picker_options(args: Seq<ExprView>) -> Seq<Seq<char>> {
    match items_of(at(args, 0)) {
        Some(items) => string_items(items),
        None => Seq::empty(),
    }
}

/// `Picker(options, onChange)`: the first option is the one that is chosen.
pub open spec fn picker(args: Seq<ExprView>, callbacks: Seq<ExprView>) -> Seq<char> {
    let options = picker_options(args);
    "TextPicker({ range: ["@ + join(options, ", "@) + "], value: "@ + (if options.len() == 0 {
        "''"@
    } else {
        options[0]
    }) + " })"@ + handler(
        at(args, 1),
        ".onChange((_value: string, index: number) => {\n    perryEntry.invokeCallback1("@,
        ", index);\n    "@,
        callbacks,
    )
}

/// `ProgressView(value, total)`.
pub open spec fn progress(args: Seq<ExprView>) -> Seq<char> {
    "Progress({ value: "@ + numeric_or(at(args, 0), "0"@) + ", total: "@ + numeric_or(
        at(args, 1),
        "100"@,
    ) + ", type: ProgressType.Linear })"@
}

/// What stands for a dialog, which only a closure can open.
pub const MODAL: &'static str =
    "// Modal: configure with `showDialog(...)` from a closure body \
    (Phase 2 v12.5 — needs runtime FFI bridge to AlertDialog.show)\n\
    Text('[Modal — call showDialog() instead]').fontSize(16).fontColor('#888888')";

/// One item of a menu: a button for `{ label, action }`.
pub open spec fn menu_item(e: ExprView, callbacks: Seq<ExprView>) -> Seq<char> {
    match e {
        ExprView::Object(props) => button(
            string_or(find_prop(props, "label"@), "Item"@),
            find_prop(props, "action"@),
            callbacks,
        ),
        _ => "Text('[invalid menu item]').fontSize(14).fontColor('#888888')"@,
    }
}

/// The action of a menu item.
pub open spec fn menu_action(e: ExprView) -> Option<ExprView> {
    match e {
        ExprView::Object(props) => find_prop(props, "action"@),
        _ => None,
    }
}

/// The items of a menu, and the callbacks after them.
pub open spec fn menu_items(items: Seq<ExprView>, callbacks: Seq<ExprView>) -> (
    Seq<Seq<char>>,
    Seq<ExprView>,
)
    decreases items.len(),
{
    if items.len() == 0 {
        (Seq::empty(), callbacks)
    } else {
        let (front, cbs) = menu_items(items.drop_last(), callbacks);
        let e = items.last();
        (front.push(menu_item(e, cbs)), registered(menu_action(e), cbs))
    }
}

/// The item list of a menu.
pub open spec fn menu_list(args: Seq<ExprView>) -> Seq<ExprView> {
    match items_of(at(args, 0)) {
        Some(items) => items,
        None => Seq::empty(),
    }
}

/// `Menu(items)`: a column of buttons.
pub open spec fn menu(args: Seq<ExprView>, callbacks: Seq<ExprView>) -> Seq<char> {
    "Column({ space: 4 }) {\n    "@ + join(menu_items(menu_list(args), callbacks).0, "\n    "@)
        + "\n}"@
}

/// What stands for a widget that is not known.
pub open spec fn unsupported(name: Seq<char>) -> Seq<char> {
    "// unsupported perry/ui widget: "@ + name + " (Phase 2 v12)\nText('[unsupported: "@ + name
        + "]').fontSize(16).fontColor('#888888')"@
}

// ---------------------------------------------------------------------------
// Execution
// ---------------------------------------------------------------------------

fn write_handler(e: Option<&Expr>, head: &str, tail: &str, callbacks: &mut Vec<Expr>) -> (r: String)
    ensures
        r@ == handler(opt_ref_view(e), head@, tail@, exprs_view(old(callbacks)@)),
        exprs_view(final(callbacks)@) == registered(opt_ref_view(e), exprs_view(old(callbacks)@)),
{
    match e {
        Some(Expr::Closure { .. }) => {
            let closure: &Expr = e.unwrap();
            let ghost before = exprs_view(callbacks@);
            let mut out: String = head.to_string();
            out.append(&dec_text(callbacks.len() as u64));
            out.append(tail);
            out.append(&drain_loop_body());
            out.append("})");
            callbacks.push(closure.clone());
            assert(exprs_view(callbacks@) =~= before.push(closure@));
            out
        },
        _ => {
            let out: String = String::new();
            assert(out@ =~= Seq::empty());
            out
        },
    }
}

/// The text of a string literal, or the other text.
pub fn text_or(e: Option<&Expr>, other: &str) -> (r: String)
    ensures
        r@ == string_or(opt_ref_view(e), other@),
{
    match e {
        Some(x) => match literal_text(x) {
            Some(s) => s.clone(),
            None => other.to_string(),
        },
        None => other.to_string(),
    }
}

fn content_of(e: Option<&Expr>, locals: &Vec<LocalId>) -> (r: Option<String>)
    ensures
        (match r {
            Some(s) => Some(s@),
            None => None,
        }) == text_content(opt_ref_view(e), locals@),
{
    match e {
        Some(Expr::String(s)) => Some(arkts_string_lit(s)),
        Some(Expr::LocalGet(id)) => if contains_id(locals, *id) {
            Some("__item".to_string())
        } else {
            None
        },
        _ => None,
    }
}

/// Registers a reactive text; the result is the widget that shows it.
pub fn push_slot(id: &String, initial: &String, slots: &mut Vec<TextSlot>) -> (r: String)
    ensures
        slots_view(final(slots)@) == slots_view(old(slots)@).push(slot_for(id@, initial@)),
        r@ == "Text(this.text_"@ + sanitized(id@) + ").fontSize(20)"@,
{
    let safe: String = sanitize_text_id(id);
    let mut out: String = "Text(this.text_".to_string();
    out.append(&safe);
    out.append(").fontSize(20)");
    let ghost before = slots_view(slots@);
    let slot = TextSlot { original_id: id.clone(), field_id: safe, initial: initial.clone() };
    slots.push(slot);
    assert(slots_view(slots@) =~= before.push(slot@));
    out
}

/// `Text("hi")` → `Text('hi').fontSize(20)`. With an id, `Text("hi", "id")`, the
/// text is kept in a field of the page, and can be changed.
pub fn emit_text(args: &Vec<Expr>, slots: &mut Vec<TextSlot>, locals: &Vec<LocalId>) -> (r: String)
    ensures
        r@ == text_widget(exprs_view(args@), locals@),
        slots_view(final(slots)@) == text_slots(exprs_view(args@), slots_view(old(slots)@)),
{
    let content: String = match content_of(arg_at(args, 0), locals) {
        Some(s) => s,
        None => {
            return "Text('[non-literal Text arg]').fontSize(20).fontColor('#888888')".to_string();
        },
    };
    match first_string_arg(args) {
        Some(initial) => match arg_at(args, 1) {
            Some(e) => match literal_text(e) {
                Some(id) => {
                    return push_slot(id, initial, slots);
                },
                None => {},
            },
            None => {},
        },
        None => {},
    }
    let mut out: String = "Text(".to_string();
    out.append(&content);
    out.append(").fontSize(20)");
    out
}

fn write_button(label: &str, action: Option<&Expr>, callbacks: &mut Vec<Expr>) -> (r: String)
    ensures
        r@ == button(label@, opt_ref_view(action), exprs_view(old(callbacks)@)),
        exprs_view(final(callbacks)@) == registered(
            opt_ref_view(action),
            exprs_view(old(callbacks)@),
        ),
{
    let mut out: String = "Button(".to_string();
    out.append(&arkts_string_lit(label));
    out.append(").fontSize(16)");
    let onclick = write_handler(
        action,
        ".onClick(() => {\n    perryEntry.invokeCallback(",
        ");\n    ",
        callbacks,
    );
    out.append(&onclick);
    out
}

/// `Button("label", onPress)` → `Button('label').onClick(..)`. Without a closure
/// there is no handler.
pub fn emit_button(args: &Vec<Expr>, callbacks: &mut Vec<Expr>) -> (r: String)
    ensures
        r@ == button(
            string_or(at(exprs_view(args@), 0), "Button"@),
            at(exprs_view(args@), 1),
            exprs_view(old(callbacks)@),
        ),
        exprs_view(final(callbacks)@) == registered(
            at(exprs_view(args@), 1),
            exprs_view(old(callbacks)@),
        ),
{
    let label = text_or(arg_at(args, 0), "Button");
    write_button(&label, arg_at(args, 1), callbacks)
}

/// `TextField(placeholder, onChange)` → `TextInput(..).onChange(..)`.
pub fn emit_textfield(args: &Vec<Expr>, callbacks: &mut Vec<Expr>) -> (r: String)
    ensures
        r@ == textfield(exprs_view(args@), exprs_view(old(callbacks)@)),
        exprs_view(final(callbacks)@) == registered(
            at(exprs_view(args@), 1),
            exprs_view(old(callbacks)@),
        ),
{
    let mut out: String = "TextInput({ placeholder: ".to_string();
    out.append(&arkts_string_lit(&text_or(arg_at(args, 0), "")));
    out.append(" })");
    let onchange = write_handler(
        arg_at(args, 1),
        ".onChange((value: string) => {\n    perryEntry.invokeCallback1(",
        ", value);\n    ",
        callbacks,
    );
    out.append(&onchange);
    out
}

/// `Toggle(label, onChange)` → the label beside a switch, in a row.
pub fn emit_toggle(args: &Vec<Expr>, callbacks: &mut Vec<Expr>) -> (r: String)
    ensures
        r@ == toggle(exprs_view(args@), exprs_view(old(callbacks)@)),
        exprs_view(final(callbacks)@) == registered(
            at(exprs_view(args@), 1),
            exprs_view(old(callbacks)@),
        ),
{
    let label = text_or(arg_at(args, 0), "");
    let onchange = write_handler(
        arg_at(args, 1),
        ".onChange((isOn: boolean) => {\n    perryEntry.invokeCallback1(",
        ", isOn);\n    ",
        callbacks,
    );
    if label.as_str().is_empty() {
        let mut out: String = "Toggle({ type: ToggleType.Switch, isOn: false })".to_string();
        out.append(&onchange);
        out
    } else {
        let mut out: String = "Row({ space: 8 }) {\n    Text(".to_string();
        out.append(&arkts_string_lit(&label));
        out.append(
            ").fontSize(16)\n    Toggle({ type: ToggleType.Switch, isOn: false })",
        );
        out.append(&onchange);
        out.append("\n}");
        out
    }
}

/// `Slider(min, max, onChange)` → a slider that starts at its minimum.
pub fn emit_slider(args: &Vec<Expr>, callbacks: &mut Vec<Expr>) -> (r: String)
    ensures
        r@ == slider(exprs_view(args@), exprs_view(old(callbacks)@)),
        exprs_view(final(callbacks)@) == registered(
            at(exprs_view(args@), 2),
            exprs_view(old(callbacks)@),
        ),
{
    let min = numeric_arg_or(args, 0, "0");
    let max = numeric_arg_or(args, 1, "100");
    let onchange = write_handler(
        arg_at(args, 2),
        ".onChange((value: number, _mode: SliderChangeMode) => {\n    perryEntry.invokeCallback1(",
        ", value);\n    ",
        callbacks,
    );
    let mut out: String = "Slider({ value: ".to_string();
    out.append(&min);
    out.append(", min: ");
    out.append(&min);
    out.append(", max: ");
    out.append(&max);
    out.append(", step: 1, style: SliderStyle.OutSet })");
    out.append(&onchange);
    out
}

fn source_of_image(s: &String) -> (r: String)
    ensures
        r@ == image_source(s@),
{
    match strip_prefix(s, "@app.media/") {
        Some(name) => {
            let mut out: String = "$r('app.media.".to_string();
            out.append(&name);
            out.append("')");
            return out;
        },
        None => {},
    }
    match strip_prefix(s, "@app.icon/") {
        Some(name) => {
            let mut out: String = "$r('app.icon.".to_string();
            out.append(&name);
            out.append("')");
            return out;
        },
        None => {},
    }
    arkts_string_lit(s)
}

/// `Image(src)` → `Image('src').width('100%').height(200)`; `@app.media/name` and
/// `@app.icon/name` become resource accessors.
pub fn emit_image(args: &Vec<Expr>) -> (r: String)
    ensures
        r@ == image(exprs_view(args@)),
{
    match first_string_arg(args) {
        Some(s) => {
            let mut out: String = "Image(".to_string();
            out.append(&source_of_image(s));
            out.append(").width('100%').height(200)");
            out
        },
        None => "Text('[non-literal Image src]').fontSize(16).fontColor('#888888')".to_string(),
    }
}

fn literals_of(items: &Vec<Expr>) -> (r: Vec<String>)
    ensures
        strings_view(r@) == string_items(exprs_view(items@)),
{
    let ghost all = exprs_view(items@);
    let mut out: Vec<String> = Vec::new();
    assert(strings_view(out@) =~= Seq::empty());
    let mut i: usize = 0;
    while i < items.len()
        invariant
            i <= items@.len(),
            all == exprs_view(items@),
            all.len() == items@.len(),
            strings_view(out@) == string_items(all.take(i as int)),
        decreases items@.len() - i,
    {
        assert(all.take(i + 1).drop_last() =~= all.take(i as int));
        assert(all.take(i + 1).last() == items@[i as int].view());
        match literal_text(&items[i]) {
            Some(s) => {
                let ghost before = strings_view(out@);
                let lit = arkts_string_lit(s);
                out.push(lit);
                assert(strings_view(out@) =~= before.push(lit@));
            },
            None => {},
        }
        i += 1;
    }
    assert(all.take(i as int) =~= all);
    out
}

/// The items of an array literal.
pub fn array_items(e: Option<&Expr>) -> (r: Option<&Vec<Expr>>)
    ensures
        (match r {
            Some(v) => Some(exprs_view(v@)),
            None => None,
        }) == items_of(opt_ref_view(e)),
        e matches Some(x) ==> (r matches Some(v) ==> decreases_to!(*x => *v)),
        r is Some ==> e is Some,
{
    match e {
        Some(Expr::Array(items)) => Some(items),
        _ => None,
    }
}

/// `Picker(options, onChange)` → `TextPicker(..)` that starts at its first option.
pub fn emit_picker(args: &Vec<Expr>, callbacks: &mut Vec<Expr>) -> (r: String)
    ensures
        r@ == picker(exprs_view(args@), exprs_view(old(callbacks)@)),
        exprs_view(final(callbacks)@) == registered(
            at(exprs_view(args@), 1),
            exprs_view(old(callbacks)@),
        ),
{
    let options: Vec<String> = match array_items(arg_at(args, 0)) {
        Some(items) => literals_of(items),
        None => {
            let none: Vec<String> = Vec::new();
            assert(strings_view(none@) =~= Seq::empty());
            none
        },
    };
    let onchange = write_handler(
        arg_at(args, 1),
        ".onChange((_value: string, index: number) => {\n    perryEntry.invokeCallback1(",
        ", index);\n    ",
        callbacks,
    );
    let mut out: String = "TextPicker({ range: [".to_string();
    out.append(&join_strings(&options, ", "));
    out.append("], value: ");
    if options.len() == 0 {
        out.append("''");
    } else {
        assert(strings_view(options@)[0] == options@[0]@);
        out.append(&options[0]);
    }
    out.append(" })");
    out.append(&onchange);
    out
}

/// `ProgressView(value, total)` → a linear progress bar.
pub fn emit_progressview(args: &Vec<Expr>) -> (r: String)
    ensures
        r@ == progress(exprs_view(args@)),
{
    let mut out: String = "Progress({ value: ".to_string();
    out.append(&numeric_arg_or(args, 0, "0"));
    out.append(", total: ");
    out.append(&numeric_arg_or(args, 1, "100"));
    out.append(", type: ProgressType.Linear })");
    out
}

/// What stands for a dialog.
pub fn emit_modal() -> (r: String)
    ensures
        r@ == MODAL@,
{
    MODAL.to_string()
}

fn write_menu_item(e: &Expr, callbacks: &mut Vec<Expr>) -> (r: String)
    ensures
        r@ == menu_item(e@, exprs_view(old(callbacks)@)),
        exprs_view(final(callbacks)@) == registered(
            menu_action(e@),
            exprs_view(old(callbacks)@),
        ),
{
    match e {
        Expr::Object(props) => {
            let label = text_or(prop_of(props, "label"), "Item");
            write_button(&label, prop_of(props, "action"), callbacks)
        },
        _ => "Text('[invalid menu item]').fontSize(14).fontColor('#888888')".to_string(),
    }
}

fn write_menu_items(items: &Vec<Expr>, callbacks: &mut Vec<Expr>) -> (r: Vec<String>)
    ensures
        (strings_view(r@), exprs_view(final(callbacks)@)) == menu_items(
            exprs_view(items@),
            exprs_view(old(callbacks)@),
        ),
{
    let ghost all = exprs_view(items@);
    let ghost start = exprs_view(callbacks@);
    let mut out: Vec<String> = Vec::new();
    assert(strings_view(out@) =~= Seq::empty());
    let mut i: usize = 0;
    while i < items.len()
        invariant
            i <= items@.len(),
            all == exprs_view(items@),
            all.len() == items@.len(),
            start == exprs_view(old(callbacks)@),
            (strings_view(out@), exprs_view(callbacks@)) == menu_items(all.take(i as int), start),
        decreases items@.len() - i,
    {
        assert(all.take(i + 1).drop_last() =~= all.take(i as int));
        assert(all.take(i + 1).last() == items@[i as int].view());
        let ghost before = strings_view(out@);
        let x = write_menu_item(&items[i], callbacks);
        out.push(x);
        assert(strings_view(out@) =~= before.push(x@));
        i += 1;
    }
    assert(all.take(i as int) =~= all);
    out
}

/// `Menu(items)` → a column with a button for each item.
pub fn emit_menu(args: &Vec<Expr>, callbacks: &mut Vec<Expr>) -> (r: String)
    ensures
        r@ == menu(exprs_view(args@), exprs_view(old(callbacks)@)),
        exprs_view(final(callbacks)@) == menu_items(
            menu_list(exprs_view(args@)),
            exprs_view(old(callbacks)@),
        ).1,
{
    let buttons: Vec<String> = match array_items(arg_at(args, 0)) {
        Some(items) => write_menu_items(items, callbacks),
        None => {
            let none: Vec<String> = Vec::new();
            assert(strings_view(none@) =~= Seq::empty());
            none
        },
    };
    let mut out: String = "Column({ space: 4 }) {\n    ".to_string();
    out.append(&join_strings(&buttons, "\n    "));
    out.append("\n}");
    out
}

/// What stands for a widget that is not known.
pub fn emit_unsupported(name: &String) -> (r: String)
    ensures
        r@ == unsupported(name@),
{
    let mut out: String = "// unsupported perry/ui widget: ".to_string();
    out.append(name);
    out.append(" (Phase 2 v12)\nText('[unsupported: ");
    out.append(name);
    out.append("]').fontSize(16).fontColor('#888888')");
    out
}

} // verus!
