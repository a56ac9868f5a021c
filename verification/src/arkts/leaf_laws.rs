//! What widgets without children show of their arguments: each argument by its
//! position, with what stands for it where it is missing.

use crate::arkts::leaf::{
    button, handler, image_source, menu_item, menu_items, picker, picker_options, progress,
    registered, slider, string_items, text_slots, text_widget, textfield, toggle, unsupported,
};
use crate::arkts::literal::{sanitized, string_lit};
use crate::arkts::style_laws::given;
use crate::arkts::value::{at, find_prop};
use crate::arkts::page::SlotView;
use crate::hir::LocalId;
use crate::model::ExprView;
use crate::text::{begins_with, dec, join};
use vstd::prelude::*;

verus! {

proof fn lemma_begins(a: Seq<char>, b: Seq<char>)
    ensures
        begins_with(a + b, a),
{
    assert((a + b).take(a.len() as int) =~= a);
}

/// The number that an argument gives, or the other text.
pub open spec fn number_at(args: Seq<ExprView>, i: int, other: Seq<char>) -> Seq<char> {
    if 0 <= i < args.len() && given(Some(args[i])) is Some {
        given(Some(args[i]))->0
    } else {
        other
    }
}

/// The text that an argument gives as a string literal, or the other text.
pub open spec fn text_at(args: Seq<ExprView>, i: int, other: Seq<char>) -> Seq<char> {
    if 0 <= i < args.len() && args[i] is String {
        args[i]->String_0
    } else {
        other
    }
}

// ---------------------------------------------------------------------------
// Handlers
// ---------------------------------------------------------------------------

/// A closure is registered behind all others, and its handler names the place where it
/// is registered. What is no closure has no handler, and registers nothing.
pub proof fn law_handler_names_its_callback(
    e: Option<ExprView>,
    head: Seq<char>,
    tail: Seq<char>,
    callbacks: Seq<ExprView>,
)
    ensures
        e matches Some(c) && c is Closure ==> {
            let after = registered(e, callbacks);
            &&& after.len() == callbacks.len() + 1
            &&& after[callbacks.len() as int] == e->0
            &&& forall|i: int| 0 <= i < callbacks.len() ==> #[trigger] after[i] == callbacks[i]
            &&& begins_with(
                handler(e, head, tail, callbacks),
                head + dec(callbacks.len()) + tail,
            )
        },
        !(e matches Some(c) && c is Closure) ==> handler(e, head, tail, callbacks).len() == 0
            && registered(e, callbacks) == callbacks,
{
    if e is Some && e->0 is Closure {
        let h = head + dec(callbacks.len()) + tail;
        assert(handler(e, head, tail, callbacks).take(h.len() as int) =~= h);
    }
}

// ---------------------------------------------------------------------------
// Texts
// ---------------------------------------------------------------------------

/// A text shows its literal. With an id it shows the field of the id instead, and a slot
/// keeps the id and the literal. Inside a loop it can show the item of the loop; other
/// variables, and other values, are not shown.
pub proof fn law_text_shows_its_argument(args: Seq<ExprView>, locals: Seq<LocalId>, slots: Seq<SlotView>)
    requires
        args.len() > 0,
    ensures
        args[0] matches ExprView::String(s) ==> {
            &&& args.len() > 1 && args[1] is String ==> {
                &&& text_widget(args, locals) == "Text(this.text_"@ + sanitized(
                    args[1]->String_0,
                ) + ").fontSize(20)"@
                &&& text_slots(args, slots).len() == slots.len() + 1
                &&& text_slots(args, slots).drop_last() == slots
                &&& text_slots(args, slots).last().original_id == args[1]->String_0
                &&& text_slots(args, slots).last().field_id == sanitized(args[1]->String_0)
                &&& text_slots(args, slots).last().initial == s
            }
            &&& !(args.len() > 1 && args[1] is String) ==> {
                &&& text_widget(args, locals) == "Text("@ + string_lit(s) + ").fontSize(20)"@
                &&& text_slots(args, slots) == slots
            }
        },
        args[0] matches ExprView::LocalGet(x) ==> {
            &&& text_slots(args, slots) == slots
            &&& text_widget(args, locals) == if locals.contains(x) {
                "Text("@ + "__item"@ + ").fontSize(20)"@
            } else {
                "Text('[non-literal Text arg]').fontSize(20).fontColor('#888888')"@
            }
        },
        !(args[0] is String) && !(args[0] is LocalGet) ==> text_slots(args, slots) == slots
            && text_widget(args, locals)
            == "Text('[non-literal Text arg]').fontSize(20).fontColor('#888888')"@,
{
    assert(at(args, 0) == Some(args[0]));
    if args[0] is String && args.len() > 1 && args[1] is String {
        assert(text_slots(args, slots).drop_last() =~= slots);
    }
}

// ---------------------------------------------------------------------------
// Controls
// ---------------------------------------------------------------------------

/// A button shows its label.
pub proof fn law_button_shows_its_label(
    label: Seq<char>,
    action: Option<ExprView>,
    callbacks: Seq<ExprView>,
)
    ensures
        begins_with(button(label, action, callbacks), "Button("@ + string_lit(label) + ")"@),
        !(action matches Some(c) && c is Closure) ==> button(label, action, callbacks) == "Button("@
            + string_lit(label) + ").fontSize(16)"@,
{
    reveal_strlit(")");
    reveal_strlit(").fontSize(16)");
    let b = button(label, action, callbacks);
    let h = "Button("@ + string_lit(label) + ")"@;
    assert(b.take(h.len() as int) =~= h);
    if !(action is Some && action->0 is Closure) {
        assert(b =~= "Button("@ + string_lit(label) + ").fontSize(16)"@);
    }
}

/// A text field shows its placeholder, the first argument.
pub proof fn law_textfield_shows_its_placeholder(args: Seq<ExprView>, callbacks: Seq<ExprView>)
    ensures
        begins_with(
            textfield(args, callbacks),
            "TextInput({ placeholder: "@ + string_lit(text_at(args, 0, ""@)) + " })"@,
        ),
{
    let h = "TextInput({ placeholder: "@ + string_lit(text_at(args, 0, ""@)) + " })"@;
    assert(textfield(args, callbacks).take(h.len() as int) =~= h);
}

/// A toggle shows its label, the first argument, in a row; without one it stands alone.
pub proof fn law_toggle_shows_its_label(args: Seq<ExprView>, callbacks: Seq<ExprView>)
    ensures
        text_at(args, 0, ""@).len() > 0 ==> begins_with(
            toggle(args, callbacks),
            "Row({ space: 8 }) {\n    Text("@ + string_lit(text_at(args, 0, ""@)),
        ),
        text_at(args, 0, ""@).len() == 0 ==> begins_with(
            toggle(args, callbacks),
            "Toggle({ type: ToggleType.Switch, isOn: false })"@,
        ),
{
    let label = text_at(args, 0, ""@);
    let t = toggle(args, callbacks);
    if label.len() > 0 {
        let h = "Row({ space: 8 }) {\n    Text("@ + string_lit(label);
        assert(t.take(h.len() as int) =~= h);
    } else {
        let h = "Toggle({ type: ToggleType.Switch, isOn: false })"@;
        assert(t.take(h.len() as int) =~= h);
    }
}

/// A slider runs from its first argument to its second, from 0 to 100 where they are
/// missing, and starts at its minimum.
pub proof fn law_slider_has_its_bounds(args: Seq<ExprView>, callbacks: Seq<ExprView>)
    ensures
        begins_with(
            slider(args, callbacks),
            "Slider({ value: "@ + number_at(args, 0, "0"@) + ", min: "@ + number_at(args, 0, "0"@)
                + ", max: "@ + number_at(args, 1, "100"@) + ", step: 1"@,
        ),
{
    reveal_strlit(", step: 1");
    reveal_strlit(", step: 1, style: SliderStyle.OutSet })");
    let h = "Slider({ value: "@ + number_at(args, 0, "0"@) + ", min: "@ + number_at(args, 0, "0"@)
        + ", max: "@ + number_at(args, 1, "100"@) + ", step: 1"@;
    assert(slider(args, callbacks).take(h.len() as int) =~= h);
}

/// A progress bar has its first argument as its value, and its second as its total; 0
/// and 100 where they are missing.
pub proof fn law_progress_has_its_value(args: Seq<ExprView>)
    ensures
        begins_with(
            progress(args),
            "Progress({ value: "@ + number_at(args, 0, "0"@) + ", total: "@ + number_at(
                args,
                1,
                "100"@,
            ),
        ),
{
    let h = "Progress({ value: "@ + number_at(args, 0, "0"@) + ", total: "@ + number_at(
        args,
        1,
        "100"@,
    );
    assert(progress(args).take(h.len() as int) =~= h);
}

/// The source of an image: a path of the app's media or icons is a resource of that
/// name, anything else a literal.
pub proof fn law_image_source(name: Seq<char>, s: Seq<char>)
    ensures
        image_source("@app.media/"@ + name) == "$r('app.media."@ + name + "')"@,
        image_source("@app.icon/"@ + name) == "$r('app.icon."@ + name + "')"@,
        !begins_with(s, "@app.media/"@) && !begins_with(s, "@app.icon/"@) ==> image_source(s)
            == string_lit(s),
{
    let media = "@app.media/"@ + name;
    let icon = "@app.icon/"@ + name;
    lemma_begins("@app.media/"@, name);
    lemma_begins("@app.icon/"@, name);
    assert(media.skip("@app.media/"@.len() as int) =~= name);
    assert(icon.skip("@app.icon/"@.len() as int) =~= name);
    assert(!begins_with(icon, "@app.media/"@)) by {
        reveal_strlit("@app.media/");
        reveal_strlit("@app.icon/");
        if begins_with(icon, "@app.media/"@) {
            assert(icon.take("@app.media/"@.len() as int)[5] == "@app.media/"@[5]);
            assert(icon[5] == "@app.icon/"@[5]);
        }
    }
}

// ---------------------------------------------------------------------------
// Pickers
// ---------------------------------------------------------------------------

/// The options of a picker are its string items, in order; items of another kind are
/// left out.
pub proof fn law_picker_options(a: Seq<ExprView>, b: Seq<ExprView>, e: ExprView)
    ensures
        string_items(a + b) == string_items(a) + string_items(b),
        e matches ExprView::String(s) ==> string_items(seq![e]) == seq![string_lit(s)],
        !(e is String) ==> string_items(seq![e]).len() == 0,
    decreases b.len(),
{
    let one = seq![e];
    assert(one.drop_last() =~= Seq::empty());
    assert(one.last() == e);
    reveal_with_fuel(string_items, 2);
    match e {
        ExprView::String(s) => {
            assert(string_items(one) =~= seq![string_lit(s)]);
        },
        _ => {},
    }
    if b.len() == 0 {
        assert(a + b =~= a);
        assert(string_items(a) + string_items(b) =~= string_items(a));
    } else {
        law_picker_options(a, b.drop_last(), e);
        assert((a + b).drop_last() =~= a + b.drop_last());
        assert((a + b).last() == b.last());
        assert(string_items(a + b) =~= string_items(a) + string_items(b));
    }
}

/// A picker offers its options in order, and starts with the first.
pub proof fn law_picker_starts_with_the_first(
    items: Seq<ExprView>,
    args: Seq<ExprView>,
    callbacks: Seq<ExprView>,
)
    requires
        args.len() > 0,
        args[0] == ExprView::Array(items),
    ensures
        picker_options(args) == string_items(items),
        string_items(items).len() > 0 ==> begins_with(
            picker(args, callbacks),
            "TextPicker({ range: ["@ + join(string_items(items), ", "@) + "], value: "@
                + string_items(items)[0] + " })"@,
        ),
        string_items(items).len() == 0 ==> begins_with(
            picker(args, callbacks),
            "TextPicker({ range: ["@ + join(string_items(items), ", "@) + "], value: "@ + "''"@
                + " })"@,
        ),
{
    assert(at(args, 0) == Some(args[0]));
    let options = string_items(items);
    let first = if options.len() > 0 {
        options[0]
    } else {
        "''"@
    };
    let h = "TextPicker({ range: ["@ + join(options, ", "@) + "], value: "@ + first + " })"@;
    assert(picker(args, callbacks).take(h.len() as int) =~= h);
}

// ---------------------------------------------------------------------------
// Menus
// ---------------------------------------------------------------------------

/// A menu has one entry for each item, in order: a button with the label and the action
/// of the item. The callbacks of later items come behind those of earlier ones.
pub proof fn law_menu_items(a: Seq<ExprView>, b: Seq<ExprView>, callbacks: Seq<ExprView>)
    ensures
        menu_items(a, callbacks).0.len() == a.len(),
        menu_items(a + b, callbacks).0 == menu_items(a, callbacks).0 + menu_items(
            b,
            menu_items(a, callbacks).1,
        ).0,
        menu_items(a + b, callbacks).1 == menu_items(b, menu_items(a, callbacks).1).1,
    decreases b.len(), a.len(),
{
    if a.len() > 0 {
        law_menu_items(a.drop_last(), Seq::empty(), callbacks);
    }
    if b.len() == 0 {
        assert(a + b =~= a);
        assert(menu_items(a, callbacks).0 + menu_items(b, menu_items(a, callbacks).1).0
            =~= menu_items(a, callbacks).0);
    } else {
        law_menu_items(a, b.drop_last(), callbacks);
        assert((a + b).drop_last() =~= a + b.drop_last());
        assert((a + b).last() == b.last());
        assert(menu_items(a + b, callbacks).0 =~= menu_items(a, callbacks).0 + menu_items(
            b,
            menu_items(a, callbacks).1,
        ).0);
    }
}

/// One item of a menu: its label, `Item` where it has none, and its action.
pub proof fn law_menu_item(props: Seq<(Seq<char>, ExprView)>, callbacks: Seq<ExprView>)
    ensures
        ({
            let e = ExprView::Object(props);
            let label = match find_prop(props, "label"@) {
                Some(ExprView::String(s)) => s,
                _ => "Item"@,
            };
            &&& menu_item(e, callbacks) == button(label, find_prop(props, "action"@), callbacks)
            &&& menu_items(seq![e], callbacks).0 == seq![menu_item(e, callbacks)]
            &&& menu_items(seq![e], callbacks).1 == registered(
                find_prop(props, "action"@),
                callbacks,
            )
        }),
{
    let e = ExprView::Object(props);
    let one = seq![e];
    assert(one.drop_last() =~= Seq::empty());
    assert(one.last() == e);
    reveal_with_fuel(menu_items, 2);
    assert(menu_items(one, callbacks).0 =~= seq![menu_item(e, callbacks)]);
}

/// A widget that is not known is named in its place.
pub proof fn law_unsupported_is_named(name: Seq<char>)
    ensures
        begins_with(unsupported(name), "// unsupported perry/ui widget: "@ + name),
{
    let h = "// unsupported perry/ui widget: "@ + name;
    assert(unsupported(name).take(h.len() as int) =~= h);
}

} // verus!
