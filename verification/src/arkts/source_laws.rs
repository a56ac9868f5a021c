//! What the generated source says: literals that stay on their line, field names that
//! keep what a name can keep, and for each registration a field and the case that updates
//! it.

use crate::arkts::leaf::{image, image_source, menu, menu_items, menu_list, EmitView};
use crate::arkts::literal::{escape, escaped, sanitized, string_lit};
use crate::arkts::occurs::{occurs, split_at};
use crate::arkts::page::{
    apply_method, lazy_field, lazy_fields, page, slot_case, slot_cases, slot_field, slot_fields,
    LazyView, SlotView, LAZY_CLASS, PAGE_HEAD,
};
use crate::arkts::value::at;
use crate::arkts::widget::{
    deeper, eager_text, lazy_list, lazy_vstack, stacked, tab_blocks, tabs, widgets, EnvView,
    PlaceView,
};
use crate::model::ExprView;
use crate::text::{begins_with, indented, join, levels};
use vstd::prelude::*;

verus! {

// ---------------------------------------------------------------------------
// Literals and names
// ---------------------------------------------------------------------------

/// Whether the text holds no line end and no tab.
pub open spec fn on_one_line(s: Seq<char>) -> bool {
    forall|i: int|
        0 <= i < s.len() ==> #[trigger] s[i] != '\n' && s[i] != '\r' && s[i] != '\t'
}

proof fn lemma_escaped_on_one_line(s: Seq<char>)
    ensures
        on_one_line(escaped(s)),
    decreases s.len(),
{
    if s.len() > 0 {
        lemma_escaped_on_one_line(s.skip(1));
        let a = escape(s[0]);
        let b = escaped(s.skip(1));
        assert(on_one_line(a));
        assert forall|i: int| 0 <= i < (a + b).len() implies #[trigger] (a + b)[i] != '\n' && (a
            + b)[i] != '\r' && (a + b)[i] != '\t' by {
            if i < a.len() {
                assert((a + b)[i] == a[i]);
            } else {
                assert((a + b)[i] == b[i - a.len()]);
            }
        }
        assert(escaped(s) == a + b);
    }
}

/// A string literal stays on its line, whatever the string holds, and stands in single
/// quotes.
pub proof fn law_string_lit_is_on_one_line(s: Seq<char>)
    ensures
        on_one_line(string_lit(s)),
        string_lit(s).len() >= 2,
        string_lit(s)[0] == '\'',
        string_lit(s).last() == '\'',
{
    lemma_escaped_on_one_line(s);
    let t = string_lit(s);
    let e = escaped(s);
    assert(t =~= seq!['\''] + e + seq!['\'']);
    assert forall|i: int| 0 <= i < t.len() implies #[trigger] t[i] != '\n' && t[i] != '\r' && t[i]
        != '\t' by {
        if 0 < i < t.len() - 1 {
            assert(t[i] == e[i - 1]);
        }
    }
}

/// The name for a text has one character for each of its own, behind an `x` where the
/// text begins with a digit: the same one where it is a letter, a digit or an
/// underscore, and an underscore otherwise. The name for no text is `default`.
pub proof fn law_sanitized_char_by_char(s: Seq<char>, i: int)
    ensures
        s.len() == 0 ==> sanitized(s) == "default"@,
        s.len() > 0 ==> sanitized(s).len() == s.len() + if '0' <= s[0] <= '9' {
            1int
        } else {
            0
        },
        s.len() > 0 && '0' <= s[0] <= '9' ==> sanitized(s)[0] == 'x',
        0 <= i < s.len() ==> sanitized(s)[i + if '0' <= s[0] <= '9' {
            1int
        } else {
            0
        }] == if 'a' <= s[i] <= 'z' || 'A' <= s[i] <= 'Z' || '0' <= s[i] <= '9' {
            s[i]
        } else {
            '_'
        },
{
}

// ---------------------------------------------------------------------------
// The page
// ---------------------------------------------------------------------------

/// The field of a reactive text begins with its first text, and the case of its id
/// assigns to that same field.
pub proof fn law_slot_field_and_case(s: SlotView)
    ensures
        begins_with(
            slot_field(s),
            "    @State text_"@ + s.field_id + ": string = "@ + string_lit(s.initial),
        ),
        begins_with(
            slot_case(s),
            "            case "@ + string_lit(s.original_id) + ": this.text_"@ + s.field_id
                + " = value;"@,
        ),
{
    reveal_strlit(" = value;");
    reveal_strlit(" = value; break;\n");
    let a = "    @State text_"@ + s.field_id + ": string = "@ + string_lit(s.initial);
    assert(slot_field(s).take(a.len() as int) =~= a);
    let b = "            case "@ + string_lit(s.original_id) + ": this.text_"@ + s.field_id
        + " = value;"@;
    assert(slot_case(s).take(b.len() as int) =~= b);
}

/// The field of a lazy list is made from its array.
pub proof fn law_lazy_field(s: LazyView)
    ensures
        begins_with(
            lazy_field(s),
            "    @State "@ + s.field_id + ": PerryListDataSource = new PerryListDataSource("@
                + s.items_source,
        ),
{
    let a = "    @State "@ + s.field_id + ": PerryListDataSource = new PerryListDataSource("@
        + s.items_source;
    assert(lazy_field(s).take(a.len() as int) =~= a);
}

/// Fields and cases stand in the order of the registrations, one for each.
#[verifier::rlimit(40)]
pub proof fn law_fields_in_order(
    a: Seq<SlotView>,
    b: Seq<SlotView>,
    v: Seq<LazyView>,
    w: Seq<LazyView>,
    s: SlotView,
    l: LazyView,
)
    ensures
        slot_fields(seq![s]) == slot_field(s),
        slot_cases(seq![s]) == slot_case(s),
        lazy_fields(seq![l]) == lazy_field(l),
        slot_fields(a + b) == slot_fields(a) + slot_fields(b),
        slot_cases(a + b) == slot_cases(a) + slot_cases(b),
        lazy_fields(v + w) == lazy_fields(v) + lazy_fields(w),
    decreases b.len() + w.len(),
{
    reveal_with_fuel(slot_fields, 2);
    reveal_with_fuel(slot_cases, 2);
    reveal_with_fuel(lazy_fields, 2);
    assert(seq![s].drop_last() =~= Seq::empty());
    assert(seq![l].drop_last() =~= Seq::empty());
    assert(slot_fields(seq![s]) =~= slot_field(s));
    assert(slot_cases(seq![s]) =~= slot_case(s));
    assert(lazy_fields(seq![l]) =~= lazy_field(l));
    if b.len() == 0 {
        assert(a + b =~= a);
        assert(slot_fields(a) + slot_fields(b) =~= slot_fields(a));
        assert(slot_cases(a) + slot_cases(b) =~= slot_cases(a));
    } else {
        law_fields_in_order(a, b.drop_last(), v, w, s, l);
        assert((a + b).drop_last() =~= a + b.drop_last());
        assert((a + b).last() == b.last());
        assert(slot_fields(a + b) =~= slot_fields(a) + slot_fields(b));
        assert(slot_cases(a + b) =~= slot_cases(a) + slot_cases(b));
    }
    if w.len() == 0 {
        assert(v + w =~= v);
        assert(lazy_fields(v) + lazy_fields(w) =~= lazy_fields(v));
    } else {
        law_fields_in_order(a, Seq::empty(), v, w.drop_last(), s, l);
        assert((v + w).drop_last() =~= v + w.drop_last());
        assert((v + w).last() == w.last());
        assert(lazy_fields(v + w) =~= lazy_fields(v) + lazy_fields(w));
    }
}

/// The page holds its widgets, indented; it has the class of data sources exactly where
/// it has a lazy list.
#[verifier::rlimit(40)]
pub proof fn law_page_holds_its_widgets(
    body: Seq<char>,
    slots: Seq<SlotView>,
    lazies: Seq<LazyView>,
)
    ensures
        occurs(indented(body, "            "@), page(body, slots, lazies)),
        lazies.len() == 0 ==> begins_with(
            page(body, slots, lazies),
            PAGE_HEAD@ + "@Entry\n@Component\nstruct Index {\n"@,
        ),
        lazies.len() > 0 ==> begins_with(
            page(body, slots, lazies),
            PAGE_HEAD@ + LAZY_CLASS@ + "@Entry\n@Component\nstruct Index {\n"@,
        ),
{
    reveal_strlit("");
    let all = page(body, slots, lazies);
    let class = if lazies.len() == 0 {
        ""@
    } else {
        LAZY_CLASS@
    };
    let head = PAGE_HEAD@ + class + "@Entry\n@Component\nstruct Index {\n"@;
    let front = head + slot_fields(slots) + lazy_fields(lazies) + apply_method(slots)
        + "    build() {\n        Column() {\n"@;
    let tail =
        "\n        }\n        .width('100%')\n        .height('100%')\n        .justifyContent(FlexAlign.Center)\n    }\n}\n"@;
    let inner = indented(body, "            "@);
    assert(all =~= front + inner + tail);
    assert(split_at(inner, all, front, tail));
    assert(all.take(head.len() as int) =~= head);
    if lazies.len() == 0 {
        assert(PAGE_HEAD@ + ""@ =~= PAGE_HEAD@);
    }
}

// ---------------------------------------------------------------------------
// Widgets with lists
// ---------------------------------------------------------------------------

/// An image shows its source, the first argument.
pub proof fn law_image_shows_its_source(args: Seq<ExprView>)
    requires
        args.len() > 0,
    ensures
        args[0] matches ExprView::String(s) ==> begins_with(
            image(args),
            "Image("@ + image_source(s) + ")"@,
        ),
        !(args[0] is String) ==> image(args)
            == "Text('[non-literal Image src]').fontSize(16).fontColor('#888888')"@,
{
    assert(at(args, 0) == Some(args[0]));
    match args[0] {
        ExprView::String(s) => {
            reveal_strlit(")");
            reveal_strlit(").width('100%').height(200)");
            let h = "Image("@ + image_source(s) + ")"@;
            assert(image(args).take(h.len() as int) =~= h);
        },
        _ => {},
    }
}

/// A menu shows the items of its array, one under the other.
pub proof fn law_menu_shows_its_items(args: Seq<ExprView>, items: Seq<ExprView>, callbacks: Seq<ExprView>)
    requires
        args.len() > 0,
        args[0] == ExprView::Array(items),
    ensures
        menu_list(args) == items,
        occurs(join(menu_items(items, callbacks).0, "\n    "@), menu(args, callbacks)),
{
    assert(at(args, 0) == Some(args[0]));
    let inner = join(menu_items(items, callbacks).0, "\n    "@);
    let all = menu(args, callbacks);
    assert(all =~= "Column({ space: 4 }) {\n    "@ + inner + "\n}"@);
    assert(split_at(inner, all, "Column({ space: 4 }) {\n    "@, "\n}"@));
}

/// A lazy stack of a loop is a lazy list; one of children shows them all, in a column.
#[verifier::rlimit(40)]
pub proof fn law_lazy_stack(
    args: Seq<ExprView>,
    items: Seq<ExprView>,
    env: EnvView,
    p: PlaceView,
    emit: EmitView,
    left: nat,
)
    requires
        args.len() > 0,
    ensures
        args[0] is ArrayMap ==> lazy_vstack(args, env, p, emit, left) == lazy_list(
            args[0],
            env,
            p,
            emit,
            left,
        ),
        args[0] == ExprView::Array(items) ==> match widgets(
            items,
            items.len(),
            env,
            deeper(p, 1),
            emit,
            left,
        ) {
            Some(list) => lazy_vstack(args, env, p, emit, left) matches Some(run) && occurs(
                "Column({ space: 8 }) {\n"@ + stacked(list.texts, p.depth + 1),
                run.text,
            ) && run.emit == list.emit,
            None => lazy_vstack(args, env, p, emit, left) is None,
        },
{
    if args[0] == ExprView::Array(items) {
        match widgets(items, items.len(), env, deeper(p, 1), emit, left) {
            Some(list) => {
                let d = p.depth;
                let text = eager_text(list.texts, d);
                let inner = "Column({ space: 8 }) {\n"@ + stacked(list.texts, d + 1);
                let a = "// LazyVStack with explicit children: rendered eagerly as Column.\n"@
                    + levels(d) + "// For real lazy rendering, pass `items.map(item => Widget)`.\n"@
                    + levels(d);
                let b = "\n"@ + levels(d) + "}"@;
                assert(text =~= a + inner + b);
                assert(split_at(inner, text, a, b));
            },
            None => {},
        }
    }
}

/// Tabs show the blocks of their array, in order.
pub proof fn law_tabs_show_their_blocks(
    args: Seq<ExprView>,
    items: Seq<ExprView>,
    env: EnvView,
    p: PlaceView,
    emit: EmitView,
    left: nat,
)
    requires
        args.len() > 0,
        args[0] == ExprView::Array(items),
    ensures
        match tab_blocks(items, items.len(), env, p, emit, left) {
            Some(list) => tabs(args, env, p, emit, left) matches Some(run) && begins_with(
                run.text,
                "Tabs() {\n"@ + join(list.texts, "\n"@),
            ) && run.emit == list.emit,
            None => tabs(args, env, p, emit, left) is None,
        },
{
    match tab_blocks(items, items.len(), env, p, emit, left) {
        Some(list) => {
            let h = "Tabs() {\n"@ + join(list.texts, "\n"@);
            let text = tabs(args, env, p, emit, left)->0.text;
            assert(text.take(h.len() as int) =~= h);
        },
        None => {},
    }
}

} // verus!
