//! The page around the widgets: its state fields, its update method, and the
//! helper class for lazy lists.

use crate::arkts::literal::{arkts_string_lit, sanitized, string_lit};
use crate::text::{indent, indented};
use vstd::prelude::*;

verus! {

// ---------------------------------------------------------------------------
// Registrations
// ---------------------------------------------------------------------------

/// A reactive text: `Text("Count: 0", "counter")` has the id `counter` and the
/// first text `Count: 0`. The page keeps the text in a field; `field_id` is the
/// part of its name that comes from the id.
pub struct TextSlot {
    pub original_id: String,
    pub field_id: String,
    pub initial: String,
}

/// A lazy list: the page field that holds its data source, and the array that the
/// source is made from.
pub struct LazyDataSource {
    pub field_id: String,
    pub items_source: String,
}

pub struct SlotView {
    pub original_id: Seq<char>,
    pub field_id: Seq<char>,
    pub initial: Seq<char>,
}

pub struct LazyView {
    pub field_id: Seq<char>,
    pub items_source: Seq<char>,
}

impl TextSlot {
    pub open spec fn view(self) -> SlotView {
        SlotView {
            original_id: self.original_id@,
            field_id: self.field_id@,
            initial: self.initial@,
        }
    }
}

impl LazyDataSource {
    pub open spec fn view(self) -> LazyView {
        LazyView { field_id: self.field_id@, items_source: self.items_source@ }
    }
}

pub open spec fn slots_view(v: Seq<TextSlot>) -> Seq<SlotView> {
    v.map_values(|s: TextSlot| s.view())
}

pub open spec fn lazies_view(v: Seq<LazyDataSource>) -> Seq<LazyView> {
    v.map_values(|s: LazyDataSource| s.view())
}

/// The slot for a reactive text.
pub open spec fn slot_for(id: Seq<char>, initial: Seq<char>) -> SlotView {
    SlotView { original_id: id, field_id: sanitized(id), initial }
}

// ---------------------------------------------------------------------------
// Text
// ---------------------------------------------------------------------------

/// What an event handler does after its callback: it shows the toasts and applies
/// the text updates that the callback has queued.
pub const DRAIN: &'static str = "let __t = perryEntry.drainToast();\n    \
    while (__t !== undefined) { \
    promptAction.showToast({ message: __t }); \
    __t = perryEntry.drainToast(); \
    }\n    \
    let __u = perryEntry.drainTextUpdate();\n    \
    while (__u !== undefined) { \
    this.applyTextUpdate(__u.id, __u.value); \
    __u = perryEntry.drainTextUpdate(); \
    }\n  ";

/// The top of the page, up to the helper class.
pub const PAGE_HEAD: &'static str =
    "// Auto-generated by Perry (perry-codegen-arkts) — do not edit.\n\
    // Regenerated every `perry compile --target harmonyos`.\n\
    //\n\
    // Source of truth is the `App({body: ...})` call in your\n\
    // TypeScript entry. Edit there; this file is overwritten.\n\
    import perryEntry from 'libentry.so';\n\
    import promptAction from '@ohos.promptAction';\n\
    \n";

/// The data source of lazy lists.
pub const LAZY_CLASS: &'static str = "class PerryListDataSource implements IDataSource {\n\
    private items: any[];\n\
    private listeners: DataChangeListener[] = [];\n\
    constructor(items: any[]) { this.items = items; }\n\
    totalCount(): number { return this.items.length; }\n\
    getData(idx: number): any { return this.items[idx]; }\n\
    registerDataChangeListener(listener: DataChangeListener): void { this.listeners.push(listener); }\n\
    unregisterDataChangeListener(listener: DataChangeListener): void { this.listeners = this.listeners.filter(l => l !== listener); }\n\
    }\n\n";

/// The field of a reactive text.
pub open spec fn slot_field(s: SlotView) -> Seq<char> {
    "    @State text_"@ + s.field_id + ": string = "@ + string_lit(s.initial) + ";\n"@
}

/// The case of the update method for a reactive text: it is found by the id as it
/// was given.
pub open spec fn slot_case(s: SlotView) -> Seq<char> {
    "            case "@ + string_lit(s.original_id) + ": this.text_"@ + s.field_id
        + " = value; break;\n"@
}

/// The field of a lazy list.
pub open spec fn lazy_field(s: LazyView) -> Seq<char> {
    "    @State "@ + s.field_id + ": PerryListDataSource = new PerryListDataSource("@
        + s.items_source + ");\n"@
}

pub open spec fn slot_fields(v: Seq<SlotView>) -> Seq<char>
    decreases v.len(),
{
    if v.len() == 0 {
        Seq::empty()
    } else {
        slot_fields(v.drop_last()) + slot_field(v.last())
    }
}

pub open spec fn slot_cases(v: Seq<SlotView>) -> Seq<char>
    decreases v.len(),
{
    if v.len() == 0 {
        Seq::empty()
    } else {
        slot_cases(v.drop_last()) + slot_case(v.last())
    }
}

pub open spec fn lazy_fields(v: Seq<LazyView>) -> Seq<char>
    decreases v.len(),
{
    if v.len() == 0 {
        Seq::empty()
    } else {
        lazy_fields(v.drop_last()) + lazy_field(v.last())
    }
}

/// The method that assigns an update to the field of its id.
pub open spec fn apply_method(v: Seq<SlotView>) -> Seq<char> {
    "    applyTextUpdate(id: string, value: string): void {\n        switch (id) {\n"@ + slot_cases(
        v,
    ) + "            default: break;\n        }\n    }\n"@
}

/// The whole page: the helper class where it is needed, a field for every
/// registration, the update method, and the widgets.
pub open spec fn page(body: Seq<char>, slots: Seq<SlotView>, lazies: Seq<LazyView>) -> Seq<char> {
    PAGE_HEAD@ + (if lazies.len() == 0 {
        ""@
    } else {
        LAZY_CLASS@
    }) + "@Entry\n@Component\nstruct Index {\n"@ + slot_fields(slots) + lazy_fields(lazies)
        + apply_method(slots) + "    build() {\n        Column() {\n"@ + indented(
        body,
        "            "@,
    ) + "\n        }\n        .width('100%')\n        .height('100%')\n        .justifyContent(FlexAlign.Center)\n    }\n}\n"@
}

// ---------------------------------------------------------------------------
// Execution
// ---------------------------------------------------------------------------

/// What an event handler does after its callback.
pub fn drain_loop_body() -> (r: String)
    ensures
        r@ == DRAIN@,
{
    DRAIN.to_string()
}

fn write_slot_field(s: &TextSlot, out: &mut String)
    ensures
        final(out)@ == old(out)@ + slot_field(s@),
{
    let mut x: String = "    @State text_".to_string();
    x.append(&s.field_id);
    x.append(": string = ");
    x.append(&arkts_string_lit(&s.initial));
    x.append(";\n");
    out.append(&x);
}

fn write_slot_case(s: &TextSlot, out: &mut String)
    ensures
        final(out)@ == old(out)@ + slot_case(s@),
{
    let mut x: String = "            case ".to_string();
    x.append(&arkts_string_lit(&s.original_id));
    x.append(": this.text_");
    x.append(&s.field_id);
    x.append(" = value; break;\n");
    out.append(&x);
}

fn write_lazy_field(s: &LazyDataSource, out: &mut String)
    ensures
        final(out)@ == old(out)@ + lazy_field(s@),
{
    let mut x: String = "    @State ".to_string();
    x.append(&s.field_id);
    x.append(": PerryListDataSource = new PerryListDataSource(");
    x.append(&s.items_source);
    x.append(");\n");
    out.append(&x);
}

fn write_slot_fields(v: &Vec<TextSlot>) -> (r: String)
    ensures
        r@ == slot_fields(slots_view(v@)),
{
    let ghost all = slots_view(v@);
    let mut out: String = String::new();
    assert(out@ =~= Seq::empty());
    let mut i: usize = 0;
    while i < v.len()
        invariant
            i <= v@.len(),
            all == slots_view(v@),
            out@ == slot_fields(all.take(i as int)),
        decreases v@.len() - i,
    {
        assert(all.take(i + 1).drop_last() =~= all.take(i as int));
        assert(all.take(i + 1).last() == v@[i as int].view());
        write_slot_field(&v[i], &mut out);
        i += 1;
    }
    assert(all.take(i as int) =~= all);
    out
}

fn write_slot_cases(v: &Vec<TextSlot>) -> (r: String)
    ensures
        r@ == slot_cases(slots_view(v@)),
{
    let ghost all = slots_view(v@);
    let mut out: String = String::new();
    assert(out@ =~= Seq::empty());
    let mut i: usize = 0;
    while i < v.len()
        invariant
            i <= v@.len(),
            all == slots_view(v@),
            out@ == slot_cases(all.take(i as int)),
        decreases v@.len() - i,
    {
        assert(all.take(i + 1).drop_last() =~= all.take(i as int));
        assert(all.take(i + 1).last() == v@[i as int].view());
        write_slot_case(&v[i], &mut out);
        i += 1;
    }
    assert(all.take(i as int) =~= all);
    out
}

fn write_lazy_fields(v: &Vec<LazyDataSource>) -> (r: String)
    ensures
        r@ == lazy_fields(lazies_view(v@)),
{
    let ghost all = lazies_view(v@);
    let mut out: String = String::new();
    assert(out@ =~= Seq::empty());
    let mut i: usize = 0;
    while i < v.len()
        invariant
            i <= v@.len(),
            all == lazies_view(v@),
            out@ == lazy_fields(all.take(i as int)),
        decreases v@.len() - i,
    {
        assert(all.take(i + 1).drop_last() =~= all.take(i as int));
        assert(all.take(i + 1).last() == v@[i as int].view());
        write_lazy_field(&v[i], &mut out);
        i += 1;
    }
    assert(all.take(i as int) =~= all);
    out
}

/// Wraps the widgets of the body in a complete ArkUI page.
pub fn wrap_index_page(
    widget_body: &str,
    text_slots: &Vec<TextSlot>,
    lazy_sources: &Vec<LazyDataSource>,
) -> (r: String)
    ensures
        r@ == page(widget_body@, slots_view(text_slots@), lazies_view(lazy_sources@)),
{
    let mut apply: String =
        "    applyTextUpdate(id: string, value: string): void {\n        switch (id) {\n".to_string();
    apply.append(&write_slot_cases(text_slots));
    apply.append("            default: break;\n        }\n    }\n");
    let class: &str = if lazy_sources.len() == 0 {
        ""
    } else {
        LAZY_CLASS
    };
    let mut out: String = PAGE_HEAD.to_string();
    out.append(class);
    out.append("@Entry\n@Component\nstruct Index {\n");
    out.append(&write_slot_fields(text_slots));
    out.append(&write_lazy_fields(lazy_sources));
    out.append(&apply);
    out.append("    build() {\n        Column() {\n");
    out.append(&indent(widget_body, "            "));
    out.append(
        "\n        }\n        .width('100%')\n        .height('100%')\n        .justifyContent(FlexAlign.Center)\n    }\n}\n",
    );
    out
}

} // verus!
