//! Style properties as ArkUI modifiers.

use crate::arkts::literal::{arkts_curve_value, arkts_string_lit, curve_value, string_lit};
use crate::arkts::value::{
    find_prop, numeric, numeric_channel, numeric_expr, numeric_or, numeric_text, opt_ref_view,
    prop_of,
};
use crate::hir::Expr;
use crate::model::{fields_view, ExprView};
use crate::num::{fmt_num, number_text};
use crate::text::{dec_int, dec_signed, join, join_strings, str_eq, strings_view};
use vstd::prelude::*;

verus! {

/// A property of an object literal.
pub type PropView = (Seq<char>, ExprView);

// ---------------------------------------------------------------------------
// Colors
// ---------------------------------------------------------------------------

/// A red, green or blue channel of a color object; a missing one is 0.
pub open spec fn channel_prop(props: Seq<PropView>, name: Seq<char>) -> int {
    match find_prop(props, name) {
        Some(v) => match numeric(v) {
            Some(n) => numeric_channel(n),
            None => 0,
        },
        None => 0,
    }
}

/// A color: a name or a hex code as a literal, an object of channels as `rgba`,
/// and black for anything else.
pub open spec fn color_value(e: ExprView) -> Seq<char> {
    match e {
        ExprView::String(s) => string_lit(s),
        ExprView::Object(props) => "'rgba("@ + dec_int(channel_prop(props, "r"@)) + ", "@ + dec_int(
            channel_prop(props, "g"@),
        ) + ", "@ + dec_int(channel_prop(props, "b"@)) + ", "@ + numeric_or(
            find_prop(props, "a"@),
            "1"@,
        ) + ")'"@,
        _ => "'#000000'"@,
    }
}

// ---------------------------------------------------------------------------
// Modifiers
// ---------------------------------------------------------------------------

/// `.name(value)`.
pub open spec fn modifier(name: Seq<char>, value: Seq<char>) -> Seq<char> {
    "."@ + name + "("@ + value + ")"@
}

/// `.name(number)`, or nothing where the value is no number.
pub open spec fn number_modifier(name: Seq<char>, v: ExprView) -> Seq<char> {
    match numeric(v) {
        Some(n) => modifier(name, numeric_text(n)),
        None => Seq::empty(),
    }
}

/// `.name({ part, part })`, or nothing where there is no part.
pub open spec fn config_modifier(name: Seq<char>, parts: Seq<Seq<char>>) -> Seq<char> {
    if parts.len() == 0 {
        Seq::empty()
    } else {
        modifier(name, "{ "@ + join(parts, ", "@) + " }"@)
    }
}

/// `label: value`.
pub open spec fn part(label: Seq<char>, value: Seq<char>) -> Seq<char> {
    label + ": "@ + value
}

/// `label: number`, where the value is one.
pub open spec fn number_part(label: Seq<char>, v: Option<ExprView>) -> Option<Seq<char>> {
    match v {
        Some(e) => match numeric(e) {
            Some(n) => Some(part(label, numeric_text(n))),
            None => None,
        },
        None => None,
    }
}

/// The parts with one more, if there is one.
pub open spec fn with_part(parts: Seq<Seq<char>>, p: Option<Seq<char>>) -> Seq<Seq<char>> {
    match p {
        Some(x) => parts.push(x),
        None => parts,
    }
}

/// The sides of a padding object that are given as numbers.
pub open spec fn padding_parts(sides: Seq<PropView>) -> Seq<Seq<char>> {
    let top = with_part(Seq::empty(), number_part("top"@, find_prop(sides, "top"@)));
    let right = with_part(top, number_part("right"@, find_prop(sides, "right"@)));
    let bottom = with_part(right, number_part("bottom"@, find_prop(sides, "bottom"@)));
    with_part(bottom, number_part("left"@, find_prop(sides, "left"@)))
}

/// The part of an animation for one property.
pub open spec fn animation_part(p: PropView) -> Option<Seq<char>> {
    if p.0 == "duration"@ || p.0 == "delay"@ || p.0 == "iterations"@ {
        number_part(p.0, Some(p.1))
    } else if p.0 == "curve"@ {
        match p.1 {
            ExprView::String(s) => Some(part("curve"@, curve_value(s))),
            _ => None,
        }
    } else {
        None
    }
}

/// The parts of an animation, in the order of the properties.
pub open spec fn animation_parts(props: Seq<PropView>) -> Seq<Seq<char>>
    decreases props.len(),
{
    if props.len() == 0 {
        Seq::empty()
    } else {
        with_part(animation_parts(props.drop_last()), animation_part(props.last()))
    }
}

/// The part of a shadow for one property.
pub open spec fn shadow_part(p: PropView) -> Option<Seq<char>> {
    if p.0 == "color"@ {
        Some(part("color"@, color_value(p.1)))
    } else if p.0 == "blur"@ {
        number_part("radius"@, Some(p.1))
    } else if p.0 == "offsetX"@ || p.0 == "offsetY"@ {
        number_part(p.0, Some(p.1))
    } else {
        None
    }
}

/// The parts of a shadow, in the order of the properties.
pub open spec fn shadow_parts(props: Seq<PropView>) -> Seq<Seq<char>>
    decreases props.len(),
{
    if props.len() == 0 {
        Seq::empty()
    } else {
        with_part(shadow_parts(props.drop_last()), shadow_part(props.last()))
    }
}

/// The member of ArkUI's decoration type for a CSS name.
pub open spec fn decoration_type(s: Seq<char>) -> Option<Seq<char>> {
    if s == "underline"@ {
        Some("Underline"@)
    } else if s == "strikethrough"@ || s == "line-through"@ {
        Some("LineThrough"@)
    } else if s == "overline"@ {
        Some("Overline"@)
    } else if s == "none"@ {
        Some("None"@)
    } else {
        None
    }
}

/// The modifier for one property; borders are left to [`border_modifier`].
pub open spec fn prop_modifier(p: PropView) -> Seq<char> {
    let v = p.1;
    if p.0 == "backgroundColor"@ {
        modifier("backgroundColor"@, color_value(v))
    } else if p.0 == "color"@ {
        modifier("fontColor"@, color_value(v))
    } else if p.0 == "fontSize"@ || p.0 == "fontWeight"@ || p.0 == "borderRadius"@ || p.0
        == "opacity"@ {
        number_modifier(p.0, v)
    } else if p.0 == "fontFamily"@ {
        match v {
            ExprView::String(s) => modifier("fontFamily"@, string_lit(s)),
            _ => Seq::empty(),
        }
    } else if p.0 == "padding"@ {
        match v {
            ExprView::Number(n) => modifier("padding"@, number_text(n)),
            ExprView::Integer(n) => modifier("padding"@, dec_int(n as int)),
            ExprView::Object(sides) => config_modifier("padding"@, padding_parts(sides)),
            _ => Seq::empty(),
        }
    } else if p.0 == "hidden"@ {
        if v == ExprView::Bool(true) {
            ".visibility(Visibility.Hidden)"@
        } else {
            Seq::empty()
        }
    } else if p.0 == "animation"@ {
        match v {
            ExprView::Object(props) => config_modifier("animation"@, animation_parts(props)),
            _ => Seq::empty(),
        }
    } else if p.0 == "shadow"@ {
        match v {
            ExprView::Object(props) => config_modifier("shadow"@, shadow_parts(props)),
            _ => Seq::empty(),
        }
    } else if p.0 == "textDecoration"@ {
        match v {
            ExprView::String(s) => match decoration_type(s) {
                Some(kind) => ".decoration({ type: TextDecorationType."@ + kind + " })"@,
                None => Seq::empty(),
            },
            _ => Seq::empty(),
        }
    } else {
        Seq::empty()
    }
}

/// The modifiers of the properties, in their order.
pub open spec fn prop_modifiers(props: Seq<PropView>) -> Seq<char>
    decreases props.len(),
{
    if props.len() == 0 {
        Seq::empty()
    } else {
        prop_modifiers(props.drop_last()) + prop_modifier(props.last())
    }
}

/// The border color: the last one that is given.
pub open spec fn border_color(props: Seq<PropView>) -> Option<Seq<char>>
    decreases props.len(),
{
    if props.len() == 0 {
        None
    } else if props.last().0 == "borderColor"@ {
        Some(color_value(props.last().1))
    } else {
        border_color(props.drop_last())
    }
}

/// The border width: the last number that is given.
pub open spec fn border_width(props: Seq<PropView>) -> Option<Seq<char>>
    decreases props.len(),
{
    if props.len() == 0 {
        None
    } else if props.last().0 == "borderWidth"@ && numeric(props.last().1) is Some {
        Some(numeric_text(numeric(props.last().1)->0))
    } else {
        border_width(props.drop_last())
    }
}

/// Width and color of the border in one modifier.
pub open spec fn border_modifier(width: Option<Seq<char>>, color: Option<Seq<char>>) -> Seq<char> {
    let first = with_part(
        Seq::empty(),
        match width {
            Some(w) => Some(part("width"@, w)),
            None => None,
        },
    );
    config_modifier(
        "border"@,
        with_part(
            first,
            match color {
                Some(c) => Some(part("color"@, c)),
                None => None,
            },
        ),
    )
}

/// The modifier chain for the properties of a style.
pub open spec fn style_modifiers(props: Seq<PropView>) -> Seq<char> {
    prop_modifiers(props) + border_modifier(border_width(props), border_color(props))
}

// ---------------------------------------------------------------------------
// Execution
// ---------------------------------------------------------------------------

fn channel_text(props: &Vec<(String, Expr)>, name: &str) -> (r: String)
    ensures
        r@ == dec_int(channel_prop(fields_view(props@), name@)),
{
    let c: i64 = match prop_of(props, name) {
        Some(v) => match numeric_expr(v) {
            Some(n) => n.as_channel(),
            None => 0,
        },
        None => 0,
    };
    dec_signed(c)
}

fn number_or(e: Option<&Expr>, other: &str) -> (r: String)
    ensures
        r@ == numeric_or(opt_ref_view(e), other@),
{
    match e {
        Some(v) => match numeric_expr(v) {
            Some(n) => n.text(),
            None => other.to_string(),
        },
        None => other.to_string(),
    }
}

/// Maps a color to ArkUI: a string is passed on as a literal, an object of channels
/// from 0 to 1 becomes `rgba(..)`.
pub fn arkts_color_value(e: &Expr) -> (r: String)
    ensures
        r@ == color_value(e@),
{
    match e {
        Expr::String(s) => arkts_string_lit(s),
        Expr::Object(props) => {
            let mut out: String = "'rgba(".to_string();
            out.append(&channel_text(props, "r"));
            out.append(", ");
            out.append(&channel_text(props, "g"));
            out.append(", ");
            out.append(&channel_text(props, "b"));
            out.append(", ");
            out.append(&number_or(prop_of(props, "a"), "1"));
            out.append(")'");
            out
        },
        _ => "'#000000'".to_string(),
    }
}

fn write_modifier(name: &str, value: &str) -> (r: String)
    ensures
        r@ == modifier(name@, value@),
{
    let mut out: String = ".".to_string();
    out.append(name);
    out.append("(");
    out.append(value);
    out.append(")");
    out
}

fn empty() -> (r: String)
    ensures
        r@ == Seq::<char>::empty(),
{
    let r: String = String::new();
    assert(r@ =~= Seq::<char>::empty());
    r
}

fn write_number_modifier(name: &str, v: &Expr) -> (r: String)
    ensures
        r@ == number_modifier(name@, v@),
{
    match numeric_expr(v) {
        Some(n) => write_modifier(name, &n.text()),
        None => empty(),
    }
}

fn write_config(name: &str, parts: &Vec<String>) -> (r: String)
    ensures
        r@ == config_modifier(name@, strings_view(parts@)),
{
    if parts.len() == 0 {
        return empty();
    }
    let mut config: String = "{ ".to_string();
    config.append(&join_strings(parts, ", "));
    config.append(" }");
    write_modifier(name, &config)
}

fn write_part(label: &str, value: &str) -> (r: String)
    ensures
        r@ == part(label@, value@),
{
    let mut out: String = label.to_string();
    out.append(": ");
    out.append(value);
    out
}

pub open spec fn opt_string_view(o: Option<String>) -> Option<Seq<char>> {
    match o {
        Some(s) => Some(s@),
        None => None,
    }
}

fn write_number_part(label: &str, v: Option<&Expr>) -> (r: Option<String>)
    ensures
        opt_string_view(r) == number_part(label@, opt_ref_view(v)),
{
    match v {
        Some(e) => match numeric_expr(e) {
            Some(n) => Some(write_part(label, &n.text())),
            None => None,
        },
        None => None,
    }
}

fn add_part(parts: &mut Vec<String>, p: Option<String>)
    ensures
        strings_view(final(parts)@) == with_part(strings_view(old(parts)@), opt_string_view(p)),
{
    match p {
        Some(x) => {
            parts.push(x);
            assert(strings_view(parts@) =~= strings_view(old(parts)@).push(x@));
        },
        None => {},
    }
}

fn write_padding(sides: &Vec<(String, Expr)>) -> (r: Vec<String>)
    ensures
        strings_view(r@) == padding_parts(fields_view(sides@)),
{
    let mut parts: Vec<String> = Vec::new();
    assert(strings_view(parts@) =~= Seq::empty());
    add_part(&mut parts, write_number_part("top", prop_of(sides, "top")));
    add_part(&mut parts, write_number_part("right", prop_of(sides, "right")));
    add_part(&mut parts, write_number_part("bottom", prop_of(sides, "bottom")));
    add_part(&mut parts, write_number_part("left", prop_of(sides, "left")));
    parts
}

fn write_animation_part(k: &String, v: &Expr) -> (r: Option<String>)
    ensures
        opt_string_view(r) == animation_part((k@, v@)),
{
    if str_eq(k, "duration") || str_eq(k, "delay") || str_eq(k, "iterations") {
        write_number_part(k, Some(v))
    } else if str_eq(k, "curve") {
        match v {
            Expr::String(s) => Some(write_part("curve", &arkts_curve_value(s))),
            _ => None,
        }
    } else {
        None
    }
}

fn write_animation(props: &Vec<(String, Expr)>) -> (r: Vec<String>)
    ensures
        strings_view(r@) == animation_parts(fields_view(props@)),
{
    let ghost all = fields_view(props@);
    let mut parts: Vec<String> = Vec::new();
    assert(strings_view(parts@) =~= Seq::empty());
    let mut i: usize = 0;
    while i < props.len()
        invariant
            i <= props@.len(),
            all == fields_view(props@),
            all.len() == props@.len(),
            strings_view(parts@) == animation_parts(all.take(i as int)),
        decreases props@.len() - i,
    {
        assert(all.take(i + 1).drop_last() =~= all.take(i as int));
        assert(all.take(i + 1).last() == (props@[i as int].0@, props@[i as int].1.view()));
        add_part(&mut parts, write_animation_part(&props[i].0, &props[i].1));
        i += 1;
    }
    assert(all.take(i as int) =~= all);
    parts
}

fn write_shadow_part(k: &String, v: &Expr) -> (r: Option<String>)
    ensures
        opt_string_view(r) == shadow_part((k@, v@)),
{
    if str_eq(k, "color") {
        Some(write_part("color", &arkts_color_value(v)))
    } else if str_eq(k, "blur") {
        write_number_part("radius", Some(v))
    } else if str_eq(k, "offsetX") || str_eq(k, "offsetY") {
        write_number_part(k, Some(v))
    } else {
        None
    }
}

fn write_shadow(props: &Vec<(String, Expr)>) -> (r: Vec<String>)
    ensures
        strings_view(r@) == shadow_parts(fields_view(props@)),
{
    let ghost all = fields_view(props@);
    let mut parts: Vec<String> = Vec::new();
    assert(strings_view(parts@) =~= Seq::empty());
    let mut i: usize = 0;
    while i < props.len()
        invariant
            i <= props@.len(),
            all == fields_view(props@),
            all.len() == props@.len(),
            strings_view(parts@) == shadow_parts(all.take(i as int)),
        decreases props@.len() - i,
    {
        assert(all.take(i + 1).drop_last() =~= all.take(i as int));
        assert(all.take(i + 1).last() == (props@[i as int].0@, props@[i as int].1.view()));
        add_part(&mut parts, write_shadow_part(&props[i].0, &props[i].1));
        i += 1;
    }
    assert(all.take(i as int) =~= all);
    parts
}

fn write_decoration(s: &String) -> (r: String)
    ensures
        r@ == match decoration_type(s@) {
            Some(kind) => ".decoration({ type: TextDecorationType."@ + kind + " })"@,
            None => Seq::empty(),
        },
{
    let kind: &str = if str_eq(s, "underline") {
        "Underline"
    } else if str_eq(s, "strikethrough") || str_eq(s, "line-through") {
        "LineThrough"
    } else if str_eq(s, "overline") {
        "Overline"
    } else if str_eq(s, "none") {
        "None"
    } else {
        return empty();
    };
    let mut out: String = ".decoration({ type: TextDecorationType.".to_string();
    out.append(kind);
    out.append(" })");
    out
}

fn is_true(e: &Expr) -> (r: bool)
    ensures
        r == (e@ == ExprView::Bool(true)),
{
    match e {
        Expr::Bool(b) => *b,
        _ => false,
    }
}

fn write_prop(k: &String, v: &Expr) -> (r: String)
    ensures
        r@ == prop_modifier((k@, v@)),
{
    if str_eq(k, "backgroundColor") {
        write_modifier("backgroundColor", &arkts_color_value(v))
    } else if str_eq(k, "color") {
        write_modifier("fontColor", &arkts_color_value(v))
    } else if str_eq(k, "fontSize") || str_eq(k, "fontWeight") || str_eq(k, "borderRadius")
        || str_eq(k, "opacity") {
        write_number_modifier(k, v)
    } else if str_eq(k, "fontFamily") {
        match v {
            Expr::String(s) => write_modifier("fontFamily", &arkts_string_lit(s)),
            _ => empty(),
        }
    } else if str_eq(k, "padding") {
        match v {
            Expr::Number(n) => write_modifier("padding", &fmt_num(n)),
            Expr::Integer(n) => write_modifier("padding", &dec_signed(*n)),
            Expr::Object(sides) => write_config("padding", &write_padding(sides)),
            _ => empty(),
        }
    } else if str_eq(k, "hidden") {
        if is_true(v) {
            ".visibility(Visibility.Hidden)".to_string()
        } else {
            empty()
        }
    } else if str_eq(k, "animation") {
        match v {
            Expr::Object(props) => write_config("animation", &write_animation(props)),
            _ => empty(),
        }
    } else if str_eq(k, "shadow") {
        match v {
            Expr::Object(props) => write_config("shadow", &write_shadow(props)),
            _ => empty(),
        }
    } else if str_eq(k, "textDecoration") {
        match v {
            Expr::String(s) => write_decoration(s),
            _ => empty(),
        }
    } else {
        empty()
    }
}

fn write_border(width: Option<String>, color: Option<String>) -> (r: String)
    ensures
        r@ == border_modifier(opt_string_view(width), opt_string_view(color)),
{
    let mut parts: Vec<String> = Vec::new();
    assert(strings_view(parts@) =~= Seq::empty());
    let w: Option<String> = match width {
        Some(x) => Some(write_part("width", &x)),
        None => None,
    };
    let c: Option<String> = match color {
        Some(x) => Some(write_part("color", &x)),
        None => None,
    };
    add_part(&mut parts, w);
    add_part(&mut parts, c);
    write_config("border", &parts)
}

/// Maps the properties of a style to a chain of ArkUI modifiers such as
/// `.backgroundColor('blue').borderRadius(8).opacity(0.95)`. Properties that have
/// no modifier are left out; border width and color share one.
pub fn emit_style_modifiers(props: &Vec<(String, Expr)>) -> (r: String)
    ensures
        r@ == style_modifiers(fields_view(props@)),
{
    let ghost all = fields_view(props@);
    let mut out: String = empty();
    let mut color: Option<String> = None;
    let mut width: Option<String> = None;
    let mut i: usize = 0;
    while i < props.len()
        invariant
            i <= props@.len(),
            all == fields_view(props@),
            all.len() == props@.len(),
            out@ == prop_modifiers(all.take(i as int)),
            opt_string_view(color) == border_color(all.take(i as int)),
            opt_string_view(width) == border_width(all.take(i as int)),
        decreases props@.len() - i,
    {
        let k: &String = &props[i].0;
        let v: &Expr = &props[i].1;
        assert(all.take(i + 1).drop_last() =~= all.take(i as int));
        assert(all.take(i + 1).last() == (k@, v@));
        out.append(&write_prop(k, v));
        if str_eq(k, "borderColor") {
            color = Some(arkts_color_value(v));
        }
        if str_eq(k, "borderWidth") {
            match numeric_expr(v) {
                Some(n) => {
                    width = Some(n.text());
                },
                None => {},
            }
        }
        i += 1;
    }
    assert(all.take(i as int) =~= all);
    out.append(&write_border(width, color));
    out
}

} // verus!
