//! Texts in which no callback is called: numbers, literals, colors and styles.

use crate::arkts::literal::{curve_value, sanitized, string_lit};
use crate::arkts::order::{
    in_mark, lemma_dec_numeral, lemma_join_quiet, lemma_literal, lemma_quiet_then, lemma_unspelled,
    lemma_without, mark, quiet,
};
use crate::arkts::style::{
    animation_part, animation_parts, border_color, border_modifier, border_width, channel_prop,
    color_value, config_modifier, decoration_type, modifier, number_modifier, number_part,
    padding_parts, part, prop_modifier, prop_modifiers, shadow_part, shadow_parts, with_part,
    PropView,
};
use crate::arkts::value::{
    array_literal, array_source, bound_items, find_prop, lemma_find_prop, numeric, numeric_or,
    numeric_text, object_props, value_literal,
};
use crate::arkts::widget::style_text;
use crate::hir::LocalId;
use crate::inline::scan::{expr_has, lemma_expr_lacks, NodeTest};
use crate::model::{ClassView, ExprView};
use crate::num::{integer_text, number_text, whole_value};
use crate::text::{dec, dec_int, join};
use crate::walk::children;
use vstd::prelude::*;

verus! {

/// A literal that holds what a call begins with, or the name of a widget that does.
pub open spec fn spelled() -> NodeTest {
    NodeTest::Spells(mark())
}

/// Whether no literal and no widget name of the expression holds what a call begins
/// with.
pub open spec fn tame(e: ExprView) -> bool {
    !expr_has(e, spelled())
}

pub open spec fn all_tame(v: Seq<ExprView>) -> bool {
    forall|i: int| 0 <= i < v.len() ==> tame(#[trigger] v[i])
}

pub open spec fn props_tame(v: Seq<PropView>) -> bool {
    forall|i: int| 0 <= i < v.len() ==> tame((#[trigger] v[i]).1)
}

/// Whether the text is empty or ends with a closing bracket.
pub open spec fn shut(s: Seq<char>) -> bool {
    s.len() == 0 || s.last() == ')'
}

pub proof fn lemma_tame(e: ExprView)
    requires
        tame(e),
    ensures
        all_tame(children(e)),
        e matches ExprView::String(s) ==> quiet(s),
        e matches ExprView::Number(n) ==> quiet(n.text),
        e matches ExprView::NativeMethodCall { method, .. } ==> quiet(method),
{
    lemma_expr_lacks(e, spelled());
    match e {
        ExprView::String(s) => lemma_unspelled(s),
        ExprView::Number(n) => lemma_unspelled(n.text),
        ExprView::NativeMethodCall { method, .. } => lemma_unspelled(method),
        _ => {},
    }
}

pub proof fn lemma_props_tame(e: ExprView, classes: Seq<ClassView>)
    requires
        tame(e),
    ensures
        object_props(e, classes) matches Some(props) ==> props_tame(props),
{
    lemma_tame(e);
    match object_props(e, classes) {
        Some(props) => {
            assert forall|i: int| 0 <= i < props.len() implies tame((#[trigger] props[i]).1) by {
                assert(children(e)[i] == props[i].1);
            }
        },
        None => {},
    }
}

pub proof fn lemma_prop_tame(props: Seq<PropView>, name: Seq<char>)
    requires
        props_tame(props),
    ensures
        find_prop(props, name) matches Some(v) ==> tame(v),
{
    lemma_find_prop(props, name);
}

// ---------------------------------------------------------------------------
// Numbers and names
// ---------------------------------------------------------------------------

pub proof fn lemma_dec_quiet(n: nat)
    ensures
        quiet(dec(n)),
{
    lemma_dec_numeral(n);
    lemma_without(dec(n), 'p');
}

pub proof fn lemma_dec_int_quiet(n: int)
    ensures
        quiet(dec_int(n)),
        quiet(seq!['-'] + dec((-n) as nat)),
        dec_int(n).len() > 0,
        !in_mark(dec_int(n).last()),
{
    lemma_dec_numeral(n as nat);
    lemma_dec_numeral((-n) as nat);
    lemma_without(dec_int(n), 'p');
    lemma_without(seq!['-'] + dec((-n) as nat), 'p');
}

proof fn lemma_integer_quiet(n: int)
    ensures
        quiet(integer_text(n)),
{
    lemma_dec_int_quiet(n);
    assert forall|v: nat| #[trigger] quiet(dec(v)) && quiet(seq!['-'] + dec(v)) by {
        lemma_dec_quiet(v);
        lemma_dec_numeral(v);
        lemma_without(seq!['-'] + dec(v), 'p');
    }
    let text = integer_text(n);
    assert(text == dec_int(n) || exists|v: nat| #[trigger] dec(v) == text || text == seq!['-'] + dec(
        v,
    ));
    if text != dec_int(n) {
        let v = choose|v: nat| #[trigger] dec(v) == text || text == seq!['-'] + dec(v);
        assert(quiet(dec(v)) && quiet(seq!['-'] + dec(v)));
    }
}

pub proof fn lemma_numeric_quiet(e: ExprView)
    requires
        tame(e),
    ensures
        numeric(e) matches Some(n) ==> quiet(numeric_text(n)),
{
    lemma_tame(e);
    match e {
        ExprView::Number(n) => {
            match whole_value(n.bits) {
                Some(v) => lemma_dec_int_quiet(v),
                None => {},
            }
        },
        ExprView::Integer(n) => lemma_integer_quiet(n as int),
        _ => {},
    }
}

pub proof fn lemma_numeric_or_quiet(o: Option<ExprView>, other: Seq<char>)
    requires
        o matches Some(e) ==> tame(e),
        quiet(other),
    ensures
        quiet(numeric_or(o, other)),
{
    match o {
        Some(e) => lemma_numeric_quiet(e),
        None => {},
    }
}

/// A name holds no dot.
pub proof fn lemma_sanitized_quiet(s: Seq<char>)
    ensures
        quiet(sanitized(s)),
{
    reveal_strlit("default");
    lemma_without(sanitized(s), '.');
}

// ---------------------------------------------------------------------------
// Arrays
// ---------------------------------------------------------------------------

proof fn lemma_value_quiet(e: ExprView)
    requires
        tame(e),
    ensures
        quiet(value_literal(e)),
{
    lemma_tame(e);
    reveal_strlit("true");
    lemma_without("true"@, 'k');
    reveal_strlit("false");
    lemma_without("false"@, 'k');
    reveal_strlit("null");
    lemma_without("null"@, 'k');
    match e {
        ExprView::String(s) => lemma_literal(s),
        ExprView::Number(_) => lemma_numeric_quiet(e),
        ExprView::Integer(n) => lemma_dec_int_quiet(n as int),
        _ => {},
    }
}

proof fn lemma_array_quiet(items: Seq<ExprView>)
    requires
        all_tame(items),
    ensures
        quiet(array_literal(items)),
{
    let texts = items.map_values(|e: ExprView| value_literal(e));
    assert forall|i: int| 0 <= i < texts.len() implies quiet(#[trigger] texts[i]) by {
        lemma_value_quiet(items[i]);
    }
    reveal_strlit(", ");
    lemma_without(", "@, 'k');
    reveal_strlit("[");
    lemma_without("["@, 'k');
    reveal_strlit("]");
    lemma_without("]"@, 'k');
    lemma_join_quiet(texts, ", "@);
    lemma_quiet_then("["@, join(texts, ", "@));
    lemma_quiet_then("["@ + join(texts, ", "@), "]"@);
}

/// Whether the values that variables are bound to are tame.
pub open spec fn bindings_tame(m: Map<LocalId, ExprView>) -> bool {
    forall|id: LocalId| m.contains_key(id) ==> tame(#[trigger] m[id])
}

pub proof fn lemma_source_quiet(e: ExprView, bindings: Map<LocalId, ExprView>)
    requires
        tame(e),
        bindings_tame(bindings),
    ensures
        quiet(array_source(e, bindings)),
{
    reveal_strlit("[/* unresolved ForEach source — needs Phase 2 v6 state binding */]");
    lemma_without("[/* unresolved ForEach source — needs Phase 2 v6 state binding */]"@, 'k');
    reveal_strlit("[/* unsupported ForEach source */]");
    lemma_without("[/* unsupported ForEach source */]"@, 'k');
    lemma_tame(e);
    match e {
        ExprView::Array(items) => lemma_array_quiet(items),
        ExprView::LocalGet(id) => {
            match bound_items(id, bindings) {
                Some(items) => {
                    lemma_tame(bindings[id]);
                    lemma_array_quiet(items);
                },
                None => {},
            }
        },
        _ => {},
    }
}

// ---------------------------------------------------------------------------
// Styles
// ---------------------------------------------------------------------------

proof fn lemma_color_quiet(e: ExprView)
    requires
        tame(e),
    ensures
        quiet(color_value(e)),
{
    lemma_tame(e);
    reveal_strlit("'#000000'");
    lemma_without("'#000000'"@, 'k');
    match e {
        ExprView::String(s) => lemma_literal(s),
        ExprView::Object(props) => {
            lemma_props_tame(e, Seq::empty());
            reveal_strlit("'rgba(");
            lemma_without("'rgba("@, 'k');
            reveal_strlit(", ");
            lemma_without(", "@, 'k');
            reveal_strlit(")'");
            lemma_without(")'"@, 'k');
            reveal_strlit("1");
            lemma_without("1"@, 'k');
            let r = dec_int(channel_prop(props, "r"@));
            let g = dec_int(channel_prop(props, "g"@));
            let b = dec_int(channel_prop(props, "b"@));
            let a = numeric_or(find_prop(props, "a"@), "1"@);
            lemma_dec_int_quiet(channel_prop(props, "r"@));
            lemma_dec_int_quiet(channel_prop(props, "g"@));
            lemma_dec_int_quiet(channel_prop(props, "b"@));
            lemma_prop_tame(props, "a"@);
            lemma_numeric_or_quiet(find_prop(props, "a"@), "1"@);
            let head = "'rgba("@;
            let sep = ", "@;
            lemma_quiet_then(head, r);
            lemma_quiet_then(head + r, sep);
            lemma_quiet_then(head + r + sep, g);
            lemma_quiet_then(head + r + sep + g, sep);
            lemma_quiet_then(head + r + sep + g + sep, b);
            lemma_quiet_then(head + r + sep + g + sep + b, sep);
            lemma_quiet_then(head + r + sep + g + sep + b + sep, a);
            lemma_quiet_then(head + r + sep + g + sep + b + sep + a, ")'"@);
        },
        _ => {},
    }
}

/// Whether the name of a modifier holds no `v`.
spec fn plain_name(name: Seq<char>) -> bool {
    forall|i: int| 0 <= i < name.len() ==> #[trigger] name[i] != 'v'
}

proof fn lemma_modifier_quiet(name: Seq<char>, value: Seq<char>)
    requires
        plain_name(name),
        quiet(value),
    ensures
        quiet(modifier(name, value)),
        shut(modifier(name, value)),
{
    reveal_strlit(".");
    reveal_strlit("(");
    reveal_strlit(")");
    lemma_without(")"@, 'k');
    let head = "."@ + name + "("@;
    lemma_without(head, 'v');
    lemma_quiet_then(head, value);
    lemma_quiet_then(head + value, ")"@);
}

proof fn lemma_number_modifier_quiet(name: Seq<char>, v: ExprView)
    requires
        plain_name(name),
        tame(v),
    ensures
        quiet(number_modifier(name, v)),
        shut(number_modifier(name, v)),
{
    lemma_numeric_quiet(v);
    match numeric(v) {
        Some(n) => lemma_modifier_quiet(name, numeric_text(n)),
        None => {},
    }
}

spec fn all_quiet(v: Seq<Seq<char>>) -> bool {
    forall|i: int| 0 <= i < v.len() ==> quiet(#[trigger] v[i])
}

proof fn lemma_config_quiet(name: Seq<char>, parts: Seq<Seq<char>>)
    requires
        plain_name(name),
        all_quiet(parts),
    ensures
        quiet(config_modifier(name, parts)),
        shut(config_modifier(name, parts)),
{
    if parts.len() > 0 {
        reveal_strlit("{ ");
        lemma_without("{ "@, 'k');
        reveal_strlit(" }");
        lemma_without(" }"@, 'k');
        reveal_strlit(", ");
        lemma_without(", "@, 'k');
        lemma_join_quiet(parts, ", "@);
        let inner = join(parts, ", "@);
        lemma_quiet_then("{ "@, inner);
        lemma_quiet_then("{ "@ + inner, " }"@);
        lemma_modifier_quiet(name, "{ "@ + inner + " }"@);
    }
}

proof fn lemma_part_quiet(label: Seq<char>, value: Seq<char>)
    requires
        quiet(label),
        quiet(value),
    ensures
        quiet(part(label, value)),
{
    reveal_strlit(": ");
    lemma_without(": "@, 'k');
    lemma_quiet_then(label, ": "@);
    lemma_quiet_then(label + ": "@, value);
}

proof fn lemma_number_part_quiet(label: Seq<char>, v: Option<ExprView>)
    requires
        quiet(label),
        v matches Some(e) ==> tame(e),
    ensures
        number_part(label, v) matches Some(p) ==> quiet(p),
{
    match v {
        Some(e) => {
            lemma_numeric_quiet(e);
            match numeric(e) {
                Some(n) => lemma_part_quiet(label, numeric_text(n)),
                None => {},
            }
        },
        None => {},
    }
}

proof fn lemma_with_part_quiet(parts: Seq<Seq<char>>, p: Option<Seq<char>>)
    requires
        all_quiet(parts),
        p matches Some(x) ==> quiet(x),
    ensures
        all_quiet(with_part(parts, p)),
{
    let out = with_part(parts, p);
    assert forall|i: int| 0 <= i < out.len() implies quiet(#[trigger] out[i]) by {
        if i < parts.len() {
            assert(out[i] == parts[i]);
        }
    }
}

proof fn lemma_padding_quiet(sides: Seq<PropView>)
    requires
        props_tame(sides),
    ensures
        all_quiet(padding_parts(sides)),
{
    reveal_strlit("top");
    lemma_without("top"@, 'k');
    reveal_strlit("right");
    lemma_without("right"@, 'k');
    reveal_strlit("bottom");
    lemma_without("bottom"@, 'k');
    reveal_strlit("left");
    lemma_without("left"@, 'k');
    lemma_prop_tame(sides, "top"@);
    lemma_prop_tame(sides, "right"@);
    lemma_prop_tame(sides, "bottom"@);
    lemma_prop_tame(sides, "left"@);
    lemma_number_part_quiet("top"@, find_prop(sides, "top"@));
    lemma_number_part_quiet("right"@, find_prop(sides, "right"@));
    lemma_number_part_quiet("bottom"@, find_prop(sides, "bottom"@));
    lemma_number_part_quiet("left"@, find_prop(sides, "left"@));
    let top = with_part(Seq::empty(), number_part("top"@, find_prop(sides, "top"@)));
    let right = with_part(top, number_part("right"@, find_prop(sides, "right"@)));
    let bottom = with_part(right, number_part("bottom"@, find_prop(sides, "bottom"@)));
    lemma_with_part_quiet(Seq::empty(), number_part("top"@, find_prop(sides, "top"@)));
    lemma_with_part_quiet(top, number_part("right"@, find_prop(sides, "right"@)));
    lemma_with_part_quiet(right, number_part("bottom"@, find_prop(sides, "bottom"@)));
    lemma_with_part_quiet(bottom, number_part("left"@, find_prop(sides, "left"@)));
}

proof fn lemma_curve_quiet(s: Seq<char>)
    ensures
        quiet(curve_value(s)),
{
    reveal_strlit("Curve.");
    reveal_strlit("Ease");
    reveal_strlit("EaseIn");
    reveal_strlit("EaseInOut");
    reveal_strlit("EaseOut");
    reveal_strlit("ExtremeDeceleration");
    reveal_strlit("FastOutLinearIn");
    reveal_strlit("FastOutSlowIn");
    reveal_strlit("Friction");
    reveal_strlit("Linear");
    reveal_strlit("LinearOutSlowIn");
    reveal_strlit("Rhythm");
    reveal_strlit("Sharp");
    reveal_strlit("Smooth");
    lemma_without(curve_value(s), 'k');
}

proof fn lemma_animation_quiet(props: Seq<PropView>)
    requires
        props_tame(props),
    ensures
        all_quiet(animation_parts(props)),
    decreases props.len(),
{
    if props.len() > 0 {
        let front = props.drop_last();
        assert forall|i: int| 0 <= i < front.len() implies tame((#[trigger] front[i]).1) by {
            assert(front[i] == props[i]);
        }
        lemma_animation_quiet(front);
        let p = props.last();
        assert(tame(props[props.len() - 1].1));
        reveal_strlit("duration");
        lemma_without("duration"@, 'k');
        reveal_strlit("delay");
        lemma_without("delay"@, 'k');
        reveal_strlit("iterations");
        lemma_without("iterations"@, 'k');
        reveal_strlit("curve");
        lemma_without("curve"@, 'k');
        if p.0 == "duration"@ || p.0 == "delay"@ || p.0 == "iterations"@ {
            lemma_number_part_quiet(p.0, Some(p.1));
        } else if p.0 == "curve"@ {
            match p.1 {
                ExprView::String(s) => {
                    lemma_curve_quiet(s);
                    lemma_part_quiet("curve"@, curve_value(s));
                },
                _ => {},
            }
        }
        lemma_with_part_quiet(animation_parts(front), animation_part(p));
    }
}

proof fn lemma_shadow_quiet(props: Seq<PropView>)
    requires
        props_tame(props),
    ensures
        all_quiet(shadow_parts(props)),
    decreases props.len(),
{
    if props.len() > 0 {
        let front = props.drop_last();
        assert forall|i: int| 0 <= i < front.len() implies tame((#[trigger] front[i]).1) by {
            assert(front[i] == props[i]);
        }
        lemma_shadow_quiet(front);
        let p = props.last();
        assert(tame(props[props.len() - 1].1));
        reveal_strlit("color");
        lemma_without("color"@, 'k');
        reveal_strlit("radius");
        lemma_without("radius"@, 'k');
        reveal_strlit("offsetX");
        lemma_without("offsetX"@, 'k');
        reveal_strlit("offsetY");
        lemma_without("offsetY"@, 'k');
        if p.0 == "color"@ {
            lemma_color_quiet(p.1);
            lemma_part_quiet("color"@, color_value(p.1));
        } else if p.0 == "blur"@ {
            lemma_number_part_quiet("radius"@, Some(p.1));
        } else if p.0 == "offsetX"@ || p.0 == "offsetY"@ {
            lemma_number_part_quiet(p.0, Some(p.1));
        }
        lemma_with_part_quiet(shadow_parts(front), shadow_part(p));
    }
}

proof fn lemma_decoration_quiet(kind: Seq<char>, s: Seq<char>)
    requires
        decoration_type(s) == Some(kind),
    ensures
        quiet(".decoration({ type: TextDecorationType."@ + kind + " })"@),
        shut(".decoration({ type: TextDecorationType."@ + kind + " })"@),
{
    reveal_strlit("Underline");
    reveal_strlit("LineThrough");
    reveal_strlit("Overline");
    reveal_strlit("None");
    reveal_strlit(".decoration({ type: TextDecorationType.");
    reveal_strlit(" })");
    lemma_without(".decoration({ type: TextDecorationType."@ + kind + " })"@, 'k');
}

proof fn lemma_prop_modifier_quiet(p: PropView)
    requires
        tame(p.1),
    ensures
        quiet(prop_modifier(p)),
        shut(prop_modifier(p)),
{
    let v = p.1;
    lemma_tame(v);
    if p.0 == "backgroundColor"@ {
        reveal_strlit("backgroundColor");
        lemma_color_quiet(v);
        lemma_modifier_quiet("backgroundColor"@, color_value(v));
    } else if p.0 == "color"@ {
        reveal_strlit("fontColor");
        lemma_color_quiet(v);
        lemma_modifier_quiet("fontColor"@, color_value(v));
    } else if p.0 == "fontSize"@ || p.0 == "fontWeight"@ || p.0 == "borderRadius"@ || p.0
        == "opacity"@ {
        reveal_strlit("fontSize");
        reveal_strlit("fontWeight");
        reveal_strlit("borderRadius");
        reveal_strlit("opacity");
        lemma_number_modifier_quiet(p.0, v);
    } else if p.0 == "fontFamily"@ {
        match v {
            ExprView::String(s) => {
                reveal_strlit("fontFamily");
                lemma_literal(s);
                lemma_modifier_quiet("fontFamily"@, string_lit(s));
            },
            _ => {},
        }
    } else if p.0 == "padding"@ {
        reveal_strlit("padding");
        match v {
            ExprView::Number(n) => {
                lemma_numeric_quiet(v);
                lemma_modifier_quiet("padding"@, number_text(n));
            },
            ExprView::Integer(n) => {
                lemma_dec_int_quiet(n as int);
                lemma_modifier_quiet("padding"@, dec_int(n as int));
            },
            ExprView::Object(sides) => {
                lemma_props_tame(v, Seq::empty());
                lemma_padding_quiet(sides);
                lemma_config_quiet("padding"@, padding_parts(sides));
            },
            _ => {},
        }
    } else if p.0 == "hidden"@ {
        reveal_strlit(".visibility(Visibility.Hidden)");
        lemma_without(".visibility(Visibility.Hidden)"@, 'k');
    } else if p.0 == "animation"@ {
        match v {
            ExprView::Object(props) => {
                reveal_strlit("animation");
                lemma_props_tame(v, Seq::empty());
                lemma_animation_quiet(props);
                lemma_config_quiet("animation"@, animation_parts(props));
            },
            _ => {},
        }
    } else if p.0 == "shadow"@ {
        match v {
            ExprView::Object(props) => {
                reveal_strlit("shadow");
                lemma_props_tame(v, Seq::empty());
                lemma_shadow_quiet(props);
                lemma_config_quiet("shadow"@, shadow_parts(props));
            },
            _ => {},
        }
    } else if p.0 == "textDecoration"@ {
        match v {
            ExprView::String(s) => {
                match decoration_type(s) {
                    Some(kind) => lemma_decoration_quiet(kind, s),
                    None => {},
                }
            },
            _ => {},
        }
    }
}

/// A modifier behind others.
proof fn lemma_shut_then(a: Seq<char>, b: Seq<char>)
    requires
        quiet(a),
        shut(a),
        quiet(b),
        shut(b),
    ensures
        quiet(a + b),
        shut(a + b),
{
    lemma_quiet_then(a, b);
    if b.len() == 0 {
        assert(a + b =~= a);
    }
}

proof fn lemma_prop_modifiers_quiet(props: Seq<PropView>)
    requires
        props_tame(props),
    ensures
        quiet(prop_modifiers(props)),
        shut(prop_modifiers(props)),
        border_color(props) matches Some(c) ==> quiet(c),
        border_width(props) matches Some(w) ==> quiet(w),
    decreases props.len(),
{
    if props.len() > 0 {
        let front = props.drop_last();
        assert forall|i: int| 0 <= i < front.len() implies tame((#[trigger] front[i]).1) by {
            assert(front[i] == props[i]);
        }
        lemma_prop_modifiers_quiet(front);
        let p = props.last();
        assert(tame(props[props.len() - 1].1));
        lemma_prop_modifier_quiet(p);
        lemma_shut_then(prop_modifiers(front), prop_modifier(p));
        lemma_color_quiet(p.1);
        lemma_numeric_quiet(p.1);
    }
}

/// The style of a widget calls nothing.
pub proof fn lemma_style_quiet(args: Seq<ExprView>, classes: Seq<ClassView>)
    requires
        all_tame(args),
    ensures
        quiet(style_text(args, classes)),
        shut(style_text(args, classes)),
{
    if args.len() > 0 {
        let last = args.last();
        assert(tame(args[args.len() - 1]));
        lemma_props_tame(last, classes);
        match object_props(last, classes) {
            Some(props) => {
                lemma_prop_modifiers_quiet(props);
                let width = border_width(props);
                let color = border_color(props);
                reveal_strlit("width");
                lemma_without("width"@, 'k');
                reveal_strlit("color");
                lemma_without("color"@, 'k');
                reveal_strlit("border");
                let w = match width {
                    Some(x) => {
                        lemma_part_quiet("width"@, x);
                        Some(part("width"@, x))
                    },
                    None => None,
                };
                let c = match color {
                    Some(x) => {
                        lemma_part_quiet("color"@, x);
                        Some(part("color"@, x))
                    },
                    None => None,
                };
                let first = with_part(Seq::empty(), w);
                lemma_with_part_quiet(Seq::empty(), w);
                lemma_with_part_quiet(first, c);
                lemma_config_quiet("border"@, with_part(first, c));
                lemma_shut_then(prop_modifiers(props), border_modifier(width, color));
            },
            None => {},
        }
    }
}

} // verus!
