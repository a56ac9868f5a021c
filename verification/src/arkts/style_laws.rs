//! What the modifiers of a style carry over: every property that is given, under its
//! name, with its value, in order, and nothing else.

use crate::arkts::literal::{curve_value, string_lit};
use crate::arkts::style::{
    animation_part, animation_parts, border_color, border_modifier, border_width, color_value,
    config_modifier, decoration_type, padding_parts, prop_modifier, prop_modifiers, shadow_part,
    shadow_parts, style_modifiers, PropView,
};
use crate::arkts::value::find_prop;
use crate::model::ExprView;
use crate::num::{channel, integer_channel, integer_text, number_text};
use crate::text::{dec_int, join};
use vstd::prelude::*;

verus! {

// ---------------------------------------------------------------------------
// Names
// ---------------------------------------------------------------------------

/// The names of the properties differ.
proof fn lemma_property_names()
    ensures
        "color"@ != "backgroundColor"@,
        "fontSize"@ != "backgroundColor"@,
        "fontSize"@ != "color"@,
        "fontWeight"@ != "backgroundColor"@,
        "fontWeight"@ != "color"@,
        "fontWeight"@ != "fontSize"@,
        "borderRadius"@ != "backgroundColor"@,
        "borderRadius"@ != "color"@,
        "borderRadius"@ != "fontSize"@,
        "borderRadius"@ != "fontWeight"@,
        "opacity"@ != "backgroundColor"@,
        "opacity"@ != "color"@,
        "opacity"@ != "fontSize"@,
        "opacity"@ != "fontWeight"@,
        "opacity"@ != "borderRadius"@,
        "fontFamily"@ != "backgroundColor"@,
        "fontFamily"@ != "color"@,
        "fontFamily"@ != "fontSize"@,
        "fontFamily"@ != "fontWeight"@,
        "fontFamily"@ != "borderRadius"@,
        "fontFamily"@ != "opacity"@,
        "padding"@ != "backgroundColor"@,
        "padding"@ != "color"@,
        "padding"@ != "fontSize"@,
        "padding"@ != "fontWeight"@,
        "padding"@ != "borderRadius"@,
        "padding"@ != "opacity"@,
        "padding"@ != "fontFamily"@,
        "hidden"@ != "backgroundColor"@,
        "hidden"@ != "color"@,
        "hidden"@ != "fontSize"@,
        "hidden"@ != "fontWeight"@,
        "hidden"@ != "borderRadius"@,
        "hidden"@ != "opacity"@,
        "hidden"@ != "fontFamily"@,
        "hidden"@ != "padding"@,
        "animation"@ != "backgroundColor"@,
        "animation"@ != "color"@,
        "animation"@ != "fontSize"@,
        "animation"@ != "fontWeight"@,
        "animation"@ != "borderRadius"@,
        "animation"@ != "opacity"@,
        "animation"@ != "fontFamily"@,
        "animation"@ != "padding"@,
        "animation"@ != "hidden"@,
        "shadow"@ != "backgroundColor"@,
        "shadow"@ != "color"@,
        "shadow"@ != "fontSize"@,
        "shadow"@ != "fontWeight"@,
        "shadow"@ != "borderRadius"@,
        "shadow"@ != "opacity"@,
        "shadow"@ != "fontFamily"@,
        "shadow"@ != "padding"@,
        "shadow"@ != "hidden"@,
        "shadow"@ != "animation"@,
        "textDecoration"@ != "backgroundColor"@,
        "textDecoration"@ != "color"@,
        "textDecoration"@ != "fontSize"@,
        "textDecoration"@ != "fontWeight"@,
        "textDecoration"@ != "borderRadius"@,
        "textDecoration"@ != "opacity"@,
        "textDecoration"@ != "fontFamily"@,
        "textDecoration"@ != "padding"@,
        "textDecoration"@ != "hidden"@,
        "textDecoration"@ != "animation"@,
        "textDecoration"@ != "shadow"@,
        "borderColor"@ != "backgroundColor"@,
        "borderColor"@ != "color"@,
        "borderColor"@ != "fontSize"@,
        "borderColor"@ != "fontWeight"@,
        "borderColor"@ != "borderRadius"@,
        "borderColor"@ != "opacity"@,
        "borderColor"@ != "fontFamily"@,
        "borderColor"@ != "padding"@,
        "borderColor"@ != "hidden"@,
        "borderColor"@ != "animation"@,
        "borderColor"@ != "shadow"@,
        "borderColor"@ != "textDecoration"@,
        "borderWidth"@ != "backgroundColor"@,
        "borderWidth"@ != "color"@,
        "borderWidth"@ != "fontSize"@,
        "borderWidth"@ != "fontWeight"@,
        "borderWidth"@ != "borderRadius"@,
        "borderWidth"@ != "opacity"@,
        "borderWidth"@ != "fontFamily"@,
        "borderWidth"@ != "padding"@,
        "borderWidth"@ != "hidden"@,
        "borderWidth"@ != "animation"@,
        "borderWidth"@ != "shadow"@,
        "borderWidth"@ != "textDecoration"@,
        "borderWidth"@ != "borderColor"@,
{
    assert("color"@ != "backgroundColor"@) by {
        reveal_strlit("color");
        reveal_strlit("backgroundColor");
        assert("color"@.len() != "backgroundColor"@.len());
    }
    assert("fontSize"@ != "backgroundColor"@) by {
        reveal_strlit("fontSize");
        reveal_strlit("backgroundColor");
        assert("fontSize"@.len() != "backgroundColor"@.len());
    }
    assert("fontSize"@ != "color"@) by {
        reveal_strlit("fontSize");
        reveal_strlit("color");
        assert("fontSize"@.len() != "color"@.len());
    }
    assert("fontWeight"@ != "backgroundColor"@) by {
        reveal_strlit("fontWeight");
        reveal_strlit("backgroundColor");
        assert("fontWeight"@.len() != "backgroundColor"@.len());
    }
    assert("fontWeight"@ != "color"@) by {
        reveal_strlit("fontWeight");
        reveal_strlit("color");
        assert("fontWeight"@.len() != "color"@.len());
    }
    assert("fontWeight"@ != "fontSize"@) by {
        reveal_strlit("fontWeight");
        reveal_strlit("fontSize");
        assert("fontWeight"@.len() != "fontSize"@.len());
    }
    assert("borderRadius"@ != "backgroundColor"@) by {
        reveal_strlit("borderRadius");
        reveal_strlit("backgroundColor");
        assert("borderRadius"@.len() != "backgroundColor"@.len());
    }
    assert("borderRadius"@ != "color"@) by {
        reveal_strlit("borderRadius");
        reveal_strlit("color");
        assert("borderRadius"@.len() != "color"@.len());
    }
    assert("borderRadius"@ != "fontSize"@) by {
        reveal_strlit("borderRadius");
        reveal_strlit("fontSize");
        assert("borderRadius"@.len() != "fontSize"@.len());
    }
    assert("borderRadius"@ != "fontWeight"@) by {
        reveal_strlit("borderRadius");
        reveal_strlit("fontWeight");
        assert("borderRadius"@.len() != "fontWeight"@.len());
    }
    assert("opacity"@ != "backgroundColor"@) by {
        reveal_strlit("opacity");
        reveal_strlit("backgroundColor");
        assert("opacity"@.len() != "backgroundColor"@.len());
    }
    assert("opacity"@ != "color"@) by {
        reveal_strlit("opacity");
        reveal_strlit("color");
        assert("opacity"@.len() != "color"@.len());
    }
    assert("opacity"@ != "fontSize"@) by {
        reveal_strlit("opacity");
        reveal_strlit("fontSize");
        assert("opacity"@.len() != "fontSize"@.len());
    }
    assert("opacity"@ != "fontWeight"@) by {
        reveal_strlit("opacity");
        reveal_strlit("fontWeight");
        assert("opacity"@.len() != "fontWeight"@.len());
    }
    assert("opacity"@ != "borderRadius"@) by {
        reveal_strlit("opacity");
        reveal_strlit("borderRadius");
        assert("opacity"@.len() != "borderRadius"@.len());
    }
    assert("fontFamily"@ != "backgroundColor"@) by {
        reveal_strlit("fontFamily");
        reveal_strlit("backgroundColor");
        assert("fontFamily"@.len() != "backgroundColor"@.len());
    }
    assert("fontFamily"@ != "color"@) by {
        reveal_strlit("fontFamily");
        reveal_strlit("color");
        assert("fontFamily"@.len() != "color"@.len());
    }
    assert("fontFamily"@ != "fontSize"@) by {
        reveal_strlit("fontFamily");
        reveal_strlit("fontSize");
        assert("fontFamily"@.len() != "fontSize"@.len());
    }
    assert("fontFamily"@ != "fontWeight"@) by {
        reveal_strlit("fontFamily");
        reveal_strlit("fontWeight");
        assert("fontFamily"@[4] != "fontWeight"@[4]);
    }
    assert("fontFamily"@ != "borderRadius"@) by {
        reveal_strlit("fontFamily");
        reveal_strlit("borderRadius");
        assert("fontFamily"@.len() != "borderRadius"@.len());
    }
    assert("fontFamily"@ != "opacity"@) by {
        reveal_strlit("fontFamily");
        reveal_strlit("opacity");
        assert("fontFamily"@.len() != "opacity"@.len());
    }
    assert("padding"@ != "backgroundColor"@) by {
        reveal_strlit("padding");
        reveal_strlit("backgroundColor");
        assert("padding"@.len() != "backgroundColor"@.len());
    }
    assert("padding"@ != "color"@) by {
        reveal_strlit("padding");
        reveal_strlit("color");
        assert("padding"@.len() != "color"@.len());
    }
    assert("padding"@ != "fontSize"@) by {
        reveal_strlit("padding");
        reveal_strlit("fontSize");
        assert("padding"@.len() != "fontSize"@.len());
    }
    assert("padding"@ != "fontWeight"@) by {
        reveal_strlit("padding");
        reveal_strlit("fontWeight");
        assert("padding"@.len() != "fontWeight"@.len());
    }
    assert("padding"@ != "borderRadius"@) by {
        reveal_strlit("padding");
        reveal_strlit("borderRadius");
        assert("padding"@.len() != "borderRadius"@.len());
    }
    assert("padding"@ != "opacity"@) by {
        reveal_strlit("padding");
        reveal_strlit("opacity");
        assert("padding"@[0] != "opacity"@[0]);
    }
    assert("padding"@ != "fontFamily"@) by {
        reveal_strlit("padding");
        reveal_strlit("fontFamily");
        assert("padding"@.len() != "fontFamily"@.len());
    }
    assert("hidden"@ != "backgroundColor"@) by {
        reveal_strlit("hidden");
        reveal_strlit("backgroundColor");
        assert("hidden"@.len() != "backgroundColor"@.len());
    }
    assert("hidden"@ != "color"@) by {
        reveal_strlit("hidden");
        reveal_strlit("color");
        assert("hidden"@.len() != "color"@.len());
    }
    assert("hidden"@ != "fontSize"@) by {
        reveal_strlit("hidden");
        reveal_strlit("fontSize");
        assert("hidden"@.len() != "fontSize"@.len());
    }
    assert("hidden"@ != "fontWeight"@) by {
        reveal_strlit("hidden");
        reveal_strlit("fontWeight");
        assert("hidden"@.len() != "fontWeight"@.len());
    }
    assert("hidden"@ != "borderRadius"@) by {
        reveal_strlit("hidden");
        reveal_strlit("borderRadius");
        assert("hidden"@.len() != "borderRadius"@.len());
    }
    assert("hidden"@ != "opacity"@) by {
        reveal_strlit("hidden");
        reveal_strlit("opacity");
        assert("hidden"@.len() != "opacity"@.len());
    }
    assert("hidden"@ != "fontFamily"@) by {
        reveal_strlit("hidden");
        reveal_strlit("fontFamily");
        assert("hidden"@.len() != "fontFamily"@.len());
    }
    assert("hidden"@ != "padding"@) by {
        reveal_strlit("hidden");
        reveal_strlit("padding");
        assert("hidden"@.len() != "padding"@.len());
    }
    assert("animation"@ != "backgroundColor"@) by {
        reveal_strlit("animation");
        reveal_strlit("backgroundColor");
        assert("animation"@.len() != "backgroundColor"@.len());
    }
    assert("animation"@ != "color"@) by {
        reveal_strlit("animation");
        reveal_strlit("color");
        assert("animation"@.len() != "color"@.len());
    }
    assert("animation"@ != "fontSize"@) by {
        reveal_strlit("animation");
        reveal_strlit("fontSize");
        assert("animation"@.len() != "fontSize"@.len());
    }
    assert("animation"@ != "fontWeight"@) by {
        reveal_strlit("animation");
        reveal_strlit("fontWeight");
        assert("animation"@.len() != "fontWeight"@.len());
    }
    assert("animation"@ != "borderRadius"@) by {
        reveal_strlit("animation");
        reveal_strlit("borderRadius");
        assert("animation"@.len() != "borderRadius"@.len());
    }
    assert("animation"@ != "opacity"@) by {
        reveal_strlit("animation");
        reveal_strlit("opacity");
        assert("animation"@.len() != "opacity"@.len());
    }
    assert("animation"@ != "fontFamily"@) by {
        reveal_strlit("animation");
        reveal_strlit("fontFamily");
        assert("animation"@.len() != "fontFamily"@.len());
    }
    assert("animation"@ != "padding"@) by {
        reveal_strlit("animation");
        reveal_strlit("padding");
        assert("animation"@.len() != "padding"@.len());
    }
    assert("animation"@ != "hidden"@) by {
        reveal_strlit("animation");
        reveal_strlit("hidden");
        assert("animation"@.len() != "hidden"@.len());
    }
    assert("shadow"@ != "backgroundColor"@) by {
        reveal_strlit("shadow");
        reveal_strlit("backgroundColor");
        assert("shadow"@.len() != "backgroundColor"@.len());
    }
    assert("shadow"@ != "color"@) by {
        reveal_strlit("shadow");
        reveal_strlit("color");
        assert("shadow"@.len() != "color"@.len());
    }
    assert("shadow"@ != "fontSize"@) by {
        reveal_strlit("shadow");
        reveal_strlit("fontSize");
        assert("shadow"@.len() != "fontSize"@.len());
    }
    assert("shadow"@ != "fontWeight"@) by {
        reveal_strlit("shadow");
        reveal_strlit("fontWeight");
        assert("shadow"@.len() != "fontWeight"@.len());
    }
    assert("shadow"@ != "borderRadius"@) by {
        reveal_strlit("shadow");
        reveal_strlit("borderRadius");
        assert("shadow"@.len() != "borderRadius"@.len());
    }
    assert("shadow"@ != "opacity"@) by {
        reveal_strlit("shadow");
        reveal_strlit("opacity");
        assert("shadow"@.len() != "opacity"@.len());
    }
    assert("shadow"@ != "fontFamily"@) by {
        reveal_strlit("shadow");
        reveal_strlit("fontFamily");
        assert("shadow"@.len() != "fontFamily"@.len());
    }
    assert("shadow"@ != "padding"@) by {
        reveal_strlit("shadow");
        reveal_strlit("padding");
        assert("shadow"@.len() != "padding"@.len());
    }
    assert("shadow"@ != "hidden"@) by {
        reveal_strlit("shadow");
        reveal_strlit("hidden");
        assert("shadow"@[0] != "hidden"@[0]);
    }
    assert("shadow"@ != "animation"@) by {
        reveal_strlit("shadow");
        reveal_strlit("animation");
        assert("shadow"@.len() != "animation"@.len());
    }
    assert("textDecoration"@ != "backgroundColor"@) by {
        reveal_strlit("textDecoration");
        reveal_strlit("backgroundColor");
        assert("textDecoration"@.len() != "backgroundColor"@.len());
    }
    assert("textDecoration"@ != "color"@) by {
        reveal_strlit("textDecoration");
        reveal_strlit("color");
        assert("textDecoration"@.len() != "color"@.len());
    }
    assert("textDecoration"@ != "fontSize"@) by {
        reveal_strlit("textDecoration");
        reveal_strlit("fontSize");
        assert("textDecoration"@.len() != "fontSize"@.len());
    }
    assert("textDecoration"@ != "fontWeight"@) by {
        reveal_strlit("textDecoration");
        reveal_strlit("fontWeight");
        assert("textDecoration"@.len() != "fontWeight"@.len());
    }
    assert("textDecoration"@ != "borderRadius"@) by {
        reveal_strlit("textDecoration");
        reveal_strlit("borderRadius");
        assert("textDecoration"@.len() != "borderRadius"@.len());
    }
    assert("textDecoration"@ != "opacity"@) by {
        reveal_strlit("textDecoration");
        reveal_strlit("opacity");
        assert("textDecoration"@.len() != "opacity"@.len());
    }
    assert("textDecoration"@ != "fontFamily"@) by {
        reveal_strlit("textDecoration");
        reveal_strlit("fontFamily");
        assert("textDecoration"@.len() != "fontFamily"@.len());
    }
    assert("textDecoration"@ != "padding"@) by {
        reveal_strlit("textDecoration");
        reveal_strlit("padding");
        assert("textDecoration"@.len() != "padding"@.len());
    }
    assert("textDecoration"@ != "hidden"@) by {
        reveal_strlit("textDecoration");
        reveal_strlit("hidden");
        assert("textDecoration"@.len() != "hidden"@.len());
    }
    assert("textDecoration"@ != "animation"@) by {
        reveal_strlit("textDecoration");
        reveal_strlit("animation");
        assert("textDecoration"@.len() != "animation"@.len());
    }
    assert("textDecoration"@ != "shadow"@) by {
        reveal_strlit("textDecoration");
        reveal_strlit("shadow");
        assert("textDecoration"@.len() != "shadow"@.len());
    }
    assert("borderColor"@ != "backgroundColor"@) by {
        reveal_strlit("borderColor");
        reveal_strlit("backgroundColor");
        assert("borderColor"@.len() != "backgroundColor"@.len());
    }
    assert("borderColor"@ != "color"@) by {
        reveal_strlit("borderColor");
        reveal_strlit("color");
        assert("borderColor"@.len() != "color"@.len());
    }
    assert("borderColor"@ != "fontSize"@) by {
        reveal_strlit("borderColor");
        reveal_strlit("fontSize");
        assert("borderColor"@.len() != "fontSize"@.len());
    }
    assert("borderColor"@ != "fontWeight"@) by {
        reveal_strlit("borderColor");
        reveal_strlit("fontWeight");
        assert("borderColor"@.len() != "fontWeight"@.len());
    }
    assert("borderColor"@ != "borderRadius"@) by {
        reveal_strlit("borderColor");
        reveal_strlit("borderRadius");
        assert("borderColor"@.len() != "borderRadius"@.len());
    }
    assert("borderColor"@ != "opacity"@) by {
        reveal_strlit("borderColor");
        reveal_strlit("opacity");
        assert("borderColor"@.len() != "opacity"@.len());
    }
    assert("borderColor"@ != "fontFamily"@) by {
        reveal_strlit("borderColor");
        reveal_strlit("fontFamily");
        assert("borderColor"@.len() != "fontFamily"@.len());
    }
    assert("borderColor"@ != "padding"@) by {
        reveal_strlit("borderColor");
        reveal_strlit("padding");
        assert("borderColor"@.len() != "padding"@.len());
    }
    assert("borderColor"@ != "hidden"@) by {
        reveal_strlit("borderColor");
        reveal_strlit("hidden");
        assert("borderColor"@.len() != "hidden"@.len());
    }
    assert("borderColor"@ != "animation"@) by {
        reveal_strlit("borderColor");
        reveal_strlit("animation");
        assert("borderColor"@.len() != "animation"@.len());
    }
    assert("borderColor"@ != "shadow"@) by {
        reveal_strlit("borderColor");
        reveal_strlit("shadow");
        assert("borderColor"@.len() != "shadow"@.len());
    }
    assert("borderColor"@ != "textDecoration"@) by {
        reveal_strlit("borderColor");
        reveal_strlit("textDecoration");
        assert("borderColor"@.len() != "textDecoration"@.len());
    }
    assert("borderWidth"@ != "backgroundColor"@) by {
        reveal_strlit("borderWidth");
        reveal_strlit("backgroundColor");
        assert("borderWidth"@.len() != "backgroundColor"@.len());
    }
    assert("borderWidth"@ != "color"@) by {
        reveal_strlit("borderWidth");
        reveal_strlit("color");
        assert("borderWidth"@.len() != "color"@.len());
    }
    assert("borderWidth"@ != "fontSize"@) by {
        reveal_strlit("borderWidth");
        reveal_strlit("fontSize");
        assert("borderWidth"@.len() != "fontSize"@.len());
    }
    assert("borderWidth"@ != "fontWeight"@) by {
        reveal_strlit("borderWidth");
        reveal_strlit("fontWeight");
        assert("borderWidth"@.len() != "fontWeight"@.len());
    }
    assert("borderWidth"@ != "borderRadius"@) by {
        reveal_strlit("borderWidth");
        reveal_strlit("borderRadius");
        assert("borderWidth"@.len() != "borderRadius"@.len());
    }
    assert("borderWidth"@ != "opacity"@) by {
        reveal_strlit("borderWidth");
        reveal_strlit("opacity");
        assert("borderWidth"@.len() != "opacity"@.len());
    }
    assert("borderWidth"@ != "fontFamily"@) by {
        reveal_strlit("borderWidth");
        reveal_strlit("fontFamily");
        assert("borderWidth"@.len() != "fontFamily"@.len());
    }
    assert("borderWidth"@ != "padding"@) by {
        reveal_strlit("borderWidth");
        reveal_strlit("padding");
        assert("borderWidth"@.len() != "padding"@.len());
    }
    assert("borderWidth"@ != "hidden"@) by {
        reveal_strlit("borderWidth");
        reveal_strlit("hidden");
        assert("borderWidth"@.len() != "hidden"@.len());
    }
    assert("borderWidth"@ != "animation"@) by {
        reveal_strlit("borderWidth");
        reveal_strlit("animation");
        assert("borderWidth"@.len() != "animation"@.len());
    }
    assert("borderWidth"@ != "shadow"@) by {
        reveal_strlit("borderWidth");
        reveal_strlit("shadow");
        assert("borderWidth"@.len() != "shadow"@.len());
    }
    assert("borderWidth"@ != "textDecoration"@) by {
        reveal_strlit("borderWidth");
        reveal_strlit("textDecoration");
        assert("borderWidth"@.len() != "textDecoration"@.len());
    }
    assert("borderWidth"@ != "borderColor"@) by {
        reveal_strlit("borderWidth");
        reveal_strlit("borderColor");
        assert("borderWidth"@[6] != "borderColor"@[6]);
    }
}

/// The names of the parts of an animation differ.
proof fn lemma_animation_names()
    ensures
        "delay"@ != "duration"@,
        "iterations"@ != "duration"@,
        "iterations"@ != "delay"@,
        "curve"@ != "duration"@,
        "curve"@ != "delay"@,
        "curve"@ != "iterations"@,
{
    assert("delay"@ != "duration"@) by {
        reveal_strlit("delay");
        reveal_strlit("duration");
        assert("delay"@.len() != "duration"@.len());
    }
    assert("iterations"@ != "duration"@) by {
        reveal_strlit("iterations");
        reveal_strlit("duration");
        assert("iterations"@.len() != "duration"@.len());
    }
    assert("iterations"@ != "delay"@) by {
        reveal_strlit("iterations");
        reveal_strlit("delay");
        assert("iterations"@.len() != "delay"@.len());
    }
    assert("curve"@ != "duration"@) by {
        reveal_strlit("curve");
        reveal_strlit("duration");
        assert("curve"@.len() != "duration"@.len());
    }
    assert("curve"@ != "delay"@) by {
        reveal_strlit("curve");
        reveal_strlit("delay");
        assert("curve"@[0] != "delay"@[0]);
    }
    assert("curve"@ != "iterations"@) by {
        reveal_strlit("curve");
        reveal_strlit("iterations");
        assert("curve"@.len() != "iterations"@.len());
    }
}

/// The names of the parts of a shadow differ.
proof fn lemma_shadow_names()
    ensures
        "blur"@ != "color"@,
        "offsetX"@ != "color"@,
        "offsetX"@ != "blur"@,
        "offsetY"@ != "color"@,
        "offsetY"@ != "blur"@,
        "offsetY"@ != "offsetX"@,
{
    assert("blur"@ != "color"@) by {
        reveal_strlit("blur");
        reveal_strlit("color");
        assert("blur"@.len() != "color"@.len());
    }
    assert("offsetX"@ != "color"@) by {
        reveal_strlit("offsetX");
        reveal_strlit("color");
        assert("offsetX"@.len() != "color"@.len());
    }
    assert("offsetX"@ != "blur"@) by {
        reveal_strlit("offsetX");
        reveal_strlit("blur");
        assert("offsetX"@.len() != "blur"@.len());
    }
    assert("offsetY"@ != "color"@) by {
        reveal_strlit("offsetY");
        reveal_strlit("color");
        assert("offsetY"@.len() != "color"@.len());
    }
    assert("offsetY"@ != "blur"@) by {
        reveal_strlit("offsetY");
        reveal_strlit("blur");
        assert("offsetY"@.len() != "blur"@.len());
    }
    assert("offsetY"@ != "offsetX"@) by {
        reveal_strlit("offsetY");
        reveal_strlit("offsetX");
        assert("offsetY"@[6] != "offsetX"@[6]);
    }
}

/// The names of text decorations differ.
proof fn lemma_decoration_names()
    ensures
        "strikethrough"@ != "underline"@,
        "line-through"@ != "underline"@,
        "line-through"@ != "strikethrough"@,
        "overline"@ != "underline"@,
        "overline"@ != "strikethrough"@,
        "overline"@ != "line-through"@,
        "none"@ != "underline"@,
        "none"@ != "strikethrough"@,
        "none"@ != "line-through"@,
        "none"@ != "overline"@,
{
    assert("strikethrough"@ != "underline"@) by {
        reveal_strlit("strikethrough");
        reveal_strlit("underline");
        assert("strikethrough"@.len() != "underline"@.len());
    }
    assert("line-through"@ != "underline"@) by {
        reveal_strlit("line-through");
        reveal_strlit("underline");
        assert("line-through"@.len() != "underline"@.len());
    }
    assert("line-through"@ != "strikethrough"@) by {
        reveal_strlit("line-through");
        reveal_strlit("strikethrough");
        assert("line-through"@.len() != "strikethrough"@.len());
    }
    assert("overline"@ != "underline"@) by {
        reveal_strlit("overline");
        reveal_strlit("underline");
        assert("overline"@.len() != "underline"@.len());
    }
    assert("overline"@ != "strikethrough"@) by {
        reveal_strlit("overline");
        reveal_strlit("strikethrough");
        assert("overline"@.len() != "strikethrough"@.len());
    }
    assert("overline"@ != "line-through"@) by {
        reveal_strlit("overline");
        reveal_strlit("line-through");
        assert("overline"@.len() != "line-through"@.len());
    }
    assert("none"@ != "underline"@) by {
        reveal_strlit("none");
        reveal_strlit("underline");
        assert("none"@.len() != "underline"@.len());
    }
    assert("none"@ != "strikethrough"@) by {
        reveal_strlit("none");
        reveal_strlit("strikethrough");
        assert("none"@.len() != "strikethrough"@.len());
    }
    assert("none"@ != "line-through"@) by {
        reveal_strlit("none");
        reveal_strlit("line-through");
        assert("none"@.len() != "line-through"@.len());
    }
    assert("none"@ != "overline"@) by {
        reveal_strlit("none");
        reveal_strlit("overline");
        assert("none"@.len() != "overline"@.len());
    }
}

// ---------------------------------------------------------------------------
// Numbers and configs
// ---------------------------------------------------------------------------

/// The source text of the number that a value is; nothing where it is none.
pub open spec fn given(v: Option<ExprView>) -> Option<Seq<char>> {
    match v {
        Some(ExprView::Number(n)) => Some(number_text(n)),
        Some(ExprView::Integer(n)) => Some(integer_text(n as int)),
        _ => None,
    }
}

/// One where there is a text.
pub open spec fn one_if(o: Option<Seq<char>>) -> int {
    if o is Some {
        1
    } else {
        0
    }
}

/// A padding object gives one part `side: n` for each of the sides top, right, bottom
/// and left that it has a number for, in this order, and no other part.
pub proof fn law_padding_has_every_side(sides: Seq<PropView>)
    ensures
        ({
            let parts = padding_parts(sides);
            let top = given(find_prop(sides, "top"@));
            let right = given(find_prop(sides, "right"@));
            let bottom = given(find_prop(sides, "bottom"@));
            let left = given(find_prop(sides, "left"@));
            let behind_right = one_if(top) + one_if(right);
            &&& parts.len() == one_if(top) + one_if(right) + one_if(bottom) + one_if(left)
            &&& top matches Some(n) ==> parts[0] == "top"@ + ": "@ + n
            &&& right matches Some(n) ==> parts[one_if(top)] == "right"@ + ": "@ + n
            &&& bottom matches Some(n) ==> parts[behind_right] == "bottom"@ + ": "@ + n
            &&& left matches Some(n) ==> parts[behind_right + one_if(bottom)] == "left"@ + ": "@
                + n
        }),
{
}

/// A side of a padding object that is given as a number is in the modifier, and the
/// number of parts is the number of such sides.
pub proof fn law_padding_side_is_kept(sides: Seq<PropView>, side: Seq<char>)
    requires
        side == "top"@ || side == "right"@ || side == "bottom"@ || side == "left"@,
    ensures
        given(find_prop(sides, side)) matches Some(n) ==> padding_parts(sides).contains(
            side + ": "@ + n,
        ),
{
    law_padding_has_every_side(sides);
    let parts = padding_parts(sides);
    let top = given(find_prop(sides, "top"@));
    let right = given(find_prop(sides, "right"@));
    let bottom = given(find_prop(sides, "bottom"@));
    match given(find_prop(sides, side)) {
        Some(n) => {
            let at = if side == "top"@ {
                0
            } else if side == "right"@ {
                one_if(top)
            } else if side == "bottom"@ {
                one_if(top) + one_if(right)
            } else {
                one_if(top) + one_if(right) + one_if(bottom)
            };
            assert(parts[at] == side + ": "@ + n);
        },
        None => {},
    }
}

/// A modifier with parts holds all of them, separated by commas, in braces; without
/// parts there is no modifier.
pub proof fn law_config_modifier(name: Seq<char>, parts: Seq<Seq<char>>)
    ensures
        parts.len() == 0 ==> config_modifier(name, parts) == Seq::<char>::empty(),
        parts.len() > 0 ==> config_modifier(name, parts) == "."@ + name + "("@ + ("{ "@ + join(
            parts,
            ", "@,
        ) + " }"@) + ")"@,
{
}

/// An animation takes its numbers and its curve from the properties of the names, in
/// the order of the properties, and drops all others.
pub proof fn law_animation_parts(a: Seq<PropView>, b: Seq<PropView>, p: PropView)
    ensures
        animation_parts(a + b) == animation_parts(a) + animation_parts(b),
        animation_parts(seq![p]).len() <= 1,
        p.0 == "duration"@ || p.0 == "delay"@ || p.0 == "iterations"@ ==> animation_parts(seq![p])
            == match given(Some(p.1)) {
            Some(n) => seq![p.0 + ": "@ + n],
            None => Seq::empty(),
        },
        p.0 == "curve"@ ==> animation_parts(seq![p]) == match p.1 {
            ExprView::String(s) => seq!["curve"@ + ": "@ + curve_value(s)],
            _ => Seq::empty(),
        },
        p.0 != "duration"@ && p.0 != "delay"@ && p.0 != "iterations"@ && p.0 != "curve"@
            ==> animation_parts(seq![p]).len() == 0,
    decreases b.len(),
{
    lemma_animation_names();
    let one = seq![p];
    assert(one.drop_last() =~= Seq::empty());
    assert(one.last() == p);
    reveal_with_fuel(animation_parts, 2);
    assert(animation_parts(one) =~= match animation_part(p) {
        Some(x) => seq![x],
        None => Seq::empty(),
    });
    if b.len() == 0 {
        assert(a + b =~= a);
        assert(animation_parts(a) + animation_parts(b) =~= animation_parts(a));
    } else {
        law_animation_parts(a, b.drop_last(), p);
        assert((a + b).drop_last() =~= a + b.drop_last());
        assert((a + b).last() == b.last());
        assert(animation_parts(a + b) =~= animation_parts(a) + animation_parts(b));
    }
}

/// A shadow takes its color, its radius and its offsets from the properties of the
/// names, in the order of the properties, and drops all others; the radius is the blur.
pub proof fn law_shadow_parts(a: Seq<PropView>, b: Seq<PropView>, p: PropView)
    ensures
        shadow_parts(a + b) == shadow_parts(a) + shadow_parts(b),
        p.0 == "color"@ ==> shadow_parts(seq![p]) == seq!["color"@ + ": "@ + color_value(p.1)],
        p.0 == "blur"@ ==> shadow_parts(seq![p]) == match given(Some(p.1)) {
            Some(n) => seq!["radius"@ + ": "@ + n],
            None => Seq::empty(),
        },
        p.0 == "offsetX"@ || p.0 == "offsetY"@ ==> shadow_parts(seq![p]) == match given(
            Some(p.1),
        ) {
            Some(n) => seq![p.0 + ": "@ + n],
            None => Seq::empty(),
        },
        p.0 != "color"@ && p.0 != "blur"@ && p.0 != "offsetX"@ && p.0 != "offsetY"@
            ==> shadow_parts(seq![p]).len() == 0,
    decreases b.len(),
{
    lemma_shadow_names();
    let one = seq![p];
    assert(one.drop_last() =~= Seq::empty());
    assert(one.last() == p);
    reveal_with_fuel(shadow_parts, 2);
    assert(shadow_parts(one) =~= match shadow_part(p) {
        Some(x) => seq![x],
        None => Seq::empty(),
    });
    if b.len() == 0 {
        assert(a + b =~= a);
        assert(shadow_parts(a) + shadow_parts(b) =~= shadow_parts(a));
    } else {
        law_shadow_parts(a, b.drop_last(), p);
        assert((a + b).drop_last() =~= a + b.drop_last());
        assert((a + b).last() == b.last());
        assert(shadow_parts(a + b) =~= shadow_parts(a) + shadow_parts(b));
    }
}

// ---------------------------------------------------------------------------
// Colors
// ---------------------------------------------------------------------------

/// The number that a channel gets: that of its own property, 0 where there is none.
pub open spec fn given_channel(v: Option<ExprView>) -> int {
    match v {
        Some(ExprView::Number(n)) => channel(n.bits),
        Some(ExprView::Integer(n)) => integer_channel(n as int),
        _ => 0,
    }
}

/// A color object keeps its channels apart: red, green and blue each come from the
/// property of their own name, and so does the alpha, which is 1 where none is given.
/// A color name stays what it is, and anything else is black.
pub proof fn law_color_keeps_its_channels(e: ExprView)
    ensures
        e matches ExprView::String(s) ==> color_value(e) == string_lit(s),
        e matches ExprView::Object(props) ==> color_value(e) == "'rgba("@ + dec_int(
            given_channel(find_prop(props, "r"@)),
        ) + ", "@ + dec_int(given_channel(find_prop(props, "g"@))) + ", "@ + dec_int(
            given_channel(find_prop(props, "b"@)),
        ) + ", "@ + (match given(find_prop(props, "a"@)) {
            Some(n) => n,
            None => "1"@,
        }) + ")'"@,
        !(e is String) && !(e is Object) ==> color_value(e) == "'#000000'"@,
{
}

// ---------------------------------------------------------------------------
// Properties
// ---------------------------------------------------------------------------

/// Properties that are numbers or colors: each has the modifier of its name, the color
/// of the text that of `fontColor`; a number that is none has no modifier.
#[verifier::rlimit(40)]
pub proof fn law_number_and_color_properties(v: ExprView)
    ensures
        prop_modifier(("backgroundColor"@, v)) == "."@ + "backgroundColor"@ + "("@ + color_value(v)
            + ")"@,
        prop_modifier(("color"@, v)) == "."@ + "fontColor"@ + "("@ + color_value(v) + ")"@,
        given(Some(v)) matches Some(n) ==> {
            &&& prop_modifier(("fontSize"@, v)) == "."@ + "fontSize"@ + "("@ + n + ")"@
            &&& prop_modifier(("fontWeight"@, v)) == "."@ + "fontWeight"@ + "("@ + n + ")"@
            &&& prop_modifier(("borderRadius"@, v)) == "."@ + "borderRadius"@ + "("@ + n + ")"@
            &&& prop_modifier(("opacity"@, v)) == "."@ + "opacity"@ + "("@ + n + ")"@
        },
        given(Some(v)) is None ==> {
            &&& prop_modifier(("fontSize"@, v)).len() == 0
            &&& prop_modifier(("fontWeight"@, v)).len() == 0
            &&& prop_modifier(("borderRadius"@, v)).len() == 0
            &&& prop_modifier(("opacity"@, v)).len() == 0
        },
{
    lemma_property_names();
}

/// The other properties: a font by its name, a padding by a number or by its sides, a
/// hidden widget, an animation and a shadow by their parts, a text decoration by its
/// kind. A value of another kind has no modifier.
#[verifier::rlimit(40)]
pub proof fn law_other_properties(v: ExprView)
    ensures
        prop_modifier(("fontFamily"@, v)) == match v {
            ExprView::String(s) => "."@ + "fontFamily"@ + "("@ + string_lit(s) + ")"@,
            _ => Seq::empty(),
        },
        prop_modifier(("padding"@, v)) == match v {
            ExprView::Number(n) => "."@ + "padding"@ + "("@ + number_text(n) + ")"@,
            ExprView::Integer(n) => "."@ + "padding"@ + "("@ + dec_int(n as int) + ")"@,
            ExprView::Object(sides) => config_modifier("padding"@, padding_parts(sides)),
            _ => Seq::empty(),
        },
        v == ExprView::Bool(true) ==> prop_modifier(("hidden"@, v))
            == ".visibility(Visibility.Hidden)"@,
        v != ExprView::Bool(true) ==> prop_modifier(("hidden"@, v)).len() == 0,
        prop_modifier(("animation"@, v)) == match v {
            ExprView::Object(props) => config_modifier("animation"@, animation_parts(props)),
            _ => Seq::empty(),
        },
        prop_modifier(("shadow"@, v)) == match v {
            ExprView::Object(props) => config_modifier("shadow"@, shadow_parts(props)),
            _ => Seq::empty(),
        },
        v matches ExprView::String(s) ==> prop_modifier(("textDecoration"@, v))
            == match decoration_type(s) {
            Some(kind) => ".decoration({ type: TextDecorationType."@ + kind + " })"@,
            None => Seq::empty(),
        },
        !(v is String) ==> prop_modifier(("textDecoration"@, v)).len() == 0,
        prop_modifier(("borderColor"@, v)).len() == 0,
        prop_modifier(("borderWidth"@, v)).len() == 0,
{
    lemma_property_names();
}

/// The kinds of text decoration: both names of a line through the text mean the same,
/// and no other two.
pub proof fn law_decoration_types(s: Seq<char>)
    ensures
        decoration_type("underline"@) == Some("Underline"@),
        decoration_type("strikethrough"@) == Some("LineThrough"@),
        decoration_type("line-through"@) == Some("LineThrough"@),
        decoration_type("overline"@) == Some("Overline"@),
        decoration_type("none"@) == Some("None"@),
        decoration_type(s) is Some ==> s == "underline"@ || s == "strikethrough"@ || s
            == "line-through"@ || s == "overline"@ || s == "none"@,
{
    lemma_decoration_names();
}

/// The modifiers of several properties are those of each, in order.
pub proof fn law_properties_in_order(a: Seq<PropView>, b: Seq<PropView>, p: PropView)
    ensures
        prop_modifiers(seq![p]) == prop_modifier(p),
        prop_modifiers(a + b) == prop_modifiers(a) + prop_modifiers(b),
    decreases b.len(),
{
    let one = seq![p];
    assert(one.drop_last() =~= Seq::empty());
    reveal_with_fuel(prop_modifiers, 2);
    assert(prop_modifiers(one) =~= prop_modifier(p));
    if b.len() == 0 {
        assert(a + b =~= a);
        assert(prop_modifiers(a) + prop_modifiers(b) =~= prop_modifiers(a));
    } else {
        law_properties_in_order(a, b.drop_last(), p);
        assert((a + b).drop_last() =~= a + b.drop_last());
        assert((a + b).last() == b.last());
        assert(prop_modifiers(a + b) =~= prop_modifiers(a) + prop_modifiers(b));
    }
}

// ---------------------------------------------------------------------------
// Borders
// ---------------------------------------------------------------------------

/// Whether the property at the index is the last one that gives a border color.
pub open spec fn last_color(props: Seq<PropView>, i: int) -> bool {
    &&& 0 <= i < props.len()
    &&& props[i].0 == "borderColor"@
    &&& forall|j: int| i < j < props.len() ==> (#[trigger] props[j]).0 != "borderColor"@
}

/// Whether the property at the index is the last one that gives a border width, as a
/// number.
pub open spec fn last_width(props: Seq<PropView>, i: int) -> bool {
    &&& 0 <= i < props.len()
    &&& props[i].0 == "borderWidth"@
    &&& given(Some(props[i].1)) is Some
    &&& forall|j: int|
        i < j < props.len() && (#[trigger] props[j]).0 == "borderWidth"@ ==> given(
            Some(props[j].1),
        ) is None
}

/// The border has the last color and the last width that are given; a width that is no
/// number counts for nothing.
pub proof fn law_border_takes_the_last(props: Seq<PropView>, i: int)
    ensures
        last_color(props, i) ==> border_color(props) == Some(color_value(props[i].1)),
        last_width(props, i) ==> border_width(props) == given(Some(props[i].1)),
        (forall|j: int| 0 <= j < props.len() ==> (#[trigger] props[j]).0 != "borderColor"@)
            ==> border_color(props) is None,
        (forall|j: int|
            0 <= j < props.len() && (#[trigger] props[j]).0 == "borderWidth"@ ==> given(
                Some(props[j].1),
            ) is None) ==> border_width(props) is None,
    decreases props.len(),
{
    if props.len() > 0 {
        let front = props.drop_last();
        let last = props.len() - 1;
        assert(props.last() == props[last]);
        assert forall|j: int| 0 <= j < front.len() implies #[trigger] front[j] == props[j] by {}
        law_border_takes_the_last(front, i);
        if last_color(props, i) && i < last {
            assert(last_color(front, i));
        }
        if last_width(props, i) && i < last {
            assert(last_width(front, i));
        }
    }
}

/// Width and color of a border are in one modifier, each under its own name; what is
/// not given is left out, and without both there is no modifier.
pub proof fn law_border_keeps_both(width: Option<Seq<char>>, color: Option<Seq<char>>)
    ensures
        border_modifier(width, color) == match (width, color) {
            (Some(w), Some(c)) => config_modifier(
                "border"@,
                seq!["width"@ + ": "@ + w, "color"@ + ": "@ + c],
            ),
            (Some(w), None) => config_modifier("border"@, seq!["width"@ + ": "@ + w]),
            (None, Some(c)) => config_modifier("border"@, seq!["color"@ + ": "@ + c]),
            (None, None) => Seq::empty(),
        },
{
    match (width, color) {
        (Some(w), Some(c)) => {
            assert(Seq::empty().push("width"@ + ": "@ + w).push("color"@ + ": "@ + c) =~= seq![
                "width"@ + ": "@ + w,
                "color"@ + ": "@ + c,
            ]);
        },
        (Some(w), None) => {
            assert(Seq::empty().push("width"@ + ": "@ + w) =~= seq!["width"@ + ": "@ + w]);
        },
        (None, Some(c)) => {
            assert(Seq::empty().push("color"@ + ": "@ + c) =~= seq!["color"@ + ": "@ + c]);
        },
        (None, None) => {},
    }
}

/// A style is the modifiers of its properties, and behind them one for the border, with
/// the last width and the last color that are given.
pub proof fn law_style_has_its_border(props: Seq<PropView>, i: int, j: int)
    requires
        last_width(props, i),
        last_color(props, j),
    ensures
        style_modifiers(props) == prop_modifiers(props) + config_modifier(
            "border"@,
            seq![
                "width"@ + ": "@ + given(Some(props[i].1))->0,
                "color"@ + ": "@ + color_value(props[j].1),
            ],
        ),
{
    law_border_takes_the_last(props, i);
    law_border_takes_the_last(props, j);
    law_border_keeps_both(border_width(props), border_color(props));
}

/// A style without a border is the modifiers of its properties, each by itself and in
/// order.
pub proof fn law_style_without_border(a: Seq<PropView>, b: Seq<PropView>)
    requires
        border_width(a + b) is None,
        border_color(a + b) is None,
    ensures
        style_modifiers(a + b) == prop_modifiers(a) + prop_modifiers(b),
{
    law_properties_in_order(a, b, ("color"@, ExprView::Null));
    law_border_keeps_both(None, None);
    assert(style_modifiers(a + b) =~= prop_modifiers(a + b));
}

// ---------------------------------------------------------------------------
// Curves
// ---------------------------------------------------------------------------

/// The names of timing functions differ.
proof fn lemma_curve_names()
    ensures
        "ease"@ != "linear"@,
        "ease-in"@ != "linear"@,
        "ease-in"@ != "ease"@,
        "easeIn"@ != "linear"@,
        "easeIn"@ != "ease"@,
        "easeIn"@ != "ease-in"@,
        "ease-out"@ != "linear"@,
        "ease-out"@ != "ease"@,
        "ease-out"@ != "ease-in"@,
        "ease-out"@ != "easeIn"@,
        "easeOut"@ != "linear"@,
        "easeOut"@ != "ease"@,
        "easeOut"@ != "ease-in"@,
        "easeOut"@ != "easeIn"@,
        "easeOut"@ != "ease-out"@,
        "ease-in-out"@ != "linear"@,
        "ease-in-out"@ != "ease"@,
        "ease-in-out"@ != "ease-in"@,
        "ease-in-out"@ != "easeIn"@,
        "ease-in-out"@ != "ease-out"@,
        "ease-in-out"@ != "easeOut"@,
        "easeInOut"@ != "linear"@,
        "easeInOut"@ != "ease"@,
        "easeInOut"@ != "ease-in"@,
        "easeInOut"@ != "easeIn"@,
        "easeInOut"@ != "ease-out"@,
        "easeInOut"@ != "easeOut"@,
        "easeInOut"@ != "ease-in-out"@,
        "fast-out-slow-in"@ != "linear"@,
        "fast-out-slow-in"@ != "ease"@,
        "fast-out-slow-in"@ != "ease-in"@,
        "fast-out-slow-in"@ != "easeIn"@,
        "fast-out-slow-in"@ != "ease-out"@,
        "fast-out-slow-in"@ != "easeOut"@,
        "fast-out-slow-in"@ != "ease-in-out"@,
        "fast-out-slow-in"@ != "easeInOut"@,
        "linear-out-slow-in"@ != "linear"@,
        "linear-out-slow-in"@ != "ease"@,
        "linear-out-slow-in"@ != "ease-in"@,
        "linear-out-slow-in"@ != "easeIn"@,
        "linear-out-slow-in"@ != "ease-out"@,
        "linear-out-slow-in"@ != "easeOut"@,
        "linear-out-slow-in"@ != "ease-in-out"@,
        "linear-out-slow-in"@ != "easeInOut"@,
        "linear-out-slow-in"@ != "fast-out-slow-in"@,
        "fast-out-linear-in"@ != "linear"@,
        "fast-out-linear-in"@ != "ease"@,
        "fast-out-linear-in"@ != "ease-in"@,
        "fast-out-linear-in"@ != "easeIn"@,
        "fast-out-linear-in"@ != "ease-out"@,
        "fast-out-linear-in"@ != "easeOut"@,
        "fast-out-linear-in"@ != "ease-in-out"@,
        "fast-out-linear-in"@ != "easeInOut"@,
        "fast-out-linear-in"@ != "fast-out-slow-in"@,
        "fast-out-linear-in"@ != "linear-out-slow-in"@,
        "extreme-deceleration"@ != "linear"@,
        "extreme-deceleration"@ != "ease"@,
        "extreme-deceleration"@ != "ease-in"@,
        "extreme-deceleration"@ != "easeIn"@,
        "extreme-deceleration"@ != "ease-out"@,
        "extreme-deceleration"@ != "easeOut"@,
        "extreme-deceleration"@ != "ease-in-out"@,
        "extreme-deceleration"@ != "easeInOut"@,
        "extreme-deceleration"@ != "fast-out-slow-in"@,
        "extreme-deceleration"@ != "linear-out-slow-in"@,
        "extreme-deceleration"@ != "fast-out-linear-in"@,
        "sharp"@ != "linear"@,
        "sharp"@ != "ease"@,
        "sharp"@ != "ease-in"@,
        "sharp"@ != "easeIn"@,
        "sharp"@ != "ease-out"@,
        "sharp"@ != "easeOut"@,
        "sharp"@ != "ease-in-out"@,
        "sharp"@ != "easeInOut"@,
        "sharp"@ != "fast-out-slow-in"@,
        "sharp"@ != "linear-out-slow-in"@,
        "sharp"@ != "fast-out-linear-in"@,
        "sharp"@ != "extreme-deceleration"@,
        "rhythm"@ != "linear"@,
        "rhythm"@ != "ease"@,
        "rhythm"@ != "ease-in"@,
        "rhythm"@ != "easeIn"@,
        "rhythm"@ != "ease-out"@,
        "rhythm"@ != "easeOut"@,
        "rhythm"@ != "ease-in-out"@,
        "rhythm"@ != "easeInOut"@,
        "rhythm"@ != "fast-out-slow-in"@,
        "rhythm"@ != "linear-out-slow-in"@,
        "rhythm"@ != "fast-out-linear-in"@,
        "rhythm"@ != "extreme-deceleration"@,
        "rhythm"@ != "sharp"@,
        "smooth"@ != "linear"@,
        "smooth"@ != "ease"@,
        "smooth"@ != "ease-in"@,
        "smooth"@ != "easeIn"@,
        "smooth"@ != "ease-out"@,
        "smooth"@ != "easeOut"@,
        "smooth"@ != "ease-in-out"@,
        "smooth"@ != "easeInOut"@,
        "smooth"@ != "fast-out-slow-in"@,
        "smooth"@ != "linear-out-slow-in"@,
        "smooth"@ != "fast-out-linear-in"@,
        "smooth"@ != "extreme-deceleration"@,
        "smooth"@ != "sharp"@,
        "smooth"@ != "rhythm"@,
        "friction"@ != "linear"@,
        "friction"@ != "ease"@,
        "friction"@ != "ease-in"@,
        "friction"@ != "easeIn"@,
        "friction"@ != "ease-out"@,
        "friction"@ != "easeOut"@,
        "friction"@ != "ease-in-out"@,
        "friction"@ != "easeInOut"@,
        "friction"@ != "fast-out-slow-in"@,
        "friction"@ != "linear-out-slow-in"@,
        "friction"@ != "fast-out-linear-in"@,
        "friction"@ != "extreme-deceleration"@,
        "friction"@ != "sharp"@,
        "friction"@ != "rhythm"@,
        "friction"@ != "smooth"@,
{
    assert("ease"@ != "linear"@) by {
        reveal_strlit("ease");
        reveal_strlit("linear");
        assert("ease"@.len() != "linear"@.len());
    }
    assert("ease-in"@ != "linear"@) by {
        reveal_strlit("ease-in");
        reveal_strlit("linear");
        assert("ease-in"@.len() != "linear"@.len());
    }
    assert("ease-in"@ != "ease"@) by {
        reveal_strlit("ease-in");
        reveal_strlit("ease");
        assert("ease-in"@.len() != "ease"@.len());
    }
    assert("easeIn"@ != "linear"@) by {
        reveal_strlit("easeIn");
        reveal_strlit("linear");
        assert("easeIn"@[0] != "linear"@[0]);
    }
    assert("easeIn"@ != "ease"@) by {
        reveal_strlit("easeIn");
        reveal_strlit("ease");
        assert("easeIn"@.len() != "ease"@.len());
    }
    assert("easeIn"@ != "ease-in"@) by {
        reveal_strlit("easeIn");
        reveal_strlit("ease-in");
        assert("easeIn"@.len() != "ease-in"@.len());
    }
    assert("ease-out"@ != "linear"@) by {
        reveal_strlit("ease-out");
        reveal_strlit("linear");
        assert("ease-out"@.len() != "linear"@.len());
    }
    assert("ease-out"@ != "ease"@) by {
        reveal_strlit("ease-out");
        reveal_strlit("ease");
        assert("ease-out"@.len() != "ease"@.len());
    }
    assert("ease-out"@ != "ease-in"@) by {
        reveal_strlit("ease-out");
        reveal_strlit("ease-in");
        assert("ease-out"@.len() != "ease-in"@.len());
    }
    assert("ease-out"@ != "easeIn"@) by {
        reveal_strlit("ease-out");
        reveal_strlit("easeIn");
        assert("ease-out"@.len() != "easeIn"@.len());
    }
    assert("easeOut"@ != "linear"@) by {
        reveal_strlit("easeOut");
        reveal_strlit("linear");
        assert("easeOut"@.len() != "linear"@.len());
    }
    assert("easeOut"@ != "ease"@) by {
        reveal_strlit("easeOut");
        reveal_strlit("ease");
        assert("easeOut"@.len() != "ease"@.len());
    }
    assert("easeOut"@ != "ease-in"@) by {
        reveal_strlit("easeOut");
        reveal_strlit("ease-in");
        assert("easeOut"@[4] != "ease-in"@[4]);
    }
    assert("easeOut"@ != "easeIn"@) by {
        reveal_strlit("easeOut");
        reveal_strlit("easeIn");
        assert("easeOut"@.len() != "easeIn"@.len());
    }
    assert("easeOut"@ != "ease-out"@) by {
        reveal_strlit("easeOut");
        reveal_strlit("ease-out");
        assert("easeOut"@.len() != "ease-out"@.len());
    }
    assert("ease-in-out"@ != "linear"@) by {
        reveal_strlit("ease-in-out");
        reveal_strlit("linear");
        assert("ease-in-out"@.len() != "linear"@.len());
    }
    assert("ease-in-out"@ != "ease"@) by {
        reveal_strlit("ease-in-out");
        reveal_strlit("ease");
        assert("ease-in-out"@.len() != "ease"@.len());
    }
    assert("ease-in-out"@ != "ease-in"@) by {
        reveal_strlit("ease-in-out");
        reveal_strlit("ease-in");
        assert("ease-in-out"@.len() != "ease-in"@.len());
    }
    assert("ease-in-out"@ != "easeIn"@) by {
        reveal_strlit("ease-in-out");
        reveal_strlit("easeIn");
        assert("ease-in-out"@.len() != "easeIn"@.len());
    }
    assert("ease-in-out"@ != "ease-out"@) by {
        reveal_strlit("ease-in-out");
        reveal_strlit("ease-out");
        assert("ease-in-out"@.len() != "ease-out"@.len());
    }
    assert("ease-in-out"@ != "easeOut"@) by {
        reveal_strlit("ease-in-out");
        reveal_strlit("easeOut");
        assert("ease-in-out"@.len() != "easeOut"@.len());
    }
    assert("easeInOut"@ != "linear"@) by {
        reveal_strlit("easeInOut");
        reveal_strlit("linear");
        assert("easeInOut"@.len() != "linear"@.len());
    }
    assert("easeInOut"@ != "ease"@) by {
        reveal_strlit("easeInOut");
        reveal_strlit("ease");
        assert("easeInOut"@.len() != "ease"@.len());
    }
    assert("easeInOut"@ != "ease-in"@) by {
        reveal_strlit("easeInOut");
        reveal_strlit("ease-in");
        assert("easeInOut"@.len() != "ease-in"@.len());
    }
    assert("easeInOut"@ != "easeIn"@) by {
        reveal_strlit("easeInOut");
        reveal_strlit("easeIn");
        assert("easeInOut"@.len() != "easeIn"@.len());
    }
    assert("easeInOut"@ != "ease-out"@) by {
        reveal_strlit("easeInOut");
        reveal_strlit("ease-out");
        assert("easeInOut"@.len() != "ease-out"@.len());
    }
    assert("easeInOut"@ != "easeOut"@) by {
        reveal_strlit("easeInOut");
        reveal_strlit("easeOut");
        assert("easeInOut"@.len() != "easeOut"@.len());
    }
    assert("easeInOut"@ != "ease-in-out"@) by {
        reveal_strlit("easeInOut");
        reveal_strlit("ease-in-out");
        assert("easeInOut"@.len() != "ease-in-out"@.len());
    }
    assert("fast-out-slow-in"@ != "linear"@) by {
        reveal_strlit("fast-out-slow-in");
        reveal_strlit("linear");
        assert("fast-out-slow-in"@.len() != "linear"@.len());
    }
    assert("fast-out-slow-in"@ != "ease"@) by {
        reveal_strlit("fast-out-slow-in");
        reveal_strlit("ease");
        assert("fast-out-slow-in"@.len() != "ease"@.len());
    }
    assert("fast-out-slow-in"@ != "ease-in"@) by {
        reveal_strlit("fast-out-slow-in");
        reveal_strlit("ease-in");
        assert("fast-out-slow-in"@.len() != "ease-in"@.len());
    }
    assert("fast-out-slow-in"@ != "easeIn"@) by {
        reveal_strlit("fast-out-slow-in");
        reveal_strlit("easeIn");
        assert("fast-out-slow-in"@.len() != "easeIn"@.len());
    }
    assert("fast-out-slow-in"@ != "ease-out"@) by {
        reveal_strlit("fast-out-slow-in");
        reveal_strlit("ease-out");
        assert("fast-out-slow-in"@.len() != "ease-out"@.len());
    }
    assert("fast-out-slow-in"@ != "easeOut"@) by {
        reveal_strlit("fast-out-slow-in");
        reveal_strlit("easeOut");
        assert("fast-out-slow-in"@.len() != "easeOut"@.len());
    }
    assert("fast-out-slow-in"@ != "ease-in-out"@) by {
        reveal_strlit("fast-out-slow-in");
        reveal_strlit("ease-in-out");
        assert("fast-out-slow-in"@.len() != "ease-in-out"@.len());
    }
    assert("fast-out-slow-in"@ != "easeInOut"@) by {
        reveal_strlit("fast-out-slow-in");
        reveal_strlit("easeInOut");
        assert("fast-out-slow-in"@.len() != "easeInOut"@.len());
    }
    assert("linear-out-slow-in"@ != "linear"@) by {
        reveal_strlit("linear-out-slow-in");
        reveal_strlit("linear");
        assert("linear-out-slow-in"@.len() != "linear"@.len());
    }
    assert("linear-out-slow-in"@ != "ease"@) by {
        reveal_strlit("linear-out-slow-in");
        reveal_strlit("ease");
        assert("linear-out-slow-in"@.len() != "ease"@.len());
    }
    assert("linear-out-slow-in"@ != "ease-in"@) by {
        reveal_strlit("linear-out-slow-in");
        reveal_strlit("ease-in");
        assert("linear-out-slow-in"@.len() != "ease-in"@.len());
    }
    assert("linear-out-slow-in"@ != "easeIn"@) by {
        reveal_strlit("linear-out-slow-in");
        reveal_strlit("easeIn");
        assert("linear-out-slow-in"@.len() != "easeIn"@.len());
    }
    assert("linear-out-slow-in"@ != "ease-out"@) by {
        reveal_strlit("linear-out-slow-in");
        reveal_strlit("ease-out");
        assert("linear-out-slow-in"@.len() != "ease-out"@.len());
    }
    assert("linear-out-slow-in"@ != "easeOut"@) by {
        reveal_strlit("linear-out-slow-in");
        reveal_strlit("easeOut");
        assert("linear-out-slow-in"@.len() != "easeOut"@.len());
    }
    assert("linear-out-slow-in"@ != "ease-in-out"@) by {
        reveal_strlit("linear-out-slow-in");
        reveal_strlit("ease-in-out");
        assert("linear-out-slow-in"@.len() != "ease-in-out"@.len());
    }
    assert("linear-out-slow-in"@ != "easeInOut"@) by {
        reveal_strlit("linear-out-slow-in");
        reveal_strlit("easeInOut");
        assert("linear-out-slow-in"@.len() != "easeInOut"@.len());
    }
    assert("linear-out-slow-in"@ != "fast-out-slow-in"@) by {
        reveal_strlit("linear-out-slow-in");
        reveal_strlit("fast-out-slow-in");
        assert("linear-out-slow-in"@.len() != "fast-out-slow-in"@.len());
    }
    assert("fast-out-linear-in"@ != "linear"@) by {
        reveal_strlit("fast-out-linear-in");
        reveal_strlit("linear");
        assert("fast-out-linear-in"@.len() != "linear"@.len());
    }
    assert("fast-out-linear-in"@ != "ease"@) by {
        reveal_strlit("fast-out-linear-in");
        reveal_strlit("ease");
        assert("fast-out-linear-in"@.len() != "ease"@.len());
    }
    assert("fast-out-linear-in"@ != "ease-in"@) by {
        reveal_strlit("fast-out-linear-in");
        reveal_strlit("ease-in");
        assert("fast-out-linear-in"@.len() != "ease-in"@.len());
    }
    assert("fast-out-linear-in"@ != "easeIn"@) by {
        reveal_strlit("fast-out-linear-in");
        reveal_strlit("easeIn");
        assert("fast-out-linear-in"@.len() != "easeIn"@.len());
    }
    assert("fast-out-linear-in"@ != "ease-out"@) by {
        reveal_strlit("fast-out-linear-in");
        reveal_strlit("ease-out");
        assert("fast-out-linear-in"@.len() != "ease-out"@.len());
    }
    assert("fast-out-linear-in"@ != "easeOut"@) by {
        reveal_strlit("fast-out-linear-in");
        reveal_strlit("easeOut");
        assert("fast-out-linear-in"@.len() != "easeOut"@.len());
    }
    assert("fast-out-linear-in"@ != "ease-in-out"@) by {
        reveal_strlit("fast-out-linear-in");
        reveal_strlit("ease-in-out");
        assert("fast-out-linear-in"@.len() != "ease-in-out"@.len());
    }
    assert("fast-out-linear-in"@ != "easeInOut"@) by {
        reveal_strlit("fast-out-linear-in");
        reveal_strlit("easeInOut");
        assert("fast-out-linear-in"@.len() != "easeInOut"@.len());
    }
    assert("fast-out-linear-in"@ != "fast-out-slow-in"@) by {
        reveal_strlit("fast-out-linear-in");
        reveal_strlit("fast-out-slow-in");
        assert("fast-out-linear-in"@.len() != "fast-out-slow-in"@.len());
    }
    assert("fast-out-linear-in"@ != "linear-out-slow-in"@) by {
        reveal_strlit("fast-out-linear-in");
        reveal_strlit("linear-out-slow-in");
        assert("fast-out-linear-in"@[0] != "linear-out-slow-in"@[0]);
    }
    assert("extreme-deceleration"@ != "linear"@) by {
        reveal_strlit("extreme-deceleration");
        reveal_strlit("linear");
        assert("extreme-deceleration"@.len() != "linear"@.len());
    }
    assert("extreme-deceleration"@ != "ease"@) by {
        reveal_strlit("extreme-deceleration");
        reveal_strlit("ease");
        assert("extreme-deceleration"@.len() != "ease"@.len());
    }
    assert("extreme-deceleration"@ != "ease-in"@) by {
        reveal_strlit("extreme-deceleration");
        reveal_strlit("ease-in");
        assert("extreme-deceleration"@.len() != "ease-in"@.len());
    }
    assert("extreme-deceleration"@ != "easeIn"@) by {
        reveal_strlit("extreme-deceleration");
        reveal_strlit("easeIn");
        assert("extreme-deceleration"@.len() != "easeIn"@.len());
    }
    assert("extreme-deceleration"@ != "ease-out"@) by {
        reveal_strlit("extreme-deceleration");
        reveal_strlit("ease-out");
        assert("extreme-deceleration"@.len() != "ease-out"@.len());
    }
    assert("extreme-deceleration"@ != "easeOut"@) by {
        reveal_strlit("extreme-deceleration");
        reveal_strlit("easeOut");
        assert("extreme-deceleration"@.len() != "easeOut"@.len());
    }
    assert("extreme-deceleration"@ != "ease-in-out"@) by {
        reveal_strlit("extreme-deceleration");
        reveal_strlit("ease-in-out");
        assert("extreme-deceleration"@.len() != "ease-in-out"@.len());
    }
    assert("extreme-deceleration"@ != "easeInOut"@) by {
        reveal_strlit("extreme-deceleration");
        reveal_strlit("easeInOut");
        assert("extreme-deceleration"@.len() != "easeInOut"@.len());
    }
    assert("extreme-deceleration"@ != "fast-out-slow-in"@) by {
        reveal_strlit("extreme-deceleration");
        reveal_strlit("fast-out-slow-in");
        assert("extreme-deceleration"@.len() != "fast-out-slow-in"@.len());
    }
    assert("extreme-deceleration"@ != "linear-out-slow-in"@) by {
        reveal_strlit("extreme-deceleration");
        reveal_strlit("linear-out-slow-in");
        assert("extreme-deceleration"@.len() != "linear-out-slow-in"@.len());
    }
    assert("extreme-deceleration"@ != "fast-out-linear-in"@) by {
        reveal_strlit("extreme-deceleration");
        reveal_strlit("fast-out-linear-in");
        assert("extreme-deceleration"@.len() != "fast-out-linear-in"@.len());
    }
    assert("sharp"@ != "linear"@) by {
        reveal_strlit("sharp");
        reveal_strlit("linear");
        assert("sharp"@.len() != "linear"@.len());
    }
    assert("sharp"@ != "ease"@) by {
        reveal_strlit("sharp");
        reveal_strlit("ease");
        assert("sharp"@.len() != "ease"@.len());
    }
    assert("sharp"@ != "ease-in"@) by {
        reveal_strlit("sharp");
        reveal_strlit("ease-in");
        assert("sharp"@.len() != "ease-in"@.len());
    }
    assert("sharp"@ != "easeIn"@) by {
        reveal_strlit("sharp");
        reveal_strlit("easeIn");
        assert("sharp"@.len() != "easeIn"@.len());
    }
    assert("sharp"@ != "ease-out"@) by {
        reveal_strlit("sharp");
        reveal_strlit("ease-out");
        assert("sharp"@.len() != "ease-out"@.len());
    }
    assert("sharp"@ != "easeOut"@) by {
        reveal_strlit("sharp");
        reveal_strlit("easeOut");
        assert("sharp"@.len() != "easeOut"@.len());
    }
    assert("sharp"@ != "ease-in-out"@) by {
        reveal_strlit("sharp");
        reveal_strlit("ease-in-out");
        assert("sharp"@.len() != "ease-in-out"@.len());
    }
    assert("sharp"@ != "easeInOut"@) by {
        reveal_strlit("sharp");
        reveal_strlit("easeInOut");
        assert("sharp"@.len() != "easeInOut"@.len());
    }
    assert("sharp"@ != "fast-out-slow-in"@) by {
        reveal_strlit("sharp");
        reveal_strlit("fast-out-slow-in");
        assert("sharp"@.len() != "fast-out-slow-in"@.len());
    }
    assert("sharp"@ != "linear-out-slow-in"@) by {
        reveal_strlit("sharp");
        reveal_strlit("linear-out-slow-in");
        assert("sharp"@.len() != "linear-out-slow-in"@.len());
    }
    assert("sharp"@ != "fast-out-linear-in"@) by {
        reveal_strlit("sharp");
        reveal_strlit("fast-out-linear-in");
        assert("sharp"@.len() != "fast-out-linear-in"@.len());
    }
    assert("sharp"@ != "extreme-deceleration"@) by {
        reveal_strlit("sharp");
        reveal_strlit("extreme-deceleration");
        assert("sharp"@.len() != "extreme-deceleration"@.len());
    }
    assert("rhythm"@ != "linear"@) by {
        reveal_strlit("rhythm");
        reveal_strlit("linear");
        assert("rhythm"@[0] != "linear"@[0]);
    }
    assert("rhythm"@ != "ease"@) by {
        reveal_strlit("rhythm");
        reveal_strlit("ease");
        assert("rhythm"@.len() != "ease"@.len());
    }
    assert("rhythm"@ != "ease-in"@) by {
        reveal_strlit("rhythm");
        reveal_strlit("ease-in");
        assert("rhythm"@.len() != "ease-in"@.len());
    }
    assert("rhythm"@ != "easeIn"@) by {
        reveal_strlit("rhythm");
        reveal_strlit("easeIn");
        assert("rhythm"@[0] != "easeIn"@[0]);
    }
    assert("rhythm"@ != "ease-out"@) by {
        reveal_strlit("rhythm");
        reveal_strlit("ease-out");
        assert("rhythm"@.len() != "ease-out"@.len());
    }
    assert("rhythm"@ != "easeOut"@) by {
        reveal_strlit("rhythm");
        reveal_strlit("easeOut");
        assert("rhythm"@.len() != "easeOut"@.len());
    }
    assert("rhythm"@ != "ease-in-out"@) by {
        reveal_strlit("rhythm");
        reveal_strlit("ease-in-out");
        assert("rhythm"@.len() != "ease-in-out"@.len());
    }
    assert("rhythm"@ != "easeInOut"@) by {
        reveal_strlit("rhythm");
        reveal_strlit("easeInOut");
        assert("rhythm"@.len() != "easeInOut"@.len());
    }
    assert("rhythm"@ != "fast-out-slow-in"@) by {
        reveal_strlit("rhythm");
        reveal_strlit("fast-out-slow-in");
        assert("rhythm"@.len() != "fast-out-slow-in"@.len());
    }
    assert("rhythm"@ != "linear-out-slow-in"@) by {
        reveal_strlit("rhythm");
        reveal_strlit("linear-out-slow-in");
        assert("rhythm"@.len() != "linear-out-slow-in"@.len());
    }
    assert("rhythm"@ != "fast-out-linear-in"@) by {
        reveal_strlit("rhythm");
        reveal_strlit("fast-out-linear-in");
        assert("rhythm"@.len() != "fast-out-linear-in"@.len());
    }
    assert("rhythm"@ != "extreme-deceleration"@) by {
        reveal_strlit("rhythm");
        reveal_strlit("extreme-deceleration");
        assert("rhythm"@.len() != "extreme-deceleration"@.len());
    }
    assert("rhythm"@ != "sharp"@) by {
        reveal_strlit("rhythm");
        reveal_strlit("sharp");
        assert("rhythm"@.len() != "sharp"@.len());
    }
    assert("smooth"@ != "linear"@) by {
        reveal_strlit("smooth");
        reveal_strlit("linear");
        assert("smooth"@[0] != "linear"@[0]);
    }
    assert("smooth"@ != "ease"@) by {
        reveal_strlit("smooth");
        reveal_strlit("ease");
        assert("smooth"@.len() != "ease"@.len());
    }
    assert("smooth"@ != "ease-in"@) by {
        reveal_strlit("smooth");
        reveal_strlit("ease-in");
        assert("smooth"@.len() != "ease-in"@.len());
    }
    assert("smooth"@ != "easeIn"@) by {
        reveal_strlit("smooth");
        reveal_strlit("easeIn");
        assert("smooth"@[0] != "easeIn"@[0]);
    }
    assert("smooth"@ != "ease-out"@) by {
        reveal_strlit("smooth");
        reveal_strlit("ease-out");
        assert("smooth"@.len() != "ease-out"@.len());
    }
    assert("smooth"@ != "easeOut"@) by {
        reveal_strlit("smooth");
        reveal_strlit("easeOut");
        assert("smooth"@.len() != "easeOut"@.len());
    }
    assert("smooth"@ != "ease-in-out"@) by {
        reveal_strlit("smooth");
        reveal_strlit("ease-in-out");
        assert("smooth"@.len() != "ease-in-out"@.len());
    }
    assert("smooth"@ != "easeInOut"@) by {
        reveal_strlit("smooth");
        reveal_strlit("easeInOut");
        assert("smooth"@.len() != "easeInOut"@.len());
    }
    assert("smooth"@ != "fast-out-slow-in"@) by {
        reveal_strlit("smooth");
        reveal_strlit("fast-out-slow-in");
        assert("smooth"@.len() != "fast-out-slow-in"@.len());
    }
    assert("smooth"@ != "linear-out-slow-in"@) by {
        reveal_strlit("smooth");
        reveal_strlit("linear-out-slow-in");
        assert("smooth"@.len() != "linear-out-slow-in"@.len());
    }
    assert("smooth"@ != "fast-out-linear-in"@) by {
        reveal_strlit("smooth");
        reveal_strlit("fast-out-linear-in");
        assert("smooth"@.len() != "fast-out-linear-in"@.len());
    }
    assert("smooth"@ != "extreme-deceleration"@) by {
        reveal_strlit("smooth");
        reveal_strlit("extreme-deceleration");
        assert("smooth"@.len() != "extreme-deceleration"@.len());
    }
    assert("smooth"@ != "sharp"@) by {
        reveal_strlit("smooth");
        reveal_strlit("sharp");
        assert("smooth"@.len() != "sharp"@.len());
    }
    assert("smooth"@ != "rhythm"@) by {
        reveal_strlit("smooth");
        reveal_strlit("rhythm");
        assert("smooth"@[0] != "rhythm"@[0]);
    }
    assert("friction"@ != "linear"@) by {
        reveal_strlit("friction");
        reveal_strlit("linear");
        assert("friction"@.len() != "linear"@.len());
    }
    assert("friction"@ != "ease"@) by {
        reveal_strlit("friction");
        reveal_strlit("ease");
        assert("friction"@.len() != "ease"@.len());
    }
    assert("friction"@ != "ease-in"@) by {
        reveal_strlit("friction");
        reveal_strlit("ease-in");
        assert("friction"@.len() != "ease-in"@.len());
    }
    assert("friction"@ != "easeIn"@) by {
        reveal_strlit("friction");
        reveal_strlit("easeIn");
        assert("friction"@.len() != "easeIn"@.len());
    }
    assert("friction"@ != "ease-out"@) by {
        reveal_strlit("friction");
        reveal_strlit("ease-out");
        assert("friction"@[0] != "ease-out"@[0]);
    }
    assert("friction"@ != "easeOut"@) by {
        reveal_strlit("friction");
        reveal_strlit("easeOut");
        assert("friction"@.len() != "easeOut"@.len());
    }
    assert("friction"@ != "ease-in-out"@) by {
        reveal_strlit("friction");
        reveal_strlit("ease-in-out");
        assert("friction"@.len() != "ease-in-out"@.len());
    }
    assert("friction"@ != "easeInOut"@) by {
        reveal_strlit("friction");
        reveal_strlit("easeInOut");
        assert("friction"@.len() != "easeInOut"@.len());
    }
    assert("friction"@ != "fast-out-slow-in"@) by {
        reveal_strlit("friction");
        reveal_strlit("fast-out-slow-in");
        assert("friction"@.len() != "fast-out-slow-in"@.len());
    }
    assert("friction"@ != "linear-out-slow-in"@) by {
        reveal_strlit("friction");
        reveal_strlit("linear-out-slow-in");
        assert("friction"@.len() != "linear-out-slow-in"@.len());
    }
    assert("friction"@ != "fast-out-linear-in"@) by {
        reveal_strlit("friction");
        reveal_strlit("fast-out-linear-in");
        assert("friction"@.len() != "fast-out-linear-in"@.len());
    }
    assert("friction"@ != "extreme-deceleration"@) by {
        reveal_strlit("friction");
        reveal_strlit("extreme-deceleration");
        assert("friction"@.len() != "extreme-deceleration"@.len());
    }
    assert("friction"@ != "sharp"@) by {
        reveal_strlit("friction");
        reveal_strlit("sharp");
        assert("friction"@.len() != "sharp"@.len());
    }
    assert("friction"@ != "rhythm"@) by {
        reveal_strlit("friction");
        reveal_strlit("rhythm");
        assert("friction"@.len() != "rhythm"@.len());
    }
    assert("friction"@ != "smooth"@) by {
        reveal_strlit("friction");
        reveal_strlit("smooth");
        assert("friction"@.len() != "smooth"@.len());
    }
}

/// The timing functions: each has the member of its own name, in CSS spelling or in
/// camel case; one that is not known is an ease.
#[verifier::rlimit(40)]
pub proof fn law_curves(s: Seq<char>)
    ensures
        curve_value("linear"@) == "Curve."@ + "Linear"@,
        curve_value("ease"@) == "Curve."@ + "Ease"@,
        curve_value("ease-in"@) == "Curve."@ + "EaseIn"@,
        curve_value("easeIn"@) == "Curve."@ + "EaseIn"@,
        curve_value("ease-out"@) == "Curve."@ + "EaseOut"@,
        curve_value("easeOut"@) == "Curve."@ + "EaseOut"@,
        curve_value("ease-in-out"@) == "Curve."@ + "EaseInOut"@,
        curve_value("easeInOut"@) == "Curve."@ + "EaseInOut"@,
        curve_value("fast-out-slow-in"@) == "Curve."@ + "FastOutSlowIn"@,
        curve_value("linear-out-slow-in"@) == "Curve."@ + "LinearOutSlowIn"@,
        curve_value("fast-out-linear-in"@) == "Curve."@ + "FastOutLinearIn"@,
        curve_value("extreme-deceleration"@) == "Curve."@ + "ExtremeDeceleration"@,
        curve_value("sharp"@) == "Curve."@ + "Sharp"@,
        curve_value("rhythm"@) == "Curve."@ + "Rhythm"@,
        curve_value("smooth"@) == "Curve."@ + "Smooth"@,
        curve_value("friction"@) == "Curve."@ + "Friction"@,
        curve_value(s) != "Curve."@ + "Ease"@ ==> s == "linear"@ || s == "ease-in"@ || s == "easeIn"@ || s == "ease-out"@ || s == "easeOut"@ || s == "ease-in-out"@ || s == "easeInOut"@ || s == "fast-out-slow-in"@ || s == "linear-out-slow-in"@ || s == "fast-out-linear-in"@ || s == "extreme-deceleration"@ || s == "sharp"@ || s == "rhythm"@ || s == "smooth"@ || s == "friction"@,
{
    lemma_curve_names();
}

} // verus!
