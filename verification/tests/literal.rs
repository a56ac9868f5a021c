use perry_passes::arkts::literal::{arkts_curve_value, arkts_string_lit, sanitize_text_id};

#[test]
fn string_literal_escaping() {
    assert_eq!(arkts_string_lit("hi"), "'hi'");
    assert_eq!(arkts_string_lit("he's there"), "'he\\'s there'");
    assert_eq!(arkts_string_lit("a\\b"), "'a\\\\b'");
    assert_eq!(arkts_string_lit("line1\nline2"), "'line1\\nline2'");
}

#[test]
fn string_literal_keeps_other_characters() {
    assert_eq!(arkts_string_lit(""), "''");
    assert_eq!(arkts_string_lit("a\tb\rc"), "'a\\tb\\rc'");
    assert_eq!(arkts_string_lit("\"é\u{1F600}\""), "'\"é\u{1F600}\"'");
}

#[test]
fn ids_become_names() {
    assert_eq!(sanitize_text_id("user-name"), "user_name");
    assert_eq!(sanitize_text_id("1st"), "x1st");
    assert_eq!(sanitize_text_id(""), "default");
    assert_eq!(sanitize_text_id("é-ö"), "___");
    assert_eq!(sanitize_text_id("already_Fine9"), "already_Fine9");
    assert_eq!(sanitize_text_id(&sanitize_text_id("9 lives")), sanitize_text_id("9 lives"));
}

#[test]
fn curves() {
    assert_eq!(arkts_curve_value("linear"), "Curve.Linear");
    assert_eq!(arkts_curve_value("ease"), "Curve.Ease");
    assert_eq!(arkts_curve_value("ease-in"), "Curve.EaseIn");
    assert_eq!(arkts_curve_value("easeIn"), "Curve.EaseIn");
    assert_eq!(arkts_curve_value("ease-out"), "Curve.EaseOut");
    assert_eq!(arkts_curve_value("easeOut"), "Curve.EaseOut");
    assert_eq!(arkts_curve_value("ease-in-out"), "Curve.EaseInOut");
    assert_eq!(arkts_curve_value("easeInOut"), "Curve.EaseInOut");
    assert_eq!(arkts_curve_value("fast-out-slow-in"), "Curve.FastOutSlowIn");
    assert_eq!(arkts_curve_value("linear-out-slow-in"), "Curve.LinearOutSlowIn");
    assert_eq!(arkts_curve_value("fast-out-linear-in"), "Curve.FastOutLinearIn");
    assert_eq!(arkts_curve_value("extreme-deceleration"), "Curve.ExtremeDeceleration");
    assert_eq!(arkts_curve_value("sharp"), "Curve.Sharp");
    assert_eq!(arkts_curve_value("rhythm"), "Curve.Rhythm");
    assert_eq!(arkts_curve_value("smooth"), "Curve.Smooth");
    assert_eq!(arkts_curve_value("friction"), "Curve.Friction");
    assert_eq!(arkts_curve_value("bouncy"), "Curve.Ease");
}
