//! Literal values in ArkTS source, and the shapes that arguments are given in.

use crate::arkts::literal::{arkts_string_lit, string_lit};
use crate::copy::copy_fields;
use crate::hir::{Class, ClassField, Expr, LocalId, Num};
use crate::model::{
    class_fields_view, classes_view, exprs_view, fields_view, ClassView, ExprView, FieldView,
    NumView,
};
use crate::num::{
    channel, channel_of, channel_of_integer, fmt_integer, fmt_num, integer_channel, integer_text,
    number_text,
};
use crate::rewrite::exprs_map;
use crate::text::{
    begins_with, dec_int, dec_signed, join, join_strings, str_eq, strings_view, strip_prefix,
};
use std::collections::HashMap;
use crate::walk::children;
use vstd::prelude::*;

verus! {

broadcast use vstd::std_specs::hash::group_hash_axioms;

// ---------------------------------------------------------------------------
// Numbers
// ---------------------------------------------------------------------------

/// A number that an expression gives, in one of its two forms.
pub enum NumericView {
    Float(NumView),
    Whole(i64),
}

/// The number that the expression is, if it is one. A text that reads as a number
/// is none.
pub open spec fn numeric(e: ExprView) -> Option<NumericView> {
    match e {
        ExprView::Number(n) => Some(NumericView::Float(n)),
        ExprView::Integer(n) => Some(NumericView::Whole(n)),
        _ => None,
    }
}

/// The source text of a number.
pub open spec fn numeric_text(n: NumericView) -> Seq<char> {
    match n {
        NumericView::Float(x) => number_text(x),
        NumericView::Whole(x) => integer_text(x as int),
    }
}

/// The number as a color channel.
pub open spec fn numeric_channel(n: NumericView) -> int {
    match n {
        NumericView::Float(x) => channel(x.bits),
        NumericView::Whole(x) => integer_channel(x as int),
    }
}

/// The source text of the number that the expression is, or the other text.
pub open spec fn numeric_or(e: Option<ExprView>, other: Seq<char>) -> Seq<char> {
    match e {
        Some(x) => match numeric(x) {
            Some(n) => numeric_text(n),
            None => other,
        },
        None => other,
    }
}

/// The expression at a position, if there is one.
pub open spec fn at(args: Seq<ExprView>, i: int) -> Option<ExprView> {
    if 0 <= i < args.len() {
        Some(args[i])
    } else {
        None
    }
}

/// The text of the expression, if it is a string literal.
pub open spec fn string_of(e: Option<ExprView>) -> Option<Seq<char>> {
    match e {
        Some(ExprView::String(s)) => Some(s),
        _ => None,
    }
}

/// The items of the expression, if it is an array literal.
pub open spec fn items_of(e: Option<ExprView>) -> Option<Seq<ExprView>> {
    match e {
        Some(ExprView::Array(items)) => Some(items),
        _ => None,
    }
}

// ---------------------------------------------------------------------------
// Literals
// ---------------------------------------------------------------------------

/// A literal inside an array literal; what is no literal becomes `null`.
pub open spec fn value_literal(e: ExprView) -> Seq<char> {
    match e {
        ExprView::String(s) => string_lit(s),
        ExprView::Number(n) => number_text(n),
        ExprView::Integer(n) => dec_int(n as int),
        ExprView::Bool(b) => if b {
            "true"@
        } else {
            "false"@
        },
        _ => "null"@,
    }
}

/// An array literal.
pub open spec fn array_literal(items: Seq<ExprView>) -> Seq<char> {
    "["@ + join(items.map_values(|e: ExprView| value_literal(e)), ", "@) + "]"@
}

/// The array that a loop runs over: a literal, or the literal that a variable is
/// bound to. Anything else gives an empty array with a note.
pub open spec fn array_source(e: ExprView, bindings: Map<LocalId, ExprView>) -> Seq<char> {
    match e {
        ExprView::Array(items) => array_literal(items),
        ExprView::LocalGet(id) => match bound_items(id, bindings) {
            Some(items) => array_literal(items),
            None => "[/* unresolved ForEach source — needs Phase 2 v6 state binding */]"@,
        },
        _ => "[/* unsupported ForEach source */]"@,
    }
}

/// The items of the array literal that the variable is bound to.
pub open spec fn bound_items(id: LocalId, bindings: Map<LocalId, ExprView>) -> Option<
    Seq<ExprView>,
> {
    if bindings.contains_key(id) {
        items_of(Some(bindings[id]))
    } else {
        None
    }
}

// ---------------------------------------------------------------------------
// Objects
// ---------------------------------------------------------------------------

/// The value of the first property of the name.
pub open spec fn find_prop(props: Seq<(Seq<char>, ExprView)>, name: Seq<char>) -> Option<ExprView>
    decreases props.len(),
{
    if props.len() == 0 {
        None
    } else if props[0].0 == name {
        Some(props[0].1)
    } else {
        find_prop(props.skip(1), name)
    }
}

/// The first class of the name.
pub open spec fn find_class(classes: Seq<ClassView>, name: Seq<char>) -> Option<ClassView>
    decreases classes.len(),
{
    if classes.len() == 0 {
        None
    } else if classes[0].name == name {
        Some(classes[0])
    } else {
        find_class(classes.skip(1), name)
    }
}

/// The fields of the class with the arguments at their positions, as far as there
/// are arguments.
pub open spec fn field_pairs(fields: Seq<FieldView>, args: Seq<ExprView>) -> Seq<
    (Seq<char>, ExprView),
> {
    Seq::new(
        if fields.len() < args.len() {
            fields.len()
        } else {
            args.len()
        },
        |i: int| (fields[i].name, args[i]),
    )
}

/// The properties of an object literal. Literals of a closed shape are made by a
/// class of their own, whose fields give the names.
pub open spec fn object_props(e: ExprView, classes: Seq<ClassView>) -> Option<
    Seq<(Seq<char>, ExprView)>,
> {
    match e {
        ExprView::Object(props) => Some(props),
        ExprView::New { class_name, args } => if begins_with(class_name, "__AnonShape_"@) {
            match find_class(classes, class_name) {
                Some(c) => Some(field_pairs(c.fields, args)),
                None => None,
            }
        } else {
            None
        },
        _ => None,
    }
}

// ---------------------------------------------------------------------------
// Execution
// ---------------------------------------------------------------------------

/// A number that an expression gives.
#[derive(Clone, Copy)]
pub enum Numeric<'a> {
    Float(&'a Num),
    Whole(i64),
}

impl<'a> Numeric<'a> {
    pub open spec fn view(self) -> NumericView {
        match self {
            Numeric::Float(n) => NumericView::Float(n@),
            Numeric::Whole(n) => NumericView::Whole(n),
        }
    }

    /// The number as source text.
    pub fn text(self) -> (r: String)
        ensures
            r@ == numeric_text(self@),
    {
        match self {
            Numeric::Float(n) => fmt_num(n),
            Numeric::Whole(n) => fmt_integer(n),
        }
    }

    /// The number as a color channel.
    pub fn as_channel(self) -> (r: i64)
        ensures
            r == numeric_channel(self@),
    {
        match self {
            Numeric::Float(n) => channel_of(n.bits),
            Numeric::Whole(n) => channel_of_integer(n),
        }
    }
}

pub open spec fn opt_numeric_view(o: Option<Numeric>) -> Option<NumericView> {
    match o {
        Some(n) => Some(n.view()),
        None => None,
    }
}

/// The number that the expression is; none for anything else, texts that read as
/// numbers included.
pub fn numeric_expr(e: &Expr) -> (r: Option<Numeric<'_>>)
    ensures
        opt_numeric_view(r) == numeric(e@),
{
    match e {
        Expr::Number(n) => Some(Numeric::Float(n)),
        Expr::Integer(n) => Some(Numeric::Whole(*n)),
        _ => None,
    }
}

/// The model of an optional expression.
pub open spec fn opt_ref_view(o: Option<&Expr>) -> Option<ExprView> {
    match o {
        Some(e) => Some(e.view()),
        None => None,
    }
}

/// The argument at a position.
pub fn arg_at(args: &Vec<Expr>, i: usize) -> (r: Option<&Expr>)
    ensures
        opt_ref_view(r) == at(exprs_view(args@), i as int),
        r matches Some(e) ==> decreases_to!(*args => *e),
{
    if i < args.len() {
        assert(exprs_view(args@)[i as int] == args@[i as int].view());
        Some(&args[i])
    } else {
        None
    }
}

/// The source text of the number at a position, or the other text.
pub fn numeric_arg_or(args: &Vec<Expr>, i: usize, other: &str) -> (r: String)
    ensures
        r@ == numeric_or(at(exprs_view(args@), i as int), other@),
{
    match arg_at(args, i) {
        Some(e) => match numeric_expr(e) {
            Some(n) => n.text(),
            None => other.to_string(),
        },
        None => other.to_string(),
    }
}

/// The text of the string literal at the front of the arguments.
pub fn first_string_arg(args: &Vec<Expr>) -> (r: Option<&String>)
    ensures
        (match r {
            Some(s) => Some(s@),
            None => None,
        }) == string_of(at(exprs_view(args@), 0)),
{
    match arg_at(args, 0) {
        Some(e) => literal_text(e),
        None => None,
    }
}

/// The text of the expression, if it is a string literal.
pub fn literal_text(e: &Expr) -> (r: Option<&String>)
    ensures
        (match r {
            Some(s) => Some(s@),
            None => None,
        }) == string_of(Some(e@)),
{
    match e {
        Expr::String(s) => Some(s),
        _ => None,
    }
}

/// Serializes a literal for an array literal.
pub fn arkts_value_literal(e: &Expr) -> (r: String)
    ensures
        r@ == value_literal(e@),
{
    match e {
        Expr::String(s) => arkts_string_lit(s),
        Expr::Number(n) => fmt_num(n),
        Expr::Integer(n) => dec_signed(*n),
        Expr::Bool(b) => if *b {
            "true".to_string()
        } else {
            "false".to_string()
        },
        _ => "null".to_string(),
    }
}

fn write_array(items: &Vec<Expr>) -> (r: String)
    ensures
        r@ == array_literal(exprs_view(items@)),
{
    let ghost all = exprs_view(items@);
    let mut parts: Vec<String> = Vec::new();
    let mut i: usize = 0;
    while i < items.len()
        invariant
            i <= items@.len(),
            all == exprs_view(items@),
            parts@.len() == i,
            forall|j: int| 0 <= j < i ==> (#[trigger] parts@[j])@ == value_literal(all[j]),
        decreases items@.len() - i,
    {
        assert(all[i as int] == items@[i as int].view());
        parts.push(arkts_value_literal(&items[i]));
        i += 1;
    }
    assert(strings_view(parts@) =~= all.map_values(|e: ExprView| value_literal(e)));
    let mut out: String = "[".to_string();
    out.append(&join_strings(&parts, ", "));
    out.append("]");
    out
}

fn find_bound_items<'a>(id: LocalId, bindings: &'a HashMap<LocalId, Expr>) -> (r: Option<
    &'a Vec<Expr>,
>)
    ensures
        (match r {
            Some(v) => Some(exprs_view(v@)),
            None => None,
        }) == bound_items(id, exprs_map(bindings@)),
{
    match bindings.get(&id) {
        Some(Expr::Array(items)) => Some(items),
        _ => None,
    }
}

/// The source text of the array that a loop runs over.
pub fn arkts_array_source(e: &Expr, bindings: &HashMap<LocalId, Expr>) -> (r: String)
    ensures
        r@ == array_source(e@, exprs_map(bindings@)),
{
    match e {
        Expr::Array(items) => write_array(items),
        Expr::LocalGet(id) => match find_bound_items(*id, bindings) {
            Some(items) => write_array(items),
            None => "[/* unresolved ForEach source — needs Phase 2 v6 state binding */]".to_string(),
        },
        _ => "[/* unsupported ForEach source */]".to_string(),
    }
}

/// The value of the first property of the name.
pub fn prop_of<'a>(props: &'a Vec<(String, Expr)>, name: &str) -> (r: Option<&'a Expr>)
    ensures
        opt_ref_view(r) == find_prop(fields_view(props@), name@),
        r matches Some(e) ==> decreases_to!(*props => *e),
{
    let ghost all = fields_view(props@);
    let mut i: usize = 0;
    assert(all.skip(0) =~= all);
    while i < props.len()
        invariant
            i <= props@.len(),
            all == fields_view(props@),
            all.len() == props@.len(),
            find_prop(all, name@) == find_prop(all.skip(i as int), name@),
        decreases props@.len() - i,
    {
        assert(all.skip(i as int)[0] == (props@[i as int].0@, props@[i as int].1.view()));
        assert(all.skip(i as int).skip(1) =~= all.skip(i + 1));
        if str_eq(&props[i].0, name) {
            let r: &Expr = &props[i].1;
            return Some(r);
        }
        i += 1;
    }
    None
}

fn lookup_class<'a>(classes: &'a Vec<Class>, name: &String) -> (r: Option<&'a Class>)
    ensures
        (match r {
            Some(c) => Some(c@),
            None => None,
        }) == find_class(classes_view(classes@), name@),
{
    let ghost all = classes_view(classes@);
    let mut i: usize = 0;
    assert(all.skip(0) =~= all);
    while i < classes.len()
        invariant
            i <= classes@.len(),
            all == classes_view(classes@),
            find_class(all, name@) == find_class(all.skip(i as int), name@),
        decreases classes@.len() - i,
    {
        assert(all.skip(i as int)[0] == classes@[i as int].view());
        assert(all.skip(i as int).skip(1) =~= all.skip(i + 1));
        if str_eq(&classes[i].name, name) {
            return Some(&classes[i]);
        }
        i += 1;
    }
    None
}

fn pair_fields(fields: &Vec<ClassField>, args: &Vec<Expr>) -> (r: Vec<(String, Expr)>)
    ensures
        fields_view(r@) == field_pairs(class_fields_view(fields@), exprs_view(args@)),
{
    let ghost fs = class_fields_view(fields@);
    let ghost xs = exprs_view(args@);
    let mut out: Vec<(String, Expr)> = Vec::new();
    let mut i: usize = 0;
    while i < fields.len() && i < args.len()
        invariant
            i <= fields@.len(),
            i <= args@.len(),
            fs == class_fields_view(fields@),
            xs == exprs_view(args@),
            xs.len() == args@.len(),
            out@.len() == i,
            forall|j: int|
                0 <= j < i ==> (#[trigger] out@[j]).0@ == fs[j].name && out@[j].1.view() == xs[j],
        decreases fields@.len() - i,
    {
        assert(xs[i as int] == args@[i as int].view());
        out.push((fields[i].name.clone(), args[i].clone()));
        i += 1;
    }
    assert(fields_view(out@) =~= field_pairs(fs, xs));
    out
}

/// Extracts the properties of an object literal, in either of its shapes.
pub fn extract_style_object(e: &Expr, classes: &Vec<Class>) -> (r: Option<Vec<(String, Expr)>>)
    ensures
        (match r {
            Some(p) => Some(fields_view(p@)),
            None => None,
        }) == object_props(e@, classes_view(classes@)),
{
    match e {
        Expr::Object(props) => Some(copy_fields(props)),
        Expr::New { class_name, args } => {
            if strip_prefix(class_name, "__AnonShape_").is_none() {
                return None;
            }
            match lookup_class(classes, class_name) {
                Some(c) => Some(pair_fields(&c.fields, args)),
                None => None,
            }
        },
        _ => None,
    }
}

/// The value of a property of an object literal, in either of its shapes.
pub open spec fn prop_in(e: ExprView, classes: Seq<ClassView>, name: Seq<char>) -> Option<
    ExprView,
> {
    match object_props(e, classes) {
        Some(props) => find_prop(props, name),
        None => None,
    }
}

pub proof fn lemma_find_prop(props: Seq<(Seq<char>, ExprView)>, name: Seq<char>)
    ensures
        find_prop(props, name) matches Some(v) ==> exists|i: int|
            0 <= i < props.len() && (#[trigger] props[i]).1 == v,
    decreases props.len(),
{
    if props.len() > 0 && props[0].0 != name {
        lemma_find_prop(props.skip(1), name);
        if find_prop(props, name) is Some {
            let v = find_prop(props, name)->0;
            let i = choose|i: int| 0 <= i < props.skip(1).len() && (#[trigger] props.skip(1)[i]).1 == v;
            assert(props[i + 1].1 == v);
        }
    }
}

/// A property of an object literal is smaller than the literal.
pub proof fn lemma_prop_smaller(e: ExprView, classes: Seq<ClassView>, name: Seq<char>)
    ensures
        prop_in(e, classes, name) matches Some(v) ==> decreases_to!(e => v) && exists|i: int|
            0 <= i < children(e).len() && #[trigger] children(e)[i] == v,
{
    if prop_in(e, classes, name) is Some {
        let v = prop_in(e, classes, name)->0;
        let props = object_props(e, classes)->0;
        lemma_find_prop(props, name);
        let i = choose|i: int| 0 <= i < props.len() && (#[trigger] props[i]).1 == v;
        assert(children(e)[i] == v);
        match e {
            ExprView::Object(p) => {
                assert(decreases_to!(e => p));
                assert(decreases_to!(p => p[i]));
                assert(decreases_to!(p[i] => p[i].1));
            },
            ExprView::New { class_name, args } => {
                assert(v == args[i]);
                assert(decreases_to!(args => args[i]));
            },
            _ => {},
        }
    }
}

fn field_value<'a>(fields: &Vec<ClassField>, args: &'a Vec<Expr>, name: &str) -> (r: Option<&'a Expr>)
    ensures
        opt_ref_view(r) == find_prop(
            field_pairs(class_fields_view(fields@), exprs_view(args@)),
            name@,
        ),
        r matches Some(e) ==> decreases_to!(*args => *e),
{
    let ghost fs = class_fields_view(fields@);
    let ghost xs = exprs_view(args@);
    let ghost all = field_pairs(fs, xs);
    let mut i: usize = 0;
    assert(all.skip(0) =~= all);
    while i < fields.len() && i < args.len()
        invariant
            i <= fields@.len(),
            i <= args@.len(),
            fs == class_fields_view(fields@),
            xs == exprs_view(args@),
            xs.len() == args@.len(),
            all == field_pairs(fs, xs),
            find_prop(all, name@) == find_prop(all.skip(i as int), name@),
        decreases fields@.len() - i,
    {
        assert(xs[i as int] == args@[i as int].view());
        assert(all.skip(i as int)[0] == all[i as int]);
        assert(all.skip(i as int).skip(1) =~= all.skip(i + 1));
        if str_eq(&fields[i].name, name) {
            return Some(&args[i]);
        }
        i += 1;
    }
    assert(all.skip(i as int).len() == 0);
    None
}

/// Looks up a property of an object literal, in either of its shapes.
pub fn object_prop<'a>(e: &'a Expr, classes: &Vec<Class>, name: &str) -> (r: Option<&'a Expr>)
    ensures
        opt_ref_view(r) == prop_in(e@, classes_view(classes@), name@),
        r matches Some(x) ==> decreases_to!(*e => *x),
{
    match e {
        Expr::Object(props) => prop_of(props, name),
        Expr::New { class_name, args } => {
            if strip_prefix(class_name, "__AnonShape_").is_none() {
                return None;
            }
            match lookup_class(classes, class_name) {
                Some(c) => field_value(&c.fields, args, name),
                None => None,
            }
        },
        _ => None,
    }
}

/// Whether the expression is an object literal, in either of its shapes.
pub fn is_object(e: &Expr, classes: &Vec<Class>) -> (r: bool)
    ensures
        r == (object_props(e@, classes_view(classes@)) is Some),
{
    match e {
        Expr::Object(_) => true,
        Expr::New { class_name, .. } => strip_prefix(class_name, "__AnonShape_").is_some()
            && lookup_class(classes, class_name).is_some(),
        _ => false,
    }
}

} // verus!
