//! What is read out of arguments and object literals, and how literals are written.

use crate::arkts::value::{
    array_literal, array_source, at, field_pairs, find_class, find_prop, numeric, numeric_channel,
    numeric_or, numeric_text, object_props, prop_in, value_literal,
};
use crate::arkts::literal::string_lit;
use crate::hir::LocalId;
use crate::model::{ClassView, ExprView, FieldView};
use crate::num::{channel, integer_channel, integer_text, number_text};
use crate::text::{dec_int, join};
use vstd::prelude::*;

verus! {

// ---------------------------------------------------------------------------
// Objects
// ---------------------------------------------------------------------------

/// Whether the property at the index is the first of the name.
pub open spec fn first_of(props: Seq<(Seq<char>, ExprView)>, name: Seq<char>, i: int) -> bool {
    &&& 0 <= i < props.len()
    &&& props[i].0 == name
    &&& forall|j: int| 0 <= j < i ==> (#[trigger] props[j]).0 != name
}

/// The value that is found for a name is that of the first property of the name; none
/// is found exactly where no property has the name.
pub proof fn law_find_prop(props: Seq<(Seq<char>, ExprView)>, name: Seq<char>)
    ensures
        match find_prop(props, name) {
            Some(v) => exists|i: int| #[trigger] first_of(props, name, i) && props[i].1 == v,
            None => forall|i: int| 0 <= i < props.len() ==> (#[trigger] props[i]).0 != name,
        },
    decreases props.len(),
{
    if props.len() > 0 {
        if props[0].0 == name {
            assert(first_of(props, name, 0));
        } else {
            let rest = props.skip(1);
            assert forall|j: int| 0 <= j < rest.len() implies #[trigger] rest[j]
                == props[j + 1] by {}
            law_find_prop(rest, name);
            match find_prop(rest, name) {
                Some(v) => {
                    let i = choose|i: int| #[trigger] first_of(rest, name, i) && rest[i].1 == v;
                    assert(first_of(props, name, i + 1)) by {
                        assert forall|j: int| 0 <= j < i + 1 implies (#[trigger] props[j]).0
                            != name by {
                            if j > 0 {
                                assert(rest[j - 1].0 != name);
                            }
                        }
                    }
                },
                None => {
                    assert forall|i: int| 0 <= i < props.len() implies (#[trigger] props[i]).0
                        != name by {
                        if i > 0 {
                            assert(rest[i - 1].0 != name);
                        }
                    }
                },
            }
        }
    }
}

/// Whether the class at the index is the first of the name.
pub open spec fn first_class(classes: Seq<ClassView>, name: Seq<char>, i: int) -> bool {
    &&& 0 <= i < classes.len()
    &&& classes[i].name == name
    &&& forall|j: int| 0 <= j < i ==> (#[trigger] classes[j]).name != name
}

/// The class that is found for a name is the first of the name; none is found exactly
/// where no class has the name.
pub proof fn law_find_class(classes: Seq<ClassView>, name: Seq<char>)
    ensures
        match find_class(classes, name) {
            Some(c) => exists|i: int| #[trigger] first_class(classes, name, i) && classes[i] == c,
            None => forall|i: int| 0 <= i < classes.len() ==> (#[trigger] classes[i]).name != name,
        },
    decreases classes.len(),
{
    if classes.len() > 0 {
        if classes[0].name == name {
            assert(first_class(classes, name, 0));
        } else {
            let rest = classes.skip(1);
            assert forall|j: int| 0 <= j < rest.len() implies #[trigger] rest[j]
                == classes[j + 1] by {}
            law_find_class(rest, name);
            match find_class(rest, name) {
                Some(c) => {
                    let i = choose|i: int| #[trigger] first_class(rest, name, i) && rest[i] == c;
                    assert(first_class(classes, name, i + 1)) by {
                        assert forall|j: int| 0 <= j < i + 1 implies (#[trigger] classes[j]).name
                            != name by {
                            if j > 0 {
                                assert(rest[j - 1].name != name);
                            }
                        }
                    }
                },
                None => {
                    assert forall|i: int| 0 <= i < classes.len() implies (
                    #[trigger] classes[i]).name != name by {
                        if i > 0 {
                            assert(rest[i - 1].name != name);
                        }
                    }
                },
            }
        }
    }
}

/// The arguments of a shape's constructor go to its fields by position, as far as there
/// are both.
pub proof fn law_fields_go_by_position(fields: Seq<FieldView>, args: Seq<ExprView>)
    ensures
        field_pairs(fields, args).len() <= fields.len(),
        field_pairs(fields, args).len() <= args.len(),
        field_pairs(fields, args).len() == fields.len() || field_pairs(fields, args).len()
            == args.len(),
        forall|i: int|
            0 <= i < field_pairs(fields, args).len() ==> #[trigger] field_pairs(fields, args)[i]
                == (fields[i].name, args[i]),
{
}

/// An object literal has the properties that it is written with, and one of a closed
/// shape those that the first class of its name gives the names to; nothing else has
/// properties.
pub proof fn law_object_props(e: ExprView, classes: Seq<ClassView>, k: int)
    ensures
        e matches ExprView::Object(props) ==> object_props(e, classes) == Some(props),
        e matches ExprView::New { class_name, args } ==> class_name.len() >= "__AnonShape_"@.len()
            && class_name.take("__AnonShape_"@.len() as int) == "__AnonShape_"@ ==> {
            &&& first_class(classes, class_name, k) ==> object_props(e, classes) == Some(
                field_pairs(classes[k].fields, args),
            )
            &&& object_props(e, classes) is None ==> forall|i: int|
                0 <= i < classes.len() ==> (#[trigger] classes[i]).name != class_name
        },
        e matches ExprView::New { class_name, args } ==> !(class_name.len()
            >= "__AnonShape_"@.len() && class_name.take("__AnonShape_"@.len() as int)
            == "__AnonShape_"@) ==> object_props(e, classes) is None,
        !(e is Object) && !(e is New) ==> object_props(e, classes) is None,
{
    match e {
        ExprView::New { class_name, .. } => {
            law_find_class(classes, class_name);
            if first_class(classes, class_name, k) && find_class(classes, class_name) is Some {
                let c = find_class(classes, class_name)->0;
                let i = choose|i: int| #[trigger]
                    first_class(classes, class_name, i) && classes[i] == c;
                if i < k {
                    assert(classes[i].name != class_name);
                }
                if k < i {
                    assert(classes[k].name != class_name);
                }
            }
        },
        _ => {},
    }
}

/// A property of an object is the first of its name among those that the object has.
pub proof fn law_prop_in(e: ExprView, classes: Seq<ClassView>, name: Seq<char>)
    ensures
        match object_props(e, classes) {
            Some(props) => prop_in(e, classes, name) == find_prop(props, name),
            None => prop_in(e, classes, name) is None,
        },
{
}

// ---------------------------------------------------------------------------
// Numbers
// ---------------------------------------------------------------------------

/// Numbers are the two kinds of number literals and nothing else, a text that reads as
/// a number included; each is written and scaled by its own value.
pub proof fn law_numeric(e: ExprView, other: Seq<char>)
    ensures
        match e {
            ExprView::Number(x) => numeric(e) matches Some(n) && numeric_text(n) == number_text(x)
                && numeric_channel(n) == channel(x.bits) && numeric_or(Some(e), other)
                == number_text(x),
            ExprView::Integer(x) => numeric(e) matches Some(n) && numeric_text(n) == integer_text(
                x as int,
            ) && numeric_channel(n) == integer_channel(x as int) && numeric_or(Some(e), other)
                == integer_text(x as int),
            _ => numeric(e) is None && numeric_or(Some(e), other) == other,
        },
        numeric_or(None, other) == other,
{
}

/// The argument at a position is the one there; behind the last there is none.
pub proof fn law_argument_at(args: Seq<ExprView>, i: int)
    ensures
        0 <= i < args.len() ==> at(args, i) == Some(args[i]),
        !(0 <= i < args.len()) ==> at(args, i) is None,
{
}

// ---------------------------------------------------------------------------
// Literals
// ---------------------------------------------------------------------------

/// A literal is written so that it can be told from others of its kind: a boolean by
/// its name, a string in quotes, a number by its digits; anything else is null.
pub proof fn law_value_literal(e: ExprView)
    ensures
        e == ExprView::Bool(true) ==> value_literal(e) == seq!['t', 'r', 'u', 'e'],
        e == ExprView::Bool(false) ==> value_literal(e) == seq!['f', 'a', 'l', 's', 'e'],
        e matches ExprView::String(s) ==> value_literal(e) == string_lit(s),
        e matches ExprView::Number(n) ==> value_literal(e) == number_text(n),
        e matches ExprView::Integer(n) ==> value_literal(e) == dec_int(n as int),
        !(e is Bool || e is String || e is Number || e is Integer) ==> value_literal(e) == seq![
            'n',
            'u',
            'l',
            'l',
        ],
{
    reveal_strlit("true");
    reveal_strlit("false");
    reveal_strlit("null");
    assert("true"@ =~= seq!['t', 'r', 'u', 'e']);
    assert("false"@ =~= seq!['f', 'a', 'l', 's', 'e']);
    assert("null"@ =~= seq!['n', 'u', 'l', 'l']);
}

/// An array literal has one item for each item of the array, in order.
pub proof fn law_array_literal(items: Seq<ExprView>, texts: Seq<Seq<char>>)
    requires
        texts.len() == items.len(),
        forall|i: int| 0 <= i < items.len() ==> #[trigger] texts[i] == value_literal(items[i]),
    ensures
        array_literal(items) == "["@ + join(texts, ", "@) + "]"@,
{
    assert(items.map_values(|e: ExprView| value_literal(e)) =~= texts);
}

/// A loop runs over the items of an array literal, written where the array is used or
/// bound to the variable that is.
pub proof fn law_array_source(
    items: Seq<ExprView>,
    id: LocalId,
    bindings: Map<LocalId, ExprView>,
)
    ensures
        array_source(ExprView::Array(items), bindings) == array_literal(items),
        bindings.contains_key(id) && bindings[id] == ExprView::Array(items) ==> array_source(
            ExprView::LocalGet(id),
            bindings,
        ) == array_literal(items),
        bindings.contains_key(id) && !(bindings[id] is Array) ==> array_source(
            ExprView::LocalGet(id),
            bindings,
        ) == array_source(ExprView::LocalGet(id), Map::empty()),
{
}

} // verus!
