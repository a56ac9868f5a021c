use perry_passes::hir::{
    BinaryOp, CatchClause, Class, ClassField, CompareOp, Expr, Function, IntrinsicOp, LocalOp,
    Module, Param, Stmt, SwitchCase, Type, UpdateOp,
};
use perry_passes::inline::candidate::{
    body_contains_closure_capturing, body_contains_super_call, collect_body_local_ids,
    has_simple_control_flow, is_inlinable, is_pure_function, is_trivial_expr,
};
use perry_passes::inline::imul::{
    detect_math_imul_polyfill, is_half_extract, rewrite_imul_calls_in_expr,
    rewrite_imul_calls_in_stmts,
};
use perry_passes::inline::module_ids::find_max_local_id_in_module;
use perry_passes::inline::pass::{inline_functions, inline_functions_within};
use perry_passes::inline::scan::find_max_local_id;
use perry_passes::inline::subst::{
    substitute_locals, substitute_locals_in_stmts, substitute_this, substitute_this_in_stmts,
};
use std::collections::{HashMap, HashSet};

fn same<T: std::fmt::Debug>(got: &T, expected: &T) {
    assert_eq!(format!("{:?}", got), format!("{:?}", expected));
}

fn whole(n: i64) -> Expr {
    Expr::Integer(n)
}

fn get(id: u32) -> Expr {
    Expr::LocalGet(id)
}

fn bin(op: BinaryOp, left: Expr, right: Expr) -> Expr {
    Expr::Binary { op, left: Box::new(left), right: Box::new(right) }
}

fn plus(left: Expr, right: Expr) -> Expr {
    bin(BinaryOp::Add, left, right)
}

fn assign(id: u32, value: Expr) -> Expr {
    Expr::LocalSet(id, Box::new(value))
}

fn call(id: u32, args: Vec<Expr>) -> Expr {
    Expr::Call { callee: Box::new(Expr::FuncRef(id)), args, type_args: vec![] }
}

fn prop(object: Expr, name: &str) -> Expr {
    Expr::PropertyGet { object: Box::new(object), property: name.to_string() }
}

fn method(obj: u32, name: &str, args: Vec<Expr>) -> Expr {
    Expr::Call { callee: Box::new(prop(get(obj), name)), args, type_args: vec![] }
}

fn typed(id: u32, name: &str, ty: Type, init: Option<Expr>) -> Stmt {
    Stmt::Let { id, name: name.to_string(), ty, mutable: false, init }
}

fn constant(id: u32, name: &str, init: Expr) -> Stmt {
    typed(id, name, Type::Any, Some(init))
}

fn variable(id: u32, name: &str, init: Expr) -> Stmt {
    Stmt::Let { id, name: name.to_string(), ty: Type::Any, mutable: true, init: Some(init) }
}

fn ret(e: Expr) -> Stmt {
    Stmt::Return(Some(e))
}

fn param(id: u32, name: &str) -> Param {
    Param { id, name: name.to_string(), ty: Type::Any, default: None, is_rest: false }
}

fn func(id: u32, name: &str, params: Vec<Param>, body: Vec<Stmt>) -> Function {
    Function {
        id,
        name: name.to_string(),
        params,
        return_type: Type::Any,
        body,
        is_async: false,
        is_generator: false,
        captures: vec![],
    }
}

fn closure(params: Vec<Param>, body: Vec<Stmt>, captures: Vec<u32>) -> Expr {
    Expr::Closure {
        func_id: 90,
        params,
        return_type: Type::Any,
        body,
        captures,
        mutable_captures: vec![],
        captures_this: false,
        enclosing_class: None,
        is_async: false,
    }
}

fn class(name: &str, methods: Vec<Function>) -> Class {
    Class {
        name: name.to_string(),
        native_extends: None,
        fields: vec![],
        constructor: None,
        methods,
        getters: vec![],
        setters: vec![],
        static_methods: vec![],
    }
}

fn module(functions: Vec<Function>, init: Vec<Stmt>) -> Module {
    Module { name: "m".to_string(), classes: vec![], functions, init }
}

fn native(name: &str, args: Vec<Expr>) -> Expr {
    Expr::NativeMethodCall {
        module: "fs".to_string(),
        class_name: None,
        object: None,
        method: name.to_string(),
        args,
    }
}

/// `f(a) = a + 1`, with the parameter 1.
fn increment() -> Function {
    func(7, "inc", vec![param(1, "a")], vec![ret(plus(get(1), whole(1)))])
}

/// A caller that is too long to be inlined itself.
fn long_caller(first: Vec<Stmt>) -> Function {
    let mut body = first;
    while body.len() < 11 {
        body.push(Stmt::Expr(whole(0)));
    }
    func(8, "caller", vec![], body)
}

/// The statements of [`long_caller`] behind the given ones.
fn filled(first: Vec<Stmt>, given: usize) -> Vec<Stmt> {
    let mut body = first;
    let mut n = given;
    while n < 11 {
        body.push(Stmt::Expr(whole(0)));
        n += 1;
    }
    body
}

/// Runs the pass on the caller beside the functions, and compares its body.
fn check(functions: Vec<Function>, given: Vec<Stmt>, expected: Vec<Stmt>) {
    let n = given.len();
    let mut fs = functions;
    fs.push(long_caller(given));
    let mut m = module(fs, vec![]);
    inline_functions(&mut m);
    let last = m.functions.pop().unwrap();
    same(&last.body, &filled(expected, n));
}

// --- Expansion inside an expression ---------------------------------------

#[test]
fn single_return_takes_the_arguments() {
    check(
        vec![increment()],
        vec![constant(5, "x", call(7, vec![whole(41)]))],
        vec![constant(5, "x", plus(whole(41), whole(1)))],
    );
}

#[test]
fn single_return_duplicates_an_argument_that_is_used_twice() {
    let double = func(7, "double", vec![param(1, "a")], vec![ret(plus(get(1), get(1)))]);
    check(
        vec![double],
        vec![ret(call(7, vec![prop(get(5), "n")]))],
        vec![ret(plus(prop(get(5), "n"), prop(get(5), "n")))],
    );
}

#[test]
fn missing_argument_leaves_the_parameter() {
    check(
        vec![increment()],
        vec![constant(5, "x", call(7, vec![]))],
        vec![constant(5, "x", plus(get(1), whole(1)))],
    );
}

#[test]
fn surplus_arguments_are_dropped() {
    check(
        vec![increment()],
        vec![constant(5, "x", call(7, vec![whole(1), whole(2)]))],
        vec![constant(5, "x", plus(whole(1), whole(1)))],
    );
}

#[test]
fn constant_lets_are_hoisted_with_fresh_names() {
    // Ids 1 to 5 are taken, so fresh ones start at 6: first for the argument that
    // is not trivial, then for the variable of the body.
    let f = func(
        7,
        "f",
        vec![param(1, "a"), param(2, "b")],
        vec![constant(3, "t", plus(get(1), get(2))), ret(plus(get(3), get(3)))],
    );
    check(
        vec![f],
        vec![constant(5, "x", plus(call(7, vec![prop(get(4), "n"), whole(2)]), whole(9)))],
        vec![
            constant(6, "a", prop(get(4), "n")),
            constant(7, "t", plus(get(6), whole(2))),
            constant(5, "x", plus(plus(get(7), get(7)), whole(9))),
        ],
    );
}

#[test]
fn mutable_let_keeps_the_call_in_an_expression() {
    let f = func(
        7,
        "f",
        vec![param(1, "a")],
        vec![variable(3, "t", get(1)), ret(get(3))],
    );
    check(
        vec![f],
        vec![constant(5, "x", call(7, vec![whole(1)]))],
        vec![constant(5, "x", call(7, vec![whole(1)]))],
    );
}

#[test]
fn calls_in_the_expanded_value_are_expanded() {
    let outer = func(6, "outer", vec![param(2, "b")], vec![ret(call(7, vec![get(2)]))]);
    check(
        vec![increment(), outer],
        vec![ret(call(6, vec![whole(3)]))],
        vec![ret(plus(whole(3), whole(1)))],
    );
}

#[test]
fn calls_are_found_at_every_searched_place() {
    let c = || call(7, vec![whole(2)]);
    let v = || plus(whole(2), whole(1));
    check(
        vec![increment()],
        vec![
            ret(Expr::Array(vec![c(), whole(0)])),
            ret(Expr::Object(vec![("k".to_string(), c())])),
            ret(assign(5, c())),
            ret(Expr::Intrinsic { op: IntrinsicOp::Uint8ArrayGet, args: vec![get(5), c()] }),
            ret(native("read", vec![c()])),
            Stmt::Throw(prop(c(), "k")),
        ],
        vec![
            ret(Expr::Array(vec![v(), whole(0)])),
            ret(Expr::Object(vec![("k".to_string(), v())])),
            ret(assign(5, v())),
            ret(Expr::Intrinsic { op: IntrinsicOp::Uint8ArrayGet, args: vec![get(5), v()] }),
            ret(native("read", vec![v()])),
            Stmt::Throw(prop(v(), "k")),
        ],
    );
}

#[test]
fn calls_stay_where_they_are_not_searched_for() {
    let c = || call(7, vec![whole(2)]);
    let given = || {
        vec![
            ret(closure(vec![], vec![ret(c())], vec![])),
            ret(Expr::Intrinsic { op: IntrinsicOp::MathFloor, args: vec![c()] }),
            ret(Expr::New { class_name: "A".to_string(), args: vec![c()] }),
            Stmt::DoWhile { body: vec![Stmt::Expr(c())], condition: c() },
        ]
    };
    check(vec![increment()], given(), given());
}

// --- Expansion in place of a statement ------------------------------------

#[test]
fn statement_call_makes_way_for_the_body() {
    let f = func(
        7,
        "f",
        vec![param(1, "a"), param(2, "b")],
        vec![
            variable(3, "t", get(1)),
            Stmt::Expr(assign(3, plus(get(3), get(2)))),
            ret(get(3)),
        ],
    );
    // The argument `5.n` needs a variable of its own; the returned value is still
    // computed.
    check(
        vec![f],
        vec![Stmt::Expr(call(7, vec![prop(get(5), "n"), whole(4)]))],
        vec![
            constant(6, "a", prop(get(5), "n")),
            variable(7, "t", get(6)),
            Stmt::Expr(assign(7, plus(get(7), whole(4)))),
            Stmt::Expr(get(7)),
        ],
    );
}

#[test]
fn bare_return_at_the_end_goes() {
    let f = func(
        7,
        "f",
        vec![],
        vec![Stmt::Expr(native("log", vec![])), Stmt::Return(None)],
    );
    check(
        vec![f],
        vec![Stmt::Expr(call(7, vec![]))],
        vec![Stmt::Expr(native("log", vec![]))],
    );
}

#[test]
fn early_return_keeps_the_call() {
    let f = func(
        7,
        "f",
        vec![param(1, "a")],
        vec![
            Stmt::If {
                condition: get(1),
                then_branch: vec![Stmt::Return(None)],
                else_branch: None,
            },
            Stmt::Expr(native("log", vec![get(1)])),
        ],
    );
    check(
        vec![f],
        vec![Stmt::Expr(call(7, vec![whole(1)]))],
        vec![Stmt::Expr(call(7, vec![whole(1)]))],
    );
}

#[test]
fn return_inside_the_last_statement_keeps_the_call() {
    // Put in place of the call, the `return` would end the caller.
    let branch = |stmts: Vec<Stmt>| Stmt::If {
        condition: Expr::Bool(true),
        then_branch: stmts,
        else_branch: None,
    };
    let f = func(7, "f", vec![], vec![branch(vec![Stmt::Return(None)])]);
    check(vec![f], vec![Stmt::Expr(call(7, vec![]))], vec![Stmt::Expr(call(7, vec![]))]);
    let g = func(
        7,
        "g",
        vec![],
        vec![
            Stmt::Expr(native("log", vec![])),
            Stmt::If {
                condition: Expr::Bool(true),
                then_branch: vec![],
                else_branch: Some(vec![branch(vec![ret(whole(1))])]),
            },
        ],
    );
    check(vec![g], vec![Stmt::Expr(call(7, vec![]))], vec![Stmt::Expr(call(7, vec![]))]);
    let h = func(7, "h", vec![], vec![branch(vec![Stmt::Expr(native("log", vec![]))])]);
    check(
        vec![h],
        vec![Stmt::Expr(call(7, vec![]))],
        vec![branch(vec![Stmt::Expr(native("log", vec![]))])],
    );
}

#[test]
fn statement_keeps_its_call_behind_what_its_arguments_need() {
    // `f` returns early, so its call stays; `g` is expanded in the argument.
    let f = func(
        7,
        "f",
        vec![param(1, "a")],
        vec![
            Stmt::If { condition: get(1), then_branch: vec![ret(whole(1))], else_branch: None },
            ret(whole(2)),
        ],
    );
    let g = func(
        6,
        "g",
        vec![],
        vec![constant(2, "t", native("read", vec![])), ret(get(2))],
    );
    // The argument takes id 6 while the body of `f` is tried; the variable of `g`
    // gets the next one.
    check(
        vec![f, g],
        vec![Stmt::Expr(call(7, vec![call(6, vec![])])), constant(5, "x", whole(0))],
        vec![
            constant(7, "t", native("read", vec![])),
            Stmt::Expr(call(7, vec![get(7)])),
            constant(5, "x", whole(0)),
        ],
    );
}

#[test]
fn statement_behind_an_empty_expansion_is_searched() {
    let nop = func(7, "nop", vec![], vec![Stmt::Return(None)]);
    let inc = func(6, "inc", vec![param(1, "a")], vec![ret(plus(get(1), whole(1)))]);
    check(
        vec![nop, inc],
        vec![
            Stmt::Expr(call(7, vec![])),
            constant(5, "x", call(6, vec![whole(1)])),
            constant(4, "y", call(6, vec![whole(2)])),
        ],
        vec![
            constant(5, "x", plus(whole(1), whole(1))),
            constant(4, "y", plus(whole(2), whole(1))),
        ],
    );
}

#[test]
fn conditions_and_branches_are_searched() {
    let c = || call(7, vec![whole(2)]);
    let v = || plus(whole(2), whole(1));
    check(
        vec![increment()],
        vec![
            Stmt::If {
                condition: c(),
                then_branch: vec![ret(c())],
                else_branch: Some(vec![Stmt::Throw(c())]),
            },
            Stmt::While { condition: c(), body: vec![constant(5, "x", c())] },
            Stmt::For {
                init: Some(Box::new(constant(4, "i", c()))),
                condition: Some(c()),
                update: Some(assign(4, c())),
                body: vec![ret(c())],
            },
        ],
        vec![
            Stmt::If {
                condition: v(),
                then_branch: vec![ret(v())],
                else_branch: Some(vec![Stmt::Throw(v())]),
            },
            Stmt::While { condition: v(), body: vec![constant(5, "x", v())] },
            Stmt::For {
                init: Some(Box::new(constant(4, "i", v()))),
                condition: Some(v()),
                update: Some(assign(4, v())),
                body: vec![ret(v())],
            },
        ],
    );
}

#[test]
fn what_a_condition_needs_goes_before_the_statement() {
    let f = func(7, "f", vec![], vec![constant(2, "t", native("read", vec![])), ret(get(2))]);
    check(
        vec![f],
        vec![Stmt::If {
            condition: call(7, vec![]),
            then_branch: vec![],
            else_branch: None,
        }],
        vec![
            constant(3, "t", native("read", vec![])),
            Stmt::If { condition: get(3), then_branch: vec![], else_branch: None },
        ],
    );
}

#[test]
fn loop_head_that_would_grow_stays() {
    let f = func(7, "f", vec![], vec![constant(2, "t", native("read", vec![])), ret(get(2))]);
    let given = || {
        vec![Stmt::For {
            init: Some(Box::new(constant(5, "i", call(7, vec![])))),
            condition: None,
            update: None,
            body: vec![],
        }]
    };
    check(vec![f], given(), given());
}

#[test]
fn loop_conditions_that_need_a_statement_stay() {
    // `f` must run before each round, not once before the loop.
    let f = || func(7, "f", vec![], vec![constant(2, "t", native("read", vec![])), ret(get(2))]);
    let given = || vec![Stmt::While { condition: call(7, vec![]), body: vec![Stmt::Break] }];
    check(vec![f()], given(), given());
    let given = || {
        vec![Stmt::For {
            init: None,
            condition: Some(call(7, vec![])),
            update: Some(assign(5, plus(get(5), call(7, vec![])))),
            body: vec![],
        }]
    };
    check(vec![f()], given(), given());
    // What the body needs still goes inside.
    check(
        vec![f()],
        vec![Stmt::While {
            condition: call(7, vec![]),
            body: vec![Stmt::Throw(call(7, vec![]))],
        }],
        vec![Stmt::While {
            condition: call(7, vec![]),
            body: vec![constant(4, "t", native("read", vec![])), Stmt::Throw(get(4))],
        }],
    );
}

// --- Methods ---------------------------------------------------------------

fn point_module(methods: Vec<Function>, given: Vec<Stmt>) -> Module {
    let mut m = module(vec![long_caller(given)], vec![]);
    m.classes.push(class("Point", methods));
    m
}

#[test]
fn method_value_reads_the_receiver() {
    let get_x = func(1, "getX", vec![param(2, "d")], vec![ret(plus(prop(Expr::This, "x"), get(2)))]);
    let mut m = point_module(
        vec![get_x],
        vec![
            constant(9, "p", Expr::New { class_name: "Point".to_string(), args: vec![] }),
            ret(method(9, "getX", vec![whole(3)])),
        ],
    );
    inline_functions(&mut m);
    same(&m.functions[0].body[1], &ret(plus(prop(get(9), "x"), whole(3))));
}

#[test]
fn void_method_runs_first_and_gives_undefined() {
    let bump = func(
        1,
        "bump",
        vec![],
        vec![Stmt::Expr(Expr::PropertySet {
            object: Box::new(Expr::This),
            property: "x".to_string(),
            value: Box::new(whole(1)),
        })],
    );
    let mut m = point_module(
        vec![bump],
        vec![
            typed(9, "p", Type::Named("Point".to_string()), None),
            constant(8, "r", method(9, "bump", vec![])),
        ],
    );
    inline_functions(&mut m);
    same(
        &m.functions[0].body[1],
        &Stmt::Expr(Expr::PropertySet {
            object: Box::new(get(9)),
            property: "x".to_string(),
            value: Box::new(whole(1)),
        }),
    );
    same(&m.functions[0].body[2], &constant(8, "r", Expr::Undefined));
}

#[test]
fn method_statement_makes_way_for_its_body() {
    let add = func(
        1,
        "add",
        vec![param(2, "d")],
        vec![
            constant(3, "s", plus(prop(Expr::This, "x"), get(2))),
            Stmt::Expr(native("log", vec![get(3)])),
            Stmt::Return(None),
        ],
    );
    let mut m = point_module(
        vec![add],
        vec![
            typed(9, "p", Type::Named("Point".to_string()), None),
            Stmt::Expr(method(9, "add", vec![whole(4)])),
        ],
    );
    inline_functions(&mut m);
    same(&m.functions[0].body[1], &constant(10, "s", plus(prop(get(9), "x"), whole(4))));
    same(&m.functions[0].body[2], &Stmt::Expr(native("log", vec![get(10)])));
}

#[test]
fn method_of_an_unknown_receiver_stays() {
    let get_x = func(1, "getX", vec![], vec![ret(prop(Expr::This, "x"))]);
    let mut m = point_module(vec![get_x], vec![ret(method(9, "getX", vec![]))]);
    inline_functions(&mut m);
    same(&m.functions[0].body[0], &ret(method(9, "getX", vec![])));
}

#[test]
fn parameter_types_tell_the_receiver() {
    let get_x = func(1, "getX", vec![], vec![ret(prop(Expr::This, "x"))]);
    let mut m = point_module(vec![get_x], vec![ret(method(9, "getX", vec![]))]);
    let mut p = param(9, "p");
    p.ty = Type::Named("Point".to_string());
    m.functions[0].params.push(p);
    inline_functions(&mut m);
    same(&m.functions[0].body[0], &ret(prop(get(9), "x")));
}

#[test]
fn classes_with_a_built_in_parent_are_left_alone() {
    let get_x = func(1, "getX", vec![], vec![ret(prop(Expr::This, "x"))]);
    let mut m = point_module(
        vec![get_x],
        vec![
            typed(9, "p", Type::Named("Point".to_string()), None),
            ret(method(9, "getX", vec![])),
        ],
    );
    m.classes[0].native_extends = Some("EventEmitter".to_string());
    inline_functions(&mut m);
    same(&m.functions[0].body[1], &ret(method(9, "getX", vec![])));
}

#[test]
fn calls_in_methods_are_inlined() {
    let mut m = module(vec![increment()], vec![]);
    let mut caller = long_caller(vec![ret(call(7, vec![whole(1)]))]);
    caller.name = "run".to_string();
    m.classes.push(class("Point", vec![caller]));
    inline_functions(&mut m);
    same(&m.classes[0].methods[0].body[0], &ret(plus(whole(1), whole(1))));
}

// --- The module --------------------------------------------------------------

#[test]
fn candidates_keep_their_own_calls() {
    let outer = || func(6, "outer", vec![], vec![ret(call(7, vec![whole(3)]))]);
    let mut m = module(vec![increment(), outer()], vec![]);
    inline_functions(&mut m);
    same(&m.functions[1], &outer());
}

#[test]
fn init_takes_pure_functions_only() {
    let pure = increment();
    let impure = func(6, "g", vec![], vec![ret(Expr::GlobalGet(0))]);
    let mut m = module(
        vec![pure, impure],
        vec![
            constant(5, "x", call(7, vec![whole(1)])),
            constant(4, "y", call(6, vec![])),
        ],
    );
    inline_functions(&mut m);
    same(
        &m.init,
        &vec![constant(5, "x", plus(whole(1), whole(1))), constant(4, "y", call(6, vec![]))],
    );
}

#[test]
fn functions_count_on_behind_init() {
    let f = || {
        func(7, "f", vec![], vec![constant(1, "t", whole(5)), ret(plus(get(1), get(1)))])
    };
    let mut m = module(
        vec![f(), long_caller(vec![ret(call(7, vec![]))])],
        vec![constant(3, "x", call(7, vec![]))],
    );
    inline_functions(&mut m);
    same(
        &m.init,
        &vec![constant(4, "t", whole(5)), constant(3, "x", plus(get(4), get(4)))],
    );
    same(&m.functions[1].body[0], &constant(5, "t", whole(5)));
    same(&m.functions[1].body[1], &ret(plus(get(5), get(5))));
}

#[test]
fn new_ids_are_above_every_id_of_the_module() {
    let f = func(7, "f", vec![], vec![constant(1, "t", whole(5)), ret(get(1))]);
    let mut m = module(vec![f], vec![constant(3, "x", call(7, vec![]))]);
    let mut c = class("A", vec![]);
    c.static_methods.push(func(2, "s", vec![param(40, "q")], vec![]));
    c.fields.push(ClassField { name: "k".to_string(), init: Some(get(41)) });
    m.classes.push(c);
    inline_functions(&mut m);
    same(&m.init, &vec![constant(42, "t", whole(5)), constant(3, "x", get(42))]);
}

#[test]
fn module_without_candidates_stays() {
    let build = || {
        let mut m = module(
            vec![long_caller(vec![ret(call(8, vec![whole(1)]))])],
            vec![constant(3, "x", call(8, vec![]))],
        );
        m.classes.push(class("A", vec![long_caller(vec![])]));
        m
    };
    let mut m = build();
    assert!(inline_functions_within(&mut m, 0));
    same(&m, &build());
}

#[test]
fn recursion_that_does_not_end_leaves_the_module() {
    let build = || {
        let f = func(7, "f", vec![param(1, "a")], vec![ret(call(7, vec![get(1)]))]);
        module(vec![f, long_caller(vec![ret(call(7, vec![whole(1)]))])], vec![])
    };
    let mut m = build();
    assert!(!inline_functions_within(&mut m, 50));
    same(&m, &build());
}

#[test]
fn depth_decides_only_success() {
    let build = || {
        let outer = func(6, "outer", vec![param(2, "b")], vec![ret(call(7, vec![get(2)]))]);
        module(vec![increment(), outer, long_caller(vec![ret(call(6, vec![whole(3)]))])], vec![])
    };
    let mut one = build();
    assert!(!inline_functions_within(&mut one, 1));
    same(&one, &build());
    let mut two = build();
    assert!(inline_functions_within(&mut two, 2));
    let mut many = build();
    assert!(inline_functions_within(&mut many, 1000));
    same(&two, &many);
    same(&two.functions[2].body[0], &ret(plus(whole(3), whole(1))));
}

#[test]
fn ids_that_run_out_leave_the_module() {
    let build = || {
        let f = func(7, "f", vec![], vec![constant(1, "t", whole(5)), ret(get(1))]);
        module(vec![f], vec![constant(u32::MAX, "x", call(7, vec![]))])
    };
    let mut m = build();
    assert!(!inline_functions_within(&mut m, 50));
    same(&m, &build());
}

#[test]
fn only_bodies_change() {
    let mut m = module(
        vec![increment(), long_caller(vec![ret(call(7, vec![whole(1)]))])],
        vec![],
    );
    m.functions[1].is_generator = true;
    m.functions[1].params.push(param(20, "z"));
    inline_functions(&mut m);
    assert_eq!(m.name, "m");
    same(&m.functions[0], &increment());
    assert_eq!(m.functions[1].id, 8);
    assert_eq!(m.functions[1].name, "caller");
    assert!(m.functions[1].is_generator);
    assert_eq!(m.functions[1].params.len(), 1);
}

// --- Which functions are inlined ---------------------------------------------

#[test]
fn candidates_are_short_and_simple() {
    assert!(is_inlinable(&increment()));
    let mut f = increment();
    f.is_async = true;
    assert!(!is_inlinable(&f));
    let mut f = increment();
    f.captures.push(9);
    assert!(!is_inlinable(&f));
    let mut f = increment();
    f.params[0].is_rest = true;
    assert!(!is_inlinable(&f));
    let mut f = long_caller(vec![]);
    assert!(!is_inlinable(&f));
    f.body.pop();
    assert!(is_inlinable(&f));
    let f = func(7, "f", vec![], vec![Stmt::Throw(whole(1))]);
    assert!(!is_inlinable(&f));
    let f = func(7, "f", vec![param(1, "a")], vec![ret(closure(vec![], vec![], vec![1]))]);
    assert!(!is_inlinable(&f));
    let f = func(7, "f", vec![param(1, "a")], vec![ret(closure(vec![], vec![], vec![2]))]);
    assert!(is_inlinable(&f));
    let f = func(
        7,
        "f",
        vec![],
        vec![ret(Expr::SuperMethodCall { method: "m".to_string(), args: vec![] })],
    );
    assert!(!is_inlinable(&f));
}

#[test]
fn simple_flow_is_lets_expressions_returns_and_conditionals() {
    let plain = || vec![constant(1, "a", whole(1)), Stmt::Expr(whole(2)), Stmt::Return(None)];
    assert!(has_simple_control_flow(&plain()));
    assert!(has_simple_control_flow(&vec![]));
    let nested = |inner: Stmt| {
        vec![Stmt::If {
            condition: whole(1),
            then_branch: plain(),
            else_branch: Some(vec![inner]),
        }]
    };
    assert!(has_simple_control_flow(&nested(Stmt::Return(None))));
    assert!(!has_simple_control_flow(&nested(Stmt::Break)));
    assert!(!has_simple_control_flow(&nested(Stmt::While { condition: whole(1), body: vec![] })));
    assert!(!has_simple_control_flow(&vec![Stmt::Throw(whole(1))]));
    assert!(!has_simple_control_flow(&vec![Stmt::Labeled {
        label: "l".to_string(),
        body: Box::new(Stmt::Break),
    }]));
}

#[test]
fn super_calls_are_found_at_any_depth() {
    let deep = vec![Stmt::If {
        condition: whole(1),
        then_branch: vec![],
        else_branch: Some(vec![ret(closure(
            vec![],
            vec![Stmt::Expr(Expr::New {
                class_name: "A".to_string(),
                args: vec![Expr::SuperCall(vec![])],
            })],
            vec![],
        ))]),
    }];
    assert!(body_contains_super_call(&deep));
    assert!(!body_contains_super_call(&vec![ret(Expr::This)]));
}

#[test]
fn capturing_closures_are_found_at_any_depth() {
    let inner = closure(vec![], vec![], vec![4]);
    let deep = vec![ret(closure(
        vec![],
        vec![Stmt::Expr(Expr::Object(vec![("k".to_string(), inner)]))],
        vec![9],
    ))];
    assert!(body_contains_closure_capturing(&deep, &vec![4]));
    assert!(body_contains_closure_capturing(&deep, &vec![9]));
    assert!(!body_contains_closure_capturing(&deep, &vec![5]));
}

#[test]
fn pure_functions_use_their_own_variables() {
    assert!(is_pure_function(&increment()));
    let outside = |e: Expr| func(7, "f", vec![param(1, "a")], vec![constant(2, "t", whole(0)), ret(e)]);
    assert!(is_pure_function(&outside(plus(get(1), get(2)))));
    assert!(is_pure_function(&outside(assign(2, get(1)))));
    assert!(!is_pure_function(&outside(get(3))));
    assert!(!is_pure_function(&outside(assign(3, whole(1)))));
    assert!(!is_pure_function(&outside(Expr::Update {
        id: 3,
        op: UpdateOp::Increment,
        prefix: true,
    })));
    assert!(!is_pure_function(&outside(Expr::GlobalGet(1))));
    assert!(!is_pure_function(&outside(Expr::GlobalSet(1, Box::new(whole(1))))));
    assert!(!is_pure_function(&outside(Expr::ExternFuncRef { name: "f".to_string() })));
    assert!(!is_pure_function(&outside(native("read", vec![]))));
    assert!(!is_pure_function(&outside(Expr::Object(vec![("k".to_string(), get(3))]))));
    assert!(!is_pure_function(&outside(Expr::LocalCall {
        op: LocalOp::ArrayPop,
        id: 3,
        args: vec![],
    })));
    assert!(is_pure_function(&outside(closure(vec![param(5, "q")], vec![ret(get(5))], vec![1]))));
    assert!(!is_pure_function(&outside(closure(vec![], vec![ret(get(6))], vec![]))));
    let switch = func(
        7,
        "f",
        vec![],
        vec![Stmt::Switch { discriminant: whole(1), cases: vec![] }],
    );
    assert!(!is_pure_function(&switch));
    let spin = func(
        7,
        "f",
        vec![param(1, "a")],
        vec![Stmt::DoWhile { body: vec![Stmt::Break], condition: get(1) }],
    );
    assert!(is_pure_function(&spin));
}

#[test]
fn trivial_expressions_are_constants_and_variables() {
    assert!(is_trivial_expr(&whole(1)));
    assert!(is_trivial_expr(&Expr::String("s".to_string())));
    assert!(is_trivial_expr(&Expr::Undefined));
    assert!(is_trivial_expr(&get(1)));
    assert!(is_trivial_expr(&Expr::GlobalGet(1)));
    assert!(!is_trivial_expr(&Expr::This));
    assert!(!is_trivial_expr(&plus(whole(1), whole(2))));
    assert!(!is_trivial_expr(&Expr::FuncRef(1)));
}

#[test]
fn bound_ids_come_in_source_order() {
    let body = vec![
        constant(4, "a", closure(vec![param(30, "q")], vec![constant(31, "z", whole(1))], vec![])),
        Stmt::If {
            condition: whole(1),
            then_branch: vec![constant(2, "b", whole(1))],
            else_branch: Some(vec![constant(9, "c", whole(1))]),
        },
        Stmt::For {
            init: Some(Box::new(constant(7, "i", whole(0)))),
            condition: None,
            update: None,
            body: vec![constant(1, "d", whole(1))],
        },
        Stmt::DoWhile { body: vec![constant(11, "e", whole(1))], condition: whole(1) },
    ];
    assert_eq!(collect_body_local_ids(&body), vec![4, 2, 9, 7, 1, 11]);
}

// --- Ids -----------------------------------------------------------------------

#[test]
fn largest_id_is_found_anywhere() {
    assert_eq!(find_max_local_id(&vec![]), 0);
    assert_eq!(find_max_local_id(&vec![constant(4, "a", plus(get(9), whole(1)))]), 9);
    let c = closure(vec![param(12, "p")], vec![Stmt::Expr(get(3))], vec![20]);
    assert_eq!(find_max_local_id(&vec![ret(c)]), 20);
    let update = Expr::LocalCall { op: LocalOp::ArrayPush, id: 33, args: vec![get(2)] };
    assert_eq!(find_max_local_id(&vec![Stmt::Throw(update)]), 33);

    let mut m = module(vec![increment()], vec![]);
    assert_eq!(find_max_local_id_in_module(&m), 1);
    m.functions[0].params[0].default = Some(get(50));
    assert_eq!(find_max_local_id_in_module(&m), 50);
    let mut c = class("A", vec![]);
    c.getters.push(("g".to_string(), func(1, "g", vec![], vec![ret(get(60))])));
    m.classes.push(c);
    assert_eq!(find_max_local_id_in_module(&m), 60);
    m.classes[0].constructor = Some(func(2, "new", vec![param(61, "p")], vec![]));
    assert_eq!(find_max_local_id_in_module(&m), 61);
    m.classes[0].fields.push(ClassField { name: "f".to_string(), init: Some(get(62)) });
    assert_eq!(find_max_local_id_in_module(&m), 62);
}

// --- Substitution ----------------------------------------------------------------

#[test]
fn locals_are_replaced_or_renamed() {
    let mut map: HashMap<u32, Expr> = HashMap::new();
    map.insert(1, get(10));
    map.insert(2, whole(5));
    let mut e = Expr::Array(vec![
        get(1),
        get(2),
        get(3),
        assign(1, get(2)),
        assign(2, whole(0)),
        Expr::Update { id: 1, op: UpdateOp::Decrement, prefix: false },
        Expr::LocalCall { op: LocalOp::SetAdd, id: 1, args: vec![get(2)] },
    ]);
    substitute_locals(&mut e, &map);
    same(
        &e,
        &Expr::Array(vec![
            get(10),
            whole(5),
            get(3),
            assign(10, whole(5)),
            assign(2, whole(0)),
            Expr::Update { id: 10, op: UpdateOp::Decrement, prefix: false },
            Expr::LocalCall { op: LocalOp::SetAdd, id: 10, args: vec![whole(5)] },
        ]),
    );
    let mut c = closure(vec![], vec![ret(plus(get(1), get(2)))], vec![1, 2, 3]);
    substitute_locals(&mut c, &map);
    same(&c, &closure(vec![], vec![ret(plus(get(10), whole(5)))], vec![10, 3]));
    let mut v = vec![
        constant(1, "a", get(2)),
        constant(2, "b", get(1)),
        Stmt::DoWhile { body: vec![], condition: get(1) },
    ];
    substitute_locals_in_stmts(&mut v, &map);
    same(
        &v,
        &vec![
            constant(10, "a", whole(5)),
            constant(2, "b", get(10)),
            Stmt::DoWhile { body: vec![], condition: get(10) },
        ],
    );
}

#[test]
fn locals_are_replaced_in_every_statement() {
    let mut map: HashMap<u32, Expr> = HashMap::new();
    map.insert(1, get(10));
    let build = |x: u32| {
        vec![
            Stmt::Labeled {
                label: "l".to_string(),
                body: Box::new(Stmt::DoWhile {
                    body: vec![constant(x, "a", get(x))],
                    condition: get(x),
                }),
            },
            Stmt::Try {
                body: vec![Stmt::Throw(get(x))],
                catch: Some(CatchClause {
                    param: Some((x, "e".to_string())),
                    body: vec![Stmt::Expr(get(x))],
                }),
                finally: Some(vec![Stmt::Expr(assign(x, whole(0)))]),
            },
            Stmt::Switch {
                discriminant: get(x),
                cases: vec![
                    SwitchCase { test: Some(get(x)), body: vec![Stmt::Expr(get(x))] },
                    SwitchCase { test: None, body: vec![ret(get(x))] },
                ],
            },
        ]
    };
    let mut v = build(1);
    substitute_locals_in_stmts(&mut v, &map);
    same(&v, &build(10));
}

#[test]
fn empty_substitution_changes_nothing() {
    let build = || Expr::Array(vec![get(1), assign(2, get(3)), closure(vec![], vec![ret(get(4))], vec![4])]);
    let mut e = build();
    substitute_locals(&mut e, &HashMap::new());
    same(&e, &build());
}

#[test]
fn this_becomes_the_receiver() {
    let mut v = vec![
        ret(prop(Expr::This, "x")),
        Stmt::Throw(Expr::Intrinsic { op: IntrinsicOp::MathMax, args: vec![Expr::This] }),
        ret(Expr::Intrinsic { op: IntrinsicOp::Uint8ArrayLength, args: vec![Expr::This] }),
    ];
    substitute_this_in_stmts(&mut v, 4);
    same(
        &v,
        &vec![
            ret(prop(get(4), "x")),
            Stmt::Throw(Expr::Intrinsic { op: IntrinsicOp::MathMax, args: vec![get(4)] }),
            ret(Expr::Intrinsic { op: IntrinsicOp::Uint8ArrayLength, args: vec![get(4)] }),
        ],
    );
    let mut c = Expr::Closure {
        func_id: 1,
        params: vec![],
        return_type: Type::Any,
        body: vec![ret(Expr::This)],
        captures: vec![7],
        mutable_captures: vec![],
        captures_this: true,
        enclosing_class: None,
        is_async: false,
    };
    let expected = || Expr::Closure {
        func_id: 1,
        params: vec![],
        return_type: Type::Any,
        body: vec![ret(get(4))],
        captures: vec![7, 4],
        mutable_captures: vec![],
        captures_this: false,
        enclosing_class: None,
        is_async: false,
    };
    substitute_this(&mut c, 4);
    same(&c, &expected());
    substitute_this(&mut c, 4);
    same(&c, &expected());
}

#[test]
fn no_this_is_left_in_any_expression() {
    let build = |x: fn() -> Expr| {
        Expr::Array(vec![
            Expr::GlobalSet(1, Box::new(x())),
            Expr::SuperCall(vec![x()]),
            Expr::SuperMethodCall { method: "m".to_string(), args: vec![x()] },
            Expr::LocalCall { op: LocalOp::SetAdd, id: 2, args: vec![x()] },
            Expr::LocalCall { op: LocalOp::ArrayPushSpread, id: 2, args: vec![x()] },
            Expr::Intrinsic { op: IntrinsicOp::Uint8ArrayGet, args: vec![x(), x()] },
            Expr::Intrinsic { op: IntrinsicOp::Uint8ArrayNew, args: vec![x()] },
            Expr::Intrinsic { op: IntrinsicOp::Other(3), args: vec![x()] },
            Expr::New { class_name: "C".to_string(), args: vec![x()] },
        ])
    };
    let mut e = build(|| Expr::This);
    substitute_this(&mut e, 4);
    same(&e, &build(|| get(4)));
}

#[test]
fn no_this_is_left_in_any_statement() {
    let build = |x: fn() -> Expr| {
        vec![
            Stmt::Labeled {
                label: "l".to_string(),
                body: Box::new(Stmt::DoWhile { body: vec![Stmt::Expr(x())], condition: x() }),
            },
            Stmt::Try {
                body: vec![Stmt::Throw(x())],
                catch: Some(CatchClause { param: None, body: vec![Stmt::Expr(x())] }),
                finally: Some(vec![Stmt::Expr(x())]),
            },
            Stmt::Switch {
                discriminant: x(),
                cases: vec![SwitchCase { test: Some(x()), body: vec![ret(x())] }],
            },
        ]
    };
    let mut v = build(|| Expr::This);
    substitute_this_in_stmts(&mut v, 4);
    same(&v, &build(|| get(4)));
    // Closures are entered, with their defaults, and take the receiver along.
    let arrow = |x: fn() -> Expr, captures: Vec<u32>, captures_this: bool| {
        let mut p = param(9, "p");
        p.default = Some(x());
        Expr::Closure {
            func_id: 1,
            params: vec![p],
            return_type: Type::Any,
            body: build(x),
            captures,
            mutable_captures: vec![],
            captures_this,
            enclosing_class: None,
            is_async: false,
        }
    };
    let mut c = Expr::Array(vec![
        arrow(|| Expr::This, vec![], true),
        arrow(|| Expr::This, vec![4], false),
    ]);
    substitute_this(&mut c, 4);
    same(
        &c,
        &Expr::Array(vec![arrow(|| get(4), vec![4], false), arrow(|| get(4), vec![4], false)]),
    );
}

// --- Multiplications ---------------------------------------------------------------

fn upper(id: u32) -> Expr {
    bin(BinaryOp::BitAnd, bin(BinaryOp::UShr, get(id), whole(16)), whole(0xffff))
}

fn lower(id: u32) -> Expr {
    bin(BinaryOp::BitAnd, get(id), whole(0xffff))
}

fn imul() -> Function {
    func(
        3,
        "imul32",
        vec![param(1, "a"), param(2, "b")],
        vec![
            constant(11, "ah", upper(1)),
            constant(12, "al", lower(1)),
            constant(13, "bh", upper(2)),
            constant(14, "bl", lower(2)),
            ret(recombined(get(12), get(11), get(14), get(13))),
        ],
    )
}

fn times(left: Expr, right: Expr) -> Expr {
    bin(BinaryOp::Mul, left, right)
}

/// `al * bl + (((ah * bl + al * bh) << 16) >>> 0) | 0`.
fn recombined(al: Expr, ah: Expr, bl: Expr, bh: Expr) -> Expr {
    let copy = |e: &Expr| match e {
        Expr::LocalGet(id) => get(*id),
        _ => Expr::Undefined,
    };
    let cross = plus(times(copy(&ah), copy(&bl)), times(copy(&al), copy(&bh)));
    let high = bin(BinaryOp::UShr, bin(BinaryOp::Shl, cross, whole(16)), whole(0));
    bin(BinaryOp::BitOr, plus(times(al, bl), high), whole(0))
}

#[test]
fn multiplication_is_recognized() {
    assert!(detect_math_imul_polyfill(&imul()));
    let mut f = imul();
    f.is_generator = true;
    assert!(!detect_math_imul_polyfill(&f));
    let mut f = imul();
    f.params.pop();
    assert!(!detect_math_imul_polyfill(&f));
    let mut f = imul();
    f.body.pop();
    assert!(!detect_math_imul_polyfill(&f));
    let mut f = imul();
    f.body[2] = constant(13, "bh", upper(1));
    assert!(!detect_math_imul_polyfill(&f));
    let mut f = imul();
    f.body[4] = ret(bin(BinaryOp::BitOr, get(11), whole(1)));
    assert!(!detect_math_imul_polyfill(&f));
    let mut f = imul();
    f.body[0] = variable(11, "ah", upper(1));
    assert!(!detect_math_imul_polyfill(&f));
}

#[test]
fn multiplication_must_recombine_the_halves() {
    let with_end = |e: Expr| {
        let mut f = imul();
        f.body[4] = ret(e);
        detect_math_imul_polyfill(&f)
    };
    let or_zero = |e: Expr| bin(BinaryOp::BitOr, e, whole(0));
    let shifted = |e: Expr| bin(BinaryOp::Shl, e, whole(16));
    let (ah, al, bh, bl) = (|| get(11), || get(12), || get(13), || get(14));
    // Operands may stand in either order, and `>>> 0` may be left out.
    let cross = || plus(times(bh(), al()), times(bl(), ah()));
    assert!(with_end(or_zero(plus(shifted(cross()), times(bl(), al())))));
    assert!(with_end(or_zero(plus(
        times(al(), bl()),
        bin(BinaryOp::UShr, shifted(cross()), whole(0)),
    ))));
    // Anything else is no multiplication.
    assert!(!with_end(or_zero(whole(7))));
    assert!(!with_end(or_zero(plus(ah(), al()))));
    assert!(!with_end(or_zero(times(al(), bl()))));
    assert!(!with_end(plus(times(al(), bl()), shifted(cross()))));
    assert!(!with_end(or_zero(plus(times(ah(), bh()), shifted(cross())))));
    assert!(!with_end(or_zero(plus(
        times(al(), bl()),
        shifted(plus(times(ah(), bl()), times(ah(), bl()))),
    ))));
    assert!(!with_end(or_zero(plus(
        times(al(), bl()),
        bin(BinaryOp::Shl, cross(), whole(8)),
    ))));
    assert!(!with_end(recombined(get(1), get(11), get(2), get(13))));
    // Each half has a variable of its own.
    let mut f = imul();
    f.body[0] = constant(12, "ah", upper(1));
    f.body[4] = ret(recombined(get(12), get(12), get(14), get(13)));
    assert!(!detect_math_imul_polyfill(&f));
    let mut f = imul();
    f.body[0] = constant(1, "a", upper(1));
    f.body[4] = ret(recombined(get(12), get(1), get(14), get(13)));
    assert!(!detect_math_imul_polyfill(&f));
}

#[test]
fn halves_are_recognized() {
    assert_eq!(is_half_extract(&upper(1), 1, 2), Some((1, true)));
    assert_eq!(is_half_extract(&lower(2), 1, 2), Some((2, false)));
    let signed = bin(BinaryOp::BitAnd, bin(BinaryOp::Shr, get(2), whole(16)), whole(0xffff));
    assert_eq!(is_half_extract(&signed, 1, 2), Some((2, true)));
    assert_eq!(is_half_extract(&lower(3), 1, 2), None);
    let other = bin(BinaryOp::BitAnd, bin(BinaryOp::UShr, get(1), whole(8)), whole(0xffff));
    assert_eq!(is_half_extract(&other, 1, 2), None);
    assert_eq!(is_half_extract(&bin(BinaryOp::BitAnd, get(1), whole(0xff)), 1, 2), None);
}

#[test]
fn calls_of_a_multiplication_become_built_in() {
    let mut m = module(
        vec![imul(), long_caller(vec![ret(call(3, vec![whole(6), call(3, vec![get(5), whole(7)])]))])],
        vec![Stmt::Expr(assign(5, call(3, vec![whole(2), whole(3)])))],
    );
    inline_functions(&mut m);
    let times = |a: Expr, b: Expr| Expr::Intrinsic { op: IntrinsicOp::MathImul, args: vec![a, b] };
    same(&m.init, &vec![Stmt::Expr(assign(5, times(whole(2), whole(3))))]);
    same(&m.functions[0], &imul());
    same(&m.functions[1].body[0], &ret(times(whole(6), times(get(5), whole(7)))));
}

#[test]
fn multiplication_rewrite_is_final() {
    let mut ids: HashSet<u32> = HashSet::new();
    ids.insert(3);
    let times = |a: Expr, b: Expr| Expr::Intrinsic { op: IntrinsicOp::MathImul, args: vec![a, b] };
    let mut e = plus(call(3, vec![whole(1), whole(2)]), call(3, vec![whole(1)]));
    let expected = plus(times(whole(1), whole(2)), call(3, vec![whole(1)]));
    rewrite_imul_calls_in_expr(&mut e, &ids);
    same(&e, &expected);
    rewrite_imul_calls_in_expr(&mut e, &ids);
    same(&e, &expected);
    let mut v = vec![
        Stmt::DoWhile {
            body: vec![],
            condition: Expr::Compare {
                op: CompareOp::Lt,
                left: Box::new(call(3, vec![get(1), get(2)])),
                right: Box::new(whole(9)),
            },
        },
        ret(closure(vec![], vec![ret(call(3, vec![whole(1), whole(2)]))], vec![])),
    ];
    rewrite_imul_calls_in_stmts(&mut v, &ids);
    same(
        &v,
        &vec![
            Stmt::DoWhile {
                body: vec![],
                condition: Expr::Compare {
                    op: CompareOp::Lt,
                    left: Box::new(times(get(1), get(2))),
                    right: Box::new(whole(9)),
                },
            },
            ret(closure(vec![], vec![ret(times(whole(1), whole(2)))], vec![])),
        ],
    );
}

#[test]
fn multiplications_of_inlined_functions_are_built_in() {
    // `square` is inlined with its multiplication rewritten, not taken apart.
    let square = func(
        5,
        "square",
        vec![param(21, "x")],
        vec![ret(call(3, vec![get(21), get(21)]))],
    );
    let product = |a: Expr, b: Expr| Expr::Intrinsic {
        op: IntrinsicOp::MathImul,
        args: vec![a, b],
    };
    check(
        vec![imul(), square],
        vec![constant(22, "y", call(5, vec![whole(4)]))],
        vec![constant(22, "y", product(whole(4), whole(4)))],
    );
}

#[test]
fn multiplications_are_rewritten_in_every_body_of_a_class() {
    let body = |e: Expr| {
        let mut v = vec![ret(e)];
        while v.len() < 11 {
            v.push(Stmt::Expr(whole(0)));
        }
        v
    };
    let build = |e: fn() -> Expr| {
        let mut c = class("C", vec![func(41, "m", vec![], body(e()))]);
        c.constructor = Some(func(42, "constructor", vec![], body(e())));
        c.getters = vec![("g".to_string(), func(43, "g", vec![], body(e())))];
        c.setters = vec![("s".to_string(), func(44, "s", vec![param(31, "v")], body(e())))];
        c.static_methods = vec![func(45, "t", vec![], body(e()))];
        c
    };
    let mut m = module(vec![imul()], vec![]);
    m.classes.push(build(|| call(3, vec![whole(2), whole(3)])));
    inline_functions(&mut m);
    same(
        &m.classes[0],
        &build(|| Expr::Intrinsic { op: IntrinsicOp::MathImul, args: vec![whole(2), whole(3)] }),
    );
}

#[test]
fn added_variables_are_all_different() {
    let f = func(
        7,
        "f",
        vec![param(1, "a")],
        vec![constant(2, "t", plus(get(1), whole(1))), ret(plus(get(2), get(2)))],
    );
    let twice = || ret(plus(call(7, vec![native("read", vec![])]), call(7, vec![whole(3)])));
    let mut m = module(
        vec![f, long_caller(vec![twice()])],
        vec![Stmt::Expr(call(7, vec![whole(5)]))],
    );
    let mut user = class("C", vec![func(41, "m", vec![], long_caller(vec![twice()]).body)]);
    user.native_extends = Some("Base".to_string());
    m.classes.push(user);
    inline_functions(&mut m);
    let bound = |v: &Vec<Stmt>| collect_body_local_ids(v);
    same(&bound(&m.init), &vec![3]);
    same(&bound(&m.functions[0].body), &vec![2]);
    same(&bound(&m.functions[1].body), &vec![4, 5, 6]);
    same(&bound(&m.classes[0].methods[0].body), &vec![7, 8, 9]);
}

#[test]
fn added_variables_are_bound_before_they_are_read() {
    // Each setup goes right before the statement that reads it: the argument first,
    // then the variable that reads the argument, then the value.
    let f = || {
        func(
            7,
            "f",
            vec![param(1, "a")],
            vec![constant(2, "t", plus(get(1), get(1))), ret(plus(get(2), get(1)))],
        )
    };
    check(
        vec![f()],
        vec![
            constant(3, "x", call(7, vec![native("read", vec![])])),
            Stmt::If {
                condition: call(7, vec![get(3)]),
                then_branch: vec![ret(call(7, vec![get(3)]))],
                else_branch: None,
            },
        ],
        vec![
            constant(4, "a", native("read", vec![])),
            constant(5, "t", plus(get(4), get(4))),
            constant(3, "x", plus(get(5), get(4))),
            constant(6, "t", plus(get(3), get(3))),
            Stmt::If {
                condition: plus(get(6), get(3)),
                then_branch: vec![
                    constant(7, "t", plus(get(3), get(3))),
                    ret(plus(get(7), get(3))),
                ],
                else_branch: None,
            },
        ],
    );
}
