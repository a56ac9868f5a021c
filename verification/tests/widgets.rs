use perry_passes::arkts::harvest::{collect_const_bindings, emit_index_ets, EmitError};
use perry_passes::arkts::page::drain_loop_body;
use perry_passes::arkts::state::{
    collect_state_bindings, rewrite_state_calls_in_stmts, rewrite_state_in_expr,
};
use perry_passes::arkts::style::{arkts_color_value, emit_style_modifiers};
use perry_passes::arkts::value::{
    arkts_array_source, arkts_value_literal, extract_style_object, first_string_arg,
};
use perry_passes::hir::{
    BinaryOp, CatchClause, Class, ClassField, Expr, Function, IntrinsicOp, Module, Num, Param, Stmt,
    SwitchCase, Type,
};

fn number(x: f64) -> Expr {
    Expr::Number(Num { bits: x.to_bits(), text: format!("{}", x) })
}

fn text(s: &str) -> Expr {
    Expr::String(s.to_string())
}

fn ui(method: &str, args: Vec<Expr>) -> Expr {
    Expr::NativeMethodCall {
        module: "perry/ui".to_string(),
        class_name: None,
        object: None,
        method: method.to_string(),
        args,
    }
}

fn object(props: Vec<(&str, Expr)>) -> Expr {
    Expr::Object(props.into_iter().map(|(k, v)| (k.to_string(), v)).collect())
}

fn fields(props: Vec<(&str, Expr)>) -> Vec<(String, Expr)> {
    props.into_iter().map(|(k, v)| (k.to_string(), v)).collect()
}

fn app(body: Expr) -> Stmt {
    Stmt::Expr(ui("App", vec![object(vec![("body", body)])]))
}

fn module(init: Vec<Stmt>) -> Module {
    Module { name: "m".to_string(), classes: vec![], functions: vec![], init }
}

fn constant(id: u32, init: Expr) -> Stmt {
    Stmt::Let { id, name: "v".to_string(), ty: Type::Any, mutable: false, init: Some(init) }
}

fn variable(id: u32, init: Expr) -> Stmt {
    Stmt::Let { id, name: "v".to_string(), ty: Type::Any, mutable: true, init: Some(init) }
}

fn closure(params: Vec<u32>, body: Vec<Stmt>) -> Expr {
    Expr::Closure {
        func_id: 0,
        params: params
            .into_iter()
            .map(|id| Param {
                id,
                name: "p".to_string(),
                ty: Type::Any,
                default: None,
                is_rest: false,
            })
            .collect(),
        return_type: Type::Any,
        body,
        captures: vec![],
        mutable_captures: vec![],
        captures_this: false,
        enclosing_class: None,
        is_async: false,
    }
}

fn map(array: Expr, callback: Expr) -> Expr {
    Expr::ArrayMap { array: Box::new(array), callback: Box::new(callback) }
}

fn call_member(id: u32, name: &str, args: Vec<Expr>) -> Expr {
    Expr::Call {
        callee: Box::new(Expr::PropertyGet {
            object: Box::new(Expr::LocalGet(id)),
            property: name.to_string(),
        }),
        args,
        type_args: vec![],
    }
}

fn shape(name: &str, names: Vec<&str>) -> Class {
    Class {
        name: name.to_string(),
        native_extends: None,
        fields: names
            .into_iter()
            .map(|n| ClassField { name: n.to_string(), init: None })
            .collect(),
        constructor: None,
        methods: vec![],
        getters: vec![],
        setters: vec![],
        static_methods: vec![],
    }
}

const HEAD: &str = "// Auto-generated by Perry (perry-codegen-arkts) — do not edit.\n\
// Regenerated every `perry compile --target harmonyos`.\n\
//\n\
// Source of truth is the `App({body: ...})` call in your\n\
// TypeScript entry. Edit there; this file is overwritten.\n\
import perryEntry from 'libentry.so';\n\
import promptAction from '@ohos.promptAction';\n\
\n";

const TAIL: &str = "\n        }\n        .width('100%')\n        .height('100%')\n        \
.justifyContent(FlexAlign.Center)\n    }\n}\n";

/// The page around a widget without reactive texts or lazy lists.
fn page(widget: &str) -> String {
    let body: Vec<String> = widget.lines().map(|l| format!("            {}", l)).collect();
    format!(
        "{}@Entry\n@Component\nstruct Index {{\n    \
         applyTextUpdate(id: string, value: string): void {{\n        switch (id) {{\n            \
         default: break;\n        }}\n    }}\n    build() {{\n        Column() {{\n{}{}",
        HEAD,
        body.join("\n"),
        TAIL
    )
}

/// Harvests the widget and compares the whole page.
fn check(widget: Expr, expected: &str) {
    let mut m = module(vec![app(widget)]);
    let r = emit_index_ets(&mut m).unwrap().unwrap();
    assert_eq!(r.ets_source, page(expected));
}

fn handler(head: &str, call: &str) -> String {
    format!("{}(({}) => {{\n    {};\n    {}}})", ".onChange", head, call, drain_loop_body())
}

#[test]
fn drain_shows_toasts_and_applies_texts() {
    assert_eq!(
        drain_loop_body(),
        "let __t = perryEntry.drainToast();\n    while (__t !== undefined) { \
         promptAction.showToast({ message: __t }); __t = perryEntry.drainToast(); }\n    \
         let __u = perryEntry.drainTextUpdate();\n    while (__u !== undefined) { \
         this.applyTextUpdate(__u.id, __u.value); __u = perryEntry.drainTextUpdate(); }\n  "
    );
}

#[test]
fn texts() {
    check(ui("Text", vec![text("it's")]), "Text('it\\'s').fontSize(20)");
    check(
        ui("Text", vec![number(1.0)]),
        "Text('[non-literal Text arg]').fontSize(20).fontColor('#888888')",
    );
    check(
        ui("Text", vec![]),
        "Text('[non-literal Text arg]').fontSize(20).fontColor('#888888')",
    );
}

#[test]
fn reactive_text_has_a_field_and_an_arm() {
    let mut m = module(vec![app(ui("Text", vec![text("0"), text("my id")]))]);
    let r = emit_index_ets(&mut m).unwrap().unwrap();
    let expected = format!(
        "{}@Entry\n@Component\nstruct Index {{\n    @State text_my_id: string = '0';\n    \
         applyTextUpdate(id: string, value: string): void {{\n        switch (id) {{\n            \
         case 'my id': this.text_my_id = value; break;\n            default: break;\n        }}\n    \
         }}\n    build() {{\n        Column() {{\n            Text(this.text_my_id).fontSize(20){}",
        HEAD, TAIL
    );
    assert_eq!(r.ets_source, expected);
}

#[test]
fn stacks() {
    check(
        ui("VStack", vec![Expr::Array(vec![ui("Spacer", vec![]), ui("Divider", vec![])])]),
        "Column({ space: 8 }) {\n    Blank()\n    Divider()\n}",
    );
    check(
        ui("HStack", vec![Expr::Integer(3), Expr::Array(vec![])]),
        "Row({ space: 3 }) {\n\n}",
    );
    check(ui("VStack", vec![]), "Column({ space: 8 }) {\n\n}");
    check(
        ui("VStack", vec![number(2.5)]),
        "Column({ space: 2.5 }) {\n\n}",
    );
    check(
        ui("VStack", vec![text("x")]),
        "Column({ space: 8 }) {\n    // children arg wasn't an array literal — Phase 2 v1.5 limitation\n    \
         Text('[non-array children]').fontSize(16).fontColor('#888888')\n}",
    );
}

#[test]
fn spacing_may_follow_the_children() {
    check(
        ui("VStack", vec![Expr::Array(vec![ui("Spacer", vec![])]), number(12.0)]),
        "Column({ space: 12 }) {\n    Blank()\n}",
    );
}

#[test]
fn nested_stacks_are_set_in_twice() {
    check(
        ui(
            "VStack",
            vec![Expr::Array(vec![ui("HStack", vec![Expr::Array(vec![ui("Spacer", vec![])])])])],
        ),
        "Column({ space: 8 }) {\n    Row({ space: 8 }) {\n            Blank()\n        }\n}",
    );
}

#[test]
fn inputs_without_callbacks() {
    check(ui("Button", vec![]), "Button('Button').fontSize(16)");
    check(ui("TextField", vec![text("hint")]), "TextInput({ placeholder: 'hint' })");
    check(ui("Toggle", vec![]), "Toggle({ type: ToggleType.Switch, isOn: false })");
    check(
        ui("Toggle", vec![text("on")]),
        "Row({ space: 8 }) {\n    Text('on').fontSize(16)\n    \
         Toggle({ type: ToggleType.Switch, isOn: false })\n}",
    );
    check(
        ui("Slider", vec![]),
        "Slider({ value: 0, min: 0, max: 100, step: 1, style: SliderStyle.OutSet })",
    );
    check(
        ui("Slider", vec![number(0.5), Expr::Integer(7)]),
        "Slider({ value: 0.5, min: 0.5, max: 7, step: 1, style: SliderStyle.OutSet })",
    );
    check(ui("Picker", vec![]), "TextPicker({ range: [], value: '' })");
    check(
        ui("Picker", vec![Expr::Array(vec![text("a"), number(1.0), text("b")])]),
        "TextPicker({ range: ['a', 'b'], value: 'a' })",
    );
}

#[test]
fn picker_starts_at_the_first_option_of_its_range() {
    check(
        ui("Picker", vec![Expr::Array(vec![number(1.0), text("b")])]),
        "TextPicker({ range: ['b'], value: 'b' })",
    );
}

#[test]
fn inputs_with_callbacks_count_their_slots() {
    let c = || closure(vec![], vec![]);
    let mut m = module(vec![app(ui(
        "VStack",
        vec![Expr::Array(vec![
            ui("Button", vec![text("a"), c()]),
            ui("TextField", vec![text("b"), c()]),
            ui("Toggle", vec![text(""), c()]),
            ui("Slider", vec![number(0.0), number(1.0), c()]),
            ui("Picker", vec![Expr::Array(vec![]), c()]),
        ])],
    ))]);
    let r = emit_index_ets(&mut m).unwrap().unwrap();
    assert_eq!(r.callbacks.len(), 5);
    assert!(r.callbacks.iter().all(|c| matches!(c, Expr::Closure { .. })));
    let inner = vec![
        format!(
            "Button('a').fontSize(16).onClick(() => {{\n    perryEntry.invokeCallback(0);\n    {}}})",
            drain_loop_body()
        ),
        format!(
            "TextInput({{ placeholder: 'b' }}){}",
            handler("value: string", "perryEntry.invokeCallback1(1, value)")
        ),
        format!(
            "Toggle({{ type: ToggleType.Switch, isOn: false }}){}",
            handler("isOn: boolean", "perryEntry.invokeCallback1(2, isOn)")
        ),
        format!(
            "Slider({{ value: 0, min: 0, max: 1, step: 1, style: SliderStyle.OutSet }}){}",
            handler(
                "value: number, _mode: SliderChangeMode",
                "perryEntry.invokeCallback1(3, value)"
            )
        ),
        format!(
            "TextPicker({{ range: [], value: '' }}){}",
            handler("_value: string, index: number", "perryEntry.invokeCallback1(4, index)")
        ),
    ];
    let mut body = String::from("Column({ space: 8 }) {\n");
    for w in inner {
        for l in w.lines() {
            body.push_str(&format!("    {}\n", l));
        }
    }
    body.push('}');
    assert_eq!(r.ets_source, page(&body));
}

#[test]
fn images() {
    check(ui("Image", vec![text("a.png")]), "Image('a.png').width('100%').height(200)");
    check(
        ui("ImageFile", vec![text("@app.media/logo")]),
        "Image($r('app.media.logo')).width('100%').height(200)",
    );
    check(
        ui("Image", vec![text("@app.icon/star")]),
        "Image($r('app.icon.star')).width('100%').height(200)",
    );
    check(
        ui("Image", vec![]),
        "Text('[non-literal Image src]').fontSize(16).fontColor('#888888')",
    );
}

#[test]
fn line_breaks_in_a_resource_name_break_the_line() {
    check(
        ui("Image", vec![text("@app.media/a\r\nb")]),
        "Image($r('app.media.a\nb')).width('100%').height(200)",
    );
}

#[test]
fn scroll_views() {
    check(
        ui("ScrollView", vec![Expr::Array(vec![ui("Spacer", vec![])])]),
        "Scroll() {\n    Column({ space: 8 }) {\n        Blank()\n    }\n}",
    );
    check(
        ui("ScrollView", vec![text("x")]),
        "Scroll() {\n    Column({ space: 8 }) {\n\n    }\n}",
    );
}

#[test]
fn sections() {
    check(
        ui("Section", vec![text("T"), Expr::Array(vec![ui("Divider", vec![])])]),
        "Column({ space: 4 }) {\n    Text('T').fontSize(14).fontColor('#888888')\n    Divider()\n}",
    );
    check(
        ui("Section", vec![]),
        "Column({ space: 4 }) {\n    Text('').fontSize(14).fontColor('#888888')\n}",
    );
}

#[test]
fn progress() {
    check(
        ui("ProgressView", vec![]),
        "Progress({ value: 0, total: 100, type: ProgressType.Linear })",
    );
    check(
        ui("ProgressView", vec![number(0.25), number(1.0)]),
        "Progress({ value: 0.25, total: 1, type: ProgressType.Linear })",
    );
}

#[test]
fn tabs() {
    check(
        ui(
            "Tabs",
            vec![Expr::Array(vec![
                object(vec![("label", text("A")), ("body", ui("Spacer", vec![]))]),
                object(vec![]),
                number(1.0),
            ])],
        ),
        "Tabs() {\n    TabContent() {\n        Blank()\n    }.tabBar('A')\n    TabContent() {\n        \
         Text('[empty tab]').fontSize(16)\n    }.tabBar('Tab')\n    // tab spec wasn't an object\n    \
         TabContent() {\n        Text('[invalid tab]').fontSize(16)\n    }.tabBar('?')\n}",
    );
    check(ui("Tabs", vec![]), "Tabs() {\n\n}");
}

#[test]
fn tabs_of_a_closed_shape() {
    let mut m = module(vec![app(ui(
        "Tabs",
        vec![Expr::Array(vec![Expr::New {
            class_name: "__AnonShape_1".to_string(),
            args: vec![ui("Divider", vec![]), text("B")],
        }])],
    ))]);
    m.classes.push(shape("__AnonShape_1", vec!["body", "label"]));
    let r = emit_index_ets(&mut m).unwrap().unwrap();
    assert_eq!(
        r.ets_source,
        page("Tabs() {\n    TabContent() {\n        Divider()\n    }.tabBar('B')\n}")
    );
}

#[test]
fn modals_and_unknown_widgets() {
    check(
        ui("Dialog", vec![]),
        "// Modal: configure with `showDialog(...)` from a closure body \
         (Phase 2 v12.5 — needs runtime FFI bridge to AlertDialog.show)\n\
         Text('[Modal — call showDialog() instead]').fontSize(16).fontColor('#888888')",
    );
    check(
        ui("Chart", vec![]),
        "// unsupported perry/ui widget: Chart (Phase 2 v12)\n\
         Text('[unsupported: Chart]').fontSize(16).fontColor('#888888')",
    );
    check(
        Expr::Integer(1),
        "// unrecognized body expression (must be a perry/ui widget call)\n\
         Text('[unrecognized body]').fontSize(16).fontColor('#888888')",
    );
}

#[test]
fn menus() {
    let mut m = module(vec![app(ui(
        "Menu",
        vec![Expr::Array(vec![
            object(vec![("label", text("Go")), ("action", closure(vec![], vec![]))]),
            object(vec![]),
            number(1.0),
        ])],
    ))]);
    let r = emit_index_ets(&mut m).unwrap().unwrap();
    assert_eq!(r.callbacks.len(), 1);
    assert_eq!(
        r.ets_source,
        page(&format!(
            "Column({{ space: 4 }}) {{\n    Button('Go').fontSize(16).onClick(() => {{\n    \
             perryEntry.invokeCallback(0);\n    {}}})\n    Button('Item').fontSize(16)\n    \
             Text('[invalid menu item]').fontSize(14).fontColor('#888888')\n}}",
            drain_loop_body()
        ))
    );
}

#[test]
fn grids() {
    check(
        ui("Grid", vec![number(3.0), Expr::Array(vec![ui("Spacer", vec![]), ui("Divider", vec![])])]),
        "Grid() {\n    GridItem() {\n        Blank()\n    }\n    GridItem() {\n        Divider()\n    \
         }\n}.columnsTemplate('1fr 1fr 1fr')",
    );
    check(ui("Grid", vec![]), "Grid() {\n\n}.columnsTemplate('1fr 1fr')");
    check(ui("Grid", vec![number(-4.0)]), "Grid() {\n\n}.columnsTemplate('1fr')");
    check(ui("Grid", vec![number(2.9)]), "Grid() {\n\n}.columnsTemplate('1fr 1fr')");
    check(
        ui("Grid", vec![Expr::Integer(99)]),
        "Grid() {\n\n}.columnsTemplate('1fr 1fr 1fr 1fr 1fr 1fr 1fr 1fr 1fr 1fr 1fr 1fr')",
    );
    check(ui("Grid", vec![number(f64::NAN)]), "Grid() {\n\n}.columnsTemplate('1fr')");
}

#[test]
fn loops() {
    let row = || closure(vec![9], vec![Stmt::Break, Stmt::Return(Some(ui("Text", vec![Expr::LocalGet(9)])))]);
    check(
        ui("VStack", vec![map(Expr::Array(vec![text("a"), number(1.5), Expr::Null]), row())]),
        "Column({ space: 8 }) {\n    ForEach(['a', 1.5, null], (__item: any) => {\n            \
         Text(__item).fontSize(20)\n        }, (__item: any) => __item)\n}",
    );
    check(
        map(Expr::Integer(1), row()),
        "ForEach([/* unsupported ForEach source */], (__item: any) => {\n    \
         Text(__item).fontSize(20)\n}, (__item: any) => __item)",
    );
    check(
        map(Expr::LocalGet(77), closure(vec![], vec![])),
        "ForEach([/* unresolved ForEach source — needs Phase 2 v6 state binding */], (__item: any) => {\n    \
         Text('[non-closure ForEach body]').fontSize(16).fontColor('#888888')\n}, (__item: any) => __item)",
    );
}

#[test]
fn eager_lists() {
    check(
        ui("LazyVStack", vec![Expr::Array(vec![ui("Spacer", vec![])])]),
        "// LazyVStack with explicit children: rendered eagerly as Column.\n\
         // For real lazy rendering, pass `items.map(item => Widget)`.\n\
         Column({ space: 8 }) {\n    Blank()\n}",
    );
}

#[test]
fn lazy_lists_inside_each_other_have_their_own_sources() {
    let inner = ui(
        "LazyVStack",
        vec![map(
            Expr::Array(vec![number(2.0)]),
            closure(vec![8], vec![Stmt::Expr(ui("Spacer", vec![]))]),
        )],
    );
    let outer = ui(
        "LazyVStack",
        vec![map(Expr::Array(vec![number(1.0)]), closure(vec![9], vec![Stmt::Expr(inner)]))],
    );
    let mut m = module(vec![app(outer)]);
    let r = emit_index_ets(&mut m).unwrap().unwrap();
    let s = &r.ets_source;
    assert!(s.contains(
        "    @State lazy_source_0: PerryListDataSource = new PerryListDataSource([2]);\n    \
         @State lazy_source_1: PerryListDataSource = new PerryListDataSource([1]);\n"
    ));
    let at0 = s.find("LazyForEach(this.lazy_source_0").unwrap();
    let at1 = s.find("LazyForEach(this.lazy_source_1").unwrap();
    assert!(at1 < at0);
    assert_eq!(s.matches("class PerryListDataSource").count(), 1);
    assert!(s.contains(
        "            List() {\n                LazyForEach(this.lazy_source_1, (__item: any) => {\n                    \
         ListItem() {\n"
    ));
}

#[test]
fn lazy_lists_without_a_body() {
    let mut m = module(vec![app(ui(
        "LazyVStack",
        vec![map(Expr::Array(vec![]), closure(vec![1], vec![]))],
    ))]);
    let r = emit_index_ets(&mut m).unwrap().unwrap();
    assert!(r.ets_source.contains("Text('[empty body]').fontSize(16)\n"));
    let mut m = module(vec![app(ui("LazyVStack", vec![map(Expr::Array(vec![]), number(1.0))]))]);
    let r = emit_index_ets(&mut m).unwrap().unwrap();
    assert!(r.ets_source.contains("Text('[non-closure ForEach body]').fontSize(16)\n"));
}

// --- Variables ---------------------------------------------------------------

#[test]
fn constants_are_followed() {
    let mut m = module(vec![
        constant(1, ui("Text", vec![text("hi")])),
        constant(2, ui("VStack", vec![Expr::Array(vec![Expr::LocalGet(1), Expr::LocalGet(1)])])),
        app(Expr::LocalGet(2)),
    ]);
    let r = emit_index_ets(&mut m).unwrap().unwrap();
    assert_eq!(
        r.ets_source,
        page("Column({ space: 8 }) {\n    Text('hi').fontSize(20)\n    Text('hi').fontSize(20)\n}")
    );
}

#[test]
fn only_one_step_and_only_constants_are_followed() {
    let unrecognized = "// unrecognized body expression (must be a perry/ui widget call)\n\
        Text('[unrecognized body]').fontSize(16).fontColor('#888888')";
    let mut m = module(vec![
        constant(1, ui("Spacer", vec![])),
        constant(2, Expr::LocalGet(1)),
        app(Expr::LocalGet(2)),
    ]);
    assert_eq!(emit_index_ets(&mut m).unwrap().unwrap().ets_source, page(unrecognized));
    let mut m = module(vec![variable(1, ui("Spacer", vec![])), app(Expr::LocalGet(1))]);
    assert_eq!(emit_index_ets(&mut m).unwrap().unwrap().ets_source, page(unrecognized));
}

#[test]
fn bindings_in_a_circle_have_no_page() {
    let stack = |id: u32| ui("VStack", vec![Expr::Array(vec![Expr::LocalGet(id)])]);
    let build = || module(vec![constant(1, stack(2)), constant(2, stack(1)), app(Expr::LocalGet(1))]);
    let mut m = build();
    assert!(matches!(emit_index_ets(&mut m), Err(EmitError::EndlessTree)));
    assert_eq!(format!("{:?}", m), format!("{:?}", build()));
}

#[test]
fn long_chains_of_bindings_have_a_page() {
    let mut init = vec![constant(0, ui("Spacer", vec![]))];
    for id in 1..30u32 {
        init.push(constant(id, ui("ScrollView", vec![Expr::Array(vec![Expr::LocalGet(id - 1)])])));
    }
    init.push(app(Expr::LocalGet(29)));
    let mut m = module(init);
    let r = emit_index_ets(&mut m).unwrap().unwrap();
    assert_eq!(r.ets_source.matches("Scroll()").count(), 29);
    assert_eq!(r.ets_source.matches("Blank()").count(), 1);
}

#[test]
fn handlers_may_name_their_own_widget() {
    let button = ui(
        "Button",
        vec![text("b"), closure(vec![], vec![Stmt::Expr(Expr::LocalGet(1))])],
    );
    let mut m = module(vec![constant(1, button), app(Expr::LocalGet(1))]);
    assert!(emit_index_ets(&mut m).unwrap().is_some());
}

#[test]
fn bindings_are_read_at_the_top() {
    let v = vec![constant(1, number(1.0)), variable(2, number(2.0)), constant(1, number(3.0))];
    let m = collect_const_bindings(&v);
    assert_eq!(m.len(), 1);
    assert_eq!(format!("{:?}", m[&1]), format!("{:?}", number(3.0)));
}

// --- The call ------------------------------------------------------------------

#[test]
fn only_the_first_call_goes() {
    let mut m = module(vec![
        Stmt::Expr(ui("App", vec![])),
        Stmt::Expr(ui("App", vec![object(vec![("title", text("t"))])])),
        app(ui("Spacer", vec![])),
        app(ui("Divider", vec![])),
    ]);
    let r = emit_index_ets(&mut m).unwrap().unwrap();
    assert_eq!(r.ets_source, page("Blank()"));
    let expected = vec![
        Stmt::Expr(ui("App", vec![])),
        Stmt::Expr(ui("App", vec![object(vec![("title", text("t"))])])),
        Stmt::Expr(number(0.0)),
        app(ui("Divider", vec![])),
    ];
    assert_eq!(format!("{:?}", m.init), format!("{:?}", expected));
}

#[test]
fn module_without_the_call_is_untouched() {
    let build = || {
        module(vec![
            constant(1, ui("state", vec![number(0.0)])),
            Stmt::Expr(call_member(1, "set", vec![number(1.0)])),
        ])
    };
    let mut m = build();
    assert!(emit_index_ets(&mut m).unwrap().is_none());
    assert_eq!(format!("{:?}", m), format!("{:?}", build()));
}

#[test]
fn body_of_a_closed_shape() {
    let mut m = module(vec![Stmt::Expr(ui(
        "App",
        vec![Expr::New {
            class_name: "__AnonShape_7".to_string(),
            args: vec![text("t"), ui("Divider", vec![])],
        }],
    ))]);
    m.classes.push(shape("__AnonShape_7", vec!["title", "body"]));
    let r = emit_index_ets(&mut m).unwrap().unwrap();
    assert_eq!(r.ets_source, page("Divider()"));
}

/// The slots that the source calls, from left to right.
fn called_slots(source: &str) -> Vec<usize> {
    let mut slots = Vec::new();
    let mut rest = source;
    while let Some(i) = rest.find("perryEntry.invokeCallback") {
        rest = &rest[i + "perryEntry.invokeCallback".len()..];
        let open = rest.find('(').unwrap();
        let digits: String =
            rest[open + 1..].chars().take_while(|c| c.is_ascii_digit()).collect();
        slots.push(digits.parse().unwrap());
    }
    slots
}

#[test]
fn slots_are_called_once_each_in_declaration_order() {
    let act = || closure(vec![], vec![]);
    let item = |l: &str| object(vec![("label", text(l)), ("action", act())]);
    let mut m = module(vec![
        constant(1, ui("Button", vec![text("bound"), act()])),
        app(ui(
            "VStack",
            vec![Expr::Array(vec![
                ui("Button", vec![text("a"), act()]),
                ui("Button", vec![text("no action")]),
                ui("HStack", vec![Expr::Array(vec![
                    ui("Toggle", vec![text("t"), act()]),
                    ui("Slider", vec![number(0.0), number(9.0), act()]),
                ])]),
                ui("Menu", vec![Expr::Array(vec![item("x"), Expr::Null, item("y")])]),
                Expr::LocalGet(1),
                ui("Tabs", vec![Expr::Array(vec![object(vec![
                    ("label", text("one")),
                    ("body", ui("TextField", vec![text("f"), act()])),
                ])])]),
                ui("Grid", vec![number(2.0), Expr::Array(vec![
                    ui("Picker", vec![Expr::Array(vec![text("p")]), act()]),
                    ui("ScrollView", vec![Expr::Array(vec![
                        ui("Section", vec![text("s"), Expr::Array(vec![
                            ui("Button", vec![text("deep"), act()]),
                        ])]),
                    ])]),
                ])]),
            ])],
        )),
    ]);
    let r = emit_index_ets(&mut m).unwrap().unwrap();
    assert_eq!(r.callbacks.len(), 9);
    assert_eq!(called_slots(&r.ets_source), (0..9).collect::<Vec<usize>>());
}

// --- State -----------------------------------------------------------------------

#[test]
fn state_variables_are_numbered_and_shown() {
    let mut m = module(vec![
        constant(1, ui("state", vec![number(0.0)])),
        variable(2, ui("state", vec![text("x")])),
        constant(3, ui("state", vec![Expr::Bool(true)])),
        app(ui(
            "VStack",
            vec![Expr::Array(vec![
                call_member(1, "text", vec![]),
                call_member(2, "text", vec![]),
                call_member(3, "text", vec![]),
                ui(
                    "Button",
                    vec![
                        text("b"),
                        closure(vec![], vec![Stmt::Expr(call_member(2, "set", vec![text("y")]))]),
                    ],
                ),
            ])],
        )),
    ]);
    let r = emit_index_ets(&mut m).unwrap().unwrap();
    let s = &r.ets_source;
    assert!(s.contains(
        "    @State text___state_0: string = '0';\n    @State text___state_1: string = 'x';\n    \
         @State text___state_2: string = 'true';\n"
    ));
    assert!(s.contains("case '__state_1': this.text___state_1 = value; break;\n"));
    assert!(s.contains("Text(this.text___state_2).fontSize(20)"));
    let expected = closure(
        vec![],
        vec![Stmt::Expr(ui("setText", vec![text("__state_1"), text("y")]))],
    );
    assert_eq!(format!("{:?}", r.callbacks[0]), format!("{:?}", expected));
}

#[test]
fn state_calls_are_rewritten_in_expressions_and_statements() {
    let init = vec![constant(1, ui("state", vec![Expr::Integer(-5)]))];
    let reg = collect_state_bindings(&init);
    assert_eq!(reg.len(), 1);
    assert_eq!(reg[&1].synth_id, "__state_0");
    assert_eq!(reg[&1].initial_str, "-5");
    let set = || call_member(1, "set", vec![text("v")]);
    let done = || ui("setText", vec![text("__state_0"), text("v")]);
    let sum = |e: Expr| Expr::Binary {
        op: BinaryOp::Add,
        left: Box::new(e),
        right: Box::new(Expr::Null),
    };
    let mut e = Expr::Array(vec![set(), sum(set()), object(vec![("k", set())])]);
    rewrite_state_in_expr(&mut e, &reg);
    let expected = Expr::Array(vec![done(), sum(done()), object(vec![("k", done())])]);
    assert_eq!(format!("{:?}", e), format!("{:?}", expected));
    let mut other = call_member(2, "set", vec![text("v")]);
    rewrite_state_in_expr(&mut other, &reg);
    assert_eq!(format!("{:?}", other), format!("{:?}", call_member(2, "set", vec![text("v")])));
    let mut v = vec![
        Stmt::While { condition: set(), body: vec![Stmt::Expr(set())] },
        Stmt::Throw(set()),
    ];
    rewrite_state_calls_in_stmts(&mut v, &reg);
    let expected = vec![
        Stmt::While { condition: done(), body: vec![Stmt::Expr(done())] },
        Stmt::Throw(done()),
    ];
    assert_eq!(format!("{:?}", v), format!("{:?}", expected));
}

#[test]
fn no_state_call_is_left_anywhere() {
    let init = vec![
        constant(1, ui("state", vec![number(0.0)])),
        constant(2, ui("state", vec![number(1.0)])),
    ];
    let reg = collect_state_bindings(&init);
    // A value that sets another state is rewritten too.
    let mut e = call_member(1, "set", vec![call_member(2, "set", vec![number(1.0)])]);
    rewrite_state_in_expr(&mut e, &reg);
    let inner = ui("setText", vec![text("__state_1"), number(1.0)]);
    let expected = ui("setText", vec![text("__state_0"), inner]);
    assert_eq!(format!("{:?}", e), format!("{:?}", expected));
    let set = || call_member(1, "set", vec![text("v")]);
    let done = || ui("setText", vec![text("__state_0"), text("v")]);
    let build = |x: &dyn Fn() -> Expr| {
        vec![
            Stmt::Labeled {
                label: "l".to_string(),
                body: Box::new(Stmt::DoWhile { body: vec![Stmt::Expr(x())], condition: x() }),
            },
            Stmt::Try {
                body: vec![Stmt::Throw(x())],
                catch: Some(CatchClause { param: None, body: vec![Stmt::Expr(x())] }),
                finally: Some(vec![Stmt::Expr(closure(vec![], vec![Stmt::Throw(x())]))]),
            },
            Stmt::Switch {
                discriminant: x(),
                cases: vec![SwitchCase { test: Some(x()), body: vec![Stmt::Expr(x())] }],
            },
            Stmt::Expr(Expr::Intrinsic { op: IntrinsicOp::Await, args: vec![x()] }),
        ]
    };
    let mut v = build(&set);
    rewrite_state_calls_in_stmts(&mut v, &reg);
    assert_eq!(format!("{:?}", v), format!("{:?}", build(&done)));
}

#[test]
fn state_calls_are_rewritten_in_the_entire_module() {
    let set = || call_member(1, "set", vec![text("v")]);
    let done = || ui("setText", vec![text("__state_0"), text("v")]);
    let function = |x: &dyn Fn() -> Expr| Function {
        id: 5,
        name: "f".to_string(),
        params: vec![Param {
            id: 9,
            name: "p".to_string(),
            ty: Type::Any,
            default: Some(x()),
            is_rest: false,
        }],
        return_type: Type::Any,
        body: vec![Stmt::Expr(x())],
        is_async: false,
        is_generator: false,
        captures: vec![],
    };
    let class = |x: &dyn Fn() -> Expr| Class {
        name: "C".to_string(),
        native_extends: None,
        fields: vec![ClassField { name: "k".to_string(), init: Some(x()) }],
        constructor: Some(function(x)),
        methods: vec![function(x)],
        getters: vec![("g".to_string(), function(x))],
        setters: vec![("s".to_string(), function(x))],
        static_methods: vec![function(x)],
    };
    let build = |x: &dyn Fn() -> Expr, last: Stmt| Module {
        name: "m".to_string(),
        classes: vec![class(x)],
        functions: vec![function(x)],
        init: vec![
            constant(1, ui("state", vec![number(0.0)])),
            Stmt::Expr(x()),
            last,
        ],
    };
    let mut m = build(&set, app(ui("Spacer", vec![])));
    assert!(emit_index_ets(&mut m).unwrap().is_some());
    let expected = build(&done, Stmt::Expr(number(0.0)));
    assert_eq!(format!("{:?}", m), format!("{:?}", expected));
    // Without a page nothing is rewritten.
    let mut m = build(&set, Stmt::Expr(Expr::Null));
    assert!(emit_index_ets(&mut m).unwrap().is_none());
    let expected = build(&set, Stmt::Expr(Expr::Null));
    assert_eq!(format!("{:?}", m), format!("{:?}", expected));
}

#[test]
fn other_set_calls_keep_their_shape() {
    let reg = collect_state_bindings(&vec![constant(1, ui("state", vec![number(0.0)]))]);
    let done = || ui("setText", vec![text("__state_0"), text("v")]);
    let set = || call_member(1, "set", vec![text("v")]);
    let mut e = call_member(3, "set", vec![set()]);
    rewrite_state_in_expr(&mut e, &reg);
    assert_eq!(format!("{:?}", e), format!("{:?}", call_member(3, "set", vec![done()])));
    let mut e = call_member(1, "set", vec![set(), number(2.0)]);
    rewrite_state_in_expr(&mut e, &reg);
    let expected = call_member(1, "set", vec![done(), number(2.0)]);
    assert_eq!(format!("{:?}", e), format!("{:?}", expected));
    let mut e = call_member(1, "get", vec![set()]);
    rewrite_state_in_expr(&mut e, &reg);
    assert_eq!(format!("{:?}", e), format!("{:?}", call_member(1, "get", vec![done()])));
}

#[test]
fn state_rewriting_without_states_changes_nothing() {
    let build = || vec![Stmt::Expr(call_member(1, "set", vec![text("v")]))];
    let reg = collect_state_bindings(&vec![]);
    assert!(reg.is_empty());
    let mut v = build();
    rewrite_state_calls_in_stmts(&mut v, &reg);
    assert_eq!(format!("{:?}", v), format!("{:?}", build()));
}

// --- Values and styles -------------------------------------------------------------

#[test]
fn values_are_written_as_source() {
    assert_eq!(arkts_value_literal(&text("a'b")), "'a\\'b'");
    assert_eq!(arkts_value_literal(&number(2.0)), "2");
    assert_eq!(arkts_value_literal(&Expr::Integer(9_007_199_254_740_993)), "9007199254740993");
    assert_eq!(arkts_value_literal(&Expr::Bool(false)), "false");
    assert_eq!(arkts_value_literal(&Expr::Undefined), "null");
    let bindings = collect_const_bindings(&vec![
        constant(1, Expr::Array(vec![number(1.0)])),
        constant(2, number(1.0)),
    ]);
    assert_eq!(arkts_array_source(&Expr::LocalGet(1), &bindings), "[1]");
    assert_eq!(
        arkts_array_source(&Expr::LocalGet(2), &bindings),
        "[/* unresolved ForEach source — needs Phase 2 v6 state binding */]"
    );
    assert_eq!(arkts_array_source(&Expr::Array(vec![]), &bindings), "[]");
    assert_eq!(first_string_arg(&vec![text("a")]), Some(&"a".to_string()));
    assert_eq!(first_string_arg(&vec![number(1.0), text("a")]), None);
}

#[test]
fn colors() {
    assert_eq!(arkts_color_value(&text("blue")), "'blue'");
    assert_eq!(arkts_color_value(&number(1.0)), "'#000000'");
    assert_eq!(
        arkts_color_value(&object(vec![
            ("r", number(1.0)),
            ("g", number(0.5)),
            ("b", Expr::Integer(2)),
            ("a", number(0.25)),
        ])),
        "'rgba(255, 128, 510, 0.25)'"
    );
    assert_eq!(arkts_color_value(&object(vec![])), "'rgba(0, 0, 0, 1)'");
    assert_eq!(
        arkts_color_value(&object(vec![("r", text("x")), ("a", Expr::Integer(0))])),
        "'rgba(0, 0, 0, 0)'"
    );
}

#[test]
fn styles() {
    let style = |k: &str, v: Expr| emit_style_modifiers(&fields(vec![(k, v)]));
    assert_eq!(style("backgroundColor", text("red")), ".backgroundColor('red')");
    assert_eq!(style("color", number(1.0)), ".fontColor('#000000')");
    assert_eq!(style("fontSize", number(12.0)), ".fontSize(12)");
    assert_eq!(style("fontSize", text("12")), "");
    assert_eq!(style("fontWeight", Expr::Integer(700)), ".fontWeight(700)");
    assert_eq!(style("fontFamily", text("Mono")), ".fontFamily('Mono')");
    assert_eq!(style("fontFamily", number(1.0)), "");
    assert_eq!(style("borderRadius", number(4.5)), ".borderRadius(4.5)");
    assert_eq!(style("opacity", number(0.5)), ".opacity(0.5)");
    assert_eq!(style("hidden", Expr::Bool(true)), ".visibility(Visibility.Hidden)");
    assert_eq!(style("hidden", Expr::Bool(false)), "");
    assert_eq!(style("padding", number(3.0)), ".padding(3)");
    assert_eq!(
        style("padding", Expr::Integer(9_007_199_254_740_993)),
        ".padding(9007199254740993)"
    );
    assert_eq!(
        style(
            "padding",
            object(vec![("left", number(1.0)), ("top", number(2.0)), ("x", number(3.0))])
        ),
        ".padding({ top: 2, left: 1 })"
    );
    assert_eq!(style("padding", object(vec![])), "");
    assert_eq!(style("padding", text("3")), "");
    assert_eq!(style("borderColor", text("red")), ".border({ color: 'red' })");
    assert_eq!(style("borderWidth", number(2.0)), ".border({ width: 2 })");
    assert_eq!(style("borderWidth", text("2")), "");
    assert_eq!(
        style(
            "animation",
            object(vec![
                ("iterations", number(2.0)),
                ("curve", text("sharp")),
                ("duration", number(300.0)),
                ("delay", number(5.0)),
                ("other", number(5.0)),
            ])
        ),
        ".animation({ iterations: 2, curve: Curve.Sharp, duration: 300, delay: 5 })"
    );
    assert_eq!(style("animation", object(vec![("curve", number(1.0))])), "");
    assert_eq!(style("animation", number(1.0)), "");
    assert_eq!(
        style(
            "shadow",
            object(vec![
                ("blur", number(2.0)),
                ("color", text("red")),
                ("offsetX", number(1.0)),
                ("offsetY", number(-1.0)),
            ])
        ),
        ".shadow({ radius: 2, color: 'red', offsetX: 1, offsetY: -1 })"
    );
    assert_eq!(style("shadow", object(vec![])), "");
    assert_eq!(
        style("textDecoration", text("underline")),
        ".decoration({ type: TextDecorationType.Underline })"
    );
    assert_eq!(
        style("textDecoration", text("strikethrough")),
        ".decoration({ type: TextDecorationType.LineThrough })"
    );
    assert_eq!(
        style("textDecoration", text("line-through")),
        ".decoration({ type: TextDecorationType.LineThrough })"
    );
    assert_eq!(
        style("textDecoration", text("overline")),
        ".decoration({ type: TextDecorationType.Overline })"
    );
    assert_eq!(
        style("textDecoration", text("none")),
        ".decoration({ type: TextDecorationType.None })"
    );
    assert_eq!(style("textDecoration", text("blink")), "");
    assert_eq!(style("gradient", text("x")), "");
}

#[test]
fn border_comes_last() {
    assert_eq!(
        emit_style_modifiers(&fields(vec![
            ("borderColor", text("red")),
            ("opacity", number(1.0)),
            ("borderWidth", number(1.0)),
            ("borderWidth", number(2.0)),
            ("color", text("blue")),
        ])),
        ".opacity(1).fontColor('blue').border({ width: 2, color: 'red' })"
    );
}

#[test]
fn style_is_the_last_argument() {
    check(
        ui("Spacer", vec![object(vec![("opacity", number(0.5))])]),
        "Blank().opacity(0.5)",
    );
    check(
        ui("Button", vec![text("b"), object(vec![("fontSize", number(9.0))])]),
        "Button('b').fontSize(16).fontSize(9)",
    );
}

#[test]
fn style_objects_of_either_shape() {
    let classes = vec![shape("__AnonShape_3", vec!["opacity", "color"]), shape("A", vec!["opacity"])];
    let props = extract_style_object(
        &Expr::New { class_name: "__AnonShape_3".to_string(), args: vec![number(0.5)] },
        &classes,
    );
    let expected = fields(vec![("opacity", number(0.5))]);
    assert_eq!(format!("{:?}", props), format!("{:?}", Some(expected)));
    let other = Expr::New { class_name: "A".to_string(), args: vec![number(0.5)] };
    assert!(extract_style_object(&other, &classes).is_none());
    let unknown = Expr::New { class_name: "__AnonShape_4".to_string(), args: vec![] };
    assert!(extract_style_object(&unknown, &classes).is_none());
    assert!(extract_style_object(&text("x"), &classes).is_none());
}
