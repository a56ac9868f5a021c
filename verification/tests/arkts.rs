#![allow(non_snake_case)]
use perry_passes::arkts::harvest::emit_index_ets;
use perry_passes::hir::{Expr, Module, Num, Param, Stmt, Type};
use perry_passes::num::fmt_num;

fn num(x: f64) -> Num {
    Num { bits: x.to_bits(), text: format!("{}", x) }
}

fn number(x: f64) -> Expr {
    Expr::Number(num(x))
}

fn empty_module() -> Module {
    Module { name: "test".to_string(), classes: vec![], functions: vec![], init: vec![] }
}

fn nmc(method: &str, args: Vec<Expr>) -> Expr {
    Expr::NativeMethodCall {
        module: "perry/ui".to_string(),
        class_name: None,
        object: None,
        method: method.to_string(),
        args,
    }
}

fn app_with_body(body: Expr) -> Stmt {
    Stmt::Expr(Expr::NativeMethodCall {
        module: "perry/ui".to_string(),
        class_name: None,
        object: None,
        method: "App".to_string(),
        args: vec![Expr::Object(vec![("body".to_string(), body)])],
    })
}

fn closure_stub() -> Expr {
    Expr::Closure {
        func_id: 0,
        params: vec![],
        return_type: Type::Any,
        body: vec![],
        captures: vec![],
        mutable_captures: vec![],
        captures_this: false,
        enclosing_class: None,
        is_async: false,
    }
}

#[test]
fn emits_none_for_empty_module() {
    let mut m = empty_module();
    assert!(emit_index_ets(&mut m).unwrap().is_none());
}

#[test]
fn text_strips_app_call() {
    let mut m = empty_module();
    m.init
        .push(app_with_body(nmc("Text", vec![Expr::String("hi".into())])));
    let r = emit_index_ets(&mut m).unwrap().unwrap();
    assert!(r.ets_source.contains("Text('hi').fontSize(20)"));
    assert!(matches!(m.init[0], Stmt::Expr(Expr::Number(_))));
    assert_eq!(r.callbacks.len(), 0);
}

#[test]
fn vstack_with_text_children() {
    let mut m = empty_module();
    m.init.push(app_with_body(nmc(
        "VStack",
        vec![Expr::Array(vec![
            nmc("Text", vec![Expr::String("a".into())]),
            nmc("Text", vec![Expr::String("b".into())]),
        ])],
    )));
    let r = emit_index_ets(&mut m).unwrap().unwrap();
    assert!(r.ets_source.contains("Column({ space: 8 })"));
    assert!(r.ets_source.contains("Text('a').fontSize(20)"));
    assert!(r.ets_source.contains("Text('b').fontSize(20)"));
}

#[test]
fn vstack_with_explicit_spacing() {
    let mut m = empty_module();
    m.init.push(app_with_body(nmc(
        "VStack",
        vec![
            number(16.0),
            Expr::Array(vec![nmc("Text", vec![Expr::String("a".into())])]),
        ],
    )));
    let r = emit_index_ets(&mut m).unwrap().unwrap();
    assert!(r.ets_source.contains("Column({ space: 16 })"));
}

#[test]
fn hstack_emits_row() {
    let mut m = empty_module();
    m.init.push(app_with_body(nmc(
        "HStack",
        vec![Expr::Array(vec![nmc("Spacer", vec![])])],
    )));
    let r = emit_index_ets(&mut m).unwrap().unwrap();
    assert!(r.ets_source.contains("Row({ space: 8 })"));
    assert!(r.ets_source.contains("Blank()"));
}

#[test]
fn button_label_only_no_closure_drops_onclick() {
    let mut m = empty_module();
    m.init.push(app_with_body(nmc(
        "Button",
        vec![
            Expr::String("Save".into()),
            number(0.0),
        ],
    )));
    let r = emit_index_ets(&mut m).unwrap().unwrap();
    assert!(r.ets_source.contains("Button('Save').fontSize(16)"));
    assert!(!r.ets_source.contains(".onClick"));
    assert_eq!(r.callbacks.len(), 0);
}

#[test]
fn button_with_closure_emits_onclick_and_captures_callback() {
    let mut m = empty_module();
    m.init.push(app_with_body(nmc(
        "Button",
        vec![Expr::String("Save".into()), closure_stub()],
    )));
    let r = emit_index_ets(&mut m).unwrap().unwrap();
    assert!(r.ets_source.contains("perryEntry.invokeCallback(0)"));
    assert!(r.ets_source.contains("perryEntry.drainToast()"));
    assert!(r.ets_source.contains("promptAction.showToast"));
    assert_eq!(r.callbacks.len(), 1);
    assert!(matches!(r.callbacks[0], Expr::Closure { .. }));
    assert!(r
        .ets_source
        .contains("import perryEntry from 'libentry.so'"));
    assert!(r
        .ets_source
        .contains("import promptAction from '@ohos.promptAction'"));
}

#[test]
fn multi_button_assigns_sequential_callback_slots() {
    let mut m = empty_module();
    m.init.push(app_with_body(nmc(
        "VStack",
        vec![Expr::Array(vec![
            nmc("Button", vec![Expr::String("First".into()), closure_stub()]),
            nmc(
                "Button",
                vec![Expr::String("Second".into()), closure_stub()],
            ),
        ])],
    )));
    let r = emit_index_ets(&mut m).unwrap().unwrap();
    assert!(r.ets_source.contains("perryEntry.invokeCallback(0)"));
    assert!(r.ets_source.contains("perryEntry.invokeCallback(1)"));
    assert_eq!(r.callbacks.len(), 2);
}

#[test]
fn textfield_placeholder() {
    let mut m = empty_module();
    m.init.push(app_with_body(nmc(
        "TextField",
        vec![Expr::String("Search…".into()), number(0.0)],
    )));
    let r = emit_index_ets(&mut m).unwrap().unwrap();
    assert!(r
        .ets_source
        .contains("TextInput({ placeholder: 'Search…' })"));
}

#[test]
fn toggle_with_label_emits_row() {
    let mut m = empty_module();
    m.init.push(app_with_body(nmc(
        "Toggle",
        vec![Expr::String("Notifications".into()), number(0.0)],
    )));
    let r = emit_index_ets(&mut m).unwrap().unwrap();
    assert!(r.ets_source.contains("Row({ space: 8 })"));
    assert!(r.ets_source.contains("Text('Notifications')"));
    assert!(r
        .ets_source
        .contains("Toggle({ type: ToggleType.Switch, isOn: false })"));
}

#[test]
fn slider_min_max() {
    let mut m = empty_module();
    m.init.push(app_with_body(nmc(
        "Slider",
        vec![
            number(0.0),
            number(100.0),
            number(0.0),
        ],
    )));
    let r = emit_index_ets(&mut m).unwrap().unwrap();
    assert!(r.ets_source.contains("min: 0"));
    assert!(r.ets_source.contains("max: 100"));
}

#[test]
fn divider_no_args() {
    let mut m = empty_module();
    m.init.push(app_with_body(nmc("Divider", vec![])));
    let r = emit_index_ets(&mut m).unwrap().unwrap();
    assert!(r.ets_source.contains("Divider()"));
}

#[test]
fn nested_vstack_in_hstack() {
    let mut m = empty_module();
    m.init.push(app_with_body(nmc(
        "VStack",
        vec![Expr::Array(vec![nmc(
            "HStack",
            vec![Expr::Array(vec![
                nmc("Text", vec![Expr::String("L".into())]),
                nmc("Text", vec![Expr::String("R".into())]),
            ])],
        )])],
    )));
    let r = emit_index_ets(&mut m).unwrap().unwrap();
    assert!(r.ets_source.contains("Column({ space: 8 })"));
    assert!(r.ets_source.contains("Row({ space: 8 })"));
    assert!(r.ets_source.contains("Text('L')"));
    assert!(r.ets_source.contains("Text('R')"));
}

#[test]
fn local_get_escape_follows_const_binding() {
    let mut m = empty_module();
    m.init.push(Stmt::Let {
        id: 7,
        name: "t".to_string(),
        ty: Type::Any,
        mutable: false,
        init: Some(nmc("Text", vec![Expr::String("via let".into())])),
    });
    m.init.push(app_with_body(Expr::LocalGet(7)));
    let r = emit_index_ets(&mut m).unwrap().unwrap();
    assert!(r.ets_source.contains("Text('via let')"));
}

#[test]
fn text_with_id_registers_reactive_slot() {
    let mut m = empty_module();
    m.init.push(app_with_body(nmc(
        "Text",
        vec![
            Expr::String("Count: 0".into()),
            Expr::String("counter".into()),
        ],
    )));
    let r = emit_index_ets(&mut m).unwrap().unwrap();
    assert!(r
        .ets_source
        .contains("@State text_counter: string = 'Count: 0'"));
    assert!(r.ets_source.contains("Text(this.text_counter)"));
    assert!(r
        .ets_source
        .contains("case 'counter': this.text_counter = value; break;"));
}

#[test]
fn text_id_sanitization_drops_invalid_chars() {
    let mut m = empty_module();
    m.init.push(app_with_body(nmc(
        "Text",
        vec![
            Expr::String("hi".into()),
            Expr::String("user-name".into()),
        ],
    )));
    let r = emit_index_ets(&mut m).unwrap().unwrap();
    assert!(r.ets_source.contains("@State text_user_name"));
    assert!(r.ets_source.contains("case 'user-name'"));
}

#[test]
fn toggle_with_closure_emits_onchange_with_invokecallback1() {
    let mut m = empty_module();
    m.init.push(app_with_body(nmc(
        "Toggle",
        vec![Expr::String("Notify".into()), closure_stub()],
    )));
    let r = emit_index_ets(&mut m).unwrap().unwrap();
    assert!(r.ets_source.contains(".onChange((isOn: boolean) => {"));
    assert!(r.ets_source.contains("perryEntry.invokeCallback1(0, isOn)"));
    assert_eq!(r.callbacks.len(), 1);
}

#[test]
fn textfield_with_closure_forwards_value_to_invokecallback1() {
    let mut m = empty_module();
    m.init.push(app_with_body(nmc(
        "TextField",
        vec![Expr::String("Search…".into()), closure_stub()],
    )));
    let r = emit_index_ets(&mut m).unwrap().unwrap();
    assert!(r.ets_source.contains(".onChange((value: string) => {"));
    assert!(r
        .ets_source
        .contains("perryEntry.invokeCallback1(0, value)"));
}

#[test]
fn slider_with_closure_forwards_value_to_invokecallback1() {
    let mut m = empty_module();
    m.init.push(app_with_body(nmc(
        "Slider",
        vec![number(0.0), number(100.0), closure_stub()],
    )));
    let r = emit_index_ets(&mut m).unwrap().unwrap();
    assert!(r
        .ets_source
        .contains(".onChange((value: number, _mode: SliderChangeMode) => {"));
    assert!(r
        .ets_source
        .contains("perryEntry.invokeCallback1(0, value)"));
}

#[test]
fn button_onclick_drains_both_toast_and_text_update_queues() {
    let mut m = empty_module();
    m.init.push(app_with_body(nmc(
        "Button",
        vec![Expr::String("Tap".into()), closure_stub()],
    )));
    let r = emit_index_ets(&mut m).unwrap().unwrap();
    assert!(r.ets_source.contains("perryEntry.drainToast()"));
    assert!(r.ets_source.contains("perryEntry.drainTextUpdate()"));
    assert!(r
        .ets_source
        .contains("this.applyTextUpdate(__u.id, __u.value)"));
}


#[test]
fn animation_modifier_maps_curve_string_to_curve_enum() {
    let mut m = empty_module();
    m.init.push(app_with_body(nmc(
        "Text",
        vec![
            Expr::String("hi".into()),
            Expr::Object(vec![(
                "animation".into(),
                Expr::Object(vec![
                    ("duration".into(), number(300.0)),
                    ("curve".into(), Expr::String("ease-in".into())),
                ]),
            )]),
        ],
    )));
    let r = emit_index_ets(&mut m).unwrap().unwrap();
    assert!(r
        .ets_source
        .contains(".animation({ duration: 300, curve: Curve.EaseIn })"));
}

#[test]
fn shadow_modifier_maps_blur_to_radius_offsets_to_offsetXY() {
    let mut m = empty_module();
    m.init.push(app_with_body(nmc(
        "Text",
        vec![
            Expr::String("hi".into()),
            Expr::Object(vec![(
                "shadow".into(),
                Expr::Object(vec![
                    ("color".into(), Expr::String("black".into())),
                    ("blur".into(), number(8.0)),
                    ("offsetX".into(), number(2.0)),
                    ("offsetY".into(), number(4.0)),
                ]),
            )]),
        ],
    )));
    let r = emit_index_ets(&mut m).unwrap().unwrap();
    assert!(r.ets_source.contains(".shadow({"));
    assert!(r.ets_source.contains("color: 'black'"));
    assert!(r.ets_source.contains("radius: 8"));
    assert!(r.ets_source.contains("offsetX: 2"));
    assert!(r.ets_source.contains("offsetY: 4"));
}

#[test]
fn text_decoration_underline_maps_to_decoration_modifier() {
    let mut m = empty_module();
    m.init.push(app_with_body(nmc(
        "Text",
        vec![
            Expr::String("hi".into()),
            Expr::Object(vec![(
                "textDecoration".into(),
                Expr::String("underline".into()),
            )]),
        ],
    )));
    let r = emit_index_ets(&mut m).unwrap().unwrap();
    assert!(r
        .ets_source
        .contains(".decoration({ type: TextDecorationType.Underline })"));
}

#[test]
fn text_decoration_strikethrough_maps_to_linethrough() {
    let mut m = empty_module();
    m.init.push(app_with_body(nmc(
        "Text",
        vec![
            Expr::String("hi".into()),
            Expr::Object(vec![(
                "textDecoration".into(),
                Expr::String("strikethrough".into()),
            )]),
        ],
    )));
    let r = emit_index_ets(&mut m).unwrap().unwrap();
    assert!(r
        .ets_source
        .contains(".decoration({ type: TextDecorationType.LineThrough })"));
}

#[test]
fn image_app_media_path_maps_to_resource_accessor() {
    let mut m = empty_module();
    m.init.push(app_with_body(nmc(
        "Image",
        vec![Expr::String("@app.media/icon".into())],
    )));
    let r = emit_index_ets(&mut m).unwrap().unwrap();
    assert!(r.ets_source.contains("Image($r('app.media.icon'))"));
    assert!(!r.ets_source.contains("'@app.media/icon'"));
}

#[test]
fn image_plain_url_passes_through_as_string() {
    let mut m = empty_module();
    m.init.push(app_with_body(nmc(
        "Image",
        vec![Expr::String("https://example.com/foo.png".into())],
    )));
    let r = emit_index_ets(&mut m).unwrap().unwrap();
    assert!(r
        .ets_source
        .contains("Image('https://example.com/foo.png')"));
}


#[test]
fn inline_style_object_emits_arkui_modifier_chain() {
    let mut m = empty_module();
    m.init.push(app_with_body(nmc(
        "Button",
        vec![
            Expr::String("Save".into()),
            closure_stub(),
            Expr::Object(vec![
                ("backgroundColor".into(), Expr::String("blue".into())),
                ("borderRadius".into(), number(8.0)),
                ("opacity".into(), number(0.9)),
            ]),
        ],
    )));
    let r = emit_index_ets(&mut m).unwrap().unwrap();
    assert!(r.ets_source.contains(".backgroundColor('blue')"));
    assert!(r.ets_source.contains(".borderRadius(8)"));
    assert!(r.ets_source.contains(".opacity(0.9)"));
}

#[test]
fn inline_style_color_object_emits_rgba() {
    let mut m = empty_module();
    m.init.push(app_with_body(nmc(
        "Text",
        vec![
            Expr::String("hi".into()),
            Expr::Object(vec![(
                "color".into(),
                Expr::Object(vec![
                    ("r".into(), number(0.2)),
                    ("g".into(), number(0.5)),
                    ("b".into(), number(0.95)),
                    ("a".into(), number(1.0)),
                ]),
            )]),
        ],
    )));
    let r = emit_index_ets(&mut m).unwrap().unwrap();
    assert!(r.ets_source.contains(".fontColor('rgba(51, 128, 242, 1)')"));
}

#[test]
fn inline_style_padding_per_side_object() {
    let mut m = empty_module();
    m.init.push(app_with_body(nmc(
        "Text",
        vec![
            Expr::String("hi".into()),
            Expr::Object(vec![(
                "padding".into(),
                Expr::Object(vec![
                    ("top".into(), number(10.0)),
                    ("bottom".into(), number(20.0)),
                ]),
            )]),
        ],
    )));
    let r = emit_index_ets(&mut m).unwrap().unwrap();
    assert!(r.ets_source.contains(".padding({ top: 10, bottom: 20 })"));
}

#[test]
fn inline_style_border_combines_color_and_width() {
    let mut m = empty_module();
    m.init.push(app_with_body(nmc(
        "Text",
        vec![
            Expr::String("hi".into()),
            Expr::Object(vec![
                ("borderColor".into(), Expr::String("red".into())),
                ("borderWidth".into(), number(2.0)),
            ]),
        ],
    )));
    let r = emit_index_ets(&mut m).unwrap().unwrap();
    assert!(r.ets_source.contains(".border({ width: 2, color: 'red' })"));
}

#[test]
fn text_with_id_string_is_NOT_treated_as_style() {
    let mut m = empty_module();
    m.init.push(app_with_body(nmc(
        "Text",
        vec![
            Expr::String("Count: 0".into()),
            Expr::String("counter".into()),
        ],
    )));
    let r = emit_index_ets(&mut m).unwrap().unwrap();
    assert!(r.ets_source.contains("Text(this.text_counter)"));
    assert!(!r.ets_source.contains(".backgroundColor"));
}

#[test]
fn for_each_lowers_array_map_in_vstack() {
    let mut m = empty_module();
    let item_param = Param {
        id: 42,
        name: "item".to_string(),
        ty: Type::Any,
        default: None,
        is_rest: false,
    };
    let inner_text = nmc("Text", vec![Expr::LocalGet(42)]);
    let map_expr = Expr::ArrayMap {
        array: Box::new(Expr::Array(vec![
            Expr::String("a".into()),
            Expr::String("b".into()),
            Expr::String("c".into()),
        ])),
        callback: Box::new(Expr::Closure {
            func_id: 0,
            params: vec![item_param],
            return_type: Type::Any,
            body: vec![Stmt::Return(Some(inner_text))],
            captures: vec![],
            mutable_captures: vec![],
            captures_this: false,
            enclosing_class: None,
            is_async: false,
        }),
    };
    m.init.push(app_with_body(nmc(
        "VStack",
        vec![Expr::Array(vec![map_expr])],
    )));
    let r = emit_index_ets(&mut m).unwrap().unwrap();
    assert!(r
        .ets_source
        .contains("ForEach(['a', 'b', 'c'], (__item: any)"));
    assert!(r.ets_source.contains("Text(__item)"));
}

#[test]
fn tabs_emits_tabcontent_per_spec() {
    let mut m = empty_module();
    let tab1 = Expr::Object(vec![
        ("label".into(), Expr::String("Home".into())),
        (
            "body".into(),
            nmc("Text", vec![Expr::String("home content".into())]),
        ),
    ]);
    let tab2 = Expr::Object(vec![
        ("label".into(), Expr::String("Settings".into())),
        (
            "body".into(),
            nmc("Text", vec![Expr::String("settings".into())]),
        ),
    ]);
    m.init.push(app_with_body(nmc(
        "Tabs",
        vec![Expr::Array(vec![tab1, tab2])],
    )));
    let r = emit_index_ets(&mut m).unwrap().unwrap();
    assert!(r.ets_source.contains("Tabs() {"));
    assert!(r.ets_source.contains(".tabBar('Home')"));
    assert!(r.ets_source.contains(".tabBar('Settings')"));
    assert!(r.ets_source.contains("Text('home content')"));
    assert!(r.ets_source.contains("Text('settings')"));
}

#[test]
fn menu_emits_buttons_per_item() {
    let mut m = empty_module();
    let item1 = Expr::Object(vec![
        ("label".into(), Expr::String("Edit".into())),
        ("action".into(), closure_stub()),
    ]);
    let item2 = Expr::Object(vec![
        ("label".into(), Expr::String("Delete".into())),
        ("action".into(), closure_stub()),
    ]);
    m.init.push(app_with_body(nmc(
        "Menu",
        vec![Expr::Array(vec![item1, item2])],
    )));
    let r = emit_index_ets(&mut m).unwrap().unwrap();
    assert!(r.ets_source.contains("Button('Edit')"));
    assert!(r.ets_source.contains("Button('Delete')"));
    assert!(r.ets_source.contains("perryEntry.invokeCallback(0)"));
    assert!(r.ets_source.contains("perryEntry.invokeCallback(1)"));
    assert_eq!(r.callbacks.len(), 2);
}

#[test]
fn grid_emits_columns_template_and_griditems() {
    let mut m = empty_module();
    m.init.push(app_with_body(nmc(
        "Grid",
        vec![
            number(3.0),
            Expr::Array(vec![
                nmc("Text", vec![Expr::String("a".into())]),
                nmc("Text", vec![Expr::String("b".into())]),
                nmc("Text", vec![Expr::String("c".into())]),
            ]),
        ],
    )));
    let r = emit_index_ets(&mut m).unwrap().unwrap();
    assert!(r.ets_source.contains("Grid() {"));
    assert!(r.ets_source.contains(".columnsTemplate('1fr 1fr 1fr')"));
    assert!(r.ets_source.contains("GridItem()"));
    assert!(r.ets_source.contains("Text('a')"));
    assert!(r.ets_source.contains("Text('c')"));
}

#[test]
fn modal_emits_placeholder_with_runtime_hint() {
    let mut m = empty_module();
    m.init.push(app_with_body(nmc(
        "Modal",
        vec![Expr::String("Title".into())],
    )));
    let r = emit_index_ets(&mut m).unwrap().unwrap();
    assert!(r.ets_source.contains("// Modal:"));
    assert!(r.ets_source.contains("showDialog"));
}


fn state_call(initial: Expr) -> Expr {
    Expr::NativeMethodCall {
        module: "perry/ui".to_string(),
        class_name: None,
        object: None,
        method: "state".to_string(),
        args: vec![initial],
    }
}

fn state_method_call(state_id: u32, method: &str, args: Vec<Expr>) -> Expr {
    Expr::Call {
        callee: Box::new(Expr::PropertyGet {
            object: Box::new(Expr::LocalGet(state_id)),
            property: method.to_string(),
        }),
        args,
        type_args: vec![],
    }
}

#[test]
fn state_text_emits_reactive_text_with_synth_id() {
    let mut m = empty_module();
    m.init.push(Stmt::Let {
        id: 5,
        name: "count".to_string(),
        ty: Type::Any,
        mutable: false,
        init: Some(state_call(number(0.0))),
    });
    m.init
        .push(app_with_body(state_method_call(5, "text", vec![])));
    let r = emit_index_ets(&mut m).unwrap().unwrap();
    assert!(r.ets_source.contains("Text(this.text___state_0)"));
    assert!(r.ets_source.contains("@State text___state_0: string = '0'"));
}

#[test]
fn state_set_in_closure_rewrites_to_settext() {
    let mut m = empty_module();
    m.init.push(Stmt::Let {
        id: 5,
        name: "count".to_string(),
        ty: Type::Any,
        mutable: false,
        init: Some(state_call(number(0.0))),
    });
    let closure = Expr::Closure {
        func_id: 0,
        params: vec![],
        return_type: Type::Any,
        body: vec![Stmt::Expr(state_method_call(
            5,
            "set",
            vec![number(5.0)],
        ))],
        captures: vec![],
        mutable_captures: vec![],
        captures_this: false,
        enclosing_class: None,
        is_async: false,
    };
    m.init.push(app_with_body(nmc(
        "Button",
        vec![Expr::String("+".into()), closure],
    )));
    let r = emit_index_ets(&mut m).unwrap().unwrap();
    assert_eq!(r.callbacks.len(), 1);
    let captured = &r.callbacks[0];
    if let Expr::Closure { body, .. } = captured {
        let has_settext = body.iter().any(|s| {
            matches!(s, Stmt::Expr(Expr::NativeMethodCall { method, .. }) if method == "setText")
        });
        assert!(
            has_settext,
            "closure body should have been rewritten to setText"
        );
    } else {
        panic!("expected Closure in callback registry");
    }
}

#[test]
fn multiple_state_decls_get_unique_ids() {
    let mut m = empty_module();
    m.init.push(Stmt::Let {
        id: 1,
        name: "count".to_string(),
        ty: Type::Any,
        mutable: false,
        init: Some(state_call(number(0.0))),
    });
    m.init.push(Stmt::Let {
        id: 2,
        name: "name".to_string(),
        ty: Type::Any,
        mutable: false,
        init: Some(state_call(Expr::String("Alice".into()))),
    });
    m.init.push(app_with_body(nmc(
        "VStack",
        vec![Expr::Array(vec![
            state_method_call(1, "text", vec![]),
            state_method_call(2, "text", vec![]),
        ])],
    )));
    let r = emit_index_ets(&mut m).unwrap().unwrap();
    assert!(r.ets_source.contains("@State text___state_0: string = '0'"));
    assert!(r
        .ets_source
        .contains("@State text___state_1: string = 'Alice'"));
    assert!(r.ets_source.contains("Text(this.text___state_0)"));
    assert!(r.ets_source.contains("Text(this.text___state_1)"));
}

#[test]
fn unsupported_widget_degrades_with_comment_not_error() {
    let mut m = empty_module();
    m.init.push(app_with_body(nmc(
        "Canvas",
        vec![number(100.0), number(100.0)],
    )));
    let r = emit_index_ets(&mut m).unwrap().unwrap();
    assert!(r
        .ets_source
        .contains("// unsupported perry/ui widget: Canvas"));
    assert!(r.ets_source.contains("Text('[unsupported: Canvas]')"));
}

#[test]
fn image_with_src() {
    let mut m = empty_module();
    m.init.push(app_with_body(nmc(
        "Image",
        vec![Expr::String("logo.png".into())],
    )));
    let r = emit_index_ets(&mut m).unwrap().unwrap();
    assert!(r
        .ets_source
        .contains("Image('logo.png').width('100%').height(200)"));
}

#[test]
fn imagefile_alias_emits_same_shape() {
    let mut m = empty_module();
    m.init.push(app_with_body(nmc(
        "ImageFile",
        vec![Expr::String("photo.jpg".into())],
    )));
    let r = emit_index_ets(&mut m).unwrap().unwrap();
    assert!(r.ets_source.contains("Image('photo.jpg')"));
}

#[test]
fn scrollview_with_children() {
    let mut m = empty_module();
    m.init.push(app_with_body(nmc(
        "ScrollView",
        vec![Expr::Array(vec![
            nmc("Text", vec![Expr::String("a".into())]),
            nmc("Text", vec![Expr::String("b".into())]),
        ])],
    )));
    let r = emit_index_ets(&mut m).unwrap().unwrap();
    assert!(r.ets_source.contains("Scroll() {"));
    assert!(r.ets_source.contains("Column({ space: 8 })"));
    assert!(r.ets_source.contains("Text('a').fontSize(20)"));
    assert!(r.ets_source.contains("Text('b').fontSize(20)"));
}

#[test]
fn lazyvstack_emits_column_with_deferral_comment() {
    let mut m = empty_module();
    m.init.push(app_with_body(nmc(
        "LazyVStack",
        vec![Expr::Array(vec![
            nmc("Text", vec![Expr::String("row 0".into())]),
            nmc("Text", vec![Expr::String("row 1".into())]),
        ])],
    )));
    let r = emit_index_ets(&mut m).unwrap().unwrap();
    assert!(r
        .ets_source
        .contains("LazyVStack with explicit children: rendered eagerly as Column"));
    assert!(r.ets_source.contains("Column({ space: 8 })"));
    assert!(r.ets_source.contains("Text('row 0')"));
}


#[test]
fn lazyvstack_with_array_map_emits_lazy_for_each() {
    let mut m = empty_module();
    let item_param = Param {
        id: 99,
        name: "item".to_string(),
        ty: Type::Any,
        default: None,
        is_rest: false,
    };
    let inner_text = nmc("Text", vec![Expr::LocalGet(99)]);
    let map_expr = Expr::ArrayMap {
        array: Box::new(Expr::Array(vec![
            Expr::String("a".into()),
            Expr::String("b".into()),
        ])),
        callback: Box::new(Expr::Closure {
            func_id: 0,
            params: vec![item_param],
            return_type: Type::Any,
            body: vec![Stmt::Return(Some(inner_text))],
            captures: vec![],
            mutable_captures: vec![],
            captures_this: false,
            enclosing_class: None,
            is_async: false,
        }),
    };
    m.init
        .push(app_with_body(nmc("LazyVStack", vec![map_expr])));
    let r = emit_index_ets(&mut m).unwrap().unwrap();
    assert!(r.ets_source.contains("List() {"));
    assert!(r.ets_source.contains("LazyForEach(this.lazy_source_0"));
    assert!(r.ets_source.contains("ListItem()"));
    assert!(r.ets_source.contains("Text(__item)"));
    assert!(r
        .ets_source
        .contains("class PerryListDataSource implements IDataSource"));
    assert!(r.ets_source.contains(
        "@State lazy_source_0: PerryListDataSource = new PerryListDataSource(['a', 'b'])"
    ));
}

#[test]
fn lazyvstack_no_array_map_skips_lazy_class_emission() {
    let mut m = empty_module();
    m.init.push(app_with_body(nmc(
        "LazyVStack",
        vec![Expr::Array(vec![nmc(
            "Text",
            vec![Expr::String("hi".into())],
        )])],
    )));
    let r = emit_index_ets(&mut m).unwrap().unwrap();
    assert!(!r.ets_source.contains("class PerryListDataSource"));
    assert!(!r.ets_source.contains("LazyForEach"));
}

#[test]
fn picker_with_options_and_closure() {
    let mut m = empty_module();
    m.init.push(app_with_body(nmc(
        "Picker",
        vec![
            Expr::Array(vec![
                Expr::String("Red".into()),
                Expr::String("Green".into()),
                Expr::String("Blue".into()),
            ]),
            closure_stub(),
        ],
    )));
    let r = emit_index_ets(&mut m).unwrap().unwrap();
    assert!(r
        .ets_source
        .contains("TextPicker({ range: ['Red', 'Green', 'Blue'], value: 'Red' })"));
    assert!(r
        .ets_source
        .contains(".onChange((_value: string, index: number) => {"));
    assert!(r
        .ets_source
        .contains("perryEntry.invokeCallback1(0, index)"));
    assert_eq!(r.callbacks.len(), 1);
}

#[test]
fn progressview_with_default_value_and_total() {
    let mut m = empty_module();
    m.init.push(app_with_body(nmc("ProgressView", vec![])));
    let r = emit_index_ets(&mut m).unwrap().unwrap();
    assert!(r
        .ets_source
        .contains("Progress({ value: 0, total: 100, type: ProgressType.Linear })"));
}

#[test]
fn progressview_with_explicit_value() {
    let mut m = empty_module();
    m.init.push(app_with_body(nmc(
        "ProgressView",
        vec![number(42.0), number(200.0)],
    )));
    let r = emit_index_ets(&mut m).unwrap().unwrap();
    assert!(r
        .ets_source
        .contains("Progress({ value: 42, total: 200, type: ProgressType.Linear })"));
}

#[test]
fn section_with_title_and_children() {
    let mut m = empty_module();
    m.init.push(app_with_body(nmc(
        "Section",
        vec![
            Expr::String("Personal Info".into()),
            Expr::Array(vec![
                nmc("Text", vec![Expr::String("name".into())]),
                nmc("Text", vec![Expr::String("email".into())]),
            ]),
        ],
    )));
    let r = emit_index_ets(&mut m).unwrap().unwrap();
    assert!(r.ets_source.contains("Column({ space: 4 })"));
    assert!(r
        .ets_source
        .contains("Text('Personal Info').fontSize(14).fontColor('#888888')"));
    assert!(r.ets_source.contains("Text('name').fontSize(20)"));
    assert!(r.ets_source.contains("Text('email').fontSize(20)"));
}

#[test]
fn fmt_num_drops_decimal_for_whole_numbers() {
    assert_eq!(fmt_num(&num(8.0)), "8");
    assert_eq!(fmt_num(&num(16.0)), "16");
    assert_eq!(fmt_num(&num(1.5)), "1.5");
    assert_eq!(fmt_num(&num(-3.0)), "-3");
}
