use render_graph::common::{default_range_i32, RangedData, Reset, TextStyle, UiLimit};
use render_graph::connections::{
    input_param_kind, ComputedInputs, ComputedShaderInput, ConnectionType, InputDef, InputParamKind, NodeInputDef,
    NodeOutputDef, OutputDef, ValueDef,
};
use render_graph::gl_expression::{
    build_shader_from_snippet, parse_gl_type, shader_for_snippet, GlExpr, GlExpressionUpdater, GlType, SHADER_HEAD, SHADER_TAIL,
};
use render_graph::names::UniqueNodeName;
use render_graph::node_types::NodeType;
use render_graph::plugin::param_name;
use render_graph::prop_ui::{path_label, popup_owner_after, select_menu_value, ParamClicks, ParamKey};
use render_graph::graph::NodeId;
use render_graph::strings::{replace_spaces, str_contains, str_eq};

#[test]
fn unique_name_lowercases_and_numbers() {
    let u = UniqueNodeName::new("My Blur Node".to_string(), 2);
    assert_eq!(u.code_name, "my_blur_node2");
    assert_eq!(u.to_string(), "my_blur_node2");
    assert_eq!(u.name, "My Blur Node");
    assert_eq!(UniqueNodeName::new("Blur".to_string(), 0).code_name, "blur");
    assert_eq!(UniqueNodeName::new("A".to_string(), 120).code_name, "a120");
    assert!(!UniqueNodeName::new(" Two  Spaces ".to_string(), 31).code_name.contains(' '));
}

#[test]
fn string_helpers() {
    assert_eq!(UniqueNodeName::new("ÀbC".to_string(), 0).code_name, "àbc");
    assert!(str_contains("expression", "press"));
    assert!(str_contains("abc", ""));
    assert!(!str_contains("ab", "abc"));
    assert!(!str_contains("abc", "cb"));
    assert!(str_eq("vec2", "vec2"));
    assert!(!str_eq("vec2", "vec3"));
    assert_eq!(replace_spaces(" a b "), "_a_b_");
    assert_eq!(UniqueNodeName::new("n".to_string(), 4096).code_name, "n4096");
}

#[test]
fn host_parameter_names() {
    assert_eq!(param_name("Expression", "text"), "Exp.text");
    assert_eq!(param_name("ab", "x"), "ab.x");
}

#[test]
fn file_button_labels() {
    assert_eq!(path_label(None), "Open");
    assert_eq!(path_label(Some(None)), "???");
    assert_eq!(path_label(Some(Some("/short/path.obj"))), "/short/path.obj");
    let long = "/a/very/long/directory/name/with/models/cube.obj";
    let label = path_label(Some(Some(long)));
    assert_eq!(label.len(), 30);
    assert_eq!(label, &long[long.len() - 30..]);
    let exact = "123456789012345678901234567890";
    assert_eq!(path_label(Some(Some(exact))), exact);
}

#[test]
fn menu_takes_the_last_clicked_entry() {
    let mapping = vec![("a".to_string(), 10), ("b".to_string(), 20), ("c".to_string(), 30)];
    assert_eq!(select_menu_value(5, &mapping, &vec![false, false, false]), (5, false));
    assert_eq!(select_menu_value(5, &mapping, &vec![false, true, false]), (20, true));
    assert_eq!(select_menu_value(5, &mapping, &vec![true, false, true]), (30, true));
    assert_eq!(select_menu_value(5, &vec![], &vec![]), (5, false));
}

fn clicks() -> ParamClicks {
    ParamClicks {
        secondary_on_param: false,
        param_clicked: false,
        param_clicked_elsewhere: false,
        popup_clicked_elsewhere: false,
        changed: false,
    }
}

#[test]
fn animator_popup_opens_and_closes() {
    let key = ParamKey { node: NodeId { key: 1 }, name: "amount".to_string() };
    let other = ParamKey { node: NodeId { key: 2 }, name: "amount".to_string() };

    let (owner, shown) = popup_owner_after(None, &key, clicks());
    assert!(owner.is_none() && !shown);

    let (owner, shown) = popup_owner_after(None, &key, ParamClicks { secondary_on_param: true, ..clicks() });
    assert!(shown);
    let owner = owner.unwrap();
    assert_eq!(owner.node, key.node);
    assert_eq!(owner.name, "amount");

    let (kept, shown) = popup_owner_after(Some(owner.clone()), &key, ParamClicks { param_clicked_elsewhere: true, ..clicks() });
    assert!(shown && kept.is_some());

    let (closed, shown) = popup_owner_after(
        Some(owner.clone()),
        &key,
        ParamClicks { param_clicked_elsewhere: true, popup_clicked_elsewhere: true, ..clicks() },
    );
    assert!(shown && closed.is_none());

    let (closed, _) = popup_owner_after(Some(owner.clone()), &key, ParamClicks { param_clicked: true, ..clicks() });
    assert!(closed.is_none());

    let (still, shown) = popup_owner_after(Some(other.clone()), &key, ParamClicks { param_clicked: true, ..clicks() });
    assert!(!shown);
    assert_eq!(still.unwrap().node, other.node);

    let (closed, _) = popup_owner_after(Some(other), &key, ParamClicks { changed: true, ..clicks() });
    assert!(closed.is_none());
}

#[test]
fn gl_types_of_expressions() {
    assert_eq!(GlType::from_length(1), GlType::Float);
    assert_eq!(GlType::from_length(3), GlType::Vec3);
    assert_eq!(GlType::from_length(0), GlType::Vec4);
    assert_eq!(GlType::from_length(7), GlType::Vec4);
    assert_eq!(GlType::Vec2.max(GlType::Vec3), GlType::Vec3);
    assert_eq!(GlType::Vec4.max(GlType::Float), GlType::Vec4);
    assert_eq!(parse_gl_type(&GlExpr::FloatConst), GlType::Float);
    assert_eq!(parse_gl_type(&GlExpr::Dot(2)), GlType::Vec2);
    assert_eq!(parse_gl_type(&GlExpr::FunCall("vec3".to_string())), GlType::Vec3);
    assert_eq!(parse_gl_type(&GlExpr::FunCall("sin".to_string())), GlType::Vec4);
    let sum = GlExpr::Binary(Box::new(GlExpr::FloatConst), Box::new(GlExpr::Dot(2)));
    assert_eq!(parse_gl_type(&sum), GlType::Vec2);
    assert_eq!(parse_gl_type(&GlExpr::Other), GlType::Vec4);
}

#[test]
fn snippets_are_wrapped_by_type() {
    let wrap = |s: &str, e: Option<&GlExpr>| {
        let shader = build_shader_from_snippet(s, e);
        assert!(shader.starts_with(SHADER_HEAD) && shader.ends_with(SHADER_TAIL));
        shader[SHADER_HEAD.len()..shader.len() - SHADER_TAIL.len()].to_string()
    };
    assert_eq!(wrap("1.0", Some(&GlExpr::FloatConst)), "vec4(vec3(1.0),1)");
    assert_eq!(wrap("pixel.xy", Some(&GlExpr::Dot(2))), "vec4(pixel.xy, 0,1)");
    assert_eq!(wrap("pixel.rgb", Some(&GlExpr::Dot(3))), "vec4(pixel.rgb,1");
    assert_eq!(wrap("pixel", Some(&GlExpr::Other)), "pixel");
    assert_eq!(wrap("not glsl (", None), "not glsl (");
}

#[test]
fn expression_updater_rebuilds_on_change() {
    let mut u = GlExpressionUpdater { frag_source: None };
    assert!(u.should_update(&"a".to_string()));
    assert_eq!(u.finish_update::<String>("a".to_string(), Ok(())), Ok(()));
    assert_eq!(u.frag_source.as_deref(), Some("a"));
    assert!(!u.should_update(&"a".to_string()));
    assert!(u.should_update(&"b".to_string()));
    assert_eq!(u.finish_update("b".to_string(), Err("bad".to_string())), Err("bad".to_string()));
    assert_eq!(u.frag_source.as_deref(), Some("a"));
}

#[test]
fn builtin_node_inputs() {
    let spout = NodeType::SharedOut.get_input_types();
    assert_eq!(spout.len(), 2);
    assert_eq!(spout[0].name, "name");
    assert!(matches!(&spout[0].value, ValueDef::Text(t, TextStyle::Oneline) if t == "RustSpout"));
    assert_eq!(spout[1].ty, ConnectionType::Texture2D);
    assert!(NodeType::SharedOut.get_output_types().is_empty());

    let obj = NodeType::ObjRender.get_input_types();
    let names: Vec<&str> = obj.iter().map(|d| d.name.as_str()).collect();
    assert_eq!(names, vec!["obj", "model", "view"]);
    assert!(matches!(obj[0].value, ValueDef::Path));
    assert!(matches!(obj[1].value, ValueDef::Mat4Identity));
    assert!(matches!(obj[2].value, ValueDef::Mat4View));
    assert!(!NodeType::ObjRender.has_texture_input());

    let expr = NodeType::Expression { inputs: None };
    let defs = expr.get_input_types();
    assert!(matches!(&defs[0].value, ValueDef::Text(t, TextStyle::Multiline) if t == "vec4(1.0,1.0,1.0,1.0)"));
    assert_eq!(defs[1].name, "pixels");
    let (params, outputs) = expr.node_params();
    let kinds: Vec<InputParamKind> = params.iter().map(|(_, k)| *k).collect();
    assert_eq!(kinds, vec![InputParamKind::ConstantOnly, InputParamKind::ConnectionOnly]);
    assert_eq!(outputs[0].ty, ConnectionType::Texture2D);
    assert_eq!(NodeType::get_builtin().len(), 3);
}

#[test]
fn connection_definitions() {
    assert_eq!(ConnectionType::Texture2D.name(), "Texture2D");
    assert_eq!(ConnectionType::NoConnection.name(), "None");
    let t = InputDef::texture("pixels".to_string());
    assert_eq!(t.ty, ConnectionType::Texture2D);
    let v = InputDef::from_value("obj".to_string(), ValueDef::Path);
    assert_eq!(v.ty, ConnectionType::NoConnection);
    assert_eq!(OutputDef::from_type(ConnectionType::Texture2D).name, "Texture2D");
    assert_eq!(OutputDef::named("out".to_string(), ConnectionType::NoConnection).name, "out");
    assert_eq!(input_param_kind(true, true), Some(InputParamKind::ConnectionOrConstant));
    assert_eq!(input_param_kind(true, false), Some(InputParamKind::ConnectionOnly));
    assert_eq!(input_param_kind(false, true), Some(InputParamKind::ConstantOnly));
    assert_eq!(input_param_kind(false, false), None);
}

#[test]
fn ranged_data_resets_to_its_default() {
    let mut d = RangedData::from(3i32);
    assert_eq!(d.default, Some(3));
    d.value = 9;
    d.reset();
    assert_eq!(d.value, 3);
    let mut e = RangedData { value: 4i32, min: Some(0), max: Some(8), default: None };
    e.reset();
    assert_eq!(e.value, 0);
    assert_eq!((e.min, e.max), (Some(0), Some(8)));
    // Equality looks at the values alone.
    let a = RangedData { value: 2i32, min: Some(0), max: None, default: None };
    assert!(a == RangedData::from(2i32));
    assert!(a != RangedData::from(3i32));
}

#[test]
fn limits_and_ranges() {
    let c: UiLimit<i32> = UiLimit::Clamp(Some(1), None);
    assert_eq!(c.min(), Some(&1));
    assert_eq!(c.max(), None);
    let l: UiLimit<i32> = UiLimit::Loop(0, 360);
    assert_eq!((l.min(), l.max()), (Some(&0), Some(&360)));
    let f: UiLimit<i32> = UiLimit::Free;
    assert_eq!((f.min(), f.max()), (None, None));
    assert_eq!(default_range_i32(&None, &None), 0..=1);
    assert_eq!(default_range_i32(&Some(-5), &Some(5)), -5..=5);
    assert_eq!(TextStyle::default(), TextStyle::Oneline);
}

#[test]
fn first_texture_of_computed_inputs() {
    let inputs = ComputedInputs::new(vec![
        ("amount".to_string(), ComputedShaderInput::Value),
        ("a".to_string(), ComputedShaderInput::Texture(7u32)),
        ("b".to_string(), ComputedShaderInput::Texture(9u32)),
    ]);
    assert_eq!(inputs.first_texture(), Some(&7));
    let none: ComputedInputs<u32> = ComputedInputs::new(vec![("x".to_string(), ComputedShaderInput::Value)]);
    assert_eq!(none.first_texture(), None);
    let d: NodeInputDef = NodeInputDef::texture("pixels".to_string());
    assert_eq!(d.ty, ConnectionType::Texture2D);
    let o: NodeOutputDef = NodeOutputDef::from_type(ConnectionType::Texture2D);
    assert_eq!(o.name, "Texture2D");
}

#[test]
fn snippets_are_parsed_then_wrapped() {
    let inner = |s: &str| {
        let shader = shader_for_snippet(s);
        shader[SHADER_HEAD.len()..shader.len() - SHADER_TAIL.len()].to_string()
    };
    assert_eq!(inner("1.0"), "vec4(vec3(1.0),1)");
    assert_eq!(inner("pixel.rg"), "vec4(pixel.rg, 0,1)");
    assert_eq!(inner("pixel.rgb"), "vec4(pixel.rgb,1");
    assert_eq!(inner("vec3(1.0) * 0.5"), "vec4(vec3(1.0) * 0.5,1");
    assert_eq!(inner("sin(pixel)"), "sin(pixel)");
    assert_eq!(inner("not glsl ("), "not glsl (");
}
