use render_graph::connections::{ConnectionType, InputParamKind, ValueDef};
use render_graph::isf::{
    default_isf_path, generate_isf_prefix, is_isf_extension, isf_types_known_in, IsfInfo, IsfInfoReadError, IsfUpdater, Platform,
    STANDARD_PREFIX,
};
use render_graph::isf_tree::{isf_has_image_input, FilterState, TreeItem};
use render_graph::node_types::NodeType;
use std::path::PathBuf;

const BLUR: &str = r#"/*{
  "DESCRIPTION": "a test shader",
  "INPUTS": [
    {"NAME": "inputImage", "TYPE": "image"},
    {"NAME": "amount", "TYPE": "float", "DEFAULT": 0.5, "MIN": 0.0, "MAX": 1.0},
    {"NAME": "flag", "TYPE": "bool", "DEFAULT": true}
  ],
  "PASSES": [ {"TARGET": "bufferA"}, {} ]
}*/
void main() { gl_FragColor = IMG_THIS_PIXEL(inputImage); }
"#;

const PLAIN: &str = r#"/*{ "INPUTS": [ {"NAME": "size", "TYPE": "long", "DEFAULT": 2} ] }*/
void main() {}
"#;

fn info(name: &str, source: &str) -> IsfInfo {
    IsfInfo::from_source(PathBuf::from(format!("/shaders/{name}.fs")), Some(Ok(name.to_string())), source).unwrap()
}

#[test]
fn prefix_declares_inputs_then_pass_targets() {
    let def = isf::parse(BLUR).unwrap();
    let expected = format!(
        "{}uniform sampler2D inputImage;\nuniform float amount;\nuniform bool flag;\nuniform sampler2D bufferA;\n\n",
        STANDARD_PREFIX
    );
    assert_eq!(generate_isf_prefix(&def), expected);
}

#[test]
fn prefix_of_a_long_input_is_an_int() {
    let def = isf::parse(PLAIN).unwrap();
    assert_eq!(generate_isf_prefix(&def), format!("{}uniform int size;\n\n", STANDARD_PREFIX));
}

#[test]
fn source_without_a_top_comment_is_a_parse_error() {
    assert!(isf::parse("void main() {}").is_err());
    let r = IsfInfo::from_source(PathBuf::from("/x.fs"), Some(Ok("x".to_string())), "void main() {}");
    assert!(matches!(r, Err(IsfInfoReadError::ParseError(_))));
}

#[test]
fn bad_json_is_a_parse_error() {
    let r = IsfInfo::from_source(PathBuf::from("/x.fs"), Some(Ok("x".to_string())), "/* { not json */");
    assert!(matches!(r, Err(IsfInfoReadError::ParseError(_))));
}

#[test]
fn missing_stem_is_an_invalid_name() {
    let r = IsfInfo::from_source(PathBuf::from("/.fs"), None, BLUR);
    assert!(matches!(r, Err(IsfInfoReadError::InvalidName(None))));
}

#[test]
fn info_keeps_name_and_path() {
    let i = info("blur", BLUR);
    assert_eq!(i.name, "blur");
    assert_eq!(i.path, PathBuf::from("/shaders/blur.fs"));
    assert_eq!(i.def.inputs.len(), 3);
}

#[test]
fn extension_must_be_fs() {
    assert!(is_isf_extension(Some("fs")));
    assert!(!is_isf_extension(Some("vs")));
    assert!(!is_isf_extension(Some("fsh")));
    assert!(!is_isf_extension(None));
    assert!(IsfInfo::check_extension(Some("fs".to_string())).is_ok());
    match IsfInfo::check_extension(Some("txt".to_string())) {
        Err(IsfInfoReadError::InvalidExt(Some(e))) => assert_eq!(e, "txt"),
        _ => panic!("expected an invalid extension"),
    }
    assert!(matches!(IsfInfo::check_extension(None), Err(IsfInfoReadError::InvalidExt(None))));
}

#[test]
fn default_paths_per_platform() {
    assert_eq!(default_isf_path(Platform::Windows), "C:\\ProgramData\\ISF");
    assert_eq!(default_isf_path(Platform::MacOs), "/Library/Graphics/ISF");
}

#[test]
fn reload_waits_for_more_than_ten_milliseconds() {
    assert!(!IsfUpdater::should_reload(None));
    assert!(!IsfUpdater::should_reload(Some(0)));
    assert!(!IsfUpdater::should_reload(Some(10)));
    assert!(IsfUpdater::should_reload(Some(11)));
}

#[test]
fn reload_if_updated_moves_the_version_on() {
    let start: u128 = 1_000_000_000;
    let mut u = IsfUpdater { modified: start };
    let later = start + 500_000_000;
    assert!(u.reload_if_updated(later));
    assert_eq!(u.modified, later);
    // 10.9 ms later: still within the 10 ms step.
    assert!(!u.reload_if_updated(later + 10_900_000));
    assert_eq!(u.modified, later);
    assert!(u.reload_if_updated(later + 11_000_000));
    assert_eq!(u.modified, later + 11_000_000);
    assert!(!u.reload_if_updated(start));
    assert_eq!(u.modified, later + 11_000_000);
}

#[test]
fn isf_node_inputs_follow_the_header() {
    let t = NodeType::Isf { info: info("blur", BLUR) };
    assert_eq!(t.get_name(), "blur");
    let defs = t.get_input_types();
    assert_eq!(defs.len(), 3);
    assert_eq!(defs[0].name, "inputImage");
    assert_eq!(defs[0].ty, ConnectionType::Texture2D);
    assert!(matches!(defs[0].value, ValueDef::Empty));
    assert_eq!(defs[1].name, "amount");
    assert_eq!(defs[1].ty, ConnectionType::NoConnection);
    assert!(matches!(defs[1].value, ValueDef::IsfInput(1)));
    assert!(matches!(defs[2].value, ValueDef::IsfInput(2)));
    assert!(t.has_texture_input());
    let (params, outputs) = t.node_params();
    let kinds: Vec<InputParamKind> = params.iter().map(|(_, k)| *k).collect();
    assert_eq!(
        kinds,
        vec![InputParamKind::ConnectionOnly, InputParamKind::ConstantOnly, InputParamKind::ConstantOnly]
    );
    assert_eq!(outputs.len(), 1);
    assert_eq!(outputs[0].name, "Texture2D");
    let plain = NodeType::Isf { info: info("size", PLAIN) };
    assert!(!plain.has_texture_input());
}

#[test]
fn tree_filter_by_text_and_image_inputs() {
    let items = vec![
        TreeItem::new("Blur".to_string(), PathBuf::from("/s/blur.fs"), Some(info("Blur", BLUR))),
        TreeItem::new("Size".to_string(), PathBuf::from("/s/size.fs"), Some(info("Size", PLAIN))),
        TreeItem::new("folder".to_string(), PathBuf::from("/s"), None),
    ];
    assert!(isf_has_image_input(items[0].isf.as_ref().unwrap()));
    assert!(!isf_has_image_input(items[1].isf.as_ref().unwrap()));

    let mut f = FilterState::default();
    assert!(f.filter_item(&items[0]));
    assert!(f.filter_item(&items[1]));
    assert!(!f.filter_item(&items[2]));

    f.text = "BL".to_string();
    assert!(f.filter_item(&items[0]));
    assert!(!f.filter_item(&items[1]));

    f.text = String::new();
    f.image_inputs = true;
    assert!(f.filter_item(&items[0]));
    assert!(!f.filter_item(&items[1]));

    f.image_inputs = false;
    f.no_image_inputs = true;
    let mut all = items;
    f.apply(&mut all);
    let shown: Vec<bool> = all.iter().map(|i| i.visible).collect();
    assert_eq!(shown, vec![false, true, false]);
    assert_eq!(all[1].name, "Size");
}

#[test]
fn stem_that_is_not_text_is_carried() {
    let r = IsfInfo::from_source(PathBuf::from("/x.fs"), Some(Err("b\u{FFFD}d".to_string())), BLUR);
    match r {
        Err(IsfInfoReadError::InvalidName(Some(s))) => assert_eq!(s, "b\u{FFFD}d"),
        _ => panic!("expected an invalid name"),
    }
}

#[test]
fn only_known_input_types_reach_the_parser() {
    assert!(isf_types_known_in(BLUR));
    assert!(isf_types_known_in(PLAIN));
    assert!(isf_types_known_in("void main() {}"));
    assert!(isf_types_known_in(r#"/*{ "INPUTS": [ {"NAME": "a", "TYPE" :
        "audioFFT"} ] }*/"#));
    assert!(!isf_types_known_in(r#"/*{ "INPUTS": [ {"NAME": "a", "TYPE": "vec3"} ] }*/"#));
    assert!(!isf_types_known_in(r#"/*{ "INPUTS": [ {"NAME": "a", "TYPE": "image2"} ] }*/"#));
    assert!(!isf_types_known_in(r#"/*{ "INPUTS": [ {"NAME": "a", "\u0054YPE": "image"} ] }*/"#));
    assert!(!isf_types_known_in(r#"/*{ "INPUTS": [ {"NAME": "a", "TYPE": 3} ] }*/"#));
    // An input written as an array: its second element would be read as its type.
    assert!(!isf_types_known_in(r#"/* {"INPUTS": [["a", "bogus"]]} */"#));
    assert!(!isf_types_known_in(r#"/* {"INPUTS": [{"NAME": "b", "TYPE": "bool"}, ["a", "bogus"]]} */"#));
    // Arrays of values, and anything after the header, are no obstacle.
    assert!(isf_types_known_in(r#"/*{ "CATEGORIES": ["Blur"], "INPUTS": [ {"NAME": "p", "TYPE": "point2D", "DEFAULT": [0.5, 0.5]} ] }*/
        void main() { vec2 v[2] = vec2[](vec2(0.0), vec2(1.0)); float x = f(a, [b]); // "\u" "TYPE" "bogus"
        }"#));
}

#[test]
fn known_sources_parse() {
    for src in [BLUR, PLAIN, r#"/*{ "CATEGORIES": ["Blur"], "INPUTS": [ {"NAME": "p", "TYPE": "point2D", "DEFAULT": [0.5, 0.5]} ] }*/"#] {
        assert!(isf_types_known_in(src));
        let r = IsfInfo::from_source(PathBuf::from("/x.fs"), Some(Ok("x".to_string())), src);
        assert!(r.is_ok());
    }
}
