use adiman::config::{
    decimal_text, parse_signed, parse_unsigned, rpc2plugin, signed_decimal_text, validate_rpc, ConfigTypes, RpcConfig,
};
use adiman::fad::{validate_and_filter_fad_config, FadButton, FadConfig, FadLabel, FadScreen};
use adiman::json::{JsonNumber, JsonValue};
use adiman::manager::{AdiPluginMan, ModuleBuilder, ModuleFile, ModuleInstance};
use adiman::config::PluginConfig;
use adiman::metadata::{read_plugin_metadata, resolve_metadata};

fn text(s: &str) -> JsonValue {
    JsonValue::Str(s.to_string())
}

fn num(n: u64) -> JsonValue {
    JsonValue::Number(JsonNumber::PosInt(n))
}

fn obj(members: Vec<(&str, JsonValue)>) -> JsonValue {
    JsonValue::Object(members.into_iter().map(|(k, v)| (k.to_string(), v)).collect())
}

fn entry(key: &str, ctype: &str, default_val: JsonValue, set_val: JsonValue) -> RpcConfig {
    RpcConfig { key: key.to_string(), ctype: ctype.to_string(), default_val, set_val }
}

fn rpc(key: &str, ctype: &str, default_val: JsonValue, set_val: JsonValue) -> JsonValue {
    obj(vec![("key", text(key)), ("ctype", text(ctype)), ("default_val", default_val), ("set_val", set_val)])
}

fn button(name: &str, location: Option<&str>, callback: &str) -> JsonValue {
    let mut m = vec![("name", text(name)), ("callback", text(callback))];
    if let Some(l) = location {
        m.push(("location", text(l)));
    }
    obj(m)
}

fn fad_button(name: &str, location: Option<&str>, callback: &str) -> FadButton {
    FadButton {
        name: name.to_string(),
        icon: None,
        location: location.map(|l| l.to_string()),
        callback: callback.to_string(),
    }
}

struct Quiet;

impl ModuleInstance for Quiet {
    fn has_function(&self, _name: &str) -> bool {
        false
    }

    fn call_function(&mut self, _name: &str) -> Result<(), String> {
        Ok(())
    }
}

struct QuietBuilder;

impl ModuleBuilder<Quiet> for QuietBuilder {
    fn build(&self, _path: &str, _config: &Option<PluginConfig>) -> Result<Quiet, String> {
        Ok(Quiet)
    }
}

fn wasm_file() -> ModuleFile {
    ModuleFile { exists: true, head: vec![0x00, 0x61, 0x73, 0x6d] }
}

#[test]
fn bool_entry_with_text_value_is_dropped_and_siblings_kept() {
    let doc = obj(vec![(
        "rpc",
        JsonValue::Array(vec![
            rpc("dark", "Bool", JsonValue::Bool(false), text("yes")),
            rpc("name", "String", text("a"), text("b")),
            rpc("count", "UInt", num(1), num(4)),
        ]),
    )]);
    let (config, fad) = resolve_metadata(Some(doc));
    let config = config.unwrap();
    assert_eq!(config.len(), 2);
    assert_eq!(config.get("dark"), None);
    assert_eq!(config.get("name"), Some(&ConfigTypes::String("b".to_string())));
    assert_eq!(config.get("count"), Some(&ConfigTypes::UInt(4)));
    assert!(fad.is_none());
}

#[test]
fn validate_rpc_by_kind() {
    assert!(validate_rpc(&entry("a", "Int", num(1), JsonValue::Number(JsonNumber::NegInt(-2147483648)))));
    assert!(!validate_rpc(&entry("a", "Int", num(1), num(2147483648))));
    assert!(validate_rpc(&entry("a", "UInt", num(1), num(4294967295))));
    assert!(!validate_rpc(&entry("a", "UInt", num(1), JsonValue::Number(JsonNumber::NegInt(-1)))));
    assert!(validate_rpc(&entry("a", "BigInt", text("-12"), text("5"))));
    assert!(!validate_rpc(&entry("a", "BigInt", text("+5"), num(5))));
    assert!(validate_rpc(&entry("a", "BigUInt", text("340282366920938463463374607431768211455"), num(5))));
    assert!(!validate_rpc(&entry("a", "BigUInt", text("340282366920938463463374607431768211456"), num(5))));
    assert!(validate_rpc(&entry("a", "Float", num(1), JsonValue::Number(JsonNumber::Float(0x3ff0000000000000)))));
    assert!(!validate_rpc(&entry("a", "Float", num(1), text("1.0"))));
    assert!(!validate_rpc(&entry("", "String", text("a"), text("b"))));
    assert!(!validate_rpc(&entry("a", "Text", text("a"), text("b"))));
}

#[test]
fn later_duplicate_key_wins() {
    let cfg = rpc2plugin(vec![
        entry("k", "Int", num(1), num(2)),
        entry("k", "Int", num(1), num(3)),
        entry("j", "Bool", JsonValue::Bool(true), JsonValue::Bool(false)),
    ]);
    assert_eq!(cfg.len(), 2);
    assert_eq!(cfg.get("k"), Some(&ConfigTypes::Int(3)));
    assert_eq!(cfg.get("j"), Some(&ConfigTypes::Bool(false)));
    assert_eq!(cfg.entries()[0].0, "k".to_string());
}

#[test]
fn big_integer_texts() {
    assert_eq!(parse_signed("-170141183460469231731687303715884105728"), Some(i128::MIN));
    assert_eq!(parse_signed("170141183460469231731687303715884105728"), None);
    assert_eq!(parse_signed("007"), Some(7));
    assert_eq!(parse_signed("-"), None);
    assert_eq!(parse_signed(""), None);
    assert_eq!(parse_unsigned("12a"), None);
    assert_eq!(parse_unsigned("0"), Some(0));
    assert_eq!(decimal_text(0), "0".to_string());
    assert_eq!(decimal_text(1234567890), "1234567890".to_string());
    assert_eq!(signed_decimal_text(i128::MIN), "-170141183460469231731687303715884105728".to_string());
}

#[test]
fn rpc_that_is_not_an_array_gives_no_config() {
    let doc = obj(vec![("rpc", text("oops"))]);
    let (rpcs, fad) = read_plugin_metadata(doc);
    assert!(rpcs.is_none());
    assert!(fad.is_none());
}

#[test]
fn taskbar_button_is_dropped_and_load_succeeds() {
    let fad = obj(vec![(
        "buttons",
        JsonValue::Array(vec![
            button("Sync", Some("taskbar"), "sync"),
            button("Open", Some("drawer"), "open"),
            button("Any", None, "any"),
        ]),
    )]);
    let doc = obj(vec![("fad", fad)]);
    let mut man: AdiPluginMan<Quiet> = AdiPluginMan::new();
    assert!(man.load_plugin("/p/a.wasm".to_string(), &wasm_file(), Some(doc), &QuietBuilder).is_ok());
    let fad = man.get_plugin_fad_config("/p/a.wasm").unwrap();
    assert_eq!(
        fad.buttons.unwrap(),
        vec![fad_button("Open", Some("drawer"), "open"), fad_button("Any", None, "any")]
    );
    let drawer = man.get_all_buttons(Some("drawer"));
    assert_eq!(drawer, vec![("/p/a.wasm".to_string(), fad_button("Open", Some("drawer"), "open"))]);
    assert!(man.get_all_buttons(Some("taskbar")).is_empty());
    assert_eq!(man.get_all_buttons(None).len(), 2);
}

#[test]
fn screens_are_filtered_recursively() {
    let mut cfg = FadConfig {
        screens: Some(vec![
            FadScreen {
                title: Some("keep".to_string()),
                buttons: Some(vec![fad_button(" ", None, "x"), fad_button("Go", Some("settings"), "go")]),
                labels: None,
            },
            FadScreen {
                title: Some("drop".to_string()),
                buttons: Some(vec![fad_button("Bad", None, "  ")]),
                labels: Some(vec![FadLabel {
                    size: JsonNumber::Float(0x8000000000000000),
                    text: "hi".to_string(),
                    color: None,
                }]),
            },
        ]),
        popups: Some(vec![]),
        buttons: Some(vec![fad_button("", None, "cb")]),
    };
    validate_and_filter_fad_config(&mut cfg);
    let screens = cfg.screens.unwrap();
    assert_eq!(screens.len(), 1);
    assert_eq!(screens[0].title, Some("keep".to_string()));
    assert_eq!(screens[0].buttons, Some(vec![fad_button("Go", Some("settings"), "go")]));
    assert!(cfg.popups.is_none());
    assert!(cfg.buttons.is_none());
}

#[test]
fn malformed_fad_is_dropped_whole() {
    let fad = obj(vec![("buttons", JsonValue::Array(vec![obj(vec![("name", text("NoCallback"))])]))]);
    let (_, f) = read_plugin_metadata(obj(vec![("fad", fad)]));
    assert!(f.is_none());
}

#[test]
fn items_by_callback_are_labelled_by_place() {
    let fad = obj(vec![
        ("buttons", JsonValue::Array(vec![button("Top", None, "cb")])),
        (
            "screens",
            JsonValue::Array(vec![
                obj(vec![("title", text("s0")), ("labels", JsonValue::Array(vec![obj(vec![("size", num(3)), ("text", text("t"))])]))]),
                obj(vec![("buttons", JsonValue::Array(vec![button("Deep", Some("songopts"), "cb"), button("Other", None, "x")]))]),
            ]),
        ),
        ("popups", JsonValue::Array(vec![obj(vec![("buttons", JsonValue::Array(vec![button("Pop", None, "cb")]))])])),
    ]);
    let mut man: AdiPluginMan<Quiet> = AdiPluginMan::new();
    man.load_plugin("/p/m.wasm".to_string(), &wasm_file(), Some(obj(vec![("fad", fad)])), &QuietBuilder).unwrap();
    let items = man.find_items_by_callback("cb");
    let labels: Vec<String> = items.iter().map(|(_, l)| l.clone()).collect();
    assert_eq!(labels, vec!["button:Top", "screen_1:button:Deep", "popup_0:button:Pop"]);
    assert_eq!(man.get_all_screens().len(), 2);
    assert_eq!(man.get_all_popups().len(), 1);
    let named = man.find_buttons_by_name("Deep");
    assert_eq!(named.len(), 1);
    assert_eq!(named[0].1.location, Some("songopts".to_string()));
}

#[test]
fn environment_texts() {
    assert_eq!(ConfigTypes::Int(-42).env_text(), Some("-42".to_string()));
    assert_eq!(ConfigTypes::Bool(true).env_text(), Some("true".to_string()));
    assert_eq!(ConfigTypes::BigUInt(u128::MAX).env_text(), Some(u128::MAX.to_string()));
    assert_eq!(ConfigTypes::String("x y".to_string()).env_text(), Some("x y".to_string()));
    assert_eq!(ConfigTypes::Float(JsonNumber::PosInt(1)).env_text(), None);
}
