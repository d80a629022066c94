use std::cell::RefCell;
use std::rc::Rc;

use adiman::config::{ConfigTypes, PluginConfig};
use adiman::json::{JsonNumber, JsonValue};
use adiman::manager::{
    call_func_plugins, call_plugin_func, init_plugin_man, is_plugin_loaded, list_loaded_plugins, load_plugin,
    AdiPluginMan, CallOutcome, ModuleBuilder, ModuleFile, ModuleInstance, PluginManErr,
};
use adiman::store::ValueStore;

struct Mock {
    name: String,
    exports: Vec<String>,
    failing: Vec<String>,
    log: Rc<RefCell<Vec<String>>>,
}

impl ModuleInstance for Mock {
    fn has_function(&self, name: &str) -> bool {
        self.exports.iter().any(|e| e == name)
    }

    fn call_function(&mut self, name: &str) -> Result<(), String> {
        self.log.borrow_mut().push(format!("{}:{}", self.name, name));
        if self.failing.iter().any(|e| e == name) {
            Err(format!("{name} failed"))
        } else {
            Ok(())
        }
    }
}

struct Builder {
    exports: Vec<(String, Vec<String>)>,
    failing: Vec<String>,
    log: Rc<RefCell<Vec<String>>>,
}

impl ModuleBuilder<Mock> for Builder {
    fn build(&self, path: &str, _config: &Option<PluginConfig>) -> Result<Mock, String> {
        let exports = self
            .exports
            .iter()
            .find(|(p, _)| p == path)
            .map(|(_, e)| e.clone())
            .unwrap_or_default();
        Ok(Mock { name: path.to_string(), exports, failing: self.failing.clone(), log: self.log.clone() })
    }
}

fn builder(exports: Vec<(&str, Vec<&str>)>) -> Builder {
    Builder {
        exports: exports
            .into_iter()
            .map(|(p, e)| (p.to_string(), e.into_iter().map(|s| s.to_string()).collect()))
            .collect(),
        failing: Vec::new(),
        log: Rc::new(RefCell::new(Vec::new())),
    }
}

fn wasm_file() -> ModuleFile {
    ModuleFile { exists: true, head: vec![0x00, 0x61, 0x73, 0x6d, 0x01] }
}

fn text(s: &str) -> JsonValue {
    JsonValue::Str(s.to_string())
}

fn num(n: u64) -> JsonValue {
    JsonValue::Number(JsonNumber::PosInt(n))
}

fn obj(members: Vec<(&str, JsonValue)>) -> JsonValue {
    JsonValue::Object(members.into_iter().map(|(k, v)| (k.to_string(), v)).collect())
}

fn rpc(key: &str, ctype: &str, default_val: JsonValue, set_val: JsonValue) -> JsonValue {
    obj(vec![("key", text(key)), ("ctype", text(ctype)), ("default_val", default_val), ("set_val", set_val)])
}

fn volume_doc(set: u64) -> JsonValue {
    obj(vec![("rpc", JsonValue::Array(vec![rpc("volume", "Int", num(1), num(set))]))])
}

fn enabled_store() -> Option<ValueStore> {
    let mut s = ValueStore::new("/home/u");
    s.plugins_enabled = true;
    Some(s)
}

#[test]
fn load_twice_is_already_loaded_and_changes_nothing() {
    let mut man: AdiPluginMan<Mock> = AdiPluginMan::new();
    let b = builder(vec![]);
    assert!(man.load_plugin("/p/a.wasm".to_string(), &wasm_file(), Some(volume_doc(2)), &b).is_ok());
    let r = man.load_plugin("/p/a.wasm".to_string(), &wasm_file(), Some(volume_doc(9)), &b);
    assert_eq!(r, Err(PluginManErr::PluginAlreadyLoaded("/p/a.wasm".to_string())));
    let gone = ModuleFile { exists: false, head: vec![] };
    let r = man.load_plugin("/p/a.wasm".to_string(), &gone, None, &b);
    assert_eq!(r, Err(PluginManErr::PluginAlreadyLoaded("/p/a.wasm".to_string())));
    assert_eq!(man.loaded_keys(), vec!["/p/a.wasm".to_string()]);
    let cfg = man.get_plugin_config("/p/a.wasm").unwrap().unwrap();
    assert_eq!(cfg.get("volume"), Some(&ConfigTypes::Int(2)));
}

#[test]
fn bin_extension_is_bad_file() {
    let mut man: AdiPluginMan<Mock> = AdiPluginMan::new();
    let b = builder(vec![]);
    let r = man.load_plugin("/p/a.bin".to_string(), &wasm_file(), None, &b);
    assert_eq!(r, Err(PluginManErr::BadFile("/p/a.bin".to_string())));
    assert!(man.loaded_keys().is_empty());
}

#[test]
fn missing_file_and_bad_magic_and_dotted_stem() {
    let mut man: AdiPluginMan<Mock> = AdiPluginMan::new();
    let b = builder(vec![]);
    let missing = ModuleFile { exists: false, head: vec![] };
    assert_eq!(
        man.load_plugin("/p/a.wasm".to_string(), &missing, None, &b),
        Err(PluginManErr::FileNotFound("/p/a.wasm".to_string()))
    );
    let short = ModuleFile { exists: true, head: vec![0x00, 0x61, 0x73] };
    assert_eq!(
        man.load_plugin("/p/a.wasm".to_string(), &short, None, &b),
        Err(PluginManErr::BadFile("/p/a.wasm".to_string()))
    );
    assert_eq!(
        man.load_plugin("/p/a.b.wasm".to_string(), &wasm_file(), None, &b),
        Err(PluginManErr::BadFile("/p/a.b.wasm".to_string()))
    );
    assert!(man.loaded_keys().is_empty());
}

#[test]
fn missing_metadata_loads_with_empty_config() {
    let mut man: AdiPluginMan<Mock> = AdiPluginMan::new();
    let b = builder(vec![]);
    assert!(man.load_plugin("/p/a.wasm".to_string(), &wasm_file(), None, &b).is_ok());
    let cfg = man.get_plugin_config("/p/a.wasm").unwrap().unwrap();
    assert_eq!(cfg.len(), 0);
    assert!(man.get_plugin_fad_config("/p/a.wasm").is_none());
}

#[test]
fn failing_init_is_plugin_error_and_not_registered() {
    let mut man: AdiPluginMan<Mock> = AdiPluginMan::new();
    let mut b = builder(vec![("/p/a.wasm", vec!["init"])]);
    b.failing = vec!["init".to_string()];
    let r = man.load_plugin("/p/a.wasm".to_string(), &wasm_file(), None, &b);
    assert_eq!(r, Err(PluginManErr::PluginError(Some("init failed".to_string()))));
    assert!(!man.is_loaded("/p/a.wasm"));
}

#[test]
fn remove_runs_stop_and_removes_even_on_error() {
    let mut man: AdiPluginMan<Mock> = AdiPluginMan::new();
    let mut b = builder(vec![("/p/a.wasm", vec!["stop"])]);
    b.failing = vec!["stop".to_string()];
    man.load_plugin("/p/a.wasm".to_string(), &wasm_file(), None, &b).unwrap();
    let r = man.remove_plugin("/p/a.wasm".to_string());
    assert_eq!(r, Err(PluginManErr::PluginError(Some("stop failed".to_string()))));
    assert!(!man.is_loaded("/p/a.wasm"));
    assert_eq!(b.log.borrow().clone(), vec!["/p/a.wasm:stop".to_string()]);
    assert_eq!(
        man.remove_plugin("/p/a.wasm".to_string()),
        Err(PluginManErr::PluginNotLoaded("/p/a.wasm".to_string()))
    );
}

#[test]
fn reload_reads_the_current_metadata() {
    let mut man: AdiPluginMan<Mock> = AdiPluginMan::new();
    let b = builder(vec![]);
    man.load_plugin("/p/a.wasm".to_string(), &wasm_file(), Some(volume_doc(2)), &b).unwrap();
    man.reload_plugin("/p/a.wasm".to_string(), &wasm_file(), Some(volume_doc(5)), &b).unwrap();
    let cfg = man.get_plugin_config("/p/a.wasm").unwrap().unwrap();
    assert_eq!(cfg.get("volume"), Some(&ConfigTypes::Int(5)));
}

#[test]
fn reload_of_unloaded_is_not_loaded() {
    let mut man: AdiPluginMan<Mock> = AdiPluginMan::new();
    let b = builder(vec![]);
    let r = man.reload_plugin("/p/a.wasm".to_string(), &wasm_file(), None, &b);
    assert_eq!(r, Err(PluginManErr::PluginNotLoaded("/p/a.wasm".to_string())));
}

#[test]
fn set_config_then_reload_round_trips() {
    let mut man: AdiPluginMan<Mock> = AdiPluginMan::new();
    let b = builder(vec![]);
    man.load_plugin("/p/a.wasm".to_string(), &wasm_file(), Some(volume_doc(2)), &b).unwrap();
    let doc = man
        .set_plugin_config("/p/a.wasm".to_string(), "volume".to_string(), ConfigTypes::Int(-7), volume_doc(2))
        .unwrap();
    let cfg = man.get_plugin_config("/p/a.wasm").unwrap().unwrap();
    assert_eq!(cfg.get("volume"), Some(&ConfigTypes::Int(-7)));
    man.reload_plugin("/p/a.wasm".to_string(), &wasm_file(), Some(doc), &b).unwrap();
    let cfg = man.get_plugin_config("/p/a.wasm").unwrap().unwrap();
    assert_eq!(cfg.get("volume"), Some(&ConfigTypes::Int(-7)));
}

#[test]
fn set_config_big_values_round_trip_as_text() {
    let mut man: AdiPluginMan<Mock> = AdiPluginMan::new();
    let b = builder(vec![]);
    let big = 170141183460469231731687303715884105727i128;
    let doc = obj(vec![("rpc", JsonValue::Array(vec![rpc("n", "BigInt", text("-5"), num(3))]))]);
    let doc = man.set_plugin_config("/p/a.wasm".to_string(), "n".to_string(), ConfigTypes::BigInt(big), doc).unwrap();
    man.load_plugin("/p/a.wasm".to_string(), &wasm_file(), Some(doc), &b).unwrap();
    let cfg = man.get_plugin_config("/p/a.wasm").unwrap().unwrap();
    assert_eq!(cfg.get("n"), Some(&ConfigTypes::BigInt(big)));
}

#[test]
fn set_config_errors_are_invalid_meta() {
    let mut man: AdiPluginMan<Mock> = AdiPluginMan::new();
    let no_rpc = obj(vec![("fad", obj(vec![]))]);
    assert!(matches!(
        man.set_plugin_config("/p/a.wasm".to_string(), "volume".to_string(), ConfigTypes::Int(1), no_rpc),
        Err(PluginManErr::InvalidMeta(_))
    ));
    assert!(matches!(
        man.set_plugin_config("/p/a.wasm".to_string(), "other".to_string(), ConfigTypes::Int(1), volume_doc(2)),
        Err(PluginManErr::InvalidMeta(_))
    ));
    assert!(matches!(
        man.set_plugin_config("/p/a.wasm".to_string(), "volume".to_string(), ConfigTypes::Bool(true), volume_doc(2)),
        Err(PluginManErr::InvalidMeta(_))
    ));
}

#[test]
fn call_on_all_modules_affects_only_exporters() {
    let mut man: AdiPluginMan<Mock> = AdiPluginMan::new();
    let b = builder(vec![("/p/b.wasm", vec!["refresh"])]);
    man.load_plugin("/p/a.wasm".to_string(), &wasm_file(), None, &b).unwrap();
    man.load_plugin("/p/b.wasm".to_string(), &wasm_file(), None, &b).unwrap();
    let report = man.call_func_plugins("refresh");
    assert_eq!(
        report,
        vec![
            ("/p/a.wasm".to_string(), CallOutcome::NotExported),
            ("/p/b.wasm".to_string(), CallOutcome::Succeeded),
        ]
    );
    assert_eq!(b.log.borrow().clone(), vec!["/p/b.wasm:refresh".to_string()]);
    assert!(man.call_plugin_func("refresh", "/p/b.wasm"));
    // a module without the function is passed over: no failure
    assert!(man.call_plugin_func("refresh", "/p/a.wasm"));
    assert!(!man.call_plugin_func("refresh", "/p/c.wasm"));
    assert_eq!(man.call_plugin("refresh", "/p/a.wasm"), Some(CallOutcome::NotExported));
    assert_eq!(man.call_plugin("refresh", "/p/c.wasm"), None);
    assert_eq!(b.log.borrow().len(), 2);
}

#[test]
fn free_functions_respect_the_master_switch() {
    let mut slot: Option<AdiPluginMan<Mock>> = None;
    let b = builder(vec![("/p/a.wasm", vec!["tick"])]);
    assert!(load_plugin(&mut slot, "/p/a.wasm".to_string(), &wasm_file(), None, &b).is_err());
    init_plugin_man(&mut slot);
    assert_eq!(
        load_plugin(&mut slot, "/p/a.wasm".to_string(), &wasm_file(), None, &b),
        Ok("Loaded plugin: a".to_string())
    );
    assert!(is_plugin_loaded(&slot, "/p/a.wasm"));
    assert_eq!(list_loaded_plugins(&slot), vec!["/p/a.wasm".to_string()]);
    let off = Some(ValueStore::new("/home/u"));
    assert!(!call_plugin_func(&off, &mut slot, "tick", "/p/a.wasm"));
    assert!(call_func_plugins(&off, &mut slot, "tick").is_empty());
    assert!(b.log.borrow().is_empty());
    assert!(call_plugin_func(&enabled_store(), &mut slot, "tick", "/p/a.wasm"));
    assert_eq!(b.log.borrow().len(), 1);
}

#[test]
fn scan_keeps_module_files_only() {
    let man: AdiPluginMan<Mock> = AdiPluginMan::new();
    let good = vec![0x00, 0x61, 0x73, 0x6d];
    let listing = vec![
        ("/d/a.wasm".to_string(), good.clone()),
        ("/d/b.wasm".to_string(), vec![0x7f, 0x45, 0x4c, 0x46]),
        ("/d/c.json".to_string(), good.clone()),
        ("/d/sub/e.wasm".to_string(), good.clone()),
        ("/d/f.x.wasm".to_string(), good.clone()),
    ];
    assert_eq!(
        man.scan_dir(Some(listing)),
        Some(vec!["/d/a.wasm".to_string(), "/d/sub/e.wasm".to_string()])
    );
    assert_eq!(man.scan_dir(None), None);
}

#[test]
fn error_messages() {
    assert_eq!(PluginManErr::FileNotFound("x".to_string()).message(), "File not found: x");
    assert_eq!(PluginManErr::PluginNotLoaded("x".to_string()).message(), "Plugin: x is not loaded");
    assert_eq!(PluginManErr::PluginAlreadyLoaded("x".to_string()).message(), "The plugin: x was already loaded");
    assert_eq!(PluginManErr::PluginError(None).message(), "A plugin error occurred: No error message returned");
    assert!(PluginManErr::MetadataNotFound("x".to_string()).message().starts_with("Metadata for plugin: x not found. Ensure"));
    assert_eq!(PluginManErr::InvalidMeta("x".to_string()).message(), "Metadata found for: x is invalid");
    assert_eq!(PluginManErr::PluginManNotLoaded.message(), "The plugin manager has not been loaded.");
    assert!(PluginManErr::BadFile("x".to_string()).message().ends_with(": x"));
}

#[test]
fn set_config_refuses_updates_that_would_not_reload() {
    let mut man: AdiPluginMan<Mock> = AdiPluginMan::new();
    let bad_default = obj(vec![("rpc", JsonValue::Array(vec![rpc("k", "Int", text("x"), num(1))]))]);
    assert!(matches!(
        man.set_plugin_config("/p/a.wasm".to_string(), "k".to_string(), ConfigTypes::Int(5), bad_default),
        Err(PluginManErr::InvalidMeta(_))
    ));
    let shadowed = obj(vec![(
        "rpc",
        JsonValue::Array(vec![rpc("k", "Int", num(1), num(1)), rpc("k", "Int", num(2), num(2))]),
    )]);
    assert!(matches!(
        man.set_plugin_config("/p/a.wasm".to_string(), "k".to_string(), ConfigTypes::Int(5), shadowed),
        Err(PluginManErr::InvalidMeta(_))
    ));
    let later_invalid = obj(vec![(
        "rpc",
        JsonValue::Array(vec![rpc("k", "Int", num(1), num(1)), rpc("k", "Int", text("no"), num(2))]),
    )]);
    let b = builder(vec![]);
    let doc = man
        .set_plugin_config("/p/a.wasm".to_string(), "k".to_string(), ConfigTypes::Int(5), later_invalid)
        .unwrap();
    man.load_plugin("/p/a.wasm".to_string(), &wasm_file(), Some(doc), &b).unwrap();
    let cfg = man.get_plugin_config("/p/a.wasm").unwrap().unwrap();
    assert_eq!(cfg.get("k"), Some(&ConfigTypes::Int(5)));
}

#[test]
fn failing_call_is_reported() {
    let mut man: AdiPluginMan<Mock> = AdiPluginMan::new();
    let mut b = builder(vec![("/p/a.wasm", vec!["tick"])]);
    b.failing = vec!["tick".to_string()];
    man.load_plugin("/p/a.wasm".to_string(), &wasm_file(), None, &b).unwrap();
    assert_eq!(
        man.call_func_plugins("tick"),
        vec![("/p/a.wasm".to_string(), CallOutcome::Failed("tick failed".to_string()))]
    );
    assert!(!man.call_plugin_func("tick", "/p/a.wasm"));
}

#[test]
fn free_functions_report_without_registry() {
    let mut slot: Option<AdiPluginMan<Mock>> = None;
    let b = builder(vec![]);
    assert_eq!(
        load_plugin(&mut slot, "/p/a.wasm".to_string(), &wasm_file(), None, &b),
        Err("[ERR]: The plugin manager has not been loaded.".to_string())
    );
    init_plugin_man(&mut slot);
    assert_eq!(
        load_plugin(&mut slot, "/p/a.bin".to_string(), &wasm_file(), None, &b),
        Err("Failed to load plugin: Provided file is not a wasm file or has no stem: /p/a.bin".to_string())
    );
}
