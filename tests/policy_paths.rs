use adiman::bridge::{
    classify_entity, confined_access, confined_extension_nightly, confined_extension_std, confined_pair_access,
    confined_read_target, join_paths, music_folder_reply, parse_http_method, request_method, unconfined_access,
    unconfined_extension_std, Access, CommandResult, EntityType, HttpMethod, HttpResponse,
};
use adiman::color::{quantize_color, rgb_to_argb};
use adiman::paths::{extension_from_back, file_stem, fpre, join_path, metadata_path, prefix_from_front};
use adiman::policy::{check_plugins_enabled, check_unsafe_api, confine_path, validate_path};
use adiman::store::{
    init_value_store, update_store, update_value_store, ValueStore, ValueStoreUpdate, CurrentSongUpdate,
};

fn store_with_jail(jail: &str, unsafe_apis: bool) -> Option<ValueStore> {
    let mut s = ValueStore::new("/home/u");
    s.plugin_rw_dir = jail.to_string();
    s.unsafe_apis = unsafe_apis;
    Some(s)
}

#[test]
fn unsafe_paths_are_rejected() {
    for p in ["", "../x", "a/../b", "a..b", "/etc/passwd", "~/x", "a\u{0}b", "a\nb", "a\u{85}b"] {
        assert!(!validate_path(p), "{p:?}");
        let s = store_with_jail("/jail", true);
        assert!(matches!(confined_access(&s, p), Access::Denied));
        assert_eq!(confined_extension_std(&s, p), "");
        assert!(confined_read_target(&s, p).unwrap_err().starts_with("ERR:"));
        assert_eq!(join_paths(p, "x"), "");
    }
    assert!(validate_path("notes/today.txt"));
    assert!(validate_path(".hidden"));
}

#[test]
fn confined_paths_stay_in_the_jail() {
    let s = store_with_jail("/jail", false);
    match confined_access(&s, "a/b.txt") {
        Access::Granted(p) => assert_eq!(p, "/jail/a/b.txt"),
        Access::Denied => panic!("denied"),
    }
    let s2 = store_with_jail("/jail/", false);
    assert_eq!(confine_path(&s2, "x"), Ok("/jail/x".to_string()));
    assert_eq!(confine_path(&None, "x"), Err(()));
    assert!(matches!(confined_access(&None, "x"), Access::Denied));
    assert_eq!(
        confined_pair_access(&s, "a", "b"),
        Some(("/jail/a".to_string(), "/jail/b".to_string()))
    );
    assert_eq!(confined_pair_access(&s, "a", "../b"), None);
    assert_eq!(confined_pair_access(&s, "/a", "b"), None);
}

#[test]
fn unconfined_operations_fail_closed() {
    let off = store_with_jail("/jail", false);
    assert!(!check_unsafe_api(&off));
    assert!(!check_unsafe_api(&None));
    assert!(matches!(unconfined_access(&off, "/etc/hosts"), Access::Denied));
    assert!(matches!(unconfined_access(&None, "/etc/hosts"), Access::Denied));
    assert_eq!(unconfined_extension_std(&off, "/a/b.txt"), "");
    let on = store_with_jail("/jail", true);
    match unconfined_access(&on, "/etc/hosts") {
        Access::Granted(p) => assert_eq!(p, "/etc/hosts"),
        Access::Denied => panic!("denied"),
    }
    assert_eq!(unconfined_extension_std(&on, "/a/b.txt"), "txt");
    let c = CommandResult::denied();
    assert!(!c.success);
    assert_eq!(c.exit_code, -1);
    assert_eq!(c.stderr, "ERR: Unsafe API disabled");
    let h = HttpResponse::denied();
    assert_eq!(h.status_code, 0);
    assert!(!h.success);
    assert!(h.error.is_some());
}

#[test]
fn extensions_front_and_back() {
    assert_eq!(extension_from_back("/a/b.tar.gz"), "gz");
    assert_eq!(prefix_from_front("/a/b.tar.gz"), "b");
    assert_eq!(extension_from_back("/a/.bashrc"), "");
    assert_eq!(prefix_from_front("/a/.bashrc"), ".bashrc");
    assert_eq!(extension_from_back("/a/b/"), "");
    assert_eq!(extension_from_back("/a/b.x/"), "x");
    assert_eq!(extension_from_back("/a/b.x/."), "x");
    assert_eq!(extension_from_back("/a/.."), "");
    assert_eq!(prefix_from_front("/"), "");
    assert_eq!(prefix_from_front("a.b.c"), "a");
    assert_eq!(fpre("/x/archive.tar.gz"), Some("archive".to_string()));
    assert_eq!(fpre("/x/.."), None);
    assert_eq!(fpre(""), None);
    let s = store_with_jail("/jail", false);
    assert_eq!(confined_extension_std(&s, "x.tar.gz"), "gz");
    assert_eq!(confined_extension_nightly(&s, "x.tar.gz"), "x");
}

#[test]
fn joins_stems_and_metadata_paths() {
    assert_eq!(join_path("/a", "b"), "/a/b");
    assert_eq!(join_path("/a/", "b"), "/a/b");
    assert_eq!(join_path("", "b"), "b");
    assert_eq!(join_path("/a", "/b"), "/b");
    assert_eq!(join_paths("a", "b"), "a/b");
    assert_eq!(file_stem("/p/a.wasm"), Some("a".to_string()));
    assert_eq!(file_stem("/"), None);
    assert_eq!(metadata_path("/p/a.wasm"), Some("/p/a.json".to_string()));
    assert_eq!(metadata_path("a.wasm"), Some("a.json".to_string()));
}

#[test]
fn store_updates_are_all_or_nothing() {
    let mut slot: Option<ValueStore> = None;
    assert!(!check_plugins_enabled(&slot));
    let upd = ValueStoreUpdate {
        music_folder: None,
        current_song: CurrentSongUpdate::NoChange,
        plugins_enabled: Some(true),
        plugin_rw_dir: None,
        unsafe_apis: None,
    };
    assert!(update_value_store(&mut slot, upd, true, true).is_err());
    init_value_store(&mut slot, "/home/u").unwrap();
    assert_eq!(slot.as_ref().unwrap().music_folder, "/home/u/Music");
    assert_eq!(slot.as_ref().unwrap().plugin_rw_dir, "/home/u/AdiDir");
    assert_eq!(music_folder_reply(&slot), "/home/u/Music");
    assert!(music_folder_reply(&None).starts_with("ERR:"));
    let mut b = update_store();
    b.set_plugins_enabled(true).set_music_folder("/nope".to_string());
    assert!(b.clone().apply(&mut slot, false, true).is_err());
    assert!(!slot.as_ref().unwrap().plugins_enabled);
    assert_eq!(slot.as_ref().unwrap().music_folder, "/home/u/Music");
    assert!(b.apply(&mut slot, true, true).is_ok());
    assert!(slot.as_ref().unwrap().plugins_enabled);
    assert_eq!(slot.as_ref().unwrap().music_folder, "/nope");
    assert!(check_plugins_enabled(&slot));
}

#[test]
fn entity_types_and_methods() {
    assert_eq!(classify_entity(false, false, false, false), Some(EntityType::File));
    assert_eq!(classify_entity(false, true, false, true), Some(EntityType::Symlink));
    assert_eq!(classify_entity(true, true, true, true), Some(EntityType::Directory));
    assert_eq!(classify_entity(true, false, false, false), None);
    assert_eq!(parse_http_method("PATCH"), Some(HttpMethod::Patch));
    assert_eq!(parse_http_method("get"), None);
    assert_eq!(request_method("get"), Some(HttpMethod::Get));
    assert_eq!(request_method("Delete"), Some(HttpMethod::Delete));
    assert_eq!(request_method("TRACE"), None);
}

#[test]
fn colour_packing() {
    assert_eq!(quantize_color(255, 255, 255), 0x7fff);
    assert_eq!(quantize_color(8, 16, 24), (1 << 10) | (2 << 5) | 3);
    assert_eq!(rgb_to_argb(0x12, 0x34, 0x56), 0xFF123456);
}
