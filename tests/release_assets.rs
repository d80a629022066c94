use adiman::json::JsonValue;
use adiman::release::{download_url, eq_ignore_ascii_case, latest_version_of, new_executable_name, release_arch};

#[test]
fn release_architectures() {
    assert_eq!(release_arch("ARM64"), Some("aarch64".to_string()));
    assert_eq!(release_arch("aarch64"), Some("aarch64".to_string()));
    assert_eq!(release_arch("X86_64"), Some("x86_64".to_string()));
    assert_eq!(release_arch("riscv64"), None);
    assert!(eq_ignore_ascii_case("AbC", "aBc"));
    assert!(!eq_ignore_ascii_case("ab", "abc"));
    assert!(!eq_ignore_ascii_case("\u{c9}", "\u{e9}"));
}

#[test]
fn release_locations() {
    assert_eq!(
        download_url("x86_64"),
        "https://github.com/ChaosTheChaotic/Adiman/releases/latest/download/Adiman-x86_64.AppImage"
    );
    assert_eq!(new_executable_name("aarch64"), "Adiman-aarch64-new.AppImage");
    let doc = JsonValue::Object(vec![("tag_name".to_string(), JsonValue::Str("v1.2.3".to_string()))]);
    assert_eq!(latest_version_of(&doc), Some("v1.2.3".to_string()));
    let bad = JsonValue::Object(vec![("tag_name".to_string(), JsonValue::Bool(true))]);
    assert_eq!(latest_version_of(&bad), None);
}
