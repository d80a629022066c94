//! Decisions of the self-update: which release asset fits the host's
//! architecture, where it is downloaded from, and which tag names the latest
//! release.

use vstd::prelude::*;
use crate::json::{get_spec, JsonValue};

verus! {

/// The code point of a character in lower case, for ASCII letters only.
pub open spec fn ascii_lower(c: char) -> u32 {
    if 'A' <= c && c <= 'Z' {
        (c as u32 + 32) as u32
    } else {
        c as u32
    }
}

/// Equality of two texts, ignoring ASCII case.
pub open spec fn eq_ignore_ascii_case_spec(a: Seq<char>, b: Seq<char>) -> bool {
    a.len() == b.len() && forall|i: int| 0 <= i < a.len() ==> ascii_lower(#[trigger] a[i]) == ascii_lower(b[i])
}

/// Whether two texts are equal when ASCII case is ignored.
pub fn eq_ignore_ascii_case(a: &str, b: &str) -> (r: bool)
    ensures
        r == eq_ignore_ascii_case_spec(a@, b@),
{
    let n = a.unicode_len();
    if n != b.unicode_len() {
        return false;
    }
    let mut i: usize = 0;
    while i < n
        invariant
            n == a@.len(),
            n == b@.len(),
            i <= n,
            forall|j: int| 0 <= j < i ==> ascii_lower(#[trigger] a@[j]) == ascii_lower(b@[j]),
        decreases n - i,
    {
        let x = a.get_char(i);
        let y = b.get_char(i);
        let lx: u32 = if 'A' <= x && x <= 'Z' { x as u32 + 32 } else { x as u32 };
        let ly: u32 = if 'A' <= y && y <= 'Z' { y as u32 + 32 } else { y as u32 };
        if lx != ly {
            return false;
        }
        i = i + 1;
    }
    true
}

/// The architecture of the release asset for a host architecture:
/// `aarch64` for `aarch64` or `arm64`, `x86_64` for `x86_64` (any ASCII
/// case); none for any other.
pub open spec fn release_arch_spec(arch: Seq<char>) -> Option<Seq<char>> {
    if eq_ignore_ascii_case_spec(arch, "aarch64"@) || eq_ignore_ascii_case_spec(arch, "arm64"@) {
        Some("aarch64"@)
    } else if eq_ignore_ascii_case_spec(arch, "x86_64"@) {
        Some("x86_64"@)
    } else {
        None
    }
}

pub fn release_arch(arch: &str) -> (r: Option<String>)
    ensures
        match r {
            Some(t) => release_arch_spec(arch@) == Some(t@),
            None => release_arch_spec(arch@) is None,
        },
{
    if eq_ignore_ascii_case(arch, "aarch64") || eq_ignore_ascii_case(arch, "arm64") {
        Some("aarch64".to_string())
    } else if eq_ignore_ascii_case(arch, "x86_64") {
        Some("x86_64".to_string())
    } else {
        None
    }
}

/// Where the latest release is described.
pub fn latest_release_url() -> (r: &'static str)
    ensures
        r@ == "https://api.github.com/repos/ChaosTheChaotic/Adiman/releases/latest"@,
{
    "https://api.github.com/repos/ChaosTheChaotic/Adiman/releases/latest"
}

/// Where the latest release asset for an architecture is downloaded from.
pub fn download_url(arch: &str) -> (r: String)
    ensures
        r@ == "https://github.com/ChaosTheChaotic/Adiman/releases/latest/download/Adiman-"@ + arch@ + ".AppImage"@,
{
    "https://github.com/ChaosTheChaotic/Adiman/releases/latest/download/Adiman-".to_string().concat(arch).concat(
        ".AppImage",
    )
}

/// The file name that the downloaded asset is written to before it replaces
/// the running executable.
pub fn new_executable_name(arch: &str) -> (r: String)
    ensures
        r@ == "Adiman-"@ + arch@ + "-new.AppImage"@,
{
    "Adiman-".to_string().concat(arch).concat("-new.AppImage")
}

/// The tag of the latest release in its description: the text under
/// `tag_name`, if it is a string.
pub fn latest_version_of(doc: &JsonValue) -> (r: Option<String>)
    ensures
        match r {
            Some(t) => get_spec(*doc, "tag_name"@) matches Some(JsonValue::Str(s)) && s@ == t@,
            None => !(get_spec(*doc, "tag_name"@) matches Some(JsonValue::Str(_))),
        },
{
    match doc.get("tag_name") {
        Some(JsonValue::Str(s)) => Some(s.clone()),
        _ => None,
    }
}

} // verus!
