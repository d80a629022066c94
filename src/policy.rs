//! Path and capability policy: which relative paths may be resolved inside
//! the jail directory, and whether unconfined operations are permitted.
//! Every decision fails closed when there is no store.

use vstd::prelude::*;
use crate::paths::{join_path, join_spec};
use crate::store::ValueStore;

verus! {

/// A control character (general category Cc), as `char::is_control` gives it.
pub open spec fn is_control_char(c: char) -> bool {
    ('\u{0}' <= c && c <= '\u{1f}') || ('\u{7f}' <= c && c <= '\u{9f}')
}

/// The text holds two consecutive dots.
pub open spec fn has_double_dot(s: Seq<char>) -> bool {
    exists|i: int| 0 <= i && i + 1 < s.len() && #[trigger] s[i] == '.' && s[i + 1] == '.'
}

/// A relative path that may be joined onto the jail directory: not empty,
/// no `..`, not absolute, not home-relative, no control character.
pub open spec fn path_safe(s: Seq<char>) -> bool {
    &&& s.len() > 0
    &&& !has_double_dot(s)
    &&& s[0] != '/'
    &&& s[0] != '~'
    &&& forall|i: int| 0 <= i < s.len() ==> !is_control_char(#[trigger] s[i])
}

/// `p` lies at or below the directory `dir`: `dir` is a prefix of it, the rest
/// begins at a separator, and the rest holds no `..`.
pub open spec fn within_dir(p: Seq<char>, dir: Seq<char>) -> bool {
    let rest = p.subrange(dir.len() as int, p.len() as int);
    &&& dir.len() <= p.len()
    &&& p.subrange(0, dir.len() as int) == dir
    &&& (dir.len() == 0 || dir.last() == '/' || (rest.len() > 0 && rest[0] == '/'))
    &&& !has_double_dot(rest)
}

pub open spec fn unsafe_api_allowed(store: Option<ValueStore>) -> bool {
    store is Some && store->0.unsafe_apis
}

pub open spec fn plugins_allowed(store: Option<ValueStore>) -> bool {
    store is Some && store->0.plugins_enabled
}

/// The filesystem path that a confined operation on `rel` uses, if any.
pub open spec fn confined_spec(store: Option<ValueStore>, rel: Seq<char>) -> Option<Seq<char>> {
    if store is Some && path_safe(rel) {
        Some(join_spec(store->0.plugin_rw_dir@, rel))
    } else {
        None
    }
}

/// Whether `path` may be resolved inside the jail directory. A syntactic
/// check only: nothing on disk is consulted.
pub fn validate_path(path: &str) -> (r: bool)
    ensures
        r == path_safe(path@),
{
    let n = path.unicode_len();
    if n == 0 {
        return false;
    }
    let first = path.get_char(0);
    if first == '/' || first == '~' {
        return false;
    }
    let mut i: usize = 0;
    while i < n
        invariant
            n == path@.len(),
            n > 0,
            i <= n,
            forall|j: int| 0 <= j < i ==> !is_control_char(#[trigger] path@[j]),
            forall|j: int| 0 <= j && j + 1 < n && j < i ==> !(#[trigger] path@[j] == '.' && path@[j + 1] == '.'),
        decreases n - i,
    {
        let c = path.get_char(i);
        if ('\u{0}' <= c && c <= '\u{1f}') || ('\u{7f}' <= c && c <= '\u{9f}') {
            return false;
        }
        if c == '.' && i + 1 < n && path.get_char(i + 1) == '.' {
            assert(has_double_dot(path@)) by {
                assert(path@[i as int] == '.' && path@[i + 1] == '.');
            }
            return false;
        }
        i = i + 1;
    }
    proof {
        if has_double_dot(path@) {
            let j = choose|j: int| 0 <= j && j + 1 < path@.len() && #[trigger] path@[j] == '.' && path@[j + 1] == '.';
            assert(!(path@[j] == '.' && path@[j + 1] == '.'));
        }
    }
    true
}

/// Whether unconfined operations are permitted: false when there is no store.
pub fn check_unsafe_api(store: &Option<ValueStore>) -> (r: bool)
    ensures
        r == unsafe_api_allowed(*store),
{
    match store {
        Some(s) => s.unsafe_apis,
        None => false,
    }
}

/// Whether the extension subsystem is switched on: false when there is no
/// store.
pub fn check_plugins_enabled(store: &Option<ValueStore>) -> (r: bool)
    ensures
        r == plugins_allowed(*store),
{
    match store {
        Some(s) => s.plugins_enabled,
        None => false,
    }
}

/// `path` joined onto the jail directory; an error when there is no store.
/// Callers check the path with `validate_path` first.
pub fn confine_path(store: &Option<ValueStore>, path: &str) -> (r: Result<String, ()>)
    ensures
        match r {
            Ok(p) => store.is_some() && p@ == join_spec(store->0.plugin_rw_dir@, path@),
            Err(_) => store.is_none(),
        },
{
    match store {
        Some(s) => Ok(join_path(s.plugin_rw_dir.as_str(), path)),
        None => Err(()),
    }
}

/// The path that a confined operation on `rel` uses: `None` when the path is
/// not safe or there is no store.
pub fn resolve_confined(store: &Option<ValueStore>, rel: &str) -> (r: Option<String>)
    ensures
        match r {
            Some(p) => confined_spec(*store, rel@) == Some(p@),
            None => confined_spec(*store, rel@) is None,
        },
{
    if !validate_path(rel) {
        return None;
    }
    match confine_path(store, rel) {
        Ok(p) => Some(p),
        Err(_) => None,
    }
}

/// Every path that a confined operation resolves lies at or below the jail
/// directory.
pub proof fn lemma_confined_within_jail(store: Option<ValueStore>, rel: Seq<char>)
    requires
        confined_spec(store, rel) is Some,
    ensures
        within_dir(confined_spec(store, rel)->0, store->0.plugin_rw_dir@),
{
    let dir = store->0.plugin_rw_dir@;
    let p = join_spec(dir, rel);
    assert(path_safe(rel));
    if dir.len() == 0 || dir.last() == '/' {
        assert(p == dir + rel);
        assert(p.subrange(0, dir.len() as int) =~= dir);
        assert(p.subrange(dir.len() as int, p.len() as int) =~= rel);
    } else {
        let rest = seq!['/'] + rel;
        assert(p == dir + rest);
        assert(p.subrange(0, dir.len() as int) =~= dir);
        assert(p.subrange(dir.len() as int, p.len() as int) =~= rest);
        if has_double_dot(rest) {
            let i = choose|i: int| 0 <= i && i + 1 < rest.len() && #[trigger] rest[i] == '.' && rest[i + 1] == '.';
            assert(i >= 1);
            assert(rel[i - 1] == '.' && rel[i] == '.');
            assert(has_double_dot(rel));
        }
    }
}

} // verus!
