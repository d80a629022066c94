//! Path-string operations with the meaning that Unix paths have in std:
//! joining a segment onto a base, the final component, its extension and
//! its prefix.

use vstd::prelude::*;

verus! {

/// Text of a `&str` as a vector of characters.
pub fn chars_of(s: &str) -> (r: Vec<char>)
    ensures
        r@ == s@,
{
    let n = s.unicode_len();
    let mut out: Vec<char> = Vec::new();
    let mut i: usize = 0;
    while i < n
        invariant
            n == s@.len(),
            i <= n,
            out@ == s@.subrange(0, i as int),
        decreases n - i,
    {
        out.push(s.get_char(i));
        i = i + 1;
        assert(out@ =~= s@.subrange(0, i as int));
    }
    assert(out@ =~= s@);
    out
}

/// Joining `segment` onto `base`: an absolute segment replaces the base; else
/// a separator is put between them unless the base is empty or already ends
/// in one.
pub open spec fn join_spec(base: Seq<char>, segment: Seq<char>) -> Seq<char> {
    if segment.len() > 0 && segment[0] == '/' {
        segment
    } else if base.len() == 0 || base.last() == '/' {
        base + segment
    } else {
        base + seq!['/'] + segment
    }
}

/// Index just past the last separator of `s`, or 0 when there is none.
pub open spec fn after_last_sep(s: Seq<char>) -> nat
    decreases s.len(),
{
    if s.len() == 0 {
        0
    } else if s.last() == '/' {
        s.len()
    } else {
        after_last_sep(s.drop_last())
    }
}

/// The final component of a path, as `Path::file_name` gives it: trailing
/// separators and `.` components are skipped; a final `..`, a bare root and
/// the empty path have none.
pub open spec fn file_name_spec(s: Seq<char>) -> Option<Seq<char>>
    decreases s.len(),
{
    if s.len() == 0 {
        None
    } else if s.last() == '/' {
        file_name_spec(s.drop_last())
    } else {
        let k = after_last_sep(s) as int;
        let comp = s.subrange(k, s.len() as int);
        if comp == seq!['.'] {
            if 0 < k < s.len() {
                file_name_spec(s.subrange(0, k))
            } else {
                None
            }
        } else if comp == seq!['.', '.'] {
            None
        } else {
            Some(comp)
        }
    }
}

/// Where the final component of a path starts, or -1 when there is none.
pub open spec fn file_name_start(s: Seq<char>) -> int
    decreases s.len(),
{
    if s.len() == 0 {
        -1
    } else if s.last() == '/' {
        file_name_start(s.drop_last())
    } else {
        let k = after_last_sep(s) as int;
        let comp = s.subrange(k, s.len() as int);
        if comp == seq!['.'] {
            if 0 < k < s.len() {
                file_name_start(s.subrange(0, k))
            } else {
                -1
            }
        } else if comp == seq!['.', '.'] {
            -1
        } else {
            k
        }
    }
}

/// Index of the last `.` of `s`, or -1 when there is none.
pub open spec fn last_dot(s: Seq<char>) -> int
    decreases s.len(),
{
    if s.len() == 0 {
        -1
    } else if s.last() == '.' {
        s.len() - 1
    } else {
        last_dot(s.drop_last())
    }
}

/// Index of the first `.` of `s` at or after `from`, or -1 when there is none.
pub open spec fn first_dot_from(s: Seq<char>, from: int) -> int
    decreases s.len() - from,
{
    if from < 0 || from >= s.len() {
        -1
    } else if s[from] == '.' {
        from
    } else {
        first_dot_from(s, from + 1)
    }
}

/// Extension of a file name, split from the back (`Path::extension`): the
/// text after the last dot, where that dot is not the first character.
pub open spec fn name_extension(name: Seq<char>) -> Option<Seq<char>> {
    let i = last_dot(name);
    if name == seq!['.', '.'] || i <= 0 {
        None
    } else {
        Some(name.subrange(i + 1, name.len() as int))
    }
}

/// Prefix of a file name, split from the front (`Path::file_prefix`): the
/// text before the first dot that is not the first character.
pub open spec fn name_prefix(name: Seq<char>) -> Seq<char> {
    let i = first_dot_from(name, 1);
    if name == seq!['.', '.'] || i < 0 {
        name
    } else {
        name.subrange(0, i)
    }
}

/// The extension of the final component of a path, or the empty text.
pub open spec fn extension_spec(p: Seq<char>) -> Seq<char> {
    match file_name_spec(p) {
        Some(n) => match name_extension(n) {
            Some(e) => e,
            None => Seq::empty(),
        },
        None => Seq::empty(),
    }
}

/// The prefix of the final component of a path, or the empty text.
pub open spec fn prefix_spec(p: Seq<char>) -> Seq<char> {
    match file_name_spec(p) {
        Some(n) => name_prefix(n),
        None => Seq::empty(),
    }
}

/// The characters `from..to` of a text, as a `String`.
fn string_of_range(s: &str, from: usize, to: usize) -> (r: String)
    requires
        from <= to <= s@.len(),
    ensures
        r@ == s@.subrange(from as int, to as int),
{
    let sub = s.substring_char(from, to);
    sub.to_owned()
}

/// `base` joined with `segment`, as `PathBuf::join` does on Unix.
pub fn join_path(base: &str, segment: &str) -> (r: String)
    ensures
        r@ == join_spec(base@, segment@),
{
    let bn = base.unicode_len();
    let sn = segment.unicode_len();
    if sn > 0 && segment.get_char(0) == '/' {
        return segment.to_owned();
    }
    let mut out = base.to_owned();
    if !(bn == 0 || base.get_char(bn - 1) == '/') {
        out.append("/");
        proof {
            reveal_strlit("/");
        }
    }
    out.append(segment);
    out
}

fn after_last_sep_exec(v: &Vec<char>, n: usize) -> (r: usize)
    requires
        n <= v@.len(),
    ensures
        r as int == after_last_sep(v@.subrange(0, n as int)),
        r <= n,
        n > 0 && v@[n - 1] != '/' ==> r < n,
    decreases n,
{
    let ghost s = v@.subrange(0, n as int);
    if n == 0 {
        0
    } else if v[n - 1] == '/' {
        n
    } else {
        assert(s.drop_last() =~= v@.subrange(0, n - 1));
        after_last_sep_exec(v, n - 1)
    }
}

/// Start and end of the final component of the first `n` characters.
fn file_name_range(v: &Vec<char>, n: usize) -> (r: Option<(usize, usize)>)
    requires
        n <= v@.len(),
    ensures
        match r {
            Some((a, b)) => a <= b <= n && file_name_spec(v@.subrange(0, n as int)) == Some(
                v@.subrange(a as int, b as int),
            ) && file_name_start(v@.subrange(0, n as int)) == a,
            None => file_name_spec(v@.subrange(0, n as int)) is None,
        },
    decreases n,
{
    let ghost s = v@.subrange(0, n as int);
    if n == 0 {
        return None;
    }
    if v[n - 1] == '/' {
        assert(s.drop_last() =~= v@.subrange(0, n - 1));
        return file_name_range(v, n - 1);
    }
    let k = after_last_sep_exec(v, n);
    proof {
        assert(s.drop_last() =~= v@.subrange(0, n - 1));
        assert(s.subrange(k as int, n as int) =~= v@.subrange(k as int, n as int));
    }
    if n - k == 1 && v[k] == '.' {
        assert(s.subrange(k as int, n as int) =~= seq!['.']);
        if k == 0 {
            return None;
        } else {
            assert(s.subrange(0, k as int) =~= v@.subrange(0, k as int));
            return file_name_range(v, k);
        }
    }
    if n - k == 2 && v[k] == '.' && v[k + 1] == '.' {
        assert(s.subrange(k as int, n as int) =~= seq!['.', '.']);
        return None;
    }
    assert(s.subrange(k as int, n as int) != seq!['.']) by {
        if s.subrange(k as int, n as int) == seq!['.'] {
            assert(s.subrange(k as int, n as int).len() == 1);
            assert(s.subrange(k as int, n as int)[0] == v@[k as int]);
        }
    }
    assert(s.subrange(k as int, n as int) != seq!['.', '.']) by {
        if s.subrange(k as int, n as int) == seq!['.', '.'] {
            assert(s.subrange(k as int, n as int).len() == 2);
            assert(s.subrange(k as int, n as int)[0] == v@[k as int]);
            assert(s.subrange(k as int, n as int)[1] == v@[k + 1]);
        }
    }
    Some((k, n))
}

fn last_dot_exec(v: &Vec<char>, a: usize, n: usize) -> (r: Option<usize>)
    requires
        a <= n <= v@.len(),
    ensures
        match r {
            Some(i) => a <= i < n && last_dot(v@.subrange(a as int, n as int)) == i - a,
            None => last_dot(v@.subrange(a as int, n as int)) == -1,
        },
    decreases n - a,
{
    let ghost s = v@.subrange(a as int, n as int);
    if n == a {
        None
    } else if v[n - 1] == '.' {
        Some(n - 1)
    } else {
        assert(s.drop_last() =~= v@.subrange(a as int, n - 1));
        last_dot_exec(v, a, n - 1)
    }
}

fn first_dot_exec(v: &Vec<char>, a: usize, b: usize, from: usize) -> (r: Option<usize>)
    requires
        a <= b <= v@.len(),
        from <= b - a,
    ensures
        match r {
            Some(i) => a + from <= i < b && first_dot_from(v@.subrange(a as int, b as int), from as int)
                == i - a,
            None => first_dot_from(v@.subrange(a as int, b as int), from as int) == -1,
        },
    decreases b - a - from,
{
    if from == b - a {
        None
    } else if v[a + from] == '.' {
        Some(a + from)
    } else {
        first_dot_exec(v, a, b, from + 1)
    }
}

/// Extension of the final component of `path`, split from the back; empty
/// when there is none.
pub fn extension_from_back(path: &str) -> (r: String)
    ensures
        r@ == extension_spec(path@),
{
    let v = chars_of(path);
    let n = v.len();
    assert(v@.subrange(0, n as int) =~= path@);
    match file_name_range(&v, n) {
        None => String::new(),
        Some((a, b)) => {
            let ghost name = v@.subrange(a as int, b as int);
            if b - a == 2 && v[a] == '.' && v[a + 1] == '.' {
                assert(name =~= seq!['.', '.']);
                return String::new();
            }
            assert(name != seq!['.', '.']) by {
                if name == seq!['.', '.'] {
                    assert(name[0] == '.' && name[1] == '.' && name.len() == 2);
                }
            }
            match last_dot_exec(&v, a, b) {
                Some(i) if i > a => {
                    assert(name.subrange(i - a + 1, name.len() as int) =~= path@.subrange(
                        i + 1,
                        b as int,
                    ));
                    string_of_range(path, i + 1, b)
                },
                _ => String::new(),
            }
        },
    }
}

/// Prefix of the final component of `path`, split from the front
/// (`Path::file_prefix`); `None` when the path has no final component.
pub fn fpre(path: &str) -> (r: Option<String>)
    ensures
        match r {
            Some(t) => file_name_spec(path@) is Some && t@ == name_prefix(file_name_spec(path@)->0),
            None => file_name_spec(path@) is None,
        },
{
    let v = chars_of(path);
    let n = v.len();
    assert(v@.subrange(0, n as int) =~= path@);
    match file_name_range(&v, n) {
        None => None,
        Some((a, b)) => {
            let ghost name = v@.subrange(a as int, b as int);
            assert(name =~= path@.subrange(a as int, b as int));
            if b - a == 2 && v[a] == '.' && v[a + 1] == '.' {
                assert(name =~= seq!['.', '.']);
                return Some(string_of_range(path, a, b));
            }
            assert(name != seq!['.', '.']) by {
                if name == seq!['.', '.'] {
                    assert(name[0] == '.' && name[1] == '.' && name.len() == 2);
                }
            }
            if b == a {
                assert(first_dot_from(name, 1) == -1);
                return Some(string_of_range(path, a, b));
            }
            match first_dot_exec(&v, a, b, 1) {
                Some(i) => {
                    assert(name.subrange(0, i - a) =~= path@.subrange(a as int, i as int));
                    Some(string_of_range(path, a, i))
                },
                None => Some(string_of_range(path, a, b)),
            }
        },
    }
}

/// Prefix of the final component of `path`, split from the front; empty when
/// the path has no final component.
pub fn prefix_from_front(path: &str) -> (r: String)
    ensures
        r@ == prefix_spec(path@),
{
    match fpre(path) {
        Some(t) => t,
        None => String::new(),
    }
}

/// The stem of a file name (`Path::file_stem`): the text before the last dot,
/// where that dot is not the first character; else the whole name.
pub open spec fn name_stem(name: Seq<char>) -> Seq<char> {
    let i = last_dot(name);
    if name == seq!['.', '.'] || i <= 0 {
        name
    } else {
        name.subrange(0, i)
    }
}

pub open spec fn has_dot(s: Seq<char>) -> bool {
    exists|i: int| 0 <= i < s.len() && s[i] == '.'
}

/// The path of the metadata document beside a module file: the module's
/// directory, its stem, and the `.json` extension.
pub open spec fn metadata_path_spec(p: Seq<char>) -> Option<Seq<char>> {
    match file_name_spec(p) {
        Some(n) => Some(p.subrange(0, file_name_start(p)) + name_stem(n) + ".json"@),
        None => None,
    }
}

/// The stem of the final component of a path, if it has one.
pub fn file_stem(path: &str) -> (r: Option<String>)
    ensures
        match r {
            Some(t) => file_name_spec(path@) is Some && t@ == name_stem(file_name_spec(path@)->0),
            None => file_name_spec(path@) is None,
        },
{
    let v = chars_of(path);
    let n = v.len();
    assert(v@.subrange(0, n as int) =~= path@);
    match file_name_range(&v, n) {
        None => None,
        Some((a, b)) => {
            let ghost name = v@.subrange(a as int, b as int);
            assert(name =~= path@.subrange(a as int, b as int));
            if b - a == 2 && v[a] == '.' && v[a + 1] == '.' {
                assert(name =~= seq!['.', '.']);
                return Some(string_of_range(path, a, b));
            }
            assert(name != seq!['.', '.']) by {
                if name == seq!['.', '.'] {
                    assert(name[0] == '.' && name[1] == '.' && name.len() == 2);
                }
            }
            match last_dot_exec(&v, a, b) {
                Some(i) if i > a => {
                    assert(name.subrange(0, i - a) =~= path@.subrange(a as int, i as int));
                    Some(string_of_range(path, a, i))
                },
                _ => Some(string_of_range(path, a, b)),
            }
        },
    }
}

/// Whether a text holds a dot.
pub fn contains_dot(s: &str) -> (r: bool)
    ensures
        r == has_dot(s@),
{
    let n = s.unicode_len();
    let mut i: usize = 0;
    while i < n
        invariant
            n == s@.len(),
            i <= n,
            forall|j: int| 0 <= j < i ==> s@[j] != '.',
        decreases n - i,
    {
        if s.get_char(i) == '.' {
            return true;
        }
        i = i + 1;
    }
    false
}

/// The path of the metadata document beside the module file at `path`.
pub fn metadata_path(path: &str) -> (r: Option<String>)
    ensures
        match r {
            Some(t) => metadata_path_spec(path@) == Some(t@),
            None => metadata_path_spec(path@) is None,
        },
{
    let v = chars_of(path);
    let n = v.len();
    assert(v@.subrange(0, n as int) =~= path@);
    match file_name_range(&v, n) {
        None => None,
        Some((a, _)) => {
            let stem = file_stem(path).unwrap();
            let mut out = string_of_range(path, 0, a);
            out.append(stem.as_str());
            out.append(".json");
            Some(out)
        },
    }
}

} // verus!
