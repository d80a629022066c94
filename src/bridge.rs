//! Host bridge decisions. Every operation a module calls is total: the
//! policy decides here whether it may touch the filesystem, a process or the
//! network, and on which path; a denied call gets its tier's neutral value.

use vstd::prelude::*;
use crate::json::text_eq;
use crate::paths::{extension_from_back, extension_spec, join_path, join_spec, prefix_from_front, prefix_spec};
use crate::policy::{check_unsafe_api, confined_spec, path_safe, resolve_confined, unsafe_api_allowed, validate_path};
use crate::store::{SongMetadata, ValueStore};

verus! {

#[derive(Clone, Copy, Debug, PartialEq, Eq, Structural)]
pub enum EntityType {
    File,
    Directory,
    Symlink,
}

#[derive(Clone, Debug)]
pub struct DirEntity {
    pub path: String,
    pub entity_type: EntityType,
}

#[derive(Clone, Debug)]
pub struct DirEntities {
    pub contents: Vec<DirEntity>,
}

#[derive(Clone, Debug)]
pub struct CommandTR {
    pub command: String,
    pub args: Option<Vec<String>>,
}

#[derive(Clone, Debug)]
pub struct CommandResult {
    pub success: bool,
    pub exit_code: i32,
    pub stdout: String,
    pub stderr: String,
}

#[derive(Clone, Debug)]
pub struct HttpRequest {
    pub url: String,
    pub method: String,
    pub headers: Option<Vec<(String, String)>>,
    pub body: Option<String>,
    pub timeout_seconds: Option<u64>,
}

#[derive(Clone, Debug)]
pub struct HttpResponse {
    pub status_code: u16,
    pub headers: Vec<(String, String)>,
    pub body: String,
    pub success: bool,
    pub error: Option<String>,
}

#[derive(Clone, Copy, Debug, PartialEq, Eq, Structural)]
pub enum HttpMethod {
    Get,
    Post,
    Put,
    Delete,
    Patch,
    Head,
}

/// Whether a bridge operation may go ahead, and on which path.
#[derive(Clone, Debug)]
pub enum Access {
    Denied,
    Granted(String),
}

pub open spec fn access_view(a: Access) -> Option<Seq<char>> {
    match a {
        Access::Denied => None,
        Access::Granted(p) => Some(p@),
    }
}

/// The path that a confined operation on `rel` may use: inside the jail, and
/// only for a safe path and an initialised store.
pub fn confined_access(store: &Option<ValueStore>, rel: &str) -> (r: Access)
    ensures
        access_view(r) == confined_spec(*store, rel@),
{
    match resolve_confined(store, rel) {
        Some(p) => Access::Granted(p),
        None => Access::Denied,
    }
}

/// The two paths of a confined rename or copy: both must be safe.
pub fn confined_pair_access(store: &Option<ValueStore>, from: &str, to: &str) -> (r: Option<(String, String)>)
    ensures
        match r {
            Some((a, b)) => confined_spec(*store, from@) == Some(a@) && confined_spec(*store, to@) == Some(b@),
            None => confined_spec(*store, from@) is None || confined_spec(*store, to@) is None,
        },
{
    match (resolve_confined(store, from), resolve_confined(store, to)) {
        (Some(a), Some(b)) => Some((a, b)),
        _ => None,
    }
}

/// The path that an unconfined operation may use: the path as given, and
/// only while unconfined operations are switched on.
pub fn unconfined_access(store: &Option<ValueStore>, path: &str) -> (r: Access)
    ensures
        access_view(r) == (if unsafe_api_allowed(*store) {
            Some(path@)
        } else {
            None
        }),
{
    if check_unsafe_api(store) {
        Access::Granted(path.to_string())
    } else {
        Access::Denied
    }
}

/// Joining two segments for a module: both must be safe paths, else the
/// empty text.
pub fn join_paths(base: &str, segment: &str) -> (r: String)
    ensures
        path_safe(base@) && path_safe(segment@) ==> r@ == join_spec(base@, segment@),
        !(path_safe(base@) && path_safe(segment@)) ==> r@ == Seq::<char>::empty(),
{
    if validate_path(base) && validate_path(segment) {
        join_path(base, segment)
    } else {
        String::new()
    }
}

/// The extension, split from the back, of the confined path; empty when the
/// operation is denied.
pub fn confined_extension_std(store: &Option<ValueStore>, rel: &str) -> (r: String)
    ensures
        r@ == match confined_spec(*store, rel@) {
            Some(p) => extension_spec(p),
            None => Seq::empty(),
        },
{
    match resolve_confined(store, rel) {
        Some(p) => extension_from_back(p.as_str()),
        None => String::new(),
    }
}

/// The prefix, split from the front, of the confined path's final
/// component; empty when the operation is denied.
pub fn confined_extension_nightly(store: &Option<ValueStore>, rel: &str) -> (r: String)
    ensures
        r@ == match confined_spec(*store, rel@) {
            Some(p) => prefix_spec(p),
            None => Seq::empty(),
        },
{
    match resolve_confined(store, rel) {
        Some(p) => prefix_from_front(p.as_str()),
        None => String::new(),
    }
}

/// The extension, split from the back, of an unconfined path; empty when
/// unconfined operations are off.
pub fn unconfined_extension_std(store: &Option<ValueStore>, path: &str) -> (r: String)
    ensures
        r@ == (if unsafe_api_allowed(*store) {
            extension_spec(path@)
        } else {
            Seq::empty()
        }),
{
    if check_unsafe_api(store) {
        extension_from_back(path)
    } else {
        String::new()
    }
}

/// The prefix, split from the front, of an unconfined path's final
/// component; empty when unconfined operations are off.
pub fn unconfined_extension_nightly(store: &Option<ValueStore>, path: &str) -> (r: String)
    ensures
        r@ == (if unsafe_api_allowed(*store) {
            prefix_spec(path@)
        } else {
            Seq::empty()
        }),
{
    if check_unsafe_api(store) {
        prefix_from_front(path)
    } else {
        String::new()
    }
}

/// Where a confined read goes, or the `ERR:` text that the module gets.
pub fn confined_read_target(store: &Option<ValueStore>, rel: &str) -> (r: Result<String, String>)
    ensures
        match r {
            Ok(p) => confined_spec(*store, rel@) == Some(p@),
            Err(e) => confined_spec(*store, rel@) is None && e@.len() >= 4 && e@.subrange(0, 4) == "ERR:"@,
        },
{
    proof {
        reveal_strlit("ERR: Invalid path");
        reveal_strlit("ERR: Failed to confine path to the plugin r/w dir");
        reveal_strlit("ERR:");
    }
    if !validate_path(rel) {
        let e = "ERR: Invalid path".to_string();
        assert(e@.subrange(0, 4) =~= "ERR:"@);
        return Err(e);
    }
    match resolve_confined(store, rel) {
        Some(p) => Ok(p),
        None => {
            let e = "ERR: Failed to confine path to the plugin r/w dir".to_string();
            assert(e@.subrange(0, 4) =~= "ERR:"@);
            Err(e)
        },
    }
}

/// The music folder as a module sees it: the `ERR:` text when there is no
/// store.
pub fn music_folder_reply(store: &Option<ValueStore>) -> (r: String)
    ensures
        store is Some ==> r == store->0.music_folder,
        store is None ==> r@ == "ERR: ValueStore not initialized"@,
{
    match store {
        Some(s) => s.music_folder.clone(),
        None => "ERR: ValueStore not initialized".to_string(),
    }
}

/// The current track as a module sees it: none when there is no store.
pub fn current_song_reply(store: &Option<ValueStore>) -> (r: Option<SongMetadata>)
    ensures
        store is None ==> r is None,
        store is Some ==> (r is Some <==> store->0.current_song is Some),
{
    match store {
        Some(s) => match &s.current_song {
            Some(song) => Some(song.clone()),
            None => None,
        },
        None => None,
    }
}

/// The type of a filesystem entry. Without following links, a directory is
/// a directory, a link is a link, and anything else (a missing entry too) is
/// a file. Following links, a missing target has no type.
pub fn classify_entity(follow_symlinks: bool, exists: bool, is_dir: bool, is_symlink: bool) -> (r: Option<EntityType>)
    ensures
        !follow_symlinks ==> r == Some(
            if is_dir {
                EntityType::Directory
            } else if is_symlink {
                EntityType::Symlink
            } else {
                EntityType::File
            },
        ),
        follow_symlinks ==> r == (if !exists {
            None
        } else if is_dir {
            Some(EntityType::Directory)
        } else {
            Some(EntityType::File)
        }),
{
    if !follow_symlinks {
        if is_dir {
            Some(EntityType::Directory)
        } else if is_symlink {
            Some(EntityType::Symlink)
        } else {
            Some(EntityType::File)
        }
    } else if !exists {
        None
    } else if is_dir {
        Some(EntityType::Directory)
    } else {
        Some(EntityType::File)
    }
}

impl DirEntities {
    pub fn empty() -> (r: DirEntities)
        ensures
            r.contents@.len() == 0,
    {
        DirEntities { contents: Vec::new() }
    }
}

impl CommandResult {
    /// What a command gets while unconfined operations are off.
    pub fn denied() -> (r: CommandResult)
        ensures
            !r.success,
            r.exit_code == -1,
            r.stdout@.len() == 0,
            r.stderr@ == "ERR: Unsafe API disabled"@,
    {
        CommandResult {
            success: false,
            exit_code: -1,
            stdout: String::new(),
            stderr: "ERR: Unsafe API disabled".to_string(),
        }
    }

    /// What a command gets when it could not be started.
    pub fn spawn_failed(message: String) -> (r: CommandResult)
        ensures
            !r.success,
            r.exit_code == -1,
            r.stdout@.len() == 0,
            r.stderr == message,
    {
        CommandResult { success: false, exit_code: -1, stdout: String::new(), stderr: message }
    }
}

impl HttpResponse {
    /// A response that carries only an error.
    pub fn failure(error: String) -> (r: HttpResponse)
        ensures
            r.status_code == 0,
            !r.success,
            r.headers@.len() == 0,
            r.body@.len() == 0,
            r.error == Some(error),
    {
        HttpResponse { status_code: 0, headers: Vec::new(), body: String::new(), success: false, error: Some(error) }
    }

    /// What a request gets while unconfined operations are off.
    pub fn denied() -> (r: HttpResponse)
        ensures
            r.status_code == 0,
            !r.success,
            r.headers@.len() == 0,
            r.body@.len() == 0,
            r.error is Some && r.error->0@ == "ERR: Unsafe API disabled"@,
    {
        HttpResponse::failure("ERR: Unsafe API disabled".to_string())
    }

    /// A response that was received: success means a status below 400.
    pub fn received(status_code: u16, headers: Vec<(String, String)>, body: String) -> (r: HttpResponse)
        ensures
            r.status_code == status_code,
            r.success == (status_code < 400),
            r.error is None,
            r.body == body,
    {
        HttpResponse { status_code, headers, body, success: status_code < 400, error: None }
    }
}

pub open spec fn method_of(upper: Seq<char>) -> Option<HttpMethod> {
    if upper == "GET"@ {
        Some(HttpMethod::Get)
    } else if upper == "POST"@ {
        Some(HttpMethod::Post)
    } else if upper == "PUT"@ {
        Some(HttpMethod::Put)
    } else if upper == "DELETE"@ {
        Some(HttpMethod::Delete)
    } else if upper == "PATCH"@ {
        Some(HttpMethod::Patch)
    } else if upper == "HEAD"@ {
        Some(HttpMethod::Head)
    } else {
        None
    }
}

/// The method that an upper-cased method name names.
pub fn parse_http_method(upper: &str) -> (r: Option<HttpMethod>)
    ensures
        r == method_of(upper@),
{
    if text_eq(upper, "GET") {
        Some(HttpMethod::Get)
    } else if text_eq(upper, "POST") {
        Some(HttpMethod::Post)
    } else if text_eq(upper, "PUT") {
        Some(HttpMethod::Put)
    } else if text_eq(upper, "DELETE") {
        Some(HttpMethod::Delete)
    } else if text_eq(upper, "PATCH") {
        Some(HttpMethod::Patch)
    } else if text_eq(upper, "HEAD") {
        Some(HttpMethod::Head)
    } else {
        None
    }
}

pub uninterp spec fn upper_of(s: Seq<char>) -> Seq<char>;

/// Relies on `str::to_uppercase`: the upper-case form depends on the
/// characters alone.
#[verifier::external_body]
fn to_upper(s: &str) -> (r: String)
    ensures
        r@ == upper_of(s@),
{
    s.to_uppercase()
}

/// The method that a request names, case-insensitively.
pub fn request_method(method: &str) -> (r: Option<HttpMethod>)
    ensures
        r == method_of(upper_of(method@)),
{
    let upper = to_upper(method);
    parse_http_method(upper.as_str())
}

/// Every confined operation on an unsafe path is denied, whatever the store.
pub proof fn lemma_unsafe_path_denied(store: Option<ValueStore>, rel: Seq<char>)
    requires
        !path_safe(rel),
    ensures
        confined_spec(store, rel) is None,
{
}

} // verus!
