//! The metadata document that sits beside a module: its declared
//! configuration (`rpc`) and its UI contribution (`fad`), decoded from the
//! parsed JSON document. A malformed entry of `rpc` is dropped on its own; a
//! `fad` object of the wrong shape is dropped as a whole, and a well-shaped
//! one is filtered item by item.

use vstd::prelude::*;
use crate::config::{
    encodes, fits, lemma_bool_entry_with_text_rejected, lemma_encoding_reads_back, value_fits, entry_value, json_of, kind_from_tag, kind_of, kind_of_config_value, kind_of_value, resolve_map,
    rpc2plugin, validate_rpc, ConfigKind, ConfigTypes, PluginConfig, RpcConfig,
};
use crate::manager::PluginManErr;
use crate::fad::{
    button_valid, kept_fad, location_allowed, opt_seq, popups_opt_view, popups_view, screens_opt_view,
    screens_view, validate_and_filter_fad_config, FadButton, FadConfig, FadLabel, FadPopup, FadScreen, FadV, PanelV,
};
use crate::json::{get_spec, member_spec, text_eq, JsonValue};

verus! {

proof fn lemma_member_remove(s: Seq<(String, JsonValue)>, i: int, k: Seq<char>)
    requires
        0 <= i < s.len(),
        s[i].0@ != k,
    ensures
        member_spec(s.remove(i), k) == member_spec(s, k),
    decreases s.len(),
{
    if i == 0 {
        assert(s.remove(0) =~= s.drop_first());
    } else {
        assert(s.remove(i)[0] == s[0]);
        if s[0].0@ != k {
            assert(s.remove(i).drop_first() =~= s.drop_first().remove(i - 1));
            lemma_member_remove(s.drop_first(), i - 1, k);
        }
    }
}

/// Moves the member `key` out of an object's member list.
pub fn take_member(members: &mut Vec<(String, JsonValue)>, key: &str) -> (r: Option<JsonValue>)
    ensures
        r == member_spec(old(members)@, key@),
        forall|k: Seq<char>| k != key@ ==> #[trigger] member_spec(final(members)@, k) == member_spec(old(members)@, k),
{
    let ghost s = members@;
    let mut i: usize = 0;
    assert(s.subrange(0, s.len() as int) =~= s);
    while i < members.len()
        invariant
            members@ == s,
            s == old(members)@,
            i <= s.len(),
            member_spec(s, key@) == member_spec(s.subrange(i as int, s.len() as int), key@),
        decreases s.len() - i,
    {
        let ghost rest = s.subrange(i as int, s.len() as int);
        assert(rest.drop_first() =~= s.subrange(i + 1, s.len() as int));
        assert(rest[0] == s[i as int]);
        if text_eq(members[i].0.as_str(), key) {
            let (_, v) = members.remove(i);
            proof {
                assert forall|k: Seq<char>| k != key@ implies #[trigger] member_spec(members@, k) == member_spec(s, k) by {
                    lemma_member_remove(s, i as int, k);
                }
            }
            return Some(v);
        }
        i = i + 1;
    }
    None
}

/// A required text field: present and a JSON string.
pub open spec fn text_field(m: Option<JsonValue>) -> Option<String> {
    match m {
        Some(JsonValue::Str(s)) => Some(s),
        _ => None,
    }
}

/// An optional text field: absent or null gives `Some(None)`, a string gives
/// `Some(Some(..))`, anything else is malformed (`None`).
pub open spec fn opt_text_field(m: Option<JsonValue>) -> Option<Option<String>> {
    match m {
        None => Some(None),
        Some(JsonValue::Null) => Some(None),
        Some(JsonValue::Str(s)) => Some(Some(s)),
        _ => None,
    }
}

/// A declared configuration entry: an object with text fields `key` and
/// `ctype` and any values under `default_val` and `set_val`.
pub open spec fn decode_rpc_spec(v: JsonValue) -> Option<RpcConfig> {
    match v {
        JsonValue::Object(ms) => {
            let key = text_field(member_spec(ms@, "key"@));
            let ctype = text_field(member_spec(ms@, "ctype"@));
            let d = member_spec(ms@, "default_val"@);
            let s = member_spec(ms@, "set_val"@);
            if key is Some && ctype is Some && d is Some && s is Some {
                Some(RpcConfig { key: key->0, ctype: ctype->0, default_val: d->0, set_val: s->0 })
            } else {
                None
            }
        },
        _ => None,
    }
}

/// The entries of an `rpc` array that decode and are valid, in order.
pub open spec fn valid_rpcs(s: Seq<JsonValue>) -> Seq<RpcConfig>
    decreases s.len(),
{
    if s.len() == 0 {
        Seq::empty()
    } else {
        let prev = valid_rpcs(s.drop_last());
        match decode_rpc_spec(s.last()) {
            Some(c) => if entry_value(c) is Some {
                prev.push(c)
            } else {
                prev
            },
            None => prev,
        }
    }
}

fn take_text(members: &mut Vec<(String, JsonValue)>, key: &str) -> (r: Option<String>)
    ensures
        r == text_field(member_spec(old(members)@, key@)),
        forall|k: Seq<char>| k != key@ ==> #[trigger] member_spec(final(members)@, k) == member_spec(old(members)@, k),
{
    match take_member(members, key) {
        Some(JsonValue::Str(s)) => Some(s),
        _ => None,
    }
}

proof fn lemma_rpc_keys_differ()
    ensures
        "key"@ != "ctype"@,
        "key"@ != "default_val"@,
        "key"@ != "set_val"@,
        "ctype"@ != "default_val"@,
        "ctype"@ != "set_val"@,
        "default_val"@ != "set_val"@,
{
    reveal_strlit("key");
    reveal_strlit("ctype");
    reveal_strlit("default_val");
    reveal_strlit("set_val");
    assert("key"@.len() == 3 && "ctype"@.len() == 5 && "default_val"@.len() == 11 && "set_val"@.len() == 7);
}

/// Decodes one declared configuration entry, consuming the value.
pub fn decode_rpc(v: JsonValue) -> (r: Option<RpcConfig>)
    ensures
        r == decode_rpc_spec(v),
{
    match v {
        JsonValue::Object(mut ms) => {
            let ghost m0 = ms@;
            proof {
                lemma_rpc_keys_differ();
            }
            let key = take_text(&mut ms, "key");
            let ctype = take_text(&mut ms, "ctype");
            let d = take_member(&mut ms, "default_val");
            let s = take_member(&mut ms, "set_val");
            match (key, ctype, d, s) {
                (Some(key), Some(ctype), Some(default_val), Some(set_val)) => Some(
                    RpcConfig { key, ctype, default_val, set_val },
                ),
                _ => None,
            }
        },
        _ => None,
    }
}

/// The valid declared entries of an `rpc` array, consuming it.
pub fn collect_rpcs(mut items: Vec<JsonValue>) -> (r: Vec<RpcConfig>)
    ensures
        r@ == valid_rpcs(items@),
{
    let ghost s = items@;
    let mut pending: Vec<JsonValue> = Vec::new();
    // reverse, so that popping yields the items in order
    while items.len() > 0
        invariant
            s == items@ + pending@.reverse(),
        decreases items@.len(),
    {
        let x = items.pop().unwrap();
        pending.push(x);
        proof {
            assert(s =~= items@ + pending@.reverse());
        }
    }
    let ghost n = s.len() as int;
    let mut out: Vec<RpcConfig> = Vec::new();
    assert(s.subrange(0, 0) =~= Seq::<JsonValue>::empty());
    while pending.len() > 0
        invariant
            pending@.len() <= n,
            s.len() == n,
            s == s.subrange(0, n - pending@.len()) + pending@.reverse(),
            out@ == valid_rpcs(s.subrange(0, n - pending@.len())),
        decreases pending@.len(),
    {
        let ghost k = n - pending@.len();
        let ghost before = pending@;
        let x = pending.pop().unwrap();
        proof {
            assert(s[k] == x) by {
                assert(before.reverse()[0] == before.last());
                assert((s.subrange(0, k) + before.reverse())[k] == before.reverse()[0]);
            }
            assert(before.reverse() =~= seq![x] + pending@.reverse());
            let p = s.subrange(0, k + 1);
            assert(p.drop_last() =~= s.subrange(0, k));
            assert(p.last() == x);
        }
        match decode_rpc(x) {
            Some(c) => {
                if validate_rpc(&c) {
                    out.push(c);
                }
            },
            None => {},
        }
        proof {
            assert(s =~= s.subrange(0, n - pending@.len()) + pending@.reverse());
        }
    }
    assert(s.subrange(0, n) =~= s);
    out
}

pub open spec fn decode_button_spec(v: JsonValue) -> Option<FadButton> {
    let name = text_field(get_spec(v, "name"@));
    let icon = opt_text_field(get_spec(v, "icon"@));
    let location = opt_text_field(get_spec(v, "location"@));
    let callback = text_field(get_spec(v, "callback"@));
    if v is Object && name is Some && icon is Some && location is Some && callback is Some {
        Some(FadButton { name: name->0, icon: icon->0, location: location->0, callback: callback->0 })
    } else {
        None
    }
}

pub open spec fn decode_label_spec(v: JsonValue) -> Option<FadLabel> {
    let size = get_spec(v, "size"@);
    let text = text_field(get_spec(v, "text"@));
    let color = opt_text_field(get_spec(v, "color"@));
    if v is Object && (size matches Some(JsonValue::Number(_))) && text is Some && color is Some {
        Some(FadLabel { size: size->0->Number_0, text: text->0, color: color->0 })
    } else {
        None
    }
}

/// Every element decodes as a button; the buttons in order.
pub open spec fn decode_buttons_spec(s: Seq<JsonValue>) -> Option<Seq<FadButton>> {
    if forall|i: int| 0 <= i < s.len() ==> (#[trigger] decode_button_spec(s[i])) is Some {
        Some(s.map_values(|x: JsonValue| decode_button_spec(x)->0))
    } else {
        None
    }
}

pub open spec fn decode_labels_spec(s: Seq<JsonValue>) -> Option<Seq<FadLabel>> {
    if forall|i: int| 0 <= i < s.len() ==> (#[trigger] decode_label_spec(s[i])) is Some {
        Some(s.map_values(|x: JsonValue| decode_label_spec(x)->0))
    } else {
        None
    }
}

/// An optional list of buttons: absent or null gives `Some(None)`; an array
/// all of whose elements decode gives them; anything else is malformed.
pub open spec fn opt_buttons_field(m: Option<JsonValue>) -> Option<Option<Seq<FadButton>>> {
    match m {
        None => Some(None),
        Some(JsonValue::Null) => Some(None),
        Some(JsonValue::Array(a)) => match decode_buttons_spec(a@) {
            Some(b) => Some(Some(b)),
            None => None,
        },
        _ => None,
    }
}

pub open spec fn opt_labels_field(m: Option<JsonValue>) -> Option<Option<Seq<FadLabel>>> {
    match m {
        None => Some(None),
        Some(JsonValue::Null) => Some(None),
        Some(JsonValue::Array(a)) => match decode_labels_spec(a@) {
            Some(b) => Some(Some(b)),
            None => None,
        },
        _ => None,
    }
}

pub open spec fn decode_panel_spec(v: JsonValue) -> Option<PanelV> {
    let title = opt_text_field(get_spec(v, "title"@));
    let buttons = opt_buttons_field(get_spec(v, "buttons"@));
    let labels = opt_labels_field(get_spec(v, "labels"@));
    if v is Object && title is Some && buttons is Some && labels is Some {
        Some((title->0, buttons->0, labels->0))
    } else {
        None
    }
}

pub open spec fn decode_panels_spec(s: Seq<JsonValue>) -> Option<Seq<PanelV>> {
    if forall|i: int| 0 <= i < s.len() ==> (#[trigger] decode_panel_spec(s[i])) is Some {
        Some(s.map_values(|x: JsonValue| decode_panel_spec(x)->0))
    } else {
        None
    }
}

pub open spec fn opt_panels_field(m: Option<JsonValue>) -> Option<Option<Seq<PanelV>>> {
    match m {
        None => Some(None),
        Some(JsonValue::Null) => Some(None),
        Some(JsonValue::Array(a)) => match decode_panels_spec(a@) {
            Some(b) => Some(Some(b)),
            None => None,
        },
        _ => None,
    }
}

/// A UI contribution: an object with optional `screens`, `popups` and
/// `buttons`.
pub open spec fn decode_fad_spec(v: JsonValue) -> Option<FadV> {
    let screens = opt_panels_field(get_spec(v, "screens"@));
    let popups = opt_panels_field(get_spec(v, "popups"@));
    let buttons = opt_buttons_field(get_spec(v, "buttons"@));
    if v is Object && screens is Some && popups is Some && buttons is Some {
        Some((screens->0, popups->0, buttons->0))
    } else {
        None
    }
}

fn field_text(v: &JsonValue, key: &str) -> (r: Option<String>)
    ensures
        r == text_field(get_spec(*v, key@)),
{
    match v.get(key) {
        Some(JsonValue::Str(s)) => Some(s.clone()),
        _ => None,
    }
}

fn field_opt_text(v: &JsonValue, key: &str) -> (r: Option<Option<String>>)
    ensures
        r == opt_text_field(get_spec(*v, key@)),
{
    match v.get(key) {
        None => Some(None),
        Some(JsonValue::Null) => Some(None),
        Some(JsonValue::Str(s)) => Some(Some(s.clone())),
        _ => None,
    }
}

pub fn decode_button(v: &JsonValue) -> (r: Option<FadButton>)
    ensures
        r == decode_button_spec(*v),
{
    if !matches!(v, JsonValue::Object(_)) {
        return None;
    }
    let name = field_text(v, "name");
    let icon = field_opt_text(v, "icon");
    let location = field_opt_text(v, "location");
    let callback = field_text(v, "callback");
    match (name, icon, location, callback) {
        (Some(name), Some(icon), Some(location), Some(callback)) => Some(
            FadButton { name, icon, location, callback },
        ),
        _ => None,
    }
}

pub fn decode_label(v: &JsonValue) -> (r: Option<FadLabel>)
    ensures
        r == decode_label_spec(*v),
{
    if !matches!(v, JsonValue::Object(_)) {
        return None;
    }
    let size = match v.get("size") {
        Some(JsonValue::Number(n)) => *n,
        _ => {
            return None;
        },
    };
    let text = field_text(v, "text");
    let color = field_opt_text(v, "color");
    match (text, color) {
        (Some(text), Some(color)) => Some(FadLabel { size, text, color }),
        _ => None,
    }
}

fn field_buttons(v: &JsonValue, key: &str) -> (r: Option<Option<Vec<FadButton>>>)
    ensures
        match r {
            Some(o) => opt_buttons_field(get_spec(*v, key@)) == Some(opt_seq(o)),
            None => opt_buttons_field(get_spec(*v, key@)) is None,
        },
{
    match v.get(key) {
        None => Some(None),
        Some(JsonValue::Null) => Some(None),
        Some(JsonValue::Array(a)) => {
            let mut out: Vec<FadButton> = Vec::new();
            let mut i: usize = 0;
            while i < a.len()
                invariant
                    i <= a@.len(),
                    get_spec(*v, key@) == Some(JsonValue::Array(*a)),
                    forall|j: int| 0 <= j < i ==> (#[trigger] decode_button_spec(a@[j])) is Some,
                    out@ == a@.subrange(0, i as int).map_values(|x: JsonValue| decode_button_spec(x)->0),
                decreases a@.len() - i,
            {
                match decode_button(&a[i]) {
                    Some(b) => out.push(b),
                    None => {
                        return None;
                    },
                }
                i = i + 1;
                assert(out@ =~= a@.subrange(0, i as int).map_values(|x: JsonValue| decode_button_spec(x)->0));
            }
            assert(a@.subrange(0, a@.len() as int) =~= a@);
            Some(Some(out))
        },
        _ => None,
    }
}

fn field_labels(v: &JsonValue, key: &str) -> (r: Option<Option<Vec<FadLabel>>>)
    ensures
        match r {
            Some(o) => opt_labels_field(get_spec(*v, key@)) == Some(opt_seq(o)),
            None => opt_labels_field(get_spec(*v, key@)) is None,
        },
{
    match v.get(key) {
        None => Some(None),
        Some(JsonValue::Null) => Some(None),
        Some(JsonValue::Array(a)) => {
            let mut out: Vec<FadLabel> = Vec::new();
            let mut i: usize = 0;
            while i < a.len()
                invariant
                    i <= a@.len(),
                    get_spec(*v, key@) == Some(JsonValue::Array(*a)),
                    forall|j: int| 0 <= j < i ==> (#[trigger] decode_label_spec(a@[j])) is Some,
                    out@ == a@.subrange(0, i as int).map_values(|x: JsonValue| decode_label_spec(x)->0),
                decreases a@.len() - i,
            {
                match decode_label(&a[i]) {
                    Some(b) => out.push(b),
                    None => {
                        return None;
                    },
                }
                i = i + 1;
                assert(out@ =~= a@.subrange(0, i as int).map_values(|x: JsonValue| decode_label_spec(x)->0));
            }
            assert(a@.subrange(0, a@.len() as int) =~= a@);
            Some(Some(out))
        },
        _ => None,
    }
}

/// Title, buttons and labels of a screen or popup.
fn decode_panel(v: &JsonValue) -> (r: Option<(Option<String>, Option<Vec<FadButton>>, Option<Vec<FadLabel>>)>)
    ensures
        match r {
            Some(p) => decode_panel_spec(*v) == Some((p.0, opt_seq(p.1), opt_seq(p.2))),
            None => decode_panel_spec(*v) is None,
        },
{
    if !matches!(v, JsonValue::Object(_)) {
        return None;
    }
    let title = field_opt_text(v, "title");
    let buttons = field_buttons(v, "buttons");
    let labels = field_labels(v, "labels");
    match (title, buttons, labels) {
        (Some(t), Some(b), Some(l)) => Some((t, b, l)),
        _ => None,
    }
}

fn field_screens(v: &JsonValue, key: &str) -> (r: Option<Option<Vec<FadScreen>>>)
    ensures
        match r {
            Some(o) => opt_panels_field(get_spec(*v, key@)) == Some(screens_opt_view(o)),
            None => opt_panels_field(get_spec(*v, key@)) is None,
        },
{
    match v.get(key) {
        None => Some(None),
        Some(JsonValue::Null) => Some(None),
        Some(JsonValue::Array(a)) => {
            let mut out: Vec<FadScreen> = Vec::new();
            let mut i: usize = 0;
            while i < a.len()
                invariant
                    i <= a@.len(),
                    get_spec(*v, key@) == Some(JsonValue::Array(*a)),
                    forall|j: int| 0 <= j < i ==> (#[trigger] decode_panel_spec(a@[j])) is Some,
                    screens_view(out@) == a@.subrange(0, i as int).map_values(|x: JsonValue| decode_panel_spec(x)->0),
                decreases a@.len() - i,
            {
                match decode_panel(&a[i]) {
                    Some((title, buttons, labels)) => {
                        let item = FadScreen { title, buttons, labels };
                        let ghost before = out@;
                        out.push(item);
                        assert(screens_view(out@) =~= screens_view(before).push(item@));
                    },
                    None => {
                        return None;
                    },
                }
                i = i + 1;
                assert(screens_view(out@) =~= a@.subrange(0, i as int).map_values(|x: JsonValue| decode_panel_spec(x)->0));
            }
            assert(a@.subrange(0, a@.len() as int) =~= a@);
            Some(Some(out))
        },
        _ => None,
    }
}

fn field_popups(v: &JsonValue, key: &str) -> (r: Option<Option<Vec<FadPopup>>>)
    ensures
        match r {
            Some(o) => opt_panels_field(get_spec(*v, key@)) == Some(popups_opt_view(o)),
            None => opt_panels_field(get_spec(*v, key@)) is None,
        },
{
    match v.get(key) {
        None => Some(None),
        Some(JsonValue::Null) => Some(None),
        Some(JsonValue::Array(a)) => {
            let mut out: Vec<FadPopup> = Vec::new();
            let mut i: usize = 0;
            while i < a.len()
                invariant
                    i <= a@.len(),
                    get_spec(*v, key@) == Some(JsonValue::Array(*a)),
                    forall|j: int| 0 <= j < i ==> (#[trigger] decode_panel_spec(a@[j])) is Some,
                    popups_view(out@) == a@.subrange(0, i as int).map_values(|x: JsonValue| decode_panel_spec(x)->0),
                decreases a@.len() - i,
            {
                match decode_panel(&a[i]) {
                    Some((title, buttons, labels)) => {
                        let item = FadPopup { title, buttons, labels };
                        let ghost before = out@;
                        out.push(item);
                        assert(popups_view(out@) =~= popups_view(before).push(item@));
                    },
                    None => {
                        return None;
                    },
                }
                i = i + 1;
                assert(popups_view(out@) =~= a@.subrange(0, i as int).map_values(|x: JsonValue| decode_panel_spec(x)->0));
            }
            assert(a@.subrange(0, a@.len() as int) =~= a@);
            Some(Some(out))
        },
        _ => None,
    }
}

/// Decodes a UI contribution; `None` when it does not have the right shape.
pub fn decode_fad(v: &JsonValue) -> (r: Option<FadConfig>)
    ensures
        match r {
            Some(f) => decode_fad_spec(*v) == Some(f@),
            None => decode_fad_spec(*v) is None,
        },
{
    if !matches!(v, JsonValue::Object(_)) {
        return None;
    }
    let screens = field_screens(v, "screens");
    let popups = field_popups(v, "popups");
    let buttons = field_buttons(v, "buttons");
    match (screens, popups, buttons) {
        (Some(screens), Some(popups), Some(buttons)) => Some(FadConfig { screens, popups, buttons }),
        _ => None,
    }
}

/// The declared entries of a metadata document that are kept: those of its
/// `rpc` array that decode and are valid; `None` when there is no `rpc` array.
pub open spec fn metadata_rpcs(doc: JsonValue) -> Option<Seq<RpcConfig>> {
    match get_spec(doc, "rpc"@) {
        Some(JsonValue::Array(a)) => Some(valid_rpcs(a@)),
        _ => None,
    }
}

/// The resolved configuration that a metadata document declares.
pub open spec fn metadata_config(doc: JsonValue) -> Option<Map<Seq<char>, ConfigTypes>> {
    match metadata_rpcs(doc) {
        Some(cs) => Some(resolve_map(cs)),
        None => None,
    }
}

/// The UI contribution that a metadata document declares, filtered; `None`
/// when there is no `fad` member or it does not have the right shape.
pub open spec fn metadata_fad(doc: JsonValue) -> Option<FadV> {
    match get_spec(doc, "fad"@) {
        Some(f) => match decode_fad_spec(f) {
            Some(fv) => Some(kept_fad(fv)),
            None => None,
        },
        None => None,
    }
}

/// The declared configuration entries and the filtered UI contribution of a
/// parsed metadata document. Malformed or invalid entries are dropped one by
/// one; a malformed UI contribution is dropped as a whole.
pub fn read_plugin_metadata(doc: JsonValue) -> (r: (Option<Vec<RpcConfig>>, Option<FadConfig>))
    ensures
        match r.0 {
            Some(v) => metadata_rpcs(doc) == Some(v@),
            None => metadata_rpcs(doc) is None,
        },
        match r.1 {
            Some(f) => metadata_fad(doc) == Some(f@),
            None => metadata_fad(doc) is None,
        },
{
    let ghost d = doc;
    let fad = match doc.get("fad") {
        Some(f) => match decode_fad(f) {
            Some(mut fc) => {
                validate_and_filter_fad_config(&mut fc);
                Some(fc)
            },
            None => None,
        },
        None => None,
    };
    let rpcs = match doc {
        JsonValue::Object(mut ms) => match take_member(&mut ms, "rpc") {
            Some(JsonValue::Array(items)) => Some(collect_rpcs(items)),
            _ => None,
        },
        _ => None,
    };
    (rpcs, fad)
}

/// What a module loads with: the resolved configuration and the UI
/// contribution of its metadata document. Without a readable, well-formed
/// document the configuration is empty and there is no UI contribution.
pub open spec fn loaded_config(doc: Option<JsonValue>) -> Option<Map<Seq<char>, ConfigTypes>> {
    match doc {
        Some(d) => metadata_config(d),
        None => Some(Map::empty()),
    }
}

pub open spec fn loaded_fad(doc: Option<JsonValue>) -> Option<FadV> {
    match doc {
        Some(d) => metadata_fad(d),
        None => None,
    }
}

/// The configuration and UI contribution that a module is loaded with.
pub fn resolve_metadata(doc: Option<JsonValue>) -> (r: (Option<PluginConfig>, Option<FadConfig>))
    ensures
        match r.0 {
            Some(c) => c.wf() && loaded_config(doc) == Some(c@),
            None => loaded_config(doc) is None,
        },
        match r.1 {
            Some(f) => loaded_fad(doc) == Some(f@),
            None => loaded_fad(doc) is None,
        },
{
    match doc {
        None => (Some(PluginConfig::new()), None),
        Some(d) => {
            let (rpcs, fad) = read_plugin_metadata(d);
            let config = match rpcs {
                Some(v) => Some(rpc2plugin(v)),
                None => None,
            };
            (config, fad)
        },
    }
}

proof fn lemma_member_first(s: Seq<(String, JsonValue)>, i: int, k: Seq<char>)
    requires
        0 <= i < s.len(),
        s[i].0@ == k,
        forall|j: int| 0 <= j < i ==> (#[trigger] s[j]).0@ != k,
    ensures
        member_spec(s, k) == Some(s[i].1),
    decreases s.len(),
{
    if i > 0 {
        assert(s[0].0@ != k);
        assert forall|j: int| 0 <= j < i - 1 implies (#[trigger] s.drop_first()[j]).0@ != k by {
            assert(s.drop_first()[j] == s[j + 1]);
        }
        lemma_member_first(s.drop_first(), i - 1, k);
    }
}

proof fn lemma_member_none(s: Seq<(String, JsonValue)>, k: Seq<char>)
    requires
        forall|j: int| 0 <= j < s.len() ==> (#[trigger] s[j]).0@ != k,
    ensures
        member_spec(s, k) is None,
    decreases s.len(),
{
    if s.len() > 0 {
        assert(s[0].0@ != k);
        assert forall|j: int| 0 <= j < s.len() - 1 implies (#[trigger] s.drop_first()[j]).0@ != k by {
            assert(s.drop_first()[j] == s[j + 1]);
        }
        lemma_member_none(s.drop_first(), k);
    }
}

proof fn lemma_member_update(s: Seq<(String, JsonValue)>, i: int, v: JsonValue, k: Seq<char>)
    requires
        0 <= i < s.len(),
        forall|j: int| 0 <= j < i ==> (#[trigger] s[j]).0@ != s[i].0@,
    ensures
        member_spec(s.update(i, (s[i].0, v)), k) == (if k == s[i].0@ {
            Some(v)
        } else {
            member_spec(s, k)
        }),
    decreases s.len(),
{
    let t = s.update(i, (s[i].0, v));
    if i == 0 {
        assert(t.drop_first() =~= s.drop_first());
    } else {
        assert(t[0] == s[0]);
        assert(t.drop_first() =~= s.drop_first().update(i - 1, (s[i].0, v)));
        assert forall|j: int| 0 <= j < i - 1 implies (#[trigger] s.drop_first()[j]).0@ != s.drop_first()[i - 1].0@ by {
            assert(s.drop_first()[j] == s[j + 1]);
        }
        if s[0].0@ != k {
            lemma_member_update(s.drop_first(), i - 1, v, k);
        }
    }
}

proof fn lemma_member_push(s: Seq<(String, JsonValue)>, x: (String, JsonValue), k: Seq<char>)
    requires
        forall|j: int| 0 <= j < s.len() ==> (#[trigger] s[j]).0@ != x.0@,
    ensures
        member_spec(s.push(x), k) == (if k == x.0@ {
            Some(x.1)
        } else {
            member_spec(s, k)
        }),
    decreases s.len(),
{
    if s.len() == 0 {
        assert(s.push(x).drop_first() =~= Seq::<(String, JsonValue)>::empty());
        assert(s.push(x)[0] == x);
        assert(member_spec(s.push(x).drop_first(), k) is None);
    } else {
        assert(s.push(x)[0] == s[0]);
        assert(s.push(x).drop_first() =~= s.drop_first().push(x));
        assert forall|j: int| 0 <= j < s.len() - 1 implies (#[trigger] s.drop_first()[j]).0@ != x.0@ by {
            assert(s.drop_first()[j] == s[j + 1]);
        }
        assert(s[0].0@ != x.0@);
        if s[0].0@ != k {
            lemma_member_push(s.drop_first(), x, k);
        } else {
            assert(member_spec(s, k) == Some(s[0].1));
        }
    }
}

/// Index of the first member with key `key`.
fn member_index(ms: &Vec<(String, JsonValue)>, key: &str) -> (r: Option<usize>)
    ensures
        match r {
            Some(i) => i < ms@.len() && ms@[i as int].0@ == key@ && forall|j: int| 0 <= j < i ==> (#[trigger] ms@[j]).0@ != key@,
            None => forall|j: int| 0 <= j < ms@.len() ==> (#[trigger] ms@[j]).0@ != key@,
        },
{
    let mut i: usize = 0;
    while i < ms.len()
        invariant
            i <= ms@.len(),
            forall|j: int| 0 <= j < i ==> (#[trigger] ms@[j]).0@ != key@,
        decreases ms@.len() - i,
    {
        if text_eq(ms[i].0.as_str(), key) {
            return Some(i);
        }
        i = i + 1;
    }
    None
}

/// An `rpc` item that declares `key`.
pub open spec fn item_has_key(item: JsonValue, key: Seq<char>) -> bool {
    match get_spec(item, "key"@) {
        Some(JsonValue::Str(s)) => s@ == key,
        _ => false,
    }
}

/// The items of the `rpc` array of a document.
pub open spec fn rpc_items(doc: JsonValue) -> Option<Seq<JsonValue>> {
    match get_spec(doc, "rpc"@) {
        Some(JsonValue::Array(a)) => Some(a@),
        _ => None,
    }
}

/// Index of the first item that declares `key`, or -1.
pub open spec fn first_item_with_key(items: Seq<JsonValue>, key: Seq<char>) -> int
    decreases items.len(),
{
    if items.len() == 0 {
        -1
    } else if item_has_key(items[0], key) {
        0
    } else {
        let r = first_item_with_key(items.drop_first(), key);
        if r < 0 {
            -1
        } else {
            r + 1
        }
    }
}

/// The document after `key`'s set value was rewritten as `value`: the first
/// `rpc` item that declares `key` gets a `set_val` that encodes `value`, and
/// nothing else changes.
pub open spec fn rewritten(doc: JsonValue, d: JsonValue, key: Seq<char>, value: ConfigTypes) -> bool {
    let items = rpc_items(doc)->0;
    let j = first_item_with_key(items, key);
    &&& rpc_items(d) is Some
    &&& rpc_items(d)->0.len() == items.len()
    &&& forall|i: int| 0 <= i < items.len() && i != j ==> (#[trigger] rpc_items(d)->0[i]) == items[i]
    &&& rpc_items(d)->0[j] is Object
    &&& (match get_spec(rpc_items(d)->0[j], "set_val"@) {
        Some(e) => encodes(e, value),
        None => false,
    })
    &&& forall|k: Seq<char>| k != "set_val"@ ==> #[trigger] get_spec(rpc_items(d)->0[j], k) == get_spec(items[j], k)
    &&& forall|k: Seq<char>| k != "rpc"@ ==> #[trigger] get_spec(d, k) == get_spec(doc, k)
}

/// The declared kind of an `rpc` item.
pub open spec fn item_kind(item: JsonValue) -> Option<ConfigKind> {
    match text_field(get_spec(item, "ctype"@)) {
        Some(t) => kind_of(t@),
        None => None,
    }
}

/// When a rewrite of `key` to `value` is possible: the document has an `rpc`
/// array with an item that declares `key` with the kind of `value`.
pub open spec fn rewrite_ok(doc: JsonValue, key: Seq<char>, value: ConfigTypes) -> bool {
    rpc_items(doc) is Some && target_ok(rpc_items(doc)->0, key, value)
}

/// The item-level part of `rewrite_ok`.
pub open spec fn target_ok(items: Seq<JsonValue>, key: Seq<char>, value: ConfigTypes) -> bool {
    let j = first_item_with_key(items, key);
    &&& j >= 0
    &&& key.len() > 0
    &&& item_kind(items[j]) == Some(kind_of_value(value))
    &&& match get_spec(items[j], "default_val"@) {
        Some(dv) => fits(kind_of_value(value), dv),
        None => false,
    }
    &&& later_items_other_keys(items, j, key)
}

/// An `rpc` item that decodes, is valid, and resolves under `key`.
pub open spec fn resolves_under(x: JsonValue, key: Seq<char>) -> bool {
    match decode_rpc_spec(x) {
        Some(c) => entry_value(c) is Some && c.key@ == key,
        None => false,
    }
}

fn item_resolves_under(x: &JsonValue, key: &str) -> (r: bool)
    ensures
        r == resolves_under(*x, key@),
{
    if !matches!(x, JsonValue::Object(_)) {
        return false;
    }
    let k = match x.get("key") {
        Some(JsonValue::Str(k)) => k,
        _ => {
            return false;
        },
    };
    let t = match x.get("ctype") {
        Some(JsonValue::Str(t)) => t,
        _ => {
            return false;
        },
    };
    let d = match x.get("default_val") {
        Some(d) => d,
        None => {
            return false;
        },
    };
    let sv = match x.get("set_val") {
        Some(sv) => sv,
        None => {
            return false;
        },
    };
    if k.as_str().unicode_len() == 0 || !text_eq(k.as_str(), key) {
        return false;
    }
    match kind_from_tag(t.as_str()) {
        Some(kd) => value_fits(kd, d) && value_fits(kd, sv),
        None => false,
    }
}

proof fn lemma_first_item(items: Seq<JsonValue>, key: Seq<char>, i: int)
    requires
        0 <= i <= items.len(),
        forall|j: int| 0 <= j < i ==> !item_has_key(#[trigger] items[j], key),
    ensures
        i < items.len() && item_has_key(items[i], key) ==> first_item_with_key(items, key) == i,
        i == items.len() ==> first_item_with_key(items, key) == -1,
    decreases items.len(),
{
    if items.len() > 0 && i > 0 {
        assert(!item_has_key(items[0], key));
        assert forall|j: int| 0 <= j < i - 1 implies !item_has_key(#[trigger] items.drop_first()[j], key) by {
            assert(items.drop_first()[j] == items[j + 1]);
        }
        lemma_first_item(items.drop_first(), key, i - 1);
        if i < items.len() {
            assert(items.drop_first()[i - 1] == items[i]);
        }
    }
}

fn first_item_index(items: &Vec<JsonValue>, key: &str) -> (r: Option<usize>)
    ensures
        match r {
            Some(j) => j < items@.len() && item_has_key(items@[j as int], key@) && forall|i: int|
                0 <= i < j ==> !item_has_key(#[trigger] items@[i], key@),
            None => forall|i: int| 0 <= i < items@.len() ==> !item_has_key(#[trigger] items@[i], key@),
        },
{
    let mut j: usize = 0;
    while j < items.len()
        invariant
            j <= items@.len(),
            forall|i: int| 0 <= i < j ==> !item_has_key(#[trigger] items@[i], key@),
        decreases items@.len() - j,
    {
        let found = match items[j].get("key") {
            Some(JsonValue::Str(s)) => text_eq(s.as_str(), key),
            _ => false,
        };
        if found {
            return Some(j);
        }
        j = j + 1;
    }
    None
}

/// Index of the item that a rewrite of `key` to `value` changes, when the
/// rewrite is allowed.
fn rewrite_target(items: &Vec<JsonValue>, key: &str, value: &ConfigTypes) -> (r: Option<usize>)
    ensures
        r is Some <==> target_ok(items@, key@, *value),
        r matches Some(j) ==> j == first_item_with_key(items@, key@) && j < items@.len(),
{
    let ghost a0 = items@;
    let j = match first_item_index(items, key) {
        Some(j) => j,
        None => {
            proof {
                lemma_first_item(a0, key@, a0.len() as int);
            }
            return None;
        },
    };
    proof {
        lemma_first_item(a0, key@, j as int);
    }
    let kind_ok = match items[j].get("ctype") {
        Some(JsonValue::Str(t)) => match kind_from_tag(t.as_str()) {
            Some(k) => k == kind_of_config_value(value),
            None => false,
        },
        _ => false,
    };
    if !kind_ok || key.unicode_len() == 0 {
        return None;
    }
    let default_ok = match items[j].get("default_val") {
        Some(dv) => value_fits(kind_of_config_value(value), dv),
        None => false,
    };
    if !default_ok {
        return None;
    }
    let n = items.len();
    let mut l: usize = j + 1;
    while l < n
        invariant
            items@ == a0,
            n == a0.len(),
            first_item_with_key(a0, key@) == j as int,
            j < l <= a0.len(),
            forall|i: int| j < i < l ==> !resolves_under(#[trigger] a0[i], key@),
        decreases a0.len() - l,
    {
        if item_resolves_under(&items[l], key) {
            assert(!later_items_other_keys(a0, j as int, key@)) by {
                assert(resolves_under(a0[l as int], key@));
                let c = decode_rpc_spec(a0[l as int])->0;
                assert(entry_value(c) is Some && c.key@ == key@);
            }
            return None;
        }
        l = l + 1;
    }
    assert(later_items_other_keys(a0, j as int, key@)) by {
        assert forall|i: int| j < i < a0.len() implies match #[trigger] decode_rpc_spec(a0[i]) {
            Some(c) => entry_value(c) is Some ==> c.key@ != key@,
            None => true,
        } by {
            assert(!resolves_under(a0[i], key@));
        }
    }
    Some(j)
}

/// Rewrites the set value of `key` in a metadata document. The rewrite is
/// refused with `InvalidMeta` unless it survives a reload: the document has
/// an `rpc` array, an item declares the (non-empty) key with the kind of
/// `value` and a default of that kind, and no later item resolves under the
/// same key. A document that is rewritten resolves to the old configuration
/// with `key` mapped to `value`.
pub fn set_entry_value(doc: JsonValue, key: &str, value: &ConfigTypes) -> (r: Result<JsonValue, PluginManErr>)
    ensures
        match r {
            Ok(d) => rewrite_ok(doc, key@, *value) && rewritten(doc, d, key@, *value) && metadata_config(d) == Some(
                metadata_config(doc)->0.insert(key@, *value),
            ),
            Err(e) => !rewrite_ok(doc, key@, *value) && e is InvalidMeta,
        },
{
    let ghost doc0 = doc;
    let mut ms = match doc {
        JsonValue::Object(ms) => ms,
        _ => {
            return Err(PluginManErr::InvalidMeta("No RPC configuration found in metadata".to_string()));
        },
    };
    let ghost m0 = ms@;
    let ri = match member_index(&ms, "rpc") {
        Some(i) => i,
        None => {
            proof {
                lemma_member_none(m0, "rpc"@);
            }
            return Err(PluginManErr::InvalidMeta("No RPC configuration found in metadata".to_string()));
        },
    };
    proof {
        lemma_member_first(m0, ri as int, "rpc"@);
    }
    let (rk, rv) = ms.remove(ri);
    let mut items = match rv {
        JsonValue::Array(items) => items,
        _ => {
            return Err(PluginManErr::InvalidMeta("No RPC configuration found in metadata".to_string()));
        },
    };
    let ghost a0 = items@;
    let j = match rewrite_target(&items, key, value) {
        Some(j) => j,
        None => {
            return Err(PluginManErr::InvalidMeta("Key not declared, or not with this kind and a fitting default, or declared again later".to_string()));
        },
    };
    let item = items.remove(j);
    let ghost item0 = item;
    let mut fields = match item {
        JsonValue::Object(fields) => fields,
        _ => {
            return Err(PluginManErr::InvalidMeta("Key not found in plugin metadata".to_string()));
        },
    };
    let ghost f0 = fields@;
    let new_val = json_of(value);
    let ghost nv = new_val;
    match member_index(&fields, "set_val") {
        Some(si) => {
            let (sk, _) = fields.remove(si);
            fields.insert(si, (sk, new_val));
            proof {
                assert(fields@ =~= f0.update(si as int, (f0[si as int].0, nv)));
                assert forall|k: Seq<char>| #[trigger] member_spec(fields@, k) == (if k == "set_val"@ {
                    Some(nv)
                } else {
                    member_spec(f0, k)
                }) by {
                    lemma_member_update(f0, si as int, nv, k);
                }
            }
        },
        None => {
            fields.push(("set_val".to_string(), new_val));
            proof {
                assert forall|k: Seq<char>| #[trigger] member_spec(fields@, k) == (if k == "set_val"@ {
                    Some(nv)
                } else {
                    member_spec(f0, k)
                }) by {
                    lemma_member_push(f0, fields@.last(), k);
                }
            }
        },
    }
    let new_item = JsonValue::Object(fields);
    items.insert(j, new_item);
    let ghost a1 = items@;
    assert(a1 =~= a0.update(j as int, new_item));
    ms.insert(ri, (rk, JsonValue::Array(items)));
    let ghost newrpc = JsonValue::Array(items);
    proof {
        assert(ms@ =~= m0.update(ri as int, (m0[ri as int].0, newrpc)));
        assert forall|k: Seq<char>| #[trigger] member_spec(ms@, k) == (if k == "rpc"@ {
            Some(newrpc)
        } else {
            member_spec(m0, k)
        }) by {
            lemma_member_update(m0, ri as int, newrpc, k);
        }
    }
    let d = JsonValue::Object(ms);
    proof {
        assert(rpc_items(d) == Some(a1));
        assert(get_spec(d, "rpc"@) == Some(newrpc));
        assert(rewritten(doc0, d, key@, *value));
        lemma_set_then_reload(doc0, d, key@, *value);
    }
    Ok(d)
}

/// The configuration that an `rpc` array resolves to.
pub open spec fn rpc_map(s: Seq<JsonValue>) -> Map<Seq<char>, ConfigTypes> {
    resolve_map(valid_rpcs(s))
}

/// What one more `rpc` item adds to the resolved configuration.
pub open spec fn rpc_step(m: Map<Seq<char>, ConfigTypes>, x: JsonValue) -> Map<Seq<char>, ConfigTypes> {
    match decode_rpc_spec(x) {
        Some(c) => match entry_value(c) {
            Some(v) => m.insert(c.key@, v),
            None => m,
        },
        None => m,
    }
}

proof fn lemma_rpc_map_push(s: Seq<JsonValue>, x: JsonValue)
    ensures
        rpc_map(s.push(x)) == rpc_step(rpc_map(s), x),
{
    assert(s.push(x).drop_last() =~= s);
    let t = valid_rpcs(s);
    if let Some(c) = decode_rpc_spec(x) {
        if entry_value(c) is Some {
            assert(t.push(c).drop_last() =~= t);
        }
    }
}

/// The items after `j` that resolve do so under other keys than `key`.
pub open spec fn later_items_other_keys(items: Seq<JsonValue>, j: int, key: Seq<char>) -> bool {
    forall|i: int|
        j < i < items.len() ==> match #[trigger] decode_rpc_spec(items[i]) {
            Some(c) => entry_value(c) is Some ==> c.key@ != key,
            None => true,
        }
}

proof fn lemma_rewrite_prefix(
    a: Seq<JsonValue>,
    b: Seq<JsonValue>,
    j: int,
    key: Seq<char>,
    value: ConfigTypes,
    n: int,
)
    requires
        a.len() == b.len(),
        0 <= j < n <= a.len(),
        forall|i: int| 0 <= i < a.len() && i != j ==> b[i] == a[i],
        rpc_step(Map::empty(), b[j]) == Map::<Seq<char>, ConfigTypes>::empty().insert(key, value),
        forall|m: Map<Seq<char>, ConfigTypes>| #[trigger] rpc_step(m, b[j]) == m.insert(key, value),
        forall|m: Map<Seq<char>, ConfigTypes>| #[trigger] rpc_step(m, a[j]) == m || exists|v: ConfigTypes| rpc_step(m, a[j]) == m.insert(key, v),
        later_items_other_keys(a, j, key),
    ensures
        rpc_map(b.subrange(0, n)) == rpc_map(a.subrange(0, n)).insert(key, value),
    decreases n,
{
    let an = a.subrange(0, n);
    let bn = b.subrange(0, n);
    assert(an =~= a.subrange(0, n - 1).push(a[n - 1]));
    assert(bn =~= b.subrange(0, n - 1).push(b[n - 1]));
    lemma_rpc_map_push(a.subrange(0, n - 1), a[n - 1]);
    lemma_rpc_map_push(b.subrange(0, n - 1), b[n - 1]);
    if n == j + 1 {
        assert(b.subrange(0, j) =~= a.subrange(0, j));
        let m = rpc_map(a.subrange(0, j));
        assert(rpc_map(bn) == m.insert(key, value));
        if rpc_step(m, a[j]) == m {
        } else {
            let v = choose|v: ConfigTypes| rpc_step(m, a[j]) == m.insert(key, v);
            assert(m.insert(key, v).insert(key, value) =~= m.insert(key, value));
        }
    } else {
        lemma_rewrite_prefix(a, b, j, key, value, n - 1);
        let x = a[n - 1];
        assert(b[n - 1] == x);
        let ma = rpc_map(a.subrange(0, n - 1));
        assert(decode_rpc_spec(a[n - 1]) == decode_rpc_spec(x));
        if let Some(c) = decode_rpc_spec(x) {
            if let Some(v) = entry_value(c) {
                assert(c.key@ != key);
                assert(ma.insert(key, value).insert(c.key@, v) =~= ma.insert(c.key@, v).insert(key, value));
            }
        }
    }
}

proof fn lemma_first_item_bounds(items: Seq<JsonValue>, key: Seq<char>)
    ensures
        first_item_with_key(items, key) >= 0 ==> first_item_with_key(items, key) < items.len() && item_has_key(
            items[first_item_with_key(items, key)],
            key,
        ),
    decreases items.len(),
{
    if items.len() > 0 && !item_has_key(items[0], key) {
        lemma_first_item_bounds(items.drop_first(), key);
        let r = first_item_with_key(items.drop_first(), key);
        if r >= 0 {
            assert(items.drop_first()[r] == items[r + 1]);
        }
    }
}

/// Setting a key and then reloading: a rewrite that is allowed (the first
/// `rpc` item that declares the non-empty `key` has the kind of `value` and a
/// default of that kind, and no later item resolves under the same key)
/// gives a document that resolves to the old configuration with `key`
/// mapped to `value`.
pub proof fn lemma_set_then_reload(doc: JsonValue, d: JsonValue, key: Seq<char>, value: ConfigTypes)
    requires
        rewrite_ok(doc, key, value),
        rewritten(doc, d, key, value),
    ensures
        metadata_config(d) == Some(metadata_config(doc)->0.insert(key, value)),
        loaded_config(Some(d)) == Some(metadata_config(doc)->0.insert(key, value)),
{
    let a = rpc_items(doc)->0;
    let b = rpc_items(d)->0;
    let j = first_item_with_key(a, key);
    let k = kind_of_value(value);
    lemma_first_item_bounds(a, key);
    assert(0 <= j < a.len() && item_has_key(a[j], key));
    lemma_rpc_keys_differ();
    reveal_strlit("set_val");
    reveal_strlit("key");
    reveal_strlit("ctype");
    reveal_strlit("default_val");
    let e = get_spec(b[j], "set_val"@)->0;
    lemma_encoding_reads_back(e, value);
    // the rewritten item decodes to an entry that resolves to `value`
    let bj = b[j];
    let ms = bj->Object_0;
    assert(get_spec(bj, "key"@) == get_spec(a[j], "key"@));
    assert(get_spec(bj, "ctype"@) == get_spec(a[j], "ctype"@));
    assert(get_spec(bj, "default_val"@) == get_spec(a[j], "default_val"@));
    let c = decode_rpc_spec(bj)->0;
    assert(decode_rpc_spec(bj) is Some);
    assert(c.key@ == key);
    assert(kind_of(c.ctype@) == Some(k));
    assert(c.set_val == e);
    assert(entry_value(c) == Some(value));
    assert forall|m: Map<Seq<char>, ConfigTypes>| #[trigger] rpc_step(m, b[j]) == m.insert(key, value) by {}
    assert(rpc_step(Map::empty(), b[j]) == Map::<Seq<char>, ConfigTypes>::empty().insert(key, value));
    // the old item resolves, if at all, under `key`
    assert forall|m: Map<Seq<char>, ConfigTypes>| #[trigger] rpc_step(m, a[j]) == m || exists|v: ConfigTypes|
        rpc_step(m, a[j]) == m.insert(key, v) by {
        if let Some(c0) = decode_rpc_spec(a[j]) {
            if let Some(v0) = entry_value(c0) {
                assert(c0.key@ == key);
                assert(rpc_step(m, a[j]) == m.insert(key, v0));
            }
        }
    }
    lemma_rewrite_prefix(a, b, j, key, value, a.len() as int);
    assert(a.subrange(0, a.len() as int) =~= a);
    assert(b.subrange(0, b.len() as int) =~= b);
}

proof fn lemma_valid_rpcs_remove(a: Seq<JsonValue>, i: int)
    requires
        0 <= i < a.len(),
        !(match decode_rpc_spec(a[i]) {
            Some(c) => entry_value(c) is Some,
            None => false,
        }),
    ensures
        valid_rpcs(a) == valid_rpcs(a.remove(i)),
    decreases a.len(),
{
    if i == a.len() - 1 {
        assert(a.remove(i) =~= a.drop_last());
    } else {
        lemma_valid_rpcs_remove(a.drop_last(), i);
        assert(a.remove(i).drop_last() =~= a.drop_last().remove(i));
        assert(a.remove(i).last() == a.last());
    }
}

/// An `rpc` item that does not resolve (it does not decode, or its entry is
/// rejected) is ignored: every other item resolves as it would without it.
pub proof fn lemma_unresolved_item_ignored(a: Seq<JsonValue>, i: int)
    requires
        0 <= i < a.len(),
        !(match decode_rpc_spec(a[i]) {
            Some(c) => entry_value(c) is Some,
            None => false,
        }),
    ensures
        rpc_map(a) == rpc_map(a.remove(i)),
{
    lemma_valid_rpcs_remove(a, i);
}

/// Loading with a metadata document whose `rpc` item `i` declares a `Bool`
/// with a string as its set value: that item is dropped and the module gets
/// the configuration that the other items resolve to.
pub proof fn lemma_bool_item_with_text_dropped_on_load(doc: JsonValue, i: int)
    requires
        rpc_items(doc) is Some,
        0 <= i < rpc_items(doc)->0.len(),
        decode_rpc_spec(rpc_items(doc)->0[i]) matches Some(c) && c.ctype@ == "Bool"@ && c.set_val is Str,
    ensures
        loaded_config(Some(doc)) == Some(rpc_map(rpc_items(doc)->0.remove(i))),
{
    let a = rpc_items(doc)->0;
    let c = decode_rpc_spec(a[i])->0;
    lemma_bool_entry_with_text_rejected(c);
    lemma_unresolved_item_ignored(a, i);
}

proof fn lemma_filter_all_valid(bs: Seq<FadButton>)
    requires
        forall|k: int| 0 <= k < bs.len() ==> button_valid(#[trigger] bs[k]),
    ensures
        bs.filter(|b: FadButton| button_valid(b)) == bs,
    decreases bs.len(),
{
    reveal_with_fuel(Seq::filter, 1);
    if bs.len() > 0 {
        lemma_filter_all_valid(bs.drop_last());
        assert(bs.drop_last().push(bs.last()) =~= bs);
    }
}

/// Loading with a metadata document whose top-level buttons are one placed
/// at `taskbar` followed by valid buttons `bs`: the load keeps exactly `bs`,
/// in order.
pub proof fn lemma_taskbar_button_dropped_on_load(doc: JsonValue, b: FadButton, bs: Seq<FadButton>)
    requires
        get_spec(doc, "fad"@) matches Some(f) && decode_fad_spec(f) matches Some(fv) && fv.2 == Some(
            seq![b] + bs,
        ),
        b.location is Some && b.location->0@ == "taskbar"@,
        bs.len() > 0,
        forall|k: int| 0 <= k < bs.len() ==> button_valid(#[trigger] bs[k]),
    ensures
        loaded_fad(Some(doc)) matches Some(kept) && kept.2 == Some(bs),
{
    reveal_strlit("taskbar");
    reveal_strlit("drawer");
    reveal_strlit("songopts");
    reveal_strlit("settings");
    reveal_strlit("selectplaylist");
    assert("taskbar"@.len() == 7 && "drawer"@.len() == 6 && "songopts"@.len() == 8);
    assert("taskbar"@ != "settings"@) by {
        assert("taskbar"@[0] != "settings"@[0]);
    }
    assert("taskbar"@.len() != "selectplaylist"@.len());
    assert(!location_allowed(b.location->0@));
    assert(!button_valid(b));
    let s = seq![b] + bs;
    assert(s.filter(|x: FadButton| button_valid(x)) == seq![b].filter(|x: FadButton| button_valid(x)) + bs.filter(
        |x: FadButton| button_valid(x),
    )) by {
        Seq::filter_distributes_over_add(seq![b], bs, |x: FadButton| button_valid(x));
    }
    assert(seq![b].filter(|x: FadButton| button_valid(x)) =~= Seq::<FadButton>::empty()) by {
        reveal_with_fuel(Seq::filter, 2);
        assert(seq![b].drop_last() =~= Seq::<FadButton>::empty());
    }
    lemma_filter_all_valid(bs);
    assert(s.filter(|x: FadButton| button_valid(x)) =~= bs);
}

} // verus!
