//! Declared configuration: validation of each declared entry against its
//! kind tag, conversion into typed values, and the resolved key/value map.

use vstd::prelude::*;
use crate::json::{as_i64_spec, as_u64_spec, text_eq, JsonNumber, JsonValue};

verus! {

/// A typed configuration value. A float is carried as the JSON number it was
/// declared with.
#[derive(Clone, Debug, PartialEq)]
pub enum ConfigTypes {
    String(String),
    Bool(bool),
    Int(i32),
    UInt(u32),
    BigInt(i128),
    BigUInt(u128),
    Float(JsonNumber),
}

impl ConfigTypes {
    pub fn copy(&self) -> (r: ConfigTypes)
        ensures
            r == *self,
    {
        match self {
            ConfigTypes::String(s) => ConfigTypes::String(s.clone()),
            ConfigTypes::Bool(b) => ConfigTypes::Bool(*b),
            ConfigTypes::Int(i) => ConfigTypes::Int(*i),
            ConfigTypes::UInt(u) => ConfigTypes::UInt(*u),
            ConfigTypes::BigInt(i) => ConfigTypes::BigInt(*i),
            ConfigTypes::BigUInt(u) => ConfigTypes::BigUInt(*u),
            ConfigTypes::Float(n) => ConfigTypes::Float(*n),
        }
    }
}

/// One declared entry of a module's metadata.
#[derive(Debug)]
pub struct RpcConfig {
    pub key: String,
    pub ctype: String,
    pub default_val: JsonValue,
    pub set_val: JsonValue,
}

/// The kinds that a `ctype` tag names.
#[derive(Clone, Copy, Debug, PartialEq, Eq, Structural)]
pub enum ConfigKind {
    Text,
    Flag,
    Int,
    UInt,
    BigInt,
    BigUInt,
    Float,
}

pub open spec fn kind_of(tag: Seq<char>) -> Option<ConfigKind> {
    if tag == "String"@ {
        Some(ConfigKind::Text)
    } else if tag == "Bool"@ {
        Some(ConfigKind::Flag)
    } else if tag == "Int"@ {
        Some(ConfigKind::Int)
    } else if tag == "UInt"@ {
        Some(ConfigKind::UInt)
    } else if tag == "BigInt"@ {
        Some(ConfigKind::BigInt)
    } else if tag == "BigUInt"@ {
        Some(ConfigKind::BigUInt)
    } else if tag == "Float"@ {
        Some(ConfigKind::Float)
    } else {
        None
    }
}

pub open spec fn is_digit(c: char) -> bool {
    '0' <= c && c <= '9'
}

pub open spec fn all_digits(s: Seq<char>) -> bool {
    forall|i: int| 0 <= i < s.len() ==> is_digit(#[trigger] s[i])
}

/// The number that a run of decimal digits denotes.
pub open spec fn digits_value(s: Seq<char>) -> nat
    decreases s.len(),
{
    if s.len() == 0 {
        0
    } else {
        digits_value(s.drop_last()) * 10 + ((s.last() as nat) - ('0' as nat)) as nat
    }
}

/// A text of one or more decimal digits whose number fits in `u128`.
pub open spec fn unsigned_text(s: Seq<char>) -> Option<u128> {
    if s.len() > 0 && all_digits(s) && digits_value(s) <= u128::MAX {
        Some(digits_value(s) as u128)
    } else {
        None
    }
}

/// A text of one or more decimal digits, with an optional leading `-`, whose
/// number fits in `i128`.
pub open spec fn signed_text(s: Seq<char>) -> Option<i128> {
    if s.len() > 0 && s[0] == '-' {
        let rest = s.drop_first();
        if rest.len() > 0 && all_digits(rest) && digits_value(rest) <= 0x8000_0000_0000_0000_0000_0000_0000_0000 {
            Some((0 - digits_value(rest)) as i128)
        } else {
            None
        }
    } else if s.len() > 0 && all_digits(s) && digits_value(s) <= i128::MAX {
        Some(digits_value(s) as i128)
    } else {
        None
    }
}

/// Whether a JSON value has the shape that a kind asks for.
pub open spec fn fits(k: ConfigKind, v: JsonValue) -> bool {
    match k {
        ConfigKind::Text => v is Str,
        ConfigKind::Flag => v is Bool,
        ConfigKind::Int => match as_i64_spec(v) {
            Some(n) => i32::MIN <= n <= i32::MAX,
            None => false,
        },
        ConfigKind::UInt => match as_u64_spec(v) {
            Some(n) => n <= u32::MAX,
            None => false,
        },
        ConfigKind::BigInt => as_i64_spec(v) is Some || (v is Str && signed_text(v->Str_0@) is Some),
        ConfigKind::BigUInt => as_u64_spec(v) is Some || (v is Str && unsigned_text(v->Str_0@) is Some),
        ConfigKind::Float => v is Number,
    }
}

/// The typed value of a JSON value that fits kind `k`.
pub open spec fn typed_value(k: ConfigKind, v: JsonValue) -> ConfigTypes {
    match k {
        ConfigKind::Text => ConfigTypes::String(v->Str_0),
        ConfigKind::Flag => ConfigTypes::Bool(v->Bool_0),
        ConfigKind::Int => ConfigTypes::Int(as_i64_spec(v)->0 as i32),
        ConfigKind::UInt => ConfigTypes::UInt(as_u64_spec(v)->0 as u32),
        ConfigKind::BigInt => match as_i64_spec(v) {
            Some(n) => ConfigTypes::BigInt(n as i128),
            None => ConfigTypes::BigInt(signed_text(v->Str_0@)->0),
        },
        ConfigKind::BigUInt => match as_u64_spec(v) {
            Some(n) => ConfigTypes::BigUInt(n as u128),
            None => ConfigTypes::BigUInt(unsigned_text(v->Str_0@)->0),
        },
        ConfigKind::Float => ConfigTypes::Float(v->Number_0),
    }
}

/// The resolved value of a declared entry: present exactly when the key is
/// not empty, the tag names a kind, and both the default and the set value
/// fit that kind.
pub open spec fn entry_value(c: RpcConfig) -> Option<ConfigTypes> {
    match kind_of(c.ctype@) {
        Some(k) => if c.key@.len() > 0 && fits(k, c.default_val) && fits(k, c.set_val) {
            Some(typed_value(k, c.set_val))
        } else {
            None
        },
        None => None,
    }
}

/// The resolved configuration of a list of declared entries: rejected entries
/// are left out, and a later entry with the same key wins.
pub open spec fn resolve_map(cs: Seq<RpcConfig>) -> Map<Seq<char>, ConfigTypes>
    decreases cs.len(),
{
    if cs.len() == 0 {
        Map::empty()
    } else {
        let m = resolve_map(cs.drop_last());
        match entry_value(cs.last()) {
            Some(v) => m.insert(cs.last().key@, v),
            None => m,
        }
    }
}

pub fn kind_from_tag(tag: &str) -> (r: Option<ConfigKind>)
    ensures
        r == kind_of(tag@),
{
    if text_eq(tag, "String") {
        Some(ConfigKind::Text)
    } else if text_eq(tag, "Bool") {
        Some(ConfigKind::Flag)
    } else if text_eq(tag, "Int") {
        Some(ConfigKind::Int)
    } else if text_eq(tag, "UInt") {
        Some(ConfigKind::UInt)
    } else if text_eq(tag, "BigInt") {
        Some(ConfigKind::BigInt)
    } else if text_eq(tag, "BigUInt") {
        Some(ConfigKind::BigUInt)
    } else if text_eq(tag, "Float") {
        Some(ConfigKind::Float)
    } else {
        None
    }
}

proof fn lemma_digits_value_prefix(s: Seq<char>, j: int)
    requires
        0 <= j <= s.len(),
    ensures
        digits_value(s.subrange(0, j)) <= digits_value(s),
    decreases s.len(),
{
    if j < s.len() {
        assert(s.drop_last() =~= s.subrange(0, s.len() - 1));
        assert(s.subrange(0, j) =~= s.drop_last().subrange(0, j));
        lemma_digits_value_prefix(s.drop_last(), j);
    } else {
        assert(s.subrange(0, j) =~= s);
    }
}

/// The number that the digits `s[from..]` denote, when there is at least one,
/// all are digits and the number fits in `u128`.
pub fn parse_digits(s: &str, from: usize) -> (r: Option<u128>)
    requires
        from <= s@.len(),
    ensures
        r == unsigned_text(s@.subrange(from as int, s@.len() as int)),
{
    let n = s.unicode_len();
    let ghost t = s@.subrange(from as int, s@.len() as int);
    if from == n {
        return None;
    }
    let mut acc: u128 = 0;
    let mut i: usize = from;
    while i < n
        invariant
            n == s@.len(),
            from <= i <= n,
            t == s@.subrange(from as int, n as int),
            all_digits(t.subrange(0, i - from)),
            acc as nat == digits_value(t.subrange(0, i - from)),
        decreases n - i,
    {
        let c = s.get_char(i);
        let ghost p = t.subrange(0, i - from + 1);
        assert(p.drop_last() =~= t.subrange(0, i - from));
        assert(p.last() == c);
        if !('0' <= c && c <= '9') {
            assert(!all_digits(t)) by {
                assert(t[i - from] == c);
            }
            return None;
        }
        let d: u128 = (c as u32 - '0' as u32) as u128;
        if acc > (u128::MAX - d) / 10 {
            proof {
                assert(digits_value(p) == acc * 10 + d);
                assert(digits_value(p) > u128::MAX) by (nonlinear_arith)
                    requires
                        acc > (u128::MAX - d) / 10,
                        digits_value(p) == acc * 10 + d,
                        d <= 9,
                ;
                lemma_digits_value_prefix(t, i - from + 1);
            }
            return None;
        }
        assert(acc * 10 + d <= u128::MAX) by (nonlinear_arith)
            requires
                acc <= (u128::MAX - d) / 10,
                d <= 9,
        ;
        acc = acc * 10 + d;
        i = i + 1;
        assert(all_digits(t.subrange(0, i - from))) by {
            assert forall|k: int| 0 <= k < i - from implies is_digit(#[trigger] t.subrange(0, i - from)[k]) by {
                if k < i - from - 1 {
                    assert(t.subrange(0, i - from)[k] == t.subrange(0, i - from - 1)[k]);
                }
            }
        }
    }
    assert(t.subrange(0, n - from) =~= t);
    Some(acc)
}

/// The number of a signed decimal text (see `signed_text`).
pub fn parse_signed(s: &str) -> (r: Option<i128>)
    ensures
        r == signed_text(s@),
{
    let n = s.unicode_len();
    if n > 0 && s.get_char(0) == '-' {
        assert(s@.drop_first() =~= s@.subrange(1, n as int));
        match parse_digits(s, 1) {
            Some(v) => if v <= 0x8000_0000_0000_0000_0000_0000_0000_0000u128 {
                if v == 0x8000_0000_0000_0000_0000_0000_0000_0000u128 {
                    Some(i128::MIN)
                } else {
                    Some(0 - (v as i128))
                }
            } else {
                None
            },
            None => None,
        }
    } else {
        assert(s@.subrange(0, n as int) =~= s@);
        match parse_digits(s, 0) {
            Some(v) => if v <= i128::MAX as u128 {
                Some(v as i128)
            } else {
                None
            },
            None => None,
        }
    }
}

/// The number of an unsigned decimal text (see `unsigned_text`).
pub fn parse_unsigned(s: &str) -> (r: Option<u128>)
    ensures
        r == unsigned_text(s@),
{
    assert(s@.subrange(0, s@.len() as int) =~= s@);
    parse_digits(s, 0)
}

/// Whether a JSON value fits a kind.
pub fn value_fits(k: ConfigKind, v: &JsonValue) -> (r: bool)
    ensures
        r == fits(k, *v),
{
    match k {
        ConfigKind::Text => matches!(v, JsonValue::Str(_)),
        ConfigKind::Flag => matches!(v, JsonValue::Bool(_)),
        ConfigKind::Int => match v.as_i64() {
            Some(n) => i32::MIN as i64 <= n && n <= i32::MAX as i64,
            None => false,
        },
        ConfigKind::UInt => match v.as_u64() {
            Some(n) => n <= u32::MAX as u64,
            None => false,
        },
        ConfigKind::BigInt => {
            if v.as_i64().is_some() {
                true
            } else {
                match v {
                    JsonValue::Str(s) => parse_signed(s.as_str()).is_some(),
                    _ => false,
                }
            }
        },
        ConfigKind::BigUInt => {
            if v.as_u64().is_some() {
                true
            } else {
                match v {
                    JsonValue::Str(s) => parse_unsigned(s.as_str()).is_some(),
                    _ => false,
                }
            }
        },
        ConfigKind::Float => matches!(v, JsonValue::Number(_)),
    }
}

/// The typed value of a JSON value that fits a kind.
pub fn to_typed(k: ConfigKind, v: &JsonValue) -> (r: ConfigTypes)
    requires
        fits(k, *v),
    ensures
        r == typed_value(k, *v),
{
    match k {
        ConfigKind::Text => match v {
            JsonValue::Str(s) => ConfigTypes::String(s.clone()),
            _ => ConfigTypes::Bool(false),
        },
        ConfigKind::Flag => match v {
            JsonValue::Bool(b) => ConfigTypes::Bool(*b),
            _ => ConfigTypes::Bool(false),
        },
        ConfigKind::Int => ConfigTypes::Int(v.as_i64().unwrap() as i32),
        ConfigKind::UInt => ConfigTypes::UInt(v.as_u64().unwrap() as u32),
        ConfigKind::BigInt => match v.as_i64() {
            Some(n) => ConfigTypes::BigInt(n as i128),
            None => match v {
                JsonValue::Str(s) => ConfigTypes::BigInt(parse_signed(s.as_str()).unwrap()),
                _ => ConfigTypes::Bool(false),
            },
        },
        ConfigKind::BigUInt => match v.as_u64() {
            Some(n) => ConfigTypes::BigUInt(n as u128),
            None => match v {
                JsonValue::Str(s) => ConfigTypes::BigUInt(parse_unsigned(s.as_str()).unwrap()),
                _ => ConfigTypes::Bool(false),
            },
        },
        ConfigKind::Float => match v {
            JsonValue::Number(n) => ConfigTypes::Float(*n),
            _ => ConfigTypes::Bool(false),
        },
    }
}

/// Whether a declared entry is valid: a non-empty key, a known kind tag, and
/// a default and a set value that both fit it.
pub fn validate_rpc(config: &RpcConfig) -> (r: bool)
    ensures
        r == entry_value(*config) is Some,
{
    if config.key.as_str().unicode_len() == 0 {
        return false;
    }
    match kind_from_tag(config.ctype.as_str()) {
        Some(k) => value_fits(k, &config.default_val) && value_fits(k, &config.set_val),
        None => false,
    }
}

/// The resolved value of a declared entry, `None` when it is rejected.
pub fn entry_to_value(config: &RpcConfig) -> (r: Option<ConfigTypes>)
    ensures
        r == entry_value(*config),
{
    if !validate_rpc(config) {
        return None;
    }
    let k = kind_from_tag(config.ctype.as_str()).unwrap();
    Some(to_typed(k, &config.set_val))
}

/// The value that the last entry with key `k` holds.
pub open spec fn lookup(e: Seq<(String, ConfigTypes)>, k: Seq<char>) -> Option<ConfigTypes>
    decreases e.len(),
{
    if e.len() == 0 {
        None
    } else if e.last().0@ == k {
        Some(e.last().1)
    } else {
        lookup(e.drop_last(), k)
    }
}

pub open spec fn keys_distinct(e: Seq<(String, ConfigTypes)>) -> bool {
    forall|i: int, j: int| 0 <= i < j < e.len() ==> (#[trigger] e[i]).0@ != (#[trigger] e[j]).0@
}

proof fn lemma_lookup_at(e: Seq<(String, ConfigTypes)>, i: int)
    requires
        keys_distinct(e),
        0 <= i < e.len(),
    ensures
        lookup(e, e[i].0@) == Some(e[i].1),
    decreases e.len(),
{
    if i < e.len() - 1 {
        assert(e[i].0@ != e[e.len() - 1].0@);
        let d = e.drop_last();
        assert(d[i] == e[i]);
        assert(keys_distinct(d)) by {
            assert forall|a: int, b: int| 0 <= a < b < d.len() implies (#[trigger] d[a]).0@ != (#[trigger] d[b]).0@ by {
                assert(d[a] == e[a] && d[b] == e[b]);
            }
        }
        lemma_lookup_at(d, i);
    }
}

proof fn lemma_lookup_absent(e: Seq<(String, ConfigTypes)>, k: Seq<char>)
    requires
        forall|i: int| 0 <= i < e.len() ==> (#[trigger] e[i]).0@ != k,
    ensures
        lookup(e, k) is None,
    decreases e.len(),
{
    if e.len() > 0 {
        let d = e.drop_last();
        assert(forall|i: int| 0 <= i < d.len() ==> #[trigger] d[i] == e[i]);
        assert(e[e.len() - 1].0@ != k);
        lemma_lookup_absent(d, k);
    }
}

/// A module's resolved configuration: a map from key to typed value.
#[derive(Clone, Debug)]
pub struct PluginConfig {
    entries: Vec<(String, ConfigTypes)>,
}

impl PluginConfig {
    pub closed spec fn wf(&self) -> bool {
        keys_distinct(self.entries@)
    }

    pub closed spec fn view(&self) -> Map<Seq<char>, ConfigTypes> {
        Map::new(|k: Seq<char>| lookup(self.entries@, k) is Some, |k: Seq<char>| lookup(self.entries@, k)->0)
    }

    /// The entries in the order in which their keys were first inserted.
    pub closed spec fn entries_spec(&self) -> Seq<(String, ConfigTypes)> {
        self.entries@
    }

    pub fn new() -> (r: PluginConfig)
        ensures
            r.wf(),
            r@ == Map::<Seq<char>, ConfigTypes>::empty(),
    {
        let r = PluginConfig { entries: Vec::new() };
        assert(r@ =~= Map::<Seq<char>, ConfigTypes>::empty());
        r
    }

    pub fn len(&self) -> (r: usize)
        requires
            self.wf(),
        ensures
            r == self@.len(),
    {
        proof {
            self.lemma_dom();
        }
        self.entries.len()
    }

    proof fn lemma_dom(&self)
        requires
            self.wf(),
        ensures
            self@.dom() == self.entries@.map_values(|e: (String, ConfigTypes)| e.0@).to_set(),
            self@.len() == self.entries@.len(),
    {
        let e = self.entries@;
        let ks = e.map_values(|x: (String, ConfigTypes)| x.0@);
        assert forall|k: Seq<char>| self@.dom().contains(k) <==> ks.to_set().contains(k) by {
            if ks.to_set().contains(k) {
                let i = choose|i: int| 0 <= i < ks.len() && ks[i] == k;
                lemma_lookup_at(e, i);
            }
            if self@.dom().contains(k) {
                if !ks.to_set().contains(k) {
                    assert forall|i: int| 0 <= i < e.len() implies (#[trigger] e[i]).0@ != k by {
                        assert(ks[i] == e[i].0@);
                    }
                    lemma_lookup_absent(e, k);
                }
            }
        }
        assert(self@.dom() =~= ks.to_set());
        assert(ks.no_duplicates()) by {
            assert forall|i: int, j: int| 0 <= i < ks.len() && 0 <= j < ks.len() && i != j implies ks[i] != ks[j] by {
                if i < j {
                    assert(e[i].0@ != e[j].0@);
                } else {
                    assert(e[j].0@ != e[i].0@);
                }
            }
        }
        ks.unique_seq_to_set();
    }

    pub fn copy(&self) -> (r: PluginConfig)
        ensures
            r.wf() == self.wf(),
            r@ == self@,
            r.entries_spec() == self.entries_spec(),
    {
        let mut out: Vec<(String, ConfigTypes)> = Vec::new();
        let mut i: usize = 0;
        while i < self.entries.len()
            invariant
                i <= self.entries@.len(),
                out@ == self.entries@.subrange(0, i as int),
            decreases self.entries@.len() - i,
        {
            out.push((self.entries[i].0.clone(), self.entries[i].1.copy()));
            i = i + 1;
            assert(out@ =~= self.entries@.subrange(0, i as int));
        }
        assert(out@ =~= self.entries@);
        let r = PluginConfig { entries: out };
        assert(r@ =~= self@);
        r
    }

    /// The entries as key/value pairs.
    pub fn entries(&self) -> (r: &Vec<(String, ConfigTypes)>)
        requires
            self.wf(),
        ensures
            r@ == self.entries_spec(),
            r@.len() == self@.len(),
            forall|i: int|
                0 <= i < r@.len() ==> self@.contains_key((#[trigger] r@[i]).0@) && self@[r@[i].0@] == r@[i].1,
            forall|i: int, j: int| 0 <= i < j < r@.len() ==> (#[trigger] r@[i]).0@ != (#[trigger] r@[j]).0@,
    {
        proof {
            self.lemma_dom();
            assert forall|i: int| 0 <= i < self.entries@.len() implies self@.contains_key(
                (#[trigger] self.entries@[i]).0@,
            ) && self@[self.entries@[i].0@] == self.entries@[i].1 by {
                lemma_lookup_at(self.entries@, i);
            }
        }
        &self.entries
    }

    /// The value under `key`.
    pub fn get(&self, key: &str) -> (r: Option<&ConfigTypes>)
        requires
            self.wf(),
        ensures
            match r {
                Some(v) => self@.contains_key(key@) && self@[key@] == *v,
                None => !self@.contains_key(key@),
            },
    {
        let mut i: usize = 0;
        while i < self.entries.len()
            invariant
                self.wf(),
                i <= self.entries@.len(),
                forall|j: int| 0 <= j < i ==> (#[trigger] self.entries@[j]).0@ != key@,
            decreases self.entries@.len() - i,
        {
            if text_eq(self.entries[i].0.as_str(), key) {
                proof {
                    lemma_lookup_at(self.entries@, i as int);
                }
                return Some(&self.entries[i].1);
            }
            i = i + 1;
        }
        proof {
            lemma_lookup_absent(self.entries@, key@);
        }
        None
    }

    /// Sets `key` to `value`, in place when the key is present.
    pub fn insert(&mut self, key: String, value: ConfigTypes)
        requires
            old(self).wf(),
        ensures
            final(self).wf(),
            final(self)@ == old(self)@.insert(key@, value),
    {
        let ghost e0 = self.entries@;
        let mut i: usize = 0;
        while i < self.entries.len()
            invariant
                self.entries@ == e0,
                e0 == old(self).entries@,
                keys_distinct(e0),
                i <= e0.len(),
                forall|j: int| 0 <= j < i ==> (#[trigger] e0[j]).0@ != key@,
            decreases e0.len() - i,
        {
            if self.entries[i].0 == key {
                let ghost k = key@;
                self.entries.set(i, (key, value));
                proof {
                    let e1 = self.entries@;
                    assert(forall|j: int| 0 <= j < e1.len() ==> (#[trigger] e1[j]).0@ == e0[j].0@);
                    assert(keys_distinct(e1));
                    assert forall|k2: Seq<char>| #[trigger] lookup(e1, k2) == (if k2 == k {
                        Some(value)
                    } else {
                        lookup(e0, k2)
                    }) by {
                        if k2 == k {
                            lemma_lookup_at(e1, i as int);
                        } else if exists|j: int| 0 <= j < e0.len() && (#[trigger] e0[j]).0@ == k2 {
                            let j = choose|j: int| 0 <= j < e0.len() && (#[trigger] e0[j]).0@ == k2;
                            lemma_lookup_at(e0, j);
                            lemma_lookup_at(e1, j);
                        } else {
                            lemma_lookup_absent(e0, k2);
                            lemma_lookup_absent(e1, k2);
                        }
                    }
                    assert(self@ =~= old(self)@.insert(k, value));
                }
                return;
            }
            i = i + 1;
        }
        let ghost k = key@;
        self.entries.push((key, value));
        proof {
            let e1 = self.entries@;
            assert(e1.drop_last() =~= e0);
            assert(keys_distinct(e1)) by {
                assert forall|a: int, b: int| 0 <= a < b < e1.len() implies (#[trigger] e1[a]).0@ != (#[trigger] e1[b]).0@ by {
                    if b < e0.len() {
                        assert(e1[a] == e0[a] && e1[b] == e0[b]);
                    } else {
                        assert(e1[a] == e0[a]);
                    }
                }
            }
            assert(self@ =~= old(self)@.insert(k, value));
        }
    }
}

/// The resolved configuration of a list of declared entries.
pub fn rpc2plugin(rpc_configs: Vec<RpcConfig>) -> (r: PluginConfig)
    ensures
        r.wf(),
        r@ == resolve_map(rpc_configs@),
{
    let mut plugin_config = PluginConfig::new();
    let mut i: usize = 0;
    while i < rpc_configs.len()
        invariant
            i <= rpc_configs@.len(),
            plugin_config.wf(),
            plugin_config@ == resolve_map(rpc_configs@.subrange(0, i as int)),
        decreases rpc_configs@.len() - i,
    {
        let ghost p = rpc_configs@.subrange(0, i + 1);
        assert(p.drop_last() =~= rpc_configs@.subrange(0, i as int));
        match entry_to_value(&rpc_configs[i]) {
            Some(v) => {
                plugin_config.insert(rpc_configs[i].key.clone(), v);
            },
            None => {},
        }
        i = i + 1;
    }
    assert(rpc_configs@.subrange(0, rpc_configs@.len() as int) =~= rpc_configs@);
    plugin_config
}

/// Leaving out an entry that is rejected does not change the resolved
/// configuration: every other entry is resolved as before.
pub proof fn lemma_rejected_entry_ignored(cs: Seq<RpcConfig>, i: int)
    requires
        0 <= i < cs.len(),
        entry_value(cs[i]) is None,
    ensures
        resolve_map(cs) == resolve_map(cs.remove(i)),
    decreases cs.len(),
{
    if i == cs.len() - 1 {
        assert(cs.remove(i) =~= cs.drop_last());
    } else {
        let d = cs.drop_last();
        lemma_rejected_entry_ignored(d, i);
        assert(cs.remove(i).drop_last() =~= d.remove(i));
        assert(cs.remove(i).last() == cs.last());
    }
}

/// A `Bool` entry whose set value is a JSON string is rejected.
pub proof fn lemma_bool_entry_with_text_rejected(c: RpcConfig)
    requires
        c.ctype@ == "Bool"@,
        c.set_val is Str,
    ensures
        entry_value(c) is None,
{
    reveal_strlit("Bool");
    reveal_strlit("String");
    assert("Bool"@.len() != "String"@.len());
    assert(kind_of(c.ctype@) == Some(ConfigKind::Flag));
}

pub open spec fn digit_char(d: nat) -> char {
    if d == 0 { '0' } else if d == 1 { '1' } else if d == 2 { '2' } else if d == 3 { '3' } else if d == 4 {
        '4'
    } else if d == 5 { '5' } else if d == 6 { '6' } else if d == 7 { '7' } else if d == 8 { '8' } else { '9' }
}

/// The decimal digits of a number, without leading zeros.
pub open spec fn decimal_spec(n: nat) -> Seq<char>
    decreases n,
{
    if n < 10 {
        seq![digit_char(n)]
    } else {
        decimal_spec(n / 10).push(digit_char(n % 10))
    }
}

/// The decimal text of an integer, with a leading `-` when it is negative.
pub open spec fn signed_decimal_spec(i: int) -> Seq<char> {
    if i < 0 {
        seq!['-'] + decimal_spec((0 - i) as nat)
    } else {
        decimal_spec(i as nat)
    }
}

fn digit_text(d: u8) -> (r: &'static str)
    requires
        d < 10,
    ensures
        r@ == seq![digit_char(d as nat)],
{
    proof {
        reveal_strlit("0");
        reveal_strlit("1");
        reveal_strlit("2");
        reveal_strlit("3");
        reveal_strlit("4");
        reveal_strlit("5");
        reveal_strlit("6");
        reveal_strlit("7");
        reveal_strlit("8");
        reveal_strlit("9");
    }
    let r = if d == 0 { "0" } else if d == 1 { "1" } else if d == 2 { "2" } else if d == 3 { "3" } else if d
        == 4 { "4" } else if d == 5 { "5" } else if d == 6 { "6" } else if d == 7 { "7" } else if d == 8 {
        "8"
    } else { "9" };
    assert(r@ =~= seq![digit_char(d as nat)]);
    r
}

/// The decimal text of `n`.
pub fn decimal_text(n: u128) -> (r: String)
    ensures
        r@ == decimal_spec(n as nat),
    decreases n,
{
    if n < 10 {
        let mut s = String::new();
        s.append(digit_text(n as u8));
        assert(s@ =~= decimal_spec(n as nat));
        s
    } else {
        let mut s = decimal_text(n / 10);
        s.append(digit_text((n % 10) as u8));
        assert(s@ =~= decimal_spec(n as nat));
        s
    }
}

/// The decimal text of `i`, with a leading `-` when it is negative.
pub fn signed_decimal_text(i: i128) -> (r: String)
    ensures
        r@ == signed_decimal_spec(i as int),
{
    if i < 0 {
        let m: u128 = if i == i128::MIN {
            0x8000_0000_0000_0000_0000_0000_0000_0000u128
        } else {
            (0 - i) as u128
        };
        let mut s = String::new();
        s.append("-");
        s.append(decimal_text(m).as_str());
        proof {
            reveal_strlit("-");
        }
        assert(s@ =~= signed_decimal_spec(i as int));
        s
    } else {
        decimal_text(i as u128)
    }
}

/// The kind of a typed value.
pub open spec fn kind_of_value(v: ConfigTypes) -> ConfigKind {
    match v {
        ConfigTypes::String(_) => ConfigKind::Text,
        ConfigTypes::Bool(_) => ConfigKind::Flag,
        ConfigTypes::Int(_) => ConfigKind::Int,
        ConfigTypes::UInt(_) => ConfigKind::UInt,
        ConfigTypes::BigInt(_) => ConfigKind::BigInt,
        ConfigTypes::BigUInt(_) => ConfigKind::BigUInt,
        ConfigTypes::Float(_) => ConfigKind::Float,
    }
}

/// The JSON value that a typed value is written as: a 128-bit integer as a
/// JSON integer when it fits the 64-bit range that its kind reads back, else
/// as its decimal text.
pub open spec fn encodes(j: JsonValue, v: ConfigTypes) -> bool {
    match v {
        ConfigTypes::String(s) => j == JsonValue::Str(s),
        ConfigTypes::Bool(b) => j == JsonValue::Bool(b),
        ConfigTypes::Int(i) => if i >= 0 {
            j == JsonValue::Number(JsonNumber::PosInt(i as u64))
        } else {
            j == JsonValue::Number(JsonNumber::NegInt(i as i64))
        },
        ConfigTypes::UInt(u) => j == JsonValue::Number(JsonNumber::PosInt(u as u64)),
        ConfigTypes::BigInt(i) => if 0 <= i <= i64::MAX {
            j == JsonValue::Number(JsonNumber::PosInt(i as u64))
        } else if i64::MIN <= i < 0 {
            j == JsonValue::Number(JsonNumber::NegInt(i as i64))
        } else {
            j is Str && j->Str_0@ == signed_decimal_spec(i as int)
        },
        ConfigTypes::BigUInt(u) => if u <= u64::MAX {
            j == JsonValue::Number(JsonNumber::PosInt(u as u64))
        } else {
            j is Str && j->Str_0@ == decimal_spec(u as nat)
        },
        ConfigTypes::Float(n) => j == JsonValue::Number(n),
    }
}

/// The JSON value that a typed value is written as.
pub fn json_of(value: &ConfigTypes) -> (r: JsonValue)
    ensures
        encodes(r, *value),
{
    match value {
        ConfigTypes::String(s) => JsonValue::Str(s.clone()),
        ConfigTypes::Bool(b) => JsonValue::Bool(*b),
        ConfigTypes::Int(i) => if *i >= 0 {
            JsonValue::Number(JsonNumber::PosInt(*i as u64))
        } else {
            JsonValue::Number(JsonNumber::NegInt(*i as i64))
        },
        ConfigTypes::UInt(u) => JsonValue::Number(JsonNumber::PosInt(*u as u64)),
        ConfigTypes::BigInt(i) => if 0 <= *i && *i <= i64::MAX as i128 {
            JsonValue::Number(JsonNumber::PosInt(*i as u64))
        } else if i64::MIN as i128 <= *i && *i < 0 {
            JsonValue::Number(JsonNumber::NegInt(*i as i64))
        } else {
            JsonValue::Str(signed_decimal_text(*i))
        },
        ConfigTypes::BigUInt(u) => if *u <= u64::MAX as u128 {
            JsonValue::Number(JsonNumber::PosInt(*u as u64))
        } else {
            JsonValue::Str(decimal_text(*u))
        },
        ConfigTypes::Float(n) => JsonValue::Number(*n),
    }
}

pub fn kind_of_config_value(v: &ConfigTypes) -> (r: ConfigKind)
    ensures
        r == kind_of_value(*v),
{
    match v {
        ConfigTypes::String(_) => ConfigKind::Text,
        ConfigTypes::Bool(_) => ConfigKind::Flag,
        ConfigTypes::Int(_) => ConfigKind::Int,
        ConfigTypes::UInt(_) => ConfigKind::UInt,
        ConfigTypes::BigInt(_) => ConfigKind::BigInt,
        ConfigTypes::BigUInt(_) => ConfigKind::BigUInt,
        ConfigTypes::Float(_) => ConfigKind::Float,
    }
}

proof fn lemma_decimal(n: nat)
    ensures
        decimal_spec(n).len() > 0,
        all_digits(decimal_spec(n)),
        digits_value(decimal_spec(n)) == n,
        decimal_spec(n)[0] != '-',
    decreases n,
{
    let s = decimal_spec(n);
    if n < 10 {
        assert(s.drop_last() =~= Seq::<char>::empty());
        assert(digits_value(s.drop_last()) == 0);
    } else {
        let p = decimal_spec(n / 10);
        lemma_decimal(n / 10);
        assert(s == p.push(digit_char(n % 10)));
        assert(s.drop_last() =~= p);
        assert(s[0] == p[0]);
        assert forall|i: int| 0 <= i < s.len() implies is_digit(#[trigger] s[i]) by {
            if i < p.len() {
                assert(s[i] == p[i]);
            }
        }
        assert((n / 10) * 10 + n % 10 == n) by (nonlinear_arith);
    }
}

/// A typed value written as JSON reads back as the same value: it fits its
/// own kind and converts back to itself.
pub proof fn lemma_encoding_reads_back(e: JsonValue, v: ConfigTypes)
    requires
        encodes(e, v),
    ensures
        fits(kind_of_value(v), e),
        typed_value(kind_of_value(v), e) == v,
{
    match v {
        ConfigTypes::BigInt(i) => {
            if !(i64::MIN <= i <= i64::MAX) {
                let t = e->Str_0@;
                if i < 0 {
                    let m = (0 - i) as nat;
                    lemma_decimal(m);
                    assert(t.drop_first() =~= decimal_spec(m));
                } else {
                    lemma_decimal(i as nat);
                }
            }
        },
        ConfigTypes::BigUInt(u) => {
            if u > u64::MAX {
                lemma_decimal(u as nat);
            }
        },
        _ => {},
    }
}

/// The text that a module reads for a configuration value in its initial
/// environment; `None` for a float, whose text the embedding process writes.
pub open spec fn env_text_spec(v: ConfigTypes) -> Option<Seq<char>> {
    match v {
        ConfigTypes::String(s) => Some(s@),
        ConfigTypes::Bool(b) => Some(if b { "true"@ } else { "false"@ }),
        ConfigTypes::Int(i) => Some(signed_decimal_spec(i as int)),
        ConfigTypes::UInt(u) => Some(decimal_spec(u as nat)),
        ConfigTypes::BigInt(i) => Some(signed_decimal_spec(i as int)),
        ConfigTypes::BigUInt(u) => Some(decimal_spec(u as nat)),
        ConfigTypes::Float(_) => None,
    }
}

impl ConfigTypes {
    /// The text of this value in a module's initial environment.
    pub fn env_text(&self) -> (r: Option<String>)
        ensures
            match r {
                Some(t) => env_text_spec(*self) == Some(t@),
                None => env_text_spec(*self) is None,
            },
    {
        match self {
            ConfigTypes::String(s) => Some(s.clone()),
            ConfigTypes::Bool(b) => Some(if *b { "true".to_string() } else { "false".to_string() }),
            ConfigTypes::Int(i) => Some(signed_decimal_text(*i as i128)),
            ConfigTypes::UInt(u) => Some(decimal_text(*u as u128)),
            ConfigTypes::BigInt(i) => Some(signed_decimal_text(*i)),
            ConfigTypes::BigUInt(u) => Some(decimal_text(*u)),
            ConfigTypes::Float(_) => None,
        }
    }
}

} // verus!
