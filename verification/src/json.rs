//! An owned JSON document model.
//!
//! Objects keep their entries in the order the document presents them; keys
//! are distinct, as in a parsed document.
use vstd::prelude::*;
use crate::text::{str_eq, chars_of, push_char, push_str, bool_string, bool_text, u64_text, i64_text,
    decimal, decimal_int};

verus! {

/// A JSON number as a parser classifies it: a non-negative integer, a
/// negative integer, or any other number kept as its rendered text.
#[derive(Debug, PartialEq)]
pub enum JsonNumber {
    PosInt(u64),
    NegInt(i64),
    Float(String),
}

/// A JSON value.
#[derive(Debug, PartialEq)]
pub enum JsonValue {
    Null,
    Bool(bool),
    Number(JsonNumber),
    String(String),
    Array(Vec<JsonValue>),
    Object(Vec<(String, JsonValue)>),
}

/// Mathematical model of a JSON number.
pub enum Num {
    PosInt(u64),
    NegInt(i64),
    Float(Seq<char>),
}

/// Mathematical model of a JSON value.
pub enum Json {
    Null,
    Bool(bool),
    Num(Num),
    Str(Seq<char>),
    Arr(Seq<Json>),
    Obj(Seq<(Seq<char>, Json)>),
}

/// The model of a number.
pub open spec fn num_view(n: JsonNumber) -> Num {
    match n {
        JsonNumber::PosInt(u) => Num::PosInt(u),
        JsonNumber::NegInt(i) => Num::NegInt(i),
        JsonNumber::Float(t) => Num::Float(t@),
    }
}

/// The models of the first `n` elements of `a`.
pub open spec fn items_view(a: Seq<JsonValue>, n: int) -> Seq<Json>
    decreases a, n,
{
    if n <= 0 || n > a.len() {
        Seq::empty()
    } else {
        items_view(a, n - 1).push(json_view(a[n - 1]))
    }
}

/// The models of the first `n` entries of `m`.
pub open spec fn entries_view(m: Seq<(String, JsonValue)>, n: int) -> Seq<(Seq<char>, Json)>
    decreases m, n,
{
    if n <= 0 || n > m.len() {
        Seq::empty()
    } else {
        entries_view(m, n - 1).push((m[n - 1].0@, json_view(m[n - 1].1)))
    }
}

/// The model of a value.
pub open spec fn json_view(v: JsonValue) -> Json
    decreases v, 0int,
{
    match v {
        JsonValue::Null => Json::Null,
        JsonValue::Bool(b) => Json::Bool(b),
        JsonValue::Number(n) => Json::Num(num_view(n)),
        JsonValue::String(s) => Json::Str(s@),
        JsonValue::Array(a) => Json::Arr(items_view(a@, a@.len() as int)),
        JsonValue::Object(m) => Json::Obj(entries_view(m@, m@.len() as int)),
    }
}

impl View for JsonValue {
    type V = Json;

    open spec fn view(&self) -> Json {
        json_view(*self)
    }
}

/// Length and elements of `items_view`.
pub proof fn lemma_items_view(a: Seq<JsonValue>, n: int)
    requires
        0 <= n <= a.len(),
    ensures
        items_view(a, n).len() == n,
        forall|i: int| 0 <= i < n ==> #[trigger] items_view(a, n)[i] == json_view(a[i]),
    decreases n,
{
    if n > 0 {
        lemma_items_view(a, n - 1);
    }
}

/// Length and entries of `entries_view`.
pub proof fn lemma_entries_view(m: Seq<(String, JsonValue)>, n: int)
    requires
        0 <= n <= m.len(),
    ensures
        entries_view(m, n).len() == n,
        forall|i: int|
            0 <= i < n ==> #[trigger] entries_view(m, n)[i] == (m[i].0@, json_view(m[i].1)),
    decreases n,
{
    if n > 0 {
        lemma_entries_view(m, n - 1);
    }
}

/// The first position at or after `i` whose key is `key`.
pub open spec fn key_index_from(m: Seq<(Seq<char>, Json)>, key: Seq<char>, i: int) -> Option<int>
    decreases m.len() - i,
{
    if i < 0 || i >= m.len() {
        None
    } else if m[i].0 == key {
        Some(i)
    } else {
        key_index_from(m, key, i + 1)
    }
}

/// The position of the entry whose key is `key`.
pub open spec fn key_index(m: Seq<(Seq<char>, Json)>, key: Seq<char>) -> Option<int> {
    key_index_from(m, key, 0)
}

/// The value of the entry whose key is `key`.
pub open spec fn lookup(m: Seq<(Seq<char>, Json)>, key: Seq<char>) -> Option<Json> {
    match key_index(m, key) {
        Some(j) => Some(m[j].1),
        None => None,
    }
}

/// `m` with the value of the entry keyed `key` replaced by `v`, when there is one.
pub open spec fn set_member(m: Seq<(Seq<char>, Json)>, key: Seq<char>, v: Json) -> Seq<(Seq<char>, Json)> {
    match key_index(m, key) {
        Some(j) => m.update(j, (m[j].0, v)),
        None => m,
    }
}

/// A found position is in range and keyed `key`; earlier ones are not.
pub proof fn lemma_key_index_from(m: Seq<(Seq<char>, Json)>, key: Seq<char>, i: int)
    requires
        0 <= i,
    ensures
        match key_index_from(m, key, i) {
            Some(j) => i <= j < m.len() && m[j].0 == key && forall|k: int| i <= k < j ==> m[k].0 != key,
            None => forall|k: int| i <= k < m.len() ==> m[k].0 != key,
        },
    decreases m.len() - i,
{
    if i < m.len() && m[i].0 != key {
        lemma_key_index_from(m, key, i + 1);
    }
}


/// Replacing a value keeps every key where it was.
pub proof fn lemma_set_member_index(m: Seq<(Seq<char>, Json)>, key: Seq<char>, v: Json, k2: Seq<char>, i: int)
    requires
        0 <= i,
    ensures
        key_index_from(set_member(m, key, v), k2, i) == key_index_from(m, k2, i),
        set_member(m, key, v).len() == m.len(),
    decreases m.len() - i,
{
    let s2 = set_member(m, key, v);
    match key_index(m, key) {
        Some(j) => {
            lemma_key_index_from(m, key, 0);
            assert(s2 == m.update(j, (m[j].0, v)));
        },
        None => {},
    }
    assert(s2.len() == m.len());
    if i < m.len() {
        assert(s2[i].0 == m[i].0);
        lemma_set_member_index(m, key, v, k2, i + 1);
    }
}

/// Looking a key up after `set_member`: the new value for `key` when it was
/// present, the old lookup for any other key.
pub proof fn lemma_lookup_set_member(m: Seq<(Seq<char>, Json)>, key: Seq<char>, v: Json, k2: Seq<char>)
    ensures
        lookup(set_member(m, key, v), k2) == (if k2 == key && key_index(m, key) is Some {
            Some(v)
        } else {
            lookup(m, k2)
        }),
{
    lemma_set_member_index(m, key, v, k2, 0);
    lemma_key_index_from(m, key, 0);
    lemma_key_index_from(m, k2, 0);
}

/// Writing back the value a key already has changes nothing.
pub proof fn lemma_set_member_same(m: Seq<(Seq<char>, Json)>, key: Seq<char>, v: Json)
    requires
        lookup(m, key) == Some(v),
    ensures
        set_member(m, key, v) == m,
{
    lemma_key_index_from(m, key, 0);
    match key_index(m, key) {
        Some(j) => {
            assert(set_member(m, key, v) =~= m);
        },
        None => {},
    }
}

impl Json {
    /// Member `key` of an object (`Value::get` with a string key).
    pub open spec fn member(self, key: Seq<char>) -> Option<Json> {
        match self {
            Json::Obj(m) => lookup(m, key),
            _ => None,
        }
    }

    /// Element `i` of an array (`Value::get` with an index).
    pub open spec fn element(self, i: int) -> Option<Json> {
        match self {
            Json::Arr(a) => if 0 <= i < a.len() {
                Some(a[i])
            } else {
                None
            },
            _ => None,
        }
    }

    /// The text of a string value (`Value::as_str`).
    pub open spec fn text(self) -> Option<Seq<char>> {
        match self {
            Json::Str(s) => Some(s),
            _ => None,
        }
    }

    /// The elements of an array value (`Value::as_array`).
    pub open spec fn items(self) -> Option<Seq<Json>> {
        match self {
            Json::Arr(a) => Some(a),
            _ => None,
        }
    }

    /// A number that fits `u64` (`Value::as_u64`).
    pub open spec fn unsigned(self) -> Option<u64> {
        match self {
            Json::Num(Num::PosInt(n)) => Some(n),
            _ => None,
        }
    }

    /// A number that fits `i64` (`Value::as_i64`).
    pub open spec fn signed(self) -> Option<i64> {
        match self {
            Json::Num(Num::PosInt(n)) => if n <= i64::MAX {
                Some(n as i64)
            } else {
                None
            },
            Json::Num(Num::NegInt(n)) => Some(n),
            _ => None,
        }
    }
}

impl JsonValue {
    /// Member lookup (`Value::get(key)`).
    pub fn get(&self, key: &str) -> (r: Option<&JsonValue>)
        ensures
            match r {
                Some(v) => self@.member(key@) == Some(v@),
                None => self@.member(key@) is None,
            },
    {
        match self {
            JsonValue::Object(m) => {
                proof {
                    lemma_entries_view(m@, m@.len() as int);
                }
                let i = entry_position(m, key);
                match i {
                    Some(i) => Some(&m[i].1),
                    None => None,
                }
            },
            _ => None,
        }
    }

    /// Array element lookup (`Value::get(index)`).
    pub fn at(&self, i: usize) -> (r: Option<&JsonValue>)
        ensures
            match r {
                Some(v) => self@.element(i as int) == Some(v@),
                None => self@.element(i as int) is None,
            },
    {
        match self {
            JsonValue::Array(a) => {
                proof {
                    lemma_items_view(a@, a@.len() as int);
                }
                if i < a.len() {
                    Some(&a[i])
                } else {
                    None
                }
            },
            _ => None,
        }
    }

    /// `Value::as_str`.
    pub fn as_str(&self) -> (r: Option<&str>)
        ensures
            match r {
                Some(s) => self@.text() == Some(s@),
                None => self@.text() is None,
            },
    {
        match self {
            JsonValue::String(s) => Some(s.as_str()),
            _ => None,
        }
    }

    /// `Value::as_array`.
    pub fn as_array(&self) -> (r: Option<&Vec<JsonValue>>)
        ensures
            match r {
                Some(a) => self@.items() == Some(items_view(a@, a@.len() as int)),
                None => self@.items() is None,
            },
    {
        match self {
            JsonValue::Array(a) => Some(a),
            _ => None,
        }
    }

    /// `Value::as_u64`.
    pub fn as_u64(&self) -> (r: Option<u64>)
        ensures
            r == self@.unsigned(),
    {
        match self {
            JsonValue::Number(JsonNumber::PosInt(n)) => Some(*n),
            _ => None,
        }
    }

    /// `Value::as_i64`.
    pub fn as_i64(&self) -> (r: Option<i64>)
        ensures
            r == self@.signed(),
    {
        match self {
            JsonValue::Number(JsonNumber::PosInt(n)) => if *n <= i64::MAX as u64 {
                Some(*n as i64)
            } else {
                None
            },
            JsonValue::Number(JsonNumber::NegInt(n)) => Some(*n),
            _ => None,
        }
    }

    /// A separately owned value with the same model.
    pub fn duplicate(&self) -> (r: JsonValue)
        ensures
            r@ == self@,
        decreases self,
    {
        match self {
            JsonValue::Null => JsonValue::Null,
            JsonValue::Bool(b) => JsonValue::Bool(*b),
            JsonValue::Number(JsonNumber::PosInt(n)) => JsonValue::Number(JsonNumber::PosInt(*n)),
            JsonValue::Number(JsonNumber::NegInt(n)) => JsonValue::Number(JsonNumber::NegInt(*n)),
            JsonValue::Number(JsonNumber::Float(t)) => JsonValue::Number(
                JsonNumber::Float(t.clone()),
            ),
            JsonValue::String(s) => JsonValue::String(s.clone()),
            JsonValue::Array(a) => {
                let mut out: Vec<JsonValue> = Vec::new();
                let mut i: usize = 0;
                while i < a.len()
                    invariant
                        *self == JsonValue::Array(*a),
                        i <= a.len(),
                        out.len() == i,
                        forall|k: int| 0 <= k < i ==> #[trigger] json_view(out@[k]) == json_view(a@[k]),
                    decreases a.len() - i,
                {
                    proof {
                        vstd::std_specs::vec::axiom_vec_index_decreases(*a, i as int);
                        assert(decreases_to!(*self => (*self)->Array_0));
                        assert(decreases_to!(*a => a[i as int]));
                        assert(decreases_to!(*self => a[i as int]));
                    }
                    let e = a[i].duplicate();
                    out.push(e);
                    i = i + 1;
                }
                proof {
                    lemma_items_view(a@, a@.len() as int);
                    lemma_items_view(out@, out@.len() as int);
                    assert(items_view(out@, out@.len() as int) =~= items_view(a@, a@.len() as int));
                }
                JsonValue::Array(out)
            },
            JsonValue::Object(m) => {
                let mut out: Vec<(String, JsonValue)> = Vec::new();
                let mut i: usize = 0;
                while i < m.len()
                    invariant
                        *self == JsonValue::Object(*m),
                        i <= m.len(),
                        out.len() == i,
                        forall|k: int|
                            0 <= k < i ==> #[trigger] out@[k].0@ == m@[k].0@ && json_view(out@[k].1)
                                == json_view(m@[k].1),
                    decreases m.len() - i,
                {
                    proof {
                        vstd::std_specs::vec::axiom_vec_index_decreases(*m, i as int);
                        assert(decreases_to!(*self => (*self)->Object_0));
                        assert(decreases_to!(*m => m[i as int]));
                        assert(decreases_to!(m[i as int] => m[i as int].1));
                        assert(decreases_to!(*self => m[i as int].1));
                    }
                    let k = m[i].0.clone();
                    let v = m[i].1.duplicate();
                    out.push((k, v));
                    i = i + 1;
                }
                proof {
                    lemma_entries_view(m@, m@.len() as int);
                    lemma_entries_view(out@, out@.len() as int);
                    assert(entries_view(out@, out@.len() as int) =~= entries_view(m@, m@.len() as int));
                }
                JsonValue::Object(out)
            },
        }
    }
}

/// The position of the entry of `m` whose key is `key`.
pub fn entry_position(m: &Vec<(String, JsonValue)>, key: &str) -> (r: Option<usize>)
    ensures
        match r {
            Some(i) => i < m.len() && key_index(entries_view(m@, m@.len() as int), key@) == Some(
                i as int,
            ),
            None => key_index(entries_view(m@, m@.len() as int), key@) is None,
        },
{
    let ghost es = entries_view(m@, m@.len() as int);
    proof {
        lemma_entries_view(m@, m@.len() as int);
    }
    let mut i: usize = 0;
    while i < m.len()
        invariant
            es == entries_view(m@, m@.len() as int),
            es.len() == m.len(),
            forall|k: int| 0 <= k < m.len() ==> #[trigger] es[k] == (m@[k].0@, json_view(m@[k].1)),
            i <= m.len(),
            key_index(es, key@) == key_index_from(es, key@, i as int),
        decreases m.len() - i,
    {
        if str_eq(m[i].0.as_str(), key) {
            assert(es[i as int].0 == key@);
            return Some(i);
        }
        assert(es[i as int].0 != key@);
        i = i + 1;
    }
    None
}


/// `m` with the entry keyed `key` set to `v`: replaced in place when present,
/// appended otherwise.
pub open spec fn upsert(m: Seq<(Seq<char>, Json)>, key: Seq<char>, v: Json) -> Seq<(Seq<char>, Json)> {
    match key_index(m, key) {
        Some(j) => m.update(j, (m[j].0, v)),
        None => m.push((key, v)),
    }
}

/// Assigning member `key` of an object, a `null` becoming an object first
/// (what `value[key] = v` does).
pub open spec fn upsert_json(j: Json, key: Seq<char>, v: Json) -> Json {
    match j {
        Json::Obj(m) => Json::Obj(upsert(m, key, v)),
        _ => Json::Obj(seq![(key, v)]),
    }
}

/// Looking a key up after `upsert`.
pub proof fn lemma_lookup_upsert(m: Seq<(Seq<char>, Json)>, key: Seq<char>, v: Json, k2: Seq<char>)
    ensures
        lookup(upsert(m, key, v), k2) == (if k2 == key {
            Some(v)
        } else {
            lookup(m, k2)
        }),
{
    lemma_key_index_from(m, key, 0);
    lemma_key_index_from(m, k2, 0);
    match key_index(m, key) {
        Some(j) => {
            lemma_lookup_set_member(m, key, v, k2);
        },
        None => {
            let m2 = m.push((key, v));
            lemma_key_index_from(m2, k2, 0);
            if k2 == key {
                assert(m2[m.len() as int].0 == key);
            } else {
                match key_index(m, k2) {
                    Some(i) => {
                        assert(m2[i].0 == k2);
                    },
                    None => {
                        assert(m2[m.len() as int].0 != k2);
                    },
                }
            }
        },
    }
}

/// Members of a value after assigning member `key`.
pub proof fn lemma_member_upsert(j: Json, key: Seq<char>, v: Json, k2: Seq<char>)
    requires
        j is Obj || j is Null,
    ensures
        upsert_json(j, key, v).member(k2) == (if k2 == key {
            Some(v)
        } else {
            j.member(k2)
        }),
{
    match j {
        Json::Obj(m) => lemma_lookup_upsert(m, key, v, k2),
        _ => lemma_lookup_upsert(Seq::empty(), key, v, k2),
    }
}

/// A string value.
pub fn str_value(s: &str) -> (r: JsonValue)
    ensures
        r@ == Json::Str(s@),
{
    JsonValue::String(String::from_str(s))
}

/// Appends the entry `(key, v)` to an object's entries.
pub fn push_entry(m: &mut Vec<(String, JsonValue)>, key: &str, v: JsonValue)
    ensures
        entries_view(final(m)@, final(m)@.len() as int) == entries_view(old(m)@, old(m)@.len() as int).push(
            (key@, v@),
        ),
{
    let ghost before = m@;
    m.push((String::from_str(key), v));
    proof {
        lemma_entries_view(before, before.len() as int);
        lemma_entries_view(m@, m@.len() as int);
        assert(entries_view(m@, m@.len() as int) =~= entries_view(before, before.len() as int).push((key@, v@)));
    }
}

/// Appends `v` to an array's elements.
pub fn push_item(a: &mut Vec<JsonValue>, v: JsonValue)
    ensures
        items_view(final(a)@, final(a)@.len() as int) == items_view(old(a)@, old(a)@.len() as int).push(v@),
{
    let ghost before = a@;
    a.push(v);
    proof {
        lemma_items_view(before, before.len() as int);
        lemma_items_view(a@, a@.len() as int);
        assert(items_view(a@, a@.len() as int) =~= items_view(before, before.len() as int).push(v@));
    }
}

impl JsonValue {
    /// Assigns member `key` (`value[key] = v`); a `null` becomes an object.
    pub fn set_entry(&mut self, key: &str, v: JsonValue)
        requires
            old(self)@ is Obj || old(self)@ is Null,
        ensures
            final(self)@ == upsert_json(old(self)@, key@, v@),
    {
        let mut taken = JsonValue::Null;
        std::mem::swap(&mut taken, self);
        match taken {
            JsonValue::Object(mut m) => {
                let ghost m0 = m@;
                proof {
                    lemma_entries_view(m@, m@.len() as int);
                }
                let pos = entry_position(&m, key);
                match pos {
                    Some(i) => {
                        let k = m[i].0.clone();
                        m.set(i, (k, v));
                        proof {
                            lemma_entries_view(m@, m@.len() as int);
                            let es0 = entries_view(m0, m0.len() as int);
                            assert(entries_view(m@, m@.len() as int) =~= es0.update(
                                i as int,
                                (es0[i as int].0, v@),
                            ));
                        }
                    },
                    None => {
                        push_entry(&mut m, key, v);
                    },
                }
                *self = JsonValue::Object(m);
            },
            _ => {
                let mut m: Vec<(String, JsonValue)> = Vec::new();
                push_entry(&mut m, key, v);
                proof {
                    assert(entries_view(m@, m@.len() as int) =~= seq![(key@, v@)]);
                }
                *self = JsonValue::Object(m);
            },
        }
    }
}


/// A lower-case hexadecimal digit.
pub open spec fn hex_digit(d: nat) -> char {
    if d < 10 {
        (48 + d) as char
    } else {
        (87 + d) as char
    }
}

/// How a character is written inside a JSON string: quote, backslash and
/// control characters escaped, short forms where JSON has them.
pub open spec fn escape_char(c: char) -> Seq<char> {
    if c == '"' {
        seq!['\\', '"']
    } else if c == '\\' {
        seq!['\\', '\\']
    } else if c == '\u{8}' {
        seq!['\\', 'b']
    } else if c == '\t' {
        seq!['\\', 't']
    } else if c == '\n' {
        seq!['\\', 'n']
    } else if c == '\u{c}' {
        seq!['\\', 'f']
    } else if c == '\r' {
        seq!['\\', 'r']
    } else if (c as u32) < 0x20 {
        seq!['\\', 'u', '0', '0', hex_digit(((c as u32) / 16) as nat), hex_digit(((c as u32) % 16) as nat)]
    } else {
        seq![c]
    }
}

/// The escaped contents of a JSON string.
pub open spec fn escaped(s: Seq<char>) -> Seq<char>
    decreases s.len(),
{
    if s.len() == 0 {
        seq![]
    } else {
        escaped(s.drop_last()) + escape_char(s.last())
    }
}

/// A JSON string literal.
pub open spec fn quoted_text(s: Seq<char>) -> Seq<char> {
    seq!['"'] + escaped(s) + seq!['"']
}

/// Compact JSON text of a value (`Value::to_string`); a non-integer number
/// is written as its kept text.
pub open spec fn json_text(v: Json) -> Seq<char>
    decreases v, 0int,
{
    match v {
        Json::Null => seq!['n', 'u', 'l', 'l'],
        Json::Bool(b) => bool_text(b),
        Json::Num(Num::PosInt(n)) => decimal(n as nat),
        Json::Num(Num::NegInt(i)) => decimal_int(i as int),
        Json::Num(Num::Float(t)) => t,
        Json::Str(s) => quoted_text(s),
        Json::Arr(a) => seq!['['] + items_text(a, a.len() as int) + seq![']'],
        Json::Obj(m) => seq!['{'] + entries_text(m, m.len() as int) + seq!['}'],
    }
}

/// The first `n` elements written and separated by commas.
pub open spec fn items_text(a: Seq<Json>, n: int) -> Seq<char>
    decreases a, n,
{
    if n <= 0 || n > a.len() {
        seq![]
    } else if n == 1 {
        json_text(a[0])
    } else {
        items_text(a, n - 1) + seq![','] + json_text(a[n - 1])
    }
}

/// The first `n` entries written as `"key":value` and separated by commas.
pub open spec fn entries_text(m: Seq<(Seq<char>, Json)>, n: int) -> Seq<char>
    decreases m, n,
{
    if n <= 0 || n > m.len() {
        seq![]
    } else if n == 1 {
        quoted_text(m[0].0) + seq![':'] + json_text(m[0].1)
    } else {
        entries_text(m, n - 1) + seq![','] + quoted_text(m[n - 1].0) + seq![':'] + json_text(m[n - 1].1)
    }
}

fn hex_char(d: u32) -> (c: char)
    requires
        d < 16,
    ensures
        c == hex_digit(d as nat),
{
    if d < 10 {
        ((48 + d) as u8) as char
    } else {
        ((87 + d) as u8) as char
    }
}

/// Appends the escaped contents of a JSON string.
pub fn write_escaped(s: &str, out: &mut String)
    ensures
        final(out)@ == old(out)@ + escaped(s@),
{
    let v = chars_of(s);
    let ghost start = out@;
    let mut i: usize = 0;
    assert(v@.subrange(0, 0) =~= Seq::<char>::empty());
    assert(start + escaped(Seq::<char>::empty()) =~= start);
    while i < v.len()
        invariant
            v@ == s@,
            i <= v.len(),
            out@ == start + escaped(v@.subrange(0, i as int)),
        decreases v.len() - i,
    {
        let c = v[i];
        let ghost before = out@;
        if c == '"' {
            push_char(out, '\\');
            push_char(out, '"');
        } else if c == '\\' {
            push_char(out, '\\');
            push_char(out, '\\');
        } else if c == '\u{8}' {
            push_char(out, '\\');
            push_char(out, 'b');
        } else if c == '\t' {
            push_char(out, '\\');
            push_char(out, 't');
        } else if c == '\n' {
            push_char(out, '\\');
            push_char(out, 'n');
        } else if c == '\u{c}' {
            push_char(out, '\\');
            push_char(out, 'f');
        } else if c == '\r' {
            push_char(out, '\\');
            push_char(out, 'r');
        } else if (c as u32) < 0x20 {
            push_char(out, '\\');
            push_char(out, 'u');
            push_char(out, '0');
            push_char(out, '0');
            push_char(out, hex_char((c as u32) / 16));
            push_char(out, hex_char((c as u32) % 16));
        } else {
            push_char(out, c);
        }
        proof {
            assert(out@ =~= before + escape_char(c));
            assert(v@.subrange(0, i + 1).drop_last() =~= v@.subrange(0, i as int));
        }
        i = i + 1;
    }
    assert(v@.subrange(0, v.len() as int) =~= v@);
}

/// Appends a JSON string literal.
pub fn write_quoted(s: &str, out: &mut String)
    ensures
        final(out)@ == old(out)@ + quoted_text(s@),
{
    let ghost start = out@;
    push_char(out, '"');
    write_escaped(s, out);
    push_char(out, '"');
    assert(out@ =~= start + quoted_text(s@));
}

impl JsonValue {
    /// Appends the compact JSON text of this value.
    pub fn write_json(&self, out: &mut String)
        ensures
            final(out)@ == old(out)@ + json_text(self@),
        decreases self,
    {
        let ghost start = out@;
        match self {
            JsonValue::Null => {
                push_str(out, "null");
                proof {
                    reveal_strlit("null");
                }
                assert(out@ =~= start + json_text(self@));
            },
            JsonValue::Bool(b) => {
                let t = bool_string(*b);
                push_str(out, t.as_str());
            },
            JsonValue::Number(JsonNumber::PosInt(n)) => {
                let t = u64_text(*n);
                push_str(out, t.as_str());
            },
            JsonValue::Number(JsonNumber::NegInt(n)) => {
                let t = i64_text(*n);
                push_str(out, t.as_str());
            },
            JsonValue::Number(JsonNumber::Float(t)) => {
                push_str(out, t.as_str());
            },
            JsonValue::String(s) => {
                write_quoted(s.as_str(), out);
            },
            JsonValue::Array(a) => {
                let ghost items = items_view(a@, a@.len() as int);
                proof {
                    lemma_items_view(a@, a@.len() as int);
                }
                push_char(out, '[');
                let mut i: usize = 0;
                while i < a.len()
                    invariant
                        *self == JsonValue::Array(*a),
                        items == items_view(a@, a@.len() as int),
                        items.len() == a.len(),
                        forall|k: int| 0 <= k < a.len() ==> #[trigger] items[k] == a@[k]@,
                        i <= a.len(),
                        out@ == start + seq!['['] + items_text(items, i as int),
                    decreases a.len() - i,
                {
                    proof {
                        vstd::std_specs::vec::axiom_vec_index_decreases(*a, i as int);
                        assert(decreases_to!(*self => (*self)->Array_0));
                    }
                    let ghost before = out@;
                    if i > 0 {
                        push_char(out, ',');
                    }
                    a[i].write_json(out);
                    proof {
                        if i == 0 {
                            assert(out@ =~= start + seq!['['] + items_text(items, i + 1));
                        } else {
                            assert(out@ =~= start + seq!['['] + items_text(items, i + 1));
                        }
                    }
                    i = i + 1;
                }
                push_char(out, ']');
                assert(out@ =~= start + json_text(self@));
            },
            JsonValue::Object(m) => {
                let ghost es = entries_view(m@, m@.len() as int);
                proof {
                    lemma_entries_view(m@, m@.len() as int);
                }
                push_char(out, '{');
                let mut i: usize = 0;
                while i < m.len()
                    invariant
                        *self == JsonValue::Object(*m),
                        es == entries_view(m@, m@.len() as int),
                        es.len() == m.len(),
                        forall|k: int| 0 <= k < m.len() ==> #[trigger] es[k] == (m@[k].0@, m@[k].1@),
                        i <= m.len(),
                        out@ == start + seq!['{'] + entries_text(es, i as int),
                    decreases m.len() - i,
                {
                    proof {
                        vstd::std_specs::vec::axiom_vec_index_decreases(*m, i as int);
                        assert(decreases_to!(*self => (*self)->Object_0));
                        assert(decreases_to!(m[i as int] => m[i as int].1));
                    }
                    if i > 0 {
                        push_char(out, ',');
                    }
                    write_quoted(m[i].0.as_str(), out);
                    push_char(out, ':');
                    m[i].1.write_json(out);
                    proof {
                        assert(out@ =~= start + seq!['{'] + entries_text(es, i + 1));
                    }
                    i = i + 1;
                }
                push_char(out, '}');
                assert(out@ =~= start + json_text(self@));
            },
        }
    }

    /// The compact JSON text of this value (`Value::to_string`).
    pub fn to_json_text(&self) -> (r: String)
        ensures
            r@ == json_text(self@),
    {
        let mut r = String::new();
        self.write_json(&mut r);
        assert(r@ =~= json_text(self@));
        r
    }
}

} // verus!
