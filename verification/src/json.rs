//! JSON documents as the library sees them: a tree of plain values whose
//! model is [`JsonValue`]. Reading and printing are left to `serde_json`.
use vstd::prelude::*;
use crate::text::same_text;

verus! {

/// `serde_json::Value`, as a value that is only handed on: what it holds is
/// spoken of through [`tree_of`].
#[verifier::external_type_specification]
#[verifier::external_body]
pub struct ExValue(serde_json::Value);

/// `serde_json::Number`, as a value that is only handed on: the integer it
/// stands for is spoken of through [`integer_of`].
#[verifier::external_type_specification]
#[verifier::external_body]
pub struct ExNumber(serde_json::Number);

/// `serde_json::Error`, as a value that is only handed on: its message is
/// spoken of through [`message_of`].
#[verifier::external_type_specification]
#[verifier::external_body]
pub struct ExError(serde_json::Error);

/// A JSON document. An object keeps its entries in the order they were
/// added; where a key occurs more than once, the last entry counts.
#[derive(Debug)]
pub enum Json {
    Null,
    Bool(bool),
    Number(serde_json::Number),
    Str(String),
    Array(Vec<Json>),
    Object(Vec<(String, Json)>),
}

/// The mathematical model of a JSON document.
pub enum JsonValue {
    Null,
    Bool(bool),
    Number(serde_json::Number),
    Str(Seq<char>),
    Array(Seq<JsonValue>),
    Object(Map<Seq<char>, JsonValue>),
}

/// What `serde_json` makes of `text`: the document that it reads, or the
/// message of the error with which it refuses text that is no JSON.
pub uninterp spec fn read_as_json(text: Seq<char>) -> Result<JsonValue, Seq<char>>;

/// The message of a `serde_json::Error`.
pub uninterp spec fn message_of(error: serde_json::Error) -> Seq<char>;

/// The document that `serde_json` reads from `text`, if `text` is JSON.
pub open spec fn parsed(text: Seq<char>) -> Option<JsonValue> {
    match read_as_json(text) {
        Ok(document) => Some(document),
        Err(_) => None,
    }
}

/// What a `serde_json::Value` holds.
pub uninterp spec fn tree_of(value: serde_json::Value) -> JsonValue;

/// The indented rendering that `serde_json` gives a document, or `None`
/// where it gives none.
pub uninterp spec fn pretty_text(tree: JsonValue) -> Option<Seq<char>>;

/// The integer that a JSON number stands for, where it is one that fits
/// in sixty-four signed bits.
pub uninterp spec fn integer_of(number: serde_json::Number) -> Option<int>;

/// Index of the last entry under `key`, or -1 where there is none.
pub open spec fn last_index<V>(entries: Seq<(String, V)>, key: Seq<char>) -> int
    decreases entries.len(),
{
    if entries.len() == 0 {
        -1
    } else if entries.last().0@ == key {
        entries.len() - 1
    } else {
        last_index(entries.drop_last(), key)
    }
}

impl View for Json {
    type V = JsonValue;

    open spec fn view(&self) -> JsonValue
        decreases self,
    {
        match self {
            Json::Null => JsonValue::Null,
            Json::Bool(b) => JsonValue::Bool(*b),
            Json::Number(n) => JsonValue::Number(*n),
            Json::Str(s) => JsonValue::Str(s@),
            Json::Array(items) => JsonValue::Array(
                Seq::new(
                    items@.len(),
                    |i: int|
                        if 0 <= i < items@.len() {
                            items@[i].view()
                        } else {
                            JsonValue::Null
                        },
                ),
            ),
            Json::Object(entries) => JsonValue::Object(
                Map::new(
                    |key: Seq<char>| last_index(entries@, key) >= 0,
                    |key: Seq<char>|
                        {
                            let i = last_index(entries@, key);
                            if 0 <= i < entries@.len() {
                                entries@[i].1.view()
                            } else {
                                JsonValue::Null
                            }
                        },
                ),
            ),
        }
    }
}

impl JsonValue {
    /// The value under `key`, where this is an object that has the key.
    pub open spec fn member(self, key: Seq<char>) -> Option<JsonValue> {
        match self {
            JsonValue::Object(map) => if map.contains_key(key) {
                Some(map[key])
            } else {
                None
            },
            _ => None,
        }
    }

    /// The element at `index`, where this is an array that long.
    pub open spec fn item(self, index: int) -> Option<JsonValue> {
        match self {
            JsonValue::Array(items) => if 0 <= index < items.len() {
                Some(items[index])
            } else {
                None
            },
            _ => None,
        }
    }

    /// The text, where this is a string.
    pub open spec fn as_str(self) -> Option<Seq<char>> {
        match self {
            JsonValue::Str(text) => Some(text),
            _ => None,
        }
    }

    /// The integer, where this is a number that is one.
    pub open spec fn as_int(self) -> Option<int> {
        match self {
            JsonValue::Number(number) => integer_of(number),
            _ => None,
        }
    }
}

/// `serde_json::from_str` at `serde_json::Value`: the text is read as one
/// JSON document. Its outcome, the document or the error, is a function of
/// the text alone.
#[verifier::external_body]
fn decode(text: &str) -> (r: Result<serde_json::Value, serde_json::Error>)
    ensures
        match r {
            Ok(value) => read_as_json(text@) == Ok::<JsonValue, Seq<char>>(tree_of(value)),
            Err(error) => read_as_json(text@) == Err::<JsonValue, Seq<char>>(message_of(error)),
        },
{
    serde_json::from_str::<serde_json::Value>(text)
}

/// `serde_json::to_string_pretty` on a `serde_json::Value`: whether it
/// succeeds, and the text it then gives, depend on what the value holds and
/// on nothing else. The members of an object are written in the order of
/// their keys: `serde_json` is used without its `preserve_order` feature.
#[verifier::external_body]
fn encode_pretty(value: &serde_json::Value) -> (r: Result<String, serde_json::Error>)
    ensures
        match r {
            Ok(text) => pretty_text(tree_of(*value)) == Some(text@),
            Err(_) => pretty_text(tree_of(*value)) is None,
        },
{
    serde_json::to_string_pretty(value)
}

/// The message of a `serde_json::Error`, as its `Display` writes it. It
/// depends on the error alone.
#[verifier::external_body]
fn error_text(error: &serde_json::Error) -> (text: String)
    ensures
        text@ == message_of(*error),
{
    error.to_string()
}

/// `serde_json::Number::as_i64`.
#[verifier::external_body]
fn number_as_i64(number: &serde_json::Number) -> (r: Option<i64>)
    ensures
        match r {
            Some(i) => integer_of(*number) == Some(i as int),
            None => integer_of(*number) is None,
        },
{
    number.as_i64()
}

/// `serde_json::Number::from` an `i64`: the number stands for that integer.
#[verifier::external_body]
fn number_from_i64(i: i64) -> (number: serde_json::Number)
    ensures
        integer_of(number) == Some(i as int),
{
    serde_json::Number::from(i)
}

/// Copies a `serde_json::Value` into a [`Json`], variant by variant; the
/// entries of a `serde_json::Map` are taken as its `iter` gives them, one
/// for each key.
#[verifier::external_body]
fn import(value: &serde_json::Value) -> (json: Json)
    ensures
        json@ == tree_of(*value),
{
    match value {
        serde_json::Value::Null => Json::Null,
        serde_json::Value::Bool(b) => Json::Bool(*b),
        serde_json::Value::Number(n) => Json::Number(n.clone()),
        serde_json::Value::String(s) => Json::Str(s.clone()),
        serde_json::Value::Array(items) => Json::Array(items.iter().map(import).collect()),
        serde_json::Value::Object(map) => Json::Object(
            map.iter().map(|(k, v)| (k.clone(), import(v))).collect(),
        ),
    }
}

/// Copies a [`Json`] into a `serde_json::Value`, variant by variant. The
/// entries of an object are put into a `serde_json::Map` with
/// `Map::insert`, in order, which keeps the last value under a key.
#[verifier::external_body]
fn export(json: &Json) -> (value: serde_json::Value)
    ensures
        tree_of(value) == json@,
{
    match json {
        Json::Null => serde_json::Value::Null,
        Json::Bool(b) => serde_json::Value::Bool(*b),
        Json::Number(n) => serde_json::Value::Number(n.clone()),
        Json::Str(s) => serde_json::Value::String(s.clone()),
        Json::Array(items) => serde_json::Value::Array(items.iter().map(export).collect()),
        Json::Object(entries) => {
            let mut map = serde_json::Map::new();
            for (key, value) in entries.iter() {
                map.insert(key.clone(), export(value));
            }
            serde_json::Value::Object(map)
        },
    }
}

/// What `last_index` finds: the entry it names has the key and no later
/// entry has; -1 means that no entry has the key.
pub proof fn lemma_last_index<V>(entries: Seq<(String, V)>, key: Seq<char>)
    ensures
        -1 <= last_index(entries, key) < entries.len(),
        last_index(entries, key) >= 0 ==> entries[last_index(entries, key)].0@ == key,
        forall|j: int| last_index(entries, key) < j < entries.len() ==> (#[trigger] entries[j]).0@ != key,
    decreases entries.len(),
{
    if entries.len() > 0 && entries.last().0@ != key {
        lemma_last_index(entries.drop_last(), key);
        assert forall|j: int| last_index(entries, key) < j < entries.len() implies (
        #[trigger] entries[j]).0@ != key by {
            if j < entries.len() - 1 {
                assert(entries.drop_last()[j] == entries[j]);
            }
        }
    }
}

/// An index that has the key and is followed by no entry with the key is
/// the one that `last_index` finds.
pub proof fn lemma_last_index_is<V>(entries: Seq<(String, V)>, key: Seq<char>, i: int)
    requires
        -1 <= i < entries.len(),
        i >= 0 ==> entries[i].0@ == key,
        forall|j: int| i < j < entries.len() ==> (#[trigger] entries[j]).0@ != key,
    ensures
        last_index(entries, key) == i,
{
    lemma_last_index(entries, key);
    let found = last_index(entries, key);
    if found > i {
        assert(entries[found].0@ == key);
    }
}

/// The members that a list of entries stands for: each key with the value
/// of the last entry under it.
pub open spec fn entries_map(entries: Seq<(String, Json)>) -> Map<Seq<char>, JsonValue> {
    Map::new(
        |key: Seq<char>| last_index(entries, key) >= 0,
        |key: Seq<char>|
            {
                let i = last_index(entries, key);
                if 0 <= i < entries.len() {
                    entries[i].1@
                } else {
                    JsonValue::Null
                }
            },
    )
}

/// The model of an object is the members that its entries stand for.
pub proof fn lemma_object_view(entries: Vec<(String, Json)>)
    ensures
        Json::Object(entries)@ == JsonValue::Object(entries_map(entries@)),
{
    assert(Json::Object(entries)@->Object_0 =~= entries_map(entries@));
}

/// One more entry at the end puts its value under its key and leaves the
/// other keys as they were.
pub proof fn lemma_entries_push(entries: Seq<(String, Json)>, key: String, value: Json)
    ensures
        entries_map(entries.push((key, value))) == entries_map(entries).insert(key@, value@),
{
    let after = entries.push((key, value));
    assert(after.drop_last() =~= entries);
    assert forall|k: Seq<char>| entries_map(after).contains_key(k) == entries_map(entries).insert(
        key@,
        value@,
    ).contains_key(k) by {
        lemma_last_index(entries, k);
    }
    assert forall|k: Seq<char>| entries_map(after).contains_key(k) implies entries_map(after)[k]
        == entries_map(entries).insert(key@, value@)[k] by {
        lemma_last_index(entries, k);
        if k != key@ {
            let i = last_index(entries, k);
            assert(after[i] == entries[i]);
        }
    }
    assert(entries_map(after) =~= entries_map(entries).insert(key@, value@));
}

impl Clone for Json {
    /// A copy with the same model.
    fn clone(&self) -> (copy: Json)
        ensures
            copy@ == self@,
    {
        let value = export(self);
        import(&value)
    }
}

impl Json {
    /// Reads `text` as one JSON document. The error carries the reader's
    /// message.
    pub fn parse(text: &str) -> (r: Result<Json, String>)
        ensures
            match r {
                Ok(json) => read_as_json(text@) == Ok::<JsonValue, Seq<char>>(json@),
                Err(message) => read_as_json(text@) == Err::<JsonValue, Seq<char>>(message@),
            },
    {
        match decode(text) {
            Ok(value) => Ok(import(&value)),
            Err(error) => Err(error_text(&error)),
        }
    }

    /// The indented rendering of this document, or `None` where the printer
    /// gives none.
    pub fn pretty(&self) -> (r: Option<String>)
        ensures
            match r {
                Some(text) => pretty_text(self@) == Some(text@),
                None => pretty_text(self@) is None,
            },
    {
        let value = export(self);
        match encode_pretty(&value) {
            Ok(text) => Some(text),
            Err(_) => None,
        }
    }

    /// The same document as a `serde_json::Value`.
    pub fn to_value(&self) -> (value: serde_json::Value)
        ensures
            tree_of(value) == self@,
    {
        export(self)
    }

    /// The document that `value` holds.
    pub fn from_value(value: &serde_json::Value) -> (json: Json)
        ensures
            json@ == tree_of(*value),
    {
        import(value)
    }

    /// The number `i`.
    pub fn from_i64(i: i64) -> (json: Json)
        ensures
            json@.as_int() == Some(i as int),
            json@ is Number,
    {
        Json::Number(number_from_i64(i))
    }

    /// The string `text`.
    pub fn from_text(text: &str) -> (json: Json)
        ensures
            json@ == JsonValue::Str(text@),
    {
        Json::Str(text.to_owned())
    }

    /// An object without entries.
    pub fn object() -> (json: Json)
        ensures
            json@ == JsonValue::Object(Map::empty()),
    {
        let json = Json::Object(Vec::new());
        proof {
            assert(json@->Object_0 =~= Map::empty());
        }
        json
    }

    /// Puts `value` under `key` where this is an object, replacing what was
    /// there; any other document is left as it is.
    pub fn insert(&mut self, key: &str, value: Json)
        ensures
            match old(self)@ {
                JsonValue::Object(map) => final(self)@ == JsonValue::Object(
                    map.insert(key@, value@),
                ),
                _ => *final(self) == *old(self),
            },
    {
        match self {
            Json::Object(entries) => {
                let ghost before = *entries;
                let owned = key.to_owned();
                entries.push((owned, value));
                proof {
                    lemma_object_view(before);
                    lemma_object_view(*entries);
                    lemma_entries_push(before@, owned, value);
                }
            },
            _ => {},
        }
    }

    /// The value under `key`, where this is an object that has the key.
    pub fn member(&self, key: &str) -> (r: Option<&Json>)
        ensures
            match r {
                Some(found) => self@.member(key@) == Some(found@),
                None => self@.member(key@) is None,
            },
    {
        match self {
            Json::Object(entries) => {
                let mut i: usize = entries.len();
                while i > 0
                    invariant
                        *self == Json::Object(*entries),
                        i <= entries@.len(),
                        forall|j: int| i <= j < entries@.len() ==> (#[trigger] entries@[j]).0@ != key@,
                    decreases i,
                {
                    i -= 1;
                    if same_text(entries[i].0.as_str(), key) {
                        proof {
                            lemma_last_index_is(entries@, key@, i as int);
                            assert(self@ is Object);
                            assert(self@->Object_0.contains_key(key@));
                            assert(self@->Object_0[key@] == entries@[i as int].1@);
                        }
                        return Some(&entries[i].1);
                    }
                }
                proof {
                    lemma_last_index_is(entries@, key@, -1);
                }
                None
            },
            _ => None,
        }
    }

    /// The element at `index`, where this is an array that long.
    pub fn item(&self, index: usize) -> (r: Option<&Json>)
        ensures
            match r {
                Some(found) => self@.item(index as int) == Some(found@),
                None => self@.item(index as int) is None,
            },
    {
        match self {
            Json::Array(items) => if index < items.len() {
                Some(&items[index])
            } else {
                None
            },
            _ => None,
        }
    }

    /// The text, where this is a string.
    pub fn as_str(&self) -> (r: Option<&str>)
        ensures
            match r {
                Some(text) => self@.as_str() == Some(text@),
                None => self@.as_str() is None,
            },
    {
        match self {
            Json::Str(text) => Some(text.as_str()),
            _ => None,
        }
    }

    /// The integer, where this is a number that is one and fits.
    pub fn as_i64(&self) -> (r: Option<i64>)
        ensures
            match r {
                Some(i) => self@.as_int() == Some(i as int),
                None => self@.as_int() is None,
            },
    {
        match self {
            Json::Number(number) => number_as_i64(number),
            _ => None,
        }
    }
}

} // verus!
