//! Documents: the values of a JSON text and of a YAML text, as far as this
//! library reads them.

use crate::text::str_eq;
use serde_yaml::Value;
use vstd::prelude::*;

verus! {

/// A value of a JSON text, with its `Debug` form.
#[derive(Debug, PartialEq)]
pub struct Json {
    pub kind: JsonKind,
    pub shown: String,
}

/// What a JSON value is.
#[derive(Debug, PartialEq)]
pub enum JsonKind {
    Null,
    Bool(bool),
    /// A number; `unsigned` holds it if it is an integer from 0 to 2^64 - 1.
    Number { unsigned: Option<u64> },
    Text(String),
    Array(Vec<Json>),
    /// The members of an object, each name once.
    Object(Vec<(String, Json)>),
}

/// A number of a YAML text.
#[derive(Debug, Clone, PartialEq)]
pub struct YamlNumber {
    /// The number, if it is an integer from -2^63 to 2^63 - 1.
    pub integer: Option<i64>,
    /// The number as a binary64 floating-point number, by its 64 bits.
    pub bits: u64,
    /// That floating-point number in decimal notation.
    pub shown: String,
}

/// A value of a YAML text.
#[derive(Debug, PartialEq)]
pub enum Yaml {
    Null,
    Bool(bool),
    Number(YamlNumber),
    Text(String),
    Sequence(Vec<Yaml>),
    /// The entries of a mapping, in the order of the text.
    Mapping(Vec<(Yaml, Yaml)>),
    /// A value under a tag.
    Tagged(Box<Yaml>),
}

/// The member `name` of the entries, if there is one.
pub open spec fn member_of(entries: Seq<(String, Json)>, name: Seq<char>) -> Option<Json>
    decreases entries.len(),
{
    if entries.len() == 0 {
        None
    } else if entries[0].0@ == name {
        Some(entries[0].1)
    } else {
        member_of(entries.drop_first(), name)
    }
}

impl Json {
    /// The member `name` of an object; nothing for a value that is no
    /// object or has no such member.
    pub open spec fn member(self, name: Seq<char>) -> Option<Json> {
        match self.kind {
            JsonKind::Object(entries) => member_of(entries@, name),
            _ => None,
        }
    }

    /// The member `name` of an object.
    pub fn get(&self, name: &str) -> (found: Option<&Json>)
        ensures
            match found {
                Some(value) => self.member(name@) == Some(*value),
                None => self.member(name@) is None,
            },
    {
        match &self.kind {
            JsonKind::Object(entries) => {
                assert(entries@.skip(0) =~= entries@);
                let mut i: usize = 0;
                while i < entries.len()
                    invariant
                        i <= entries@.len(),
                        self.member(name@) == member_of(entries@, name@),
                        member_of(entries@, name@) == member_of(entries@.skip(i as int), name@),
                    decreases entries@.len() - i,
                {
                    assert(entries@.skip(i as int).drop_first() =~= entries@.skip(i + 1));
                    assert(entries@.skip(i as int)[0] == entries@[i as int]);
                    if str_eq(entries[i].0.as_str(), name) {
                        return Some(&entries[i].1);
                    }
                    i = i + 1;
                }
                None
            },
            _ => None,
        }
    }
}

impl Json {
    /// The items of an array.
    pub open spec fn items(self) -> Option<Seq<Json>> {
        match self.kind {
            JsonKind::Array(items) => Some(items@),
            _ => None,
        }
    }

    /// The items of an array.
    pub fn as_array(&self) -> (found: Option<&Vec<Json>>)
        ensures
            match found {
                Some(items) => self.items() == Some(items@),
                None => self.items() is None,
            },
    {
        match &self.kind {
            JsonKind::Array(items) => Some(items),
            _ => None,
        }
    }

    /// The members of an object.
    pub open spec fn members(self) -> Option<Seq<(String, Json)>> {
        match self.kind {
            JsonKind::Object(members) => Some(members@),
            _ => None,
        }
    }

    /// The members of an object.
    pub fn as_object(&self) -> (found: Option<&Vec<(String, Json)>>)
        ensures
            match found {
                Some(members) => self.members() == Some(members@),
                None => self.members() is None,
            },
    {
        match &self.kind {
            JsonKind::Object(members) => Some(members),
            _ => None,
        }
    }

    /// The string of a string value.
    pub open spec fn string(self) -> Option<String> {
        match self.kind {
            JsonKind::Text(s) => Some(s),
            _ => None,
        }
    }

    /// The string of a string value.
    pub fn as_string(&self) -> (found: Option<&String>)
        ensures
            match found {
                Some(s) => self.string() == Some(*s),
                None => self.string() is None,
            },
    {
        match &self.kind {
            JsonKind::Text(s) => Some(s),
            _ => None,
        }
    }

    /// The integer of a number that is one from 0 to 2^64 - 1.
    pub open spec fn unsigned(self) -> Option<u64> {
        match self.kind {
            JsonKind::Number { unsigned } => unsigned,
            _ => None,
        }
    }

    /// The integer of a number that is one from 0 to 2^64 - 1.
    pub fn as_u64(&self) -> (found: Option<u64>)
        ensures
            found == self.unsigned(),
    {
        match &self.kind {
            JsonKind::Number { unsigned } => *unsigned,
            _ => None,
        }
    }

    /// The items of the member `name` that is an array.
    pub open spec fn array_member(self, name: Seq<char>) -> Option<Seq<Json>> {
        match self.member(name) {
            Some(value) => value.items(),
            None => None,
        }
    }

    /// The items of the member `name` that is an array.
    pub fn get_array(&self, name: &str) -> (found: Option<&Vec<Json>>)
        ensures
            match found {
                Some(items) => self.array_member(name@) == Some(items@),
                None => self.array_member(name@) is None,
            },
    {
        match self.get(name) {
            Some(value) => value.as_array(),
            None => None,
        }
    }
}

impl Yaml {
    /// The value under all its tags.
    pub open spec fn untagged(self) -> Yaml
        decreases self,
    {
        match self {
            Yaml::Tagged(inner) => inner.untagged(),
            _ => self,
        }
    }

    /// The value under all its tags.
    pub fn untag(&self) -> (inner: &Yaml)
        ensures
            *inner == self.untagged(),
        decreases self,
    {
        match self {
            Yaml::Tagged(inner) => inner.untag(),
            _ => self,
        }
    }

    /// The text of a string value.
    pub open spec fn text(self) -> Option<Seq<char>> {
        match self.untagged() {
            Yaml::Text(s) => Some(s@),
            _ => None,
        }
    }

    /// The text of a string value.
    pub fn as_str(&self) -> (found: Option<&str>)
        ensures
            match found {
                Some(s) => self.text() == Some(s@),
                None => self.text() is None,
            },
    {
        match self.untag() {
            Yaml::Text(s) => Some(s.as_str()),
            _ => None,
        }
    }

    /// The entries of a mapping.
    pub open spec fn entries(self) -> Option<Seq<(Yaml, Yaml)>> {
        match self.untagged() {
            Yaml::Mapping(m) => Some(m@),
            _ => None,
        }
    }

    /// The entries of a mapping.
    pub fn as_mapping(&self) -> (found: Option<&Vec<(Yaml, Yaml)>>)
        ensures
            match found {
                Some(m) => self.entries() == Some(m@),
                None => self.entries() is None,
            },
    {
        match self.untag() {
            Yaml::Mapping(m) => Some(m),
            _ => None,
        }
    }

    /// The items of a sequence.
    pub open spec fn items(self) -> Option<Seq<Yaml>> {
        match self.untagged() {
            Yaml::Sequence(s) => Some(s@),
            _ => None,
        }
    }

    /// The items of a sequence.
    pub fn as_sequence(&self) -> (found: Option<&Vec<Yaml>>)
        ensures
            match found {
                Some(s) => self.items() == Some(s@),
                None => self.items() is None,
            },
    {
        match self.untag() {
            Yaml::Sequence(s) => Some(s),
            _ => None,
        }
    }

    /// The number of a number value.
    pub open spec fn number(self) -> Option<YamlNumber> {
        match self.untagged() {
            Yaml::Number(n) => Some(n),
            _ => None,
        }
    }

    /// The number of a number value.
    pub fn as_number(&self) -> (found: Option<&YamlNumber>)
        ensures
            match found {
                Some(n) => self.number() == Some(*n),
                None => self.number() is None,
            },
    {
        match self.untag() {
            Yaml::Number(n) => Some(n),
            _ => None,
        }
    }

    /// The integer of a number value that is one.
    pub open spec fn integer(self) -> Option<i64> {
        match self.number() {
            Some(n) => n.integer,
            None => None,
        }
    }

    /// The integer of a number value that is one.
    pub fn as_i64(&self) -> (found: Option<i64>)
        ensures
            found == self.integer(),
    {
        match self.as_number() {
            Some(n) => n.integer,
            None => None,
        }
    }
}

/// The value of the first entry whose key is the text `key`.
pub open spec fn entry_of(entries: Seq<(Yaml, Yaml)>, key: Seq<char>) -> Option<Yaml>
    decreases entries.len(),
{
    if entries.len() == 0 {
        None
    } else if entries[0].0.text() == Some(key) {
        Some(entries[0].1)
    } else {
        entry_of(entries.drop_first(), key)
    }
}

/// Looks a text key up in the entries of a mapping.
pub fn map_get<'a>(entries: &'a Vec<(Yaml, Yaml)>, key: &str) -> (found: Option<&'a Yaml>)
    ensures
        match found {
            Some(value) => entry_of(entries@, key@) == Some(*value),
            None => entry_of(entries@, key@) is None,
        },
{
    assert(entries@.skip(0) =~= entries@);
    let mut i: usize = 0;
    while i < entries.len()
        invariant
            i <= entries@.len(),
            entry_of(entries@, key@) == entry_of(entries@.skip(i as int), key@),
        decreases entries@.len() - i,
    {
        assert(entries@.skip(i as int).drop_first() =~= entries@.skip(i + 1));
        assert(entries@.skip(i as int)[0] == entries@[i as int]);
        match entries[i].0.as_str() {
            Some(s) => {
                if str_eq(s, key) {
                    return Some(&entries[i].1);
                }
            },
            None => {},
        }
        i = i + 1;
    }
    None
}

/// The value type of the crate `serde_json`.
#[verifier::external_type_specification]
#[verifier::external_body]
pub struct ExJsonValue(serde_json::Value);

/// The value type of the crate `serde_yaml`.
#[verifier::external_type_specification]
#[verifier::external_body]
pub struct ExYamlValue(Value);

/// The number type of the crate `serde_yaml`.
#[verifier::external_type_specification]
#[verifier::external_body]
pub struct ExYamlNumber(serde_yaml::Number);

/// What `serde_json` reads from a text: the value of the text, or the words
/// of the error.
pub uninterp spec fn json_document(text: Seq<char>) -> Result<Json, Seq<char>>;

/// What `serde_yaml` reads from a text: the value of the text, or the words
/// of the error.
pub uninterp spec fn yaml_document(text: Seq<char>) -> Result<Yaml, Seq<char>>;

/// Copies a `serde_json::Value` into a `Json`: each variant into the like
/// variant, a number with what `Number::as_u64` gives, the members of an
/// object in the order of `Map::iter`, and every value with its `Debug` form.
#[verifier::external_body]
fn json_node(value: &serde_json::Value) -> Json {
    let kind = match value {
        serde_json::Value::Null => JsonKind::Null,
        serde_json::Value::Bool(b) => JsonKind::Bool(*b),
        serde_json::Value::Number(n) => JsonKind::Number { unsigned: n.as_u64() },
        serde_json::Value::String(s) => JsonKind::Text(s.clone()),
        serde_json::Value::Array(a) => JsonKind::Array(a.iter().map(json_node).collect()),
        serde_json::Value::Object(m) => {
            JsonKind::Object(m.iter().map(|(k, v)| (k.clone(), json_node(v))).collect())
        },
    };
    Json { kind, shown: format!("{:?}", value) }
}

/// Copies a `serde_yaml::Number` into a `YamlNumber`: what `Number::as_i64`
/// gives, and what `Number::as_f64` gives by its bits and in decimal
/// notation.
#[verifier::external_body]
fn yaml_number(number: &serde_yaml::Number) -> YamlNumber {
    YamlNumber {
        integer: number.as_i64(),
        bits: number.as_f64().map_or(0, |x| x.to_bits()),
        shown: number.as_f64().map_or(String::new(), |x| x.to_string()),
    }
}

/// Copies a `serde_yaml::Value` into a `Yaml`: each variant into the like
/// variant, the entries of a mapping in the order of `Mapping::iter`.
#[verifier::external_body]
fn yaml_node(value: &Value) -> Yaml {
    match value {
        Value::Null => Yaml::Null,
        Value::Bool(b) => Yaml::Bool(*b),
        Value::Number(n) => Yaml::Number(yaml_number(n)),
        Value::String(s) => Yaml::Text(s.clone()),
        Value::Sequence(s) => Yaml::Sequence(s.iter().map(yaml_node).collect()),
        Value::Mapping(m) => {
            Yaml::Mapping(m.iter().map(|(k, v)| (yaml_node(k), yaml_node(v))).collect())
        },
        Value::Tagged(t) => Yaml::Tagged(Box::new(yaml_node(&t.value))),
    }
}

/// `serde_json::from_str` at the type `serde_json::Value`: the value of a
/// JSON text, or the words of the error for a text that is not JSON. The
/// contract names the result.
#[verifier::external_body]
pub(crate) fn parse_json(text: &str) -> (result: Result<Json, String>)
    ensures
        match result {
            Ok(document) => json_document(text@) == Ok::<Json, Seq<char>>(document),
            Err(words) => json_document(text@) == Err::<Json, Seq<char>>(words@),
        },
{
    match serde_json::from_str::<serde_json::Value>(text) {
        Ok(value) => Ok(json_node(&value)),
        Err(error) => Err(error.to_string()),
    }
}

/// `serde_yaml::from_str` at the type `serde_yaml::Value`: the value of a
/// YAML text, or the words of the error for a text that is not YAML. The
/// contract names the result.
#[verifier::external_body]
pub(crate) fn parse_yaml(text: &str) -> (result: Result<Yaml, String>)
    ensures
        match result {
            Ok(document) => yaml_document(text@) == Ok::<Yaml, Seq<char>>(document),
            Err(words) => yaml_document(text@) == Err::<Yaml, Seq<char>>(words@),
        },
{
    match serde_yaml::from_str::<Value>(text) {
        Ok(value) => Ok(yaml_node(&value)),
        Err(error) => Err(error.to_string()),
    }
}

} // verus!
