use crate::text::str_eq;
use serde_json::{Number, Value};
use vstd::prelude::*;

verus! {

/// A JSON number: a non-negative integer, a signed integer, or, for a number
/// that is neither, its JSON text.
#[derive(Debug)]
pub enum JsonNumber {
    PosInt(u64),
    NegInt(i64),
    Float(String),
}

/// A JSON document held as plain values. An object keeps its members in the
/// order they were written; a later member with the same key hides an earlier
/// one.
#[derive(Debug)]
pub enum Json {
    Null,
    Bool(bool),
    Number(JsonNumber),
    Str(String),
    Array(Vec<Json>),
    Object(Vec<(String, Json)>),
}

/// The mathematical value of a JSON document. Both integer forms of a number
/// denote the same integer.
pub enum JsonView {
    Null,
    Bool(bool),
    Int(int),
    Float(Seq<char>),
    Str(Seq<char>),
    Array(Seq<JsonView>),
    Object(Seq<(Seq<char>, JsonView)>),
}

impl View for JsonNumber {
    type V = JsonView;

    open spec fn view(&self) -> JsonView {
        match self {
            JsonNumber::PosInt(n) => JsonView::Int(*n as int),
            JsonNumber::NegInt(n) => JsonView::Int(*n as int),
            JsonNumber::Float(text) => JsonView::Float(text@),
        }
    }
}

impl View for Json {
    type V = JsonView;

    open spec fn view(&self) -> JsonView
        decreases self,
    {
        match self {
            Json::Null => JsonView::Null,
            Json::Bool(b) => JsonView::Bool(*b),
            Json::Number(n) => n@,
            Json::Str(s) => JsonView::Str(s@),
            Json::Array(items) => JsonView::Array(view_items(items@)),
            Json::Object(fields) => JsonView::Object(view_fields(fields@)),
        }
    }
}

/// The views of a sequence of documents, one for one.
pub open spec fn view_items(items: Seq<Json>) -> Seq<JsonView>
    decreases items,
{
    if items.len() == 0 {
        Seq::empty()
    } else {
        view_items(items.drop_last()).push(items.last()@)
    }
}

/// The views of a sequence of object members, one for one.
pub open spec fn view_fields(fields: Seq<(String, Json)>) -> Seq<(Seq<char>, JsonView)>
    decreases fields,
{
    if fields.len() == 0 {
        Seq::empty()
    } else {
        view_fields(fields.drop_last()).push((fields.last().0@, fields.last().1@))
    }
}

/// `view_items` keeps the length and maps each document to its view.
pub proof fn lemma_view_items(items: Seq<Json>)
    ensures
        view_items(items).len() == items.len(),
        forall|i: int| 0 <= i < items.len() ==> #[trigger] view_items(items)[i] == items[i]@,
    decreases items.len(),
{
    if items.len() > 0 {
        lemma_view_items(items.drop_last());
        assert(view_items(items) == view_items(items.drop_last()).push(items.last()@));
    } else {
        assert(view_items(items) == Seq::<JsonView>::empty());
    }
}

/// `view_fields` keeps the length and maps each member to its view.
pub proof fn lemma_view_fields(fields: Seq<(String, Json)>)
    ensures
        view_fields(fields).len() == fields.len(),
        forall|i: int|
            0 <= i < fields.len() ==> #[trigger] view_fields(fields)[i] == (
                fields[i].0@,
                fields[i].1@,
            ),
    decreases fields.len(),
{
    if fields.len() > 0 {
        lemma_view_fields(fields.drop_last());
        assert(view_fields(fields) == view_fields(fields.drop_last()).push(
            (fields.last().0@, fields.last().1@),
        ));
    } else {
        assert(view_fields(fields) == Seq::<(Seq<char>, JsonView)>::empty());
    }
}

/// The value that an object's members hold under `key`: that of the last
/// member with this key.
pub open spec fn lookup(fields: Seq<(Seq<char>, JsonView)>, key: Seq<char>) -> Option<JsonView>
    decreases fields.len(),
{
    if fields.len() == 0 {
        None
    } else if fields.last().0 == key {
        Some(fields.last().1)
    } else {
        lookup(fields.drop_last(), key)
    }
}

impl JsonView {
    /// The member under `key` of an object; nothing for any other document.
    pub open spec fn get(self, key: Seq<char>) -> Option<JsonView> {
        match self {
            JsonView::Object(fields) => lookup(fields, key),
            _ => None,
        }
    }

    /// Member access that yields `Null` where `get` yields nothing.
    pub open spec fn at(self, key: Seq<char>) -> JsonView {
        match self.get(key) {
            Some(v) => v,
            None => JsonView::Null,
        }
    }

    /// The number as a `u64`, if it is an integer in that range.
    pub open spec fn as_u64(self) -> Option<u64> {
        match self {
            JsonView::Int(n) => if 0 <= n <= u64::MAX {
                Some(n as u64)
            } else {
                None
            },
            _ => None,
        }
    }

    /// The number as an `i64`, if it is an integer in that range.
    pub open spec fn as_i64(self) -> Option<i64> {
        match self {
            JsonView::Int(n) => if i64::MIN <= n <= i64::MAX {
                Some(n as i64)
            } else {
                None
            },
            _ => None,
        }
    }

    pub open spec fn as_bool(self) -> Option<bool> {
        match self {
            JsonView::Bool(b) => Some(b),
            _ => None,
        }
    }

    pub open spec fn as_str(self) -> Option<Seq<char>> {
        match self {
            JsonView::Str(s) => Some(s),
            _ => None,
        }
    }

    pub open spec fn as_array(self) -> Option<Seq<JsonView>> {
        match self {
            JsonView::Array(items) => Some(items),
            _ => None,
        }
    }

    pub open spec fn is_number(self) -> bool {
        self is Int || self is Float
    }

    pub open spec fn is_object(self) -> bool {
        self is Object
    }
}

/// A member that matches `key` and has no match after it is the one found.
pub proof fn lemma_lookup_found(fields: Seq<(Seq<char>, JsonView)>, key: Seq<char>, k: int)
    requires
        0 <= k < fields.len(),
        fields[k].0 == key,
        forall|j: int| k < j < fields.len() ==> fields[j].0 != key,
    ensures
        lookup(fields, key) == Some(fields[k].1),
    decreases fields.len(),
{
    if k < fields.len() - 1 {
        lemma_lookup_found(fields.drop_last(), key, k);
    }
}

/// Where no member matches `key`, nothing is found.
pub proof fn lemma_lookup_missing(fields: Seq<(Seq<char>, JsonView)>, key: Seq<char>)
    requires
        forall|j: int| 0 <= j < fields.len() ==> fields[j].0 != key,
    ensures
        lookup(fields, key) is None,
    decreases fields.len(),
{
    if fields.len() > 0 {
        lemma_lookup_missing(fields.drop_last(), key);
    }
}

impl JsonNumber {
    /// Whether two numbers denote the same value.
    pub fn same(&self, other: &JsonNumber) -> (r: bool)
        ensures
            r == (self@ == other@),
    {
        match (self, other) {
            (JsonNumber::PosInt(a), JsonNumber::PosInt(b)) => *a == *b,
            (JsonNumber::NegInt(a), JsonNumber::NegInt(b)) => *a == *b,
            (JsonNumber::PosInt(a), JsonNumber::NegInt(b)) => *b >= 0 && *a == *b as u64,
            (JsonNumber::NegInt(a), JsonNumber::PosInt(b)) => *a >= 0 && *a as u64 == *b,
            (JsonNumber::Float(a), JsonNumber::Float(b)) => str_eq(a.as_str(), b.as_str()),
            _ => false,
        }
    }

    /// A copy with the same value.
    pub fn duplicate(&self) -> (r: JsonNumber)
        ensures
            r@ == self@,
    {
        match self {
            JsonNumber::PosInt(n) => JsonNumber::PosInt(*n),
            JsonNumber::NegInt(n) => JsonNumber::NegInt(*n),
            JsonNumber::Float(text) => JsonNumber::Float(text.clone()),
        }
    }
}

impl Json {
    /// The member under `key`, if this is an object that has one.
    pub fn get(&self, key: &str) -> (r: Option<&Json>)
        ensures
            match r {
                Some(v) => self@.get(key@) == Some(v@),
                None => self@.get(key@) is None,
            },
    {
        match self {
            Json::Object(fields) => {
                proof {
                    lemma_view_fields(fields@);
                }
                let mut i: usize = fields.len();
                while i > 0
                    invariant
                        i <= fields.len(),
                        self@ == JsonView::Object(view_fields(fields@)),
                        view_fields(fields@).len() == fields.len(),
                        forall|j: int|
                            0 <= j < fields.len() ==> #[trigger] view_fields(fields@)[j] == (
                                fields[j].0@,
                                fields[j].1@,
                            ),
                        forall|j: int| i <= j < fields.len() ==> fields[j].0@ != key@,
                    decreases i,
                {
                    i -= 1;
                    if str_eq(fields[i].0.as_str(), key) {
                        proof {
                            lemma_lookup_found(self@->Object_0, key@, i as int);
                        }
                        return Some(&fields[i].1);
                    }
                }
                proof {
                    lemma_lookup_missing(self@->Object_0, key@);
                }
                None
            },
            Json::Number(n) => {
                assert(!(n@ is Object));
                None
            },
            _ => None,
        }
    }

    /// Whether this is `null`.
    pub fn is_null(&self) -> (r: bool)
        ensures
            r == (self@ is Null),
    {
        match self {
            Json::Null => true,
            Json::Number(n) => {
                assert(!(n@ is Null));
                false
            },
            _ => false,
        }
    }

    /// Whether this is a number.
    pub fn is_number(&self) -> (r: bool)
        ensures
            r == self@.is_number(),
    {
        match self {
            Json::Number(_) => true,
            _ => false,
        }
    }

    /// Whether this is an object.
    pub fn is_object(&self) -> (r: bool)
        ensures
            r == self@.is_object(),
    {
        match self {
            Json::Object(_) => true,
            Json::Number(n) => {
                assert(!(n@ is Object));
                false
            },
            _ => false,
        }
    }

    /// The number as a `u64`, if it is an integer in that range.
    pub fn as_u64(&self) -> (r: Option<u64>)
        ensures
            r == self@.as_u64(),
    {
        match self {
            Json::Number(JsonNumber::PosInt(n)) => Some(*n),
            Json::Number(JsonNumber::NegInt(n)) => if *n >= 0 {
                Some(*n as u64)
            } else {
                None
            },
            _ => None,
        }
    }

    /// The number as an `i64`, if it is an integer in that range.
    pub fn as_i64(&self) -> (r: Option<i64>)
        ensures
            r == self@.as_i64(),
    {
        match self {
            Json::Number(JsonNumber::PosInt(n)) => if *n <= 0x7fff_ffff_ffff_ffff {
                Some(*n as i64)
            } else {
                None
            },
            Json::Number(JsonNumber::NegInt(n)) => Some(*n),
            _ => None,
        }
    }

    /// The boolean, if this is one.
    pub fn as_bool(&self) -> (r: Option<bool>)
        ensures
            r == self@.as_bool(),
    {
        match self {
            Json::Bool(b) => Some(*b),
            Json::Number(n) => {
                assert(!(n@ is Bool));
                None
            },
            _ => None,
        }
    }

    /// The number itself, if this is one.
    pub fn as_number(&self) -> (r: Option<&JsonNumber>)
        ensures
            match r {
                Some(n) => self@ == n@,
                None => !self@.is_number(),
            },
    {
        match self {
            Json::Number(n) => Some(n),
            _ => None,
        }
    }

    /// The text, if this is a string.
    pub fn as_str(&self) -> (r: Option<&str>)
        ensures
            match r {
                Some(s) => self@.as_str() == Some(s@),
                None => self@.as_str() is None,
            },
    {
        match self {
            Json::Str(s) => Some(s.as_str()),
            Json::Number(n) => {
                assert(!(n@ is Str));
                None
            },
            _ => None,
        }
    }

    /// The items, if this is an array.
    pub fn as_array(&self) -> (r: Option<&Vec<Json>>)
        ensures
            match r {
                Some(items) => self@.as_array() == Some(view_items(items@)),
                None => self@.as_array() is None,
            },
    {
        match self {
            Json::Array(items) => {
                Some(items)
            },
            Json::Number(n) => {
                assert(!(n@ is Array));
                None
            },
            _ => None,
        }
    }

    /// Whether two documents have the same value.
    pub fn same(&self, other: &Json) -> (r: bool)
        ensures
            r == (self@ == other@),
        decreases self,
    {
        broadcast use vstd::std_specs::vec::axiom_vec_index_decreases;

        match (self, other) {
            (Json::Null, Json::Null) => true,
            (Json::Bool(a), Json::Bool(b)) => *a == *b,
            (Json::Number(a), Json::Number(b)) => a.same(b),
            (Json::Str(a), Json::Str(b)) => str_eq(a.as_str(), b.as_str()),
            (Json::Array(a), Json::Array(b)) => {
                proof {
                    lemma_view_items(a@);
                    lemma_view_items(b@);
                }
                if a.len() != b.len() {
                    return false;
                }
                let mut i: usize = 0;
                while i < a.len()
                    invariant
                        i <= a.len(),
                        a.len() == b.len(),
                        self == Json::Array(*a),
                        self@ == JsonView::Array(view_items(a@)),
                        other@ == JsonView::Array(view_items(b@)),
                        view_items(a@).len() == a.len(),
                        view_items(b@).len() == b.len(),
                        forall|j: int| 0 <= j < a.len() ==> #[trigger] view_items(a@)[j] == a[j]@,
                        forall|j: int| 0 <= j < b.len() ==> #[trigger] view_items(b@)[j] == b[j]@,
                        forall|j: int| 0 <= j < i ==> a[j]@ == b[j]@,
                    decreases a.len() - i,
                {
                    if !a[i].same(&b[i]) {
                        assert(view_items(a@)[i as int] != view_items(b@)[i as int]);
                        return false;
                    }
                    i += 1;
                }
                assert(view_items(a@) =~= view_items(b@));
                true
            },
            (Json::Object(a), Json::Object(b)) => {
                proof {
                    lemma_view_fields(a@);
                    lemma_view_fields(b@);
                }
                if a.len() != b.len() {
                    return false;
                }
                let mut i: usize = 0;
                while i < a.len()
                    invariant
                        i <= a.len(),
                        a.len() == b.len(),
                        self == Json::Object(*a),
                        self@ == JsonView::Object(view_fields(a@)),
                        other@ == JsonView::Object(view_fields(b@)),
                        view_fields(a@).len() == a.len(),
                        view_fields(b@).len() == b.len(),
                        forall|j: int|
                            0 <= j < a.len() ==> #[trigger] view_fields(a@)[j] == (a[j].0@, a[j].1@),
                        forall|j: int|
                            0 <= j < b.len() ==> #[trigger] view_fields(b@)[j] == (b[j].0@, b[j].1@),
                        forall|j: int| 0 <= j < i ==> a[j].0@ == b[j].0@ && a[j].1@ == b[j].1@,
                    decreases a.len() - i,
                {
                    if !str_eq(a[i].0.as_str(), b[i].0.as_str()) || !a[i].1.same(&b[i].1) {
                        assert(view_fields(a@)[i as int] != view_fields(b@)[i as int]);
                        return false;
                    }
                    i += 1;
                }
                assert(view_fields(a@) =~= view_fields(b@));
                true
            },
            (Json::Number(a), _) => {
                assert(a@ is Int || a@ is Float);
                false
            },
            (_, Json::Number(b)) => {
                assert(b@ is Int || b@ is Float);
                false
            },
            _ => false,
        }
    }
}

impl Json {
    /// A copy with the same value.
    pub fn duplicate(&self) -> (r: Json)
        ensures
            r@ == self@,
        decreases self,
    {
        broadcast use vstd::std_specs::vec::axiom_vec_index_decreases;

        match self {
            Json::Null => Json::Null,
            Json::Bool(b) => Json::Bool(*b),
            Json::Number(n) => Json::Number(n.duplicate()),
            Json::Str(s) => Json::Str(s.clone()),
            Json::Array(items) => {
                let mut out: Vec<Json> = Vec::new();
                let mut i: usize = 0;
                while i < items.len()
                    invariant
                        i <= items.len(),
                        out.len() == i,
                        self == Json::Array(*items),
                        forall|j: int| 0 <= j < i ==> out[j]@ == items[j]@,
                    decreases items.len() - i,
                {
                    assert(decreases_to!(self => self->Array_0[i as int]));
                    let item = items[i].duplicate();
                    out.push(item);
                    i += 1;
                }
                proof {
                    lemma_view_items(items@);
                    lemma_view_items(out@);
                    assert(view_items(out@) =~= view_items(items@));
                }
                Json::Array(out)
            },
            Json::Object(fields) => {
                let mut out: Vec<(String, Json)> = Vec::new();
                let mut i: usize = 0;
                while i < fields.len()
                    invariant
                        i <= fields.len(),
                        out.len() == i,
                        self == Json::Object(*fields),
                        forall|j: int|
                            0 <= j < i ==> out[j].0@ == fields[j].0@ && out[j].1@ == fields[j].1@,
                    decreases fields.len() - i,
                {
                    let name = fields[i].0.clone();
                    assert(decreases_to!(self => self->Object_0[i as int].1));
                    let value = fields[i].1.duplicate();
                    out.push((name, value));
                    i += 1;
                }
                proof {
                    lemma_view_fields(fields@);
                    lemma_view_fields(out@);
                    assert(view_fields(out@) =~= view_fields(fields@));
                }
                Json::Object(out)
            },
        }
    }
}

impl Clone for Json {
    fn clone(&self) -> (r: Json)
        ensures
            r@ == self@,
    {
        self.duplicate()
    }
}

impl Clone for JsonNumber {
    fn clone(&self) -> (r: JsonNumber)
        ensures
            r@ == self@,
    {
        self.duplicate()
    }
}

/// `serde_json::Value`, carried from and to `serde_json` and never looked
/// into.
#[verifier::external_type_specification]
#[verifier::external_body]
pub struct ExJsonValue(Value);

/// `serde_json::Number`, carried from and to `serde_json` and never looked
/// into.
#[verifier::external_type_specification]
#[verifier::external_body]
pub struct ExJsonNumber(Number);

/// The document that `serde_json::from_str` reads from a text; nothing where
/// it rejects the text.
pub uninterp spec fn parsed(text: Seq<char>) -> Option<JsonView>;

/// The compact text that `serde_json` writes for a document.
pub uninterp spec fn rendered(doc: JsonView) -> Seq<char>;

/// The indented text that `serde_json` writes for a document.
pub uninterp spec fn rendered_pretty(doc: JsonView) -> Seq<char>;

/// Converts a `serde_json::Value`, variant by variant. A number that is no
/// 64-bit integer is kept as the text `serde_json` writes for it.
#[verifier::external_body]
fn from_value(value: &Value) -> Json {
    match value {
        Value::Null => Json::Null,
        Value::Bool(b) => Json::Bool(*b),
        Value::Number(n) => Json::Number(from_number(n)),
        Value::String(s) => Json::Str(s.clone()),
        Value::Array(items) => Json::Array(items.iter().map(from_value).collect()),
        Value::Object(members) => Json::Object(
            members.iter().map(|(k, v)| (k.clone(), from_value(v))).collect(),
        ),
    }
}

/// Converts a `serde_json::Number` by what its accessors `as_u64` and
/// `as_i64` give; a number that is neither is kept as its text.
#[verifier::external_body]
fn from_number(n: &Number) -> JsonNumber {
    match (n.as_u64(), n.as_i64()) {
        (Some(u), _) => JsonNumber::PosInt(u),
        (_, Some(i)) => JsonNumber::NegInt(i),
        _ => JsonNumber::Float(n.to_string()),
    }
}

/// Converts to a `serde_json::Value`, variant by variant.
#[verifier::external_body]
fn to_value(doc: &Json) -> Value {
    match doc {
        Json::Null => Value::Null,
        Json::Bool(b) => Value::from(*b),
        Json::Number(n) => to_number(n),
        Json::Str(s) => Value::from(s.as_str()),
        Json::Array(items) => Value::Array(items.iter().map(to_value).collect()),
        Json::Object(members) => Value::Object(
            members.iter().map(|(k, v)| (k.clone(), to_value(v))).collect(),
        ),
    }
}

/// Converts a number to a `serde_json::Value`. A number text that
/// `serde_json` does not read as a number becomes `null`.
#[verifier::external_body]
fn to_number(n: &JsonNumber) -> Value {
    match n {
        JsonNumber::PosInt(u) => Value::from(*u),
        JsonNumber::NegInt(i) => Value::from(*i),
        JsonNumber::Float(text) => text.parse::<Number>().map_or(Value::Null, Value::Number),
    }
}

impl Json {
    /// Reads a JSON text with `serde_json::from_str`. The result is the
    /// document `parsed` names for this text; on a text that is no JSON the
    /// error carries `serde_json`'s message.
    #[verifier::external_body]
    pub(crate) fn parse(text: &str) -> (r: Result<Json, String>)
        ensures
            match r {
                Ok(doc) => parsed(text@) == Some(doc@),
                Err(_) => parsed(text@) is None,
            },
    {
        match serde_json::from_str::<Value>(text) {
            Ok(value) => Ok(from_value(&value)),
            Err(e) => Err(e.to_string()),
        }
    }

    /// Writes the document as indented JSON text, as the alternate form of
    /// `serde_json::Value`'s `Display` does for the same value.
    #[verifier::external_body]
    pub(crate) fn render_pretty(&self) -> (r: String)
        ensures
            r@ == rendered_pretty(self@),
    {
        format!("{:#}", to_value(self))
    }

    /// Writes the document as compact JSON text, as `serde_json` does for
    /// the same value.
    #[verifier::external_body]
    pub(crate) fn render(&self) -> (r: String)
        ensures
            r@ == rendered(self@),
    {
        to_value(self).to_string()
    }
}

} // verus!
