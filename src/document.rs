//! Card documents: the members of a JSON object as the loader reads them, and
//! the lenient rules by which a property is read from them.
use vstd::prelude::*;
use serde_json::Value;
use crate::error::Error;
use crate::registry::{PropKind, Property, PropertySpec};
use crate::text::{parse_bool, parse_bool_spec, parse_i32, parse_i32_spec, parse_u32, parse_u32_spec};

verus! {

/// The value of one member of a card document. A number is kept as the text
/// that JSON writes for it; an array as its elements, each of them as text when
/// it is a string, and as its JSON text; an object as its JSON text.
#[derive(Debug)]
pub enum JsonValue {
    Null,
    Bool(bool),
    Number(String),
    Text(String),
    Array(Vec<Option<String>>, String),
    Object(String),
}

pub ghost enum JsonView {
    Null,
    Bool(bool),
    Number(Seq<char>),
    Text(Seq<char>),
    Array(Seq<Option<Seq<char>>>, Seq<char>),
    Object(Seq<char>),
}

pub open spec fn opt_text_view(o: Option<String>) -> Option<Seq<char>> {
    match o {
        Some(s) => Some(s@),
        None => None,
    }
}

impl View for JsonValue {
    type V = JsonView;

    open spec fn view(&self) -> JsonView {
        match self {
            JsonValue::Null => JsonView::Null,
            JsonValue::Bool(b) => JsonView::Bool(*b),
            JsonValue::Number(n) => JsonView::Number(n@),
            JsonValue::Text(s) => JsonView::Text(s@),
            JsonValue::Array(a, t) => JsonView::Array(a@.map_values(|o: Option<String>| opt_text_view(o)), t@),
            JsonValue::Object(t) => JsonView::Object(t@),
        }
    }
}

/// The members of a JSON object, by key.
pub struct Document {
    pub fields: Vec<(String, JsonValue)>,
}

impl View for Document {
    type V = Seq<(Seq<char>, JsonView)>;

    open spec fn view(&self) -> Seq<(Seq<char>, JsonView)> {
        self.fields@.map_values(|f: (String, JsonValue)| (f.0@, f.1@))
    }
}

/// What serde_json reads from a text: the members of the object it holds, or
/// nothing when the text is not one JSON object.
pub uninterp spec fn json_document(text: Seq<char>) -> Option<Seq<(Seq<char>, JsonView)>>;

/// Relies on `serde_json::from_str` to parse the text as one JSON value, and on
/// `Display` of `Number` and of `Value` and on `Value::as_str` for the members
/// it keeps.
#[verifier::external_body]
pub(crate) fn parse_document(text: &str) -> (r: Option<Document>)
    ensures
        match r {
            Some(d) => json_document(text@) == Some(d@),
            None => json_document(text@) is None,
        },
{
    let members = match serde_json::from_str::<Value>(text) {
        Ok(Value::Object(m)) => m,
        _ => return None,
    };
    Some(Document { fields: members.into_iter().map(|(k, v)| (k, match v {
        Value::Null => JsonValue::Null,
        Value::Bool(b) => JsonValue::Bool(b),
        Value::Number(n) => JsonValue::Number(n.to_string()),
        Value::String(s) => JsonValue::Text(s),
        Value::Array(a) => JsonValue::Array(a.iter().map(|e| e.as_str().map(String::from)).collect(), Value::Array(a).to_string()),
        Value::Object(m) => JsonValue::Object(Value::Object(m).to_string()),
    })).collect() })
}

/// The value of the first member named `key`.
pub open spec fn member(doc: Seq<(Seq<char>, JsonView)>, key: Seq<char>) -> Option<JsonView>
    decreases doc.len(),
{
    if doc.len() == 0 {
        None
    } else if doc[0].0 == key {
        Some(doc[0].1)
    } else {
        member(doc.skip(1), key)
    }
}

impl Document {
    pub fn get(&self, key: &str) -> (r: Option<&JsonValue>)
        ensures
            match r {
                Some(v) => member(self@, key@) == Some(v@),
                None => member(self@, key@) is None,
            },
    {
        let n = self.fields.len();
        let mut i: usize = 0;
        assert(self@.skip(0) =~= self@);
        while i < n
            invariant
                i <= n,
                n == self.fields@.len(),
                member(self@, key@) == member(self@.skip(i as int), key@),
            decreases n - i,
        {
            assert(self@.skip(i as int)[0] == (self.fields@[i as int].0@, self.fields@[i as int].1@));
            if crate::text::same_text(self.fields[i].0.as_str(), key) {
                return Some(&self.fields[i].1);
            }
            assert(self@.skip(i as int).skip(1) =~= self@.skip(i + 1));
            i = i + 1;
        }
        None
    }
}

/// The text that a scalar stands for when a required property is read: null
/// reads as empty text, which stands for the type's default. Arrays and objects
/// have none.
pub open spec fn scalar_text(v: JsonView) -> Option<Seq<char>> {
    match v {
        JsonView::Null => Some(Seq::empty()),
        JsonView::Bool(b) => Some(if b { "true"@ } else { "false"@ }),
        JsonView::Number(n) => Some(n),
        JsonView::Text(s) => Some(s),
        JsonView::Array(..) => None,
        JsonView::Object(_) => None,
    }
}

/// A required property as text; `None` when it is absent or not a scalar.
pub open spec fn required_text(doc: Seq<(Seq<char>, JsonView)>, key: Seq<char>) -> Option<Seq<char>> {
    match member(doc, key) {
        Some(v) => scalar_text(v),
        None => None,
    }
}

/// An optional property as text: none when absent or null; an array or an
/// object reads as its JSON text.
pub open spec fn optional_text(doc: Seq<(Seq<char>, JsonView)>, key: Seq<char>) -> Option<Seq<char>> {
    match member(doc, key) {
        None => None,
        Some(JsonView::Null) => None,
        Some(JsonView::Bool(b)) => Some(if b { "true"@ } else { "false"@ }),
        Some(JsonView::Number(n)) => Some(n),
        Some(JsonView::Text(s)) => Some(s),
        Some(JsonView::Array(_, t)) => Some(t),
        Some(JsonView::Object(t)) => Some(t),
    }
}

/// A boolean property that reads as false when absent or null; text must be
/// `true` or `false`.
pub open spec fn switch_spec(doc: Seq<(Seq<char>, JsonView)>, key: Seq<char>) -> Option<bool> {
    match member(doc, key) {
        None => Some(false),
        Some(JsonView::Null) => Some(false),
        Some(JsonView::Bool(b)) => Some(b),
        Some(JsonView::Text(s)) => parse_bool_spec(s),
        Some(_) => None,
    }
}

/// A list of strings: empty when absent or null; an array of strings otherwise.
pub open spec fn string_list_spec(doc: Seq<(Seq<char>, JsonView)>, key: Seq<char>) -> Option<Seq<Seq<char>>> {
    match member(doc, key) {
        None => Some(Seq::empty()),
        Some(JsonView::Null) => Some(Seq::empty()),
        Some(JsonView::Array(items, _)) => if forall|i: int| 0 <= i < items.len() ==> (#[trigger] items[i]) is Some {
            Some(items.map_values(|o: Option<Seq<char>>| o->0))
        } else {
            None
        },
        Some(_) => None,
    }
}

/// A value of a row of the index.
#[derive(Debug)]
pub enum SqlValue {
    Null,
    Integer(i64),
    Unsigned(u64),
    Text(String),
    Bool(bool),
}

pub ghost enum SqlView {
    Null,
    Integer(int),
    Text(Seq<char>),
    Bool(bool),
}

impl View for SqlValue {
    type V = SqlView;

    open spec fn view(&self) -> SqlView {
        match self {
            SqlValue::Null => SqlView::Null,
            SqlValue::Integer(i) => SqlView::Integer(*i as int),
            SqlValue::Unsigned(u) => SqlView::Integer(*u as int),
            SqlValue::Text(s) => SqlView::Text(s@),
            SqlValue::Bool(b) => SqlView::Bool(*b),
        }
    }
}

pub open spec fn opt_sql(o: Option<Seq<char>>) -> SqlView {
    match o {
        Some(s) => SqlView::Text(s),
        None => SqlView::Null,
    }
}

/// The value that a variant-specific property gives its column.
pub open spec fn property_spec(doc: Seq<(Seq<char>, JsonView)>, p: PropertySpec) -> Option<SqlView> {
    match p.kind {
        PropKind::Text => match required_text(doc, p.key) {
            Some(t) => Some(SqlView::Text(t)),
            None => None,
        },
        PropKind::Amount => match required_text(doc, p.key) {
            Some(t) => Some(SqlView::Text(if t.len() == 0 { "0"@ } else { t })),
            None => None,
        },
        PropKind::Integer => match required_text(doc, p.key) {
            Some(t) => if t.len() == 0 {
                Some(SqlView::Integer(0))
            } else {
                match parse_i32_spec(t) {
                    Some(v) => Some(SqlView::Integer(v as int)),
                    None => None,
                }
            },
            None => None,
        },
        PropKind::Flag => match required_text(doc, p.key) {
            Some(t) => if t.len() == 0 {
                Some(SqlView::Bool(false))
            } else {
                match parse_bool_spec(t) {
                    Some(b) => Some(SqlView::Bool(b)),
                    None => None,
                }
            },
            None => None,
        },
        PropKind::Switch => match switch_spec(doc, p.key) {
            Some(b) => Some(SqlView::Bool(b)),
            None => None,
        },
        PropKind::OptText => Some(opt_sql(optional_text(doc, p.key))),
        PropKind::OptCount => match optional_text(doc, p.key) {
            None => Some(SqlView::Null),
            Some(t) => match parse_u32_spec(t) {
                Some(v) => Some(SqlView::Integer(v as int)),
                None => None,
            },
        },
    }
}

fn scalar_text_of(v: &JsonValue) -> (r: Option<String>)
    ensures
        opt_text_view(r) == scalar_text(v@),
{
    match v {
        JsonValue::Null => Some(String::new()),
        JsonValue::Bool(b) => Some(String::from_str(if *b { "true" } else { "false" })),
        JsonValue::Number(n) => Some(n.clone()),
        JsonValue::Text(s) => Some(s.clone()),
        JsonValue::Array(..) => None,
        JsonValue::Object(_) => None,
    }
}

fn property_error(key: &str) -> (e: Error)
    ensures
        e matches Error::CantReadProperty(k) && k@ == key@,
{
    Error::CantReadProperty(String::from_str(key))
}

impl Document {
    /// A required property as text.
    pub fn required_text(&self, key: &str) -> (r: Result<String, Error>)
        ensures
            match r {
                Ok(t) => required_text(self@, key@) == Some(t@),
                Err(e) => required_text(self@, key@) is None && (e matches Error::CantReadProperty(k) && k@ == key@),
            },
    {
        match self.get(key) {
            Some(v) => match scalar_text_of(v) {
                Some(t) => Ok(t),
                None => Err(property_error(key)),
            },
            None => Err(property_error(key)),
        }
    }

    /// An optional property as text.
    pub fn optional_text(&self, key: &str) -> (r: Option<String>)
        ensures
            opt_text_view(r) == optional_text(self@, key@),
    {
        match self.get(key) {
            None => None,
            Some(JsonValue::Null) => None,
            Some(JsonValue::Bool(b)) => Some(String::from_str(if *b { "true" } else { "false" })),
            Some(JsonValue::Number(n)) => Some(n.clone()),
            Some(JsonValue::Text(s)) => Some(s.clone()),
            Some(JsonValue::Array(_, t)) => Some(t.clone()),
            Some(JsonValue::Object(t)) => Some(t.clone()),
        }
    }

    /// A boolean property that is false when absent or null.
    pub fn switch(&self, key: &str) -> (r: Result<bool, Error>)
        ensures
            match r {
                Ok(b) => switch_spec(self@, key@) == Some(b),
                Err(e) => switch_spec(self@, key@) is None && (e matches Error::CantReadProperty(k) && k@ == key@),
            },
    {
        match self.get(key) {
            None => Ok(false),
            Some(JsonValue::Null) => Ok(false),
            Some(JsonValue::Bool(b)) => Ok(*b),
            Some(JsonValue::Text(s)) => match parse_bool(s.as_str()) {
                Some(b) => Ok(b),
                None => Err(property_error(key)),
            },
            Some(_) => Err(property_error(key)),
        }
    }

    /// A list of strings.
    pub fn string_list(&self, key: &str) -> (r: Result<Vec<String>, Error>)
        ensures
            match r {
                Ok(l) => string_list_spec(self@, key@) == Some(l@.map_values(|s: String| s@)),
                Err(e) => string_list_spec(self@, key@) is None && (e matches Error::CantReadProperty(k) && k@ == key@),
            },
    {
        match self.get(key) {
            None => {
                let r: Vec<String> = Vec::new();
                assert(r@.map_values(|s: String| s@) =~= Seq::<Seq<char>>::empty());
                Ok(r)
            },
            Some(JsonValue::Null) => {
                let r: Vec<String> = Vec::new();
                assert(r@.map_values(|s: String| s@) =~= Seq::<Seq<char>>::empty());
                Ok(r)
            },
            Some(JsonValue::Array(items, _)) => {
                let ghost iv = items@.map_values(|o: Option<String>| opt_text_view(o));
                let mut r: Vec<String> = Vec::new();
                let mut i: usize = 0;
                while i < items.len()
                    invariant
                        i <= items@.len(),
                        iv == items@.map_values(|o: Option<String>| opt_text_view(o)),
                        member(self@, key@) matches Some(JsonView::Array(v, _)) && v == iv,
                        r@.len() == i,
                        forall|j: int| 0 <= j < i ==> (#[trigger] iv[j]) is Some,
                        forall|j: int| 0 <= j < i ==> Some(#[trigger] r@[j]@) == iv[j],
                    decreases items@.len() - i,
                {
                    match &items[i] {
                        Some(s) => {
                            assert(iv[i as int] == opt_text_view(items@[i as int]));
                            r.push(s.clone());
                        },
                        None => {
                            assert(iv[i as int] == opt_text_view(items@[i as int]));
                            assert(iv[i as int] is None);
                            return Err(property_error(key));
                        },
                    }
                    i = i + 1;
                }
                assert(r@.map_values(|s: String| s@) =~= iv.map_values(|o: Option<Seq<char>>| o->0));
                Ok(r)
            },
            Some(_) => Err(property_error(key)),
        }
    }

    /// The value that a variant-specific property gives its column.
    pub fn property(&self, p: &Property) -> (r: Result<SqlValue, Error>)
        ensures
            match r {
                Ok(v) => property_spec(self@, p@) == Some(v@),
                Err(e) => property_spec(self@, p@) is None && (e matches Error::CantReadProperty(k) && k@ == p.key@),
            },
    {
        proof {
            reveal_strlit("");
        }
        match p.kind {
            PropKind::Text => match self.required_text(p.key) {
                Ok(t) => Ok(SqlValue::Text(t)),
                Err(e) => Err(e),
            },
            PropKind::Amount => match self.required_text(p.key) {
                Ok(t) => Ok(SqlValue::Text(if t.as_str().unicode_len() == 0 { String::from_str("0") } else { t })),
                Err(e) => Err(e),
            },
            PropKind::Integer => match self.required_text(p.key) {
                Ok(t) => if t.as_str().unicode_len() == 0 {
                    Ok(SqlValue::Integer(0))
                } else {
                    match parse_i32(t.as_str()) {
                        Some(v) => Ok(SqlValue::Integer(v as i64)),
                        None => Err(property_error(p.key)),
                    }
                },
                Err(e) => Err(e),
            },
            PropKind::Flag => match self.required_text(p.key) {
                Ok(t) => if t.as_str().unicode_len() == 0 {
                    Ok(SqlValue::Bool(false))
                } else {
                    match parse_bool(t.as_str()) {
                        Some(b) => Ok(SqlValue::Bool(b)),
                        None => Err(property_error(p.key)),
                    }
                },
                Err(e) => Err(e),
            },
            PropKind::Switch => match self.switch(p.key) {
                Ok(b) => Ok(SqlValue::Bool(b)),
                Err(e) => Err(e),
            },
            PropKind::OptText => match self.optional_text(p.key) {
                Some(t) => Ok(SqlValue::Text(t)),
                None => Ok(SqlValue::Null),
            },
            PropKind::OptCount => match self.optional_text(p.key) {
                Some(t) => match parse_u32(t.as_str()) {
                    Some(v) => Ok(SqlValue::Integer(v as i64)),
                    None => Err(property_error(p.key)),
                },
                None => Ok(SqlValue::Null),
            },
        }
    }
}

} // verus!
