use vstd::prelude::*;
use vstd::string::StringExecFns;

verus! {

/// A JSON document as the transform reads it. Numbers keep the decimal text
/// that serde_json prints for them, so no binary floating point is involved;
/// the keys of an object's members are distinct, and serde_json hands them
/// over sorted by key.
pub enum JsonValue {
    Null,
    Bool(bool),
    Number(String),
    Str(String),
    Array(Vec<JsonValue>),
    Object(Vec<(String, JsonValue)>),
}

/// The document that serde_json reads from a text, or `None` where the text
/// is not valid JSON.
pub uninterp spec fn parsed_json(s: Seq<char>) -> Option<JsonValue>;

/// A lower-case hexadecimal digit.
pub open spec fn hex_digit(d: nat) -> char {
    if d < 10 {
        ((d + 48) as u8) as char
    } else {
        ((d + 87) as u8) as char
    }
}

/// How a character stands inside a JSON string literal: quote and backslash
/// behind a backslash, the five short escapes, `\u00xx` for the other
/// control characters, and any other character as it is.
pub open spec fn escaped_char(c: char) -> Seq<char> {
    if c == '"' {
        seq!['\\', '"']
    } else if c == '\\' {
        seq!['\\', '\\']
    } else if c == '\u{8}' {
        seq!['\\', 'b']
    } else if c == '\t' {
        seq!['\\', 't']
    } else if c == '\n' {
        seq!['\\', 'n']
    } else if c == '\u{c}' {
        seq!['\\', 'f']
    } else if c == '\r' {
        seq!['\\', 'r']
    } else if (c as u32) < 32 {
        seq!['\\', 'u', '0', '0', hex_digit((c as u32 / 16) as nat), hex_digit((c as u32 % 16) as nat)]
    } else {
        seq![c]
    }
}

/// The characters of a text, each as it stands inside a JSON string literal.
pub open spec fn escaped(s: Seq<char>) -> Seq<char>
    decreases s.len(),
{
    if s.len() == 0 {
        Seq::empty()
    } else {
        escaped(s.drop_last()) + escaped_char(s.last())
    }
}

/// The JSON string literal of a text: the escaped text between quotes.
pub open spec fn quoted_json(s: Seq<char>) -> Seq<char> {
    seq!['"'] + escaped(s) + seq!['"']
}

/// serde_json's document type, carried only into `json_of`.
#[verifier::external_type_specification]
#[verifier::external_body]
pub struct ExJsonDocument(serde_json::Value);

/// Moves a serde_json value into the library's own representation, variant
/// for variant (numbers through serde_json's `Display` of `Number`).
#[verifier::external_body]
fn json_of(v: serde_json::Value) -> JsonValue {
    match v {
        serde_json::Value::Null => JsonValue::Null,
        serde_json::Value::Bool(b) => JsonValue::Bool(b),
        serde_json::Value::Number(n) => JsonValue::Number(n.to_string()),
        serde_json::Value::String(s) => JsonValue::Str(s),
        serde_json::Value::Array(a) => JsonValue::Array(a.into_iter().map(json_of).collect()),
        serde_json::Value::Object(m) => {
            let mut fields = Vec::new();
            for (k, x) in m {
                fields.push((k, json_of(x)));
            }
            JsonValue::Object(fields)
        },
    }
}

/// Relies on serde_json::from_str::<serde_json::Value>: the document that a
/// text holds depends on the text alone; it fails where the text is not JSON.
#[verifier::external_body]
pub(crate) fn parse_json(s: &str) -> (r: Option<JsonValue>)
    ensures
        r == parsed_json(s@),
{
    serde_json::from_str::<serde_json::Value>(s).ok().map(json_of)
}

/// Relies on serde_json::to_string on a `&str` (`format_escaped_str` and its
/// escape table): the text between quotes, with quote, backslash and the
/// control characters escaped. Serializing a `str` does not fail.
#[verifier::external_body]
pub(crate) fn quote_json(s: &str) -> (r: String)
    ensures
        r@ == quoted_json(s@),
{
    serde_json::to_string(s).unwrap_or_default()
}

/// A copy of a text.
pub(crate) fn copy_text(s: &String) -> (r: String)
    ensures
        r == *s,
{
    s.clone()
}

/// Whether a text equals a given one.
pub fn text_is(s: &String, t: &str) -> (r: bool)
    ensures
        r == (s@ == t@),
{
    *s == <String as StringExecFns>::from_str(t)
}

/// The value of the first member named `k` among an object's members.
pub open spec fn member(fields: Seq<(String, JsonValue)>, k: Seq<char>) -> Option<JsonValue>
    decreases fields.len(),
{
    if fields.len() == 0 {
        None
    } else if fields[0].0@ == k {
        Some(fields[0].1)
    } else {
        member(fields.drop_first(), k)
    }
}

/// The member `k` of a value, where the value is an object that has one.
pub open spec fn get(v: JsonValue, k: Seq<char>) -> Option<JsonValue> {
    match v {
        JsonValue::Object(fields) => member(fields@, k),
        _ => None,
    }
}

/// The text of a string value.
pub open spec fn str_of(v: Option<JsonValue>) -> Option<Seq<char>> {
    match v {
        Some(JsonValue::Str(s)) => Some(s@),
        _ => None,
    }
}

proof fn lemma_member_found(fields: Seq<(String, JsonValue)>, k: Seq<char>, i: int)
    requires
        0 <= i < fields.len(),
        fields[i].0@ == k,
        forall|j: int| 0 <= j < i ==> fields[j].0@ != k,
    ensures
        member(fields, k) == Some(fields[i].1),
    decreases i,
{
    if i > 0 {
        lemma_member_found(fields.drop_first(), k, i - 1);
    }
}

proof fn lemma_member_absent(fields: Seq<(String, JsonValue)>, k: Seq<char>)
    requires
        forall|j: int| 0 <= j < fields.len() ==> fields[j].0@ != k,
    ensures
        member(fields, k) is None,
    decreases fields.len(),
{
    if fields.len() > 0 {
        lemma_member_absent(fields.drop_first(), k);
    }
}

impl JsonValue {
    /// The member `k` of this value, where it is an object that has one.
    pub fn get(&self, k: &str) -> (r: Option<&JsonValue>)
        ensures
            match r {
                Some(x) => get(*self, k@) == Some(*x),
                None => get(*self, k@) is None,
            },
    {
        match self {
            JsonValue::Object(fields) => {
                let mut i: usize = 0;
                while i < fields.len()
                    invariant
                        i <= fields.len(),
                        *self == JsonValue::Object(*fields),
                        forall|j: int| 0 <= j < i ==> fields@[j].0@ != k@,
                    decreases fields.len() - i,
                {
                    if text_is(&fields[i].0, k) {
                        proof {
                            lemma_member_found(fields@, k@, i as int);
                        }
                        return Some(&fields[i].1);
                    }
                    i += 1;
                }
                proof {
                    lemma_member_absent(fields@, k@);
                }
                None
            },
            _ => None,
        }
    }

    /// The text of this value, where it is a string.
    pub fn as_text(&self) -> (r: Option<&String>)
        ensures
            match r {
                Some(s) => *self == JsonValue::Str(*s),
                None => !(*self is Str),
            },
    {
        match self {
            JsonValue::Str(s) => Some(s),
            _ => None,
        }
    }
}

} // verus!
