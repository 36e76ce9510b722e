use vstd::prelude::*;

verus! {

#[verifier::external_type_specification]
#[verifier::external_body]
pub struct ExJsonError(serde_json::Error);

#[verifier::external_type_specification]
#[verifier::external_body]
pub struct ExJsonValue(serde_json::Value);

/// A JSON document as plain values. Numbers keep their text; an object keeps
/// its members in the order the parser hands them out.
#[derive(Debug)]
pub enum JsonValue {
    Null,
    Bool(bool),
    Number(String),
    String(String),
    Array(Vec<JsonValue>),
    Object(Vec<(String, JsonValue)>),
}

/// The document that the JSON text `s` spells, or `None` where it is no JSON.
pub uninterp spec fn json_of(s: Seq<char>) -> Option<JsonValue>;

/// Relies on `serde_json::from_str::<serde_json::Value>`: parsing depends on
/// the text alone, and fails exactly where the text is no JSON. The tree is
/// carried over node for node by `json_tree_of`.
#[verifier::external_body]
pub(crate) fn parse_json(s: &str) -> (r: Result<JsonValue, serde_json::Error>)
    ensures
        r is Ok <==> json_of(s@) is Some,
        r matches Ok(v) ==> json_of(s@) == Some(v),
{
    serde_json::from_str::<serde_json::Value>(s).map(json_tree_of)
}

/// Relies on the variants of `serde_json::Value`: moves each node into the
/// node of the same kind, a number as the text that `serde_json::Number`
/// displays. Only `parse_json` uses it.
#[verifier::external_body]
fn json_tree_of(v: serde_json::Value) -> JsonValue {
    match v {
        serde_json::Value::Null => JsonValue::Null,
        serde_json::Value::Bool(b) => JsonValue::Bool(b),
        serde_json::Value::Number(n) => JsonValue::Number(n.to_string()),
        serde_json::Value::String(s) => JsonValue::String(s),
        serde_json::Value::Array(a) => JsonValue::Array(a.into_iter().map(json_tree_of).collect()),
        serde_json::Value::Object(m) => JsonValue::Object(
            m.into_iter().map(|(k, x)| (k, json_tree_of(x))).collect(),
        ),
    }
}

/// The value of the first member named `name` of `m`.
pub open spec fn first_member(m: Seq<(String, JsonValue)>, name: Seq<char>) -> Option<JsonValue>
    decreases m.len(),
{
    if m.len() == 0 {
        None
    } else if m[0].0@ == name {
        Some(m[0].1)
    } else {
        first_member(m.drop_first(), name)
    }
}

impl JsonValue {
    /// The member named `name` of an object; `None` for other values.
    pub open spec fn member_spec(self, name: Seq<char>) -> Option<JsonValue> {
        match self {
            JsonValue::Object(m) => first_member(m@, name),
            _ => None,
        }
    }

    /// The member named `name` of an object; `None` for a missing member or a
    /// value that is no object.
    pub fn member(&self, name: &str) -> (r: Option<&JsonValue>)
        ensures
            match r {
                Some(x) => self.member_spec(name@) == Some(*x),
                None => self.member_spec(name@) is None,
            },
    {
        match self {
            JsonValue::Object(m) => {
                let key = String::from_str(name);
                let mut i: usize = 0;
                proof {
                    assert(m@.subrange(0, m@.len() as int) == m@);
                }
                while i < m.len()
                    invariant
                        i <= m@.len(),
                        key@ == name@,
                        self.member_spec(name@) == first_member(m@, name@),
                        first_member(m@, name@) == first_member(m@.subrange(i as int, m@.len() as int), name@),
                    decreases m@.len() - i,
                {
                    proof {
                        let rest = m@.subrange(i as int, m@.len() as int);
                        assert(rest.drop_first() == m@.subrange(i + 1, m@.len() as int));
                        assert(rest[0] == m@[i as int]);
                    }
                    if m[i].0 == key {
                        return Some(&m[i].1);
                    }
                    i = i + 1;
                }
                None
            },
            _ => None,
        }
    }

    /// The text of a JSON string; `None` for other values.
    pub fn text(&self) -> (r: Option<&String>)
        ensures
            match *self {
                JsonValue::String(s) => r == Some(&s),
                _ => r is None,
            },
    {
        match self {
            JsonValue::String(s) => Some(s),
            _ => None,
        }
    }

    /// Is this JSON `null`?
    pub fn is_null(&self) -> (r: bool)
        ensures
            r == (*self is Null),
    {
        match self {
            JsonValue::Null => true,
            _ => false,
        }
    }
}

} // verus!
