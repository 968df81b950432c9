//! A JSON document as the adapters read it.
//!
//! Numbers are kept only as far as the adapters look at them: the value of a
//! number that is a non-negative integer within `u64`, and `None` for any
//! other number.

use vstd::prelude::*;

use crate::text::str_equal;

verus! {

/// A parsed JSON value.
#[derive(Debug)]
pub enum JsonValue {
    Null,
    Bool(bool),
    /// A number; its value when it is a non-negative integer that fits `u64`.
    Number(Option<u64>),
    Str(String),
    Array(Vec<JsonValue>),
    /// The members of an object, keys distinct, in the order the parser hands
    /// them over.
    Object(Vec<(String, JsonValue)>),
}

/// The value of the first member named `key`.
pub open spec fn member(entries: Seq<(String, JsonValue)>, key: Seq<char>) -> Option<JsonValue>
    decreases entries.len(),
{
    if entries.len() == 0 {
        None
    } else if entries[0].0@ == key {
        Some(entries[0].1)
    } else {
        member(entries.drop_first(), key)
    }
}

/// `v[key]` when `v` is an object holding `key`.
pub open spec fn json_get(v: JsonValue, key: Seq<char>) -> Option<JsonValue> {
    match v {
        JsonValue::Object(entries) => member(entries@, key),
        _ => None,
    }
}

/// `v[k1][k2]...` along `path`, where every step reaches an object member.
pub open spec fn json_path(v: JsonValue, path: Seq<Seq<char>>) -> Option<JsonValue>
    decreases path.len(),
{
    if path.len() == 0 {
        Some(v)
    } else {
        match json_get(v, path[0]) {
            Some(w) => json_path(w, path.drop_first()),
            None => None,
        }
    }
}

/// The text of a string value.
pub open spec fn json_str(v: Option<JsonValue>) -> Option<Seq<char>> {
    match v {
        Some(JsonValue::Str(s)) => Some(s@),
        _ => None,
    }
}

/// The value of a non-negative integer that fits `u64`.
pub open spec fn json_u64(v: Option<JsonValue>) -> Option<u64> {
    match v {
        Some(JsonValue::Number(n)) => n,
        _ => None,
    }
}

/// The elements of an array value.
pub open spec fn json_array(v: Option<JsonValue>) -> Option<Seq<JsonValue>> {
    match v {
        Some(JsonValue::Array(items)) => Some(items@),
        _ => None,
    }
}

/// The text of a string value, or the empty text (`as_str().unwrap_or_default()`).
pub open spec fn json_str_or_empty(v: Option<JsonValue>) -> Seq<char> {
    match json_str(v) {
        Some(s) => s,
        None => Seq::<char>::empty(),
    }
}

impl JsonValue {
    /// The member `key` of an object; `None` for a missing key or a value
    /// that is not an object.
    pub fn get(&self, key: &str) -> (r: Option<&JsonValue>)
        ensures
            match r {
                Some(x) => json_get(*self, key@) == Some(*x),
                None => json_get(*self, key@) is None,
            },
    {
        match self {
            JsonValue::Object(entries) => {
                let mut i: usize = 0;
                assert(entries@.skip(0) =~= entries@);
                while i < entries.len()
                    invariant
                        i <= entries.len(),
                        json_get(*self, key@) == member(entries@, key@),
                        member(entries@, key@) == member(entries@.skip(i as int), key@),
                    decreases entries.len() - i,
                {
                    assert(entries@.skip(i as int).drop_first() =~= entries@.skip(i + 1));
                    if str_equal(entries[i].0.as_str(), key) {
                        assert(entries@.skip(i as int)[0] == entries@[i as int]);
                        return Some(&entries[i].1);
                    }
                    i = i + 1;
                }
                None
            },
            _ => None,
        }
    }

    /// `self[k1][k2]`.
    pub fn get2(&self, k1: &str, k2: &str) -> (r: Option<&JsonValue>)
        ensures
            match r {
                Some(x) => json_path(*self, seq![k1@, k2@]) == Some(*x),
                None => json_path(*self, seq![k1@, k2@]) is None,
            },
    {
        proof {
            reveal_with_fuel(json_path, 3);
            assert(seq![k1@, k2@].drop_first() =~= seq![k2@]);
            assert(seq![k2@].drop_first() =~= Seq::<Seq<char>>::empty());
        }
        match self.get(k1) {
            Some(a) => a.get(k2),
            None => None,
        }
    }

    /// `self[k1][k2][k3]`.
    pub fn get3(&self, k1: &str, k2: &str, k3: &str) -> (r: Option<&JsonValue>)
        ensures
            match r {
                Some(x) => json_path(*self, seq![k1@, k2@, k3@]) == Some(*x),
                None => json_path(*self, seq![k1@, k2@, k3@]) is None,
            },
    {
        proof {
            reveal_with_fuel(json_path, 4);
            assert(seq![k1@, k2@, k3@].drop_first() =~= seq![k2@, k3@]);
            assert(seq![k2@, k3@].drop_first() =~= seq![k3@]);
            assert(seq![k3@].drop_first() =~= Seq::<Seq<char>>::empty());
        }
        match self.get(k1) {
            Some(a) => a.get2(k2, k3),
            None => None,
        }
    }

    /// The text of a string value.
    pub fn as_str(&self) -> (r: Option<&str>)
        ensures
            match r {
                Some(s) => json_str(Some(*self)) == Some(s@),
                None => json_str(Some(*self)) is None,
            },
    {
        match self {
            JsonValue::Str(s) => Some(s.as_str()),
            _ => None,
        }
    }

    /// The value of a non-negative integer that fits `u64`.
    pub fn as_u64(&self) -> (r: Option<u64>)
        ensures
            r == json_u64(Some(*self)),
    {
        match self {
            JsonValue::Number(n) => *n,
            _ => None,
        }
    }

    /// The elements of an array value.
    pub fn as_array(&self) -> (r: Option<&Vec<JsonValue>>)
        ensures
            match r {
                Some(items) => json_array(Some(*self)) == Some(items@),
                None => json_array(Some(*self)) is None,
            },
    {
        match self {
            JsonValue::Array(items) => Some(items),
            _ => None,
        }
    }
}

/// The text of an optional string value, or the empty string.
pub fn str_or_empty(v: Option<&JsonValue>) -> (r: String)
    ensures
        r@ == json_str_or_empty(match v { Some(x) => Some(*x), None => None }),
{
    match v {
        Some(x) => match x.as_str() {
            Some(s) => s.to_owned(),
            None => String::new(),
        },
        None => String::new(),
    }
}

/// The text of an optional string value.
pub fn opt_str(v: Option<&JsonValue>) -> (r: Option<String>)
    ensures
        match r {
            Some(s) => json_str(match v { Some(x) => Some(*x), None => None }) == Some(s@),
            None => json_str(match v { Some(x) => Some(*x), None => None }) is None,
        },
{
    match v {
        Some(x) => match x.as_str() {
            Some(s) => Some(s.to_owned()),
            None => None,
        },
        None => None,
    }
}

/// The integer value of an optional number.
pub fn opt_u64(v: Option<&JsonValue>) -> (r: Option<u64>)
    ensures
        r == json_u64(match v { Some(x) => Some(*x), None => None }),
{
    match v {
        Some(x) => x.as_u64(),
        None => None,
    }
}

} // verus!
