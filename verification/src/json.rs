//! JSON documents held as plain values, with the accessors the parsers use.
use vstd::prelude::*;

use crate::text::str_eq;

verus! {

/// A JSON number. Integers are kept exactly; a number with a fraction or
/// exponent is kept as the value it truncates to when cast to `u64`
/// (negative and NaN values give 0, values above the range give `u64::MAX`),
/// together with its decimal text. A parser gives `NegInt` for negative
/// integers only; the accessors read an integer by its value, so a `NegInt`
/// holding a value that is not negative reads as that same value.
pub enum JsonNumber {
    PosInt(u64),
    NegInt(i64),
    Float(u64, String),
}

/// A JSON document. An object keeps its members in order.
pub enum Json {
    Null,
    Bool(bool),
    Number(JsonNumber),
    Str(String),
    Array(Vec<Json>),
    Object(Vec<(String, Json)>),
}

/// The first member named `key` among `fields`.
pub open spec fn find_field(fields: Seq<(String, Json)>, key: Seq<char>) -> Option<Json>
    decreases fields.len(),
{
    if fields.len() == 0 {
        None
    } else if fields[0].0@ == key {
        Some(fields[0].1)
    } else {
        find_field(fields.drop_first(), key)
    }
}

/// The member named `key` when `j` is an object.
pub open spec fn field(j: Json, key: Seq<char>) -> Option<Json> {
    match j {
        Json::Object(fields) => find_field(fields@, key),
        _ => None,
    }
}

/// `serde_json::Value::as_i64`.
pub open spec fn as_i64(j: Json) -> Option<i64> {
    match j {
        Json::Number(JsonNumber::PosInt(n)) => if n <= i64::MAX as u64 {
            Some(n as i64)
        } else {
            None
        },
        Json::Number(JsonNumber::NegInt(n)) => Some(n),
        _ => None,
    }
}

/// `serde_json::Value::as_u64`.
pub open spec fn as_u64(j: Json) -> Option<u64> {
    match j {
        Json::Number(JsonNumber::PosInt(n)) => Some(n),
        Json::Number(JsonNumber::NegInt(n)) => if n >= 0 {
            Some(n as u64)
        } else {
            None
        },
        _ => None,
    }
}

/// `as_u64`, falling back to the number cast to `u64` (negative integers give 0).
pub open spec fn as_u64_lenient(j: Json) -> Option<u64> {
    match j {
        Json::Number(JsonNumber::PosInt(n)) => Some(n),
        Json::Number(JsonNumber::NegInt(n)) => if n >= 0 {
            Some(n as u64)
        } else {
            Some(0)
        },
        Json::Number(JsonNumber::Float(t, _)) => Some(t),
        _ => None,
    }
}

/// `serde_json::Value::as_bool`.
pub open spec fn as_bool(j: Json) -> Option<bool> {
    match j {
        Json::Bool(b) => Some(b),
        _ => None,
    }
}

/// `serde_json::Value::as_str`, by characters.
pub open spec fn as_str(j: Json) -> Option<Seq<char>> {
    match j {
        Json::Str(s) => Some(s@),
        _ => None,
    }
}

/// `serde_json::Value::as_array`, by elements.
pub open spec fn as_array(j: Json) -> Option<Seq<Json>> {
    match j {
        Json::Array(v) => Some(v@),
        _ => None,
    }
}

/// An integer is read by its value, not by how it is held: a `NegInt` holding a
/// value that is not negative reads, through every integer accessor, as the
/// `PosInt` of that value.
pub proof fn law_integer_read_by_value(n: i64)
    requires
        n >= 0,
    ensures
        as_i64(Json::Number(JsonNumber::NegInt(n))) == as_i64(Json::Number(JsonNumber::PosInt(n as u64))),
        as_u64(Json::Number(JsonNumber::NegInt(n))) == as_u64(Json::Number(JsonNumber::PosInt(n as u64))),
        as_u64_lenient(Json::Number(JsonNumber::NegInt(n))) == as_u64_lenient(
            Json::Number(JsonNumber::PosInt(n as u64)),
        ),
{
}

pub open spec fn opt_i64(j: Option<Json>) -> Option<i64> {
    match j {
        Some(v) => as_i64(v),
        None => None,
    }
}

pub open spec fn opt_u64(j: Option<Json>) -> Option<u64> {
    match j {
        Some(v) => as_u64(v),
        None => None,
    }
}

pub open spec fn opt_u64_lenient(j: Option<Json>) -> Option<u64> {
    match j {
        Some(v) => as_u64_lenient(v),
        None => None,
    }
}

pub open spec fn opt_bool(j: Option<Json>) -> Option<bool> {
    match j {
        Some(v) => as_bool(v),
        None => None,
    }
}

pub open spec fn opt_str(j: Option<Json>) -> Option<Seq<char>> {
    match j {
        Some(v) => as_str(v),
        None => None,
    }
}

pub open spec fn opt_array(j: Option<Json>) -> Option<Seq<Json>> {
    match j {
        Some(v) => as_array(v),
        None => None,
    }
}

/// `a.or(b)`.
pub open spec fn or_else<T>(a: Option<T>, b: Option<T>) -> Option<T> {
    match a {
        Some(x) => Some(x),
        None => b,
    }
}

/// `o.unwrap_or(d)`.
pub open spec fn unwrap_or<T>(o: Option<T>, d: T) -> T {
    match o {
        Some(x) => x,
        None => d,
    }
}

/// Integer member, read as `i64`.
pub open spec fn i64_field(j: Json, key: Seq<char>) -> Option<i64> {
    opt_i64(field(j, key))
}

/// Integer member, read as `u64`.
pub open spec fn u64_field(j: Json, key: Seq<char>) -> Option<u64> {
    opt_u64(field(j, key))
}

/// Boolean member.
pub open spec fn bool_field(j: Json, key: Seq<char>) -> Option<bool> {
    opt_bool(field(j, key))
}

/// String member, by characters.
pub open spec fn str_field(j: Json, key: Seq<char>) -> Option<Seq<char>> {
    opt_str(field(j, key))
}

/// Array member, by elements.
pub open spec fn array_field(j: Json, key: Seq<char>) -> Option<Seq<Json>> {
    opt_array(field(j, key))
}

/// `i as i32` for an `i64`: the low 32 bits, as two's complement.
pub open spec fn wrap_i32(i: i64) -> i32 {
    i as i32
}

impl Json {
    /// The member named `key` when this is an object (`serde_json::Value::get`).
    pub fn get(&self, key: &str) -> (r: Option<&Json>)
        ensures
            r matches Some(v) ==> field(*self, key@) == Some(*v),
            r is None ==> field(*self, key@) is None,
    {
        match self {
            Json::Object(fields) => {
                let mut i: usize = 0;
                assert(fields@.skip(0) =~= fields@);
                while i < fields.len()
                    invariant
                        0 <= i <= fields.len(),
                        field(*self, key@) == find_field(fields@, key@),
                        find_field(fields@, key@) == find_field(fields@.skip(i as int), key@),
                    decreases fields.len() - i,
                {
                    assert(fields@.skip(i as int).drop_first() =~= fields@.skip(i + 1));
                    if str_eq(fields[i].0.as_str(), key) {
                        assert(fields@.skip(i as int)[0] == fields@[i as int]);
                        return Some(&fields[i].1);
                    }
                    i = i + 1;
                }
                None
            }
            _ => None,
        }
    }

    /// `serde_json::Value::as_i64`.
    pub fn as_i64(&self) -> (r: Option<i64>)
        ensures
            r == as_i64(*self),
    {
        match self {
            Json::Number(JsonNumber::PosInt(n)) => if *n <= 9223372036854775807u64 {
                Some(*n as i64)
            } else {
                None
            },
            Json::Number(JsonNumber::NegInt(n)) => Some(*n),
            _ => None,
        }
    }

    /// `serde_json::Value::as_u64`.
    pub fn as_u64(&self) -> (r: Option<u64>)
        ensures
            r == as_u64(*self),
    {
        match self {
            Json::Number(JsonNumber::PosInt(n)) => Some(*n),
            Json::Number(JsonNumber::NegInt(n)) => if *n >= 0 {
                Some(*n as u64)
            } else {
                None
            },
            _ => None,
        }
    }

    /// `as_u64`, falling back to the number cast to `u64`.
    pub fn as_u64_lenient(&self) -> (r: Option<u64>)
        ensures
            r == as_u64_lenient(*self),
    {
        match self {
            Json::Number(JsonNumber::PosInt(n)) => Some(*n),
            Json::Number(JsonNumber::NegInt(n)) => if *n >= 0 {
                Some(*n as u64)
            } else {
                Some(0)
            },
            Json::Number(JsonNumber::Float(t, _)) => Some(*t),
            _ => None,
        }
    }

    /// `serde_json::Value::as_bool`.
    pub fn as_bool(&self) -> (r: Option<bool>)
        ensures
            r == as_bool(*self),
    {
        match self {
            Json::Bool(b) => Some(*b),
            _ => None,
        }
    }

    /// `serde_json::Value::as_str`.
    pub fn as_str(&self) -> (r: Option<&str>)
        ensures
            r matches Some(s) ==> as_str(*self) == Some(s@),
            r is None ==> as_str(*self) is None,
    {
        match self {
            Json::Str(s) => Some(s.as_str()),
            _ => None,
        }
    }

    /// `serde_json::Value::as_array`.
    pub fn as_array(&self) -> (r: Option<&Vec<Json>>)
        ensures
            r matches Some(v) ==> as_array(*self) == Some(v@),
            r is None ==> as_array(*self) is None,
    {
        match self {
            Json::Array(v) => Some(v),
            _ => None,
        }
    }

    /// Integer member as `i64`.
    pub fn i64_at(&self, key: &str) -> (r: Option<i64>)
        ensures
            r == i64_field(*self, key@),
    {
        match self.get(key) {
            Some(v) => v.as_i64(),
            None => None,
        }
    }

    /// Integer member as `u64`.
    pub fn u64_at(&self, key: &str) -> (r: Option<u64>)
        ensures
            r == u64_field(*self, key@),
    {
        match self.get(key) {
            Some(v) => v.as_u64(),
            None => None,
        }
    }

    /// Boolean member.
    pub fn bool_at(&self, key: &str) -> (r: Option<bool>)
        ensures
            r == bool_field(*self, key@),
    {
        match self.get(key) {
            Some(v) => v.as_bool(),
            None => None,
        }
    }

    /// String member.
    pub fn str_at(&self, key: &str) -> (r: Option<&str>)
        ensures
            r matches Some(s) ==> str_field(*self, key@) == Some(s@),
            r is None ==> str_field(*self, key@) is None,
    {
        match self.get(key) {
            Some(v) => v.as_str(),
            None => None,
        }
    }

    /// Array member.
    pub fn array_at(&self, key: &str) -> (r: Option<&Vec<Json>>)
        ensures
            r matches Some(v) ==> array_field(*self, key@) == Some(v@),
            r is None ==> array_field(*self, key@) is None,
    {
        match self.get(key) {
            Some(v) => v.as_array(),
            None => None,
        }
    }
}

/// `o.unwrap_or("")` for an optional string.
pub fn str_or_empty(o: Option<&str>) -> (r: &str)
    ensures
        r@ == (match o {
            Some(s) => s@,
            None => Seq::<char>::empty(),
        }),
{
    match o {
        Some(s) => s,
        None => {
            proof {
                reveal_strlit("");
            }
            ""
        }
    }
}

} // verus!
