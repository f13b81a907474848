//! The requests that arrive as JSON, read through `serde_json`.
use vstd::prelude::*;

verus! {

/// A JSON value of `serde_json`.
#[verifier::external_type_specification]
#[verifier::external_body]
pub struct ExValue(serde_json::Value);

/// What a JSON value holds.
pub enum Json {
    Null,
    Bool(bool),
    /// A whole number.
    Int(int),
    /// Any other number: one with a fraction or an exponent, or one too large to
    /// be held whole.
    Real,
    Text(Seq<char>),
    List(Seq<Json>),
    Object(Map<Seq<char>, Json>),
}

impl Json {
    /// The member of that name, where this is an object that has one.
    pub open spec fn member(self, name: Seq<char>) -> Option<Json> {
        match self {
            Json::Object(m) => if m.dom().contains(name) {
                Some(m[name])
            } else {
                None
            },
            _ => None,
        }
    }

    pub open spec fn as_text(self) -> Option<Seq<char>> {
        match self {
            Json::Text(s) => Some(s),
            _ => None,
        }
    }

    pub open spec fn as_bool(self) -> Option<bool> {
        match self {
            Json::Bool(b) => Some(b),
            _ => None,
        }
    }

    /// The whole number, where it is within `i64`.
    pub open spec fn as_i64(self) -> Option<int> {
        match self {
            Json::Int(n) => if i64::MIN <= n <= i64::MAX {
                Some(n)
            } else {
                None
            },
            _ => None,
        }
    }

    /// The whole number, where it is within `u64`.
    pub open spec fn as_u64(self) -> Option<int> {
        match self {
            Json::Int(n) => if 0 <= n <= u64::MAX {
                Some(n)
            } else {
                None
            },
            _ => None,
        }
    }

    /// The member of that name as text.
    pub open spec fn text_member(self, name: Seq<char>) -> Option<Seq<char>> {
        match self.member(name) {
            Some(v) => v.as_text(),
            None => None,
        }
    }

    /// The member of that name as a boolean.
    pub open spec fn bool_member(self, name: Seq<char>) -> Option<bool> {
        match self.member(name) {
            Some(v) => v.as_bool(),
            None => None,
        }
    }
}

/// What a `serde_json::Value` holds.
pub uninterp spec fn contents(v: serde_json::Value) -> Json;

/// `Value::get` with a string: the member of that name of an object; nothing
/// for an object without it and for everything that is not an object.
#[verifier::external_body]
pub(crate) fn get<'a>(v: &'a serde_json::Value, name: &str) -> (r: Option<&'a serde_json::Value>)
    ensures
        match r {
            Some(m) => contents(*v).member(name@) == Some(contents(*m)),
            None => contents(*v).member(name@) is None,
        },
{
    v.get(name)
}

/// `Value::as_str`: the text of a string; nothing for everything else.
#[verifier::external_body]
pub(crate) fn as_text(v: &serde_json::Value) -> (r: Option<String>)
    ensures
        match r {
            Some(s) => contents(*v).as_text() == Some(s@),
            None => contents(*v).as_text() is None,
        },
{
    v.as_str().map(String::from)
}

/// `Value::as_bool`: the boolean; nothing for everything else.
#[verifier::external_body]
pub(crate) fn as_bool(v: &serde_json::Value) -> (r: Option<bool>)
    ensures
        r == contents(*v).as_bool(),
{
    v.as_bool()
}

/// `Value::as_i64`: the whole number where it fits; nothing for everything
/// else, a number with a fraction among it.
#[verifier::external_body]
pub(crate) fn as_i64(v: &serde_json::Value) -> (r: Option<i64>)
    ensures
        match r {
            Some(n) => contents(*v).as_i64() == Some(n as int),
            None => contents(*v).as_i64() is None,
        },
{
    v.as_i64()
}

/// `Value::as_u64`: the whole number where it fits; nothing for everything
/// else, a number with a fraction among it.
#[verifier::external_body]
pub(crate) fn as_u64(v: &serde_json::Value) -> (r: Option<u64>)
    ensures
        match r {
            Some(n) => contents(*v).as_u64() == Some(n as int),
            None => contents(*v).as_u64() is None,
        },
{
    v.as_u64()
}

/// `Value::is_null`.
#[verifier::external_body]
pub(crate) fn is_null(v: &serde_json::Value) -> (r: bool)
    ensures
        r == (contents(*v) is Null),
{
    v.is_null()
}

pub(crate) fn text_of(v: &serde_json::Value, name: &str) -> (r: Option<String>)
    ensures
        match r {
            Some(s) => contents(*v).text_member(name@) == Some(s@),
            None => contents(*v).text_member(name@) is None,
        },
{
    match get(v, name) {
        Some(m) => as_text(m),
        None => None,
    }
}

pub(crate) fn bool_of(v: &serde_json::Value, name: &str) -> (r: Option<bool>)
    ensures
        r == contents(*v).bool_member(name@),
{
    match get(v, name) {
        Some(m) => as_bool(m),
        None => None,
    }
}

/// A member is of an object alone, and is only what it is: text, a truth value, or
/// a number that fits.
pub proof fn law_members_are_what_they_are(v: Json, name: Seq<char>, s: Seq<char>, b: bool, n: int)
    ensures
        v.member(name) == Some(Json::Text(s)) ==> v.text_member(name) == Some(s) && v.bool_member(
            name,
        ) is None,
        v.member(name) == Some(Json::Bool(b)) ==> v.bool_member(name) == Some(b) && v.text_member(
            name,
        ) is None,
        v.member(name) is None ==> v.text_member(name) is None && v.bool_member(name) is None,
        !(v is Object) ==> v.member(name) is None,
        Json::Int(n).as_i64() is Some <==> -0x8000_0000_0000_0000 <= n <= 0x7fff_ffff_ffff_ffff,
        Json::Int(n).as_u64() is Some <==> 0 <= n <= 0xffff_ffff_ffff_ffff,
        Json::Int(n).as_i64() matches Some(m) ==> m == n,
        Json::Int(n).as_u64() matches Some(m) ==> m == n,
        Json::Text(s).as_i64() is None && Json::Real.as_i64() is None && Json::Null.as_u64() is None,
{
}

} // verus!
