//! A JSON document as the manifest logic reads and writes it.
use vstd::prelude::*;

verus! {

/// A JSON value. Numbers are kept as their text; an object keeps its
/// members in document order.
#[derive(Debug, PartialEq)]
pub enum JsonValue {
    Null,
    Bool(bool),
    Number(String),
    Str(String),
    Array(Vec<JsonValue>),
    Object(Vec<(String, JsonValue)>),
}

/// The value of the first member named `key`.
pub open spec fn member(fs: Seq<(String, JsonValue)>, key: Seq<char>) -> Option<JsonValue>
    decreases fs.len(),
{
    if fs.len() == 0 {
        None
    } else if fs[0].0@ == key {
        Some(fs[0].1)
    } else {
        member(fs.drop_first(), key)
    }
}

/// What `v[key]` reads: the member's value, or nothing when `v` is not an
/// object or has no such member.
pub open spec fn field(v: JsonValue, key: Seq<char>) -> Option<JsonValue> {
    match v {
        JsonValue::Object(fs) => member(fs@, key),
        _ => None,
    }
}

/// The text of a string value.
pub open spec fn str_of(v: Option<JsonValue>) -> Option<Seq<char>> {
    match v {
        Some(JsonValue::Str(s)) => Some(s@),
        _ => None,
    }
}

/// Whether `v` is the string `s`.
pub open spec fn is_str(v: JsonValue, s: Seq<char>) -> bool {
    v matches JsonValue::Str(x) && x@ == s
}

/// The value of the first member of `fs` named `key`.
pub fn find_member<'a>(fs: &'a Vec<(String, JsonValue)>, key: &String) -> (r: Option<&'a JsonValue>)
    ensures
        r is Some <==> member(fs@, key@) is Some,
        r matches Some(x) ==> member(fs@, key@) == Some(*x),
{
    let n = fs.len();
    let mut i: usize = 0;
    assert(fs@.subrange(0, n as int) =~= fs@);
    while i < n
        invariant
            n == fs@.len(),
            i <= n,
            member(fs@, key@) == member(fs@.subrange(i as int, n as int), key@),
        decreases n - i,
    {
        assert(fs@.subrange(i as int, n as int).drop_first() =~= fs@.subrange(i + 1, n as int));
        if fs[i].0 == *key {
            return Some(&fs[i].1);
        }
        i = i + 1;
    }
    None
}

/// What `v[key]` reads, when `v` is an object.
pub fn get_field<'a>(v: &'a JsonValue, key: &String) -> (r: Option<&'a JsonValue>)
    ensures
        r is Some <==> field(*v, key@) is Some,
        r matches Some(x) ==> field(*v, key@) == Some(*x),
{
    match v {
        JsonValue::Object(fs) => find_member(fs, key),
        _ => None,
    }
}

} // verus!
