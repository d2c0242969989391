//! Plain values received over D-Bus, with the conversions the services read them by.
//!
//! A `Value` mirrors a GLib variant. `a{sv}` dictionaries are `Dict`, whose entry
//! values are the contents of their variant boxes. Maybe values and dictionaries
//! of other key or value types are `Other`, named by their type signature.
use vstd::prelude::*;

verus! {

/// A D-Bus type.
#[derive(Debug)]
pub enum Ty {
    Bool,
    Byte,
    Int16,
    UInt16,
    Int32,
    UInt32,
    Int64,
    UInt64,
    Double,
    Str,
    ObjectPath,
    Signature,
    Handle,
    Variant,
    Array(Box<Ty>),
    Tuple(Vec<Ty>),
    VarDict,
    Other(String),
}

/// A D-Bus value.
#[derive(Debug)]
pub enum Value {
    Bool(bool),
    Byte(u8),
    Int16(i16),
    UInt16(u16),
    Int32(i32),
    UInt32(u32),
    Int64(i64),
    UInt64(u64),
    Double,
    Str(String),
    ObjectPath(String),
    Signature(String),
    Handle(i32),
    Variant(Box<Value>),
    Array(Ty, Vec<Value>),
    Tuple(Vec<Value>),
    Dict(Vec<(String, Value)>),
    Other(String),
}

/// A string value: strings, object paths and signatures all read as text.
pub open spec fn get_string(v: Value) -> Option<Seq<char>> {
    match v {
        Value::Str(s) => Some(s@),
        Value::ObjectPath(s) => Some(s@),
        Value::Signature(s) => Some(s@),
        _ => None,
    }
}

pub open spec fn get_bool(v: Value) -> Option<bool> {
    match v {
        Value::Bool(b) => Some(b),
        _ => None,
    }
}

pub open spec fn get_i32(v: Value) -> Option<i32> {
    match v {
        Value::Int32(i) => Some(i),
        _ => None,
    }
}

pub open spec fn get_u32(v: Value) -> Option<u32> {
    match v {
        Value::UInt32(i) => Some(i),
        _ => None,
    }
}

pub open spec fn get_u8(v: Value) -> Option<u8> {
    match v {
        Value::Byte(b) => Some(b),
        _ => None,
    }
}

/// The children of a container value; scalars have none.
pub open spec fn children(v: Value) -> Option<Seq<Value>> {
    match v {
        Value::Variant(b) => Some(seq![*b]),
        Value::Array(_, xs) => Some(xs@),
        Value::Tuple(xs) => Some(xs@),
        _ => None,
    }
}

/// The value of `key` in a dictionary; a later entry for a key replaces an earlier one.
pub open spec fn lookup(entries: Seq<(String, Value)>, key: Seq<char>) -> Option<Value>
    decreases entries.len(),
{
    if entries.len() == 0 {
        None
    } else if entries.last().0@ == key {
        Some(entries.last().1)
    } else {
        lookup(entries.drop_last(), key)
    }
}

/// A string read from `v`.
pub fn value_string(v: &Value) -> (r: Option<String>)
    ensures
        match r {
            Some(s) => get_string(*v) == Some(s@),
            None => get_string(*v) is None,
        },
{
    match v {
        Value::Str(s) => Some(s.clone()),
        Value::ObjectPath(s) => Some(s.clone()),
        Value::Signature(s) => Some(s.clone()),
        _ => None,
    }
}

/// The entry of `key` in a dictionary.
pub fn dict_get<'a>(entries: &'a Vec<(String, Value)>, key: &str) -> (r: Option<&'a Value>)
    ensures
        match r {
            Some(x) => lookup(entries@, key@) == Some(*x),
            None => lookup(entries@, key@) is None,
        },
{
    let mut i = entries.len();
    assert(entries@.take(i as int) =~= entries@);
    while i > 0
        invariant
            i <= entries.len(),
            lookup(entries@, key@) == lookup(entries@.take(i as int), key@),
        decreases i,
    {
        assert(entries@.take(i as int).drop_last() =~= entries@.take(i - 1));
        if crate::text::str_eq(entries[i - 1].0.as_str(), key) {
            return Some(&entries[i - 1].1);
        }
        i -= 1;
    }
    None
}

} // verus!
