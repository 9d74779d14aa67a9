//! The property-value model.
//!
//! Property values and message bodies travel through the proxy without
//! being interpreted; the core only stores, forwards and converts them.
//! The wire codec lives outside the core, so the core's own value type
//! carries the shapes the proxy logic reads: booleans, integers and
//! strings.

use vstd::prelude::*;

use crate::Error;

verus! {

/// A property or body value as the proxy core sees it.
#[derive(Debug, Clone, PartialEq, Eq)]
pub enum Value {
    Bool(bool),
    U32(u32),
    U64(u64),
    Str(String),
}

/// The mathematical shape of a [`Value`].
pub enum ValueModel {
    Bool(bool),
    U32(u32),
    U64(u64),
    Str(Seq<char>),
}

impl View for Value {
    type V = ValueModel;

    open spec fn view(&self) -> ValueModel {
        match self {
            Value::Bool(b) => ValueModel::Bool(*b),
            Value::U32(x) => ValueModel::U32(*x),
            Value::U64(x) => ValueModel::U64(*x),
            Value::Str(s) => ValueModel::Str(s@),
        }
    }
}

/// The view of an optional value; `None` stands for an absent or
/// invalidated property.
pub open spec fn opt_value_view(v: Option<Value>) -> Option<ValueModel> {
    match v {
        Some(x) => Some(x@),
        None => None,
    }
}

impl Value {
    /// An owned copy with the same shape and content.
    pub fn dup(&self) -> (r: Value)
        ensures
            r@ == self@,
    {
        match self {
            Value::Bool(b) => Value::Bool(*b),
            Value::U32(x) => Value::U32(*x),
            Value::U64(x) => Value::U64(*x),
            Value::Str(s) => Value::Str(s.clone()),
        }
    }

    /// Convert to `bool`; any other shape is an invalid reply.
    pub fn as_bool(&self) -> (r: Result<bool, Error>)
        ensures
            match self@ {
                ValueModel::Bool(b) => r == Ok::<bool, Error>(b),
                _ => r == Err::<bool, Error>(Error::InvalidReply),
            },
    {
        match self {
            Value::Bool(b) => Ok(*b),
            _ => Err(Error::InvalidReply),
        }
    }

    /// Convert to `u32`; any other shape is an invalid reply.
    pub fn as_u32(&self) -> (r: Result<u32, Error>)
        ensures
            match self@ {
                ValueModel::U32(x) => r == Ok::<u32, Error>(x),
                _ => r == Err::<u32, Error>(Error::InvalidReply),
            },
    {
        match self {
            Value::U32(x) => Ok(*x),
            _ => Err(Error::InvalidReply),
        }
    }

    /// Convert to `u64`; any other shape is an invalid reply.
    pub fn as_u64(&self) -> (r: Result<u64, Error>)
        ensures
            match self@ {
                ValueModel::U64(x) => r == Ok::<u64, Error>(x),
                _ => r == Err::<u64, Error>(Error::InvalidReply),
            },
    {
        match self {
            Value::U64(x) => Ok(*x),
            _ => Err(Error::InvalidReply),
        }
    }

    /// Convert to an owned string; any other shape is an invalid reply.
    pub fn into_string(self) -> (r: Result<String, Error>)
        ensures
            match self@ {
                ValueModel::Str(s) => r matches Ok(out) && out@ == s,
                _ => r == Err::<String, Error>(Error::InvalidReply),
            },
    {
        match self {
            Value::Str(s) => Ok(s),
            _ => Err(Error::InvalidReply),
        }
    }

    /// Borrow the string content; any other shape is an invalid reply.
    pub fn as_str(&self) -> (r: Result<&str, Error>)
        ensures
            match self@ {
                ValueModel::Str(s) => r matches Ok(out) && out@ == s,
                _ => r == Err::<&str, Error>(Error::InvalidReply),
            },
    {
        match self {
            Value::Str(s) => Ok(s.as_str()),
            _ => Err(Error::InvalidReply),
        }
    }
}

} // verus!
