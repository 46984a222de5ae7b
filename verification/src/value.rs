//! Schema-free structured values.
//!
//! Scope entries and the global scope schema carry arbitrary structured data
//! whose meaning is interpreted by the command implementation that receives
//! it, never by the engine itself. The engine only stores and moves these
//! values, so they are modelled as a closed sum over the usual structured
//! shapes: null, boolean, integer, string, sequence and mapping.

use vstd::prelude::*;

verus! {

/// An opaque structured value attached to a scope or a schema.
#[derive(Debug, PartialEq)]
pub enum Value {
    /// The absence of a value.
    Null,
    /// A boolean.
    Bool(bool),
    /// A signed integer.
    Number(i64),
    /// A non-integral number, carried as the bit pattern of an IEEE double
    /// so the engine itself stays free of floating point.
    Float(u64),
    /// A string.
    Text(String),
    /// A list of values.
    List(Vec<Value>),
    /// A mapping from string keys to values, in declaration order.
    Dict(Vec<(String, Value)>),
}

} // verus!
