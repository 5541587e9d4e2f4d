//! A plain model of JSON values. The signaling protocol's framing is
//! defined over JSON arrays; the caller parses each frame and hands it in
//! as one of these values, and the session logic reads it under exact
//! contracts.

use vstd::prelude::*;

verus! {

/// A JSON value as the session logic reads it. Numbers keep their sign
/// split between the two integer variants; a number with a fractional
/// part is noted but carries no value, since nothing in the protocol
/// reads one.
#[derive(Debug)]
pub enum JsonValue {
    Null,
    Bool(bool),
    Int(i64),
    UInt(u64),
    Float,
    Str(String),
    Arr(Vec<JsonValue>),
    Obj(Vec<(String, JsonValue)>),
}

impl JsonValue {
    /// The unsigned value a JSON number denotes when it fits in `usize`,
    /// as the acknowledgment counter is read.
    pub open spec fn spec_as_usize(self) -> Option<usize> {
        match self {
            JsonValue::Int(v) => if 0 <= v as int <= usize::MAX as int {
                Some(v as usize)
            } else {
                None
            },
            JsonValue::UInt(v) => if v as int <= usize::MAX as int {
                Some(v as usize)
            } else {
                None
            },
            _ => None,
        }
    }

    /// Read a JSON number as `usize`.
    pub fn as_usize(&self) -> (r: Option<usize>)
        ensures
            r == self.spec_as_usize(),
    {
        match self {
            JsonValue::Int(v) => {
                if *v >= 0 && (*v as u64) <= (usize::MAX as u64) {
                    Some(*v as usize)
                } else {
                    None
                }
            },
            JsonValue::UInt(v) => {
                if *v <= (usize::MAX as u64) {
                    Some(*v as usize)
                } else {
                    None
                }
            },
            _ => None,
        }
    }
}

} // verus!
