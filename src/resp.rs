//! The RESP wire value model.

use vstd::prelude::*;
use vstd::slice::slice_to_vec;

verus! {

/// A value of the RESP protocol.
#[derive(Debug)]
pub enum RespValue {
    Nil,
    Integer(i64),
    SimpleString(String),
    Error(String),
    BulkString(Vec<u8>),
    Array(Vec<RespValue>),
}

pub open spec fn is_bulk_string(v: RespValue) -> bool {
    v is BulkString
}

/// The byte strings of a value that is an array of bulk strings, in order; `None`
/// for a value of any other shape.
pub open spec fn bulk_strings(v: RespValue) -> Option<Seq<Seq<u8>>> {
    match v {
        RespValue::Array(items) => if forall|i: int|
            0 <= i < items@.len() ==> is_bulk_string(#[trigger] items@[i]) {
            Some(Seq::new(items@.len(), |i: int| items@[i]->BulkString_0@))
        } else {
            None
        },
        _ => None,
    }
}

impl RespValue {
    pub fn bulk_string(bytes: Vec<u8>) -> (r: RespValue)
        ensures
            r is BulkString && r->BulkString_0@ == bytes@,
    {
        RespValue::BulkString(bytes)
    }

    /// Reads the value as an array of bulk strings.
    pub fn into_bulk_strings(self) -> (r: Option<Vec<Vec<u8>>>)
        ensures
            r is None <==> bulk_strings(self) is None,
            r matches Some(args) ==> bulk_strings(self) == Some(args.deep_view()),
    {
        match self {
            RespValue::Array(items) => {
                let mut out: Vec<Vec<u8>> = Vec::new();
                let mut i: usize = 0;
                while i < items.len()
                    invariant
                        self == RespValue::Array(items),
                        0 <= i <= items@.len(),
                        out@.len() == i,
                        forall|j: int| 0 <= j < i ==> is_bulk_string(#[trigger] items@[j]),
                        forall|j: int|
                            0 <= j < i ==> (#[trigger] out@[j])@ == items@[j]->BulkString_0@,
                    decreases items@.len() - i,
                {
                    match &items[i] {
                        RespValue::BulkString(bytes) => {
                            out.push(slice_to_vec(bytes.as_slice()));
                        },
                        _ => {
                            assert(!is_bulk_string(items@[i as int]));
                            return None;
                        },
                    }
                    i += 1;
                }
                assert forall|j: int| 0 <= j < out@.len() implies #[trigger] out.deep_view()[j]
                    =~= items@[j]->BulkString_0@ by {
                    assert(out.deep_view()[j] =~= out@[j]@);
                }
                assert(out.deep_view() =~= Seq::new(
                    items@.len(),
                    |i: int| items@[i]->BulkString_0@,
                ));
                Some(out)
            },
            _ => None,
        }
    }
}

} // verus!
