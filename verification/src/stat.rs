//! The `STAT` response: a message count and a maildrop size, both lazy.

use vstd::prelude::*;

use crate::datatype::Number;

verus! {

/// The mathematical content of a `StatResponse`.
#[verifier::ext_equal]
pub struct StatModel {
    pub count: Seq<u8>,
    pub size: Seq<u8>,
}

/// A drop listing: how many messages the maildrop holds and its total size
/// in octets, kept as the raw digit bytes.
#[derive(Debug, Clone, PartialEq, Eq)]
pub struct StatResponse {
    message_count: Number,
    size: Number,
}

impl View for StatResponse {
    type V = StatModel;

    closed spec fn view(&self) -> StatModel {
        StatModel { count: self.message_count@, size: self.size@ }
    }
}

impl StatResponse {
    pub fn new(message_count: Number, size: Number) -> (r: StatResponse)
        ensures
            r@.count == message_count@,
            r@.size == size@,
    {
        StatResponse { message_count, size }
    }

    pub fn counter(&self) -> (r: &Number)
        ensures
            r@ == self@.count,
    {
        &self.message_count
    }

    pub fn size(&self) -> (r: &Number)
        ensures
            r@ == self@.size,
    {
        &self.size
    }
}

} // verus!
