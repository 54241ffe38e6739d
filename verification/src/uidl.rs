//! The `UIDL` response: unique-id listings for one message or for all.

use vstd::prelude::*;

use crate::datatype::{Number, Text};

verus! {

/// The mathematical content of a `UniqueId`.
#[verifier::ext_equal]
pub struct UniqueIdModel {
    pub index: Seq<u8>,
    pub id: Seq<u8>,
}

/// The mathematical content of a `Uidl`.
#[verifier::ext_equal]
pub struct UidlModel {
    pub message: Option<Seq<u8>>,
    pub items: Seq<UniqueIdModel>,
}

/// One unique-id listing line: a message number and its unique id.
#[derive(Debug, Clone, PartialEq, Eq)]
pub struct UniqueId {
    index: Number,
    id: Text,
}

impl View for UniqueId {
    type V = UniqueIdModel;

    closed spec fn view(&self) -> UniqueIdModel {
        UniqueIdModel { index: self.index@, id: self.id@ }
    }
}

impl DeepView for UniqueId {
    type V = UniqueIdModel;

    open spec fn deep_view(&self) -> UniqueIdModel {
        self.view()
    }
}

impl UniqueId {
    pub fn new(index: Number, id: Text) -> (r: UniqueId)
        ensures
            r@.index == index@,
            r@.id == id@,
    {
        UniqueId { index, id }
    }

    pub fn index(&self) -> (r: &Number)
        ensures
            r@ == self@.index,
    {
        &self.index
    }

    pub fn id(&self) -> (r: &Text)
        ensures
            r@ == self@.id,
    {
        &self.id
    }
}

/// A multi-line unique-id listing: the status-line message and one item per
/// message.
#[derive(Debug, Clone, PartialEq, Eq)]
pub struct Uidl {
    message: Option<Text>,
    items: Vec<UniqueId>,
}

impl View for Uidl {
    type V = UidlModel;

    closed spec fn view(&self) -> UidlModel {
        UidlModel {
            message: match self.message {
                Some(m) => Some(m@),
                None => None,
            },
            items: self.items.deep_view(),
        }
    }
}

impl Uidl {
    pub fn new(message: Option<Text>, items: Vec<UniqueId>) -> (r: Uidl)
        ensures
            r@.message == match message {
                Some(m) => Some(m@),
                None => None::<Seq<u8>>,
            },
            r@.items == items.deep_view(),
    {
        Uidl { message, items }
    }

    pub fn items(&self) -> (r: &[UniqueId])
        ensures
            r.deep_view() == self@.items,
    {
        self.items.as_slice()
    }

    pub fn message(&self) -> (r: &Option<Text>)
        ensures
            match r {
                Some(m) => self@.message == Some(m@),
                None => self@.message is None,
            },
    {
        &self.message
    }
}

/// What `uidl` returns: the whole maildrop's listing, or one message's.
#[derive(Debug, Clone, PartialEq, Eq)]
pub enum UidlResponse {
    Multiple(Uidl),
    Single(UniqueId),
}

} // verus!
