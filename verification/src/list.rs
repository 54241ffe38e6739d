//! The `LIST` response: either one message's scan listing or the whole
//! maildrop's.

use vstd::prelude::*;

use crate::datatype::Number;
use crate::stat::{StatModel, StatResponse};

verus! {

/// The mathematical content of a `ListItem`.
#[verifier::ext_equal]
pub struct ListItemModel {
    pub index: Seq<u8>,
    pub size: Seq<u8>,
}

/// The mathematical content of a `List`.
#[verifier::ext_equal]
pub struct ListModel {
    pub stats: Option<StatModel>,
    pub items: Seq<ListItemModel>,
}

/// One scan listing line: a message number and that message's size.
#[derive(Debug, Clone, PartialEq, Eq)]
pub struct ListItem {
    index: Number,
    size: Number,
}

impl View for ListItem {
    type V = ListItemModel;

    closed spec fn view(&self) -> ListItemModel {
        ListItemModel { index: self.index@, size: self.size@ }
    }
}

impl DeepView for ListItem {
    type V = ListItemModel;

    open spec fn deep_view(&self) -> ListItemModel {
        self.view()
    }
}

impl ListItem {
    pub fn new(index: Number, size: Number) -> (r: ListItem)
        ensures
            r@.index == index@,
            r@.size == size@,
    {
        ListItem { index, size }
    }

    pub fn index(&self) -> (r: &Number)
        ensures
            r@ == self@.index,
    {
        &self.index
    }

    pub fn size(&self) -> (r: &Number)
        ensures
            r@ == self@.size,
    {
        &self.size
    }
}

/// A multi-line scan listing: the optional drop statistics from the status
/// line, and one item per message.
#[derive(Debug, Clone, PartialEq, Eq)]
pub struct List {
    stats: Option<StatResponse>,
    items: Vec<ListItem>,
}

impl View for List {
    type V = ListModel;

    closed spec fn view(&self) -> ListModel {
        ListModel {
            stats: match self.stats {
                Some(s) => Some(s@),
                None => None,
            },
            items: self.items.deep_view(),
        }
    }
}

impl List {
    pub fn new(stats: Option<StatResponse>, items: Vec<ListItem>) -> (r: List)
        ensures
            r@.stats == match stats {
                Some(s) => Some(s@),
                None => None::<StatModel>,
            },
            r@.items == items.deep_view(),
    {
        List { stats, items }
    }

    pub fn items(&self) -> (r: &[ListItem])
        ensures
            r.deep_view() == self@.items,
    {
        self.items.as_slice()
    }

    pub fn stats(&self) -> (r: &Option<StatResponse>)
        ensures
            match r {
                Some(s) => self@.stats == Some(s@),
                None => self@.stats is None,
            },
    {
        &self.stats
    }
}

/// What `list` returns: the whole maildrop's listing, or one message's.
#[derive(Debug, Clone, PartialEq, Eq)]
pub enum ListResponse {
    Multiple(List),
    Single(StatResponse),
}

} // verus!
