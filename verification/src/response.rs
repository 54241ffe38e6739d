//! The tagged union of everything a POP3 server can reply with.

use vstd::prelude::*;

use crate::capability::{CapModel, Capability};
use crate::datatype::Text;
use crate::list::{List, ListModel};
use crate::stat::{StatModel, StatResponse};
use crate::uidl::{UidlModel, UidlResponse};

verus! {

/// Whether a status line began with `+OK` (success) or `-ERR`.
#[derive(Debug, Clone, PartialEq, Eq)]
pub struct Status {
    success: bool,
}

impl Status {
    pub fn new(success: bool) -> (r: Status)
        ensures
            r.spec_success() == success,
    {
        Status { success }
    }

    pub closed spec fn spec_success(&self) -> bool {
        self.success
    }

    pub fn success(&self) -> (r: bool)
        ensures
            r == self.spec_success(),
    {
        self.success
    }
}

/// The mathematical content of a `UidlResponse`.
#[verifier::ext_equal]
pub enum UidlRespModel {
    Multiple(UidlModel),
    Single(crate::uidl::UniqueIdModel),
}

/// The mathematical content of a `ListResponse`.
#[verifier::ext_equal]
pub enum ListRespModel {
    Multiple(ListModel),
    Single(StatModel),
}

/// The mathematical content of a `Response`.
#[verifier::ext_equal]
pub enum RespModel {
    Stat(StatModel),
    List(ListModel),
    Bytes(Seq<u8>),
    Uidl(UidlRespModel),
    Capability(Seq<CapModel>),
    Message(Seq<u8>),
    Challenge(Seq<u8>),
    ServerErr(Seq<u8>),
}

/// One complete server reply, tagged by shape.  `Challenge` is a SASL
/// continuation line; `Err` is any `-ERR` reply.
#[derive(Debug, Clone)]
pub enum Response {
    Stat(StatResponse),
    List(List),
    Bytes(Vec<u8>),
    Uidl(UidlResponse),
    Capability(Vec<Capability>),
    Message(Text),
    Challenge(Text),
    ServerErr(Text),
}

impl View for UidlResponse {
    type V = UidlRespModel;

    open spec fn view(&self) -> UidlRespModel {
        match *self {
            UidlResponse::Multiple(u) => UidlRespModel::Multiple(u@),
            UidlResponse::Single(u) => UidlRespModel::Single(u@),
        }
    }
}

impl View for crate::list::ListResponse {
    type V = ListRespModel;

    open spec fn view(&self) -> ListRespModel {
        match *self {
            crate::list::ListResponse::Multiple(l) => ListRespModel::Multiple(l@),
            crate::list::ListResponse::Single(s) => ListRespModel::Single(s@),
        }
    }
}

impl View for Response {
    type V = RespModel;

    open spec fn view(&self) -> RespModel {
        match *self {
            Response::Stat(s) => RespModel::Stat(s@),
            Response::List(l) => RespModel::List(l@),
            Response::Bytes(b) => RespModel::Bytes(b@),
            Response::Uidl(UidlResponse::Multiple(u)) => RespModel::Uidl(
                UidlRespModel::Multiple(u@),
            ),
            Response::Uidl(UidlResponse::Single(u)) => RespModel::Uidl(UidlRespModel::Single(u@)),
            Response::Capability(caps) => RespModel::Capability(caps.deep_view()),
            Response::Message(t) => RespModel::Message(t@),
            Response::Challenge(t) => RespModel::Challenge(t@),
            Response::ServerErr(t) => RespModel::ServerErr(t@),
        }
    }
}

} // verus!
