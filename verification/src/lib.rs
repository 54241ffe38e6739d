//! A POP3 (RFC 1939) client core: session state machine, incremental
//! response parser, and SASL authentication helpers, with the transport
//! left to the caller.

mod base64;
mod capability;
mod chars;
mod command;
mod datatype;
mod error;
mod grammar;
mod list;
mod parse;
mod parser;
mod request;
mod response;
mod sasl;
mod session;
mod stat;
mod stream;
pub mod types;
mod uidl;
mod wire;

pub use base64::{decode, encode};
pub use capability::{Capabilities, Capability, Expiration};
pub use command::Command;
pub use datatype::{DataType, Duration, Number, Text};
pub use error::{Error, ErrorKind, PopResult};
pub use list::{List, ListItem, ListResponse};
pub use parse::{parse_capabilities, parse_server_response, parse_utf8_bytes};
pub use parser::{
    capability, capability_response, end_of_multiline, eol, list_stats, message_parser, parse,
    rfc822_response, stat, status, Parsed,
};
pub use request::{usize_to_string, Request};
pub use response::{Response, Status};
pub use sasl::{
    cancellation, continuation, decode_challenge, Authenticator, OAuth2Authenticator,
    PlainAuthenticator,
};
pub use session::{Client, ClientState};
pub use stat::StatResponse;
pub use stream::{CommandQueue, PopStream, MAX_BUFFER_SIZE};
pub use uidl::{Uidl, UidlResponse, UniqueId};

use vstd::prelude::*;

verus! {

} // verus!
