//! The session controller: protocol state, capability set, deletion set,
//! and one pair of functions per POP3 operation.  `X_request` checks the
//! operation's preconditions and hands back the wire line to send (the
//! command joins the stream's queue); `X_complete` takes the decoded
//! response and applies the operation's effect.  The caller does the I/O
//! in between.

use vstd::prelude::*;

use crate::base64::{base64_of, encode};
use crate::capability::{Capabilities, CapModel, Capability};
use crate::command::Command;
use crate::datatype::Text;
use crate::error::{Error, ErrorKind, PopResult};
use crate::list::ListResponse;
use crate::request::{spec_serial, spec_udigits, usize_to_string, Request, RequestModel};
use crate::response::{RespModel, Response};
use crate::sasl::{spec_plain_payload, plain_mech_chars, Authenticator, PlainAuthenticator};
use crate::stat::StatResponse;
use crate::stream::{PopStream, StreamModel};
use crate::uidl::UidlResponse;
use crate::wire::eqi;

verus! {

/// The protocol phase the session is in.  `Update` is the transient phase
/// of a successful QUIT; a finished session is `Closed`.
#[derive(Debug, Clone, Copy, PartialEq, Eq, Structural)]
pub enum ClientState {
    Authentication,
    Transaction,
    Update,
    Closed,
}

/// The mathematical content of a `Client`.
#[verifier::ext_equal]
pub struct ClientModel {
    pub inner: Option<StreamModel>,
    pub capabilities: Seq<CapModel>,
    pub deleted: Seq<usize>,
    pub greeting: Option<Seq<u8>>,
    pub greeted: bool,
    pub state: ClientState,
}

/// A POP3 session.
#[derive(Debug)]
pub struct Client {
    inner: Option<PopStream>,
    capabilities: Capabilities,
    marked_as_del: Vec<usize>,
    greeting: Option<Text>,
    read_greeting: bool,
    state: ClientState,
}

impl View for Client {
    type V = ClientModel;

    closed spec fn view(&self) -> ClientModel {
        ClientModel {
            inner: match self.inner {
                Some(s) => Some(s@),
                None => None,
            },
            capabilities: self.capabilities.deep_view(),
            deleted: self.marked_as_del@,
            greeting: match self.greeting {
                Some(t) => Some(t@),
                None => None,
            },
            greeted: self.read_greeting,
            state: self.state,
        }
    }
}

// ---------------------------------------------------------------------------
// The checks every operation runs before any wire I/O.
// ---------------------------------------------------------------------------

/// The connection and state gate: no transport at all, a transport we
/// should no longer hold, or the wrong phase for this command.
pub open spec fn spec_gate(m: ClientModel, required: ClientState) -> Option<ErrorKind> {
    if m.inner is None {
        Some(ErrorKind::NotConnected)
    } else if !(m.state == ClientState::Transaction || m.state == ClientState::Authentication) {
        Some(ErrorKind::ShouldNotBeConnected)
    } else if m.state != required {
        Some(ErrorKind::IncorrectStateForCommand)
    } else {
        None
    }
}

/// Accepts either phase that holds a transport.
pub open spec fn spec_gate_any(m: ClientModel) -> Option<ErrorKind> {
    if m.inner is None {
        Some(ErrorKind::NotConnected)
    } else if !(m.state == ClientState::Transaction || m.state == ClientState::Authentication) {
        Some(ErrorKind::ShouldNotBeConnected)
    } else {
        None
    }
}

/// Two capabilities carry the same tag, parameters ignored.
pub open spec fn cap_tag_eq(a: CapModel, b: CapModel) -> bool {
    match (a, b) {
        (CapModel::Top, CapModel::Top) => true,
        (CapModel::User, CapModel::User) => true,
        (CapModel::Sasl(_), CapModel::Sasl(_)) => true,
        (CapModel::RespCodes, CapModel::RespCodes) => true,
        (CapModel::LoginDelay(_), CapModel::LoginDelay(_)) => true,
        (CapModel::Pipelining, CapModel::Pipelining) => true,
        (CapModel::Expire(_), CapModel::Expire(_)) => true,
        (CapModel::Uidl, CapModel::Uidl) => true,
        (CapModel::Implementation(_), CapModel::Implementation(_)) => true,
        (CapModel::Stls, CapModel::Stls) => true,
        (CapModel::Other(a), CapModel::Other(b)) => a == b,
        _ => false,
    }
}

/// The advertised set holds a capability with this tag.
pub open spec fn spec_has_capability(caps: Seq<CapModel>, c: CapModel) -> bool {
    exists|i: int| 0 <= i < caps.len() && cap_tag_eq(#[trigger] caps[i], c)
}

/// Some advertised `SASL` line lists this mechanism (ASCII
/// case-insensitively).
pub open spec fn spec_sasl_advertised(caps: Seq<CapModel>, mech: Seq<u8>) -> bool {
    exists|i: int|
        0 <= i < caps.len() && ((#[trigger] caps[i]) matches CapModel::Sasl(ms) && (exists|j: int|
            0 <= j < ms.len() && eqi(#[trigger] ms[j], mech)))
}

/// `PLAIN` as mechanism bytes.
pub open spec fn plain_mech_bytes() -> Seq<u8> {
    seq![80u8, 76u8, 65u8, 73u8, 78u8]
}

pub open spec fn spec_transaction_check(m: ClientModel) -> Option<ErrorKind> {
    spec_gate(m, ClientState::Transaction)
}

pub open spec fn spec_msg_check(m: ClientModel, n: usize) -> Option<ErrorKind> {
    match spec_gate(m, ClientState::Transaction) {
        Some(k) => Some(k),
        None => if m.deleted.contains(n) {
            Some(ErrorKind::MessageIsDeleted)
        } else {
            None
        },
    }
}

pub open spec fn spec_opt_msg_check(m: ClientModel, n: Option<usize>) -> Option<ErrorKind> {
    match spec_gate(m, ClientState::Transaction) {
        Some(k) => Some(k),
        None => match n {
            Some(n) => if m.deleted.contains(n) {
                Some(ErrorKind::MessageIsDeleted)
            } else {
                None
            },
            None => None,
        },
    }
}

pub open spec fn spec_uidl_check(m: ClientModel, n: Option<usize>) -> Option<ErrorKind> {
    match spec_gate(m, ClientState::Transaction) {
        Some(k) => Some(k),
        None => if !spec_has_capability(m.capabilities, CapModel::Uidl) {
            Some(ErrorKind::FeatureUnsupported)
        } else {
            match n {
                Some(n) => if m.deleted.contains(n) {
                    Some(ErrorKind::MessageIsDeleted)
                } else {
                    None
                },
                None => None,
            }
        },
    }
}

pub open spec fn spec_top_check(m: ClientModel, n: usize) -> Option<ErrorKind> {
    match spec_gate(m, ClientState::Transaction) {
        Some(k) => Some(k),
        None => if !spec_has_capability(m.capabilities, CapModel::Top) {
            Some(ErrorKind::FeatureUnsupported)
        } else if m.deleted.contains(n) {
            Some(ErrorKind::MessageIsDeleted)
        } else {
            None
        },
    }
}

pub open spec fn spec_auth_gate(m: ClientModel) -> Option<ErrorKind> {
    match spec_gate(m, ClientState::Authentication) {
        Some(k) => Some(k),
        None => if !m.greeted {
            Some(ErrorKind::ServerFailedToGreet)
        } else {
            None
        },
    }
}

pub open spec fn spec_auth_check(m: ClientModel, mech: Seq<u8>) -> Option<ErrorKind> {
    match spec_auth_gate(m) {
        Some(k) => Some(k),
        None => if !spec_sasl_advertised(m.capabilities, mech) {
            Some(ErrorKind::FeatureUnsupported)
        } else {
            None
        },
    }
}

/// `login` is allowed when either AUTH PLAIN or USER/PASS is available.
pub open spec fn spec_login_check(m: ClientModel) -> Option<ErrorKind> {
    match spec_auth_gate(m) {
        Some(k) => Some(k),
        None => if !(spec_sasl_advertised(m.capabilities, plain_mech_bytes())
            || spec_has_capability(m.capabilities, CapModel::User)) {
            Some(ErrorKind::FeatureUnsupported)
        } else {
            None
        },
    }
}

// ---------------------------------------------------------------------------
// The state updates the operations promise.
// ---------------------------------------------------------------------------

/// After a request line went out: the command joined the queue and the
/// send time was recorded; nothing else moved.
pub open spec fn spec_after_send(m: ClientModel, c: Command, now_ms: u64) -> ClientModel {
    ClientModel {
        inner: Some(
            StreamModel {
                buffer: m.inner->Some_0.buffer,
                queue: m.inner->Some_0.queue.push(c),
                last_activity: Some(now_ms),
            },
        ),
        ..m
    }
}

/// After a successful `dele(n)`: `n` joined the deletion set.
pub open spec fn spec_dele_mark(m: ClientModel, n: usize) -> ClientModel {
    ClientModel {
        deleted: if m.deleted.contains(n) {
            m.deleted
        } else {
            m.deleted.push(n)
        },
        ..m
    }
}

/// After a successful `rset()`: the deletion set is empty.
pub open spec fn spec_rset_clear(m: ClientModel) -> ClientModel {
    ClientModel { deleted: Seq::empty(), ..m }
}

/// After a successful `quit()`: the transport is gone, the session data is
/// cleared, and the state is `Closed`.
pub open spec fn spec_quit_close(m: ClientModel) -> ClientModel {
    ClientModel {
        inner: None,
        capabilities: Seq::empty(),
        deleted: Seq::empty(),
        greeted: false,
        state: ClientState::Closed,
        ..m
    }
}

/// After a successful authentication step: the session is in TRANSACTION.
pub open spec fn spec_to_transaction(m: ClientModel) -> ClientModel {
    ClientModel { state: ClientState::Transaction, ..m }
}

/// The line `X_request` promises: the serialized request plus CRLF.
pub open spec fn spec_line(c: Command, args: Seq<Seq<char>>) -> Seq<char> {
    spec_serial(RequestModel { command: c, args }) + seq!['\r', '\n']
}

/// Builds a `ServerError` from the text after `-ERR`.
pub fn server_error_of(text: Text) -> (r: Error)
    ensures
        r.spec_kind() is ServerError,
{
    let msg = match crate::parse::parse_utf8_bytes(text.into_bytes()) {
        Ok(s) => s,
        Err(_e) => String::new(),
    };
    Error::new(ErrorKind::ServerError(msg), String::from_str("Server error"))
}

impl Client {
    /// A fresh session around a newly connected transport: AUTHORIZATION
    /// phase, nothing buffered, nothing advertised, nothing deleted, the
    /// greeting still unread.
    pub fn new() -> (r: Client)
        ensures
            r@ == (ClientModel {
                inner: Some(
                    StreamModel {
                        buffer: Seq::empty(),
                        queue: Seq::empty(),
                        last_activity: None,
                    },
                ),
                capabilities: Seq::empty(),
                deleted: Seq::empty(),
                greeting: None,
                greeted: false,
                state: ClientState::Authentication,
            }),
    {
        let r = Client {
            inner: Some(PopStream::new()),
            capabilities: Vec::new(),
            marked_as_del: Vec::new(),
            greeting: None,
            read_greeting: false,
            state: ClientState::Authentication,
        };
        proof {
            assert(r@ =~= (ClientModel {
                inner: Some(
                    StreamModel {
                        buffer: Seq::<u8>::empty(),
                        queue: Seq::<Command>::empty(),
                        last_activity: None,
                    },
                ),
                capabilities: Seq::<CapModel>::empty(),
                deleted: Seq::<usize>::empty(),
                greeting: None,
                greeted: false,
                state: ClientState::Authentication,
            }));
        }
        r
    }

    /// The current protocol phase.
    pub fn get_state(&self) -> (r: &ClientState)
        ensures
            *r == self@.state,
    {
        &self.state
    }

    /// The capability set the server last advertised.
    pub fn capabilities(&self) -> (r: &Capabilities)
        ensures
            r.deep_view() == self@.capabilities,
    {
        &self.capabilities
    }

    /// The greeting the server sent when the connection opened.
    pub fn greeting(&self) -> (r: Option<&Text>)
        ensures
            match r {
                Some(t) => self@.greeting == Some(t@),
                None => self@.greeting is None,
            },
    {
        self.greeting.as_ref()
    }

    /// Whether `msg_number` is in the deletion set (P1's observer).
    pub fn is_deleted(&self, msg_number: &usize) -> (r: bool)
        ensures
            r == self@.deleted.contains(*msg_number),
    {
        let mut i: usize = 0;
        while i < self.marked_as_del.len()
            invariant
                0 <= i <= self.marked_as_del@.len(),
                forall|j: int| 0 <= j < i ==> self.marked_as_del@[j] != *msg_number,
                self@.deleted == self.marked_as_del@,
            decreases self.marked_as_del@.len() - i,
        {
            if self.marked_as_del[i] == *msg_number {
                return true;
            }
            i = i + 1;
        }
        false
    }

    /// Whether the server advertises a capability with this tag (tags
    /// compare with parameters ignored, so `Sasl(..)` matches any `SASL`).
    pub fn has_capability(&self, capability: &Capability) -> (r: bool)
        ensures
            r == spec_has_capability(self@.capabilities, capability@),
    {
        let mut i: usize = 0;
        while i < self.capabilities.len()
            invariant
                0 <= i <= self.capabilities@.len(),
                self@.capabilities == self.capabilities.deep_view(),
                self.capabilities.deep_view().len() == self.capabilities@.len(),
                forall|j: int| 0 <= j < i ==> !cap_tag_eq(
                    #[trigger] self.capabilities.deep_view()[j],
                    capability@,
                ),
            decreases self.capabilities@.len() - i,
        {
            if same_tag(&self.capabilities[i], capability) {
                proof {
                    assert(cap_tag_eq(self@.capabilities[i as int], capability@));
                }
                return true;
            }
            i = i + 1;
        }
        proof {
            assert forall|j: int| 0 <= j < self@.capabilities.len() implies !cap_tag_eq(
                #[trigger] self@.capabilities[j],
                capability@,
            ) by {
                assert(!cap_tag_eq(self.capabilities.deep_view()[j], capability@));
            }
        }
        false
    }

    /// Whether some advertised `SASL` line lists this mechanism.
    pub fn sasl_supports(&self, mechanism: &[u8]) -> (r: bool)
        ensures
            r == spec_sasl_advertised(self@.capabilities, mechanism@),
    {
        let mut i: usize = 0;
        while i < self.capabilities.len()
            invariant
                0 <= i <= self.capabilities@.len(),
                self@.capabilities == self.capabilities.deep_view(),
                self.capabilities.deep_view().len() == self.capabilities@.len(),
                forall|j: int|
                    0 <= j < i ==> !((#[trigger] self.capabilities.deep_view()[j])
                        matches CapModel::Sasl(ms) && (exists|k: int|
                        0 <= k < ms.len() && eqi(#[trigger] ms[k], mechanism@))),
            decreases self.capabilities@.len() - i,
        {
            match &self.capabilities[i] {
                Capability::Sasl(ms) => {
                    let mut k: usize = 0;
                    while k < ms.len()
                        invariant
                            0 <= k <= ms@.len(),
                            0 <= i < self.capabilities@.len(),
                            self.capabilities@[i as int] == Capability::Sasl(*ms),
                            self@.capabilities == self.capabilities.deep_view(),
                            self.capabilities.deep_view().len() == self.capabilities@.len(),
                            ms.deep_view().len() == ms@.len(),
                            forall|t: int| 0 <= t < k ==> !eqi(
                                #[trigger] ms.deep_view()[t],
                                mechanism@,
                            ),
                        decreases ms@.len() - k,
                    {
                        if crate::wire::eqi_bytes(ms[k].raw(), mechanism) {
                            proof {
                                assert(ms.deep_view()[k as int] == ms@[k as int]@);
                                assert(eqi(ms.deep_view()[k as int], mechanism@));
                                assert(self.capabilities.deep_view()[i as int] == CapModel::Sasl(
                                    ms.deep_view(),
                                ));
                                assert(self@.capabilities[i as int] == CapModel::Sasl(
                                    ms.deep_view(),
                                ));
                                assert(self@.capabilities[i as int]->Sasl_0[k as int]
                                    == ms.deep_view()[k as int]);
                                assert(eqi(
                                    self@.capabilities[i as int]->Sasl_0[k as int],
                                    mechanism@,
                                ));
                                assert(spec_sasl_advertised(self@.capabilities, mechanism@));
                            }
                            return true;
                        }
                        k = k + 1;
                    }
                },
                _ => {},
            }
            i = i + 1;
        }
        proof {
            assert forall|j: int| 0 <= j < self@.capabilities.len() implies !((
            #[trigger] self@.capabilities[j]) matches CapModel::Sasl(ms) && (exists|t: int|
                0 <= t < ms.len() && eqi(#[trigger] ms[t], mechanism@))) by {
                assert(!(self.capabilities.deep_view()[j] matches CapModel::Sasl(ms2) && (
                exists|t: int| 0 <= t < ms2.len() && eqi(#[trigger] ms2[t], mechanism@))));
            }
        }
        false
    }

    /// When the last request line was handed out, if the session still has
    /// its transport.
    pub fn last_activity(&self) -> (r: PopResult<Option<u64>>)
        ensures
            match spec_gate_any(self@) {
                Some(k) => r matches Err(e) && e.spec_kind() == k,
                None => r matches Ok(t) && t == self@.inner->Some_0.last_activity,
            },
    {
        if let Some(e) = self.gate_any() {
            return Err(e);
        }
        match &self.inner {
            Some(stream) => Ok(stream.last_activity()),
            None => Err(not_connected()),
        }
    }

    /// The framed stream, if the session still has one.
    pub fn inner(&self) -> (r: &Option<PopStream>)
        ensures
            match r {
                Some(s) => self@.inner == Some(s@),
                None => self@.inner is None,
            },
    {
        &self.inner
    }

    /// Gives the framed stream up to the caller.
    pub fn into_inner(self) -> (r: Option<PopStream>)
        ensures
            match r {
                Some(s) => self@.inner == Some(s@),
                None => self@.inner is None,
            },
    {
        self.inner
    }

    /// Appends transport bytes to the read buffer.
    pub fn feed(&mut self, data: &[u8]) -> (r: PopResult<()>)
        ensures
            match old(self)@.inner {
                None => r matches Err(e) && e.spec_kind() is NotConnected && final (self)@ == old(
                    self,
                )@,
                Some(s) => {
                    &&& (s.buffer.len() + data@.len() <= crate::stream::MAX_BUFFER_SIZE <==> r
                        is Ok)
                    &&& (r matches Ok(u) ==> final (self)@ == (ClientModel {
                        inner: Some(StreamModel { buffer: s.buffer + data@, ..s }),
                        ..old(self)@
                    }))
                    &&& (r matches Err(e) ==> e.spec_kind() is ResponseTooLarge && final (self)@
                        == old(self)@)
                },
            },
    {
        match &mut self.inner {
            Some(stream) => stream.feed(data),
            None => Err(not_connected()),
        }
    }

    /// What a read of zero bytes means right now.
    pub fn on_eof(&self) -> (r: PopResult<()>)
        ensures
            self@.inner is None ==> (r matches Err(e) && e.spec_kind() is NotConnected),
            self@.inner matches Some(s) ==> match r {
                Ok(u) => s.queue.len() == 0,
                Err(e) => s.queue.len() > 0 && e.spec_kind() is ConnectionClosed,
            },
    {
        match &self.inner {
            Some(stream) => stream.on_eof(),
            None => Err(not_connected()),
        }
    }

    /// One decode attempt on the buffered bytes, directed by the queue
    /// head (P6: the decoded response always has the head command's
    /// shape).
    pub fn try_response(&mut self) -> (r: PopResult<Option<Response>>)
        ensures
            match old(self)@.inner {
                None => r matches Err(e) && e.spec_kind() is NotConnected && final (self)@ == old(
                    self,
                )@,
                Some(s) => if s.queue.len() == 0 {
                    r matches Err(e) && e.spec_kind() is MissingRequest && final (self)@ == old(
                        self,
                    )@
                } else {
                    (match crate::grammar::spec_parse(s.buffer, s.queue[0]) {
                    crate::grammar::SpecParsed::More => r matches Ok(o) && o is None && final(self)@ == old(self)@,
                    crate::grammar::SpecParsed::Bad => r matches Err(e) && e.spec_kind()
                        is InvalidResponse && final (self)@ == old(self)@,
                    crate::grammar::SpecParsed::Done { used, resp } => r matches Ok(o) && o
                        matches Some(response) && response@ == resp && final (self)@ == (
                    ClientModel {
                        inner: Some(
                            StreamModel {
                                buffer: s.buffer.skip(used),
                                queue: s.queue.drop_first(),
                                ..s
                            },
                        ),
                        ..old(self)@
                    }),
                    })
                },
            },
    {
        match &mut self.inner {
            Some(stream) => stream.try_decode(),
            None => Err(not_connected()),
        }
    }

    // -----------------------------------------------------------------------
    // Request builders.
    // -----------------------------------------------------------------------

    fn gate(&self, required: ClientState) -> (r: Option<Error>)
        ensures
            match spec_gate(self@, required) {
                Some(k) => r matches Some(e) && e.spec_kind() == k,
                None => r is None,
            },
    {
        if self.inner.is_none() {
            Some(not_connected())
        } else if !(matches!(self.state, ClientState::Transaction) || matches!(
            self.state,
            ClientState::Authentication,
        )) {
            Some(
                Error::new(
                    ErrorKind::ShouldNotBeConnected,
                    String::from_str(
                        "There is a connection, but our state indicates that we should not be connected",
                    ),
                ),
            )
        } else if !state_eq(&self.state, &required) {
            Some(
                Error::new(
                    ErrorKind::IncorrectStateForCommand,
                    String::from_str("The connection is not the right state to use this command"),
                ),
            )
        } else {
            None
        }
    }

    fn gate_any(&self) -> (r: Option<Error>)
        ensures
            match spec_gate_any(self@) {
                Some(k) => r matches Some(e) && e.spec_kind() == k,
                None => r is None,
            },
    {
        if self.inner.is_none() {
            Some(not_connected())
        } else if !(matches!(self.state, ClientState::Transaction) || matches!(
            self.state,
            ClientState::Authentication,
        )) {
            Some(
                Error::new(
                    ErrorKind::ShouldNotBeConnected,
                    String::from_str(
                        "There is a connection, but our state indicates that we should not be connected",
                    ),
                ),
            )
        } else {
            None
        }
    }

    fn push_request(&mut self, request: &Request, now_ms: u64) -> (line: String)
        requires
            old(self)@.inner is Some,
        ensures
            line@ == spec_serial(request@) + seq!['\r', '\n'],
            final (self)@ == spec_after_send(old(self)@, request@.command, now_ms),
    {
        match &mut self.inner {
            Some(stream) => {
                let line = stream.enqueue_request(request, now_ms);
                proof {
                    assert(final (self)@ =~= spec_after_send(
                        old(self)@,
                        request@.command,
                        now_ms,
                    ));
                }
                line
            },
            None => {
                proof {
                    assert(false);
                }
                String::new()
            },
        }
    }

    /// `NOOP`: the server does nothing and replies `+OK`.
    pub fn noop_request(&mut self, now_ms: u64) -> (r: PopResult<String>)
        ensures
            match spec_transaction_check(old(self)@) {
                Some(k) => r matches Err(e) && e.spec_kind() == k && final (self)@ == old(self)@,
                None => r matches Ok(line) && line@ == spec_line(Command::Noop, Seq::empty())
                    && final (self)@ == spec_after_send(old(self)@, Command::Noop, now_ms),
            },
    {
        if let Some(e) = self.gate(ClientState::Transaction) {
            return Err(e);
        }
        let request = Request::new(Command::Noop, Vec::new());
        proof {
            assert(request@.args =~= Seq::<Seq<char>>::empty());
        }
        Ok(self.push_request(&request, now_ms))
    }

    /// `STAT`: asks for the drop listing.
    pub fn stat_request(&mut self, now_ms: u64) -> (r: PopResult<String>)
        ensures
            match spec_transaction_check(old(self)@) {
                Some(k) => r matches Err(e) && e.spec_kind() == k && final (self)@ == old(self)@,
                None => r matches Ok(line) && line@ == spec_line(Command::Stat, Seq::empty())
                    && final (self)@ == spec_after_send(old(self)@, Command::Stat, now_ms),
            },
    {
        if let Some(e) = self.gate(ClientState::Transaction) {
            return Err(e);
        }
        let request = Request::new(Command::Stat, Vec::new());
        proof {
            assert(request@.args =~= Seq::<Seq<char>>::empty());
        }
        Ok(self.push_request(&request, now_ms))
    }

    /// `RSET`: asks the server to unmark every deleted message.
    pub fn rset_request(&mut self, now_ms: u64) -> (r: PopResult<String>)
        ensures
            match spec_transaction_check(old(self)@) {
                Some(k) => r matches Err(e) && e.spec_kind() == k && final (self)@ == old(self)@,
                None => r matches Ok(line) && line@ == spec_line(Command::Rset, Seq::empty())
                    && final (self)@ == spec_after_send(old(self)@, Command::Rset, now_ms),
            },
    {
        if let Some(e) = self.gate(ClientState::Transaction) {
            return Err(e);
        }
        let request = Request::new(Command::Rset, Vec::new());
        proof {
            assert(request@.args =~= Seq::<Seq<char>>::empty());
        }
        Ok(self.push_request(&request, now_ms))
    }

    /// `QUIT`: ends the session.
    pub fn quit_request(&mut self, now_ms: u64) -> (r: PopResult<String>)
        ensures
            match spec_gate_any(old(self)@) {
                Some(k) => r matches Err(e) && e.spec_kind() == k && final (self)@ == old(self)@,
                None => r matches Ok(line) && line@ == spec_line(Command::Quit, Seq::empty())
                    && final (self)@ == spec_after_send(old(self)@, Command::Quit, now_ms),
            },
    {
        if let Some(e) = self.gate_any() {
            return Err(e);
        }
        let request = Request::new(Command::Quit, Vec::new());
        proof {
            assert(request@.args =~= Seq::<Seq<char>>::empty());
        }
        Ok(self.push_request(&request, now_ms))
    }

    /// `CAPA`: asks for the server's capability list.
    pub fn capa_request(&mut self, now_ms: u64) -> (r: PopResult<String>)
        ensures
            match spec_gate_any(old(self)@) {
                Some(k) => r matches Err(e) && e.spec_kind() == k && final (self)@ == old(self)@,
                None => r matches Ok(line) && line@ == spec_line(Command::Capa, Seq::empty())
                    && final (self)@ == spec_after_send(old(self)@, Command::Capa, now_ms),
            },
    {
        if let Some(e) = self.gate_any() {
            return Err(e);
        }
        let request = Request::new(Command::Capa, Vec::new());
        proof {
            assert(request@.args =~= Seq::<Seq<char>>::empty());
        }
        Ok(self.push_request(&request, now_ms))
    }

    /// `DELE n`: asks the server to mark message `n` deleted.
    pub fn dele_request(&mut self, msg_number: usize, now_ms: u64) -> (r: PopResult<String>)
        ensures
            match spec_msg_check(old(self)@, msg_number) {
                Some(k) => r matches Err(e) && e.spec_kind() == k && final (self)@ == old(self)@,
                None => r matches Ok(line) && line@ == spec_line(
                    Command::Dele,
                    seq![spec_udigits(msg_number as nat)],
                ) && final (self)@ == spec_after_send(old(self)@, Command::Dele, now_ms),
            },
    {
        if let Some(e) = self.gate(ClientState::Transaction) {
            return Err(e);
        }
        if self.is_deleted(&msg_number) {
            return Err(message_deleted());
        }
        let request = Request::new(Command::Dele, vec![usize_to_string(msg_number)]);
        proof {
            assert(request@.args =~= seq![spec_udigits(msg_number as nat)]);
        }
        Ok(self.push_request(&request, now_ms))
    }

    /// `RETR n`: asks for message `n`'s full text.
    pub fn retr_request(&mut self, msg_number: usize, now_ms: u64) -> (r: PopResult<String>)
        ensures
            match spec_msg_check(old(self)@, msg_number) {
                Some(k) => r matches Err(e) && e.spec_kind() == k && final (self)@ == old(self)@,
                None => r matches Ok(line) && line@ == spec_line(
                    Command::Retr,
                    seq![spec_udigits(msg_number as nat)],
                ) && final (self)@ == spec_after_send(old(self)@, Command::Retr, now_ms),
            },
    {
        if let Some(e) = self.gate(ClientState::Transaction) {
            return Err(e);
        }
        if self.is_deleted(&msg_number) {
            return Err(message_deleted());
        }
        let request = Request::new(Command::Retr, vec![usize_to_string(msg_number)]);
        proof {
            assert(request@.args =~= seq![spec_udigits(msg_number as nat)]);
        }
        Ok(self.push_request(&request, now_ms))
    }

    /// `TOP n k`: asks for message `n`'s headers and `k` body lines.
    pub fn top_request(&mut self, msg_number: usize, lines: usize, now_ms: u64) -> (r: PopResult<
        String,
    >)
        ensures
            match spec_top_check(old(self)@, msg_number) {
                Some(k) => r matches Err(e) && e.spec_kind() == k && final (self)@ == old(self)@,
                None => r matches Ok(line) && line@ == spec_line(
                    Command::Top,
                    seq![spec_udigits(msg_number as nat), spec_udigits(lines as nat)],
                ) && final (self)@ == spec_after_send(old(self)@, Command::Top, now_ms),
            },
    {
        if let Some(e) = self.gate(ClientState::Transaction) {
            return Err(e);
        }
        if !self.has_capability(&Capability::Top) {
            return Err(feature_unsupported());
        }
        if self.is_deleted(&msg_number) {
            return Err(message_deleted());
        }
        let request = Request::new(
            Command::Top,
            vec![usize_to_string(msg_number), usize_to_string(lines)],
        );
        proof {
            assert(request@.args =~= seq![
                spec_udigits(msg_number as nat),
                spec_udigits(lines as nat),
            ]);
        }
        Ok(self.push_request(&request, now_ms))
    }

    /// `LIST` or `LIST n`: asks for the scan listing.
    pub fn list_request(&mut self, msg_number: Option<usize>, now_ms: u64) -> (r: PopResult<
        String,
    >)
        ensures
            match spec_opt_msg_check(old(self)@, msg_number) {
                Some(k) => r matches Err(e) && e.spec_kind() == k && final (self)@ == old(self)@,
                None => r matches Ok(line) && line@ == spec_line(
                    Command::List,
                    match msg_number {
                        Some(n) => seq![spec_udigits(n as nat)],
                        None => Seq::empty(),
                    },
                ) && final (self)@ == spec_after_send(old(self)@, Command::List, now_ms),
            },
    {
        if let Some(e) = self.gate(ClientState::Transaction) {
            return Err(e);
        }
        if let Some(n) = msg_number {
            if self.is_deleted(&n) {
                return Err(message_deleted());
            }
        }
        let request = match msg_number {
            Some(n) => {
                let request = Request::new(Command::List, vec![usize_to_string(n)]);
                proof {
                    assert(request@.args =~= seq![spec_udigits(n as nat)]);
                }
                request
            },
            None => {
                let request = Request::new(Command::List, Vec::new());
                proof {
                    assert(request@.args =~= Seq::<Seq<char>>::empty());
                }
                request
            },
        };
        Ok(self.push_request(&request, now_ms))
    }

    /// `UIDL` or `UIDL n`: asks for unique-id listings; needs the `UIDL`
    /// capability.
    pub fn uidl_request(&mut self, msg_number: Option<usize>, now_ms: u64) -> (r: PopResult<
        String,
    >)
        ensures
            match spec_uidl_check(old(self)@, msg_number) {
                Some(k) => r matches Err(e) && e.spec_kind() == k && final (self)@ == old(self)@,
                None => r matches Ok(line) && line@ == spec_line(
                    Command::Uidl,
                    match msg_number {
                        Some(n) => seq![spec_udigits(n as nat)],
                        None => Seq::empty(),
                    },
                ) && final (self)@ == spec_after_send(old(self)@, Command::Uidl, now_ms),
            },
    {
        if let Some(e) = self.gate(ClientState::Transaction) {
            return Err(e);
        }
        if !self.has_capability(&Capability::Uidl) {
            return Err(feature_unsupported());
        }
        if let Some(n) = msg_number {
            if self.is_deleted(&n) {
                return Err(message_deleted());
            }
        }
        let request = match msg_number {
            Some(n) => {
                let request = Request::new(Command::Uidl, vec![usize_to_string(n)]);
                proof {
                    assert(request@.args =~= seq![spec_udigits(n as nat)]);
                }
                request
            },
            None => {
                let request = Request::new(Command::Uidl, Vec::new());
                proof {
                    assert(request@.args =~= Seq::<Seq<char>>::empty());
                }
                request
            },
        };
        Ok(self.push_request(&request, now_ms))
    }

    /// `APOP name digest`: digest authentication.  The caller computes the
    /// MD5 digest from the greeting's timestamp.
    pub fn apop_request(&mut self, name: &str, digest: &str, now_ms: u64) -> (r: PopResult<
        String,
    >)
        ensures
            match spec_auth_gate(old(self)@) {
                Some(k) => r matches Err(e) && e.spec_kind() == k && final (self)@ == old(self)@,
                None => r matches Ok(line) && line@ == spec_line(
                    Command::Apop,
                    seq![name@, digest@],
                ) && final (self)@ == spec_after_send(old(self)@, Command::Apop, now_ms),
            },
    {
        if let Some(e) = self.gate(ClientState::Authentication) {
            return Err(e);
        }
        if !self.read_greeting {
            return Err(not_greeted());
        }
        let request = Request::new(
            Command::Apop,
            vec![String::from_str(name), String::from_str(digest)],
        );
        proof {
            assert(request@.args =~= seq![name@, digest@]);
        }
        Ok(self.push_request(&request, now_ms))
    }

    /// `USER name`: the first half of a cleartext login.
    pub fn user_request(&mut self, user: &str, now_ms: u64) -> (r: PopResult<String>)
        ensures
            match spec_auth_gate(old(self)@) {
                Some(k) => r matches Err(e) && e.spec_kind() == k && final (self)@ == old(self)@,
                None => r matches Ok(line) && line@ == spec_line(Command::User, seq![user@])
                    && final (self)@ == spec_after_send(old(self)@, Command::User, now_ms),
            },
    {
        if let Some(e) = self.gate(ClientState::Authentication) {
            return Err(e);
        }
        if !self.read_greeting {
            return Err(not_greeted());
        }
        let request = Request::new(Command::User, vec![String::from_str(user)]);
        proof {
            assert(request@.args =~= seq![user@]);
        }
        Ok(self.push_request(&request, now_ms))
    }

    /// `PASS password`: the second half of a cleartext login.
    pub fn pass_request(&mut self, password: &str, now_ms: u64) -> (r: PopResult<String>)
        ensures
            match spec_auth_gate(old(self)@) {
                Some(k) => r matches Err(e) && e.spec_kind() == k && final (self)@ == old(self)@,
                None => r matches Ok(line) && line@ == spec_line(
                    Command::Pass,
                    seq![password@],
                ) && final (self)@ == spec_after_send(old(self)@, Command::Pass, now_ms),
            },
    {
        if let Some(e) = self.gate(ClientState::Authentication) {
            return Err(e);
        }
        if !self.read_greeting {
            return Err(not_greeted());
        }
        let request = Request::new(Command::Pass, vec![String::from_str(password)]);
        proof {
            assert(request@.args =~= seq![password@]);
        }
        Ok(self.push_request(&request, now_ms))
    }

    /// `AUTH mechanism [initial]`: starts a SASL exchange with the given
    /// mechanism; the server must advertise it.  The initial response, if
    /// the mechanism has one, goes out base64-encoded.
    pub fn auth_request<A: Authenticator>(&mut self, authenticator: &A, now_ms: u64) -> (r:
        PopResult<String>)
        ensures
            match spec_auth_check(
                old(self)@,
                vstd::utf8::encode_utf8(authenticator.spec_mechanism()),
            ) {
                Some(k) => r matches Err(e) && e.spec_kind() == k && final (self)@ == old(self)@,
                None => r matches Ok(line) && line@ == spec_line(
                    Command::Auth,
                    match authenticator.spec_auth() {
                        Some(p) => seq![
                            authenticator.spec_mechanism(),
                            base64_of(vstd::utf8::encode_utf8(p)),
                        ],
                        None => seq![authenticator.spec_mechanism()],
                    },
                ) && final (self)@ == spec_after_send(old(self)@, Command::Auth, now_ms),
            },
    {
        if let Some(e) = self.gate(ClientState::Authentication) {
            return Err(e);
        }
        if !self.read_greeting {
            return Err(not_greeted());
        }
        let mechanism = authenticator.mechanism();
        if !self.sasl_supports(mechanism.as_str().as_bytes()) {
            return Err(feature_unsupported());
        }
        let request = match authenticator.auth() {
            Some(payload) => {
                let encoded = encode(payload.as_str().as_bytes());
                let request = Request::new(Command::Auth, vec![mechanism, encoded]);
                proof {
                    assert(request@.args =~= seq![
                        authenticator.spec_mechanism(),
                        base64_of(vstd::utf8::encode_utf8(authenticator.spec_auth()->Some_0)),
                    ]);
                }
                request
            },
            None => {
                let request = Request::new(Command::Auth, vec![mechanism]);
                proof {
                    assert(request@.args =~= seq![authenticator.spec_mechanism()]);
                }
                request
            },
        };
        Ok(self.push_request(&request, now_ms))
    }

    /// `login`: AUTH PLAIN when the server advertises it (P12), USER/PASS
    /// otherwise.  Returns the first line to send and whether the SASL
    /// path was taken; on the USER/PASS path the caller follows up with
    /// `pass_request` after the USER reply.
    pub fn login_request(&mut self, user: &str, password: &str, now_ms: u64) -> (r: PopResult<
        (String, bool),
    >)
        ensures
            match spec_login_check(old(self)@) {
                Some(k) => r matches Err(e) && e.spec_kind() == k && final (self)@ == old(self)@,
                None => r matches Ok(p) && if spec_sasl_advertised(
                    old(self)@.capabilities,
                    plain_mech_bytes(),
                ) {
                    p.1 == true && p.0@ == spec_line(
                        Command::Auth,
                        seq![
                            plain_mech_chars(),
                            base64_of(
                                vstd::utf8::encode_utf8(spec_plain_payload(user@, password@)),
                            ),
                        ],
                    ) && final (self)@ == spec_after_send(old(self)@, Command::Auth, now_ms)
                } else {
                    p.1 == false && p.0@ == spec_line(Command::User, seq![user@]) && final(self)@ == spec_after_send(old(self)@, Command::User, now_ms)
                },
            },
    {
        if let Some(e) = self.gate(ClientState::Authentication) {
            return Err(e);
        }
        if !self.read_greeting {
            return Err(not_greeted());
        }
        let mut plain: Vec<u8> = Vec::new();
        plain.push(80);
        plain.push(76);
        plain.push(65);
        plain.push(73);
        plain.push(78);
        proof {
            assert(plain@ =~= plain_mech_bytes());
        }
        if self.sasl_supports(plain.as_slice()) {
            let authenticator = PlainAuthenticator::new(
                String::from_str(user),
                String::from_str(password),
            );
            let payload = match authenticator.auth() {
                Some(p) => p,
                None => {
                    proof {
                        assert(false);
                    }
                    String::new()
                },
            };
            let encoded = encode(payload.as_str().as_bytes());
            let mechanism = authenticator.mechanism();
            let request = Request::new(Command::Auth, vec![mechanism, encoded]);
            proof {
                assert(request@.args =~= seq![
                    plain_mech_chars(),
                    base64_of(vstd::utf8::encode_utf8(spec_plain_payload(user@, password@))),
                ]);
            }
            Ok((self.push_request(&request, now_ms), true))
        } else {
            if !self.has_capability(&Capability::User) {
                return Err(feature_unsupported());
            }
            let request = Request::new(Command::User, vec![String::from_str(user)]);
            proof {
                assert(request@.args =~= seq![user@]);
            }
            Ok((self.push_request(&request, now_ms), false))
        }
    }

    /// Expects the unsolicited greeting banner: queues the `GREET`
    /// pseudo-command, against which the banner line will be parsed.
    pub fn greet_request(&mut self) -> (r: PopResult<()>)
        requires
            !old(self)@.greeted,
        ensures
            match spec_gate_any(old(self)@) {
                Some(k) => r matches Err(e) && e.spec_kind() == k && final (self)@ == old(self)@,
                None => r matches Ok(u) && final (self)@ == (ClientModel {
                    inner: Some(
                        StreamModel {
                            queue: old(self)@.inner->Some_0.queue.push(Command::Greet),
                            ..old(self)@.inner->Some_0
                        },
                    ),
                    ..old(self)@
                }),
            },
    {
        if let Some(e) = self.gate_any() {
            return Err(e);
        }
        match &mut self.inner {
            Some(stream) => {
                stream.expect(Command::Greet);
                proof {
                    assert(final (self)@ =~= (ClientModel {
                        inner: Some(
                            StreamModel {
                                queue: old(self)@.inner->Some_0.queue.push(Command::Greet),
                                ..old(self)@.inner->Some_0
                            },
                        ),
                        ..old(self)@
                    }));
                }
                Ok(())
            },
            None => Err(not_connected()),
        }
    }

    // -----------------------------------------------------------------------
    // Response handlers.
    // -----------------------------------------------------------------------

    /// The greeting arrived (P7): its text is kept and the session counts
    /// as greeted.
    pub fn greet_complete(&mut self, response: Response) -> (r: PopResult<()>)
        ensures
            response@ matches RespModel::Message(t) ==> (r matches Ok(u) && final (self)@ == (
            ClientModel { greeting: Some(t), greeted: true, ..old(self)@ })),
            response@ is ServerErr ==> (r matches Err(e) && e.spec_kind() is ServerError && final(self)@ == old(self)@),
            !(response@ is Message || response@ is ServerErr) ==> (r matches Err(e)
                && e.spec_kind() is UnexpectedResponse && final (self)@ == old(self)@),
    {
        match response {
            Response::Message(text) => {
                self.greeting = Some(text);
                self.read_greeting = true;
                proof {
                    assert(final (self)@ =~= (ClientModel {
                        greeting: final (self)@.greeting,
                        greeted: true,
                        ..old(self)@
                    }));
                }
                Ok(())
            },
            Response::ServerErr(text) => Err(server_error_of(text)),
            _ => Err(unexpected("Did not received the expected greeting")),
        }
    }

    /// A bare `+OK` reply, as `NOOP` gets.
    pub fn noop_complete(&self, response: Response) -> (r: PopResult<()>)
        ensures
            response@ is Message ==> r is Ok,
            response@ is ServerErr ==> (r matches Err(e) && e.spec_kind() is ServerError),
            !(response@ is Message || response@ is ServerErr) ==> (r matches Err(e)
                && e.spec_kind() is UnexpectedResponse),
    {
        match response {
            Response::Message(_text) => Ok(()),
            Response::ServerErr(text) => Err(server_error_of(text)),
            _ => Err(unexpected("Did not received the expected noop response")),
        }
    }

    /// The drop listing arrived (P8).
    pub fn stat_complete(&self, response: Response) -> (r: PopResult<StatResponse>)
        ensures
            response@ matches RespModel::Stat(m) ==> (r matches Ok(s) && s@ == m),
            response@ is ServerErr ==> (r matches Err(e) && e.spec_kind() is ServerError),
            !(response@ is Stat || response@ is ServerErr) ==> (r matches Err(e) && e.spec_kind()
                is UnexpectedResponse),
    {
        match response {
            Response::Stat(stat) => Ok(stat),
            Response::ServerErr(text) => Err(server_error_of(text)),
            _ => Err(unexpected("Did not received the expected stat response")),
        }
    }

    /// A scan listing arrived (P9): the multi-line form, or the one-line
    /// form for a single message.
    pub fn list_complete(&self, response: Response) -> (r: PopResult<ListResponse>)
        ensures
            response@ matches RespModel::List(m) ==> (r matches Ok(l) && l@
                == crate::response::ListRespModel::Multiple(m)),
            response@ matches RespModel::Stat(m) ==> (r matches Ok(l) && l@
                == crate::response::ListRespModel::Single(m)),
            response@ is ServerErr ==> (r matches Err(e) && e.spec_kind() is ServerError),
            !(response@ is List || response@ is Stat || response@ is ServerErr) ==> (r matches Err(
                e,
            ) && e.spec_kind() is UnexpectedResponse),
    {
        match response {
            Response::List(list) => Ok(ListResponse::Multiple(list)),
            Response::Stat(stat) => Ok(ListResponse::Single(stat)),
            Response::ServerErr(text) => Err(server_error_of(text)),
            _ => Err(unexpected("Did not received the expected list response")),
        }
    }

    /// A unique-id listing arrived (P10).
    pub fn uidl_complete(&self, response: Response) -> (r: PopResult<UidlResponse>)
        ensures
            response@ matches RespModel::Uidl(m) ==> (r matches Ok(u) && u@ == m),
            response@ is ServerErr ==> (r matches Err(e) && e.spec_kind() is ServerError),
            !(response@ is Uidl || response@ is ServerErr) ==> (r matches Err(e) && e.spec_kind()
                is UnexpectedResponse),
    {
        match response {
            Response::Uidl(uidl) => Ok(uidl),
            Response::ServerErr(text) => Err(server_error_of(text)),
            _ => Err(unexpected("Did not received the expected uidl response")),
        }
    }

    /// A message body arrived (P4, P11): the bytes are the server's body,
    /// dot-unstuffed, without the terminator.
    pub fn retr_complete(&self, response: Response) -> (r: PopResult<Vec<u8>>)
        ensures
            response@ matches RespModel::Bytes(b) ==> (r matches Ok(v) && v@ == b),
            response@ is ServerErr ==> (r matches Err(e) && e.spec_kind() is ServerError),
            !(response@ is Bytes || response@ is ServerErr) ==> (r matches Err(e) && e.spec_kind()
                is UnexpectedResponse),
    {
        match response {
            Response::Bytes(bytes) => Ok(bytes),
            Response::ServerErr(text) => Err(server_error_of(text)),
            _ => Err(unexpected("Did not received the expected retr response")),
        }
    }

    /// The headers-and-lines body of `TOP` arrived, same shape as `RETR`.
    pub fn top_complete(&self, response: Response) -> (r: PopResult<Vec<u8>>)
        ensures
            response@ matches RespModel::Bytes(b) ==> (r matches Ok(v) && v@ == b),
            response@ is ServerErr ==> (r matches Err(e) && e.spec_kind() is ServerError),
            !(response@ is Bytes || response@ is ServerErr) ==> (r matches Err(e) && e.spec_kind()
                is UnexpectedResponse),
    {
        match response {
            Response::Bytes(bytes) => Ok(bytes),
            Response::ServerErr(text) => Err(server_error_of(text)),
            _ => Err(unexpected("Did not received the expected top response")),
        }
    }

    /// The `DELE` reply arrived: on success `msg_number` joins the
    /// deletion set (P1).
    pub fn dele_complete(&mut self, msg_number: usize, response: Response) -> (r: PopResult<Text>)
        ensures
            response@ matches RespModel::Message(t) ==> (r matches Ok(text) && text@ == t
                && final (self)@ == spec_dele_mark(old(self)@, msg_number)),
            response@ is ServerErr ==> (r matches Err(e) && e.spec_kind() is ServerError && final(self)@ == old(self)@),
            !(response@ is Message || response@ is ServerErr) ==> (r matches Err(e)
                && e.spec_kind() is UnexpectedResponse && final (self)@ == old(self)@),
    {
        match response {
            Response::Message(text) => {
                if !self.is_deleted(&msg_number) {
                    self.marked_as_del.push(msg_number);
                }
                proof {
                    assert(final (self)@ =~= spec_dele_mark(old(self)@, msg_number));
                }
                Ok(text)
            },
            Response::ServerErr(text) => Err(server_error_of(text)),
            _ => Err(unexpected("Did not received the expected dele response")),
        }
    }

    /// The `RSET` reply arrived: on success the deletion set empties (P1).
    pub fn rset_complete(&mut self, response: Response) -> (r: PopResult<Text>)
        ensures
            response@ matches RespModel::Message(t) ==> (r matches Ok(text) && text@ == t
                && final (self)@ == spec_rset_clear(old(self)@)),
            response@ is ServerErr ==> (r matches Err(e) && e.spec_kind() is ServerError && final(self)@ == old(self)@),
            !(response@ is Message || response@ is ServerErr) ==> (r matches Err(e)
                && e.spec_kind() is UnexpectedResponse && final (self)@ == old(self)@),
    {
        match response {
            Response::Message(text) => {
                self.marked_as_del.clear();
                proof {
                    assert(final (self)@ =~= spec_rset_clear(old(self)@));
                }
                Ok(text)
            },
            Response::ServerErr(text) => Err(server_error_of(text)),
            _ => Err(unexpected("Did not received the expected rset response")),
        }
    }

    /// The `QUIT` reply arrived: on success the session passes through
    /// UPDATE and closes (P2): the transport is dropped, the deletion and
    /// capability sets clear, the greeted flag resets.
    pub fn quit_complete(&mut self, response: Response) -> (r: PopResult<Text>)
        ensures
            response@ matches RespModel::Message(t) ==> (r matches Ok(text) && text@ == t
                && final (self)@ == spec_quit_close(old(self)@)),
            response@ is ServerErr ==> (r matches Err(e) && e.spec_kind() is ServerError && final(self)@ == old(self)@),
            !(response@ is Message || response@ is ServerErr) ==> (r matches Err(e)
                && e.spec_kind() is UnexpectedResponse && final (self)@ == old(self)@),
    {
        match response {
            Response::Message(text) => {
                self.state = ClientState::Update;
                self.inner = None;
                self.marked_as_del.clear();
                self.capabilities.clear();
                self.read_greeting = false;
                self.state = ClientState::Closed;
                proof {
                    assert(self.capabilities.deep_view() =~= Seq::<CapModel>::empty());
                    assert(final (self)@ =~= spec_quit_close(old(self)@));
                }
                Ok(text)
            },
            Response::ServerErr(text) => Err(server_error_of(text)),
            _ => Err(unexpected("Did not received the expected quit response")),
        }
    }

    /// The `CAPA` reply arrived (P3's data): on success the advertised set
    /// replaces the old one; on `-ERR` the old set stays, as a `CAPA`
    /// failure is not fatal.
    pub fn capa_complete(&mut self, response: Response) -> (r: PopResult<()>)
        ensures
            response@ matches RespModel::Capability(caps) ==> (r matches Ok(u) && final (self)@
                == (ClientModel { capabilities: caps, ..old(self)@ })),
            response@ is ServerErr ==> (r matches Err(e) && e.spec_kind() is ServerError && final(self)@ == old(self)@),
            !(response@ is Capability || response@ is ServerErr) ==> (r matches Err(e)
                && e.spec_kind() is UnexpectedResponse && final (self)@ == old(self)@),
    {
        match response {
            Response::Capability(caps) => {
                self.capabilities = caps;
                proof {
                    assert(final (self)@ =~= (ClientModel {
                        capabilities: final (self)@.capabilities,
                        ..old(self)@
                    }));
                }
                Ok(())
            },
            Response::ServerErr(text) => Err(server_error_of(text)),
            _ => Err(unexpected("Did not received the expected capa response")),
        }
    }

    /// The `APOP` reply arrived: on success the session enters
    /// TRANSACTION.
    pub fn apop_complete(&mut self, response: Response) -> (r: PopResult<Text>)
        ensures
            response@ matches RespModel::Message(t) ==> (r matches Ok(text) && text@ == t
                && final (self)@ == spec_to_transaction(old(self)@)),
            response@ is ServerErr ==> (r matches Err(e) && e.spec_kind() is ServerError && final(self)@ == old(self)@),
            !(response@ is Message || response@ is ServerErr) ==> (r matches Err(e)
                && e.spec_kind() is UnexpectedResponse && final (self)@ == old(self)@),
    {
        match response {
            Response::Message(text) => {
                self.state = ClientState::Transaction;
                proof {
                    assert(final (self)@ =~= spec_to_transaction(old(self)@));
                }
                Ok(text)
            },
            Response::ServerErr(text) => Err(server_error_of(text)),
            _ => Err(unexpected("Did not received the expected apop response")),
        }
    }

    /// The final `AUTH` reply arrived: on success the session enters
    /// TRANSACTION (P12's last step).
    pub fn auth_complete(&mut self, response: Response) -> (r: PopResult<Text>)
        ensures
            response@ matches RespModel::Message(t) ==> (r matches Ok(text) && text@ == t
                && final (self)@ == spec_to_transaction(old(self)@)),
            response@ is ServerErr ==> (r matches Err(e) && e.spec_kind() is ServerError && final(self)@ == old(self)@),
            !(response@ is Message || response@ is ServerErr) ==> (r matches Err(e)
                && e.spec_kind() is UnexpectedResponse && final (self)@ == old(self)@),
    {
        match response {
            Response::Message(text) => {
                self.state = ClientState::Transaction;
                proof {
                    assert(final (self)@ =~= spec_to_transaction(old(self)@));
                }
                Ok(text)
            },
            Response::ServerErr(text) => Err(server_error_of(text)),
            _ => Err(unexpected("Did not received the expected auth response")),
        }
    }

    /// The `USER` reply arrived: no state change, `PASS` follows.
    pub fn user_complete(&self, response: Response) -> (r: PopResult<Text>)
        ensures
            response@ matches RespModel::Message(t) ==> (r matches Ok(text) && text@ == t),
            response@ is ServerErr ==> (r matches Err(e) && e.spec_kind() is ServerError),
            !(response@ is Message || response@ is ServerErr) ==> (r matches Err(e)
                && e.spec_kind() is UnexpectedResponse),
    {
        match response {
            Response::Message(text) => Ok(text),
            Response::ServerErr(text) => Err(server_error_of(text)),
            _ => Err(unexpected("Did not received the expected user response")),
        }
    }

    /// The `PASS` reply arrived: on success the session enters
    /// TRANSACTION.
    pub fn pass_complete(&mut self, response: Response) -> (r: PopResult<Text>)
        ensures
            response@ matches RespModel::Message(t) ==> (r matches Ok(text) && text@ == t
                && final (self)@ == spec_to_transaction(old(self)@)),
            response@ is ServerErr ==> (r matches Err(e) && e.spec_kind() is ServerError && final(self)@ == old(self)@),
            !(response@ is Message || response@ is ServerErr) ==> (r matches Err(e)
                && e.spec_kind() is UnexpectedResponse && final (self)@ == old(self)@),
    {
        match response {
            Response::Message(text) => {
                self.state = ClientState::Transaction;
                proof {
                    assert(final (self)@ =~= spec_to_transaction(old(self)@));
                }
                Ok(text)
            },
            Response::ServerErr(text) => Err(server_error_of(text)),
            _ => Err(unexpected("Did not received the expected pass response")),
        }
    }
}

fn state_eq(a: &ClientState, b: &ClientState) -> (r: bool)
    ensures
        r == (*a == *b),
{
    match (a, b) {
        (ClientState::Authentication, ClientState::Authentication) => true,
        (ClientState::Transaction, ClientState::Transaction) => true,
        (ClientState::Update, ClientState::Update) => true,
        (ClientState::Closed, ClientState::Closed) => true,
        _ => false,
    }
}

/// Whether two capabilities carry the same tag.
pub fn same_tag(a: &Capability, b: &Capability) -> (r: bool)
    ensures
        r == cap_tag_eq(a@, b@),
{
    match (a, b) {
        (Capability::Top, Capability::Top) => true,
        (Capability::User, Capability::User) => true,
        (Capability::Sasl(_), Capability::Sasl(_)) => true,
        (Capability::RespCodes, Capability::RespCodes) => true,
        (Capability::LoginDelay(_), Capability::LoginDelay(_)) => true,
        (Capability::Pipelining, Capability::Pipelining) => true,
        (Capability::Expire(_), Capability::Expire(_)) => true,
        (Capability::Uidl, Capability::Uidl) => true,
        (Capability::Implementation(_), Capability::Implementation(_)) => true,
        (Capability::Stls, Capability::Stls) => true,
        (Capability::Other(x), Capability::Other(y)) => crate::wire::bytes_eq(x.raw(), y.raw()),
        _ => false,
    }
}

fn not_connected() -> (r: Error)
    ensures
        r.spec_kind() is NotConnected,
{
    Error::new(ErrorKind::NotConnected, String::from_str("Not connected to any server"))
}

fn not_greeted() -> (r: Error)
    ensures
        r.spec_kind() is ServerFailedToGreet,
{
    Error::new(
        ErrorKind::ServerFailedToGreet,
        String::from_str(
            "Did not connect to the server correctly, as we did not get a greeting yet",
        ),
    )
}

fn message_deleted() -> (r: Error)
    ensures
        r.spec_kind() is MessageIsDeleted,
{
    Error::new(
        ErrorKind::MessageIsDeleted,
        String::from_str(
            "This message has been marked as deleted and cannot be refenced anymore",
        ),
    )
}

fn feature_unsupported() -> (r: Error)
    ensures
        r.spec_kind() is FeatureUnsupported,
{
    Error::new(
        ErrorKind::FeatureUnsupported,
        String::from_str("The remote pop server does not support this command/function"),
    )
}

fn unexpected(message: &str) -> (r: Error)
    ensures
        r.spec_kind() is UnexpectedResponse,
{
    Error::new(ErrorKind::UnexpectedResponse, String::from_str(message))
}

// ---------------------------------------------------------------------------
// The deletion-set and closing laws.
// ---------------------------------------------------------------------------

/// P1, first half: after the state change a successful `dele(n)` promises,
/// `is_deleted(n)` holds.
pub proof fn lemma_dele_then_is_deleted(m: ClientModel, n: usize)
    ensures
        spec_dele_mark(m, n).deleted.contains(n),
{
    if !m.deleted.contains(n) {
        assert(m.deleted.push(n)[m.deleted.len() as int] == n);
    }
}

/// P1, second half: after the state change a successful `rset()` promises,
/// `is_deleted(n)` is false for every `n`.
pub proof fn lemma_rset_clears(m: ClientModel, n: usize)
    ensures
        !spec_rset_clear(m).deleted.contains(n),
{
}

/// P2: after the state change a successful `quit()` promises, the session
/// is `Closed`, holds no transport, and every operation's precondition
/// check fails with `NotConnected`.
pub proof fn lemma_quit_then_not_connected(m: ClientModel, n: usize, k: Option<usize>)
    ensures
        spec_quit_close(m).inner is None,
        spec_quit_close(m).state == ClientState::Closed,
        spec_transaction_check(spec_quit_close(m)) == Some(ErrorKind::NotConnected),
        spec_gate_any(spec_quit_close(m)) == Some(ErrorKind::NotConnected),
        spec_msg_check(spec_quit_close(m), n) == Some(ErrorKind::NotConnected),
        spec_opt_msg_check(spec_quit_close(m), k) == Some(ErrorKind::NotConnected),
        spec_uidl_check(spec_quit_close(m), k) == Some(ErrorKind::NotConnected),
        spec_top_check(spec_quit_close(m), n) == Some(ErrorKind::NotConnected),
        spec_auth_gate(spec_quit_close(m)) == Some(ErrorKind::NotConnected),
        spec_login_check(spec_quit_close(m)) == Some(ErrorKind::NotConnected),
{
}

} // verus!

