//! SASL authentication (RFC 4422) helpers: the mechanism abstraction, the
//! two built-in mechanisms, and the pure steps of a challenge/response
//! exchange.  The caller owns the wire; it sends the requests built here
//! and hands the responses back.

use vstd::prelude::*;

use crate::base64::{base64_decode_of, base64_of, decode, encode};
use crate::command::Command;
use crate::error::{Error, ErrorKind, PopResult};
use crate::request::Request;
use crate::response::Response;

verus! {

/// `PLAIN` as characters.
pub open spec fn plain_mech_chars() -> Seq<char> {
    seq!['P', 'L', 'A', 'I', 'N']
}

/// `XOAUTH2` as characters.
pub open spec fn xoauth2_mech_chars() -> Seq<char> {
    seq!['X', 'O', 'A', 'U', 'T', 'H', '2']
}

/// The PLAIN initial response: NUL username NUL password.
pub open spec fn spec_plain_payload(user: Seq<char>, password: Seq<char>) -> Seq<char> {
    seq!['\u{0}'] + user + seq!['\u{0}'] + password
}

/// `user=` as characters.
pub open spec fn xo_head_chars() -> Seq<char> {
    seq!['u', 's', 'e', 'r', '=']
}

/// `\x01auth=Bearer ` as characters.
pub open spec fn xo_mid_chars() -> Seq<char> {
    seq!['\u{1}', 'a', 'u', 't', 'h', '=', 'B', 'e', 'a', 'r', 'e', 'r', ' ']
}

/// `\x01\x01` as characters.
pub open spec fn xo_tail_chars() -> Seq<char> {
    seq!['\u{1}', '\u{1}']
}

/// The XOAUTH2 initial response.
pub open spec fn spec_xoauth2_payload(user: Seq<char>, token: Seq<char>) -> Seq<char> {
    xo_head_chars() + user + xo_mid_chars() + token + xo_tail_chars()
}

/// A SASL mechanism: its name and its optional initial response, which the
/// framework base64-encodes into the `AUTH` command's second argument.
pub trait Authenticator: Sized {
    spec fn spec_mechanism(&self) -> Seq<char>;

    spec fn spec_auth(&self) -> Option<Seq<char>>;

    /// The name of the mechanism, e.g. `PLAIN` or `XOAUTH2`.
    fn mechanism(&self) -> (r: String)
        ensures
            r@ == self.spec_mechanism(),
    ;

    /// The cleartext initial response, if the mechanism has one.
    fn auth(&self) -> (r: Option<String>)
        ensures
            match r {
                Some(s) => self.spec_auth() == Some(s@),
                None => self.spec_auth() is None,
            },
    ;
}

/// The PLAIN mechanism: no interactive steps, the credentials go out in
/// the initial response.
pub struct PlainAuthenticator {
    username: String,
    password: String,
}

impl PlainAuthenticator {
    pub fn new(username: String, password: String) -> (r: PlainAuthenticator)
        ensures
            r.spec_mechanism() == plain_mech_chars(),
            r.spec_auth() == Some(spec_plain_payload(username@, password@)),
    {
        PlainAuthenticator { username, password }
    }
}

impl Authenticator for PlainAuthenticator {
    closed spec fn spec_mechanism(&self) -> Seq<char> {
        plain_mech_chars()
    }

    closed spec fn spec_auth(&self) -> Option<Seq<char>> {
        Some(spec_plain_payload(self.username@, self.password@))
    }

    fn mechanism(&self) -> (r: String) {
        proof {
            reveal_strlit("PLAIN");
        }
        let r = String::from_str("PLAIN");
        proof {
            assert(r@ =~= plain_mech_chars());
        }
        r
    }

    fn auth(&self) -> (r: Option<String>) {
        proof {
            reveal_strlit("\u{0}");
        }
        let mut s = String::from_str("\u{0}");
        s.append(self.username.as_str());
        s.append("\u{0}");
        s.append(self.password.as_str());
        proof {
            assert("\u{0}"@ =~= seq!['\u{0}']);
            assert(s@ =~= spec_plain_payload(self.username@, self.password@));
        }
        Some(s)
    }
}

/// The XOAUTH2 mechanism: no interactive steps, the bearer token goes out
/// in the initial response.
pub struct OAuth2Authenticator {
    user: String,
    access_token: String,
}

impl OAuth2Authenticator {
    pub fn new(user: String, access_token: String) -> (r: OAuth2Authenticator)
        ensures
            r.spec_mechanism() == xoauth2_mech_chars(),
            r.spec_auth() == Some(spec_xoauth2_payload(user@, access_token@)),
    {
        OAuth2Authenticator { user, access_token }
    }
}

impl Authenticator for OAuth2Authenticator {
    closed spec fn spec_mechanism(&self) -> Seq<char> {
        xoauth2_mech_chars()
    }

    closed spec fn spec_auth(&self) -> Option<Seq<char>> {
        Some(spec_xoauth2_payload(self.user@, self.access_token@))
    }

    fn mechanism(&self) -> (r: String) {
        proof {
            reveal_strlit("XOAUTH2");
        }
        let r = String::from_str("XOAUTH2");
        proof {
            assert(r@ =~= xoauth2_mech_chars());
        }
        r
    }

    fn auth(&self) -> (r: Option<String>) {
        proof {
            reveal_strlit("user=");
            reveal_strlit("\u{1}auth=Bearer ");
            reveal_strlit("\u{1}\u{1}");
        }
        let mut s = String::from_str("user=");
        s.append(self.user.as_str());
        s.append("\u{1}auth=Bearer ");
        s.append(self.access_token.as_str());
        s.append("\u{1}\u{1}");
        proof {
            assert("user="@ =~= xo_head_chars());
            assert("\u{1}auth=Bearer "@ =~= xo_mid_chars());
            assert("\u{1}\u{1}"@ =~= xo_tail_chars());
            assert(s@ =~= spec_xoauth2_payload(self.user@, self.access_token@));
        }
        Some(s)
    }
}

/// The client reply that cancels an in-progress SASL exchange: a line
/// holding exactly `*`.
pub fn cancellation() -> (r: Request)
    ensures
        r@.command matches Command::Base64(p) && p@ == seq!['*'],
        r@.args.len() == 0,
{
    proof {
        reveal_strlit("*");
    }
    let star = String::from_str("*");
    proof {
        assert(star@ =~= seq!['*']);
    }
    let r = Request::new(Command::Base64(star), Vec::new());
    proof {
        assert(r@.args =~= Seq::<Seq<char>>::empty());
    }
    r
}

/// One client continuation line: the reply bytes, base64-encoded, sent
/// verbatim as a line of their own.
pub fn continuation(secret: &[u8]) -> (r: Request)
    ensures
        r@.command matches Command::Base64(p) && p@ == base64_of(secret@),
        r@.args.len() == 0,
{
    let encoded = encode(secret);
    let r = Request::new(Command::Base64(encoded), Vec::new());
    proof {
        assert(r@.args =~= Seq::<Seq<char>>::empty());
    }
    r
}

/// Extracts and decodes one server challenge.  Anything but a continuation
/// line is either the server refusing (`ServerError`) or out of protocol
/// (`UnexpectedResponse`).
pub fn decode_challenge(response: Response) -> (r: PopResult<Vec<u8>>)
    ensures
        response@ matches crate::response::RespModel::Challenge(t) ==> (match base64_decode_of(
            t,
        ) {
            Some(v) => r matches Ok(out) && out@ == v,
            None => r matches Err(e) && e.spec_kind() is DecodeBase64,
        }),
        response@ is ServerErr ==> (r matches Err(e) && e.spec_kind() is ServerError),
        !(response@ is Challenge || response@ is ServerErr) ==> (r matches Err(e) && e.spec_kind()
            is UnexpectedResponse),
{
    match response {
        Response::Challenge(t) => decode(t.raw()),
        Response::ServerErr(t) => Err(crate::session::server_error_of(t)),
        _ => Err(
            Error::new(
                ErrorKind::UnexpectedResponse,
                String::from_str("Did not get a challenge as a response"),
            ),
        ),
    }
}

} // verus!
