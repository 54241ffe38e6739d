//! Server capabilities (RFC 2449): the tagged capability set, the grammar of
//! one `CAPA` body line, and a canonical writer for it.

use vstd::prelude::*;
use vstd::slice::slice_subrange;

use crate::datatype::{Duration, DurationModel, Number, Text};
use crate::wire::{
    upper_byte,
    all_spaces, all_spaces_in, eqi, eqi_bytes, is_digit_byte, is_printable_byte, is_space_byte,
    scan_digits, scan_digits_at, scan_printable, scan_printable_at, scan_spaces, scan_spaces_at,
    scan_token, scan_token_at, SP,
};

verus! {

/// How long the server keeps messages (the `EXPIRE` capability).
#[derive(Debug, Clone, PartialEq, Eq, Default)]
pub enum Expiration {
    #[default]
    Never,
    Time(Duration),
}

/// One advertised capability.  `has_capability` compares by tag only, so a
/// query for `Sasl(..)` matches any advertised `SASL` line.
#[derive(Debug, Clone, PartialEq, Eq)]
pub enum Capability {
    /// Whether the TOP command is supported.
    Top,
    /// Whether the USER and PASS commands (login) are supported.
    User,
    /// Which SASL mechanisms are available (RFC 1734).
    Sasl(Vec<Text>),
    /// Whether the server uses extended response codes (RFC 2449).
    RespCodes,
    /// The minimum delay between logins.
    LoginDelay(Duration),
    /// Whether the server supports pipelining.
    Pipelining,
    /// How long the server will keep messages.
    Expire(Expiration),
    /// Whether the UIDL command is supported.
    Uidl,
    /// The implementation banner the server advertises.
    Implementation(Text),
    Stls,
    /// A capability this library has no own tag for, kept verbatim.
    Other(Text),
}

pub type Capabilities = Vec<Capability>;

/// The mathematical content of an `Expiration`.
#[verifier::ext_equal]
pub enum ExpirationModel {
    Never,
    Time(DurationModel),
}

/// The mathematical content of a `Capability`, over plain byte sequences.
#[verifier::ext_equal]
pub enum CapModel {
    Top,
    User,
    Sasl(Seq<Seq<u8>>),
    RespCodes,
    LoginDelay(DurationModel),
    Pipelining,
    Expire(ExpirationModel),
    Uidl,
    Implementation(Seq<u8>),
    Stls,
    Other(Seq<u8>),
}

impl View for Expiration {
    type V = ExpirationModel;

    open spec fn view(&self) -> ExpirationModel {
        match *self {
            Expiration::Never => ExpirationModel::Never,
            Expiration::Time(d) => ExpirationModel::Time(d@),
        }
    }
}

impl View for Capability {
    type V = CapModel;

    open spec fn view(&self) -> CapModel {
        match *self {
            Capability::Top => CapModel::Top,
            Capability::User => CapModel::User,
            Capability::Sasl(ms) => CapModel::Sasl(ms.deep_view()),
            Capability::RespCodes => CapModel::RespCodes,
            Capability::LoginDelay(d) => CapModel::LoginDelay(d@),
            Capability::Pipelining => CapModel::Pipelining,
            Capability::Expire(e) => CapModel::Expire(e@),
            Capability::Uidl => CapModel::Uidl,
            Capability::Implementation(t) => CapModel::Implementation(t@),
            Capability::Stls => CapModel::Stls,
            Capability::Other(t) => CapModel::Other(t@),
        }
    }
}

impl DeepView for Capability {
    type V = CapModel;

    open spec fn deep_view(&self) -> CapModel {
        self.view()
    }
}

/// Seconds per day: the unit of a numeric `EXPIRE` argument.
pub const SECS_PER_DAY: u64 = 86400;

pub open spec fn kw_top() -> Seq<u8> {
    seq![84u8, 79u8, 80u8]
}

pub open spec fn kw_user() -> Seq<u8> {
    seq![85u8, 83u8, 69u8, 82u8]
}

pub open spec fn kw_sasl() -> Seq<u8> {
    seq![83u8, 65u8, 83u8, 76u8]
}

pub open spec fn kw_resp_codes() -> Seq<u8> {
    seq![82u8, 69u8, 83u8, 80u8, 45u8, 67u8, 79u8, 68u8, 69u8, 83u8]
}

pub open spec fn kw_login_delay() -> Seq<u8> {
    seq![76u8, 79u8, 71u8, 73u8, 78u8, 45u8, 68u8, 69u8, 76u8, 65u8, 89u8]
}

pub open spec fn kw_pipelining() -> Seq<u8> {
    seq![80u8, 73u8, 80u8, 69u8, 76u8, 73u8, 78u8, 73u8, 78u8, 71u8]
}

pub open spec fn kw_expire() -> Seq<u8> {
    seq![69u8, 88u8, 80u8, 73u8, 82u8, 69u8]
}

pub open spec fn kw_never() -> Seq<u8> {
    seq![78u8, 69u8, 86u8, 69u8, 82u8]
}

pub open spec fn kw_uidl() -> Seq<u8> {
    seq![85u8, 73u8, 68u8, 76u8]
}

pub open spec fn kw_implementation() -> Seq<u8> {
    seq![73u8, 77u8, 80u8, 76u8, 69u8, 77u8, 69u8, 78u8, 84u8, 65u8, 84u8, 73u8, 79u8, 78u8]
}

pub open spec fn kw_stls() -> Seq<u8> {
    seq![83u8, 84u8, 76u8, 83u8]
}

/// A byte allowed in an unrecognized capability name: uppercase letters,
/// digits, and `-`.
pub open spec fn is_other_byte(b: u8) -> bool {
    (65 <= b <= 90) || is_digit_byte(b) || b == 45
}

pub open spec fn is_other_name(s: Seq<u8>) -> bool {
    s.len() > 0 && forall|i: int| 0 <= i < s.len() ==> is_other_byte(#[trigger] s[i])
}

/// The space-separated tokens of a SASL argument list.  `None` when a byte
/// that is neither a space nor printable occurs.
pub open spec fn spec_tokens(s: Seq<u8>) -> Option<Seq<Seq<u8>>>
    decreases s.len(),
{
    if s.len() == 0 {
        Some(Seq::empty())
    } else if is_space_byte(s[0]) {
        spec_tokens(s.skip(1))
    } else {
        let p = scan_printable(s, 0);
        if p <= 0 || p > s.len() {
            None
        } else {
            match spec_tokens(s.skip(p)) {
                Some(r) => Some(seq![s.subrange(0, p)] + r),
                None => None,
            }
        }
    }
}

/// A single numeric argument: a digit run, then only spaces.
pub open spec fn spec_digit_arg(rest: Seq<u8>) -> Option<Seq<u8>> {
    let d = scan_digits(rest, 0);
    if d > 0 && all_spaces(rest.subrange(d, rest.len() as int)) {
        Some(rest.subrange(0, d))
    } else {
        None
    }
}

/// Trailing spaces removed.
pub open spec fn trim_trailing_spaces(s: Seq<u8>) -> Seq<u8>
    decreases s.len(),
{
    if s.len() > 0 && is_space_byte(s.last()) {
        trim_trailing_spaces(s.drop_last())
    } else {
        s
    }
}

/// The grammar of one `CAPA` body line (without its CRLF).  Keywords are
/// matched case-insensitively; an unknown name is kept verbatim when it is
/// made of uppercase letters, digits and `-`; anything else makes the whole
/// response malformed.
pub open spec fn spec_cap_line(line: Seq<u8>) -> Option<CapModel> {
    let t = scan_token(line, 0);
    let tok = line.subrange(0, t);
    let rs = scan_spaces(line, t);
    let rest = line.subrange(rs, line.len() as int);
    if eqi(tok, kw_top()) {
        if all_spaces(rest) {
            Some(CapModel::Top)
        } else {
            None
        }
    } else if eqi(tok, kw_user()) {
        if all_spaces(rest) {
            Some(CapModel::User)
        } else {
            None
        }
    } else if eqi(tok, kw_sasl()) {
        match spec_tokens(rest) {
            Some(ms) => Some(CapModel::Sasl(ms)),
            None => None,
        }
    } else if eqi(tok, kw_resp_codes()) {
        if all_spaces(rest) {
            Some(CapModel::RespCodes)
        } else {
            None
        }
    } else if eqi(tok, kw_login_delay()) {
        match spec_digit_arg(rest) {
            Some(d) => Some(CapModel::LoginDelay(DurationModel { digits: d, mult: 1 })),
            None => None,
        }
    } else if eqi(tok, kw_pipelining()) {
        if all_spaces(rest) {
            Some(CapModel::Pipelining)
        } else {
            None
        }
    } else if eqi(tok, kw_expire()) {
        if all_spaces(rest) {
            Some(CapModel::Expire(ExpirationModel::Never))
        } else {
            match spec_digit_arg(rest) {
                Some(d) => Some(
                    CapModel::Expire(
                        ExpirationModel::Time(DurationModel { digits: d, mult: SECS_PER_DAY }),
                    ),
                ),
                None => {
                    let t2 = scan_token(rest, 0);
                    if eqi(rest.subrange(0, t2), kw_never()) && all_spaces(
                        rest.subrange(t2, rest.len() as int),
                    ) {
                        Some(CapModel::Expire(ExpirationModel::Never))
                    } else {
                        None
                    }
                },
            }
        }
    } else if eqi(tok, kw_uidl()) {
        if all_spaces(rest) {
            Some(CapModel::Uidl)
        } else {
            None
        }
    } else if eqi(tok, kw_implementation()) {
        Some(CapModel::Implementation(trim_trailing_spaces(rest)))
    } else if eqi(tok, kw_stls()) {
        if all_spaces(rest) {
            Some(CapModel::Stls)
        } else {
            None
        }
    } else {
        if is_other_name(tok) && all_spaces(rest) {
            Some(CapModel::Other(tok))
        } else {
            None
        }
    }
}

fn kw_vec_top() -> (r: Vec<u8>)
    ensures
        r@ =~= kw_top(),
{
    let mut v: Vec<u8> = Vec::new();
    v.push(84);
    v.push(79);
    v.push(80);
    v
}

fn kw_vec_user() -> (r: Vec<u8>)
    ensures
        r@ =~= kw_user(),
{
    let mut v: Vec<u8> = Vec::new();
    v.push(85);
    v.push(83);
    v.push(69);
    v.push(82);
    v
}

fn kw_vec_sasl() -> (r: Vec<u8>)
    ensures
        r@ =~= kw_sasl(),
{
    let mut v: Vec<u8> = Vec::new();
    v.push(83);
    v.push(65);
    v.push(83);
    v.push(76);
    v
}

fn kw_vec_resp_codes() -> (r: Vec<u8>)
    ensures
        r@ =~= kw_resp_codes(),
{
    let mut v: Vec<u8> = Vec::new();
    v.push(82);
    v.push(69);
    v.push(83);
    v.push(80);
    v.push(45);
    v.push(67);
    v.push(79);
    v.push(68);
    v.push(69);
    v.push(83);
    v
}

fn kw_vec_login_delay() -> (r: Vec<u8>)
    ensures
        r@ =~= kw_login_delay(),
{
    let mut v: Vec<u8> = Vec::new();
    v.push(76);
    v.push(79);
    v.push(71);
    v.push(73);
    v.push(78);
    v.push(45);
    v.push(68);
    v.push(69);
    v.push(76);
    v.push(65);
    v.push(89);
    v
}

fn kw_vec_pipelining() -> (r: Vec<u8>)
    ensures
        r@ =~= kw_pipelining(),
{
    let mut v: Vec<u8> = Vec::new();
    v.push(80);
    v.push(73);
    v.push(80);
    v.push(69);
    v.push(76);
    v.push(73);
    v.push(78);
    v.push(73);
    v.push(78);
    v.push(71);
    v
}

fn kw_vec_expire() -> (r: Vec<u8>)
    ensures
        r@ =~= kw_expire(),
{
    let mut v: Vec<u8> = Vec::new();
    v.push(69);
    v.push(88);
    v.push(80);
    v.push(73);
    v.push(82);
    v.push(69);
    v
}

fn kw_vec_never() -> (r: Vec<u8>)
    ensures
        r@ =~= kw_never(),
{
    let mut v: Vec<u8> = Vec::new();
    v.push(78);
    v.push(69);
    v.push(86);
    v.push(69);
    v.push(82);
    v
}

fn kw_vec_uidl() -> (r: Vec<u8>)
    ensures
        r@ =~= kw_uidl(),
{
    let mut v: Vec<u8> = Vec::new();
    v.push(85);
    v.push(73);
    v.push(68);
    v.push(76);
    v
}

fn kw_vec_implementation() -> (r: Vec<u8>)
    ensures
        r@ =~= kw_implementation(),
{
    let mut v: Vec<u8> = Vec::new();
    v.push(73);
    v.push(77);
    v.push(80);
    v.push(76);
    v.push(69);
    v.push(77);
    v.push(69);
    v.push(78);
    v.push(84);
    v.push(65);
    v.push(84);
    v.push(73);
    v.push(79);
    v.push(78);
    v
}

fn kw_vec_stls() -> (r: Vec<u8>)
    ensures
        r@ =~= kw_stls(),
{
    let mut v: Vec<u8> = Vec::new();
    v.push(83);
    v.push(84);
    v.push(76);
    v.push(83);
    v
}

/// Splits a SASL argument list into its space-separated tokens.
fn tokens_of(rest: &[u8]) -> (r: Option<Vec<Text>>)
    ensures
        match r {
            Some(ms) => spec_tokens(rest@) == Some(ms.deep_view()),
            None => spec_tokens(rest@) is None,
        },
{
    let mut ms: Vec<Text> = Vec::new();
    let mut i: usize = 0;
    proof {
        assert(rest@.skip(0) =~= rest@);
    }
    while i < rest.len()
        invariant
            0 <= i <= rest@.len(),
            spec_tokens(rest@) matches Some(all) ==> spec_tokens(rest@.skip(i as int)) matches Some(
                tail,
            ) && all == ms.deep_view() + tail,
            spec_tokens(rest@) is None <==> spec_tokens(rest@.skip(i as int)) is None,
        decreases rest@.len() - i,
    {
        if rest[i] == SP {
            proof {
                assert(rest@.skip(i as int).skip(1) =~= rest@.skip(i as int + 1));
            }
            i = i + 1;
        } else {
            let p = scan_printable_at(rest, i);
            proof {
                lemma_scan_printable_offset(rest@, i as int, i as int);
            }
            if p == i {
                return None;
            }
            let tok = slice_subrange(rest, i, p);
            let ghost ms_old = ms.deep_view();
            ms.push(Text::new(crate::wire::copy_bytes(tok)));
            proof {
                assert(rest@.skip(i as int).subrange(0, p - i) =~= rest@.subrange(
                    i as int,
                    p as int,
                ));
                assert(rest@.skip(i as int).skip(p - i) =~= rest@.skip(p as int));
                assert(ms.deep_view() =~= ms_old + seq![rest@.subrange(i as int, p as int)]);
            }
            i = p;
        }
    }
    proof {
        assert(rest@.skip(i as int) =~= Seq::<u8>::empty());
    }
    Some(ms)
}

/// Scanning `s` from `j` mirrors scanning `s.skip(d)` from `j - d`.
proof fn lemma_scan_printable_offset(s: Seq<u8>, d: int, j: int)
    requires
        0 <= d <= j <= s.len(),
    ensures
        scan_printable(s, j) == scan_printable(s.skip(d), j - d) + d,
    decreases s.len() - j,
{
    if j < s.len() && is_printable_byte(s[j]) {
        assert(s.skip(d)[j - d] == s[j]);
        lemma_scan_printable_offset(s, d, j + 1);
    } else {
        if j < s.len() {
            assert(s.skip(d)[j - d] == s[j]);
        }
    }
}

/// Parses one `CAPA` body line.
pub fn parse_capability_line(line: &[u8]) -> (r: Option<Capability>)
    ensures
        match r {
            Some(c) => spec_cap_line(line@) == Some(c@),
            None => spec_cap_line(line@) is None,
        },
{
    let t = scan_token_at(line, 0);
    let tok = slice_subrange(line, 0, t);
    let rs = scan_spaces_at(line, t);
    let rest = slice_subrange(line, rs, line.len());
    if eqi_bytes(tok, kw_vec_top().as_slice()) {
        if all_spaces_in(rest, 0, rest.len()) {
            proof {
                assert(rest@.subrange(0, rest@.len() as int) =~= rest@);
            }
            Some(Capability::Top)
        } else {
            proof {
                assert(rest@.subrange(0, rest@.len() as int) =~= rest@);
            }
            None
        }
    } else if eqi_bytes(tok, kw_vec_user().as_slice()) {
        if all_spaces_in(rest, 0, rest.len()) {
            proof {
                assert(rest@.subrange(0, rest@.len() as int) =~= rest@);
            }
            Some(Capability::User)
        } else {
            proof {
                assert(rest@.subrange(0, rest@.len() as int) =~= rest@);
            }
            None
        }
    } else if eqi_bytes(tok, kw_vec_sasl().as_slice()) {
        match tokens_of(rest) {
            Some(ms) => Some(Capability::Sasl(ms)),
            None => None,
        }
    } else if eqi_bytes(tok, kw_vec_resp_codes().as_slice()) {
        if all_spaces_in(rest, 0, rest.len()) {
            proof {
                assert(rest@.subrange(0, rest@.len() as int) =~= rest@);
            }
            Some(Capability::RespCodes)
        } else {
            proof {
                assert(rest@.subrange(0, rest@.len() as int) =~= rest@);
            }
            None
        }
    } else if eqi_bytes(tok, kw_vec_login_delay().as_slice()) {
        match digit_arg(rest) {
            Some(d) => Some(Capability::LoginDelay(Duration::new(Number::new(d), 1))),
            None => None,
        }
    } else if eqi_bytes(tok, kw_vec_pipelining().as_slice()) {
        if all_spaces_in(rest, 0, rest.len()) {
            proof {
                assert(rest@.subrange(0, rest@.len() as int) =~= rest@);
            }
            Some(Capability::Pipelining)
        } else {
            proof {
                assert(rest@.subrange(0, rest@.len() as int) =~= rest@);
            }
            None
        }
    } else if eqi_bytes(tok, kw_vec_expire().as_slice()) {
        if all_spaces_in(rest, 0, rest.len()) {
            proof {
                assert(rest@.subrange(0, rest@.len() as int) =~= rest@);
            }
            Some(Capability::Expire(Expiration::Never))
        } else {
            proof {
                assert(rest@.subrange(0, rest@.len() as int) =~= rest@);
            }
            match digit_arg(rest) {
                Some(d) => Some(
                    Capability::Expire(
                        Expiration::Time(Duration::new(Number::new(d), SECS_PER_DAY)),
                    ),
                ),
                None => {
                    let t2 = scan_token_at(rest, 0);
                    let tok2 = slice_subrange(rest, 0, t2);
                    if eqi_bytes(tok2, kw_vec_never().as_slice()) && all_spaces_in(
                        rest,
                        t2,
                        rest.len(),
                    ) {
                        Some(Capability::Expire(Expiration::Never))
                    } else {
                        None
                    }
                },
            }
        }
    } else if eqi_bytes(tok, kw_vec_uidl().as_slice()) {
        if all_spaces_in(rest, 0, rest.len()) {
            proof {
                assert(rest@.subrange(0, rest@.len() as int) =~= rest@);
            }
            Some(Capability::Uidl)
        } else {
            proof {
                assert(rest@.subrange(0, rest@.len() as int) =~= rest@);
            }
            None
        }
    } else if eqi_bytes(tok, kw_vec_implementation().as_slice()) {
        let text = trim_trailing(rest);
        Some(Capability::Implementation(Text::new(text)))
    } else if eqi_bytes(tok, kw_vec_stls().as_slice()) {
        if all_spaces_in(rest, 0, rest.len()) {
            proof {
                assert(rest@.subrange(0, rest@.len() as int) =~= rest@);
            }
            Some(Capability::Stls)
        } else {
            proof {
                assert(rest@.subrange(0, rest@.len() as int) =~= rest@);
            }
            None
        }
    } else {
        if is_other_name_exec(tok) && all_spaces_in(rest, 0, rest.len()) {
            proof {
                assert(rest@.subrange(0, rest@.len() as int) =~= rest@);
            }
            Some(Capability::Other(Text::new(crate::wire::copy_bytes(tok))))
        } else {
            proof {
                assert(rest@.subrange(0, rest@.len() as int) =~= rest@);
            }
            None
        }
    }
}

fn digit_arg(rest: &[u8]) -> (r: Option<Vec<u8>>)
    ensures
        match r {
            Some(d) => spec_digit_arg(rest@) == Some(d@),
            None => spec_digit_arg(rest@) is None,
        },
{
    let d = scan_digits_at(rest, 0);
    if d > 0 && all_spaces_in(rest, d, rest.len()) {
        Some(crate::wire::copy_bytes(slice_subrange(rest, 0, d)))
    } else {
        None
    }
}

fn is_other_name_exec(tok: &[u8]) -> (r: bool)
    ensures
        r == is_other_name(tok@),
{
    if tok.len() == 0 {
        return false;
    }
    let mut i: usize = 0;
    while i < tok.len()
        invariant
            0 <= i <= tok@.len(),
            forall|j: int| 0 <= j < i ==> is_other_byte(#[trigger] tok@[j]),
        decreases tok@.len() - i,
    {
        let b = tok[i];
        if !(65 <= b && b <= 90 || 48 <= b && b <= 57 || b == 45) {
            return false;
        }
        i = i + 1;
    }
    true
}

fn trim_trailing(rest: &[u8]) -> (r: Vec<u8>)
    ensures
        r@ == trim_trailing_spaces(rest@),
{
    let mut end = rest.len();
    proof {
        assert(rest@.take(rest@.len() as int) =~= rest@);
    }
    while end > 0 && rest[end - 1] == SP
        invariant
            0 <= end <= rest@.len(),
            trim_trailing_spaces(rest@) == trim_trailing_spaces(rest@.take(end as int)),
        decreases end,
    {
        proof {
            assert(rest@.take(end as int).drop_last() =~= rest@.take(end as int - 1));
        }
        end = end - 1;
    }
    proof {
        if end > 0 {
            assert(!is_space_byte(rest@.take(end as int).last()));
        }
    }
    crate::wire::copy_bytes(slice_subrange(rest, 0, end))
}

// ---------------------------------------------------------------------------
// The canonical writer and the parse/write round trip.
// ---------------------------------------------------------------------------

/// The serialization of a SASL mechanism list: one space before each
/// mechanism.
pub open spec fn spec_sasl_args(ms: Seq<Seq<u8>>) -> Seq<u8>
    decreases ms.len(),
{
    if ms.len() == 0 {
        Seq::empty()
    } else {
        seq![SP] + ms.first() + spec_sasl_args(ms.drop_first())
    }
}

/// The canonical line for one capability, without CRLF.
pub open spec fn spec_cap_serial(c: CapModel) -> Seq<u8> {
    match c {
        CapModel::Top => kw_top(),
        CapModel::User => kw_user(),
        CapModel::Sasl(ms) => kw_sasl() + spec_sasl_args(ms),
        CapModel::RespCodes => kw_resp_codes(),
        CapModel::LoginDelay(d) => kw_login_delay() + seq![SP] + d.digits,
        CapModel::Pipelining => kw_pipelining(),
        CapModel::Expire(ExpirationModel::Never) => kw_expire() + seq![SP] + kw_never(),
        CapModel::Expire(ExpirationModel::Time(d)) => kw_expire() + seq![SP] + d.digits,
        CapModel::Uidl => kw_uidl(),
        CapModel::Implementation(t) => kw_implementation() + seq![SP] + t,
        CapModel::Stls => kw_stls(),
        CapModel::Other(t) => t,
    }
}

/// A well-formed mechanism token: nonempty, printable bytes only.
pub open spec fn wf_token(m: Seq<u8>) -> bool {
    m.len() > 0 && forall|j: int| 0 <= j < m.len() ==> is_printable_byte(#[trigger] m[j])
}

pub open spec fn wf_tokens(ms: Seq<Seq<u8>>) -> bool {
    forall|i: int| 0 <= i < ms.len() ==> wf_token(#[trigger] ms[i])
}

/// A parsed token list is well formed.
pub proof fn lemma_tokens_wf(s: Seq<u8>, ms: Seq<Seq<u8>>)
    requires
        spec_tokens(s) == Some(ms),
    ensures
        wf_tokens(ms),
    decreases s.len(),
{
    if s.len() == 0 {
    } else if is_space_byte(s[0]) {
        lemma_tokens_wf(s.skip(1), ms);
    } else {
        let p = scan_printable(s, 0);
        if p <= 0 || p > s.len() {
        } else {
            crate::wire::lemma_scan_printable_bounds(s, 0);
            match spec_tokens(s.skip(p)) {
                Some(r) => {
                    lemma_tokens_wf(s.skip(p), r);
                    assert(wf_token(s.subrange(0, p)));
                    assert forall|i: int| 0 <= i < ms.len() implies wf_token(#[trigger] ms[i]) by {
                        if i == 0 {
                            assert(ms[0] == s.subrange(0, p));
                        } else {
                            assert(ms[i] == r[i - 1]);
                        }
                    }
                },
                None => {},
            }
        }
    }
}

/// Parsing the serialization of a well-formed token list gives it back,
/// whether or not the first separating space is still present.
pub proof fn lemma_tokens_round(ms: Seq<Seq<u8>>)
    requires
        wf_tokens(ms),
    ensures
        spec_tokens(spec_sasl_args(ms)) == Some(ms),
    decreases ms.len(), 1int,
{
    if ms.len() == 0 {
        assert(spec_sasl_args(ms) =~= Seq::<u8>::empty());
        assert(spec_tokens(Seq::<u8>::empty()) =~= Some(Seq::<Seq<u8>>::empty()));
        assert(ms =~= Seq::<Seq<u8>>::empty());
    } else {
        let s = spec_sasl_args(ms);
        assert(s == seq![SP] + ms.first() + spec_sasl_args(ms.drop_first()));
        assert(s[0] == SP);
        assert(is_space_byte(s[0]));
        assert(s.skip(1) =~= ms.first() + spec_sasl_args(ms.drop_first()));
        lemma_tokens_round_cat(ms);
    }
}

/// The same, from the first token on (the leading space already gone).
pub proof fn lemma_tokens_round_cat(ms: Seq<Seq<u8>>)
    requires
        wf_tokens(ms),
        ms.len() > 0,
    ensures
        spec_tokens(ms.first() + spec_sasl_args(ms.drop_first())) == Some(ms),
    decreases ms.len(), 0int,
{
    let m0 = ms.first();
    assert(wf_token(m0));
    let tail = spec_sasl_args(ms.drop_first());
    let s = m0 + tail;
    assert(s.len() > 0);
    assert(s[0] == m0[0]);
    assert(is_printable_byte(s[0]));
    assert(!is_space_byte(s[0]));
    if ms.drop_first().len() == 0 {
        assert(tail =~= Seq::<u8>::empty());
    } else {
        assert(tail == seq![SP] + ms.drop_first().first() + spec_sasl_args(
            ms.drop_first().drop_first(),
        ));
        assert(tail[0] == SP);
    }
    assert forall|i: int| 0 <= i < m0.len() implies is_printable_byte(#[trigger] s[i]) by {
        assert(s[i] == m0[i]);
    }
    if m0.len() < s.len() {
        assert(s[m0.len() as int] == tail[0]);
        assert(!is_printable_byte(s[m0.len() as int]));
    }
    crate::wire::lemma_scan_printable_value(s, 0, m0.len() as int);
    assert(s.subrange(0, m0.len() as int) =~= m0);
    assert(s.skip(m0.len() as int) =~= tail);
    assert(wf_tokens(ms.drop_first())) by {
        assert forall|i: int| 0 <= i < ms.drop_first().len() implies wf_token(
            #[trigger] ms.drop_first()[i],
        ) by {
            assert(ms.drop_first()[i] == ms[i + 1]);
        }
    }
    lemma_tokens_round(ms.drop_first());
    assert(spec_tokens(s) == Some(seq![m0] + ms.drop_first()));
    assert(seq![m0] + ms.drop_first() =~= ms);
}

/// Trimming trailing spaces leaves a prefix with no trailing space.
pub proof fn lemma_trim_trailing_props(s: Seq<u8>)
    ensures
        trim_trailing_spaces(s).len() <= s.len(),
        trim_trailing_spaces(s) == s.subrange(0, trim_trailing_spaces(s).len() as int),
        trim_trailing_spaces(s).len() > 0 ==> !is_space_byte(trim_trailing_spaces(s).last()),
    decreases s.len(),
{
    if s.len() > 0 && is_space_byte(s.last()) {
        lemma_trim_trailing_props(s.drop_last());
        assert(s.drop_last().subrange(0, trim_trailing_spaces(s).len() as int) =~= s.subrange(
            0,
            trim_trailing_spaces(s).len() as int,
        ));
    } else {
        assert(s.subrange(0, s.len() as int) =~= s);
    }
}

/// A sequence with no trailing space is already trimmed.
pub proof fn lemma_trim_trailing_fixed(s: Seq<u8>)
    requires
        s.len() == 0 || !is_space_byte(s.last()),
    ensures
        trim_trailing_spaces(s) == s,
{
}

/// P3, one line at a time: any capability the parser produces, written
/// back by the canonical writer, parses to the same capability.  Parsing a
/// `CAPA` response and re-serializing its set therefore yields the same
/// tagged set again.
pub proof fn lemma_capability_round_trip(line: Seq<u8>, c: CapModel)
    requires
        spec_cap_line(line) == Some(c),
    ensures
        spec_cap_line(spec_cap_serial(c)) == Some(c),
{
    let t = scan_token(line, 0);
    crate::wire::lemma_scan_token_bounds(line, 0);
    let tok = line.subrange(0, t);
    let rs = scan_spaces(line, t);
    crate::wire::lemma_scan_spaces_bounds(line, t);
    let rest = line.subrange(rs, line.len() as int);
    let s = spec_cap_serial(c);
    match c {
        CapModel::Top => {
            lemma_unit_kw_parses(kw_top());
        },
        CapModel::User => {
            lemma_unit_kw_parses(kw_user());
            assert(!eqi(kw_user(), kw_top()));
        },
        CapModel::Sasl(ms) => {
            lemma_tokens_wf(rest, ms);
            lemma_kw_line_shape(kw_sasl(), spec_sasl_args(ms), s);
            if ms.len() == 0 {
                assert(spec_sasl_args(ms) =~= Seq::<u8>::empty());
                assert(s =~= kw_sasl());
                crate::wire::lemma_scan_token_value(s, 0, 4);
                assert(s.subrange(0, 4) =~= kw_sasl());
                assert(scan_spaces(s, 4) == 4);
                assert(s.subrange(4, s.len() as int) =~= Seq::<u8>::empty());
                assert(spec_tokens(Seq::<u8>::empty()) == Some(Seq::<Seq<u8>>::empty()));
                assert(ms =~= Seq::<Seq<u8>>::empty());
            } else {
                let args = spec_sasl_args(ms);
                assert(args == seq![SP] + ms.first() + spec_sasl_args(ms.drop_first()));
                assert(args[0] == SP);
                assert(s[4] == args[0]);
                crate::wire::lemma_scan_token_value(s, 0, 4);
                assert(s.subrange(0, 4) =~= kw_sasl());
                assert(wf_token(ms.first()));
                assert(s[5] == args[1]);
                assert(args[1] == ms.first()[0]);
                assert(is_printable_byte(s[5]));
                assert(!is_space_byte(s[5]));
                crate::wire::lemma_scan_spaces_value(s, 4, 5);
                assert(s.subrange(5, s.len() as int) =~= ms.first() + spec_sasl_args(
                    ms.drop_first(),
                ));
                lemma_tokens_round_cat(ms);
            }
            assert(!eqi(kw_sasl(), kw_top()));
            assert(!eqi(kw_sasl(), kw_user())) by {
                assert(upper_byte(kw_sasl()[0]) != upper_byte(kw_user()[0]));
            }
        },
        CapModel::RespCodes => {
            lemma_unit_kw_parses(kw_resp_codes());
        },
        CapModel::LoginDelay(d) => {
            let dd = scan_digits(rest, 0);
            crate::wire::lemma_scan_digits_bounds(rest, 0);
            assert(d.digits == rest.subrange(0, dd));
            lemma_digit_arg_round(kw_login_delay(), d.digits, s);
        },
        CapModel::Pipelining => {
            lemma_unit_kw_parses(kw_pipelining());
            assert(!eqi(kw_pipelining(), kw_resp_codes())) by {
                assert(upper_byte(kw_pipelining()[0]) != upper_byte(kw_resp_codes()[0]));
            }
        },
        CapModel::Expire(ExpirationModel::Never) => {
            assert(s =~= kw_expire() + (seq![SP] + kw_never()));
            lemma_kw_line_shape(kw_expire(), seq![SP] + kw_never(), s);
            assert(s[6] == (seq![SP] + kw_never())[0]);
            assert(s[6] == SP);
            crate::wire::lemma_scan_token_value(s, 0, 6);
            assert(s.subrange(0, 6) =~= kw_expire());
            assert(s[7] == (seq![SP] + kw_never())[1]);
            assert(s[7] == kw_never()[0]);
            assert(!is_space_byte(s[7]));
            crate::wire::lemma_scan_spaces_value(s, 6, 7);
            let rest2 = s.subrange(7, s.len() as int);
            assert(rest2 =~= kw_never());
            assert(!all_spaces(rest2)) by {
                assert(!is_space_byte(rest2[0]));
            }
            assert(scan_digits(rest2, 0) == 0) by {
                assert(!is_digit_byte(rest2[0]));
            }
            crate::wire::lemma_scan_token_value(rest2, 0, 5);
            assert(rest2.subrange(0, 5) =~= kw_never());
            assert(rest2.subrange(5, 5) =~= Seq::<u8>::empty());
        },
        CapModel::Expire(ExpirationModel::Time(d)) => {
            if all_spaces(rest) {
                assert(false);
            }
            let dd = scan_digits(rest, 0);
            crate::wire::lemma_scan_digits_bounds(rest, 0);
            if spec_digit_arg(rest) is None {
                assert(false);
            }
            assert(d.digits == rest.subrange(0, dd));
            lemma_digit_arg_round(kw_expire(), d.digits, s);
        },
        CapModel::Uidl => {
            lemma_unit_kw_parses(kw_uidl());
            assert(!eqi(kw_uidl(), kw_user())) by {
                assert(upper_byte(kw_uidl()[1]) != upper_byte(kw_user()[1]));
            }
            assert(!eqi(kw_uidl(), kw_sasl())) by {
                assert(upper_byte(kw_uidl()[0]) != upper_byte(kw_sasl()[0]));
            }
        },
        CapModel::Implementation(tt) => {
            lemma_trim_trailing_props(rest);
            assert(tt == trim_trailing_spaces(rest));
            assert(s =~= kw_implementation() + (seq![SP] + tt));
            lemma_kw_line_shape(kw_implementation(), seq![SP] + tt, s);
            assert(s[14] == (seq![SP] + tt)[0]);
            assert(s[14] == SP);
            crate::wire::lemma_scan_token_value(s, 0, 14);
            assert(s.subrange(0, 14) =~= kw_implementation());
            if tt.len() == 0 {
                assert(scan_spaces(s, 14) == 15) by {
                    crate::wire::lemma_scan_spaces_value(s, 14, 15);
                }
                assert(s.subrange(15, s.len() as int) =~= Seq::<u8>::empty());
                lemma_trim_trailing_fixed(Seq::<u8>::empty());
                assert(tt =~= Seq::<u8>::empty());
            } else {
                assert(tt[0] == rest[0]);
                if rs < line.len() {
                    assert(!is_space_byte(line[rs]));
                    assert(rest[0] == line[rs]);
                } else {
                    assert(rest.len() == 0);
                    assert(false);
                }
                assert(s[15] == (seq![SP] + tt)[1]);
                assert(s[15] == tt[0]);
                assert(!is_space_byte(s[15]));
                crate::wire::lemma_scan_spaces_value(s, 14, 15);
                let rest2 = s.subrange(15, s.len() as int);
                assert(rest2 =~= tt);
                lemma_trim_trailing_fixed(tt);
            }
        },
        CapModel::Stls => {
            lemma_unit_kw_parses(kw_stls());
            assert(!eqi(kw_stls(), kw_user())) by {
                assert(upper_byte(kw_stls()[0]) != upper_byte(kw_user()[0]));
            }
            assert(!eqi(kw_stls(), kw_sasl())) by {
                assert(upper_byte(kw_stls()[1]) != upper_byte(kw_sasl()[1]));
            }
            assert(!eqi(kw_stls(), kw_uidl())) by {
                assert(upper_byte(kw_stls()[0]) != upper_byte(kw_uidl()[0]));
            }
        },
        CapModel::Other(o) => {
            assert(o == tok);
            assert(is_other_name(o));
            assert forall|i: int| 0 <= i < o.len() implies !is_space_byte(#[trigger] o[i]) by {
                assert(is_other_byte(o[i]));
            }
            crate::wire::lemma_scan_token_value(o, 0, o.len() as int);
            assert(o.subrange(0, o.len() as int) =~= o);
            assert(scan_spaces(o, o.len() as int) == o.len());
            assert(o.subrange(o.len() as int, o.len() as int) =~= Seq::<u8>::empty());
        },
    }
}

/// The serialized line of an argument-free capability is its keyword
/// alone, which scans as one token with nothing after it.
proof fn lemma_unit_kw_parses(kw: Seq<u8>)
    requires
        kw.len() > 0,
        forall|i: int| 0 <= i < kw.len() ==> !is_space_byte(#[trigger] kw[i]),
    ensures
        scan_token(kw, 0) == kw.len(),
        kw.subrange(0, kw.len() as int) == kw,
        scan_spaces(kw, kw.len() as int) == kw.len(),
        all_spaces(kw.subrange(kw.len() as int, kw.len() as int)),
        eqi(kw, kw),
{
    crate::wire::lemma_scan_token_value(kw, 0, kw.len() as int);
    assert(kw.subrange(0, kw.len() as int) =~= kw);
    assert(kw.subrange(kw.len() as int, kw.len() as int) =~= Seq::<u8>::empty());
}

/// Pins the bytes of `kw + extra` on both sides of the keyword boundary.
proof fn lemma_kw_line_shape(kw: Seq<u8>, extra: Seq<u8>, s: Seq<u8>)
    requires
        s == kw + extra,
    ensures
        s.len() == kw.len() + extra.len(),
        forall|i: int| 0 <= i < kw.len() ==> #[trigger] s[i] == kw[i],
        forall|i: int| 0 <= i < extra.len() ==> #[trigger] s[kw.len() + i] == extra[i],
{
    assert forall|i: int| 0 <= i < extra.len() implies #[trigger] s[kw.len() + i] == extra[i] by {
        assert(s[kw.len() + i] == extra[i]);
    }
}

/// A `keyword SP digits` line parses back to those digits.
proof fn lemma_digit_arg_round(kw: Seq<u8>, digits: Seq<u8>, s: Seq<u8>)
    requires
        s == kw + seq![SP] + digits,
        kw.len() > 0,
        forall|i: int| 0 <= i < kw.len() ==> !is_space_byte(#[trigger] kw[i]),
        digits.len() > 0,
        forall|i: int| 0 <= i < digits.len() ==> is_digit_byte(#[trigger] digits[i]),
    ensures
        scan_token(s, 0) == kw.len(),
        s.subrange(0, kw.len() as int) == kw,
        scan_spaces(s, kw.len() as int) == kw.len() + 1,
        spec_digit_arg(s.subrange(kw.len() as int + 1, s.len() as int)) == Some(digits),
        !all_spaces(s.subrange(kw.len() as int + 1, s.len() as int)),
{
    let k = kw.len() as int;
    assert(s =~= kw + (seq![SP] + digits));
    lemma_kw_line_shape(kw, seq![SP] + digits, s);
    assert(s[k] == (seq![SP] + digits)[0]);
    assert(s[k] == SP);
    crate::wire::lemma_scan_token_value(s, 0, k);
    assert(s.subrange(0, k) =~= kw);
    assert(s[k + 1] == (seq![SP] + digits)[1]);
    assert(s[k + 1] == digits[0]);
    assert(is_digit_byte(s[k + 1]));
    assert(!is_space_byte(s[k + 1]));
    crate::wire::lemma_scan_spaces_value(s, k, k + 1);
    let rest = s.subrange(k + 1, s.len() as int);
    assert(rest =~= digits);
    crate::wire::lemma_scan_digits_value(rest, 0, rest.len() as int);
    assert(rest.subrange(0, rest.len() as int) =~= digits);
    assert(all_spaces(rest.subrange(rest.len() as int, rest.len() as int))) by {
        assert(rest.subrange(rest.len() as int, rest.len() as int) =~= Seq::<u8>::empty());
    }
    assert(!is_space_byte(rest[0]));
}

impl Capability {
    /// Writes this capability as its canonical `CAPA` line, without CRLF.
    /// `lemma_capability_round_trip` shows that parsing this line gives the
    /// capability back.
    pub fn serialize(&self) -> (r: Vec<u8>)
        ensures
            r@ == spec_cap_serial(self@),
    {
        match self {
            Capability::Top => kw_vec_top(),
            Capability::User => kw_vec_user(),
            Capability::Sasl(ms) => {
                let mut out = kw_vec_sasl();
                let mut i: usize = 0;
                let ghost dv = ms.deep_view();
                proof {
                    assert(dv.skip(0) =~= dv);
                }
                while i < ms.len()
                    invariant
                        0 <= i <= ms@.len(),
                        dv == ms.deep_view(),
                        dv.len() == ms@.len(),
                        out@ + spec_sasl_args(dv.skip(i as int)) =~= kw_sasl() + spec_sasl_args(
                            dv,
                        ),
                    decreases ms@.len() - i,
                {
                    proof {
                        assert(dv.skip(i as int).first() == dv[i as int]);
                        assert(dv.skip(i as int).drop_first() =~= dv.skip(i as int + 1));
                    }
                    out.push(SP);
                    out.extend_from_slice(ms[i].raw());
                    i = i + 1;
                }
                proof {
                    assert(spec_sasl_args(dv.skip(i as int)) =~= Seq::<u8>::empty());
                    assert(out@ =~= kw_sasl() + spec_sasl_args(dv));
                }
                out
            },
            Capability::RespCodes => kw_vec_resp_codes(),
            Capability::LoginDelay(d) => {
                let mut out = kw_vec_login_delay();
                out.push(SP);
                out.extend_from_slice(d.raw());
                proof {
                    assert(out@ =~= kw_login_delay() + seq![SP] + d@.digits);
                }
                out
            },
            Capability::Pipelining => kw_vec_pipelining(),
            Capability::Expire(Expiration::Never) => {
                let mut out = kw_vec_expire();
                out.push(SP);
                let never = kw_vec_never();
                out.extend_from_slice(never.as_slice());
                proof {
                    assert(out@ =~= kw_expire() + seq![SP] + kw_never());
                }
                out
            },
            Capability::Expire(Expiration::Time(d)) => {
                let mut out = kw_vec_expire();
                out.push(SP);
                out.extend_from_slice(d.raw());
                proof {
                    assert(out@ =~= kw_expire() + seq![SP] + d@.digits);
                }
                out
            },
            Capability::Uidl => kw_vec_uidl(),
            Capability::Implementation(t) => {
                let mut out = kw_vec_implementation();
                out.push(SP);
                out.extend_from_slice(t.raw());
                proof {
                    assert(out@ =~= kw_implementation() + seq![SP] + t@);
                }
                out
            },
            Capability::Stls => kw_vec_stls(),
            Capability::Other(t) => crate::wire::copy_bytes(t.raw()),
        }
    }
}

} // verus!
