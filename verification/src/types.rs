//! Plain-value record types parsed out of whole response strings: drop
//! statistics, unique-id listings, and the string-based capability set.

use vstd::prelude::*;

use crate::chars::{
    chars_of, copy_chars_range, find_char, find_char_at, parse_uint_chars, parse_uint_range,
    scan_ws_at, scan_ws_back_at, spec_lower_chars, spec_trim, tok_end, tok_end_at, lower_char,
};
use crate::error::{Error, ErrorKind, PopResult};

verus! {

/// One parsed drop listing line: a message count and a size in octets.
#[derive(Debug, Clone, PartialEq, Eq)]
pub struct Stats(u32, u64);

/// The mathematical content of a `StatsResponse`.
#[verifier::ext_equal]
pub enum StatsRespModel {
    One((u32, u64)),
    Many(Seq<(u32, u64)>),
}

/// One parsed listing, or a whole maildrop's worth of them.
#[derive(Debug, Clone, PartialEq, Eq)]
pub enum StatsResponse {
    Stats(Stats),
    StatsList(Vec<Stats>),
}

impl View for Stats {
    type V = (u32, u64);

    closed spec fn view(&self) -> (u32, u64) {
        (self.0, self.1)
    }
}

impl DeepView for Stats {
    type V = (u32, u64);

    open spec fn deep_view(&self) -> (u32, u64) {
        self.view()
    }
}

impl View for StatsResponse {
    type V = StatsRespModel;

    open spec fn view(&self) -> StatsRespModel {
        match *self {
            StatsResponse::Stats(s) => StatsRespModel::One(s@),
            StatsResponse::StatsList(v) => StatsRespModel::Many(v.deep_view()),
        }
    }
}

impl StatsResponse {
    pub fn is_list(&self) -> (r: bool)
        ensures
            r == (self@ is Many),
    {
        match self {
            StatsResponse::Stats(_) => false,
            StatsResponse::StatsList(_) => true,
        }
    }
}

/// One `count SP size` line, parsed as the original text had it: the first
/// space-separated token is the count, the second the size; a missing
/// second token is an invalid response, an unparsable number a ParseInt.
pub open spec fn spec_stat_entry(t: Seq<char>) -> Result<(u32, u64), ErrorKind> {
    let e0 = tok_end(t, 0);
    match parse_uint_chars(t.subrange(0, e0), u32::MAX as nat) {
        None => Err(ErrorKind::ParseInt),
        Some(c) => if e0 >= t.len() {
            Err(ErrorKind::InvalidResponse)
        } else {
            let e1 = tok_end(t, e0 + 1);
            match parse_uint_chars(t.subrange(e0 + 1, e1), u64::MAX as nat) {
                None => Err(ErrorKind::ParseInt),
                Some(d) => Ok((c as u32, d as u64)),
            }
        },
    }
}

/// One newline-separated piece: skipped when blank, else a stat entry.
pub open spec fn spec_stats_piece(piece: Seq<char>) -> Result<Option<(u32, u64)>, ErrorKind> {
    let t = spec_trim(piece);
    if t.len() == 0 {
        Ok(None)
    } else {
        match spec_stat_entry(t) {
            Ok(e) => Ok(Some(e)),
            Err(k) => Err(k),
        }
    }
}

/// Every drop listing line of the text, in order; the first bad line's
/// error wins.
pub open spec fn spec_stats_scan(s: Seq<char>) -> Result<Seq<(u32, u64)>, ErrorKind>
    decreases s.len(),
{
    match find_char(s, '\n', 0) {
        None => match spec_stats_piece(s) {
            Err(k) => Err(k),
            Ok(None) => Ok(Seq::empty()),
            Ok(Some(e)) => Ok(seq![e]),
        },
        Some(i) => {
            if i < 0 || i >= s.len() {
                Err(ErrorKind::InvalidResponse)
            } else {
                match spec_stats_piece(s.subrange(0, i)) {
                    Err(k) => Err(k),
                    Ok(opt) => match spec_stats_scan(s.skip(i + 1)) {
                        Err(k) => Err(k),
                        Ok(r) => Ok(
                            match opt {
                                Some(e) => seq![e] + r,
                                None => r,
                            },
                        ),
                    },
                }
            }
        },
    }
}

fn parse_int_error() -> (r: Error)
    ensures
        r.spec_kind() is ParseInt,
{
    Error::new(ErrorKind::ParseInt, String::from_str("Failed to parse int"))
}

fn stat_entry_exec(t: &Vec<char>) -> (r: Result<Stats, Error>)
    ensures
        match r {
            Ok(st) => spec_stat_entry(t@) == Ok::<(u32, u64), ErrorKind>((st@.0, st@.1)),
            Err(e) => spec_stat_entry(t@) matches Err(k) && e.spec_kind() == k,
        },
{
    let e0 = tok_end_at(t, 0);
    let c = match parse_uint_range(t, 0, e0, 4294967295u64) {
        None => {
            return Err(parse_int_error());
        },
        Some(v) => v,
    };
    let c32: u32 = c as u32;
    proof {
        assert(c as u32 as u64 == c) by (bit_vector)
            requires
                c <= 4294967295u64,
        ;
    }
    if e0 >= t.len() {
        return Err(
            Error::new(
                ErrorKind::InvalidResponse,
                String::from_str("Missing drop size from stats response"),
            ),
        );
    }
    let e1 = tok_end_at(t, e0 + 1);
    let d = match parse_uint_range(t, e0 + 1, e1, u64::MAX) {
        None => {
            return Err(parse_int_error());
        },
        Some(v) => v,
    };
    Ok(Stats(c32, d))
}

impl Stats {
    pub fn messsage_count(&self) -> (r: &u32)
        ensures
            *r == self@.0,
    {
        &self.0
    }

    pub fn drop_size(&self) -> (r: &u64)
        ensures
            *r == self@.1,
    {
        &self.1
    }

    pub fn into_message_count(self) -> (r: u32)
        ensures
            r == self@.0,
    {
        self.0
    }

    pub fn into_drop_size(self) -> (r: u64)
        ensures
            r == self@.1,
    {
        self.1
    }

    /// Parses every nonempty line of a drop listing text; a single entry
    /// comes back alone, any other number as a list.
    pub fn from_response(response: &str) -> (r: PopResult<StatsResponse>)
        ensures
            match spec_stats_scan(response@) {
                Ok(entries) => r matches Ok(sr) && (if entries.len() == 1 {
                    sr@ == StatsRespModel::One(entries[0])
                } else {
                    sr@ == StatsRespModel::Many(entries)
                }),
                Err(k) => r matches Err(e) && e.spec_kind() == k,
            },
    {
        let chars = chars_of(response);
        let n = chars.len();
        let mut results: Vec<Stats> = Vec::new();
        let mut pos: usize = 0;
        let mut finished = false;
        proof {
            assert(response@.skip(0) =~= response@);
        }
        while !finished
            invariant
                pos <= n,
                n == chars@.len(),
                chars@ == response@,
                !finished ==> match spec_stats_scan(response@) {
                    Ok(all) => spec_stats_scan(response@.skip(pos as int)) matches Ok(tail) && all
                        == results.deep_view() + tail,
                    Err(k) => spec_stats_scan(response@.skip(pos as int)) == Err::<
                        Seq<(u32, u64)>,
                        ErrorKind,
                    >(k),
                },
                finished ==> (spec_stats_scan(response@) matches Ok(all) && all
                    == results.deep_view()),
            decreases n - pos + (if finished {
                0int
            } else {
                1int
            }),
        {
            let ghost rem = response@.skip(pos as int);
            let (piece_end, last) = match find_char_at(&chars, '\n', pos) {
                Some(e) => (e, false),
                None => (n, true),
            };
            proof {
                crate::chars::lemma_find_char_offset(response@, '\n', pos as int, pos as int);
            }
            let piece = copy_chars_range(&chars, pos, piece_end);
            proof {
                if !last {
                    assert(rem.subrange(0, piece_end - pos) =~= response@.subrange(
                        pos as int,
                        piece_end as int,
                    ));
                } else {
                    assert(rem =~= response@.subrange(pos as int, n as int));
                }
            }
            let a = scan_ws_at(&piece, 0);
            let b = scan_ws_back_at(&piece, a, piece.len());
            if a < b {
                let t = copy_chars_range(&piece, a, b);
                match stat_entry_exec(&t) {
                    Ok(st) => {
                        let ghost results_old = results.deep_view();
                        let ghost stv = st@;
                        results.push(st);
                        proof {
                            assert(results.deep_view() =~= results_old + seq![stv]);
                        }
                    },
                    Err(e) => {
                        return Err(e);
                    },
                }
            }
            if last {
                finished = true;
            } else {
                proof {
                    assert(rem.skip(piece_end - pos + 1) =~= response@.skip(
                        piece_end as int + 1,
                    ));
                }
                pos = piece_end + 1;
            }
        }
        if results.len() == 1 {
            let st = match results.pop() {
                Some(st) => st,
                None => {
                    proof {
                        assert(false);
                    }
                    Stats(0, 0)
                },
            };
            proof {
                assert(spec_stats_scan(response@)->Ok_0[0] == st@);
            }
            Ok(StatsResponse::Stats(st))
        } else {
            proof {
                assert(results.deep_view().len() == results@.len());
            }
            Ok(StatsResponse::StatsList(results))
        }
    }
}

/// One parsed unique-id listing line: a message number and its id, the id
/// lower-cased as the original text handling did it.
#[derive(Debug, Clone, PartialEq, Eq)]
pub struct UniqueID(u32, String);

/// The mathematical content of a `UniqueIDResponse`.
#[verifier::ext_equal]
pub enum UniqueIDRespModel {
    One((u32, Seq<char>)),
    Many(Seq<(u32, Seq<char>)>),
}

/// One parsed unique-id listing, or a whole maildrop's worth of them.
#[derive(Debug, Clone, PartialEq, Eq)]
pub enum UniqueIDResponse {
    UniqueID(UniqueID),
    UniqueIDList(Vec<UniqueID>),
}

impl View for UniqueID {
    type V = (u32, Seq<char>);

    closed spec fn view(&self) -> (u32, Seq<char>) {
        (self.0, self.1@)
    }
}

impl DeepView for UniqueID {
    type V = (u32, Seq<char>);

    open spec fn deep_view(&self) -> (u32, Seq<char>) {
        self.view()
    }
}

impl View for UniqueIDResponse {
    type V = UniqueIDRespModel;

    open spec fn view(&self) -> UniqueIDRespModel {
        match *self {
            UniqueIDResponse::UniqueID(u) => UniqueIDRespModel::One(u@),
            UniqueIDResponse::UniqueIDList(v) => UniqueIDRespModel::Many(v.deep_view()),
        }
    }
}

impl UniqueIDResponse {
    pub fn is_list(&self) -> (r: bool)
        ensures
            r == (self@ is Many),
    {
        match self {
            UniqueIDResponse::UniqueID(_) => false,
            UniqueIDResponse::UniqueIDList(_) => true,
        }
    }
}

/// One `count SP unique-id` line: the count parses as a number, the id is
/// the second token, lower-cased with the rest of the line.
pub open spec fn spec_uid_entry(t: Seq<char>) -> Result<(u32, Seq<char>), ErrorKind> {
    let e0 = tok_end(t, 0);
    match parse_uint_chars(t.subrange(0, e0), u32::MAX as nat) {
        None => Err(ErrorKind::ParseInt),
        Some(c) => if e0 >= t.len() {
            Err(ErrorKind::InvalidResponse)
        } else {
            let e1 = tok_end(t, e0 + 1);
            Ok((c as u32, spec_lower_chars(t.subrange(e0 + 1, e1))))
        },
    }
}

/// One newline-separated piece: skipped when blank, else a unique-id
/// entry.
pub open spec fn spec_uid_piece(piece: Seq<char>) -> Result<Option<(u32, Seq<char>)>, ErrorKind> {
    let t = spec_trim(piece);
    if t.len() == 0 {
        Ok(None)
    } else {
        match spec_uid_entry(t) {
            Ok(e) => Ok(Some(e)),
            Err(k) => Err(k),
        }
    }
}

/// Every unique-id listing line of the text, in order.
pub open spec fn spec_uid_scan(s: Seq<char>) -> Result<Seq<(u32, Seq<char>)>, ErrorKind>
    decreases s.len(),
{
    match find_char(s, '\n', 0) {
        None => match spec_uid_piece(s) {
            Err(k) => Err(k),
            Ok(None) => Ok(Seq::empty()),
            Ok(Some(e)) => Ok(seq![e]),
        },
        Some(i) => {
            if i < 0 || i >= s.len() {
                Err(ErrorKind::InvalidResponse)
            } else {
                match spec_uid_piece(s.subrange(0, i)) {
                    Err(k) => Err(k),
                    Ok(opt) => match spec_uid_scan(s.skip(i + 1)) {
                        Err(k) => Err(k),
                        Ok(r) => Ok(
                            match opt {
                                Some(e) => seq![e] + r,
                                None => r,
                            },
                        ),
                    },
                }
            }
        },
    }
}

fn uid_entry_exec(t: &Vec<char>) -> (r: Result<UniqueID, Error>)
    ensures
        match r {
            Ok(u) => spec_uid_entry(t@) == Ok::<(u32, Seq<char>), ErrorKind>((u@.0, u@.1)),
            Err(e) => spec_uid_entry(t@) matches Err(k) && e.spec_kind() == k,
        },
{
    let e0 = tok_end_at(t, 0);
    let c = match parse_uint_range(t, 0, e0, 4294967295u64) {
        None => {
            return Err(parse_int_error());
        },
        Some(v) => v,
    };
    let c32: u32 = c as u32;
    proof {
        assert(c as u32 as u64 == c) by (bit_vector)
            requires
                c <= 4294967295u64,
        ;
    }
    if e0 >= t.len() {
        return Err(
            Error::new(
                ErrorKind::InvalidResponse,
                String::from_str("Missing unique id from uidl response"),
            ),
        );
    }
    let e1 = tok_end_at(t, e0 + 1);
    let mut id = String::new();
    let mut i = e0 + 1;
    while i < e1
        invariant
            e0 + 1 <= i <= e1 <= t@.len(),
            id@ =~= spec_lower_chars(t@.subrange(e0 as int + 1, i as int)),
        decreases e1 - i,
    {
        id.push(lower_char(t[i]));
        proof {
            assert(id@ =~= spec_lower_chars(t@.subrange(e0 as int + 1, i as int + 1)));
        }
        i = i + 1;
    }
    Ok(UniqueID(c32, id))
}

impl UniqueID {
    pub fn unique_id(&self) -> (r: &str)
        ensures
            r@ == self@.1,
    {
        self.1.as_str()
    }

    pub fn into_unique_id(self) -> (r: String)
        ensures
            r@ == self@.1,
    {
        self.1
    }

    pub fn count(&self) -> (r: &u32)
        ensures
            *r == self@.0,
    {
        &self.0
    }

    pub fn into_count(self) -> (r: u32)
        ensures
            r == self@.0,
    {
        self.0
    }

    /// Parses every nonempty line of a unique-id listing text; a single
    /// entry comes back alone, any other number as a list.
    pub fn from_response(response: &str) -> (r: PopResult<UniqueIDResponse>)
        ensures
            match spec_uid_scan(response@) {
                Ok(entries) => r matches Ok(ur) && (if entries.len() == 1 {
                    ur@ == UniqueIDRespModel::One(entries[0])
                } else {
                    ur@ == UniqueIDRespModel::Many(entries)
                }),
                Err(k) => r matches Err(e) && e.spec_kind() == k,
            },
    {
        let chars = chars_of(response);
        let n = chars.len();
        let mut results: Vec<UniqueID> = Vec::new();
        let mut pos: usize = 0;
        let mut finished = false;
        proof {
            assert(response@.skip(0) =~= response@);
        }
        while !finished
            invariant
                pos <= n,
                n == chars@.len(),
                chars@ == response@,
                !finished ==> match spec_uid_scan(response@) {
                    Ok(all) => spec_uid_scan(response@.skip(pos as int)) matches Ok(tail) && all
                        == results.deep_view() + tail,
                    Err(k) => spec_uid_scan(response@.skip(pos as int)) == Err::<
                        Seq<(u32, Seq<char>)>,
                        ErrorKind,
                    >(k),
                },
                finished ==> (spec_uid_scan(response@) matches Ok(all) && all
                    == results.deep_view()),
            decreases n - pos + (if finished {
                0int
            } else {
                1int
            }),
        {
            let ghost rem = response@.skip(pos as int);
            let (piece_end, last) = match find_char_at(&chars, '\n', pos) {
                Some(e) => (e, false),
                None => (n, true),
            };
            proof {
                crate::chars::lemma_find_char_offset(response@, '\n', pos as int, pos as int);
            }
            let piece = copy_chars_range(&chars, pos, piece_end);
            proof {
                if !last {
                    assert(rem.subrange(0, piece_end - pos) =~= response@.subrange(
                        pos as int,
                        piece_end as int,
                    ));
                } else {
                    assert(rem =~= response@.subrange(pos as int, n as int));
                }
            }
            let a = scan_ws_at(&piece, 0);
            let b = scan_ws_back_at(&piece, a, piece.len());
            if a < b {
                let t = copy_chars_range(&piece, a, b);
                match uid_entry_exec(&t) {
                    Ok(u) => {
                        let ghost results_old = results.deep_view();
                        let ghost uv = u@;
                        results.push(u);
                        proof {
                            assert(results.deep_view() =~= results_old + seq![uv]);
                        }
                    },
                    Err(e) => {
                        return Err(e);
                    },
                }
            }
            if last {
                finished = true;
            } else {
                proof {
                    assert(rem.skip(piece_end - pos + 1) =~= response@.skip(
                        piece_end as int + 1,
                    ));
                }
                pos = piece_end + 1;
            }
        }
        if results.len() == 1 {
            let u = match results.pop() {
                Some(u) => u,
                None => {
                    proof {
                        assert(false);
                    }
                    UniqueID(0, String::new())
                },
            };
            proof {
                assert(spec_uid_scan(response@)->Ok_0[0] == u@);
            }
            Ok(UniqueIDResponse::UniqueID(u))
        } else {
            proof {
                assert(results.deep_view().len() == results@.len());
            }
            Ok(UniqueIDResponse::UniqueIDList(results))
        }
    }
}


/// The mathematical content of a string-based `Capability`.
#[verifier::ext_equal]
pub enum LegacyCapModel {
    Top,
    User,
    Sasl(Seq<Seq<char>>),
    RespCodes,
    LoginDelay(u64),
    Pipelining,
    Expire(Option<u64>),
    Uidl,
    Implementation(Seq<char>),
}

/// One capability parsed out of a whole response string.  Spans are in
/// seconds; unknown names are dropped by this older, string-based reading.
#[derive(Debug, Clone, PartialEq, Eq)]
pub enum Capability {
    /// Whether the TOP command is supported.
    Top,
    /// Whether the USER and PASS commands (login) are supported.
    User,
    /// Which SASL mechanisms are available (RFC 1734).
    Sasl(Vec<String>),
    /// Whether the server uses extended response codes (RFC 2449).
    RespCodes,
    /// The delay between logins, in seconds.
    LoginDelay(u64),
    /// Whether the server supports pipelining.
    Pipelining,
    /// How long the server stores messages, in seconds, if bounded.
    Expire(Option<u64>),
    /// Whether the UIDL command is supported.
    Uidl,
    /// The implementation banner the server advertises.
    Implementation(String),
}

pub type Capabilities = Vec<Capability>;

impl View for Capability {
    type V = LegacyCapModel;

    open spec fn view(&self) -> LegacyCapModel {
        match *self {
            Capability::Top => LegacyCapModel::Top,
            Capability::User => LegacyCapModel::User,
            Capability::Sasl(ms) => LegacyCapModel::Sasl(ms.deep_view()),
            Capability::RespCodes => LegacyCapModel::RespCodes,
            Capability::LoginDelay(d) => LegacyCapModel::LoginDelay(d),
            Capability::Pipelining => LegacyCapModel::Pipelining,
            Capability::Expire(e) => LegacyCapModel::Expire(e),
            Capability::Uidl => LegacyCapModel::Uidl,
            Capability::Implementation(t) => LegacyCapModel::Implementation(t@),
        }
    }
}

impl DeepView for Capability {
    type V = LegacyCapModel;

    open spec fn deep_view(&self) -> LegacyCapModel {
        self.view()
    }
}

} // verus!
