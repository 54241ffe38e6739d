//! Conversions of raw server bytes into text: UTF-8 decoding and the
//! status-line splitter for callers that hold a whole line as a string.

use vstd::prelude::*;
use vstd::utf8::{decode_utf8, valid_utf8};

use crate::error::{Error, ErrorKind, PopResult};

verus! {

/// Declares `std::string::FromUtf8Error` so `String::from_utf8` can be
/// given its specification.
#[verifier::external_type_specification]
#[verifier::external_body]
pub struct ExFromUtf8Error(std::string::FromUtf8Error);

/// Relies on `String::push`: it appends the given character to the end of
/// the string, as std documents.
pub assume_specification [ String::push ](s: &mut String, ch: char)
    ensures
        final (s)@ == old(s)@.push(ch),
;

/// Relies on `String::from_utf8`: it succeeds exactly on valid UTF-8 and
/// then returns the decoded characters, as std documents.
pub assume_specification [ String::from_utf8 ](v: Vec<u8>) -> (r: Result<
    String,
    std::string::FromUtf8Error,
>)
    ensures
        r is Ok <==> valid_utf8(v@),
        r matches Ok(s) ==> s@ == decode_utf8(v@),
;

/// Decodes server bytes as UTF-8; a byte sequence that is not valid UTF-8
/// is an invalid response.
pub fn parse_utf8_bytes(bytes: Vec<u8>) -> (r: PopResult<String>)
    ensures
        r matches Ok(s) ==> valid_utf8(bytes@) && s@ == decode_utf8(bytes@),
        r matches Err(e) ==> !valid_utf8(bytes@) && e.spec_kind() is InvalidResponse,
{
    match String::from_utf8(bytes) {
        Ok(s) => Ok(s),
        Err(_e) => Err(
            Error::new(
                ErrorKind::InvalidResponse,
                String::from_str("Failed to parse server response into utf8 encoded string"),
            ),
        ),
    }
}


/// `+OK` as characters.
pub open spec fn ok_chars() -> Seq<char> {
    seq!['+', 'O', 'K']
}

/// `-ERR` as characters.
pub open spec fn err_chars() -> Seq<char> {
    seq!['-', 'E', 'R', 'R']
}

pub open spec fn starts_with_chars(s: Seq<char>, p: Seq<char>) -> bool {
    p.len() <= s.len() && s.subrange(0, p.len() as int) == p
}

pub open spec fn is_ascii_char(c: char) -> bool {
    (c as int) < 128
}

/// Scanning `s` from `j` mirrors scanning `s.skip(d)` from `j - d`.
proof fn lemma_scan_ws_offset(s: Seq<char>, d: int, j: int)
    requires
        0 <= d <= j <= s.len(),
    ensures
        crate::chars::scan_ws(s, j) == crate::chars::scan_ws(s.skip(d), j - d) + d,
    decreases s.len() - j,
{
    if j < s.len() && crate::chars::is_ws_char(s[j]) {
        assert(s.skip(d)[j - d] == s[j]);
        lemma_scan_ws_offset(s, d, j + 1);
    } else {
        if j < s.len() {
            assert(s.skip(d)[j - d] == s[j]);
        }
    }
}

/// Backward scanning behaves the same on a suffix.
proof fn lemma_scan_ws_back_offset(s: Seq<char>, d: int, lo: int, to: int)
    requires
        0 <= d <= lo <= to <= s.len(),
    ensures
        crate::chars::scan_ws_back(s, lo, to) == crate::chars::scan_ws_back(
            s.skip(d),
            lo - d,
            to - d,
        ) + d,
    decreases to,
{
    if to <= lo || to < 1 {
    } else {
        assert(s.skip(d)[to - 1 - d] == s[to - 1]);
        if crate::chars::is_ws_char(s[to - 1]) {
            lemma_scan_ws_back_offset(s, d, lo, to - 1);
        }
    }
}

/// Splits a status line into its outcome: the message after `+OK `, a
/// server error after `-ERR `, or an invalid-response error.  The text
/// after the prefix is returned with one separator character skipped and
/// surrounding whitespace trimmed, exactly as the original string handling
/// had it; that separator and the one after `-ERR` must therefore be
/// one-byte characters.
pub fn parse_server_response<'a>(full_response: &'a str) -> (r: PopResult<&'a str>)
    requires
        starts_with_chars(full_response@, ok_chars()) && full_response@.len() >= 4
            ==> is_ascii_char(full_response@[3]),
        starts_with_chars(full_response@, err_chars()) ==> full_response@.len() >= 5
            && is_ascii_char(full_response@[4]),
        forall|i: int| 0 <= i < full_response@.len() ==> is_ascii_char(
            #[trigger] full_response@[i],
        ),
    ensures
        starts_with_chars(full_response@, ok_chars()) && full_response@.len() >= 4 ==> (r matches
            Ok(t) && t@ == crate::chars::spec_trim(full_response@.skip(4))),
        starts_with_chars(full_response@, ok_chars()) && full_response@.len() < 4 ==> (r matches
            Err(e) && e.spec_kind() is InvalidResponse),
        !starts_with_chars(full_response@, ok_chars()) && starts_with_chars(
            full_response@,
            err_chars(),
        ) ==> (r matches Err(e) && e.spec_kind() matches ErrorKind::ServerError(m) && m@
            == crate::chars::spec_trim(full_response@.skip(5))),
        !starts_with_chars(full_response@, ok_chars()) && !starts_with_chars(
            full_response@,
            err_chars(),
        ) ==> (r matches Err(e) && e.spec_kind() is InvalidResponse),
{
    let chars = crate::chars::chars_of(full_response);
    let n = chars.len();
    let is_ok = n >= 3 && chars[0] == '+' && chars[1] == 'O' && chars[2] == 'K';
    let is_err = n >= 4 && chars[0] == '-' && chars[1] == 'E' && chars[2] == 'R' && chars[3]
        == 'R';
    proof {
        if starts_with_chars(full_response@, ok_chars()) {
            assert(full_response@.subrange(0, 3)[0] == full_response@[0]);
            assert(full_response@.subrange(0, 3)[1] == full_response@[1]);
            assert(full_response@.subrange(0, 3)[2] == full_response@[2]);
        }
        if is_ok {
            assert(full_response@.subrange(0, 3) =~= ok_chars());
        }
        if starts_with_chars(full_response@, err_chars()) {
            assert(full_response@.subrange(0, 4)[0] == full_response@[0]);
            assert(full_response@.subrange(0, 4)[1] == full_response@[1]);
            assert(full_response@.subrange(0, 4)[2] == full_response@[2]);
            assert(full_response@.subrange(0, 4)[3] == full_response@[3]);
        }
        if is_err {
            assert(full_response@.subrange(0, 4) =~= err_chars());
        }
    }
    if is_ok {
        if n < 4 {
            return Err(
                Error::new(ErrorKind::InvalidResponse, String::from_str("Response is too short")),
            );
        }
        let a = crate::chars::scan_ws_at(&chars, 4);
        let b = crate::chars::scan_ws_back_at(&chars, a, n);
        proof {
            lemma_scan_ws_offset(full_response@, 4, 4);
            lemma_scan_ws_back_offset(full_response@, 4, a as int, n as int);
            assert(full_response@.subrange(a as int, b as int) =~= full_response@.skip(
                4,
            ).subrange(a - 4, b - 4));
        }
        let t = substring_ascii_checked(full_response, a, b);
        Ok(t)
    } else if is_err {
        let a = crate::chars::scan_ws_at(&chars, 5);
        let b = crate::chars::scan_ws_back_at(&chars, a, n);
        proof {
            lemma_scan_ws_offset(full_response@, 5, 5);
            lemma_scan_ws_back_offset(full_response@, 5, a as int, n as int);
            assert(full_response@.subrange(a as int, b as int) =~= full_response@.skip(
                5,
            ).subrange(a - 5, b - 5));
        }
        let t = substring_ascii_checked(full_response, a, b);
        let mut message = String::from_str("Server error: ");
        message.append(t);
        Err(Error::new(ErrorKind::ServerError(String::from_str(t)), message))
    } else {
        Err(Error::new(ErrorKind::InvalidResponse, String::from_str("Response is invalid")))
    }
}

/// A character-indexed substring of an all-ASCII string.
fn substring_ascii_checked<'a>(s: &'a str, from: usize, to: usize) -> (r: &'a str)
    requires
        from <= to <= s@.len(),
        forall|i: int| 0 <= i < s@.len() ==> is_ascii_char(#[trigger] s@[i]),
    ensures
        r@ == s@.subrange(from as int, to as int),
{
    s.substring_char(from, to)
}

/// `TOP` as characters.
pub open spec fn ltop_chars() -> Seq<char> {
    seq!['T', 'O', 'P']
}

/// `USER` as characters.
pub open spec fn luser_chars() -> Seq<char> {
    seq!['U', 'S', 'E', 'R']
}

/// `SASL` as characters.
pub open spec fn lsasl_chars() -> Seq<char> {
    seq!['S', 'A', 'S', 'L']
}

/// `RESP-CODES` as characters.
pub open spec fn lresp_chars() -> Seq<char> {
    seq!['R', 'E', 'S', 'P', '-', 'C', 'O', 'D', 'E', 'S']
}

/// `LOGIN-DELAY` as characters.
pub open spec fn ldelay_chars() -> Seq<char> {
    seq!['L', 'O', 'G', 'I', 'N', '-', 'D', 'E', 'L', 'A', 'Y']
}

/// `PIPELINING` as characters.
pub open spec fn lpipe_chars() -> Seq<char> {
    seq!['P', 'I', 'P', 'E', 'L', 'I', 'N', 'I', 'N', 'G']
}

/// `EXPIRE` as characters.
pub open spec fn lexpire_chars() -> Seq<char> {
    seq!['E', 'X', 'P', 'I', 'R', 'E']
}

/// `UIDL` as characters.
pub open spec fn luidl_chars() -> Seq<char> {
    seq!['U', 'I', 'D', 'L']
}

/// `IMPLEMENTATION` as characters.
pub open spec fn limpl_chars() -> Seq<char> {
    seq!['I', 'M', 'P', 'L', 'E', 'M', 'E', 'N', 'T', 'A', 'T', 'I', 'O', 'N']
}

/// The tokens after position `after` (a separator or the end), as a
/// split on `\x20` yields them, empty tokens included.
pub open spec fn spec_tok_list(u: Seq<char>, after: int) -> Seq<Seq<char>>
    decreases u.len() - after,
{
    if after < 0 || after >= u.len() {
        Seq::empty()
    } else {
        let start = after + 1;
        let e = crate::chars::tok_end(u, start);
        if e < start || e > u.len() {
            Seq::empty()
        } else {
            seq![u.subrange(start, e)] + spec_tok_list(u, e)
        }
    }
}

/// One capability line of the older string reading: the piece is trimmed
/// and upper-cased, the first token selects the tag, unknown tags are
/// dropped.
pub open spec fn spec_legacy_cap_piece(piece: Seq<char>) -> Option<crate::types::LegacyCapModel> {
    let u = crate::chars::spec_upper_chars(crate::chars::spec_trim(piece));
    let e0 = crate::chars::tok_end(u, 0);
    let t0 = u.subrange(0, e0);
    if t0 == ltop_chars() {
        Some(crate::types::LegacyCapModel::Top)
    } else if t0 == luser_chars() {
        Some(crate::types::LegacyCapModel::User)
    } else if t0 == lsasl_chars() {
        Some(crate::types::LegacyCapModel::Sasl(spec_tok_list(u, e0)))
    } else if t0 == lresp_chars() {
        Some(crate::types::LegacyCapModel::RespCodes)
    } else if t0 == ldelay_chars() {
        if e0 >= u.len() {
            Some(crate::types::LegacyCapModel::LoginDelay(0))
        } else {
            let e1 = crate::chars::tok_end(u, e0 + 1);
            match crate::chars::parse_uint_chars(u.subrange(e0 + 1, e1), u64::MAX as nat) {
                Some(v) => Some(crate::types::LegacyCapModel::LoginDelay(v as u64)),
                None => Some(crate::types::LegacyCapModel::LoginDelay(0)),
            }
        }
    } else if t0 == lpipe_chars() {
        Some(crate::types::LegacyCapModel::Pipelining)
    } else if t0 == lexpire_chars() {
        if e0 >= u.len() {
            Some(crate::types::LegacyCapModel::Expire(None))
        } else {
            let e1 = crate::chars::tok_end(u, e0 + 1);
            match crate::chars::parse_uint_chars(u.subrange(e0 + 1, e1), u64::MAX as nat) {
                Some(v) => Some(crate::types::LegacyCapModel::Expire(Some(v as u64))),
                None => Some(crate::types::LegacyCapModel::Expire(None)),
            }
        }
    } else if t0 == luidl_chars() {
        Some(crate::types::LegacyCapModel::Uidl)
    } else if t0 == limpl_chars() {
        Some(
            crate::types::LegacyCapModel::Implementation(
                if e0 >= u.len() {
                    Seq::empty()
                } else {
                    crate::chars::spec_strip_spaces(u.skip(e0 + 1))
                },
            ),
        )
    } else {
        None
    }
}

/// A `LOGIN-DELAY` or `EXPIRE` line carries a parsable number when it
/// carries an argument at all; the original string reading tolerates
/// nothing else.
pub open spec fn spec_cap_piece_ok(piece: Seq<char>) -> bool {
    let u = crate::chars::spec_upper_chars(crate::chars::spec_trim(piece));
    let e0 = crate::chars::tok_end(u, 0);
    let t0 = u.subrange(0, e0);
    if (t0 == ldelay_chars() || t0 == lexpire_chars()) && e0 < u.len() {
        crate::chars::parse_uint_chars(
            u.subrange(e0 + 1, crate::chars::tok_end(u, e0 + 1)),
            u64::MAX as nat,
        ) is Some
    } else {
        true
    }
}

/// The capabilities of every line of the text, in order, unknown names
/// dropped.
pub open spec fn spec_caps_scan(s: Seq<char>) -> Seq<crate::types::LegacyCapModel>
    decreases s.len(),
{
    match crate::chars::find_char(s, '\n', 0) {
        None => match spec_legacy_cap_piece(s) {
            Some(c) => seq![c],
            None => Seq::empty(),
        },
        Some(i) => {
            if i < 0 || i >= s.len() {
                Seq::empty()
            } else {
                let rest = spec_caps_scan(s.skip(i + 1));
                match spec_legacy_cap_piece(s.subrange(0, i)) {
                    Some(c) => seq![c] + rest,
                    None => rest,
                }
            }
        },
    }
}

/// Every line of the text satisfies `spec_cap_piece_ok`.
pub open spec fn spec_caps_ok(s: Seq<char>) -> bool
    decreases s.len(),
{
    match crate::chars::find_char(s, '\n', 0) {
        None => spec_cap_piece_ok(s),
        Some(i) => {
            if i < 0 || i >= s.len() {
                true
            } else {
                spec_cap_piece_ok(s.subrange(0, i)) && spec_caps_ok(s.skip(i + 1))
            }
        },
    }
}

fn string_of_range(u: &Vec<char>, a: usize, b: usize) -> (r: String)
    requires
        a <= b <= u@.len(),
    ensures
        r@ == u@.subrange(a as int, b as int),
{
    let mut r = String::new();
    let mut i = a;
    while i < b
        invariant
            a <= i <= b <= u@.len(),
            r@ =~= u@.subrange(a as int, i as int),
        decreases b - i,
    {
        r.push(u[i]);
        proof {
            assert(r@ =~= u@.subrange(a as int, i as int + 1));
        }
        i = i + 1;
    }
    r
}

fn tok_list_exec(u: &Vec<char>, after: usize) -> (r: Vec<String>)
    requires
        after <= u@.len(),
    ensures
        r.deep_view() == spec_tok_list(u@, after as int),
{
    let mut r: Vec<String> = Vec::new();
    let mut cur = after;
    while cur < u.len()
        invariant
            after <= cur <= u@.len(),
            spec_tok_list(u@, after as int) =~= r.deep_view() + spec_tok_list(u@, cur as int),
        decreases u@.len() - cur,
    {
        let start = cur + 1;
        let e = crate::chars::tok_end_at(u, start);
        let tok = string_of_range(u, start, e);
        let ghost r_old = r.deep_view();
        let ghost tokv = tok@;
        r.push(tok);
        proof {
            assert(r.deep_view() =~= r_old + seq![tokv]);
        }
        cur = e;
    }
    proof {
        assert(spec_tok_list(u@, cur as int) =~= Seq::<Seq<char>>::empty());
        assert(r.deep_view() =~= spec_tok_list(u@, after as int));
    }
    r
}

fn strip_spaces_from(u: &Vec<char>, from: usize) -> (r: String)
    requires
        from <= u@.len(),
    ensures
        r@ == crate::chars::spec_strip_spaces(u@.skip(from as int)),
{
    let mut r = String::new();
    let mut i = from;
    proof {
        assert(u@.skip(from as int).skip(0) =~= u@.skip(from as int));
    }
    while i < u.len()
        invariant
            from <= i <= u@.len(),
            crate::chars::spec_strip_spaces(u@.skip(from as int)) == r@
                + crate::chars::spec_strip_spaces(u@.skip(i as int)),
        decreases u@.len() - i,
    {
        proof {
            assert(u@.skip(i as int)[0] == u@[i as int]);
            assert(u@.skip(i as int).skip(1) =~= u@.skip(i as int + 1));
        }
        if u[i] != ' ' {
            r.push(u[i]);
        }
        i = i + 1;
    }
    proof {
        assert(u@.skip(i as int) =~= Seq::<char>::empty());
        assert(r@ =~= crate::chars::spec_strip_spaces(u@.skip(from as int)));
    }
    r
}

fn legacy_cap_piece_exec(piece: &Vec<char>) -> (r: Option<crate::types::Capability>)
    requires
        spec_cap_piece_ok(piece@),
    ensures
        match r {
            Some(c) => spec_legacy_cap_piece(piece@) == Some(c@),
            None => spec_legacy_cap_piece(piece@) is None,
        },
{
    let a = crate::chars::scan_ws_at(piece, 0);
    let b = crate::chars::scan_ws_back_at(piece, a, piece.len());
    let u = crate::chars::upper_range(piece, a, b);
    proof {
        assert(piece@.subrange(a as int, b as int) =~= crate::chars::spec_trim(piece@));
    }
    let e0 = crate::chars::tok_end_at(&u, 0);
    proof {
        reveal_strlit("TOP");
        reveal_strlit("USER");
        reveal_strlit("SASL");
        reveal_strlit("RESP-CODES");
        reveal_strlit("LOGIN-DELAY");
        reveal_strlit("PIPELINING");
        reveal_strlit("EXPIRE");
        reveal_strlit("UIDL");
        reveal_strlit("IMPLEMENTATION");
    }
    let kw_top = crate::chars::chars_of("TOP");
    let kw_user = crate::chars::chars_of("USER");
    let kw_sasl = crate::chars::chars_of("SASL");
    let kw_resp = crate::chars::chars_of("RESP-CODES");
    let kw_delay = crate::chars::chars_of("LOGIN-DELAY");
    let kw_pipe = crate::chars::chars_of("PIPELINING");
    let kw_expire = crate::chars::chars_of("EXPIRE");
    let kw_uidl = crate::chars::chars_of("UIDL");
    let kw_impl = crate::chars::chars_of("IMPLEMENTATION");
    proof {
        assert(kw_top@ =~= ltop_chars());
        assert(kw_user@ =~= luser_chars());
        assert(kw_sasl@ =~= lsasl_chars());
        assert(kw_resp@ =~= lresp_chars());
        assert(kw_delay@ =~= ldelay_chars());
        assert(kw_pipe@ =~= lpipe_chars());
        assert(kw_expire@ =~= lexpire_chars());
        assert(kw_uidl@ =~= luidl_chars());
        assert(kw_impl@ =~= limpl_chars());
    }
    if crate::chars::chars_eq_range(&u, 0, e0, &kw_top) {
        Some(crate::types::Capability::Top)
    } else if crate::chars::chars_eq_range(&u, 0, e0, &kw_user) {
        Some(crate::types::Capability::User)
    } else if crate::chars::chars_eq_range(&u, 0, e0, &kw_sasl) {
        Some(crate::types::Capability::Sasl(tok_list_exec(&u, e0)))
    } else if crate::chars::chars_eq_range(&u, 0, e0, &kw_resp) {
        Some(crate::types::Capability::RespCodes)
    } else if crate::chars::chars_eq_range(&u, 0, e0, &kw_delay) {
        if e0 >= u.len() {
            Some(crate::types::Capability::LoginDelay(0))
        } else {
            let e1 = crate::chars::tok_end_at(&u, e0 + 1);
            match crate::chars::parse_uint_range(&u, e0 + 1, e1, u64::MAX) {
                Some(v) => Some(crate::types::Capability::LoginDelay(v)),
                None => {
                    proof {
                        assert(false);
                    }
                    Some(crate::types::Capability::LoginDelay(0))
                },
            }
        }
    } else if crate::chars::chars_eq_range(&u, 0, e0, &kw_pipe) {
        Some(crate::types::Capability::Pipelining)
    } else if crate::chars::chars_eq_range(&u, 0, e0, &kw_expire) {
        if e0 >= u.len() {
            Some(crate::types::Capability::Expire(None))
        } else {
            let e1 = crate::chars::tok_end_at(&u, e0 + 1);
            match crate::chars::parse_uint_range(&u, e0 + 1, e1, u64::MAX) {
                Some(v) => Some(crate::types::Capability::Expire(Some(v))),
                None => {
                    proof {
                        assert(false);
                    }
                    Some(crate::types::Capability::Expire(None))
                },
            }
        }
    } else if crate::chars::chars_eq_range(&u, 0, e0, &kw_uidl) {
        Some(crate::types::Capability::Uidl)
    } else if crate::chars::chars_eq_range(&u, 0, e0, &kw_impl) {
        let text = if e0 >= u.len() {
            String::new()
        } else {
            strip_spaces_from(&u, e0 + 1)
        };
        Some(crate::types::Capability::Implementation(text))
    } else {
        None
    }
}

/// Parses the capability lines of a whole response text, RFC 2449 style,
/// in the older string-based reading: unknown names are dropped, and the
/// `LOGIN-DELAY` and `EXPIRE` arguments must be numbers where present.
pub fn parse_capabilities(response: &str) -> (r: crate::types::Capabilities)
    requires
        spec_caps_ok(response@),
    ensures
        r.deep_view() == spec_caps_scan(response@),
{
    let chars = crate::chars::chars_of(response);
    let n = chars.len();
    let mut results: crate::types::Capabilities = Vec::new();
    let mut pos: usize = 0;
    let mut finished = false;
    proof {
        assert(response@.skip(0) =~= response@);
    }
    while !finished
        invariant
            pos <= n,
            n == chars@.len(),
            chars@ == response@,
            spec_caps_ok(response@.skip(pos as int)),
            !finished ==> spec_caps_scan(response@) =~= results.deep_view() + spec_caps_scan(
                response@.skip(pos as int),
            ),
            finished ==> spec_caps_scan(response@) =~= results.deep_view(),
        decreases n - pos + (if finished {
            0int
        } else {
            1int
        }),
    {
        let ghost rem = response@.skip(pos as int);
        let (piece_end, last) = match crate::chars::find_char_at(&chars, '\n', pos) {
            Some(e) => (e, false),
            None => (n, true),
        };
        proof {
            crate::chars::lemma_find_char_offset(response@, '\n', pos as int, pos as int);
        }
        let piece = crate::chars::copy_chars_range(&chars, pos, piece_end);
        proof {
            if !last {
                assert(rem.subrange(0, piece_end - pos) =~= response@.subrange(
                    pos as int,
                    piece_end as int,
                ));
            } else {
                assert(rem =~= response@.subrange(pos as int, n as int));
            }
        }
        match legacy_cap_piece_exec(&piece) {
            Some(c) => {
                let ghost results_old = results.deep_view();
                let ghost cv = c@;
                results.push(c);
                proof {
                    assert(results.deep_view() =~= results_old + seq![cv]);
                }
            },
            None => {},
        }
        if last {
            finished = true;
        } else {
            proof {
                assert(rem.skip(piece_end - pos + 1) =~= response@.skip(piece_end as int + 1));
            }
            pos = piece_end + 1;
        }
    }
    results
}

impl crate::datatype::DataType<String> for crate::datatype::Text {
    fn value(&self) -> PopResult<String> {
        parse_utf8_bytes(crate::wire::copy_bytes(crate::datatype::Text::raw(self)))
    }

    fn raw(&self) -> &[u8] {
        crate::datatype::Text::raw(self)
    }
}

} // verus!
