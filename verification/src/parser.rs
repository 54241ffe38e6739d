//! The executable response parser.  Every function here is proved to
//! compute exactly what the grammar in `grammar` defines.

use vstd::prelude::*;
use vstd::slice::slice_subrange;

use crate::capability::{parse_capability_line, spec_cap_line, CapModel, Capability};
use crate::command::Command;
use crate::datatype::{Number, Text};
use crate::grammar::{
    err_prefix, is_cont_line, line_after, ok_prefix, spec_capa_items, spec_list_items,
    spec_list_stats, spec_parse, spec_stat_line, spec_uidl_items, spec_uidl_line, spec_unstuff,
    starts_with, SpecParsed,
};
use crate::list::{List, ListItem, ListItemModel};
use crate::response::Response;
use crate::stat::{StatModel, StatResponse};
use crate::uidl::{Uidl, UidlResponse, UniqueId, UniqueIdModel};
use crate::wire::{
    find_crlf, find_crlf_at, find_term_at, lemma_find_crlf_offset, lemma_find_crlf_some,
    lemma_find_term_some, scan_digits_at, scan_printable_at, scan_spaces_at, DOT, SP,
};

verus! {

/// What one parse attempt yields: a complete response and how many bytes it
/// consumed, a request for more bytes, or a malformed response.
#[derive(Debug)]
pub enum Parsed {
    Done { used: usize, response: Response },
    Incomplete,
    Malformed,
}

impl View for Parsed {
    type V = SpecParsed;

    open spec fn view(&self) -> SpecParsed {
        match *self {
            Parsed::Done { used, response } => SpecParsed::Done {
                used: used as int,
                resp: response@,
            },
            Parsed::Incomplete => SpecParsed::More,
            Parsed::Malformed => SpecParsed::Bad,
        }
    }
}

/// The first CRLF of a strict prefix is the first CRLF of the whole.
proof fn lemma_find_crlf_prefix(s: Seq<u8>, from: int, n: int, e: int)
    requires
        find_crlf(s, from) == Some(e),
        e + 2 <= n <= s.len(),
        0 <= from,
    ensures
        find_crlf(s.subrange(0, n), from) == Some(e),
    decreases s.len() - from,
{
    lemma_find_crlf_some(s, from, e);
    if s[from] == crate::wire::CR && s[from + 1] == crate::wire::LF {
        assert(s.subrange(0, n)[from] == s[from]);
        assert(s.subrange(0, n)[from + 1] == s[from + 1]);
    } else {
        assert(s.subrange(0, n)[from] == s[from]);
        assert(s.subrange(0, n)[from + 1] == s[from + 1]);
        lemma_find_crlf_prefix(s, from + 1, n, e);
    }
}

fn starts_ok(line: &[u8]) -> (r: bool)
    ensures
        r == starts_with(line@, ok_prefix()),
{
    if line.len() < 3 {
        return false;
    }
    let r = line[0] == 43 && line[1] == 79 && line[2] == 75;
    proof {
        assert(line@.subrange(0, 3)[0] == line@[0]);
        assert(line@.subrange(0, 3)[1] == line@[1]);
        assert(line@.subrange(0, 3)[2] == line@[2]);
        if r {
            assert(line@.subrange(0, 3) =~= ok_prefix());
        }
    }
    r
}

fn starts_err(line: &[u8]) -> (r: bool)
    ensures
        r == starts_with(line@, err_prefix()),
{
    if line.len() < 4 {
        return false;
    }
    let r = line[0] == 45 && line[1] == 69 && line[2] == 82 && line[3] == 82;
    proof {
        assert(line@.subrange(0, 4)[0] == line@[0]);
        assert(line@.subrange(0, 4)[1] == line@[1]);
        assert(line@.subrange(0, 4)[2] == line@[2]);
        assert(line@.subrange(0, 4)[3] == line@[3]);
        if r {
            assert(line@.subrange(0, 4) =~= err_prefix());
        }
    }
    r
}

fn is_cont(line: &[u8]) -> (r: bool)
    ensures
        r == is_cont_line(line@),
{
    line.len() >= 2 && line[0] == 43 && line[1] == SP
}

/// The line's bytes from `p` on, with the spaces at `p` skipped.
fn after_pos(line: &[u8], p: usize) -> (r: Vec<u8>)
    requires
        p <= line@.len(),
    ensures
        r@ == line_after(line@, p as int),
{
    let rs = scan_spaces_at(line, p);
    crate::wire::copy_bytes(slice_subrange(line, rs, line.len()))
}

/// The two numeric fields of a drop listing line.
fn stat_fields(rest: &[u8]) -> (r: Option<(Vec<u8>, Vec<u8>)>)
    ensures
        match r {
            Some(f) => spec_stat_line(rest@) == Some(StatModel { count: f.0@, size: f.1@ }),
            None => spec_stat_line(rest@) is None,
        },
{
    let i = scan_digits_at(rest, 0);
    if i == 0 {
        return None;
    }
    let j = scan_spaces_at(rest, i);
    if j == i {
        return None;
    }
    let k = scan_digits_at(rest, j);
    if k == j {
        return None;
    }
    Some(
        (
            crate::wire::copy_bytes(slice_subrange(rest, 0, i)),
            crate::wire::copy_bytes(slice_subrange(rest, j, k)),
        ),
    )
}

/// The two numeric fields of a multi-line `LIST` status line.
fn list_stats_fields(rest: &[u8]) -> (r: Option<(Vec<u8>, Vec<u8>)>)
    ensures
        match r {
            Some(f) => spec_list_stats(rest@) == Some(StatModel { count: f.0@, size: f.1@ }),
            None => spec_list_stats(rest@) is None,
        },
{
    let i = scan_digits_at(rest, 0);
    if i == 0 {
        return None;
    }
    let j = scan_spaces_at(rest, i);
    if j == i {
        return None;
    }
    let a = crate::wire::scan_alnum_at(rest, j);
    let b = scan_spaces_at(rest, a);
    if b == a {
        return None;
    }
    if b >= rest.len() || rest[b] != 40 {
        return None;
    }
    let c = scan_digits_at(rest, b + 1);
    if c == b + 1 {
        return None;
    }
    let d = scan_spaces_at(rest, c);
    if d == c {
        return None;
    }
    let e = crate::wire::scan_alnum_at(rest, d);
    if e >= rest.len() || rest[e] != 41 {
        return None;
    }
    if !crate::wire::all_spaces_in(rest, e + 1, rest.len()) {
        return None;
    }
    Some(
        (
            crate::wire::copy_bytes(slice_subrange(rest, 0, i)),
            crate::wire::copy_bytes(slice_subrange(rest, b + 1, c)),
        ),
    )
}

/// The index and unique-id token of a unique-id listing line.
fn uidl_fields(rest: &[u8]) -> (r: Option<(Vec<u8>, Vec<u8>)>)
    ensures
        match r {
            Some(f) => spec_uidl_line(rest@) == Some(UniqueIdModel { index: f.0@, id: f.1@ }),
            None => spec_uidl_line(rest@) is None,
        },
{
    let i = scan_digits_at(rest, 0);
    if i == 0 {
        return None;
    }
    let j = scan_spaces_at(rest, i);
    if j == i {
        return None;
    }
    let p = scan_printable_at(rest, j);
    if p == j || p - j > 70 {
        return None;
    }
    if !crate::wire::all_spaces_in(rest, p, rest.len()) {
        return None;
    }
    Some(
        (
            crate::wire::copy_bytes(slice_subrange(rest, 0, i)),
            crate::wire::copy_bytes(slice_subrange(rest, j, p)),
        ),
    )
}

/// Parses the items of a multi-line `LIST` body.
fn parse_list_items(body: &[u8]) -> (r: Option<Vec<ListItem>>)
    ensures
        match r {
            Some(v) => spec_list_items(body@) == Some(v.deep_view()),
            None => spec_list_items(body@) is None,
        },
{
    let mut items: Vec<ListItem> = Vec::new();
    let mut pos: usize = 0;
    proof {
        assert(body@.skip(0) =~= body@);
    }
    while pos < body.len()
        invariant
            0 <= pos <= body@.len(),
            spec_list_items(body@) matches Some(all) ==> spec_list_items(body@.skip(pos as int))
                matches Some(tail) && all == items.deep_view() + tail,
            spec_list_items(body@) is None <==> spec_list_items(body@.skip(pos as int)) is None,
        decreases body@.len() - pos,
    {
        proof {
            lemma_find_crlf_offset(body@, pos as int, pos as int);
        }
        let e = match find_crlf_at(body, pos) {
            None => {
                return None;
            },
            Some(e) => e,
        };
        proof {
            lemma_find_crlf_some(body@, pos as int, e as int);
        }
        let start = if e > pos && body[pos] == DOT {
            pos + 1
        } else {
            pos
        };
        let line2 = slice_subrange(body, start, e);
        proof {
            let b = body@.skip(pos as int);
            let bline = b.subrange(0, e - pos);
            assert(bline =~= body@.subrange(pos as int, e as int));
            if e > pos && body@[pos as int] == DOT {
                assert(bline.skip(1) =~= body@.subrange(pos as int + 1, e as int));
                assert(line2@ =~= bline.skip(1));
            } else {
                if e == pos {
                    assert(line2@ =~= bline);
                } else {
                    assert(line2@ =~= bline);
                }
            }
        }
        let item = match stat_fields(line2) {
            None => {
                return None;
            },
            Some(f) => f,
        };
        let ghost items_old = items.deep_view();
        items.push(ListItem::new(Number::new(item.0), Number::new(item.1)));
        proof {
            let b = body@.skip(pos as int);
            assert(b.skip(e - pos + 2) =~= body@.skip(e as int + 2));
            assert(items.deep_view() =~= items_old + seq![
                ListItemModel {
                    index: spec_stat_line(line2@)->Some_0.count,
                    size: spec_stat_line(line2@)->Some_0.size,
                },
            ]);
        }
        pos = e + 2;
    }
    proof {
        assert(body@.skip(pos as int) =~= Seq::<u8>::empty());
        if spec_list_items(body@) is Some {
            assert(items.deep_view() =~= spec_list_items(body@)->Some_0);
        }
    }
    Some(items)
}

/// Parses the items of a multi-line `UIDL` body.
fn parse_uidl_items(body: &[u8]) -> (r: Option<Vec<UniqueId>>)
    ensures
        match r {
            Some(v) => spec_uidl_items(body@) == Some(v.deep_view()),
            None => spec_uidl_items(body@) is None,
        },
{
    let mut items: Vec<UniqueId> = Vec::new();
    let mut pos: usize = 0;
    proof {
        assert(body@.skip(0) =~= body@);
    }
    while pos < body.len()
        invariant
            0 <= pos <= body@.len(),
            spec_uidl_items(body@) matches Some(all) ==> spec_uidl_items(body@.skip(pos as int))
                matches Some(tail) && all == items.deep_view() + tail,
            spec_uidl_items(body@) is None <==> spec_uidl_items(body@.skip(pos as int)) is None,
        decreases body@.len() - pos,
    {
        proof {
            lemma_find_crlf_offset(body@, pos as int, pos as int);
        }
        let e = match find_crlf_at(body, pos) {
            None => {
                return None;
            },
            Some(e) => e,
        };
        proof {
            lemma_find_crlf_some(body@, pos as int, e as int);
        }
        let start = if e > pos && body[pos] == DOT {
            pos + 1
        } else {
            pos
        };
        let line2 = slice_subrange(body, start, e);
        proof {
            let b = body@.skip(pos as int);
            let bline = b.subrange(0, e - pos);
            assert(bline =~= body@.subrange(pos as int, e as int));
            if e > pos && body@[pos as int] == DOT {
                assert(bline.skip(1) =~= body@.subrange(pos as int + 1, e as int));
                assert(line2@ =~= bline.skip(1));
            } else {
                assert(line2@ =~= bline);
            }
        }
        let item = match uidl_fields(line2) {
            None => {
                return None;
            },
            Some(f) => f,
        };
        let ghost items_old = items.deep_view();
        items.push(UniqueId::new(Number::new(item.0), Text::new(item.1)));
        proof {
            let b = body@.skip(pos as int);
            assert(b.skip(e - pos + 2) =~= body@.skip(e as int + 2));
            assert(items.deep_view() =~= items_old + seq![spec_uidl_line(line2@)->Some_0]);
        }
        pos = e + 2;
    }
    proof {
        assert(body@.skip(pos as int) =~= Seq::<u8>::empty());
        if spec_uidl_items(body@) is Some {
            assert(items.deep_view() =~= spec_uidl_items(body@)->Some_0);
        }
    }
    Some(items)
}

/// Parses the lines of a `CAPA` body.
fn parse_capa_items(body: &[u8]) -> (r: Option<Vec<Capability>>)
    ensures
        match r {
            Some(v) => spec_capa_items(body@) == Some(v.deep_view()),
            None => spec_capa_items(body@) is None,
        },
{
    let mut items: Vec<Capability> = Vec::new();
    let mut pos: usize = 0;
    proof {
        assert(body@.skip(0) =~= body@);
    }
    while pos < body.len()
        invariant
            0 <= pos <= body@.len(),
            spec_capa_items(body@) matches Some(all) ==> spec_capa_items(body@.skip(pos as int))
                matches Some(tail) && all == items.deep_view() + tail,
            spec_capa_items(body@) is None <==> spec_capa_items(body@.skip(pos as int)) is None,
        decreases body@.len() - pos,
    {
        proof {
            lemma_find_crlf_offset(body@, pos as int, pos as int);
        }
        let e = match find_crlf_at(body, pos) {
            None => {
                return None;
            },
            Some(e) => e,
        };
        proof {
            lemma_find_crlf_some(body@, pos as int, e as int);
        }
        let line = slice_subrange(body, pos, e);
        proof {
            let b = body@.skip(pos as int);
            assert(b.subrange(0, e - pos) =~= body@.subrange(pos as int, e as int));
            assert(line@ =~= b.subrange(0, e - pos));
        }
        let cap = match parse_capability_line(line) {
            None => {
                return None;
            },
            Some(c) => c,
        };
        let ghost items_old = items.deep_view();
        let ghost capm = cap@;
        items.push(cap);
        proof {
            let b = body@.skip(pos as int);
            assert(b.skip(e - pos + 2) =~= body@.skip(e as int + 2));
            assert(items.deep_view() =~= items_old + seq![capm]);
        }
        pos = e + 2;
    }
    proof {
        assert(body@.skip(pos as int) =~= Seq::<u8>::empty());
        if spec_capa_items(body@) is Some {
            assert(items.deep_view() =~= spec_capa_items(body@)->Some_0);
        }
    }
    Some(items)
}

/// Dot-unstuffing of a message body (P4): exactly one leading `.` is
/// removed from every line before the bytes go back to the caller.
fn unstuff(body: &[u8]) -> (r: Vec<u8>)
    ensures
        r@ == spec_unstuff(body@),
{
    let mut out: Vec<u8> = Vec::new();
    let mut pos: usize = 0;
    proof {
        assert(body@.skip(0) =~= body@);
    }
    while pos < body.len()
        invariant
            0 <= pos <= body@.len(),
            spec_unstuff(body@) == out@ + spec_unstuff(body@.skip(pos as int)),
        decreases body@.len() - pos,
    {
        let start = if body[pos] == DOT {
            pos + 1
        } else {
            pos
        };
        proof {
            let b = body@.skip(pos as int);
            if body@[pos as int] == DOT {
                assert(b[0] == DOT);
                assert(b.skip(1) =~= body@.skip(start as int));
            }
            lemma_find_crlf_offset(body@, start as int, start as int);
        }
        match find_crlf_at(body, start) {
            Some(e) => {
                proof {
                    lemma_find_crlf_some(body@, start as int, e as int);
                }
                let seg = slice_subrange(body, start, e + 2);
                out.extend_from_slice(seg);
                proof {
                    let b2 = body@.skip(start as int);
                    assert(b2.subrange(0, e - start + 2) =~= body@.subrange(
                        start as int,
                        e as int + 2,
                    ));
                    assert(b2.skip(e - start + 2) =~= body@.skip(e as int + 2));
                }
                pos = e + 2;
            },
            None => {
                let seg = slice_subrange(body, start, body.len());
                out.extend_from_slice(seg);
                proof {
                    let b2 = body@.skip(start as int);
                    assert(b2 =~= body@.subrange(start as int, body@.len() as int));
                    assert(body@.skip(body@.len() as int) =~= Seq::<u8>::empty());
                    assert(spec_unstuff(Seq::<u8>::empty()) =~= Seq::<u8>::empty());
                }
                pos = body.len();
            },
        }
    }
    proof {
        assert(body@.skip(pos as int) =~= Seq::<u8>::empty());
        assert(spec_unstuff(Seq::<u8>::empty()) =~= Seq::<u8>::empty());
        assert(out@ =~= spec_unstuff(body@));
    }
    out
}

/// Attempts to recognize one complete response to `request` at the start
/// of `input`.  Returns exactly what `spec_parse` defines: the response and
/// the count of consumed bytes, a request for more bytes, or a parse
/// failure.  It never consumes bytes past the end of the response it
/// recognizes.
pub fn parse(input: &[u8], request: &Command) -> (r: Parsed)
    ensures
        r@ == spec_parse(input@, *request),
{
    let input_len = input.len();
    proof {
        assert(input@.len() == input_len);
    }
    let e = match find_crlf_at(input, 0) {
        None => {
            return Parsed::Incomplete;
        },
        Some(e) => e,
    };
    proof {
        lemma_find_crlf_some(input@, 0, e as int);
    }
    let line = slice_subrange(input, 0, e);
    proof {
        assert(line@ =~= input@.subrange(0, e as int));
        lemma_find_crlf_prefix(input@, 0, e as int + 2, e as int);
        assert(input@.subrange(0, e as int + 2).subrange(0, e as int) =~= line@);
    }
    if starts_err(line) {
        let msg = after_pos(line, 4);
        return Parsed::Done { used: e + 2, response: Response::ServerErr(Text::new(msg)) };
    }
    let is_base64 = match request {
        Command::Base64(_) => true,
        _ => false,
    };
    if is_base64 {
        if is_cont(line) {
            let msg = after_pos(line, 1);
            return Parsed::Done { used: e + 2, response: Response::Challenge(Text::new(msg)) };
        } else if starts_ok(line) {
            let msg = after_pos(line, 3);
            return Parsed::Done { used: e + 2, response: Response::Message(Text::new(msg)) };
        } else {
            return Parsed::Malformed;
        }
    }
    if !starts_ok(line) {
        return Parsed::Malformed;
    }
    let rs = scan_spaces_at(line, 3);
    let rest = slice_subrange(line, rs, line.len());
    proof {
        assert(rest@ =~= line_after(line@, 3));
    }
    match request {
        Command::Stat => {
            match stat_fields(rest) {
                Some(f) => Parsed::Done {
                    used: e + 2,
                    response: Response::Stat(
                        StatResponse::new(Number::new(f.0), Number::new(f.1)),
                    ),
                },
                None => Parsed::Malformed,
            }
        },
        Command::List => {
            match stat_fields(rest) {
                Some(f) => Parsed::Done {
                    used: e + 2,
                    response: Response::Stat(
                        StatResponse::new(Number::new(f.0), Number::new(f.1)),
                    ),
                },
                None => {
                    let i = match find_term_at(input, e) {
                        None => {
                            return Parsed::Incomplete;
                        },
                        Some(i) => i,
                    };
                    proof {
                        lemma_find_term_some(input@, e as int, i as int);
                        lemma_frame_body(input@, e as int, i as int);
                    }
                    let body = slice_subrange(input, e + 2, i + 2);
                    proof {
                        let t = input@.subrange(0, i as int + 5);
                        assert(body@ =~= t.subrange(e as int + 2, t.len() - 3));
                    }
                    match parse_list_items(body) {
                        Some(items) => {
                            let stats = match list_stats_fields(rest) {
                                Some(f) => Some(
                                    StatResponse::new(Number::new(f.0), Number::new(f.1)),
                                ),
                                None => None,
                            };
                            Parsed::Done {
                                used: i + 5,
                                response: Response::List(List::new(stats, items)),
                            }
                        },
                        None => Parsed::Malformed,
                    }
                },
            }
        },
        Command::Uidl => {
            match uidl_fields(rest) {
                Some(f) => Parsed::Done {
                    used: e + 2,
                    response: Response::Uidl(
                        UidlResponse::Single(UniqueId::new(Number::new(f.0), Text::new(f.1))),
                    ),
                },
                None => {
                    let i = match find_term_at(input, e) {
                        None => {
                            return Parsed::Incomplete;
                        },
                        Some(i) => i,
                    };
                    proof {
                        lemma_find_term_some(input@, e as int, i as int);
                        lemma_frame_body(input@, e as int, i as int);
                    }
                    let body = slice_subrange(input, e + 2, i + 2);
                    proof {
                        let t = input@.subrange(0, i as int + 5);
                        assert(body@ =~= t.subrange(e as int + 2, t.len() - 3));
                    }
                    match parse_uidl_items(body) {
                        Some(items) => {
                            let message = Some(Text::new(crate::wire::copy_bytes(rest)));
                            Parsed::Done {
                                used: i + 5,
                                response: Response::Uidl(
                                    UidlResponse::Multiple(Uidl::new(message, items)),
                                ),
                            }
                        },
                        None => Parsed::Malformed,
                    }
                },
            }
        },
        Command::Retr | Command::Top => {
            let i = match find_term_at(input, e) {
                None => {
                    return Parsed::Incomplete;
                },
                Some(i) => i,
            };
            proof {
                lemma_find_term_some(input@, e as int, i as int);
                lemma_frame_body(input@, e as int, i as int);
            }
            let content = if i <= e + 2 {
                Vec::new()
            } else {
                unstuff(slice_subrange(input, e + 2, i))
            };
            proof {
                let t = input@.subrange(0, i as int + 5);
                if i > e + 2 {
                    assert(input@.subrange(e as int + 2, i as int) =~= t.subrange(
                        e as int + 2,
                        t.len() - 5,
                    ));
                } else {
                    assert(spec_unstuff(Seq::<u8>::empty()) =~= Seq::<u8>::empty());
                }
            }
            Parsed::Done { used: i + 5, response: Response::Bytes(content) }
        },
        Command::Capa => {
            let i = match find_term_at(input, e) {
                None => {
                    return Parsed::Incomplete;
                },
                Some(i) => i,
            };
            proof {
                lemma_find_term_some(input@, e as int, i as int);
                lemma_frame_body(input@, e as int, i as int);
            }
            let body = slice_subrange(input, e + 2, i + 2);
            proof {
                let t = input@.subrange(0, i as int + 5);
                assert(body@ =~= t.subrange(e as int + 2, t.len() - 3));
            }
            match parse_capa_items(body) {
                Some(caps) => Parsed::Done { used: i + 5, response: Response::Capability(caps) },
                None => Parsed::Malformed,
            }
        },
        _ => {
            let msg = after_pos(line, 3);
            Parsed::Done { used: e + 2, response: Response::Message(Text::new(msg)) }
        },
    }
}

/// The status prefix: `+OK` or `-ERR`, with the spaces after it consumed.
pub open spec fn spec_status(s: Seq<u8>) -> Option<(bool, int)> {
    if starts_with(s, ok_prefix()) {
        Some((true, crate::wire::scan_spaces(s, 3)))
    } else if starts_with(s, err_prefix()) {
        Some((false, crate::wire::scan_spaces(s, 4)))
    } else {
        None
    }
}

/// Recognizes the status prefix at the start of `input` and returns it
/// together with the count of bytes consumed (prefix plus spaces).
pub fn status(input: &[u8]) -> (r: Option<(crate::response::Status, usize)>)
    ensures
        match r {
            Some(p) => spec_status(input@) == Some((p.0.spec_success(), p.1 as int)),
            None => spec_status(input@) is None,
        },
{
    if starts_ok(input) {
        let used = scan_spaces_at(input, 3);
        Some((crate::response::Status::new(true), used))
    } else if starts_err(input) {
        let used = scan_spaces_at(input, 4);
        Some((crate::response::Status::new(false), used))
    } else {
        None
    }
}

/// A complete drop listing line: `count SP+ size [anything] CRLF`.
pub open spec fn spec_stat_parse(s: Seq<u8>) -> Option<(StatModel, int)> {
    match find_crlf(s, 0) {
        None => None,
        Some(e) => match spec_stat_line(s.subrange(0, e)) {
            Some(m) => Some((m, e + 2)),
            None => None,
        },
    }
}

/// Parses one drop listing line, returning it and the consumed count.
pub fn stat(input: &[u8]) -> (r: Option<(StatResponse, usize)>)
    ensures
        match r {
            Some(p) => spec_stat_parse(input@) == Some((p.0@, p.1 as int)),
            None => spec_stat_parse(input@) is None,
        },
{
    let input_len = input.len();
    let e = match find_crlf_at(input, 0) {
        None => {
            return None;
        },
        Some(e) => e,
    };
    proof {
        lemma_find_crlf_some(input@, 0, e as int);
    }
    let line = slice_subrange(input, 0, e);
    proof {
        assert(line@ =~= input@.subrange(0, e as int));
    }
    match stat_fields(line) {
        Some(f) => Some((StatResponse::new(Number::new(f.0), Number::new(f.1)), e + 2)),
        None => None,
    }
}

/// A complete multi-line `LIST` status line, CRLF included.
pub open spec fn spec_list_stats_parse(s: Seq<u8>) -> Option<(StatModel, int)> {
    match find_crlf(s, 0) {
        None => None,
        Some(e) => match spec_list_stats(s.subrange(0, e)) {
            Some(m) => Some((m, e + 2)),
            None => None,
        },
    }
}

/// Parses the status line of a multi-line `LIST` response.
pub fn list_stats(input: &[u8]) -> (r: Option<(StatResponse, usize)>)
    ensures
        match r {
            Some(p) => spec_list_stats_parse(input@) == Some((p.0@, p.1 as int)),
            None => spec_list_stats_parse(input@) is None,
        },
{
    let input_len = input.len();
    let e = match find_crlf_at(input, 0) {
        None => {
            return None;
        },
        Some(e) => e,
    };
    proof {
        lemma_find_crlf_some(input@, 0, e as int);
    }
    let line = slice_subrange(input, 0, e);
    proof {
        assert(line@ =~= input@.subrange(0, e as int));
    }
    match list_stats_fields(line) {
        Some(f) => Some((StatResponse::new(Number::new(f.0), Number::new(f.1)), e + 2)),
        None => None,
    }
}

/// A complete capability line, CRLF included.
pub open spec fn spec_capability_parse(s: Seq<u8>) -> Option<(CapModel, int)> {
    match find_crlf(s, 0) {
        None => None,
        Some(e) => match spec_cap_line(s.subrange(0, e)) {
            Some(c) => Some((c, e + 2)),
            None => None,
        },
    }
}

/// Parses one capability line, returning it and the consumed count.
pub fn capability(input: &[u8]) -> (r: Option<(Capability, usize)>)
    ensures
        match r {
            Some(p) => spec_capability_parse(input@) == Some((p.0@, p.1 as int)),
            None => spec_capability_parse(input@) is None,
        },
{
    let input_len = input.len();
    let e = match find_crlf_at(input, 0) {
        None => {
            return None;
        },
        Some(e) => e,
    };
    proof {
        lemma_find_crlf_some(input@, 0, e as int);
    }
    let line = slice_subrange(input, 0, e);
    proof {
        assert(line@ =~= input@.subrange(0, e as int));
    }
    match parse_capability_line(line) {
        Some(c) => Some((c, e + 2)),
        None => None,
    }
}

/// A whole `CAPA` reply: one leading message line, capability lines, and
/// the terminator line.
pub open spec fn spec_capa_response(s: Seq<u8>) -> Option<(Seq<CapModel>, int)> {
    match find_crlf(s, 0) {
        None => None,
        Some(e) => match find_term(s, e) {
            None => None,
            Some(i) => match spec_capa_items(s.subrange(e + 2, i + 2)) {
                Some(caps) => Some((caps, i + 5)),
                None => None,
            },
        },
    }
}

/// Parses a whole `CAPA` reply, message line included.
pub fn capability_response(input: &[u8]) -> (r: Option<(Vec<Capability>, usize)>)
    ensures
        match r {
            Some(p) => spec_capa_response(input@) == Some((p.0.deep_view(), p.1 as int)),
            None => spec_capa_response(input@) is None,
        },
{
    let input_len = input.len();
    let e = match find_crlf_at(input, 0) {
        None => {
            return None;
        },
        Some(e) => e,
    };
    proof {
        lemma_find_crlf_some(input@, 0, e as int);
    }
    let i = match find_term_at(input, e) {
        None => {
            return None;
        },
        Some(i) => i,
    };
    proof {
        lemma_find_term_some(input@, e as int, i as int);
        if i == e + 1 {
            assert(input@[e as int + 1] == crate::wire::LF);
            assert(false);
        }
    }
    let body = slice_subrange(input, e + 2, i + 2);
    match parse_capa_items(body) {
        Some(caps) => Some((caps, i + 5)),
        None => None,
    }
}

/// A whole message reply (as after `RETR` or `TOP`): one leading message
/// line, then the body up to the first `CRLF . CRLF`, dot-unstuffed.
pub open spec fn spec_rfc822_parse(s: Seq<u8>) -> Option<(Seq<u8>, int)> {
    match find_crlf(s, 0) {
        None => None,
        Some(e) => match find_term(s, e) {
            None => None,
            Some(i) => {
                let body = if i <= e + 2 {
                    Seq::<u8>::empty()
                } else {
                    s.subrange(e + 2, i)
                };
                Some((spec_unstuff(body), i + 5))
            },
        },
    }
}

/// Parses a whole message reply, returning the dot-unstuffed body bytes
/// (P4): what the caller gets is the transmitted body with one leading `.`
/// stripped from each line, without the terminating `. CRLF`.
pub fn rfc822_response(input: &[u8]) -> (r: Option<(Vec<u8>, usize)>)
    ensures
        match r {
            Some(p) => spec_rfc822_parse(input@) == Some((p.0@, p.1 as int)),
            None => spec_rfc822_parse(input@) is None,
        },
{
    let input_len = input.len();
    let e = match find_crlf_at(input, 0) {
        None => {
            return None;
        },
        Some(e) => e,
    };
    proof {
        lemma_find_crlf_some(input@, 0, e as int);
    }
    let i = match find_term_at(input, e) {
        None => {
            return None;
        },
        Some(i) => i,
    };
    proof {
        lemma_find_term_some(input@, e as int, i as int);
        if i == e + 1 {
            assert(input@[e as int + 1] == crate::wire::LF);
            assert(false);
        }
    }
    let content = if i <= e + 2 {
        proof {
            assert(spec_unstuff(Seq::<u8>::empty()) =~= Seq::<u8>::empty());
        }
        Vec::new()
    } else {
        unstuff(slice_subrange(input, e + 2, i))
    };
    Some((content, i + 5))
}

/// Spaces then CRLF, as tolerated at the end of every line.
pub open spec fn spec_eol(s: Seq<u8>) -> Option<int> {
    let k = crate::wire::scan_spaces(s, 0);
    if crate::wire::crlf_at(s, k) {
        Some(k + 2)
    } else {
        None
    }
}

/// Consumes trailing spaces and one CRLF at the start of `input`.
pub fn eol(input: &[u8]) -> (r: Option<usize>)
    ensures
        match r {
            Some(u) => spec_eol(input@) == Some(u as int),
            None => spec_eol(input@) is None,
        },
{
    let k = scan_spaces_at(input, 0);
    if k < input.len() && k + 1 < input.len() && input[k] == crate::wire::CR && input[k + 1]
        == crate::wire::LF {
        Some(k + 2)
    } else {
        None
    }
}

/// The multi-line terminator: a line holding a single `.`.
pub open spec fn spec_end_of_multiline(s: Seq<u8>) -> bool {
    s.len() >= 3 && s[0] == DOT && s[1] == crate::wire::CR && s[2] == crate::wire::LF
}

/// Consumes the terminator line `. CRLF` at the start of `input`.
pub fn end_of_multiline(input: &[u8]) -> (r: Option<usize>)
    ensures
        match r {
            Some(u) => spec_end_of_multiline(input@) && u == 3,
            None => !spec_end_of_multiline(input@),
        },
{
    if input.len() >= 3 && input[0] == DOT && input[1] == crate::wire::CR && input[2]
        == crate::wire::LF {
        Some(3)
    } else {
        None
    }
}

/// One line's content and the count of bytes through its CRLF.
pub open spec fn spec_message_parse(s: Seq<u8>) -> Option<(Seq<u8>, int)> {
    match find_crlf(s, 0) {
        None => None,
        Some(e) => Some((s.subrange(0, e), e + 2)),
    }
}

/// Consumes one CRLF-terminated line and returns its content.
pub fn message_parser(input: &[u8]) -> (r: Option<(Vec<u8>, usize)>)
    ensures
        match r {
            Some(p) => spec_message_parse(input@) == Some((p.0@, p.1 as int)),
            None => spec_message_parse(input@) is None,
        },
{
    let input_len = input.len();
    let e = match find_crlf_at(input, 0) {
        None => {
            return None;
        },
        Some(e) => e,
    };
    proof {
        lemma_find_crlf_some(input@, 0, e as int);
    }
    Some((crate::wire::copy_bytes(slice_subrange(input, 0, e)), e + 2))
}

/// Inside a frame `input[0 .. i + 5]`, the status line and its CRLF sit
/// where they sit in `input`.
proof fn lemma_frame_body(s: Seq<u8>, e: int, i: int)
    requires
        find_crlf(s, 0) == Some(e),
        find_term(s, e) == Some(i),
    ensures
        find_crlf(s.subrange(0, i + 5), 0) == Some(e),
        find_term(s.subrange(0, i + 5), e) == Some(i),
        s.subrange(0, i + 5).subrange(0, e) =~= s.subrange(0, e),
        e + 2 <= i + 2,
{
    lemma_find_crlf_some(s, 0, e);
    lemma_find_term_some(s, e, i);
    lemma_find_crlf_prefix(s, 0, i + 5, e);
    lemma_find_term_prefix(s, e, i + 5, i);
    if i == e + 1 {
        assert(s[e + 1] == crate::wire::LF);
        assert(s[i] == crate::wire::CR);
        assert(false);
    }
}

use crate::wire::find_term;

/// The first terminator of a strict prefix is the first terminator of the
/// whole.
proof fn lemma_find_term_prefix(s: Seq<u8>, from: int, n: int, i: int)
    requires
        find_term(s, from) == Some(i),
        i + 5 <= n <= s.len(),
        0 <= from,
    ensures
        find_term(s.subrange(0, n), from) == Some(i),
    decreases s.len() - from,
{
    lemma_find_term_some(s, from, i);
    let t = s.subrange(0, n);
    if crate::wire::term_at(s, from) {
        assert(t[from] == s[from]);
        assert(t[from + 1] == s[from + 1]);
        assert(t[from + 2] == s[from + 2]);
        assert(t[from + 3] == s[from + 3]);
        assert(t[from + 4] == s[from + 4]);
        assert(crate::wire::term_at(t, from));
    } else {
        assert(t[from] == s[from]);
        assert(t[from + 1] == s[from + 1]);
        assert(t[from + 2] == s[from + 2]);
        assert(t[from + 3] == s[from + 3]);
        assert(t[from + 4] == s[from + 4]);
        assert(!crate::wire::term_at(t, from));
        lemma_find_term_prefix(s, from + 1, n, i);
    }
}

} // verus!
