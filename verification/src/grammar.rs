//! The response grammar, stated over byte sequences: how many bytes one
//! complete response occupies (framing), and what that complete response
//! means (interpretation).  The executable parser is proved against
//! `spec_parse`, which combines the two.

use vstd::prelude::*;

use crate::capability::{spec_cap_line, CapModel};
use crate::command::Command;
use crate::list::ListItemModel;
use crate::response::{RespModel, UidlRespModel};
use crate::stat::StatModel;
use crate::uidl::{UidlModel, UniqueIdModel};
use crate::wire::{
    all_spaces, find_crlf, find_term, lemma_find_crlf_some, lemma_find_crlf_extend,
    lemma_find_term_some, lemma_find_term_extend, scan_alnum, scan_digits, scan_printable,
    scan_spaces, CR, DOT, LF, SP,
};

verus! {

/// `"+OK"` as bytes.
pub open spec fn ok_prefix() -> Seq<u8> {
    seq![43u8, 79u8, 75u8]
}

/// `"-ERR"` as bytes.
pub open spec fn err_prefix() -> Seq<u8> {
    seq![45u8, 69u8, 82u8, 82u8]
}

pub open spec fn starts_with(s: Seq<u8>, p: Seq<u8>) -> bool {
    p.len() <= s.len() && s.subrange(0, p.len() as int) == p
}

/// A SASL continuation line: `+` followed by at least one space.
pub open spec fn is_cont_line(line: Seq<u8>) -> bool {
    line.len() >= 2 && line[0] == 43 && line[1] == SP
}

/// The bytes of `line` from position `p` on, with the spaces at `p` skipped.
pub open spec fn line_after(line: Seq<u8>, p: int) -> Seq<u8> {
    line.subrange(scan_spaces(line, p), line.len() as int)
}

/// A drop listing line: `count SP+ size` with anything after the size run.
pub open spec fn spec_stat_line(rest: Seq<u8>) -> Option<StatModel> {
    let i = scan_digits(rest, 0);
    if i <= 0 {
        None
    } else {
        let j = scan_spaces(rest, i);
        if j <= i {
            None
        } else {
            let k = scan_digits(rest, j);
            if k <= j {
                None
            } else {
                Some(StatModel { count: rest.subrange(0, i), size: rest.subrange(j, k) })
            }
        }
    }
}

/// The status line of a multi-line `LIST`: `count SP+ word SP+ ( size SP+
/// word )`, then only spaces.
pub open spec fn spec_list_stats(rest: Seq<u8>) -> Option<StatModel> {
    let i = scan_digits(rest, 0);
    if i <= 0 {
        None
    } else {
        let j = scan_spaces(rest, i);
        if j <= i {
            None
        } else {
            let a = scan_alnum(rest, j);
            let b = scan_spaces(rest, a);
            if b <= a {
                None
            } else if b >= rest.len() || rest[b] != 40 {
                None
            } else {
                let c = scan_digits(rest, b + 1);
                if c <= b + 1 {
                    None
                } else {
                    let d = scan_spaces(rest, c);
                    if d <= c {
                        None
                    } else {
                        let e = scan_alnum(rest, d);
                        if e >= rest.len() || rest[e] != 41 {
                            None
                        } else if all_spaces(rest.subrange(e + 1, rest.len() as int)) {
                            Some(
                                StatModel {
                                    count: rest.subrange(0, i),
                                    size: rest.subrange(b + 1, c),
                                },
                            )
                        } else {
                            None
                        }
                    }
                }
            }
        }
    }
}

/// A unique-id listing line: `index SP+ token`, the token 1..70 printable
/// bytes, then only spaces.
pub open spec fn spec_uidl_line(rest: Seq<u8>) -> Option<UniqueIdModel> {
    let i = scan_digits(rest, 0);
    if i <= 0 {
        None
    } else {
        let j = scan_spaces(rest, i);
        if j <= i {
            None
        } else {
            let p = scan_printable(rest, j);
            if p <= j || p - j > 70 {
                None
            } else if all_spaces(rest.subrange(p, rest.len() as int)) {
                Some(UniqueIdModel { index: rest.subrange(0, i), id: rest.subrange(j, p) })
            } else {
                None
            }
        }
    }
}

/// The items of a multi-line `LIST` body: CRLF-terminated lines, each a
/// drop listing line after one leading `.` (if present) is stripped.
pub open spec fn spec_list_items(body: Seq<u8>) -> Option<Seq<ListItemModel>>
    decreases body.len(),
{
    if body.len() == 0 {
        Some(Seq::empty())
    } else {
        match find_crlf(body, 0) {
            None => None,
            Some(e) => {
                if e < 0 || e + 2 > body.len() {
                    None
                } else {
                    let line = body.subrange(0, e);
                    let line2 = if line.len() > 0 && line[0] == DOT {
                        line.skip(1)
                    } else {
                        line
                    };
                    match spec_stat_line(line2) {
                        None => None,
                        Some(item) => match spec_list_items(body.skip(e + 2)) {
                            None => None,
                            Some(r) => Some(
                                seq![ListItemModel { index: item.count, size: item.size }] + r,
                            ),
                        },
                    }
                }
            },
        }
    }
}

/// The items of a multi-line `UIDL` body, with the same `.` stripping.
pub open spec fn spec_uidl_items(body: Seq<u8>) -> Option<Seq<UniqueIdModel>>
    decreases body.len(),
{
    if body.len() == 0 {
        Some(Seq::empty())
    } else {
        match find_crlf(body, 0) {
            None => None,
            Some(e) => {
                if e < 0 || e + 2 > body.len() {
                    None
                } else {
                    let line = body.subrange(0, e);
                    let line2 = if line.len() > 0 && line[0] == DOT {
                        line.skip(1)
                    } else {
                        line
                    };
                    match spec_uidl_line(line2) {
                        None => None,
                        Some(item) => match spec_uidl_items(body.skip(e + 2)) {
                            None => None,
                            Some(r) => Some(seq![item] + r),
                        },
                    }
                }
            },
        }
    }
}

/// The lines of a `CAPA` body, each one capability.
pub open spec fn spec_capa_items(body: Seq<u8>) -> Option<Seq<CapModel>>
    decreases body.len(),
{
    if body.len() == 0 {
        Some(Seq::empty())
    } else {
        match find_crlf(body, 0) {
            None => None,
            Some(e) => {
                if e < 0 || e + 2 > body.len() {
                    None
                } else {
                    match spec_cap_line(body.subrange(0, e)) {
                        None => None,
                        Some(c) => match spec_capa_items(body.skip(e + 2)) {
                            None => None,
                            Some(r) => Some(seq![c] + r),
                        },
                    }
                }
            },
        }
    }
}

/// Dot-unstuffing: one leading `.` is stripped from every CRLF-separated
/// line.
pub open spec fn spec_unstuff(b: Seq<u8>) -> Seq<u8>
    decreases b.len(),
{
    let b2 = if b.len() > 0 && b[0] == DOT {
        b.skip(1)
    } else {
        b
    };
    match find_crlf(b2, 0) {
        None => b2,
        Some(e) => {
            if e < 0 || e + 2 > b2.len() {
                b2
            } else {
                b2.subrange(0, e + 2) + spec_unstuff(b2.skip(e + 2))
            }
        },
    }
}

/// Whether a successful response to `cmd` continues past the status line,
/// given the status line's remainder `rest`.
pub open spec fn spec_multiline_cmd(cmd: Command, rest: Seq<u8>) -> bool {
    match cmd {
        Command::Capa => true,
        Command::Retr => true,
        Command::Top => true,
        Command::List => spec_stat_line(rest) is None,
        Command::Uidl => spec_uidl_line(rest) is None,
        _ => false,
    }
}

/// How much of the buffer one response occupies.
pub enum FrameResult {
    Frame(int),
    FrameMore,
    FrameBad,
}

/// Framing: decided by the first complete line, and, for multi-line
/// shapes, by the first `CRLF . CRLF` after it.  Until the deciding bytes
/// have arrived the answer is `FrameMore`.
pub open spec fn spec_frame(s: Seq<u8>, cmd: Command) -> FrameResult {
    match find_crlf(s, 0) {
        None => FrameResult::FrameMore,
        Some(e) => {
            let line = s.subrange(0, e);
            if starts_with(line, err_prefix()) {
                FrameResult::Frame(e + 2)
            } else if cmd is Base64 {
                if is_cont_line(line) || starts_with(line, ok_prefix()) {
                    FrameResult::Frame(e + 2)
                } else {
                    FrameResult::FrameBad
                }
            } else if !starts_with(line, ok_prefix()) {
                FrameResult::FrameBad
            } else if spec_multiline_cmd(cmd, line_after(line, 3)) {
                match find_term(s, e) {
                    None => FrameResult::FrameMore,
                    Some(i) => FrameResult::Frame(i + 5),
                }
            } else {
                FrameResult::Frame(e + 2)
            }
        },
    }
}

/// Interpretation of one complete frame `t`.  `None` is a malformed
/// response.
pub open spec fn spec_interp(t: Seq<u8>, cmd: Command) -> Option<RespModel> {
    match find_crlf(t, 0) {
        None => None,
        Some(e) => {
            let line = t.subrange(0, e);
            if starts_with(line, err_prefix()) {
                Some(RespModel::ServerErr(line_after(line, 4)))
            } else if cmd is Base64 {
                if is_cont_line(line) {
                    Some(RespModel::Challenge(line_after(line, 1)))
                } else {
                    Some(RespModel::Message(line_after(line, 3)))
                }
            } else {
                let rest = line_after(line, 3);
                match cmd {
                    Command::Stat => match spec_stat_line(rest) {
                        Some(m) => Some(RespModel::Stat(m)),
                        None => None,
                    },
                    Command::List => match spec_stat_line(rest) {
                        Some(m) => Some(RespModel::Stat(m)),
                        None => {
                            let body = t.subrange(e + 2, t.len() - 3);
                            match spec_list_items(body) {
                                Some(items) => Some(
                                    RespModel::List(
                                        crate::list::ListModel {
                                            stats: spec_list_stats(rest),
                                            items,
                                        },
                                    ),
                                ),
                                None => None,
                            }
                        },
                    },
                    Command::Uidl => match spec_uidl_line(rest) {
                        Some(u) => Some(RespModel::Uidl(UidlRespModel::Single(u))),
                        None => {
                            let body = t.subrange(e + 2, t.len() - 3);
                            match spec_uidl_items(body) {
                                Some(items) => Some(
                                    RespModel::Uidl(
                                        UidlRespModel::Multiple(
                                            UidlModel { message: Some(rest), items },
                                        ),
                                    ),
                                ),
                                None => None,
                            }
                        },
                    },
                    Command::Retr | Command::Top => {
                        let body = if t.len() - 5 <= e + 2 {
                            Seq::empty()
                        } else {
                            t.subrange(e + 2, t.len() - 5)
                        };
                        Some(RespModel::Bytes(spec_unstuff(body)))
                    },
                    Command::Capa => {
                        let body = t.subrange(e + 2, t.len() - 3);
                        match spec_capa_items(body) {
                            Some(caps) => Some(RespModel::Capability(caps)),
                            None => None,
                        }
                    },
                    _ => Some(RespModel::Message(rest)),
                }
            }
        },
    }
}

/// What the parser yields on a given buffer for a given command.
pub enum SpecParsed {
    Done { used: int, resp: RespModel },
    More,
    Bad,
}

/// The parser, as a mathematical function of the buffered bytes and the
/// command awaiting its response.
pub open spec fn spec_parse(s: Seq<u8>, cmd: Command) -> SpecParsed {
    match spec_frame(s, cmd) {
        FrameResult::FrameMore => SpecParsed::More,
        FrameResult::FrameBad => SpecParsed::Bad,
        FrameResult::Frame(n) => match spec_interp(s.subrange(0, n), cmd) {
            Some(m) => SpecParsed::Done { used: n, resp: m },
            None => SpecParsed::Bad,
        },
    }
}

/// A complete or failed framing never changes when more bytes arrive.
pub proof fn lemma_frame_extension(s1: Seq<u8>, s2: Seq<u8>, cmd: Command)
    requires
        s1.is_prefix_of(s2),
    ensures
        spec_frame(s1, cmd) matches FrameResult::Frame(n) ==> spec_frame(s2, cmd)
            == spec_frame(s1, cmd) && 0 <= n <= s1.len(),
        spec_frame(s1, cmd) is FrameBad ==> spec_frame(s2, cmd) is FrameBad,
{
    match find_crlf(s1, 0) {
        None => {},
        Some(e) => {
            lemma_find_crlf_some(s1, 0, e);
            lemma_find_crlf_extend(s1, s2, 0, e);
            assert(s2.subrange(0, e) =~= s1.subrange(0, e));
            let line = s1.subrange(0, e);
            if !starts_with(line, err_prefix()) && !(cmd is Base64) && starts_with(
                line,
                ok_prefix(),
            ) && spec_multiline_cmd(cmd, line_after(line, 3)) {
                match find_term(s1, e) {
                    None => {},
                    Some(i) => {
                        lemma_find_term_some(s1, e, i);
                        lemma_find_term_extend(s1, s2, e, i);
                    },
                }
            }
        },
    }
}

/// A complete parse never consumes more than the buffer holds.
pub proof fn lemma_frame_used_bound(s: Seq<u8>, cmd: Command)
    ensures
        spec_parse(s, cmd) matches SpecParsed::Done { used, resp } ==> 0 <= used <= s.len(),
{
    assert(s.is_prefix_of(s)) by {
        assert(s.subrange(0, s.len() as int) =~= s);
    }
    lemma_frame_extension(s, s, cmd);
}

/// P5, stated over the parser's mathematical form: a parse, once complete,
/// is unchanged by further bytes, and a failed parse stays failed.
pub proof fn lemma_parse_extension(s1: Seq<u8>, s2: Seq<u8>, cmd: Command)
    requires
        s1.is_prefix_of(s2),
    ensures
        spec_parse(s1, cmd) matches SpecParsed::Done { used, resp } ==> spec_parse(s2, cmd)
            == spec_parse(s1, cmd),
        spec_parse(s1, cmd) is Bad ==> spec_parse(s2, cmd) is Bad,
{
    lemma_frame_extension(s1, s2, cmd);
    match spec_frame(s1, cmd) {
        FrameResult::Frame(n) => {
            assert(s2.subrange(0, n) =~= s1.subrange(0, n));
        },
        _ => {},
    }
}

/// P5, read the other way: while a response that will parse completely is
/// still arriving, every prefix of it either already gives the same parse
/// or only asks for more bytes — never a different result, never a failure.
/// Feeding a response byte by byte therefore ends in the same parse as
/// feeding it whole.
pub proof fn lemma_parse_incremental(s: Seq<u8>, p: Seq<u8>, cmd: Command)
    requires
        p.is_prefix_of(s),
        spec_parse(s, cmd) is Done,
    ensures
        spec_parse(p, cmd) is More || spec_parse(p, cmd) == spec_parse(s, cmd),
{
    lemma_parse_extension(p, s, cmd);
}

/// The response shapes a command may observe: its own success shapes, or a
/// server error.
pub open spec fn resp_matches_command(m: RespModel, cmd: Command) -> bool {
    match cmd {
        Command::Stat => m is Stat || m is ServerErr,
        Command::List => m is Stat || m is List || m is ServerErr,
        Command::Uidl => m is Uidl || m is ServerErr,
        Command::Retr => m is Bytes || m is ServerErr,
        Command::Top => m is Bytes || m is ServerErr,
        Command::Capa => m is Capability || m is ServerErr,
        Command::Base64(_) => m is Challenge || m is Message || m is ServerErr,
        _ => m is Message || m is ServerErr,
    }
}

/// P6, at the parser: a completed parse only ever yields a response shape
/// that belongs to the command the parse was directed by, so an operation
/// can never observe a response meant for another command.
pub proof fn lemma_parse_matches_command(s: Seq<u8>, cmd: Command)
    requires
        spec_parse(s, cmd) is Done,
    ensures
        resp_matches_command(spec_parse(s, cmd)->Done_resp, cmd),
{
}

} // verus!
