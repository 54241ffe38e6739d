//! Character-level helpers for the string-based entry points: whitespace
//! trimming, splitting, ASCII case mapping, and integer parsing, all
//! specified over `Seq<char>`.

use vstd::prelude::*;

verus! {

/// The whitespace characters these entry points trim.
pub open spec fn is_ws_char(c: char) -> bool {
    c == ' ' || c == '\t' || c == '\r' || c == '\n'
}

pub open spec fn is_digit_char(c: char) -> bool {
    '0' <= c && c <= '9'
}

pub open spec fn to_upper_char(c: char) -> char {
    match c {
        'a' => 'A',
        'b' => 'B',
        'c' => 'C',
        'd' => 'D',
        'e' => 'E',
        'f' => 'F',
        'g' => 'G',
        'h' => 'H',
        'i' => 'I',
        'j' => 'J',
        'k' => 'K',
        'l' => 'L',
        'm' => 'M',
        'n' => 'N',
        'o' => 'O',
        'p' => 'P',
        'q' => 'Q',
        'r' => 'R',
        's' => 'S',
        't' => 'T',
        'u' => 'U',
        'v' => 'V',
        'w' => 'W',
        'x' => 'X',
        'y' => 'Y',
        'z' => 'Z',
        _ => c,
    }
}

pub open spec fn to_lower_char(c: char) -> char {
    match c {
        'A' => 'a',
        'B' => 'b',
        'C' => 'c',
        'D' => 'd',
        'E' => 'e',
        'F' => 'f',
        'G' => 'g',
        'H' => 'h',
        'I' => 'i',
        'J' => 'j',
        'K' => 'k',
        'L' => 'l',
        'M' => 'm',
        'N' => 'n',
        'O' => 'o',
        'P' => 'p',
        'Q' => 'q',
        'R' => 'r',
        'S' => 's',
        'T' => 't',
        'U' => 'u',
        'V' => 'v',
        'W' => 'w',
        'X' => 'x',
        'Y' => 'y',
        'Z' => 'z',
        _ => c,
    }
}

/// ASCII upper-casing, as `str::to_ascii_uppercase` does it.
pub open spec fn spec_upper_chars(s: Seq<char>) -> Seq<char> {
    s.map_values(|c: char| to_upper_char(c))
}

/// ASCII lower-casing, as `str::to_ascii_lowercase` does it.
pub open spec fn spec_lower_chars(s: Seq<char>) -> Seq<char> {
    s.map_values(|c: char| to_lower_char(c))
}

/// The end of the whitespace run starting at `from`.
pub open spec fn scan_ws(s: Seq<char>, from: int) -> int
    decreases s.len() - from,
{
    if from < 0 || from >= s.len() {
        from
    } else if is_ws_char(s[from]) {
        scan_ws(s, from + 1)
    } else {
        from
    }
}

/// The start of the whitespace run ending at `to`, but never below `lo`.
pub open spec fn scan_ws_back(s: Seq<char>, lo: int, to: int) -> int
    decreases to,
{
    if to <= lo || to < 1 || to > s.len() {
        to
    } else if is_ws_char(s[to - 1]) {
        scan_ws_back(s, lo, to - 1)
    } else {
        to
    }
}

/// Both ends trimmed of whitespace.
pub open spec fn spec_trim(s: Seq<char>) -> Seq<char> {
    let a = scan_ws(s, 0);
    s.subrange(a, scan_ws_back(s, a, s.len() as int))
}

/// The first occurrence of `c` at or after `from`.
pub open spec fn find_char(s: Seq<char>, c: char, from: int) -> Option<int>
    decreases s.len() - from,
{
    if from < 0 || from >= s.len() {
        None
    } else if s[from] == c {
        Some(from)
    } else {
        find_char(s, c, from + 1)
    }
}

/// Where the `' '`-separated token starting at `from` ends.
pub open spec fn tok_end(s: Seq<char>, from: int) -> int {
    match find_char(s, ' ', from) {
        Some(i) => i,
        None => s.len() as int,
    }
}

/// All spaces removed, which is what joining the pieces of a split on `' '`
/// leaves.
pub open spec fn spec_strip_spaces(s: Seq<char>) -> Seq<char>
    decreases s.len(),
{
    if s.len() == 0 {
        Seq::empty()
    } else if s[0] == ' ' {
        spec_strip_spaces(s.skip(1))
    } else {
        seq![s[0]] + spec_strip_spaces(s.skip(1))
    }
}

/// The value of a run of decimal digit characters.
pub open spec fn dec_val_chars(s: Seq<char>) -> nat
    decreases s.len(),
{
    if s.len() == 0 {
        0
    } else {
        (dec_val_chars(s.drop_last()) * 10 + ((s.last() as u8) - 48)) as nat
    }
}

pub open spec fn all_digit_chars(s: Seq<char>) -> bool {
    forall|i: int| 0 <= i < s.len() ==> is_digit_char(#[trigger] s[i])
}

/// What `str::parse` accepts for an unsigned integer: an optional `+`,
/// then at least one digit; `None` also on overflow past `max`.
pub open spec fn parse_uint_chars(s: Seq<char>, max: nat) -> Option<nat> {
    let t = if s.len() > 0 && s[0] == '+' {
        s.skip(1)
    } else {
        s
    };
    if t.len() > 0 && all_digit_chars(t) && dec_val_chars(t) <= max {
        Some(dec_val_chars(t))
    } else {
        None
    }
}

proof fn lemma_dec_val_chars_step(s: Seq<char>, i: int)
    requires
        0 <= i < s.len(),
        is_digit_char(s[i]),
    ensures
        dec_val_chars(s.take(i + 1)) == dec_val_chars(s.take(i)) * 10 + ((s[i] as u8) - 48),
{
    assert(s.take(i + 1).drop_last() =~= s.take(i));
    assert(s.take(i + 1).last() == s[i]);
}

proof fn lemma_dec_val_chars_grows(s: Seq<char>, i: int)
    requires
        0 <= i <= s.len(),
        all_digit_chars(s),
    ensures
        dec_val_chars(s.take(i)) <= dec_val_chars(s),
    decreases s.len() - i,
{
    if i == s.len() {
        assert(s.take(i) =~= s);
    } else {
        lemma_dec_val_chars_step(s, i);
        lemma_dec_val_chars_grows(s, i + 1);
    }
}

/// The characters of a string, as an indexable vector.
pub fn chars_of(s: &str) -> (r: Vec<char>)
    ensures
        r@ == s@,
{
    let n = s.unicode_len();
    let mut r: Vec<char> = Vec::new();
    let mut i: usize = 0;
    while i < n
        invariant
            0 <= i <= n,
            n == s@.len(),
            r@ =~= s@.take(i as int),
        decreases n - i,
    {
        r.push(s.get_char(i));
        proof {
            assert(r@ =~= s@.take(i as int + 1));
        }
        i = i + 1;
    }
    proof {
        assert(s@.take(i as int) =~= s@);
    }
    r
}

pub fn is_ws(c: char) -> (r: bool)
    ensures
        r == is_ws_char(c),
{
    c == ' ' || c == '\t' || c == '\r' || c == '\n'
}

/// The end of the whitespace run at `from`, executable form.
pub fn scan_ws_at(s: &Vec<char>, from: usize) -> (r: usize)
    requires
        from <= s@.len(),
    ensures
        r == scan_ws(s@, from as int),
        from <= r <= s@.len(),
{
    let mut i = from;
    while i < s.len() && is_ws(s[i])
        invariant
            from <= i <= s@.len(),
            scan_ws(s@, from as int) == scan_ws(s@, i as int),
        decreases s@.len() - i,
    {
        i = i + 1;
    }
    i
}

/// The start of the whitespace run ending at `to`, executable form.
pub fn scan_ws_back_at(s: &Vec<char>, lo: usize, to: usize) -> (r: usize)
    requires
        lo <= to <= s@.len(),
    ensures
        r == scan_ws_back(s@, lo as int, to as int),
        lo <= r <= to,
{
    let mut i = to;
    while i > lo && is_ws(s[i - 1])
        invariant
            lo <= i <= to <= s@.len(),
            scan_ws_back(s@, lo as int, to as int) == scan_ws_back(s@, lo as int, i as int),
        decreases i,
    {
        i = i - 1;
    }
    i
}

/// The first occurrence of `c` in `s[from..]`, executable form.
pub fn find_char_at(s: &Vec<char>, c: char, from: usize) -> (r: Option<usize>)
    requires
        from <= s@.len(),
    ensures
        match r {
            Some(i) => find_char(s@, c, from as int) == Some(i as int) && from <= i < s@.len(),
            None => find_char(s@, c, from as int) is None,
        },
{
    let mut i = from;
    while i < s.len()
        invariant
            from <= i <= s@.len(),
            find_char(s@, c, from as int) == find_char(s@, c, i as int),
        decreases s@.len() - i,
    {
        if s[i] == c {
            proof {
                lemma_find_char_some(s@, c, from as int, i as int);
            }
            return Some(i);
        }
        i = i + 1;
    }
    None
}

proof fn lemma_find_char_some(s: Seq<char>, c: char, from: int, i: int)
    requires
        find_char(s, c, from) == Some(i),
    ensures
        from <= i < s.len(),
    decreases s.len() - from,
{
    if from < 0 || from >= s.len() {
    } else if s[from] == c {
    } else {
        lemma_find_char_some(s, c, from + 1, i);
    }
}

/// Searching `s` from `j` mirrors searching `s.skip(d)` from `j - d`.
pub proof fn lemma_find_char_offset(s: Seq<char>, c: char, d: int, j: int)
    requires
        0 <= d <= j <= s.len(),
    ensures
        match find_char(s.skip(d), c, j - d) {
            Some(i) => find_char(s, c, j) == Some(i + d),
            None => find_char(s, c, j) is None,
        },
    decreases s.len() - j,
{
    if j >= s.len() {
    } else {
        assert(s.skip(d)[j - d] == s[j]);
        if s[j] == c {
        } else {
            lemma_find_char_offset(s, c, d, j + 1);
        }
    }
}

/// Copies `s[a..b]` into an owned vector.
pub fn copy_chars_range(s: &Vec<char>, a: usize, b: usize) -> (r: Vec<char>)
    requires
        a <= b <= s@.len(),
    ensures
        r@ == s@.subrange(a as int, b as int),
{
    let mut r: Vec<char> = Vec::new();
    let mut i = a;
    while i < b
        invariant
            a <= i <= b <= s@.len(),
            r@ =~= s@.subrange(a as int, i as int),
        decreases b - i,
    {
        r.push(s[i]);
        proof {
            assert(r@ =~= s@.subrange(a as int, i as int + 1));
        }
        i = i + 1;
    }
    r
}

/// Whether `t[a..b]` equals `kw` exactly.
pub fn chars_eq_range(t: &Vec<char>, a: usize, b: usize, kw: &Vec<char>) -> (r: bool)
    requires
        a <= b <= t@.len(),
    ensures
        r == (t@.subrange(a as int, b as int) == kw@),
{
    if b - a != kw.len() {
        proof {
            assert(t@.subrange(a as int, b as int).len() != kw@.len());
        }
        return false;
    }
    let mut i: usize = 0;
    while i < kw.len()
        invariant
            0 <= i <= kw@.len(),
            b - a == kw@.len(),
            a <= b <= t@.len(),
            forall|j: int| 0 <= j < i ==> t@[a + j] == kw@[j],
        decreases kw@.len() - i,
    {
        if t[a + i] != kw[i] {
            proof {
                assert(t@.subrange(a as int, b as int)[i as int] == t@[a + i]);
            }
            return false;
        }
        i = i + 1;
    }
    proof {
        assert(t@.subrange(a as int, b as int) =~= kw@);
    }
    true
}

/// ASCII upper-casing of one character.
pub fn upper_char(c: char) -> (r: char)
    ensures
        r == to_upper_char(c),
{
    match c {
        'a' => 'A',
        'b' => 'B',
        'c' => 'C',
        'd' => 'D',
        'e' => 'E',
        'f' => 'F',
        'g' => 'G',
        'h' => 'H',
        'i' => 'I',
        'j' => 'J',
        'k' => 'K',
        'l' => 'L',
        'm' => 'M',
        'n' => 'N',
        'o' => 'O',
        'p' => 'P',
        'q' => 'Q',
        'r' => 'R',
        's' => 'S',
        't' => 'T',
        'u' => 'U',
        'v' => 'V',
        'w' => 'W',
        'x' => 'X',
        'y' => 'Y',
        'z' => 'Z',
        _ => c,
    }
}

/// ASCII lower-casing of one character.
pub fn lower_char(c: char) -> (r: char)
    ensures
        r == to_lower_char(c),
{
    match c {
        'A' => 'a',
        'B' => 'b',
        'C' => 'c',
        'D' => 'd',
        'E' => 'e',
        'F' => 'f',
        'G' => 'g',
        'H' => 'h',
        'I' => 'i',
        'J' => 'j',
        'K' => 'k',
        'L' => 'l',
        'M' => 'm',
        'N' => 'n',
        'O' => 'o',
        'P' => 'p',
        'Q' => 'q',
        'R' => 'r',
        'S' => 's',
        'T' => 't',
        'U' => 'u',
        'V' => 'v',
        'W' => 'w',
        'X' => 'x',
        'Y' => 'y',
        'Z' => 'z',
        _ => c,
    }
}

/// ASCII upper-casing of `t[a..b]`.
pub fn upper_range(t: &Vec<char>, a: usize, b: usize) -> (r: Vec<char>)
    requires
        a <= b <= t@.len(),
    ensures
        r@ == spec_upper_chars(t@.subrange(a as int, b as int)),
{
    let mut r: Vec<char> = Vec::new();
    let mut i = a;
    while i < b
        invariant
            a <= i <= b <= t@.len(),
            r@ =~= spec_upper_chars(t@.subrange(a as int, i as int)),
        decreases b - i,
    {
        r.push(upper_char(t[i]));
        proof {
            assert(r@ =~= spec_upper_chars(t@.subrange(a as int, i as int + 1)));
        }
        i = i + 1;
    }
    r
}

/// The end of the token starting at `from`, executable form.
pub fn tok_end_at(s: &Vec<char>, from: usize) -> (r: usize)
    requires
        from <= s@.len(),
    ensures
        r == tok_end(s@, from as int),
        from <= r <= s@.len(),
{
    match find_char_at(s, ' ', from) {
        Some(i) => {
            proof {
                lemma_find_char_some(s@, ' ', from as int, i as int);
            }
            i
        },
        None => s.len(),
    }
}

/// Parses an unsigned value from `s[a..b]`, exactly as `str::parse` would,
/// up to `max`.
pub fn parse_uint_range(s: &Vec<char>, a: usize, b: usize, max: u64) -> (r: Option<u64>)
    requires
        a <= b <= s@.len(),
    ensures
        match r {
            Some(v) => parse_uint_chars(s@.subrange(a as int, b as int), max as nat) == Some(
                v as nat,
            ) && v <= max,
            None => parse_uint_chars(s@.subrange(a as int, b as int), max as nat) is None,
        },
{
    let ghost sub = s@.subrange(a as int, b as int);
    let start = if a < b && s[a] == '+' {
        a + 1
    } else {
        a
    };
    let ghost t = s@.subrange(start as int, b as int);
    proof {
        assert(sub.len() == b - a);
        if a < b {
            assert(sub[0] == s@[a as int]);
        }
        if a < b && s@[a as int] == '+' {
            assert(sub.skip(1) =~= s@.subrange(a as int + 1, b as int));
        } else {
            assert(t =~= sub);
        }
        assert(t == (if sub.len() > 0 && sub[0] == '+' {
            sub.skip(1)
        } else {
            sub
        }));
    }
    if start == b {
        return None;
    }
    let mut acc: u64 = 0;
    let mut i = start;
    while i < b
        invariant
            start <= i <= b <= s@.len(),
            start < b,
            a <= start,
            sub == s@.subrange(a as int, b as int),
            t == (if sub.len() > 0 && sub[0] == '+' {
                sub.skip(1)
            } else {
                sub
            }),
            t == s@.subrange(start as int, b as int),
            forall|j: int| 0 <= j < i - start ==> is_digit_char(#[trigger] t[j]),
            acc == dec_val_chars(t.take(i - start)),
            acc <= max,
            max <= u64::MAX,
        decreases b - i,
    {
        let c = s[i];
        if !('0' <= c && c <= '9') {
            proof {
                assert(t[i - start] == s@[i as int]);
                assert(!all_digit_chars(t));
            }
            return None;
        }
        proof {
            assert(t[i - start] == s@[i as int]);
            lemma_dec_val_chars_step(t, i - start);
        }
        let d = (c as u32) as u64 - 48;
        let acc10 = match acc.checked_mul(10) {
            Some(v) => v,
            None => {
                proof {
                    if all_digit_chars(t) {
                        lemma_dec_val_chars_grows(t, i - start + 1);
                    }
                }
                return None;
            },
        };
        let acc2 = match acc10.checked_add(d) {
            Some(v) => v,
            None => {
                proof {
                    if all_digit_chars(t) {
                        lemma_dec_val_chars_grows(t, i - start + 1);
                    }
                }
                return None;
            },
        };
        if acc2 > max {
            proof {
                if all_digit_chars(t) {
                    lemma_dec_val_chars_grows(t, i - start + 1);
                }
            }
            return None;
        }
        acc = acc2;
        i = i + 1;
    }
    proof {
        assert(t.take(i - start) =~= t);
    }
    Some(acc)
}

} // verus!
