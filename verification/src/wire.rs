//! Wire-level framing primitives: line terminators, byte classes, and the
//! scanning functions the response grammar is defined with.

use vstd::prelude::*;

verus! {

pub const CR: u8 = 13;
pub const LF: u8 = 10;
pub const DOT: u8 = 46;
pub const SP: u8 = 32;

pub open spec fn is_digit_byte(b: u8) -> bool {
    48 <= b <= 57
}

pub open spec fn is_space_byte(b: u8) -> bool {
    b == SP
}

/// Printable ASCII as allowed in a unique-id token (RFC 1939: 0x21..0x7E).
pub open spec fn is_printable_byte(b: u8) -> bool {
    33 <= b <= 126
}

pub open spec fn is_alnum_byte(b: u8) -> bool {
    is_digit_byte(b) || (65 <= b <= 90) || (97 <= b <= 122)
}

/// ASCII upper-casing of one byte.
pub open spec fn upper_byte(b: u8) -> u8 {
    if 97 <= b <= 122 {
        (b - 32) as u8
    } else {
        b
    }
}

/// Case-insensitive (ASCII) equality of two byte sequences.
pub open spec fn eqi(a: Seq<u8>, b: Seq<u8>) -> bool {
    a.len() == b.len() && forall|i: int| 0 <= i < a.len() ==> upper_byte(a[i]) == upper_byte(b[i])
}

pub open spec fn all_spaces(s: Seq<u8>) -> bool {
    forall|i: int| 0 <= i < s.len() ==> is_space_byte(s[i])
}

/// Whether a CRLF pair sits at position `i`.
pub open spec fn crlf_at(s: Seq<u8>, i: int) -> bool {
    0 <= i && i + 2 <= s.len() && s[i] == CR && s[i + 1] == LF
}

/// The position of the first CRLF pair at or after `from`, if any.
pub open spec fn find_crlf(s: Seq<u8>, from: int) -> Option<int>
    decreases s.len() - from,
{
    if from + 2 > s.len() || from < 0 {
        None
    } else if s[from] == CR && s[from + 1] == LF {
        Some(from)
    } else {
        find_crlf(s, from + 1)
    }
}

/// Whether the multi-line terminator `CRLF . CRLF` sits at position `i`.
pub open spec fn term_at(s: Seq<u8>, i: int) -> bool {
    0 <= i && i + 5 <= s.len() && s[i] == CR && s[i + 1] == LF && s[i + 2] == DOT && s[i + 3] == CR
        && s[i + 4] == LF
}

/// The position of the first `CRLF . CRLF` at or after `from`, if any.
pub open spec fn find_term(s: Seq<u8>, from: int) -> Option<int>
    decreases s.len() - from,
{
    if from + 5 > s.len() || from < 0 {
        None
    } else if term_at(s, from) {
        Some(from)
    } else {
        find_term(s, from + 1)
    }
}

/// The end of the run of decimal digits starting at `from`.
pub open spec fn scan_digits(s: Seq<u8>, from: int) -> int
    decreases s.len() - from,
{
    if from < 0 || from >= s.len() {
        from
    } else if is_digit_byte(s[from]) {
        scan_digits(s, from + 1)
    } else {
        from
    }
}

/// The end of the run of spaces starting at `from`.
pub open spec fn scan_spaces(s: Seq<u8>, from: int) -> int
    decreases s.len() - from,
{
    if from < 0 || from >= s.len() {
        from
    } else if is_space_byte(s[from]) {
        scan_spaces(s, from + 1)
    } else {
        from
    }
}

/// The end of the run of ASCII alphanumerics starting at `from`.
pub open spec fn scan_alnum(s: Seq<u8>, from: int) -> int
    decreases s.len() - from,
{
    if from < 0 || from >= s.len() {
        from
    } else if is_alnum_byte(s[from]) {
        scan_alnum(s, from + 1)
    } else {
        from
    }
}

/// The end of the run of printable bytes starting at `from`.
pub open spec fn scan_printable(s: Seq<u8>, from: int) -> int
    decreases s.len() - from,
{
    if from < 0 || from >= s.len() {
        from
    } else if is_printable_byte(s[from]) {
        scan_printable(s, from + 1)
    } else {
        from
    }
}

/// The end of the run of non-space bytes starting at `from`.
pub open spec fn scan_token(s: Seq<u8>, from: int) -> int
    decreases s.len() - from,
{
    if from < 0 || from >= s.len() {
        from
    } else if !is_space_byte(s[from]) {
        scan_token(s, from + 1)
    } else {
        from
    }
}

pub proof fn lemma_find_crlf_some(s: Seq<u8>, from: int, i: int)
    requires
        find_crlf(s, from) == Some(i),
    ensures
        from <= i,
        crlf_at(s, i),
        forall|j: int| from <= j < i ==> !crlf_at(s, j),
    decreases s.len() - from,
{
    if from + 2 > s.len() || from < 0 {
    } else if s[from] == CR && s[from + 1] == LF {
    } else {
        lemma_find_crlf_some(s, from + 1, i);
        assert(!crlf_at(s, from));
    }
}

/// Extending the input does not move an already found CRLF.
pub proof fn lemma_find_crlf_extend(s1: Seq<u8>, s2: Seq<u8>, from: int, i: int)
    requires
        s1.is_prefix_of(s2),
        find_crlf(s1, from) == Some(i),
    ensures
        find_crlf(s2, from) == Some(i),
    decreases s1.len() - from,
{
    if from + 2 > s1.len() || from < 0 {
    } else if s1[from] == CR && s1[from + 1] == LF {
        assert(s2[from] == CR && s2[from + 1] == LF);
    } else {
        assert(s2[from] == s1[from] && s2[from + 1] == s1[from + 1]);
        lemma_find_crlf_extend(s1, s2, from + 1, i);
    }
}

pub proof fn lemma_find_term_some(s: Seq<u8>, from: int, i: int)
    requires
        find_term(s, from) == Some(i),
    ensures
        from <= i,
        term_at(s, i),
        forall|j: int| from <= j < i ==> !term_at(s, j),
    decreases s.len() - from,
{
    if from + 5 > s.len() || from < 0 {
    } else if term_at(s, from) {
    } else {
        lemma_find_term_some(s, from + 1, i);
        assert forall|j: int| from <= j < i implies !term_at(s, j) by {
            if j > from {
                lemma_find_term_some(s, from + 1, i);
            }
        }
    }
}

/// Extending the input does not move an already found terminator.
pub proof fn lemma_find_term_extend(s1: Seq<u8>, s2: Seq<u8>, from: int, i: int)
    requires
        s1.is_prefix_of(s2),
        find_term(s1, from) == Some(i),
    ensures
        find_term(s2, from) == Some(i),
    decreases s1.len() - from,
{
    if from + 5 > s1.len() || from < 0 {
    } else if term_at(s1, from) {
        assert(term_at(s2, from));
    } else {
        assert(s2[from] == s1[from] && s2[from + 1] == s1[from + 1] && s2[from + 2] == s1[from + 2]
            && s2[from + 3] == s1[from + 3] && s2[from + 4] == s1[from + 4]);
        assert(!term_at(s2, from));
        lemma_find_term_extend(s1, s2, from + 1, i);
    }
}

/// Searching `s` from `j` mirrors searching `s.skip(d)` from `j - d`.
pub proof fn lemma_find_crlf_offset(s: Seq<u8>, d: int, j: int)
    requires
        0 <= d <= j <= s.len(),
    ensures
        match find_crlf(s.skip(d), j - d) {
            Some(i) => find_crlf(s, j) == Some(i + d),
            None => find_crlf(s, j) is None,
        },
    decreases s.len() - j,
{
    if j + 2 > s.len() {
    } else {
        assert(s.skip(d)[j - d] == s[j]);
        assert(s.skip(d)[j - d + 1] == s[j + 1]);
        if s[j] == CR && s[j + 1] == LF {
        } else {
            lemma_find_crlf_offset(s, d, j + 1);
        }
    }
}

pub proof fn lemma_scan_digits_bounds(s: Seq<u8>, from: int)
    requires
        0 <= from <= s.len(),
    ensures
        from <= scan_digits(s, from) <= s.len(),
        forall|j: int| from <= j < scan_digits(s, from) ==> is_digit_byte(s[j]),
        scan_digits(s, from) < s.len() ==> !is_digit_byte(s[scan_digits(s, from)]),
    decreases s.len() - from,
{
    if from < s.len() && is_digit_byte(s[from]) {
        lemma_scan_digits_bounds(s, from + 1);
    }
}

pub proof fn lemma_scan_spaces_bounds(s: Seq<u8>, from: int)
    requires
        0 <= from <= s.len(),
    ensures
        from <= scan_spaces(s, from) <= s.len(),
        forall|j: int| from <= j < scan_spaces(s, from) ==> is_space_byte(s[j]),
        scan_spaces(s, from) < s.len() ==> !is_space_byte(s[scan_spaces(s, from)]),
    decreases s.len() - from,
{
    if from < s.len() && is_space_byte(s[from]) {
        lemma_scan_spaces_bounds(s, from + 1);
    }
}

pub proof fn lemma_scan_printable_bounds(s: Seq<u8>, from: int)
    requires
        0 <= from <= s.len(),
    ensures
        from <= scan_printable(s, from) <= s.len(),
        forall|j: int| from <= j < scan_printable(s, from) ==> is_printable_byte(s[j]),
        scan_printable(s, from) < s.len() ==> !is_printable_byte(s[scan_printable(s, from)]),
    decreases s.len() - from,
{
    if from < s.len() && is_printable_byte(s[from]) {
        lemma_scan_printable_bounds(s, from + 1);
    }
}

// ---------------------------------------------------------------------------
// Executable counterparts.
// ---------------------------------------------------------------------------

pub fn find_crlf_at(s: &[u8], from: usize) -> (r: Option<usize>)
    requires
        from <= s@.len(),
    ensures
        match r {
            Some(i) => find_crlf(s@, from as int) == Some(i as int),
            None => find_crlf(s@, from as int) is None,
        },
{
    let mut i = from;
    while s.len() >= 2 && i <= s.len() - 2
        invariant
            from <= i <= s@.len(),
            find_crlf(s@, from as int) == find_crlf(s@, i as int),
        decreases s@.len() - i,
    {
        if s[i] == CR && s[i + 1] == LF {
            return Some(i);
        }
        i = i + 1;
    }
    None
}

pub fn find_term_at(s: &[u8], from: usize) -> (r: Option<usize>)
    requires
        from <= s@.len(),
    ensures
        match r {
            Some(i) => find_term(s@, from as int) == Some(i as int),
            None => find_term(s@, from as int) is None,
        },
{
    let mut i = from;
    while s.len() >= 5 && i <= s.len() - 5
        invariant
            from <= i <= s@.len(),
            find_term(s@, from as int) == find_term(s@, i as int),
        decreases s@.len() - i,
    {
        if s[i] == CR && s[i + 1] == LF && s[i + 2] == DOT && s[i + 3] == CR && s[i + 4] == LF {
            return Some(i);
        }
        i = i + 1;
    }
    None
}

pub fn scan_digits_at(s: &[u8], from: usize) -> (r: usize)
    requires
        from <= s@.len(),
    ensures
        r == scan_digits(s@, from as int),
        from <= r <= s@.len(),
{
    let mut i = from;
    while i < s.len() && 48 <= s[i] && s[i] <= 57
        invariant
            from <= i <= s@.len(),
            scan_digits(s@, from as int) == scan_digits(s@, i as int),
        decreases s@.len() - i,
    {
        i = i + 1;
    }
    i
}

pub fn scan_spaces_at(s: &[u8], from: usize) -> (r: usize)
    requires
        from <= s@.len(),
    ensures
        r == scan_spaces(s@, from as int),
        from <= r <= s@.len(),
{
    let mut i = from;
    while i < s.len() && s[i] == SP
        invariant
            from <= i <= s@.len(),
            scan_spaces(s@, from as int) == scan_spaces(s@, i as int),
        decreases s@.len() - i,
    {
        i = i + 1;
    }
    i
}

pub fn scan_alnum_at(s: &[u8], from: usize) -> (r: usize)
    requires
        from <= s@.len(),
    ensures
        r == scan_alnum(s@, from as int),
        from <= r <= s@.len(),
{
    let mut i = from;
    while i < s.len() && (48 <= s[i] && s[i] <= 57 || 65 <= s[i] && s[i] <= 90 || 97 <= s[i]
        && s[i] <= 122)
        invariant
            from <= i <= s@.len(),
            scan_alnum(s@, from as int) == scan_alnum(s@, i as int),
        decreases s@.len() - i,
    {
        i = i + 1;
    }
    i
}

pub fn scan_printable_at(s: &[u8], from: usize) -> (r: usize)
    requires
        from <= s@.len(),
    ensures
        r == scan_printable(s@, from as int),
        from <= r <= s@.len(),
{
    let mut i = from;
    while i < s.len() && 33 <= s[i] && s[i] <= 126
        invariant
            from <= i <= s@.len(),
            scan_printable(s@, from as int) == scan_printable(s@, i as int),
        decreases s@.len() - i,
    {
        i = i + 1;
    }
    i
}

pub fn scan_token_at(s: &[u8], from: usize) -> (r: usize)
    requires
        from <= s@.len(),
    ensures
        r == scan_token(s@, from as int),
        from <= r <= s@.len(),
{
    let mut i = from;
    while i < s.len() && s[i] != SP
        invariant
            from <= i <= s@.len(),
            scan_token(s@, from as int) == scan_token(s@, i as int),
        decreases s@.len() - i,
    {
        i = i + 1;
    }
    i
}

pub fn upper_byte_of(b: u8) -> (r: u8)
    ensures
        r == upper_byte(b),
{
    if 97 <= b && b <= 122 {
        b - 32
    } else {
        b
    }
}

pub fn eqi_bytes(a: &[u8], b: &[u8]) -> (r: bool)
    ensures
        r == eqi(a@, b@),
{
    if a.len() != b.len() {
        return false;
    }
    let mut i: usize = 0;
    while i < a.len()
        invariant
            0 <= i <= a@.len(),
            a@.len() == b@.len(),
            forall|j: int| 0 <= j < i ==> upper_byte(a@[j]) == upper_byte(b@[j]),
        decreases a@.len() - i,
    {
        if upper_byte_of(a[i]) != upper_byte_of(b[i]) {
            return false;
        }
        i = i + 1;
    }
    true
}

pub fn bytes_eq(a: &[u8], b: &[u8]) -> (r: bool)
    ensures
        r == (a@ == b@),
{
    if a.len() != b.len() {
        return false;
    }
    let mut i: usize = 0;
    while i < a.len()
        invariant
            0 <= i <= a@.len(),
            a@.len() == b@.len(),
            forall|j: int| 0 <= j < i ==> a@[j] == b@[j],
        decreases a@.len() - i,
    {
        if a[i] != b[i] {
            return false;
        }
        i = i + 1;
    }
    proof {
        assert(a@ =~= b@);
    }
    true
}

/// Copies a slice into an owned vector.
pub fn copy_bytes(s: &[u8]) -> (r: Vec<u8>)
    ensures
        r@ == s@,
{
    let mut v: Vec<u8> = Vec::new();
    let mut i: usize = 0;
    while i < s.len()
        invariant
            0 <= i <= s@.len(),
            v@ =~= s@.take(i as int),
        decreases s@.len() - i,
    {
        v.push(s[i]);
        proof {
            assert(v@ =~= s@.take(i as int + 1));
        }
        i = i + 1;
    }
    proof {
        assert(s@.take(i as int) =~= s@);
    }
    v
}

pub fn all_spaces_in(s: &[u8], from: usize, to: usize) -> (r: bool)
    requires
        from <= to <= s@.len(),
    ensures
        r == all_spaces(s@.subrange(from as int, to as int)),
{
    let mut i = from;
    while i < to
        invariant
            from <= i <= to <= s@.len(),
            forall|j: int| from <= j < i ==> is_space_byte(s@[j]),
        decreases to - i,
    {
        if s[i] != SP {
            proof {
                assert(!is_space_byte(s@.subrange(from as int, to as int)[i - from]));
            }
            return false;
        }
        i = i + 1;
    }
    proof {
        assert forall|j: int| 0 <= j < to - from implies is_space_byte(
            s@.subrange(from as int, to as int)[j],
        ) by {
            assert(s@.subrange(from as int, to as int)[j] == s@[from + j]);
        }
    }
    true
}

/// Pins `scan_digits` when the digit run and its boundary are known.
pub proof fn lemma_scan_digits_value(s: Seq<u8>, from: int, k: int)
    requires
        0 <= from <= k <= s.len(),
        forall|i: int| from <= i < k ==> is_digit_byte(#[trigger] s[i]),
        k == s.len() || !is_digit_byte(s[k]),
    ensures
        scan_digits(s, from) == k,
    decreases k - from,
{
    if from < k {
        lemma_scan_digits_value(s, from + 1, k);
    }
}

/// Pins `scan_spaces` when the space run and its boundary are known.
pub proof fn lemma_scan_spaces_value(s: Seq<u8>, from: int, k: int)
    requires
        0 <= from <= k <= s.len(),
        forall|i: int| from <= i < k ==> is_space_byte(#[trigger] s[i]),
        k == s.len() || !is_space_byte(s[k]),
    ensures
        scan_spaces(s, from) == k,
    decreases k - from,
{
    if from < k {
        lemma_scan_spaces_value(s, from + 1, k);
    }
}

/// Pins `scan_printable` when the printable run and its boundary are known.
pub proof fn lemma_scan_printable_value(s: Seq<u8>, from: int, k: int)
    requires
        0 <= from <= k <= s.len(),
        forall|i: int| from <= i < k ==> is_printable_byte(#[trigger] s[i]),
        k == s.len() || !is_printable_byte(s[k]),
    ensures
        scan_printable(s, from) == k,
    decreases k - from,
{
    if from < k {
        lemma_scan_printable_value(s, from + 1, k);
    }
}

/// Pins `scan_token` when the non-space run and its boundary are known.
pub proof fn lemma_scan_token_value(s: Seq<u8>, from: int, k: int)
    requires
        0 <= from <= k <= s.len(),
        forall|i: int| from <= i < k ==> !is_space_byte(#[trigger] s[i]),
        k == s.len() || is_space_byte(s[k]),
    ensures
        scan_token(s, from) == k,
    decreases k - from,
{
    if from < k {
        lemma_scan_token_value(s, from + 1, k);
    }
}

pub proof fn lemma_scan_token_bounds(s: Seq<u8>, from: int)
    requires
        0 <= from <= s.len(),
    ensures
        from <= scan_token(s, from) <= s.len(),
        forall|j: int| from <= j < scan_token(s, from) ==> !is_space_byte(#[trigger] s[j]),
        scan_token(s, from) < s.len() ==> is_space_byte(s[scan_token(s, from)]),
    decreases s.len() - from,
{
    if from < s.len() && !is_space_byte(s[from]) {
        lemma_scan_token_bounds(s, from + 1);
    }
}

} // verus!
