//! Lazy response data types: numeric fields and message text are kept as the
//! raw bytes the server sent, and parsed on demand.

use vstd::prelude::*;

use crate::error::{Error, ErrorKind, PopResult};
use crate::wire::is_digit_byte;

verus! {

/// A sequence of bytes is a well-formed decimal numeral: nonempty, digits only.
pub open spec fn is_digits(s: Seq<u8>) -> bool {
    s.len() > 0 && forall|i: int| 0 <= i < s.len() ==> is_digit_byte(#[trigger] s[i])
}

/// The value of a decimal numeral.
pub open spec fn dec_val(s: Seq<u8>) -> nat
    decreases s.len(),
{
    if s.len() == 0 {
        0
    } else {
        (dec_val(s.drop_last()) * 10 + (s.last() - 48)) as nat
    }
}

proof fn lemma_dec_val_step(s: Seq<u8>, i: int)
    requires
        0 <= i < s.len(),
        is_digit_byte(s[i]),
    ensures
        dec_val(s.take(i + 1)) == dec_val(s.take(i)) * 10 + (s[i] - 48),
{
    assert(s.take(i + 1).drop_last() =~= s.take(i));
    assert(s.take(i + 1).last() == s[i]);
}

proof fn lemma_dec_val_grows(s: Seq<u8>, i: int)
    requires
        0 <= i <= s.len(),
        forall|j: int| 0 <= j < s.len() ==> is_digit_byte(#[trigger] s[j]),
    ensures
        dec_val(s.take(i)) <= dec_val(s),
    decreases s.len() - i,
{
    if i == s.len() {
        assert(s.take(i) =~= s);
    } else {
        lemma_dec_val_step(s, i);
        lemma_dec_val_grows(s, i + 1);
    }
}

/// Parses a decimal numeral.  Returns its value exactly when the bytes are a
/// nonempty run of digits whose value fits in `usize`.
pub fn parse_usize_bytes(b: &[u8]) -> (r: Option<usize>)
    ensures
        match r {
            Some(v) => is_digits(b@) && v == dec_val(b@),
            None => !(is_digits(b@) && dec_val(b@) <= usize::MAX),
        },
{
    if b.len() == 0 {
        return None;
    }
    let mut acc: usize = 0;
    let mut i: usize = 0;
    while i < b.len()
        invariant
            0 <= i <= b@.len(),
            forall|j: int| 0 <= j < i ==> is_digit_byte(#[trigger] b@[j]),
            acc == dec_val(b@.take(i as int)),
        decreases b@.len() - i,
    {
        let d = b[i];
        if !(48 <= d && d <= 57) {
            return None;
        }
        proof {
            lemma_dec_val_step(b@, i as int);
        }
        let acc10 = match acc.checked_mul(10) {
            Some(v) => v,
            None => {
                proof {
                    if is_digits(b@) {
                        lemma_dec_val_grows(b@, i as int + 1);
                    }
                }
                return None;
            },
        };
        acc = match acc10.checked_add((d - 48) as usize) {
            Some(v) => v,
            None => {
                proof {
                    if is_digits(b@) {
                        lemma_dec_val_grows(b@, i as int + 1);
                    }
                }
                return None;
            },
        };
        i = i + 1;
    }
    proof {
        assert(b@.take(i as int) =~= b@);
    }
    Some(acc)
}

/// A POP3 text field, kept as the raw bytes the server sent.
#[derive(Debug, Clone, PartialEq, Eq)]
pub struct Text {
    inner: Vec<u8>,
}

impl View for Text {
    type V = Seq<u8>;

    closed spec fn view(&self) -> Seq<u8> {
        self.inner@
    }
}

impl DeepView for Text {
    type V = Seq<u8>;

    open spec fn deep_view(&self) -> Seq<u8> {
        self.view()
    }
}

impl Text {
    pub fn new(inner: Vec<u8>) -> (r: Text)
        ensures
            r@ == inner@,
    {
        Text { inner }
    }

    /// The raw slice that represents the data.
    pub fn raw(&self) -> (r: &[u8])
        ensures
            r@ == self@,
    {
        self.inner.as_slice()
    }

    /// The raw bytes, given up.
    pub fn into_bytes(self) -> (r: Vec<u8>)
        ensures
            r@ == self@,
    {
        self.inner
    }

    /// The raw slice that represents the data.
    pub fn as_ref(&self) -> (r: &[u8])
        ensures
            r@ == self@,
    {
        self.inner.as_slice()
    }
}

/// A POP3 number field, kept as the raw bytes the server sent.
#[derive(Debug, Clone, PartialEq, Eq)]
pub struct Number {
    inner: Vec<u8>,
}

impl View for Number {
    type V = Seq<u8>;

    closed spec fn view(&self) -> Seq<u8> {
        self.inner@
    }
}

impl DeepView for Number {
    type V = Seq<u8>;

    open spec fn deep_view(&self) -> Seq<u8> {
        self.view()
    }
}

impl Number {
    pub fn new(inner: Vec<u8>) -> (r: Number)
        ensures
            r@ == inner@,
    {
        Number { inner }
    }

    /// The raw slice that represents the data.
    pub fn raw(&self) -> (r: &[u8])
        ensures
            r@ == self@,
    {
        self.inner.as_slice()
    }

    /// The numeric value of the raw bytes: defined exactly when they are a
    /// nonempty run of decimal digits whose value fits in `usize`.
    pub fn value(&self) -> (r: PopResult<usize>)
        ensures
            match r {
                Ok(v) => is_digits(self@) && v == dec_val(self@),
                Err(e) => !(is_digits(self@) && dec_val(self@) <= usize::MAX) && e.spec_kind()
                    is ParseInt,
            },
    {
        match parse_usize_bytes(self.inner.as_slice()) {
            Some(v) => Ok(v),
            None => Err(
                Error::new(ErrorKind::ParseInt, String::from_str("Failed to parse int")),
            ),
        }
    }
}

/// A time span, kept as the raw digit bytes the server sent plus the unit
/// (in seconds) those digits are counted in.
#[derive(Debug, Clone, PartialEq, Eq)]
pub struct Duration {
    inner: Number,
    to_secs_multiplier: u64,
}

/// The mathematical content of a `Duration`: its digit bytes and its unit.
#[verifier::ext_equal]
pub struct DurationModel {
    pub digits: Seq<u8>,
    pub mult: u64,
}

impl View for Duration {
    type V = DurationModel;

    closed spec fn view(&self) -> DurationModel {
        DurationModel { digits: self.inner@, mult: self.to_secs_multiplier }
    }
}

impl Duration {
    pub fn new(number: Number, to_secs_multiplier: u64) -> (r: Duration)
        ensures
            r@.digits == number@,
            r@.mult == to_secs_multiplier,
    {
        Duration { inner: number, to_secs_multiplier }
    }

    /// The raw slice that represents the data.
    pub fn raw(&self) -> (r: &[u8])
        ensures
            r@ == self@.digits,
    {
        self.inner.raw()
    }

    /// The span in seconds: the numeric value of the digits times the unit.
    /// Defined exactly when the digits parse and the product fits in `u64`.
    pub fn value(&self) -> (r: PopResult<u64>)
        ensures
            match r {
                Ok(v) => is_digits(self@.digits) && v == dec_val(self@.digits) * self@.mult,
                Err(e) => e.spec_kind() is ParseInt,
            },
    {
        let n = self.inner.value()?;
        let n64: u64 = n as u64;
        proof {
            assert(n64 == dec_val(self@.digits));
        }
        match n64.checked_mul(self.to_secs_multiplier) {
            Some(v) => Ok(v),
            None => Err(
                Error::new(ErrorKind::ParseInt, String::from_str("Failed to parse int")),
            ),
        }
    }
}

/// Access to a lazily parsed field: its raw bytes and its parsed value.
pub trait DataType<T>: Sized {
    fn value(&self) -> PopResult<T>;

    fn raw(&self) -> &[u8];
}

impl DataType<usize> for Number {
    fn value(&self) -> PopResult<usize> {
        Number::value(self)
    }

    fn raw(&self) -> &[u8] {
        Number::raw(self)
    }
}

impl DataType<u64> for Duration {
    fn value(&self) -> PopResult<u64> {
        Duration::value(self)
    }

    fn raw(&self) -> &[u8] {
        Duration::raw(self)
    }
}

} // verus!
