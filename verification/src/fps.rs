//! Frame-rate selection: the `--fps` argument and the automatic choice.

use vstd::prelude::*;
use crate::text::{chars_of, decimal, digit_char, str_eq};

verus! {

/// Whether `c` is an ASCII decimal digit.
pub open spec fn is_digit(c: char) -> bool {
    '0' <= c && c <= '9'
}

/// The value of an ASCII decimal digit.
pub open spec fn digit_value(c: char) -> nat {
    ((c as int) - ('0' as int)) as nat
}

/// Every character of `d` is a decimal digit.
pub open spec fn all_digits(d: Seq<char>) -> bool {
    forall|i: int| 0 <= i < d.len() ==> is_digit(#[trigger] d[i])
}

/// The number written by the decimal digits `d` (leading zeros allowed).
pub open spec fn digits_value(d: Seq<char>) -> nat
    decreases d.len(),
{
    if d.len() == 0 {
        0
    } else {
        digits_value(d.drop_last()) * 10 + digit_value(d.last())
    }
}

/// The digits of a `u32` literal: the text without one leading `+`.
pub open spec fn unsigned_body(s: Seq<char>) -> Seq<char> {
    if s.len() > 0 && s[0] == '+' { s.drop_first() } else { s }
}

/// What parsing `s` as a `u32` gives: an optional `+`, then at least one
/// ASCII digit, with a value that fits in 32 bits.
pub open spec fn parse_u32_spec(s: Seq<char>) -> Option<u32> {
    let d = unsigned_body(s);
    if d.len() > 0 && all_digits(d) && digits_value(d) <= u32::MAX {
        Some(digits_value(d) as u32)
    } else {
        None
    }
}

proof fn lemma_prefix_value_grows(d: Seq<char>, k: int)
    requires
        0 <= k <= d.len(),
        all_digits(d),
    ensures
        digits_value(d.take(k)) <= digits_value(d),
    decreases d.len() - k,
{
    if k < d.len() {
        lemma_prefix_value_grows(d, k + 1);
        assert(d.take(k + 1).drop_last() =~= d.take(k));
        assert(d.take(k + 1).last() == d[k]);
    } else {
        assert(d.take(k) =~= d);
    }
}

/// Parses `s` as a `u32`, as `str::parse::<u32>` does.
pub fn parse_u32(s: &str) -> (r: Option<u32>)
    ensures
        r == parse_u32_spec(s@),
{
    let cs = chars_of(s);
    let start: usize = if cs.len() > 0 && cs[0] == '+' { 1 } else { 0 };
    let ghost d = unsigned_body(s@);
    assert(d =~= cs@.skip(start as int));
    if start >= cs.len() {
        return None;
    }
    let mut acc: u64 = 0;
    let mut i: usize = start;
    while i < cs.len()
        invariant
            start <= i <= cs@.len(),
            cs@ == s@,
            d == cs@.skip(start as int),
            d == unsigned_body(s@),
            acc == digits_value(d.take(i - start)),
            acc <= u32::MAX,
            forall|j: int| start <= j < i ==> is_digit(#[trigger] cs@[j]),
        decreases cs@.len() - i,
    {
        let c = cs[i];
        if !('0' <= c && c <= '9') {
            assert(d[i - start] == c);
            assert(!is_digit(d[i - start]));
            return None;
        }
        let v: u64 = (c as u64) - ('0' as u64);
        proof {
            assert(d.take(i - start + 1).drop_last() =~= d.take(i - start));
            assert(d.take(i - start + 1).last() == c);
            assert(digits_value(d.take(i - start + 1)) == acc * 10 + v);
        }
        let next = acc * 10 + v;
        if next > 0xffff_ffff {
            proof {
                if all_digits(d) {
                    lemma_prefix_value_grows(d, i - start + 1);
                }
            }
            return None;
        }
        acc = next;
        i = i + 1;
    }
    assert(d.take(i - start) =~= d);
    assert(all_digits(d)) by {
        assert forall|j: int| 0 <= j < d.len() implies is_digit(#[trigger] d[j]) by {
            assert(d[j] == cs@[j + start]);
        }
    }
    Some(acc as u32)
}

proof fn lemma_digit_value(k: nat)
    requires
        k < 10,
    ensures
        digit_value(digit_char(k)) == k,
        is_digit(digit_char(k)),
        digit_char(k) != '+',
{
}

proof fn lemma_decimal_digits(n: nat)
    ensures
        decimal(n).len() > 0,
        all_digits(decimal(n)),
        digits_value(decimal(n)) == n,
        decimal(n)[0] != '+',
    decreases n,
{
    lemma_digit_value(n % 10);
    if n < 10 {
        lemma_digit_value(n);
        assert(decimal(n).drop_last() =~= Seq::<char>::empty());
        assert(digits_value(Seq::<char>::empty()) == 0);
    } else {
        lemma_decimal_digits(n / 10);
        let d = decimal(n);
        assert(d.drop_last() =~= decimal(n / 10));
        assert(d.last() == digit_char(n % 10));
        assert((n / 10) * 10 + n % 10 == n) by (nonlinear_arith);
        assert(digits_value(d) == digits_value(decimal(n / 10)) * 10 + digit_value(digit_char(n % 10)));
        assert(d[0] == decimal(n / 10)[0]);
        assert forall|i: int| 0 <= i < d.len() implies is_digit(#[trigger] d[i]) by {
            if i < d.len() - 1 {
                assert(d[i] == decimal(n / 10)[i]);
            }
        }
    }
}

/// Parsing the decimal rendering of a `u32` gives the number back.
pub proof fn lemma_parse_decimal_roundtrip(n: u32)
    ensures
        parse_u32_spec(decimal(n as nat)) == Some(n),
{
    lemma_decimal_digits(n as nat);
}

/// What the `--fps` argument asks for.
#[derive(Debug, Clone, Copy, PartialEq, Eq, Structural)]
pub enum FpsRequest {
    /// Measure the capture speed and choose from it.
    Auto,
    /// A fixed number of frames per second.
    Fixed(u32),
}

/// The `--fps` argument is neither `auto` nor a number.
#[derive(Debug, Clone, Copy, PartialEq, Eq, Structural)]
pub enum FpsError {
    NotANumber,
}

/// The meaning of an `--fps` argument.
pub open spec fn fps_request_spec(arg: Seq<char>) -> Result<FpsRequest, FpsError> {
    if arg == "auto"@ {
        Ok(FpsRequest::Auto)
    } else {
        match parse_u32_spec(arg) {
            Some(n) => Ok(FpsRequest::Fixed(n)),
            None => Err(FpsError::NotANumber),
        }
    }
}

/// Reads the `--fps` argument: `auto`, or a number parsed as a `u32`.
pub fn parse_fps_arg(arg: &str) -> (r: Result<FpsRequest, FpsError>)
    ensures
        r == fps_request_spec(arg@),
{
    if str_eq(arg, "auto") {
        Ok(FpsRequest::Auto)
    } else {
        match parse_u32(arg) {
            Some(n) => Ok(FpsRequest::Fixed(n)),
            None => Err(FpsError::NotANumber),
        }
    }
}

/// The frame rate used when `auto` was asked for: the whole number of
/// frames per second that capturing managed, kept between 1 and 30.
pub open spec fn auto_fps_spec(measured: u32) -> u32 {
    if measured < 1 { 1 } else if measured > 30 { 30 } else { measured }
}

/// Chooses the automatic frame rate from the measured capture speed.
pub fn auto_fps(measured: u32) -> (fps: u32)
    ensures
        fps == auto_fps_spec(measured),
        1 <= fps <= 30,
{
    if measured < 1 {
        1
    } else if measured > 30 {
        30
    } else {
        measured
    }
}


/// A number given as the `--fps` argument is kept exactly as it is, never
/// clamped: any argument other than `auto` that reads as the `u32` `n` asks
/// for `n` frames per second, so the decimal rendering of every `u32` does;
/// `auto` asks for the automatic choice.
pub proof fn lemma_fixed_fps_kept(arg: Seq<char>, n: u32)
    ensures
        arg != "auto"@ && parse_u32_spec(arg) == Some(n) ==> fps_request_spec(arg) == Ok::<
            FpsRequest,
            FpsError,
        >(FpsRequest::Fixed(n)),
        fps_request_spec(decimal(n as nat)) == Ok::<FpsRequest, FpsError>(FpsRequest::Fixed(n)),
        fps_request_spec("auto"@) == Ok::<FpsRequest, FpsError>(FpsRequest::Auto),
        arg != "auto"@ && parse_u32_spec(arg) is None ==> fps_request_spec(arg) == Err::<
            FpsRequest,
            FpsError,
        >(FpsError::NotANumber),
{
    lemma_parse_decimal_roundtrip(n);
    lemma_decimal_digits(n as nat);
    reveal_strlit("auto");
    assert(decimal(n as nat)[0] != 'a');
    assert("auto"@[0] == 'a');
    assert(decimal(n as nat) != "auto"@);
}

} // verus!
