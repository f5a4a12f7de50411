//! Reading what an upload asks for: an expiry, as a second or as a
//! duration, and a tail length.
use vstd::prelude::*;
use vstd::string::*;
use crate::error::AppError;

verus! {

/// Whether `char::is_numeric` holds of a character: it belongs to one of
/// Unicode's number categories.
pub uninterp spec fn numeric(c: char) -> bool;

/// The whole seconds of the duration that `humantime::parse_duration` reads
/// from a text; `None` where it refuses the text.
pub uninterp spec fn humantime_seconds(text: Seq<char>) -> Option<u64>;

/// Tells whether a character is a number.
///
/// The call is `char::is_numeric`, a fixed table lookup; the contract only
/// names its answer.
#[verifier::external_body]
fn is_numeric(c: char) -> (r: bool)
    ensures
        r == numeric(c),
{
    c.is_numeric()
}

/// Why `humantime` refused a duration.
#[verifier::external_type_specification]
#[verifier::external_body]
pub struct ExDurationError(humantime::DurationError);

/// Reads a duration such as `15days 2min 2s` and returns its whole seconds.
///
/// The call is `humantime::parse_duration`, then `Duration::as_secs`. The
/// parser is a function of the text alone; the contract names its result.
/// Its arithmetic is checked except for one carry of a full second into a
/// seconds count that already stands at the largest 64-bit value, where it
/// panics: no text with eleven digits or fewer can count that many seconds,
/// and `requires` admits only those.
#[verifier::external_body]
fn humantime_parse(text: &str) -> (r: Result<u64, humantime::DurationError>)
    requires
        digit_count(text@) <= MAX_DURATION_DIGITS,
    ensures
        r matches Ok(seconds) ==> humantime_seconds(text@) == Some(seconds),
        r is Err ==> humantime_seconds(text@) is None,
{
    humantime::parse_duration(text).map(|d| d.as_secs())
}

/// The sentence with which `humantime` explains a refusal.
///
/// The call is `to_string` on the error. Nothing is claimed of the text.
#[verifier::external_body]
fn humantime_reason(error: &humantime::DurationError) -> (reason: String) {
    error.to_string()
}

/// A decimal digit.
pub open spec fn is_digit(c: char) -> bool {
    '0' <= c && c <= '9'
}

/// The value of a decimal digit.
pub open spec fn digit_value(c: char) -> nat {
    (c as int - '0' as int) as nat
}

/// Why a text is no decimal number.
#[derive(Debug, Clone, Copy, PartialEq, Eq, Structural)]
pub enum DecimalError {
    /// The text is empty.
    Empty,
    /// A character is no decimal digit.
    InvalidDigit,
    /// The number is larger than the largest value allowed.
    PosOverflow,
}

/// Reads `text` from left to right as digits of a number no larger than
/// `max`, and stops at the first character that is no digit or that takes
/// the number over `max`.
pub open spec fn scan(text: Seq<char>, max: nat) -> Result<nat, DecimalError>
    decreases text.len(),
{
    if text.len() == 0 {
        Ok(0)
    } else {
        match scan(text.drop_last(), max) {
            Err(e) => Err(e),
            Ok(v) => if !is_digit(text.last()) {
                Err(DecimalError::InvalidDigit)
            } else if v * 10 + digit_value(text.last()) > max {
                Err(DecimalError::PosOverflow)
            } else {
                Ok(v * 10 + digit_value(text.last()))
            },
        }
    }
}

/// The unsigned decimal number that `text` spells, if it is no larger than
/// `max`.
pub open spec fn decimal(text: Seq<char>, max: nat) -> Result<nat, DecimalError> {
    if text.len() == 0 {
        Err(DecimalError::Empty)
    } else {
        scan(text, max)
    }
}

/// The digits of an unsigned number: the text without one leading `+`, which
/// may stand before at least one more character.
pub open spec fn unsigned_digits(text: Seq<char>) -> Seq<char> {
    if text.len() > 1 && text[0] == '+' {
        text.subrange(1, text.len() as int)
    } else {
        text
    }
}

impl DecimalError {
    /// The sentence that explains the error.
    pub open spec fn text(self) -> Seq<char> {
        match self {
            DecimalError::Empty => "cannot parse integer from empty string"@,
            DecimalError::InvalidDigit => "invalid digit found in string"@,
            DecimalError::PosOverflow => "number too large to fit in target type"@,
        }
    }

    /// Explains the error in a sentence.
    pub fn message(&self) -> (r: String)
        ensures
            r@ == self.text(),
    {
        match self {
            DecimalError::Empty => String::from_str("cannot parse integer from empty string"),
            DecimalError::InvalidDigit => String::from_str("invalid digit found in string"),
            DecimalError::PosOverflow => String::from_str("number too large to fit in target type"),
        }
    }
}

/// Reads an unsigned decimal number no larger than `max`.
pub fn parse_decimal(text: &str, max: u64) -> (r: Result<u64, DecimalError>)
    ensures
        r matches Ok(v) ==> decimal(text@, max as nat) == Ok::<nat, DecimalError>(v as nat),
        r matches Err(e) ==> decimal(text@, max as nat) == Err::<nat, DecimalError>(e),
{
    let mut acc: Result<u64, DecimalError> = Ok(0);
    let mut seen = false;
    for c in it: text.chars()
        invariant
            it.seq() == text@,
            seen == (it.index() > 0),
            acc matches Ok(v) ==> scan(text@.take(it.index() as int), max as nat) == Ok::<
                nat,
                DecimalError,
            >(v as nat) && v <= max,
            acc matches Err(e) ==> scan(text@.take(it.index() as int), max as nat) == Err::<
                nat,
                DecimalError,
            >(e),
    {
        proof {
            let i = it.index() as int;
            assert(text@.take(i + 1).drop_last() =~= text@.take(i));
            assert(text@.take(i + 1).last() == text@[i]);
        }
        seen = true;
        acc = match acc {
            Err(e) => Err(e),
            Ok(v) => {
                if !(c >= '0' && c <= '9') {
                    Err(DecimalError::InvalidDigit)
                } else {
                    let d: u128 = (c as u32 - '0' as u32) as u128;
                    let wide: u128 = v as u128 * 10 + d;
                    if wide > max as u128 {
                        Err(DecimalError::PosOverflow)
                    } else {
                        Ok(wide as u64)
                    }
                }
            },
        };
    }
    proof {
        assert(text@.take(text@.len() as int) =~= text@);
    }
    if !seen {
        return Err(DecimalError::Empty);
    }
    acc
}

/// Every character of the text is a number.
pub open spec fn all_numeric(text: Seq<char>) -> bool {
    forall|i: int| 0 <= i < text.len() ==> numeric(#[trigger] text[i])
}

/// Tells whether every character of the text is a number.
pub fn is_all_numeric(text: &str) -> (r: bool)
    ensures
        r == all_numeric(text@),
{
    let mut ok = true;
    for c in it: text.chars()
        invariant
            it.seq() == text@,
            ok == (forall|k: int| 0 <= k < it.index() ==> numeric(#[trigger] text@[k])),
    {
        if !is_numeric(c) {
            ok = false;
        }
    }
    ok
}

/// The most decimal digits a relative duration may hold.
pub const MAX_DURATION_DIGITS: usize = 11;

/// How many decimal digits a text holds.
pub open spec fn digit_count(text: Seq<char>) -> nat {
    text.filter(|c: char| is_digit(c)).len()
}

/// Tells whether a text holds no more digits than a duration may.
pub fn has_few_digits(text: &str) -> (r: bool)
    ensures
        r == (digit_count(text@) <= MAX_DURATION_DIGITS),
{
    let mut count: usize = 0;
    proof {
        reveal(Seq::filter);
        assert(text@.take(0) =~= Seq::<char>::empty());
    }
    for c in it: text.chars()
        invariant
            it.seq() == text@,
            count <= MAX_DURATION_DIGITS + 1,
            count <= MAX_DURATION_DIGITS ==> count == digit_count(text@.take(it.index() as int)),
            count > MAX_DURATION_DIGITS ==> digit_count(text@.take(it.index() as int))
                > MAX_DURATION_DIGITS,
    {
        proof {
            let i = it.index() as int;
            assert(text@.take(i + 1) =~= text@.take(i).push(text@[i]));
            text@.take(i).lemma_filter_len_push(|c: char| is_digit(c), text@[i]);
        }
        if c >= '0' && c <= '9' && count <= MAX_DURATION_DIGITS {
            count += 1;
        }
    }
    proof {
        assert(text@.take(text@.len() as int) =~= text@);
    }
    count <= MAX_DURATION_DIGITS
}

/// The second that lies `seconds` after `now`, if a timestamp can hold it.
pub open spec fn seconds_after(now: int, seconds: int) -> Option<int> {
    if now + seconds <= i64::MAX {
        Some(now + seconds)
    } else {
        None
    }
}

/// The expiry that lies `seconds` after `now`. A sum that no timestamp can
/// hold is refused.
pub fn relative_expiry(now: i64, seconds: u64) -> (r: Result<i64, AppError>)
    ensures
        r matches Ok(at) ==> seconds_after(now as int, seconds as int) == Some(at as int),
        r matches Err(e) ==> seconds_after(now as int, seconds as int) is None && e is ExpiresParseError
            && e->ExpiresParseError_0@ == "expiry is out of range"@,
{
    match now.checked_add_unsigned(seconds) {
        Some(at) => Ok(at),
        None => Err(AppError::ExpiresParseError(String::from_str("expiry is out of range"))),
    }
}

/// The seconds of a duration written for people, such as `2h 30min`.
/// A text with more than eleven digits is refused unread.
pub fn parse_duration_secs(text: &str) -> (r: Result<u64, String>)
    ensures
        r matches Ok(seconds) ==> digit_count(text@) <= MAX_DURATION_DIGITS && humantime_seconds(
            text@,
        ) == Some(seconds),
        r is Err ==> digit_count(text@) > MAX_DURATION_DIGITS || humantime_seconds(text@) is None,
{
    if !has_few_digits(text) {
        return Err(String::from_str("duration has too many digits"));
    }
    match humantime_parse(text) {
        Ok(seconds) => Ok(seconds),
        Err(error) => Err(humantime_reason(&error)),
    }
}

/// The expiry that an upload asks for in its `expires` field: a text made
/// of digits only is the second itself; any other text is a duration,
/// counted from `now`. `None` where the text is refused.
pub open spec fn explicit_expiry(text: Seq<char>, now: int) -> Option<int> {
    if all_numeric(text) {
        match decimal(text, i64::MAX as nat) {
            Ok(at) => Some(at as int),
            Err(_) => None,
        }
    } else if digit_count(text) > MAX_DURATION_DIGITS {
        None
    } else {
        match humantime_seconds(text) {
            Some(seconds) => seconds_after(now, seconds as int),
            None => None,
        }
    }
}

/// Reads the `expires` field of an upload.
pub fn parse_expires(text: &str, now: i64) -> (r: Result<i64, AppError>)
    ensures
        r matches Ok(at) ==> explicit_expiry(text@, now as int) == Some(at as int),
        r matches Err(e) ==> explicit_expiry(text@, now as int) is None && e is ExpiresParseError,
{
    if is_all_numeric(text) {
        match parse_decimal(text, i64::MAX as u64) {
            Ok(at) => Ok(at as i64),
            Err(e) => Err(AppError::ExpiresParseError(e.message())),
        }
    } else {
        match parse_duration_secs(text) {
            Ok(seconds) => relative_expiry(now, seconds),
            Err(reason) => Err(AppError::ExpiresParseError(reason)),
        }
    }
}

/// The tail length that an upload asks for in its `tail_len` field: an
/// unsigned decimal number that fits the machine's word, with or without a
/// leading `+`.
pub open spec fn tail_len_of(text: Seq<char>) -> Result<nat, DecimalError> {
    decimal(unsigned_digits(text), usize::MAX as nat)
}

/// Reads the `tail_len` field of an upload.
pub fn parse_tail_len(text: &str) -> (r: Result<usize, AppError>)
    ensures
        r matches Ok(len) ==> tail_len_of(text@) == Ok::<nat, DecimalError>(len as nat),
        r matches Err(e) ==> tail_len_of(text@) is Err && e is LenParseError
            && e->LenParseError_0@ == tail_len_of(text@)->Err_0.text(),
{
    let len = text.unicode_len();
    let digits = if len > 1 && text.get_char(0) == '+' {
        text.substring_char(1, len)
    } else {
        text
    };
    match parse_decimal(digits, usize::MAX as u64) {
        Ok(v) => Ok(v as usize),
        Err(e) => Err(AppError::LenParseError(e.message())),
    }
}

} // verus!
