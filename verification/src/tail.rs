//! Tails: the short random names of links.
use vstd::prelude::*;
use vstd::string::*;
use crate::error::AppError;
use crate::url_index::{find_tail, has_tail, length_in_use, rows_of, UrlEntry};

verus! {

/// An ASCII letter, upper or lower case.
pub open spec fn is_letter(c: char) -> bool {
    ('a' <= c && c <= 'z') || ('A' <= c && c <= 'Z')
}

/// A tail of `len` letters.
pub open spec fn is_tail(text: Seq<char>, len: int) -> bool {
    &&& text.len() == len
    &&& forall|i: int| 0 <= i < text.len() ==> is_letter(#[trigger] text[i])
}

/// Samples a tail of `len` letters.
///
/// The call is `rand::distr::Alphabetic.sample_string` on the thread's
/// generator, which appends `len` bytes, each drawn from `A..=Z` and `a..=z`,
/// to an empty string. Nothing is claimed about which letters come out. The
/// bound on `len` is the one under which the string's allocation cannot
/// overflow.
#[verifier::external_body]
fn random_tail(len: usize) -> (tail: String)
    requires
        len <= isize::MAX,
    ensures
        is_tail(tail@, len as int),
{
    rand::distr::SampleString::sample_string(&rand::distr::Alphabetic, &mut rand::rng(), len)
}

/// Picks a tail of `len` letters that no row of `urls` carries: samples up
/// to `max_attempts` tails and returns the first that is free. Where all of
/// them are taken the tail space counts as drained: the length is too small
/// for the links there are.
pub(crate) fn allocate_tail(urls: &Vec<UrlEntry>, len: usize, max_attempts: usize) -> (r: Result<
    String,
    AppError,
>)
    requires
        len <= isize::MAX,
    ensures
        r matches Ok(tail) ==> is_tail(tail@, len as int) && !has_tail(rows_of(urls@), tail@),
        r matches Err(e) ==> e is TailDrained && (max_attempts == 0 || length_in_use(
            rows_of(urls@),
            len as int,
        )),
        max_attempts == 0 ==> r is Err,
{
    let mut attempt: usize = 0;
    while attempt < max_attempts
        invariant
            attempt <= max_attempts,
            len <= isize::MAX,
            attempt > 0 ==> length_in_use(rows_of(urls@), len as int),
        decreases max_attempts - attempt,
    {
        let candidate = random_tail(len);
        match find_tail(urls, &candidate) {
            None => {
                return Ok(candidate);
            },
            Some(i) => {
                assert(rows_of(urls@)[i as int].tail.len() == len);
            },
        }
        attempt += 1;
    }
    Err(AppError::TailDrained)
}

} // verus!
