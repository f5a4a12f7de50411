//! The content type stored with a link: sniffed once, at upload time.
use vstd::prelude::*;
use vstd::string::*;
use crate::error::AppError;

verus! {

/// The name of the character encoding that `chardetng` guesses for a byte
/// string read to its end, with no top-level domain as a hint and UTF-8
/// allowed.
pub uninterp spec fn charset_name(data: Seq<u8>) -> Seq<char>;

/// The content type that plain text is given a character set for.
pub open spec fn plain_text() -> Seq<char> {
    "text/plain"@
}

/// A content type with a character set appended.
pub open spec fn with_charset(mimetype: Seq<char>, charset: Seq<char>) -> Seq<char> {
    mimetype + "; charset="@ + charset
}

/// The content type to store for an upload: the sniffed one, with the
/// character set appended where the sniffed type is plain text.
pub open spec fn labelled(sniffed: Seq<char>, charset: Seq<char>) -> Seq<char> {
    if sniffed == plain_text() {
        with_charset(sniffed, charset)
    } else {
        sniffed
    }
}

/// Sniffs the content type of `data` with libmagic.
///
/// The calls are `magic::Cookie::open` with the flag `MIME_TYPE`, `load`
/// with the default database paths, and `buffer`. What comes back depends
/// on the database installed on the machine, so nothing is claimed of it;
/// an error carries the text of the failing call's error.
#[verifier::external_body]
fn sniff(data: &[u8]) -> (r: Result<String, String>) {
    let cookie = magic::Cookie::open(magic::cookie::Flags::MIME_TYPE).map_err(|e| e.to_string())?;
    let cookie = cookie.load(&Default::default()).map_err(|e| e.to_string())?;
    cookie.buffer(data).map_err(|e| e.to_string())
}

/// Guesses the character encoding of `data`.
///
/// The calls are `chardetng::EncodingDetector::new`, `feed` with the whole
/// of `data` as the last chunk, and `guess` without a domain hint and with
/// UTF-8 allowed; the result is the guessed encoding's name. The guess is a
/// function of the bytes alone, and the contract only names it.
#[verifier::external_body]
fn detect_charset(data: &[u8]) -> (name: String)
    ensures
        name@ == charset_name(data@),
{
    let mut detector = chardetng::EncodingDetector::new();
    detector.feed(data, true);
    detector.guess(None, true).name().to_string()
}

/// Tells whether a sniffed content type is to be given a character set.
pub fn needs_charset(mimetype: &String) -> (r: bool)
    ensures
        r == (mimetype@ == plain_text()),
{
    *mimetype == String::from_str("text/plain")
}

/// Appends a character set to a content type.
pub fn append_charset(mimetype: String, charset: &str) -> (r: String)
    ensures
        r@ == with_charset(mimetype@, charset@),
{
    let mut labelled = mimetype;
    labelled.append("; charset=");
    labelled.append(charset);
    labelled
}

/// The content type to store for an upload of `data`: what libmagic sniffs,
/// and for plain text also the guessed character set.
pub fn guess_mime(data: &[u8]) -> (r: Result<String, AppError>)
    ensures
        r matches Ok(mimetype) ==> exists|sniffed: Seq<char>|
            mimetype@ == #[trigger] labelled(sniffed, charset_name(data@)),
        r matches Err(e) ==> e is MagicError,
{
    match sniff(data) {
        Err(message) => Err(AppError::MagicError(message)),
        Ok(sniffed) => {
            let ghost s = sniffed@;
            if needs_charset(&sniffed) {
                let charset = detect_charset(data);
                let mimetype = append_charset(sniffed, charset.as_str());
                assert(mimetype@ == labelled(s, charset_name(data@)));
                Ok(mimetype)
            } else {
                assert(sniffed@ == labelled(s, charset_name(data@)));
                Ok(sniffed)
            }
        },
    }
}

} // verus!
