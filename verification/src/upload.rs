//! Taking an upload: the form, the step into the store, and the answer.
use vstd::prelude::*;
use vstd::string::*;
use crate::clock::unix_now;
use crate::config::Config;
use crate::digest::{file_hash, hash_of};
use crate::error::{AppError, RequestFailure};
use crate::expiry::{
    explicit_expiry, parse_expires, parse_tail_len, relative_expiry, seconds_after, tail_len_of,
};
use crate::mime::{charset_name, guess_mime, labelled};
use crate::retention::calc_retention;
use crate::service::{conf, Service};
use crate::store::add_url;
use crate::tail::is_tail;
use crate::text::{decimal_text, digits_of, same_text};
use crate::url_index::{has_tail, length_in_use, new_row};

verus! {

/// What to do with the next field of an upload form.
#[derive(Debug, Clone, Copy, PartialEq, Eq, Structural)]
pub enum FieldAction {
    /// Read the field's bytes and hand them over as the content.
    ReadFile,
    /// Read the field's text as a URL, fetch it, and hand the answer over
    /// as the content.
    FetchUrl,
    /// Read the field's text and hand it over as the tail length.
    ReadTailLen,
    /// Read the field's text and hand it over as the expiry.
    ReadExpires,
    /// Pass over the field without reading it.
    Skip,
}

/// What has been gathered from an upload form so far.
#[derive(Debug)]
pub struct UploadForm {
    pub data: Option<Vec<u8>>,
    pub tail_len: usize,
    pub expires: Option<String>,
}

/// Why a form that was read to its end is refused.
pub enum Refusal {
    /// No field gave content.
    NoFileUploaded,
    /// The `expires` field is neither a second nor a duration, or the expiry
    /// lies beyond the last second a timestamp can hold.
    BadExpiry,
    /// The content is larger than the ceiling.
    FileTooLarge,
}

impl UploadForm {
    /// The form before any field was read: no content, no expiry, and the
    /// tail length that applies when the form asks for none.
    pub fn new(default_tail_len: usize) -> (form: UploadForm)
        ensures
            form.data is None,
            form.expires is None,
            form.tail_len == default_tail_len,
    {
        UploadForm { data: None, tail_len: default_tail_len, expires: None }
    }

    /// What to do with a field called `name`: content is taken from the
    /// first `file` or `url` field, the expiry from the first `expires`
    /// field, the tail length from every `tail_len` field; anything else is
    /// passed over.
    pub open spec fn action_for(self, name: Seq<char>) -> FieldAction {
        if name == "file"@ {
            if self.data is None {
                FieldAction::ReadFile
            } else {
                FieldAction::Skip
            }
        } else if name == "url"@ {
            if self.data is None {
                FieldAction::FetchUrl
            } else {
                FieldAction::Skip
            }
        } else if name == "tail_len"@ {
            FieldAction::ReadTailLen
        } else if name == "expires"@ {
            if self.expires is None {
                FieldAction::ReadExpires
            } else {
                FieldAction::Skip
            }
        } else {
            FieldAction::Skip
        }
    }

    /// Decides what to do with the next field, given its name. A field
    /// without a name ends the upload.
    pub fn next_field(&self, name: Option<&str>) -> (r: Result<FieldAction, AppError>)
        ensures
            match name {
                Some(n) => r matches Ok(action) && action == self.action_for(n@),
                None => r matches Err(e) && e is FieldHasNoName,
            },
    {
        let name = match name {
            Some(n) => n,
            None => {
                return Err(AppError::FieldHasNoName);
            },
        };
        if same_text(name, "file") {
            if self.data.is_none() {
                Ok(FieldAction::ReadFile)
            } else {
                Ok(FieldAction::Skip)
            }
        } else if same_text(name, "url") {
            if self.data.is_none() {
                Ok(FieldAction::FetchUrl)
            } else {
                Ok(FieldAction::Skip)
            }
        } else if same_text(name, "tail_len") {
            Ok(FieldAction::ReadTailLen)
        } else if same_text(name, "expires") {
            if self.expires.is_none() {
                Ok(FieldAction::ReadExpires)
            } else {
                Ok(FieldAction::Skip)
            }
        } else {
            Ok(FieldAction::Skip)
        }
    }

    /// Takes the content, unless the form has content already.
    pub fn accept_data(&mut self, bytes: Vec<u8>)
        ensures
            final(self).data == if old(self).data is None {
                Some(bytes)
            } else {
                old(self).data
            },
            final(self).tail_len == old(self).tail_len,
            final(self).expires == old(self).expires,
    {
        if self.data.is_none() {
            self.data = Some(bytes);
        }
    }

    /// Takes the tail length from the text of a `tail_len` field. A text
    /// that is no length is an error, and leaves the form as it was.
    pub fn accept_tail_len(&mut self, text: &str) -> (r: Result<(), AppError>)
        ensures
            final(self).data == old(self).data,
            final(self).expires == old(self).expires,
            match tail_len_of(text@) {
                Ok(len) => r is Ok && final(self).tail_len == len,
                Err(error) => r matches Err(e) && e is LenParseError && e->LenParseError_0@
                    == error.text() && final(self).tail_len == old(self).tail_len,
            },
    {
        match parse_tail_len(text) {
            Ok(len) => {
                self.tail_len = len;
                Ok(())
            },
            Err(e) => Err(e),
        }
    }

    /// Takes the text of an `expires` field, unless the form has one
    /// already.
    pub fn accept_expires(&mut self, text: String)
        ensures
            final(self).expires == if old(self).expires is None {
                Some(text)
            } else {
                old(self).expires
            },
            final(self).data == old(self).data,
            final(self).tail_len == old(self).tail_len,
    {
        if self.expires.is_none() {
            self.expires = Some(text);
        }
    }

    /// The second at which the upload expires, or why the form is refused.
    /// The expiry is the one the form asks for; without one, it is the
    /// retention for the content's size, counted from `now`.
    pub open spec fn outcome(self, config: Config, now: int) -> Result<int, Refusal> {
        match self.data {
            None => Err(Refusal::NoFileUploaded),
            Some(data) => match self.expires {
                Some(text) => match explicit_expiry(text@, now) {
                    None => Err(Refusal::BadExpiry),
                    Some(at) => if data.len() > config.max_file_size {
                        Err(Refusal::FileTooLarge)
                    } else {
                        Ok(at)
                    },
                },
                None => if data.len() > config.max_file_size {
                    Err(Refusal::FileTooLarge)
                } else {
                    match seconds_after(now, config.retention_of(data.len() as int)) {
                        Some(at) => Ok(at),
                        None => Err(Refusal::BadExpiry),
                    }
                },
            },
        }
    }

    /// Ends the form: hands out the content, the tail length and the second
    /// of expiry, or the error that refuses the form.
    pub fn finish(self, config: &Config, now: i64) -> (r: Result<(Vec<u8>, usize, i64), AppError>)
        requires
            config.valid(),
        ensures
            match self.outcome(*config, now as int) {
                Ok(at) => r matches Ok(parts) && Some(parts.0) == self.data && parts.1
                    == self.tail_len && parts.2 == at,
                Err(Refusal::NoFileUploaded) => r matches Err(e) && e is NoFileUploaded,
                Err(Refusal::BadExpiry) => r matches Err(e) && e is ExpiresParseError,
                Err(Refusal::FileTooLarge) => r matches Err(e) && e is FileTooLarge,
            },
    {
        let data = match self.data {
            Some(data) => data,
            None => {
                return Err(AppError::NoFileUploaded);
            },
        };
        let explicit = match self.expires {
            Some(text) => match parse_expires(text.as_str(), now) {
                Ok(at) => Some(at),
                Err(e) => {
                    return Err(e);
                },
            },
            None => None,
        };
        if data.len() > config.max_file_size {
            return Err(AppError::FileTooLarge);
        }
        let expires_at = match explicit {
            Some(at) => at,
            None => {
                let retention = calc_retention(config, data.len());
                match relative_expiry(now, retention as u64) {
                    Ok(at) => at,
                    Err(e) => {
                        return Err(e);
                    },
                }
            },
        };
        Ok((data, self.tail_len, expires_at))
    }
}

/// An upload that the store has taken: the tail of its link, the hash that
/// names its blob, and the content to write under that name.
#[derive(Debug)]
pub struct Stored {
    pub tail: String,
    pub file_sha256sum: String,
    pub data: Vec<u8>,
}

/// What taking the upload `form` at the second `now` makes of the service:
/// on success a new link of the asked length to the blob of the content,
/// expiring as the form decides; on failure the store as it was, and the
/// error that tells why. A form that is refused never succeeds.
pub open spec fn took_upload(
    before: Service,
    after: Service,
    form: UploadForm,
    now: int,
    r: Result<Stored, AppError>,
) -> bool {
    &&& after.wf()
    &&& after.config() == before.config()
    &&& form.outcome(before.config(), now) is Err ==> r is Err
    &&& r matches Ok(stored) ==> {
        &&& form.data == Some(stored.data)
        &&& stored.file_sha256sum@ == hash_of(stored.data@)
        &&& is_tail(stored.tail@, form.tail_len as int)
        &&& !has_tail(before.store().urls(), stored.tail@)
        &&& form.outcome(before.config(), now) is Ok
        &&& exists|sniffed: Seq<char>|
            after.store().urls() == before.store().urls().push(
                #[trigger] new_row(
                    stored.tail@,
                    stored.file_sha256sum@,
                    labelled(sniffed, charset_name(stored.data@)),
                    form.outcome(before.config(), now)->Ok_0,
                ),
            )
    }
    &&& r matches Err(e) ==> {
        &&& after.store() == before.store()
        &&& match form.outcome(before.config(), now) {
            Ok(_) => {
                ||| e is MagicError
                ||| e is Interaction && form.tail_len > isize::MAX
                ||| e is TailDrained && form.tail_len <= isize::MAX && (
                before.config().gen_tail_max_attamps == 0 || length_in_use(
                    before.store().urls(),
                    form.tail_len as int,
                ))
            },
            Err(Refusal::NoFileUploaded) => e is NoFileUploaded,
            Err(Refusal::BadExpiry) => e is ExpiresParseError,
            Err(Refusal::FileTooLarge) => e is FileTooLarge,
        }
    }
}

/// Takes an upload into the store, with the clock's reading as the second
/// from which its retention counts.
pub fn upload(service: &mut Service, form: UploadForm) -> (r: Result<Stored, AppError>)
    requires
        old(service).wf(),
    ensures
        exists|now: int| #[trigger] took_upload(*old(service), *final(service), form, now, r),
{
    let now = unix_now();
    let r = upload_at(service, form, now);
    assert(took_upload(*old(service), *service, form, now as int, r));
    r
}

/// Takes an upload into the store at the second `now`: ends the form, names
/// the content by its hash, sniffs its type, and writes a link of the asked
/// length with a reference on the blob. A failure leaves the store as it
/// was.
pub fn upload_at(service: &mut Service, form: UploadForm, now: i64) -> (r: Result<
    Stored,
    AppError,
>)
    requires
        old(service).wf(),
    ensures
        took_upload(*old(service), *final(service), form, now as int, r),
{
    let (data, tail_len, expires_at) = match form.finish(conf(service), now) {
        Ok(parts) => parts,
        Err(e) => {
            return Err(e);
        },
    };
    let file_sha256sum = file_hash(data.as_slice());
    let mimetype = match guess_mime(data.as_slice()) {
        Ok(mimetype) => mimetype,
        Err(e) => {
            return Err(e);
        },
    };
    if tail_len > isize::MAX as usize {
        return Err(AppError::Interaction(String::from_str("tail length is out of range")));
    }
    let max_attempts = conf(service).gen_tail_max_attamps;
    let ghost before = service.store().urls();
    let added = add_url(
        service.store_mut(),
        max_attempts,
        tail_len,
        file_sha256sum.as_str(),
        mimetype.as_str(),
        expires_at,
    );
    match added {
        Ok(tail) => {
            proof {
                let sniffed = choose|sniffed: Seq<char>|
                    mimetype@ == #[trigger] labelled(sniffed, charset_name(data@));
                assert(service.store().urls() == before.push(
                    new_row(
                        tail@,
                        file_sha256sum@,
                        labelled(sniffed, charset_name(data@)),
                        expires_at as int,
                    ),
                ));
            }
            Ok(Stored { tail, file_sha256sum, data })
        },
        Err(e) => Err(e),
    }
}

/// The answer to a request: an HTTP status, a body, and, where the failure
/// is the service's own, the line to log.
#[derive(Debug)]
pub struct Reply {
    pub status: u16,
    pub body: String,
    pub log: Option<String>,
}

/// The status that answers an upload.
pub open spec fn upload_status(outcome: Result<String, AppError>) -> u16 {
    match outcome {
        Ok(_) => 200,
        Err(AppError::Multipart(status)) => status,
        Err(AppError::RequestError(RequestFailure::InvalidUrl)) => 400,
        Err(AppError::RequestError(RequestFailure::ResponseTooLarge)) => 400,
        Err(AppError::RequestError(RequestFailure::RequestTimeout)) => 503,
        Err(AppError::RequestError(RequestFailure::NonSuccessfulStatusCode(_))) => 503,
        Err(AppError::RequestError(RequestFailure::Other(_))) => 500,
        Err(AppError::NoFileUploaded) => 400,
        Err(AppError::FieldHasNoName) => 400,
        Err(AppError::LenParseError(_)) => 400,
        Err(AppError::ExpiresParseError(_)) => 400,
        Err(AppError::FileTooLarge) => 413,
        Err(AppError::TailDrained) => 503,
        Err(_) => 500,
    }
}

/// The body that answers an upload: the link on success, a hint where the
/// client can mend the request, else nothing.
pub open spec fn upload_body(base_url: Seq<char>, outcome: Result<String, AppError>) -> Seq<char> {
    match outcome {
        Ok(tail) => base_url + "/"@ + tail@ + "\n"@,
        Err(AppError::RequestError(RequestFailure::InvalidUrl)) => "url is invalid\n"@,
        Err(AppError::RequestError(RequestFailure::ResponseTooLarge)) => "response too large\n"@,
        Err(AppError::RequestError(RequestFailure::RequestTimeout)) => "request timeout\n"@,
        Err(AppError::RequestError(RequestFailure::NonSuccessfulStatusCode(code))) =>
            "request failed with status code "@ + digits_of(code as nat) + "\n"@,
        Err(AppError::NoFileUploaded) => "no 'file' or 'url' specified\n"@,
        Err(AppError::LenParseError(message)) => message@,
        Err(AppError::ExpiresParseError(message)) => message@,
        Err(AppError::TailDrained) =>
            "cannot generate an unique url, try specifying a larger 'tail_len'\n"@,
        Err(_) => Seq::<char>::empty(),
    }
}

/// Whether the answer to an upload comes with a line to log: where the
/// error is none that the client can mend.
pub open spec fn upload_logged(outcome: Result<String, AppError>) -> bool {
    match outcome {
        Ok(_) => false,
        Err(AppError::Multipart(_)) => false,
        Err(AppError::RequestError(RequestFailure::Other(_))) => true,
        Err(AppError::RequestError(_)) => false,
        Err(AppError::NoFileUploaded) => false,
        Err(AppError::FieldHasNoName) => false,
        Err(AppError::LenParseError(_)) => false,
        Err(AppError::ExpiresParseError(_)) => false,
        Err(AppError::FileTooLarge) => false,
        Err(AppError::TailDrained) => false,
        Err(_) => true,
    }
}

/// Answers an upload: the link `base_url/tail` on success; on failure the
/// status and hint that belong to the error. An error that is the
/// service's own is answered with status 500 and logged.
pub fn handle_upload(base_url: &str, outcome: Result<String, AppError>) -> (reply: Reply)
    ensures
        reply.status == upload_status(outcome),
        reply.body@ == upload_body(base_url@, outcome),
        reply.log is Some <==> upload_logged(outcome),
        reply.log matches Some(line) ==> outcome matches Err(e) && line@ == e.text(),
{
    match outcome {
        Ok(tail) => {
            let mut body = String::from_str(base_url);
            body.append("/");
            body.append(tail.as_str());
            body.append("\n");
            Reply { status: 200, body, log: None }
        },
        Err(e) => {
            let (status, body, logged): (u16, String, bool) = match &e {
                AppError::Multipart(status) => (*status, String::new(), false),
                AppError::RequestError(failure) => match failure {
                    RequestFailure::InvalidUrl => (
                        400,
                        String::from_str("url is invalid\n"),
                        false,
                    ),
                    RequestFailure::ResponseTooLarge => (
                        400,
                        String::from_str("response too large\n"),
                        false,
                    ),
                    RequestFailure::RequestTimeout => (
                        503,
                        String::from_str("request timeout\n"),
                        false,
                    ),
                    RequestFailure::NonSuccessfulStatusCode(code) => {
                        let mut body = String::from_str("request failed with status code ");
                        let digits = decimal_text(*code);
                        body.append(digits.as_str());
                        body.append("\n");
                        (503, body, false)
                    },
                    RequestFailure::Other(_) => (500, String::new(), true),
                },
                AppError::NoFileUploaded => (
                    400,
                    String::from_str("no 'file' or 'url' specified\n"),
                    false,
                ),
                AppError::FieldHasNoName => (400, String::new(), false),
                AppError::LenParseError(message) => (400, message.clone(), false),
                AppError::ExpiresParseError(message) => (400, message.clone(), false),
                AppError::FileTooLarge => (413, String::new(), false),
                AppError::TailDrained => (
                    503,
                    String::from_str(
                        "cannot generate an unique url, try specifying a larger 'tail_len'\n",
                    ),
                    false,
                ),
                _ => (500, String::new(), true),
            };
            let log = if logged {
                Some(e.message())
            } else {
                None
            };
            Reply { status, body, log }
        },
    }
}

} // verus!
