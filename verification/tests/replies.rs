use webpaste::access::handle_access;
use webpaste::digest::file_hash;
use webpaste::error::{AppError, RequestFailure};
use webpaste::mime::{append_charset, guess_mime, needs_charset};
use webpaste::text::decimal_text;
use webpaste::upload::handle_upload;

#[test]
fn link_is_answered_on_success() {
    let reply = handle_upload("http://127.0.0.1:3000", Ok("aBcD".to_string()));
    assert_eq!(reply.status, 200);
    assert_eq!(reply.body, "http://127.0.0.1:3000/aBcD\n");
    assert_eq!(reply.log, None);
}

#[test]
fn client_errors_come_with_a_hint() {
    let reply = handle_upload("b", Err(AppError::NoFileUploaded));
    assert_eq!((reply.status, reply.body.as_str()), (400, "no 'file' or 'url' specified\n"));
    assert_eq!(reply.log, None);

    let reply = handle_upload("b", Err(AppError::FieldHasNoName));
    assert_eq!((reply.status, reply.body.as_str()), (400, ""));

    let reply = handle_upload("b", Err(AppError::LenParseError("bad number".to_string())));
    assert_eq!((reply.status, reply.body.as_str()), (400, "bad number"));
    assert_eq!(reply.log, None);

    let reply = handle_upload("b", Err(AppError::ExpiresParseError("bad date".to_string())));
    assert_eq!((reply.status, reply.body.as_str()), (400, "bad date"));
    assert_eq!(reply.log, None);

    let reply = handle_upload("b", Err(AppError::FileTooLarge));
    assert_eq!((reply.status, reply.body.as_str()), (413, ""));

    let reply = handle_upload("b", Err(AppError::TailDrained));
    assert_eq!(reply.status, 503);
    assert_eq!(
        reply.body,
        "cannot generate an unique url, try specifying a larger 'tail_len'\n"
    );
    assert_eq!(reply.log, None);

    let reply = handle_upload("b", Err(AppError::Multipart(422)));
    assert_eq!((reply.status, reply.body.as_str()), (422, ""));
    assert_eq!(reply.log, None);
    let reply = handle_upload("b", Err(AppError::Multipart(500)));
    assert_eq!(reply.status, 500);
    assert_eq!(reply.log, None);
}

#[test]
fn fetch_failures_are_answered_by_kind() {
    let reply = handle_upload("b", Err(AppError::RequestError(RequestFailure::InvalidUrl)));
    assert_eq!((reply.status, reply.body.as_str()), (400, "url is invalid\n"));
    let reply = handle_upload("b", Err(AppError::RequestError(RequestFailure::ResponseTooLarge)));
    assert_eq!((reply.status, reply.body.as_str()), (400, "response too large\n"));
    let reply = handle_upload("b", Err(AppError::RequestError(RequestFailure::RequestTimeout)));
    assert_eq!((reply.status, reply.body.as_str()), (503, "request timeout\n"));
    let reply = handle_upload(
        "b",
        Err(AppError::RequestError(RequestFailure::NonSuccessfulStatusCode(404))),
    );
    assert_eq!(
        (reply.status, reply.body.as_str()),
        (503, "request failed with status code 404\n")
    );
    assert_eq!(reply.log, None);
    let reply = handle_upload(
        "b",
        Err(AppError::RequestError(RequestFailure::Other("tls".to_string()))),
    );
    assert_eq!((reply.status, reply.body.as_str()), (500, ""));
    assert_eq!(reply.log, Some("request error: tls".to_string()));
}

#[test]
fn own_failures_are_logged_and_hidden() {
    for (error, line) in [
        (AppError::Pool("closed".to_string()), "database connection pool error: closed"),
        (AppError::Interaction("panicked".to_string()), "database interaction error: panicked"),
        (AppError::Sqlite("locked".to_string()), "sqlite error: locked"),
        (AppError::IO("disk full".to_string()), "io error: disk full"),
        (AppError::MagicError("no database".to_string()), "magic error: no database"),
        (AppError::ConfigParseError("bad".to_string()), "bad"),
        (AppError::TailNotFound, "tail not found"),
    ] {
        let reply = handle_upload("b", Err(error));
        assert_eq!((reply.status, reply.body.as_str()), (500, ""));
        assert_eq!(reply.log, Some(line.to_string()));
    }
}

#[test]
fn error_messages() {
    assert_eq!(AppError::NoFileUploaded.message(), "no file uploaded");
    assert_eq!(AppError::FieldHasNoName.message(), "field has no name");
    assert_eq!(AppError::FileTooLarge.message(), "file too large");
    assert_eq!(AppError::TailDrained.message(), "tail drained");
    assert_eq!(AppError::Multipart(400).message(), "multipart error");
    assert_eq!(AppError::LenParseError("x".to_string()).message(), "x");
    assert_eq!(AppError::ExpiresParseError("y".to_string()).message(), "y");
    assert_eq!(
        AppError::RequestError(RequestFailure::RequestTimeout).message(),
        "request error: Request is not finished within timeout"
    );
    assert_eq!(RequestFailure::InvalidUrl.message(), "Invalid URL");
    assert_eq!(
        RequestFailure::ResponseTooLarge.message(),
        "Response body size exceeds max limit"
    );
    assert_eq!(
        RequestFailure::NonSuccessfulStatusCode(502).message(),
        "Non-successful status code: 502"
    );
    assert_eq!(RequestFailure::Other("reset".to_string()).message(), "reset");
}

#[test]
fn numbers_in_decimal() {
    assert_eq!(decimal_text(0), "0");
    assert_eq!(decimal_text(7), "7");
    assert_eq!(decimal_text(10), "10");
    assert_eq!(decimal_text(404), "404");
    assert_eq!(decimal_text(65535), "65535");
}

#[test]
fn access_is_answered() {
    let served = handle_access(Ok((b"hello".to_vec(), "text/plain".to_string())));
    assert_eq!(served.status, 200);
    assert_eq!(served.content_type, Some("text/plain".to_string()));
    assert_eq!(served.body, b"hello".to_vec());
    assert_eq!(served.log, None);

    let served = handle_access(Err(AppError::TailNotFound));
    assert_eq!(served.status, 404);
    assert_eq!(served.content_type, None);
    assert!(served.body.is_empty());
    assert_eq!(served.log, None);

    let served = handle_access(Err(AppError::IO("gone".to_string())));
    assert_eq!(served.status, 500);
    assert_eq!(served.content_type, None);
    assert!(served.body.is_empty());
    assert_eq!(served.log, Some("io error: gone".to_string()));
}

#[test]
fn content_is_named_by_its_sha256_in_hex() {
    assert_eq!(
        file_hash(b"hello"),
        "2cf24dba5fb0a30e26e83b2ac5b9e29e1b161e5c1fa7425e73043362938b9824"
    );
    assert_eq!(
        file_hash(b""),
        "e3b0c44298fc1c149afbf4c8996fb92427ae41e4649b934ca495991b7852b855"
    );
    assert_eq!(file_hash(&[0u8, 255u8]).len(), 64);
    assert_ne!(file_hash(b"hello"), file_hash(b"hellp"));
}

#[test]
fn plain_text_gets_a_character_set() {
    assert!(needs_charset(&"text/plain".to_string()));
    assert!(!needs_charset(&"text/html".to_string()));
    assert!(!needs_charset(&"text/plain; charset=UTF-8".to_string()));
    assert_eq!(
        append_charset("text/plain".to_string(), "UTF-8"),
        "text/plain; charset=UTF-8"
    );
    assert_eq!(guess_mime(b"hello").unwrap(), "text/plain; charset=UTF-8");
    assert_eq!(
        guess_mime("gr\u{00fc}\u{00df}e aus k\u{00f6}ln".as_bytes()).unwrap(),
        "text/plain; charset=UTF-8"
    );
    let latin1: Vec<u8> = b"cr\xe8me br\xfbl\xe9e, s'il vous pla\xeet. Tr\xe8s bien, \xe0 bient\xf4t."
        .to_vec();
    let guessed = guess_mime(&latin1).unwrap();
    assert!(guessed.starts_with("text/plain; charset="));
    assert_ne!(guessed, "text/plain; charset=UTF-8");
}

#[test]
fn other_content_keeps_its_sniffed_type() {
    let png: Vec<u8> = vec![
        0x89, b'P', b'N', b'G', 0x0d, 0x0a, 0x1a, 0x0a, 0, 0, 0, 0x0d, b'I', b'H', b'D', b'R', 0,
        0, 0, 1, 0, 0, 0, 1, 8, 6, 0, 0, 0, 0x1f, 0x15, 0xc4, 0x89,
    ];
    assert_eq!(guess_mime(&png).unwrap(), "image/png");
}
