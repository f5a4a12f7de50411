use webpaste::access::get_file;
use webpaste::cleanup::{cleanup_files, cleanup_urls, cleanup_urls_at};
use webpaste::config::Config;
use webpaste::error::AppError;
use webpaste::service::{conf, Service};
use webpaste::store::Store;
use webpaste::upload::{upload, upload_at, FieldAction, UploadForm};
use webpaste::utils::{get_full_path, path_in};

const HELLO_SHA256: &str = "2cf24dba5fb0a30e26e83b2ac5b9e29e1b161e5c1fa7425e73043362938b9824";

fn service() -> Service {
    Service::new(Config::default(), Store::new()).unwrap()
}

fn form_with(data: &[u8], tail_len: usize, expires: Option<&str>) -> UploadForm {
    let mut form = UploadForm::new(tail_len);
    form.accept_data(data.to_vec());
    if let Some(text) = expires {
        form.accept_expires(text.to_string());
    }
    form
}

#[test]
fn hello_is_stored_served_shared_and_swept() {
    let mut service = service();
    let now: i64 = 1_700_000_000;

    let form = form_with(b"hello", conf(&service).default_tail_len, None);
    let first = upload_at(&mut service, form, now).unwrap();
    assert_eq!(first.tail.len(), 4);
    assert!(first.tail.chars().all(|c| c.is_ascii_alphabetic()));
    assert_eq!(first.file_sha256sum, HELLO_SHA256);
    assert_eq!(first.data, b"hello".to_vec());
    assert_eq!(service.store_ref().blob_ref_count(HELLO_SHA256), 1);
    {
        let rows = service.store_ref().url_rows();
        assert_eq!(rows.len(), 1);
        assert_eq!(rows[0].tail, first.tail);
        assert_eq!(rows[0].hash, HELLO_SHA256);
        assert_eq!(rows[0].expires_at, now + 31_535_999);
        assert_eq!(rows[0].mimetype, "text/plain; charset=UTF-8");
    }

    let found = get_file(&service, &first.tail).unwrap();
    assert_eq!(found.file_sha256sum, HELLO_SHA256);
    assert_eq!(found.path, format!("./uploads/{}", HELLO_SHA256));
    assert_eq!(found.mimetype, "text/plain; charset=UTF-8");

    let form = form_with(b"hello", conf(&service).default_tail_len, None);
    let second = upload_at(&mut service, form, now + 1).unwrap();
    assert_ne!(second.tail, first.tail);
    assert_eq!(second.file_sha256sum, HELLO_SHA256);
    assert_eq!(service.store_ref().blob_ref_count(HELLO_SHA256), 2);
    assert_eq!(service.store_ref().url_rows().len(), 2);

    // Not yet expired: a sweep at the last second before the first expiry.
    let sweep = cleanup_urls_at(&mut service, now + 31_535_998);
    assert!(sweep.touched.is_empty());
    assert!(sweep.doomed.is_empty());
    assert_eq!(service.store_ref().blob_ref_count(HELLO_SHA256), 2);

    // While referenced, the orphan sweep leaves the file alone.
    let names = vec![HELLO_SHA256.to_string(), "stray".to_string()];
    assert_eq!(cleanup_files(&service, &names), vec!["./uploads/stray".to_string()]);

    let sweep = cleanup_urls_at(&mut service, now + 31_536_000);
    assert_eq!(sweep.touched.len(), 1);
    assert_eq!(sweep.touched[0].hash, HELLO_SHA256);
    assert_eq!(sweep.touched[0].ref_count, 0);
    assert_eq!(sweep.doomed, vec![format!("./uploads/{}", HELLO_SHA256)]);
    assert!(service.store_ref().url_rows().is_empty());
    assert_eq!(service.store_ref().blob_ref_count(HELLO_SHA256), 0);
    assert!(matches!(get_file(&service, &first.tail), Err(AppError::TailNotFound)));
    assert!(matches!(get_file(&service, &second.tail), Err(AppError::TailNotFound)));

    // Had the file survived, the orphan sweep would take it now.
    assert_eq!(
        cleanup_files(&service, &names),
        vec![format!("./uploads/{}", HELLO_SHA256), "./uploads/stray".to_string()]
    );
}

#[test]
fn first_expiry_alone_leaves_the_blob() {
    let mut service = service();
    let a = upload_at(&mut service, form_with(b"hello", 4, Some("100")), 10).unwrap();
    let b = upload_at(&mut service, form_with(b"hello", 4, Some("200")), 10).unwrap();
    let sweep = cleanup_urls_at(&mut service, 150);
    assert_eq!(sweep.touched.len(), 1);
    assert_eq!(sweep.touched[0].ref_count, 1);
    assert!(sweep.doomed.is_empty());
    assert!(matches!(get_file(&service, &a.tail), Err(AppError::TailNotFound)));
    assert!(get_file(&service, &b.tail).is_ok());
    assert_eq!(service.store_ref().blob_ref_count(HELLO_SHA256), 1);
}

#[test]
fn explicit_expiry_overrides_retention() {
    let mut service = service();
    let stored = upload_at(&mut service, form_with(b"hello", 4, Some("12345")), 1_000).unwrap();
    assert_eq!(service.store_ref().url_rows()[0].tail, stored.tail);
    assert_eq!(service.store_ref().url_rows()[0].expires_at, 12_345);

    let mut service = self::service();
    upload_at(&mut service, form_with(b"hello", 4, Some("2h 30min")), 1_000).unwrap();
    assert_eq!(service.store_ref().url_rows()[0].expires_at, 1_000 + 9_000);
}

#[test]
fn asked_tail_length_is_kept() {
    let mut service = service();
    let stored = upload_at(&mut service, form_with(b"some text", 12, None), 0).unwrap();
    assert_eq!(stored.tail.len(), 12);
    assert!(stored.tail.chars().all(|c| c.is_ascii_alphabetic()));
}

#[test]
fn upload_without_content_is_refused() {
    let mut service = service();
    let form = UploadForm::new(4);
    assert!(matches!(upload_at(&mut service, form, 0), Err(AppError::NoFileUploaded)));
    assert!(service.store_ref().url_rows().is_empty());
}

#[test]
fn upload_with_bad_expiry_is_refused() {
    let mut service = service();
    let r = upload_at(&mut service, form_with(b"hello", 4, Some("soon")), 0);
    assert!(matches!(r, Err(AppError::ExpiresParseError(_))));
    assert!(service.store_ref().url_rows().is_empty());
    assert_eq!(service.store_ref().blob_ref_count(HELLO_SHA256), 0);
}

#[test]
fn oversized_upload_is_refused_before_the_store_is_touched() {
    let mut config = Config::default();
    config.max_file_size = 4;
    let mut service = Service::new(config, Store::new()).unwrap();
    let r = upload_at(&mut service, form_with(b"hello", 4, None), 0);
    assert!(matches!(r, Err(AppError::FileTooLarge)));
    assert!(service.store_ref().url_rows().is_empty());
    assert_eq!(service.store_ref().blob_ref_count(HELLO_SHA256), 0);

    // A bad expiry is reported before the size.
    let r = upload_at(&mut service, form_with(b"hello", 4, Some("soon")), 0);
    assert!(matches!(r, Err(AppError::ExpiresParseError(_))));

    // Content exactly at the ceiling is taken, for the shortest retention.
    let stored = upload_at(&mut service, form_with(b"hell", 4, None), 7).unwrap();
    assert_eq!(stored.data, b"hell".to_vec());
    assert_eq!(service.store_ref().url_rows()[0].expires_at, 7 + 2_592_000);
}

#[test]
fn drained_tail_space_is_reported_and_leaves_the_store() {
    let mut service = service();
    let first = upload_at(&mut service, form_with(b"hello", 0, None), 0).unwrap();
    assert_eq!(first.tail, "");
    let second = upload_at(&mut service, form_with(b"hello", 0, None), 0);
    assert!(matches!(second, Err(AppError::TailDrained)));
    assert_eq!(service.store_ref().blob_ref_count(HELLO_SHA256), 1);
    assert_eq!(service.store_ref().url_rows().len(), 1);
}

#[test]
fn absurd_tail_length_is_refused() {
    let mut service = service();
    let r = upload_at(&mut service, form_with(b"hello", usize::MAX, None), 0);
    assert!(matches!(r, Err(AppError::Interaction(_))));
    assert!(service.store_ref().url_rows().is_empty());
}

#[test]
fn expiry_beyond_the_last_second_is_refused() {
    let mut service = service();
    let r = upload_at(&mut service, form_with(b"hello", 4, None), i64::MAX - 10);
    assert!(matches!(r, Err(AppError::ExpiresParseError(_))));
    let r = upload_at(&mut service, form_with(b"hello", 4, Some("1h")), i64::MAX - 10);
    assert!(matches!(r, Err(AppError::ExpiresParseError(_))));
}

#[test]
fn service_refuses_settings_outside_the_curve() {
    let mut config = Config::default();
    config.max_file_size = 0;
    assert!(matches!(
        Service::new(config, Store::new()),
        Err(AppError::ConfigParseError(_))
    ));
}

#[test]
fn form_takes_first_content_first_expiry_last_length() {
    let mut form = UploadForm::new(4);
    assert!(matches!(form.next_field(None), Err(AppError::FieldHasNoName)));
    assert_eq!(form.next_field(Some("file")).unwrap(), FieldAction::ReadFile);
    assert_eq!(form.next_field(Some("url")).unwrap(), FieldAction::FetchUrl);
    assert_eq!(form.next_field(Some("tail_len")).unwrap(), FieldAction::ReadTailLen);
    assert_eq!(form.next_field(Some("expires")).unwrap(), FieldAction::ReadExpires);
    assert_eq!(form.next_field(Some("comment")).unwrap(), FieldAction::Skip);
    assert_eq!(form.next_field(Some("")).unwrap(), FieldAction::Skip);
    assert_eq!(form.next_field(Some("File")).unwrap(), FieldAction::Skip);

    form.accept_data(b"one".to_vec());
    assert_eq!(form.next_field(Some("file")).unwrap(), FieldAction::Skip);
    assert_eq!(form.next_field(Some("url")).unwrap(), FieldAction::Skip);
    form.accept_data(b"two".to_vec());
    assert_eq!(form.data, Some(b"one".to_vec()));

    form.accept_expires("1h".to_string());
    assert_eq!(form.next_field(Some("expires")).unwrap(), FieldAction::Skip);
    form.accept_expires("2h".to_string());
    assert_eq!(form.expires, Some("1h".to_string()));

    assert!(form.accept_tail_len("6").is_ok());
    assert_eq!(form.next_field(Some("tail_len")).unwrap(), FieldAction::ReadTailLen);
    assert!(form.accept_tail_len("+9").is_ok());
    assert_eq!(form.tail_len, 9);
    match form.accept_tail_len("nine") {
        Err(AppError::LenParseError(m)) => assert_eq!(m, "invalid digit found in string"),
        other => panic!("unexpected: {:?}", other),
    }
    assert_eq!(form.tail_len, 9);

    let config = Config::default();
    let (data, tail_len, expires_at) = form.finish(&config, 50).unwrap();
    assert_eq!(data, b"one".to_vec());
    assert_eq!(tail_len, 9);
    assert_eq!(expires_at, 50 + 3_600);
}

#[test]
fn paths_are_joined_with_one_slash() {
    assert_eq!(path_in("./uploads", "abc"), "./uploads/abc");
    assert_eq!(path_in("", "abc"), "/abc");
    assert_eq!(path_in("/srv/files/", "abc"), "/srv/files//abc");
    let mut config = Config::default();
    config.upload_file_dir = "/var/paste".to_string();
    let service = Service::new(config, Store::new()).unwrap();
    assert_eq!(get_full_path(&service, "deadbeef"), "/var/paste/deadbeef");
    assert_eq!(conf(&service).upload_file_dir, "/var/paste");
}

#[test]
fn upload_counts_retention_from_the_clock() {
    let before = std::time::SystemTime::now()
        .duration_since(std::time::UNIX_EPOCH)
        .unwrap()
        .as_secs() as i64;
    let mut service = service();
    let stored = upload(&mut service, form_with(b"hello", 4, None)).unwrap();
    let after = std::time::SystemTime::now()
        .duration_since(std::time::UNIX_EPOCH)
        .unwrap()
        .as_secs() as i64;
    assert_eq!(stored.file_sha256sum, HELLO_SHA256);
    let expires_at = service.store_ref().url_rows()[0].expires_at;
    assert!(before + 31_535_999 <= expires_at && expires_at <= after + 31_535_999);

    upload(&mut service, form_with(b"hello", 4, Some("1h"))).unwrap();
    let expires_at = service.store_ref().url_rows()[1].expires_at;
    assert!(before + 3_600 <= expires_at && expires_at <= after + 3_600);
}

#[test]
fn sweep_at_the_clock_takes_what_has_expired_by_now() {
    let mut service = service();
    let past = upload(&mut service, form_with(b"hello", 4, Some("1000000000"))).unwrap();
    let future = upload(&mut service, form_with(b"hello", 4, Some("1h"))).unwrap();
    let sweep = cleanup_urls(&mut service);
    assert_eq!(sweep.touched.len(), 1);
    assert_eq!(sweep.touched[0].hash, HELLO_SHA256);
    assert_eq!(sweep.touched[0].ref_count, 1);
    assert!(sweep.doomed.is_empty());
    assert!(matches!(get_file(&service, &past.tail), Err(AppError::TailNotFound)));
    assert!(get_file(&service, &future.tail).is_ok());
}
