use webpaste::error::AppError;
use webpaste::store::{
    add_url, cleanup_expired_urls, cleanup_unreachable_files, get_file_by_url, init_db, Store,
};
use webpaste::url_index::UrlEntry;

fn entry(tail: &str, hash: &str, mimetype: &str, expires_at: i64) -> UrlEntry {
    UrlEntry {
        tail: tail.to_string(),
        hash: hash.to_string(),
        mimetype: mimetype.to_string(),
        expires_at,
    }
}

#[test]
fn new_store_is_empty() {
    let store = Store::new();
    assert!(store.url_rows().is_empty());
    assert_eq!(store.blob_ref_count("abc"), 0);
    assert_eq!(get_file_by_url(&store, "abcd"), None);
}

#[test]
fn try_add_url_writes_link_and_reference() {
    let mut store = Store::new();
    assert!(store.try_add_url("abcd", "h1", "text/plain", 100));
    assert_eq!(store.blob_ref_count("h1"), 1);
    assert_eq!(store.url_rows().len(), 1);
    assert_eq!(store.url_rows()[0].tail, "abcd");
    assert_eq!(store.url_rows()[0].hash, "h1");
    assert_eq!(store.url_rows()[0].mimetype, "text/plain");
    assert_eq!(store.url_rows()[0].expires_at, 100);
    assert_eq!(
        get_file_by_url(&store, "abcd"),
        Some(("h1".to_string(), "text/plain".to_string()))
    );
}

#[test]
fn taken_tail_is_refused_and_nothing_changes() {
    let mut store = Store::new();
    assert!(store.try_add_url("abcd", "h1", "text/plain", 100));
    assert!(!store.try_add_url("abcd", "h2", "image/png", 200));
    assert_eq!(store.url_rows().len(), 1);
    assert_eq!(store.blob_ref_count("h1"), 1);
    assert_eq!(store.blob_ref_count("h2"), 0);
    assert_eq!(
        get_file_by_url(&store, "abcd"),
        Some(("h1".to_string(), "text/plain".to_string()))
    );
}

#[test]
fn same_content_twice_shares_one_blob() {
    let mut store = Store::new();
    assert!(store.try_add_url("aaaa", "h1", "text/plain", 100));
    assert!(store.try_add_url("bbbb", "h1", "text/plain", 200));
    assert!(store.try_add_url("cccc", "h2", "text/plain", 300));
    assert_eq!(store.blob_ref_count("h1"), 2);
    assert_eq!(store.blob_ref_count("h2"), 1);
    assert_eq!(get_file_by_url(&store, "aaaa").unwrap().0, "h1");
    assert_eq!(get_file_by_url(&store, "bbbb").unwrap().0, "h1");
}

#[test]
fn add_url_returns_a_fresh_alphabetic_tail() {
    let mut store = Store::new();
    let mut seen: Vec<String> = Vec::new();
    for _ in 0..50 {
        let tail = add_url(&mut store, 16, 6, "h1", "text/plain", 100).unwrap();
        assert_eq!(tail.len(), 6);
        assert!(tail.chars().all(|c| c.is_ascii_alphabetic()));
        assert!(!seen.contains(&tail));
        seen.push(tail);
    }
    assert_eq!(store.blob_ref_count("h1"), 50);
    assert_eq!(store.url_rows().len(), 50);
}

#[test]
fn add_url_without_attempts_is_drained() {
    let mut store = Store::new();
    let r = add_url(&mut store, 0, 4, "h1", "text/plain", 100);
    assert!(matches!(r, Err(AppError::TailDrained)));
    assert!(store.url_rows().is_empty());
    assert_eq!(store.blob_ref_count("h1"), 0);
}

#[test]
fn add_url_drains_when_every_tail_is_taken() {
    let mut store = Store::new();
    // The only tail of length zero is the empty one.
    let first = add_url(&mut store, 16, 0, "h1", "text/plain", 100).unwrap();
    assert_eq!(first, "");
    let second = add_url(&mut store, 16, 0, "h1", "text/plain", 100);
    assert!(matches!(second, Err(AppError::TailDrained)));
    assert_eq!(store.blob_ref_count("h1"), 1);
    assert_eq!(store.url_rows().len(), 1);
}

#[test]
fn add_url_fills_a_small_space_without_duplicates() {
    let mut store = Store::new();
    let mut ok = 0;
    for _ in 0..2000 {
        if add_url(&mut store, 16, 1, "h1", "text/plain", 100).is_ok() {
            ok += 1;
        }
    }
    assert!(ok <= 52);
    assert_eq!(store.url_rows().len(), ok);
    assert_eq!(store.blob_ref_count("h1"), ok as u64);
    let rows = store.url_rows();
    for i in 0..rows.len() {
        for j in (i + 1)..rows.len() {
            assert_ne!(rows[i].tail, rows[j].tail);
        }
    }
}

#[test]
fn sweep_removes_expired_links_and_their_references() {
    let mut store = Store::new();
    assert!(store.try_add_url("aaaa", "h1", "text/plain", 100));
    assert!(store.try_add_url("bbbb", "h1", "text/plain", 200));
    assert!(store.try_add_url("cccc", "h2", "image/png", 100));
    assert!(store.try_add_url("dddd", "h3", "image/png", 300));

    let touched = cleanup_expired_urls(&mut store, 100);
    assert_eq!(touched.len(), 2);
    assert_eq!(touched[0].hash, "h1");
    assert_eq!(touched[0].ref_count, 1);
    assert_eq!(touched[1].hash, "h2");
    assert_eq!(touched[1].ref_count, 0);

    assert_eq!(get_file_by_url(&store, "aaaa"), None);
    assert_eq!(get_file_by_url(&store, "cccc"), None);
    assert_eq!(get_file_by_url(&store, "bbbb").unwrap().0, "h1");
    assert_eq!(get_file_by_url(&store, "dddd").unwrap().0, "h3");
    assert_eq!(store.blob_ref_count("h1"), 1);
    assert_eq!(store.blob_ref_count("h2"), 0);
    assert_eq!(store.blob_ref_count("h3"), 1);
    assert_eq!(store.url_rows().len(), 2);
    assert_eq!(store.url_rows()[0].tail, "bbbb");
    assert_eq!(store.url_rows()[1].tail, "dddd");
}

#[test]
fn sweep_before_any_expiry_touches_nothing() {
    let mut store = Store::new();
    assert!(store.try_add_url("aaaa", "h1", "text/plain", 100));
    let touched = cleanup_expired_urls(&mut store, 99);
    assert!(touched.is_empty());
    assert_eq!(store.blob_ref_count("h1"), 1);
    assert_eq!(store.url_rows().len(), 1);
}

#[test]
fn sweep_takes_every_expired_reference_of_a_blob_at_once() {
    let mut store = Store::new();
    assert!(store.try_add_url("aaaa", "h1", "text/plain", 10));
    assert!(store.try_add_url("bbbb", "h1", "text/plain", 20));
    assert!(store.try_add_url("cccc", "h1", "text/plain", 30));
    assert!(store.try_add_url("dddd", "h1", "text/plain", 40));
    let touched = cleanup_expired_urls(&mut store, 30);
    assert_eq!(touched.len(), 1);
    assert_eq!(touched[0].hash, "h1");
    assert_eq!(touched[0].ref_count, 1);
    assert_eq!(store.blob_ref_count("h1"), 1);
    let touched = cleanup_expired_urls(&mut store, i64::MAX);
    assert_eq!(touched.len(), 1);
    assert_eq!(touched[0].ref_count, 0);
    assert_eq!(store.blob_ref_count("h1"), 0);
    assert!(store.url_rows().is_empty());
}

#[test]
fn expired_tail_can_be_taken_again() {
    let mut store = Store::new();
    assert!(store.try_add_url("aaaa", "h1", "text/plain", 10));
    cleanup_expired_urls(&mut store, 10);
    assert!(store.try_add_url("aaaa", "h2", "image/png", 50));
    assert_eq!(
        get_file_by_url(&store, "aaaa"),
        Some(("h2".to_string(), "image/png".to_string()))
    );
}

#[test]
fn orphan_sweep_picks_only_unreferenced_names() {
    let mut store = Store::new();
    assert!(store.try_add_url("aaaa", "h1", "text/plain", 100));
    assert!(store.try_add_url("bbbb", "h2", "text/plain", 100));
    let names = vec![
        "zz".to_string(),
        "h1".to_string(),
        "yy".to_string(),
        "h2".to_string(),
        "zz".to_string(),
    ];
    let orphans = cleanup_unreachable_files(&store, &names);
    assert_eq!(orphans, vec!["zz".to_string(), "yy".to_string(), "zz".to_string()]);
    assert_eq!(store.url_rows().len(), 2);

    cleanup_expired_urls(&mut store, 100);
    let orphans = cleanup_unreachable_files(&store, &names);
    assert_eq!(orphans, names);
}

#[test]
fn orphan_sweep_of_an_empty_directory() {
    let store = Store::new();
    let names: Vec<String> = Vec::new();
    assert!(cleanup_unreachable_files(&store, &names).is_empty());
}

#[test]
fn init_db_counts_references_anew() {
    let rows = vec![
        entry("aaaa", "h1", "text/plain", 100),
        entry("bbbb", "h2", "image/png", 200),
        entry("cccc", "h1", "text/plain", 300),
    ];
    let store = init_db(rows).unwrap();
    assert_eq!(store.url_rows().len(), 3);
    assert_eq!(store.url_rows()[2].tail, "cccc");
    assert_eq!(store.blob_ref_count("h1"), 2);
    assert_eq!(store.blob_ref_count("h2"), 1);
    assert_eq!(
        get_file_by_url(&store, "bbbb"),
        Some(("h2".to_string(), "image/png".to_string()))
    );
}

#[test]
fn init_db_without_rows_is_the_empty_store() {
    let store = init_db(Vec::new()).unwrap();
    assert!(store.url_rows().is_empty());
}

#[test]
fn init_db_refuses_a_tail_held_twice() {
    let rows = vec![
        entry("aaaa", "h1", "text/plain", 100),
        entry("aaaa", "h2", "image/png", 200),
    ];
    assert!(matches!(init_db(rows), Err(AppError::Sqlite(_))));
}

#[test]
fn blob_rows_list_each_blob_once_with_its_count() {
    let mut store = Store::new();
    assert!(store.blob_rows().is_empty());
    assert!(store.try_add_url("aaaa", "h1", "text/plain", 100));
    assert!(store.try_add_url("bbbb", "h2", "text/plain", 100));
    assert!(store.try_add_url("cccc", "h1", "text/plain", 200));
    let rows = store.blob_rows();
    assert_eq!(rows.len(), 2);
    assert_eq!((rows[0].hash.as_str(), rows[0].ref_count), ("h1", 2));
    assert_eq!((rows[1].hash.as_str(), rows[1].ref_count), ("h2", 1));
    cleanup_expired_urls(&mut store, 100);
    let rows = store.blob_rows();
    assert_eq!(rows.len(), 1);
    assert_eq!((rows[0].hash.as_str(), rows[0].ref_count), ("h1", 1));
}
