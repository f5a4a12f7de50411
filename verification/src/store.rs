//! The store: the blob table and the link index, changed only together.
use vstd::prelude::*;
use vstd::string::*;
use crate::blob_store::{
    blobs_wf, deref_many, find_blob, gone, has_blob, hashes_distinct, lemma_recorded_at,
    put_or_ref, recorded, Blob,
};
use crate::error::AppError;
use crate::tail::{allocate_tail, is_tail};
use crate::url_index::{
    expired, find_tail, has_tail, lemma_live_distinct, lemma_refs_bound, lemma_refs_push,
    lemma_sweep_splits_refs, length_in_use, live, new_row, refs, resolves_to, rows_of,
    sweep_expired, tails_distinct, UrlEntry, UrlRow,
};

verus! {

/// The texts of a vector of strings, in the same order.
pub open spec fn texts_of(strings: Seq<String>) -> Seq<Seq<char>> {
    strings.map_values(|s: String| s@)
}

/// The blob store and the link index, kept consistent with each other.
pub struct Store {
    blobs: Vec<Blob>,
    urls: Vec<UrlEntry>,
}

impl Store {
    /// The rows of the link index, oldest first.
    pub closed spec fn urls(&self) -> Seq<UrlRow> {
        rows_of(self.urls@)
    }

    /// The reference count of the blob `hash`; zero when the store holds no
    /// such blob.
    pub closed spec fn ref_count(&self, hash: Seq<char>) -> nat {
        recorded(self.blobs@, hash)
    }

    /// The store is consistent: tails are unique, hashes are unique, and
    /// each blob's count is the number of links that point at it, so that a
    /// blob exists exactly while some link points at it.
    pub closed spec fn wf(&self) -> bool {
        &&& blobs_wf(self.blobs@)
        &&& tails_distinct(rows_of(self.urls@))
        &&& forall|h: Seq<char>| #[trigger]
            recorded(self.blobs@, h) == refs(rows_of(self.urls@), h)
    }

    /// The store holds a row for the blob `hash`.
    pub closed spec fn holds_blob(&self, hash: Seq<char>) -> bool {
        has_blob(self.blobs@, hash)
    }

    /// A blob has a row exactly while its count is not zero, that is while
    /// some link points at it.
    pub proof fn lemma_blob_lives_while_referenced(self, hash: Seq<char>)
        requires
            self.wf(),
        ensures
            self.holds_blob(hash) <==> self.ref_count(hash) > 0,
            self.holds_blob(hash) <==> refs(self.urls(), hash) > 0,
    {
        assert(recorded(self.blobs@, hash) == refs(rows_of(self.urls@), hash));
        if has_blob(self.blobs@, hash) {
            let i = choose|i: int|
                0 <= i < self.blobs@.len() && (#[trigger] self.blobs@[i]).hash@ == hash;
            lemma_recorded_at(self.blobs@, i);
        }
    }

    /// A blob's count is the number of links that point at it.
    pub proof fn lemma_ref_count_counts_links(self, hash: Seq<char>)
        requires
            self.wf(),
        ensures
            self.ref_count(hash) == refs(self.urls(), hash),
    {
    }

    /// No tail is in the index twice.
    pub proof fn lemma_tails_unique(self)
        requires
            self.wf(),
        ensures
            tails_distinct(self.urls()),
    {
    }

    /// A store without blobs or links.
    pub fn new() -> (store: Store)
        ensures
            store.wf(),
            store.urls() == Seq::<UrlRow>::empty(),
    {
        let store = Store { blobs: Vec::new(), urls: Vec::new() };
        proof {
            assert(rows_of(store.urls@) =~= Seq::<UrlRow>::empty());
            assert forall|h: Seq<char>| #[trigger]
                recorded(store.blobs@, h) == refs(rows_of(store.urls@), h) by {
                lemma_refs_bound(rows_of(store.urls@), h);
            }
        }
        store
    }

    /// The rows of the link index, oldest first.
    pub fn url_rows(&self) -> (rows: &Vec<UrlEntry>)
        ensures
            rows_of(rows@) == self.urls(),
    {
        &self.urls
    }

    /// The rows of the blob table: each blob the store holds, once, with
    /// its reference count.
    pub fn blob_rows(&self) -> (rows: &Vec<Blob>)
        requires
            self.wf(),
        ensures
            hashes_distinct(rows@),
            forall|i: int|
                0 <= i < rows.len() ==> (#[trigger] rows[i]).ref_count == self.ref_count(
                    rows[i].hash@,
                ) && rows[i].ref_count >= 1,
            forall|h: Seq<char>| self.ref_count(h) > 0 ==> #[trigger] has_blob(rows@, h),
    {
        proof {
            let blobs = self.blobs@;
            assert forall|i: int| 0 <= i < blobs.len() implies (#[trigger] blobs[i]).ref_count
                == recorded(blobs, blobs[i].hash@) by {
                lemma_recorded_at(blobs, i);
            }
        }
        &self.blobs
    }

    /// The reference count of the blob `hash`; zero when the store holds no
    /// such blob.
    pub fn blob_ref_count(&self, hash: &str) -> (count: u64)
        requires
            self.wf(),
        ensures
            count == self.ref_count(hash@),
    {
        let hash = hash.to_owned();
        match find_blob(&self.blobs, &hash) {
            Some(i) => {
                proof {
                    lemma_recorded_at(self.blobs@, i as int);
                }
                self.blobs[i].ref_count
            },
            None => 0,
        }
    }

    /// Writes the link `tail` for the blob `hash` and takes a reference on
    /// the blob.
    fn insert_url(&mut self, tail: String, hash: &str, mimetype: &str, expires_at: i64)
        requires
            old(self).wf(),
            !has_tail(old(self).urls(), tail@),
        ensures
            final(self).wf(),
            final(self).urls() == old(self).urls().push(
                new_row(tail@, hash@, mimetype@, expires_at as int),
            ),
    {
        let hash = hash.to_owned();
        let ghost rows = rows_of(self.urls@);
        let ghost row = new_row(tail@, hash@, mimetype@, expires_at as int);
        self.urls.push(
            UrlEntry { tail, hash: hash.clone(), mimetype: mimetype.to_owned(), expires_at },
        );
        // The links are counted in a word, and no blob has more references
        // than there are links: the count below cannot overflow.
        let links: usize = self.urls.len();
        proof {
            assert(rows_of(self.urls@) =~= rows.push(row));
            assert(rows.len() < links);
            lemma_refs_bound(rows, hash@);
        }
        put_or_ref(&mut self.blobs, &hash);
        proof {
            assert forall|h: Seq<char>| #[trigger]
                recorded(self.blobs@, h) == refs(rows_of(self.urls@), h) by {
                lemma_refs_push(rows, row, h);
            }
            let grown = rows.push(row);
            assert forall|i: int, j: int| 0 <= i < j < grown.len() implies (
            #[trigger] grown[i]).tail != (#[trigger] grown[j]).tail by {
                assert(grown[i] == rows[i]);
                if j < rows.len() {
                    assert(grown[j] == rows[j]);
                }
            }
        }
    }

    /// Writes the link `candidate` for the blob `hash` unless the tail is
    /// taken: the test and both writes are one step. Tells whether the link
    /// was written.
    pub fn try_add_url(
        &mut self,
        candidate: &str,
        hash: &str,
        mimetype: &str,
        expires_at: i64,
    ) -> (added: bool)
        requires
            old(self).wf(),
        ensures
            final(self).wf(),
            added == !has_tail(old(self).urls(), candidate@),
            added ==> final(self).urls() == old(self).urls().push(
                new_row(candidate@, hash@, mimetype@, expires_at as int),
            ),
            !added ==> *final(self) == *old(self),
    {
        let tail = candidate.to_owned();
        if let Some(i) = find_tail(&self.urls, &tail) {
            assert(rows_of(self.urls@)[i as int].tail == tail@);
            return false;
        }
        self.insert_url(tail, hash, mimetype, expires_at);
        true
    }
}

/// `touched` accounts for the step that took the store from `before` to
/// `after`: it lists, once each and with the count it is left with, every
/// blob that lost references in the step, and no other.
pub open spec fn accounts_for(touched: Seq<Blob>, before: Store, after: Store) -> bool {
    &&& hashes_distinct(touched)
    &&& forall|k: int|
        0 <= k < touched.len() ==> (#[trigger] touched[k]).ref_count == after.ref_count(
            touched[k].hash@,
        ) && touched[k].ref_count < before.ref_count(touched[k].hash@)
    &&& forall|h: Seq<char>|
        after.ref_count(h) != before.ref_count(h) ==> #[trigger] has_blob(touched, h)
}

/// Content stored twice is held once: after two uploads of one blob, with
/// nothing else in between, two different tails resolve to it and its count
/// has grown by two.
pub proof fn lemma_same_content_twice(
    before: Store,
    between: Store,
    after: Store,
    first: UrlRow,
    second: UrlRow,
)
    requires
        before.wf(),
        between.wf(),
        after.wf(),
        first.hash == second.hash,
        between.urls() == before.urls().push(first),
        after.urls() == between.urls().push(second),
    ensures
        first.tail != second.tail,
        resolves_to(after.urls(), first.tail, first.hash, first.mimetype),
        resolves_to(after.urls(), second.tail, first.hash, second.mimetype),
        after.ref_count(first.hash) == before.ref_count(first.hash) + 2,
        after.ref_count(first.hash) == refs(after.urls(), first.hash),
{
    let rows = after.urls();
    let n = before.urls().len() as int;
    assert(rows[n] == first);
    assert(rows[n + 1] == second);
    assert(rows[n].tail != rows[n + 1].tail);
    lemma_refs_push(before.urls(), first, first.hash);
    lemma_refs_push(between.urls(), second, first.hash);
}

/// A sweep names every blob it emptied, and no other, as gone: a blob is
/// among the gone exactly if it had references before the sweep and has
/// none, and with that no row, after it.
pub proof fn lemma_emptied_blobs_are_gone(
    before: Store,
    after: Store,
    touched: Seq<Blob>,
    hash: Seq<char>,
)
    requires
        after.wf(),
        accounts_for(touched, before, after),
    ensures
        gone(touched).contains(hash) <==> before.ref_count(hash) > 0 && after.ref_count(hash) == 0,
        gone(touched).contains(hash) ==> !after.holds_blob(hash),
{
    let dead = |b: Blob| b.ref_count == 0;
    let emptied = touched.filter(dead);
    after.lemma_blob_lives_while_referenced(hash);
    if gone(touched).contains(hash) {
        let k = choose|k: int| 0 <= k < gone(touched).len() && gone(touched)[k] == hash;
        assert(emptied[k].hash@ == hash);
        touched.lemma_filter_pred(dead, k);
        assert(emptied.contains(emptied[k]));
        touched.lemma_filter_contains_rev(dead, emptied[k]);
        let i = choose|i: int| 0 <= i < touched.len() && touched[i] == emptied[k];
        assert(touched[i].ref_count == after.ref_count(touched[i].hash@));
    }
    if before.ref_count(hash) > 0 && after.ref_count(hash) == 0 {
        assert(has_blob(touched, hash));
        let i = choose|i: int| 0 <= i < touched.len() && (#[trigger] touched[i]).hash@ == hash;
        touched.lemma_filter_contains(dead, i);
        let k = choose|k: int| 0 <= k < emptied.len() && emptied[k] == touched[i];
        assert(gone(touched)[k] == hash);
    }
}

/// Opens a store on the link rows `rows`, oldest first, and counts the
/// references of each blob anew. Rows that hold a tail twice are refused.
pub fn init_db(rows: Vec<UrlEntry>) -> (r: Result<Store, AppError>)
    ensures
        r is Ok <==> tails_distinct(rows_of(rows@)),
        r matches Ok(store) ==> store.wf() && store.urls() == rows_of(rows@),
        r matches Err(e) ==> e is Sqlite,
{
    let mut store = Store::new();
    let mut i: usize = 0;
    let ghost all = rows_of(rows@);
    while i < rows.len()
        invariant
            i <= rows.len(),
            all == rows_of(rows@),
            store.wf(),
            store.urls() == all.take(i as int),
        decreases rows.len() - i,
    {
        let e = &rows[i];
        let ghost before = store.urls();
        let added = store.try_add_url(
            e.tail.as_str(),
            e.hash.as_str(),
            e.mimetype.as_str(),
            e.expires_at,
        );
        if !added {
            proof {
                let k = choose|k: int|
                    0 <= k < before.len() && (#[trigger] before[k]).tail == e.tail@;
                assert(all[k] == before[k]);
                assert(all[k].tail == all[i as int].tail);
            }
            return Err(AppError::Sqlite(String::from_str("UNIQUE constraint failed: urls.tail")));
        }
        proof {
            assert(all.take(i + 1) =~= all.take(i as int).push(all[i as int]));
        }
        i += 1;
    }
    proof {
        assert(all.take(rows.len() as int) =~= all);
        store.lemma_tails_unique();
    }
    Ok(store)
}

/// Creates a link of `tail_len` letters to the blob `file_sha256sum` and
/// takes a reference on the blob, as one step. Up to `max_attempts` tails
/// are sampled; the first one that is free is written and returned.
pub fn add_url(
    store: &mut Store,
    max_attempts: usize,
    tail_len: usize,
    file_sha256sum: &str,
    mimetype: &str,
    expires_at: i64,
) -> (r: Result<String, AppError>)
    requires
        old(store).wf(),
        tail_len <= isize::MAX,
    ensures
        final(store).wf(),
        r matches Ok(tail) ==> is_tail(tail@, tail_len as int) && !has_tail(
            old(store).urls(),
            tail@,
        ) && final(store).urls() == old(store).urls().push(
            new_row(tail@, file_sha256sum@, mimetype@, expires_at as int),
        ),
        r matches Err(e) ==> e is TailDrained && *final(store) == *old(store)
            && (max_attempts == 0 || length_in_use(old(store).urls(), tail_len as int)),
        max_attempts == 0 ==> r is Err,
{
    match allocate_tail(&store.urls, tail_len, max_attempts) {
        Ok(tail) => {
            store.insert_url(tail.clone(), file_sha256sum, mimetype, expires_at);
            Ok(tail)
        },
        Err(e) => Err(e),
    }
}

/// Resolves a tail to the hash of its blob and the content type to serve
/// it with.
pub fn get_file_by_url(store: &Store, tail: &str) -> (r: Option<(String, String)>)
    requires
        store.wf(),
    ensures
        r is Some <==> has_tail(store.urls(), tail@),
        r matches Some(found) ==> resolves_to(store.urls(), tail@, found.0@, found.1@),
{
    let tail = tail.to_owned();
    match find_tail(&store.urls, &tail) {
        Some(i) => {
            assert(rows_of(store.urls@)[i as int].tail == tail@);
            Some((store.urls[i].hash.clone(), store.urls[i].mimetype.clone()))
        },
        None => None,
    }
}

/// Removes every link that has expired by `now`, takes the references of
/// the removed links off their blobs, and removes the blobs left without a
/// reference, as one step. Returns each blob that lost links, once, with
/// the count it is left with: the file of a blob left with none can go.
pub fn cleanup_expired_urls(store: &mut Store, now: i64) -> (touched: Vec<Blob>)
    requires
        old(store).wf(),
    ensures
        final(store).wf(),
        final(store).urls() == live(old(store).urls(), now as int),
        forall|h: Seq<char>| #[trigger]
            final(store).ref_count(h) == old(store).ref_count(h) - refs(
                expired(old(store).urls(), now as int),
                h,
            ),
        accounts_for(touched@, *old(store), *final(store)),
{
    let ghost rows = rows_of(store.urls@);
    let ghost blobs = store.blobs@;
    let counts = sweep_expired(&mut store.urls, now);
    proof {
        assert forall|h: Seq<char>| #[trigger] recorded(counts@, h) <= recorded(blobs, h) by {
            lemma_sweep_splits_refs(rows, now as int, h);
            assert(recorded(blobs, h) == refs(rows, h));
        }
    }
    let touched = deref_many(&mut store.blobs, &counts);
    proof {
        lemma_live_distinct(rows, now as int);
        assert forall|h: Seq<char>| #[trigger]
            recorded(store.blobs@, h) == refs(rows_of(store.urls@), h) by {
            lemma_sweep_splits_refs(rows, now as int, h);
            assert(recorded(blobs, h) == refs(rows, h));
            assert(recorded(store.blobs@, h) == recorded(blobs, h) - recorded(counts@, h));
        }
        assert forall|h: Seq<char>| #[trigger]
            recorded(store.blobs@, h) == recorded(blobs, h) - refs(
                expired(rows, now as int),
                h,
            ) by {
            assert(recorded(store.blobs@, h) == recorded(blobs, h) - recorded(counts@, h));
        }
        assert forall|i: int, j: int| 0 <= i < j < touched.len() implies (
        #[trigger] touched[i]).hash@ != (#[trigger] touched[j]).hash@ by {
            assert(counts[i].hash@ != counts[j].hash@);
        }
        assert forall|k: int| 0 <= k < touched.len() implies (#[trigger] touched[k]).ref_count
            == recorded(store.blobs@, touched[k].hash@) && touched[k].ref_count < recorded(
            blobs,
            touched[k].hash@,
        ) by {
            lemma_recorded_at(counts@, k);
            assert(recorded(store.blobs@, counts[k].hash@) == recorded(blobs, counts[k].hash@)
                - recorded(counts@, counts[k].hash@));
        }
        assert forall|h: Seq<char>|
            recorded(store.blobs@, h) != recorded(blobs, h) implies #[trigger] has_blob(
            touched@,
            h,
        ) by {
            assert(recorded(store.blobs@, h) == recorded(blobs, h) - recorded(counts@, h));
            assert(has_blob(counts@, h));
            let k = choose|k: int| 0 <= k < counts@.len() && (#[trigger] counts@[k]).hash@ == h;
            assert(touched[k].hash@ == h);
        }
    }
    touched
}

/// The names among `names` that are no blob of the store.
pub open spec fn unreferenced(store: Store, names: Seq<Seq<char>>) -> Seq<Seq<char>> {
    names.filter(|name: Seq<char>| store.ref_count(name) == 0)
}

/// Picks, among the file names found in the upload directory, the files to
/// delete: those that are no blob of the store. The names come back in the
/// order given.
pub fn cleanup_unreachable_files(store: &Store, names: &Vec<String>) -> (orphans: Vec<String>)
    requires
        store.wf(),
    ensures
        texts_of(orphans@) == unreferenced(*store, texts_of(names@)),
        forall|k: int|
            0 <= k < orphans.len() ==> store.ref_count(#[trigger] texts_of(orphans@)[k]) == 0,
{
    let ghost all = texts_of(names@);
    let ghost pred = |name: Seq<char>| store.ref_count(name) == 0;
    let mut orphans: Vec<String> = Vec::new();
    let mut i: usize = 0;
    proof {
        reveal(Seq::filter);
        assert(all.take(0) =~= Seq::<Seq<char>>::empty());
        assert(texts_of(orphans@) =~= Seq::<Seq<char>>::empty());
    }
    while i < names.len()
        invariant
            i <= names.len(),
            store.wf(),
            all == texts_of(names@),
            pred == |name: Seq<char>| store.ref_count(name) == 0,
            texts_of(orphans@) == all.take(i as int).filter(pred),
        decreases names.len() - i,
    {
        let ghost picked = texts_of(orphans@);
        proof {
            assert(all.take(i + 1) =~= all.take(i as int).push(all[i as int]));
            all.take(i as int).lemma_filter_push(all[i as int], pred);
        }
        match find_blob(&store.blobs, &names[i]) {
            Some(j) => {
                proof {
                    lemma_recorded_at(store.blobs@, j as int);
                }
            },
            None => {
                orphans.push(names[i].clone());
                proof {
                    assert(texts_of(orphans@) =~= picked.push(all[i as int]));
                }
            },
        }
        i += 1;
    }
    proof {
        assert(all.take(names.len() as int) =~= all);
        assert forall|k: int| 0 <= k < orphans.len() implies store.ref_count(
            #[trigger] texts_of(orphans@)[k],
        ) == 0 by {
            all.lemma_filter_pred(pred, k);
        }
    }
    orphans
}

} // verus!
