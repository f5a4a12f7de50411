//! The link index: which tail serves which blob, as what, until when.
use vstd::prelude::*;
use vstd::string::*;
use crate::blob_store::{blobs_wf, put_or_ref, recorded, Blob};

verus! {

/// One row of the `urls` table: a link, the blob it serves, the content type
/// computed at upload time, and the second at which the link expires.
#[derive(Debug)]
pub struct UrlEntry {
    pub tail: String,
    pub hash: String,
    pub mimetype: String,
    pub expires_at: i64,
}

/// A row of the `urls` table as contracts see it.
pub struct UrlRow {
    pub tail: Seq<char>,
    pub hash: Seq<char>,
    pub mimetype: Seq<char>,
    pub expires_at: int,
}

impl View for UrlEntry {
    type V = UrlRow;

    open spec fn view(&self) -> UrlRow {
        UrlRow {
            tail: self.tail@,
            hash: self.hash@,
            mimetype: self.mimetype@,
            expires_at: self.expires_at as int,
        }
    }
}

/// The rows that a vector of entries stands for, in the same order.
pub open spec fn rows_of(entries: Seq<UrlEntry>) -> Seq<UrlRow> {
    entries.map_values(|e: UrlEntry| e@)
}

/// The row that `add_url` writes.
pub open spec fn new_row(
    tail: Seq<char>,
    hash: Seq<char>,
    mimetype: Seq<char>,
    expires_at: int,
) -> UrlRow {
    UrlRow { tail, hash, mimetype, expires_at }
}

/// Some row carries this tail.
pub open spec fn has_tail(rows: Seq<UrlRow>, tail: Seq<char>) -> bool {
    exists|i: int| 0 <= i < rows.len() && (#[trigger] rows[i]).tail == tail
}

/// The tail `tail` resolves to the blob `hash` served as `mimetype`.
pub open spec fn resolves_to(
    rows: Seq<UrlRow>,
    tail: Seq<char>,
    hash: Seq<char>,
    mimetype: Seq<char>,
) -> bool {
    exists|i: int|
        0 <= i < rows.len() && (#[trigger] rows[i]).tail == tail && rows[i].hash == hash
            && rows[i].mimetype == mimetype
}

/// Some row carries a tail of `len` characters.
pub open spec fn length_in_use(rows: Seq<UrlRow>, len: int) -> bool {
    exists|i: int| 0 <= i < rows.len() && (#[trigger] rows[i]).tail.len() == len
}

/// No two rows carry the same tail.
pub open spec fn tails_distinct(rows: Seq<UrlRow>) -> bool {
    forall|i: int, j: int|
        0 <= i < j < rows.len() ==> (#[trigger] rows[i]).tail != (#[trigger] rows[j]).tail
}

/// The rows that point at the blob `hash`.
pub open spec fn pointing_at(rows: Seq<UrlRow>, hash: Seq<char>) -> Seq<UrlRow> {
    rows.filter(|r: UrlRow| r.hash == hash)
}

/// How many rows point at the blob `hash`.
pub open spec fn refs(rows: Seq<UrlRow>, hash: Seq<char>) -> nat {
    pointing_at(rows, hash).len()
}

/// The rows that are still alive at the second `now`.
pub open spec fn live(rows: Seq<UrlRow>, now: int) -> Seq<UrlRow> {
    rows.filter(|r: UrlRow| r.expires_at > now)
}

/// The rows that have expired by the second `now`.
pub open spec fn expired(rows: Seq<UrlRow>, now: int) -> Seq<UrlRow> {
    rows.filter(|r: UrlRow| r.expires_at <= now)
}

/// One more row is one more reference for the blob it points at, and none
/// for any other.
pub(crate) proof fn lemma_refs_push(rows: Seq<UrlRow>, row: UrlRow, hash: Seq<char>)
    ensures
        refs(rows.push(row), hash) == refs(rows, hash) + if row.hash == hash {
            1nat
        } else {
            0nat
        },
{
    rows.lemma_filter_len_push(|r: UrlRow| r.hash == hash, row);
}

/// No more rows point at a blob than there are rows.
pub proof fn lemma_refs_bound(rows: Seq<UrlRow>, hash: Seq<char>)
    ensures
        refs(rows, hash) <= rows.len(),
{
    rows.lemma_filter_len(|r: UrlRow| r.hash == hash);
}

/// The live rows after one more row.
pub(crate) proof fn lemma_live_push(rows: Seq<UrlRow>, row: UrlRow, now: int)
    ensures
        live(rows.push(row), now) == if row.expires_at > now {
            live(rows, now).push(row)
        } else {
            live(rows, now)
        },
{
    rows.lemma_filter_push(row, |r: UrlRow| r.expires_at > now);
}

/// The expired rows after one more row.
pub(crate) proof fn lemma_expired_push(rows: Seq<UrlRow>, row: UrlRow, now: int)
    ensures
        expired(rows.push(row), now) == if row.expires_at <= now {
            expired(rows, now).push(row)
        } else {
            expired(rows, now)
        },
{
    rows.lemma_filter_push(row, |r: UrlRow| r.expires_at <= now);
}

/// A sweep takes from each blob exactly the links of it that had expired:
/// the links that stay and the links that go add up to the links there were.
pub proof fn lemma_sweep_splits_refs(rows: Seq<UrlRow>, now: int, hash: Seq<char>)
    ensures
        refs(rows, hash) == refs(live(rows, now), hash) + refs(expired(rows, now), hash),
    decreases rows.len(),
{
    reveal(Seq::filter);
    if rows.len() > 0 {
        let rest = rows.drop_last();
        let last = rows.last();
        assert(rows =~= rest.push(last));
        lemma_sweep_splits_refs(rest, now, hash);
        lemma_refs_push(rest, last, hash);
        lemma_live_push(rest, last, now);
        lemma_expired_push(rest, last, now);
        if last.expires_at > now {
            lemma_refs_push(live(rest, now), last, hash);
        } else {
            lemma_refs_push(expired(rest, now), last, hash);
        }
    }
}

/// Among rows with distinct tails, the live rows have distinct tails.
pub(crate) proof fn lemma_live_distinct(rows: Seq<UrlRow>, now: int)
    requires
        tails_distinct(rows),
    ensures
        tails_distinct(live(rows, now)),
    decreases rows.len(),
{
    reveal(Seq::filter);
    if rows.len() > 0 {
        let rest = rows.drop_last();
        let last = rows.last();
        assert(rows =~= rest.push(last));
        assert(tails_distinct(rest)) by {
            assert forall|i: int, j: int| 0 <= i < j < rest.len() implies (
            #[trigger] rest[i]).tail != (#[trigger] rest[j]).tail by {
                assert(rest[i] == rows[i]);
                assert(rest[j] == rows[j]);
            }
        }
        lemma_live_distinct(rest, now);
        lemma_live_push(rest, last, now);
        let kept = live(rest, now);
        if last.expires_at > now {
            assert forall|i: int, j: int| 0 <= i < j < kept.push(last).len() implies (
            #[trigger] kept.push(last)[i]).tail != (#[trigger] kept.push(last)[j]).tail by {
                assert(kept.push(last)[i] == kept[i]);
                if j < kept.len() {
                    assert(kept.push(last)[j] == kept[j]);
                } else {
                    assert(kept.contains(kept[i]));
                    rest.lemma_filter_contains_rev(|r: UrlRow| r.expires_at > now, kept[i]);
                    let k = choose|k: int| 0 <= k < rest.len() && rest[k] == kept[i];
                    assert(rows[k] == rest[k]);
                    assert(rows[k].tail != rows[rows.len() - 1].tail);
                }
            }
        }
    }
}

/// After a sweep every row left is one of the rows there were and is still
/// alive, no row is left twice, and a row that had expired no longer
/// resolves.
pub proof fn lemma_sweep_keeps_live(rows: Seq<UrlRow>, now: int)
    requires
        tails_distinct(rows),
    ensures
        tails_distinct(live(rows, now)),
        forall|k: int|
            0 <= k < live(rows, now).len() ==> rows.contains(#[trigger] live(rows, now)[k])
                && live(rows, now)[k].expires_at > now,
        forall|i: int|
            0 <= i < rows.len() && rows[i].expires_at <= now ==> !has_tail(
                live(rows, now),
                (#[trigger] rows[i]).tail,
            ),
        forall|i: int|
            0 <= i < rows.len() && rows[i].expires_at > now ==> live(rows, now).contains(
                #[trigger] rows[i],
            ),
{
    let kept = live(rows, now);
    let alive = |r: UrlRow| r.expires_at > now;
    assert forall|k: int| 0 <= k < kept.len() implies rows.contains(#[trigger] kept[k])
        && kept[k].expires_at > now by {
        rows.lemma_filter_pred(alive, k);
        assert(kept.contains(kept[k]));
        rows.lemma_filter_contains_rev(alive, kept[k]);
    }
    assert forall|i: int| 0 <= i < rows.len() && rows[i].expires_at > now implies kept.contains(
        #[trigger] rows[i],
    ) by {
        rows.lemma_filter_contains(alive, i);
    }
    lemma_live_distinct(rows, now);
    assert forall|i: int| 0 <= i < rows.len() && rows[i].expires_at <= now implies !has_tail(
        kept,
        (#[trigger] rows[i]).tail,
    ) by {
        if has_tail(kept, rows[i].tail) {
            let k = choose|k: int| 0 <= k < kept.len() && (#[trigger] kept[k]).tail == rows[i].tail;
            assert(rows.contains(kept[k]));
            let j = choose|j: int| 0 <= j < rows.len() && rows[j] == kept[k];
            assert(rows[j].tail == rows[i].tail);
            assert(j != i);
            if j < i {
                assert(rows[j].tail != rows[i].tail);
            } else {
                assert(rows[i].tail != rows[j].tail);
            }
        }
    }
}

/// Position of the row that carries `tail`, if any.
pub(crate) fn find_tail(urls: &Vec<UrlEntry>, tail: &String) -> (r: Option<usize>)
    ensures
        match r {
            Some(i) => i < urls.len() && urls[i as int].tail@ == tail@,
            None => !has_tail(rows_of(urls@), tail@),
        },
{
    let mut i: usize = 0;
    while i < urls.len()
        invariant
            i <= urls.len(),
            forall|k: int| 0 <= k < i ==> (#[trigger] rows_of(urls@)[k]).tail != tail@,
        decreases urls.len() - i,
    {
        if urls[i].tail == *tail {
            return Some(i);
        }
        i += 1;
    }
    None
}

/// Removes the links that have expired by `now` and returns, for each blob
/// that lost links, how many it lost.
pub(crate) fn sweep_expired(urls: &mut Vec<UrlEntry>, now: i64) -> (counts: Vec<Blob>)
    ensures
        rows_of(final(urls)@) == live(rows_of(old(urls)@), now as int),
        blobs_wf(counts@),
        forall|h: Seq<char>| #[trigger]
            recorded(counts@, h) == refs(expired(rows_of(old(urls)@), now as int), h),
{
    let ghost rows = rows_of(urls@);
    let mut kept: Vec<UrlEntry> = Vec::new();
    let mut counts: Vec<Blob> = Vec::new();
    let mut i: usize = 0;
    proof {
        reveal(Seq::filter);
        assert(rows.take(0) =~= Seq::<UrlRow>::empty());
        assert(rows_of(kept@) =~= Seq::<UrlRow>::empty());
        assert forall|h: Seq<char>| #[trigger]
            recorded(counts@, h) == refs(expired(rows.take(0), now as int), h) by {
            lemma_refs_bound(expired(rows.take(0), now as int), h);
            rows.take(0).lemma_filter_len(|r: UrlRow| r.expires_at <= now as int);
        }
    }
    while i < urls.len()
        invariant
            i <= urls.len(),
            rows == rows_of(urls@),
            rows_of(kept@) == live(rows.take(i as int), now as int),
            blobs_wf(counts@),
            forall|h: Seq<char>| #[trigger]
                recorded(counts@, h) == refs(expired(rows.take(i as int), now as int), h),
        decreases urls.len() - i,
    {
        let ghost seen = rows.take(i as int);
        let ghost row = rows[i as int];
        let ghost kept_rows = rows_of(kept@);
        let ghost tally = counts@;
        proof {
            assert(rows.take(i + 1) =~= seen.push(row));
            lemma_live_push(seen, row, now as int);
            lemma_expired_push(seen, row, now as int);
        }
        if urls[i].expires_at <= now {
            proof {
                lemma_refs_bound(expired(seen, now as int), row.hash);
                seen.lemma_filter_len(|r: UrlRow| r.expires_at <= now as int);
            }
            // The tally is kept as a blob table is: one row per hash, and one
            // more on its count for each link lost.
            put_or_ref(&mut counts, &urls[i].hash);
            proof {
                assert forall|h: Seq<char>| #[trigger]
                    recorded(counts@, h) == refs(expired(seen.push(row), now as int), h) by {
                    lemma_refs_push(expired(seen, now as int), row, h);
                    assert(recorded(counts@, h) == recorded(tally, h) + if h == row.hash {
                        1nat
                    } else {
                        0nat
                    });
                }
            }
        } else {
            kept.push(
                UrlEntry {
                    tail: urls[i].tail.clone(),
                    hash: urls[i].hash.clone(),
                    mimetype: urls[i].mimetype.clone(),
                    expires_at: urls[i].expires_at,
                },
            );
            proof {
                assert(rows_of(kept@) =~= kept_rows.push(row));
            }
        }
        i += 1;
    }
    proof {
        assert(rows.take(urls.len() as int) =~= rows);
    }
    *urls = kept;
    counts
}

} // verus!
