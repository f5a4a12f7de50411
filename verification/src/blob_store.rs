//! The blob table: one row per stored content, with the number of links
//! that point at it.
use vstd::prelude::*;
use vstd::string::*;

verus! {

/// One row of the `files` table: a stored blob and the number of links that
/// point at it.
#[derive(Debug)]
pub struct Blob {
    pub hash: String,
    pub ref_count: u64,
}

/// Some blob row carries this hash.
pub open spec fn has_blob(blobs: Seq<Blob>, hash: Seq<char>) -> bool {
    exists|i: int| 0 <= i < blobs.len() && (#[trigger] blobs[i]).hash@ == hash
}

/// The reference count recorded for `hash`; zero when no row carries it.
pub open spec fn recorded(blobs: Seq<Blob>, hash: Seq<char>) -> nat {
    if has_blob(blobs, hash) {
        let i = choose|i: int| 0 <= i < blobs.len() && (#[trigger] blobs[i]).hash@ == hash;
        blobs[i].ref_count as nat
    } else {
        0
    }
}

/// No two rows carry the same hash.
pub open spec fn hashes_distinct(blobs: Seq<Blob>) -> bool {
    forall|i: int, j: int|
        0 <= i < j < blobs.len() ==> (#[trigger] blobs[i]).hash@ != (#[trigger] blobs[j]).hash@
}

/// No two blob rows carry the same hash, and none has a count of zero.
pub open spec fn blobs_wf(blobs: Seq<Blob>) -> bool {
    &&& hashes_distinct(blobs)
    &&& forall|i: int| 0 <= i < blobs.len() ==> (#[trigger] blobs[i]).ref_count >= 1
}

/// The hashes of the blobs that a sweep left without a reference, in the
/// order of `touched`.
pub open spec fn gone(touched: Seq<Blob>) -> Seq<Seq<char>> {
    touched.filter(|b: Blob| b.ref_count == 0).map_values(|b: Blob| b.hash@)
}

/// Among well-formed rows, the count recorded for a row's hash is that row's.
pub(crate) proof fn lemma_recorded_at(blobs: Seq<Blob>, i: int)
    requires
        blobs_wf(blobs),
        0 <= i < blobs.len(),
    ensures
        has_blob(blobs, blobs[i].hash@),
        recorded(blobs, blobs[i].hash@) == blobs[i].ref_count,
{
    let h = blobs[i].hash@;
    assert(has_blob(blobs, h));
    let j = choose|j: int| 0 <= j < blobs.len() && (#[trigger] blobs[j]).hash@ == h;
    assert(j == i);
}

/// What is recorded after the count of row `i` is replaced.
pub(crate) proof fn lemma_blob_update(before: Seq<Blob>, i: int, nb: Blob)
    requires
        blobs_wf(before),
        0 <= i < before.len(),
        nb.hash@ == before[i].hash@,
        nb.ref_count >= 1,
    ensures
        blobs_wf(before.update(i, nb)),
        forall|h: Seq<char>| #[trigger]
            recorded(before.update(i, nb), h) == if h == nb.hash@ {
                nb.ref_count as nat
            } else {
                recorded(before, h)
            },
{
    let after = before.update(i, nb);
    assert(blobs_wf(after)) by {
        assert forall|a: int, b: int| 0 <= a < b < after.len() implies (#[trigger] after[a]).hash@
            != (#[trigger] after[b]).hash@ by {
            assert(after[a].hash@ == before[a].hash@);
            assert(after[b].hash@ == before[b].hash@);
        }
        assert forall|a: int| 0 <= a < after.len() implies (#[trigger] after[a]).ref_count >= 1 by {
            assert(before[a].ref_count >= 1);
        }
    }
    assert forall|h: Seq<char>| #[trigger]
        recorded(after, h) == if h == nb.hash@ {
            nb.ref_count as nat
        } else {
            recorded(before, h)
        } by {
        if h == nb.hash@ {
            lemma_recorded_at(after, i);
        } else if has_blob(before, h) {
            let j = choose|j: int| 0 <= j < before.len() && (#[trigger] before[j]).hash@ == h;
            lemma_recorded_at(before, j);
            assert(after[j] == before[j]);
            lemma_recorded_at(after, j);
        } else if has_blob(after, h) {
            let j = choose|j: int| 0 <= j < after.len() && (#[trigger] after[j]).hash@ == h;
            assert(before[j].hash@ == h);
        }
    }
}

/// What is recorded after a row with a new hash is appended.
pub(crate) proof fn lemma_blob_push(before: Seq<Blob>, nb: Blob)
    requires
        blobs_wf(before),
        !has_blob(before, nb.hash@),
        nb.ref_count >= 1,
    ensures
        blobs_wf(before.push(nb)),
        forall|h: Seq<char>| #[trigger]
            recorded(before.push(nb), h) == if h == nb.hash@ {
                nb.ref_count as nat
            } else {
                recorded(before, h)
            },
{
    let after = before.push(nb);
    assert(blobs_wf(after)) by {
        assert forall|a: int, b: int| 0 <= a < b < after.len() implies (#[trigger] after[a]).hash@
            != (#[trigger] after[b]).hash@ by {
            assert(after[a] == before[a]);
            if b < before.len() {
                assert(after[b] == before[b]);
            }
        }
        assert forall|a: int| 0 <= a < after.len() implies (#[trigger] after[a]).ref_count >= 1 by {
            if a < before.len() {
                assert(after[a] == before[a]);
            }
        }
    }
    assert forall|h: Seq<char>| #[trigger]
        recorded(after, h) == if h == nb.hash@ {
            nb.ref_count as nat
        } else {
            recorded(before, h)
        } by {
        if h == nb.hash@ {
            lemma_recorded_at(after, before.len() as int);
        } else if has_blob(before, h) {
            let j = choose|j: int| 0 <= j < before.len() && (#[trigger] before[j]).hash@ == h;
            lemma_recorded_at(before, j);
            assert(after[j] == before[j]);
            lemma_recorded_at(after, j);
        } else if has_blob(after, h) {
            let j = choose|j: int| 0 <= j < after.len() && (#[trigger] after[j]).hash@ == h;
            assert(after[j] == before[j]);
        }
    }
}

/// What is recorded after row `i` is removed.
pub(crate) proof fn lemma_blob_remove(before: Seq<Blob>, i: int)
    requires
        blobs_wf(before),
        0 <= i < before.len(),
    ensures
        blobs_wf(before.remove(i)),
        forall|h: Seq<char>| #[trigger]
            recorded(before.remove(i), h) == if h == before[i].hash@ {
                0nat
            } else {
                recorded(before, h)
            },
{
    let after = before.remove(i);
    assert(after.len() == before.len() - 1);
    assert forall|a: int| 0 <= a < after.len() implies #[trigger] after[a] == before[if a < i {
        a
    } else {
        a + 1
    }] by {}
    assert(blobs_wf(after)) by {
        assert forall|a: int, b: int| 0 <= a < b < after.len() implies (#[trigger] after[a]).hash@
            != (#[trigger] after[b]).hash@ by {
            let a0 = if a < i { a } else { a + 1 };
            let b0 = if b < i { b } else { b + 1 };
            assert(after[a] == before[a0]);
            assert(after[b] == before[b0]);
        }
        assert forall|a: int| 0 <= a < after.len() implies (#[trigger] after[a]).ref_count >= 1 by {
            let a0 = if a < i { a } else { a + 1 };
            assert(after[a] == before[a0]);
        }
    }
    assert forall|h: Seq<char>| #[trigger]
        recorded(after, h) == if h == before[i].hash@ {
            0nat
        } else {
            recorded(before, h)
        } by {
        if has_blob(after, h) {
            let j = choose|j: int| 0 <= j < after.len() && (#[trigger] after[j]).hash@ == h;
            let j0 = if j < i { j } else { j + 1 };
            assert(after[j] == before[j0]);
            assert(before[j0].hash@ == h);
            assert(before[i].hash@ != before[j0].hash@);
            lemma_recorded_at(before, j0);
            lemma_recorded_at(after, j);
        } else if h != before[i].hash@ && has_blob(before, h) {
            let j0 = choose|j: int| 0 <= j < before.len() && (#[trigger] before[j]).hash@ == h;
            let j = if j0 < i { j0 } else { j0 - 1 };
            assert(after[j] == before[j0]);
            assert(after[j].hash@ == h);
        }
    }
}

/// Position of the blob row that carries `hash`, if any.
pub(crate) fn find_blob(blobs: &Vec<Blob>, hash: &String) -> (r: Option<usize>)
    ensures
        match r {
            Some(i) => i < blobs.len() && blobs[i as int].hash@ == hash@,
            None => !has_blob(blobs@, hash@),
        },
{
    let mut i: usize = 0;
    while i < blobs.len()
        invariant
            i <= blobs.len(),
            forall|k: int| 0 <= k < i ==> (#[trigger] blobs[k]).hash@ != hash@,
        decreases blobs.len() - i,
    {
        if blobs[i].hash == *hash {
            return Some(i);
        }
        i += 1;
    }
    None
}

/// Takes one more reference on the blob `hash`: a new row with a count of
/// one if the hash is unknown, else the known row's count plus one.
pub(crate) fn put_or_ref(blobs: &mut Vec<Blob>, hash: &String)
    requires
        blobs_wf(old(blobs)@),
        recorded(old(blobs)@, hash@) < u64::MAX,
    ensures
        blobs_wf(final(blobs)@),
        forall|h: Seq<char>| #[trigger]
            recorded(final(blobs)@, h) == recorded(old(blobs)@, h) + if h == hash@ {
                1nat
            } else {
                0nat
            },
{
    let ghost before = blobs@;
    match find_blob(blobs, hash) {
        Some(i) => {
            proof {
                lemma_recorded_at(before, i as int);
            }
            let count = blobs[i].ref_count + 1;
            let row = Blob { hash: hash.clone(), ref_count: count };
            proof {
                lemma_blob_update(before, i as int, row);
            }
            blobs.set(i, row);
        },
        None => {
            let row = Blob { hash: hash.clone(), ref_count: 1 };
            proof {
                lemma_blob_push(before, row);
            }
            blobs.push(row);
        },
    }
}

/// Drops references: `counts` holds, for each blob named in it, how many of
/// its links are gone. Each count is taken off the blob's own, and a blob
/// left without references loses its row. Returns, for each blob named in
/// `counts` and in that order, the count it is left with.
pub(crate) fn deref_many(blobs: &mut Vec<Blob>, counts: &Vec<Blob>) -> (touched: Vec<Blob>)
    requires
        blobs_wf(old(blobs)@),
        blobs_wf(counts@),
        forall|h: Seq<char>| #[trigger] recorded(counts@, h) <= recorded(old(blobs)@, h),
    ensures
        blobs_wf(final(blobs)@),
        forall|h: Seq<char>| #[trigger]
            recorded(final(blobs)@, h) == recorded(old(blobs)@, h) - recorded(counts@, h),
        touched.len() == counts.len(),
        forall|k: int|
            0 <= k < touched.len() ==> (#[trigger] touched[k]).hash@ == counts[k].hash@
                && touched[k].ref_count == recorded(final(blobs)@, counts[k].hash@),
{
    let ghost before = blobs@;
    let mut touched: Vec<Blob> = Vec::new();
    let mut j: usize = 0;
    assert(counts@.take(0) =~= Seq::<Blob>::empty());
    while j < counts.len()
        invariant
            j <= counts.len(),
            blobs_wf(before),
            blobs_wf(blobs@),
            blobs_wf(counts@),
            forall|h: Seq<char>| #[trigger] recorded(counts@, h) <= recorded(before, h),
            forall|h: Seq<char>| #[trigger]
                recorded(blobs@, h) == recorded(before, h) - if has_blob(
                    counts@.take(j as int),
                    h,
                ) {
                    recorded(counts@, h)
                } else {
                    0nat
                },
            touched.len() == j,
            forall|k: int|
                0 <= k < j ==> (#[trigger] touched[k]).hash@ == counts[k].hash@
                    && touched[k].ref_count == recorded(blobs@, counts[k].hash@),
        decreases counts.len() - j,
    {
        let ghost current = blobs@;
        let ghost done = counts@.take(j as int);
        let ghost next = counts@.take(j + 1);
        let ghost hj = counts@[j as int].hash@;
        let ghost touched_before = touched@;
        proof {
            lemma_recorded_at(counts@, j as int);
            if has_blob(done, hj) {
                let k = choose|k: int| 0 <= k < done.len() && (#[trigger] done[k]).hash@ == hj;
                assert(done[k] == counts@[k]);
                assert(counts@[k].hash@ != counts@[j as int].hash@);
            }
            assert(recorded(current, hj) == recorded(before, hj));
            assert(recorded(counts@, hj) <= recorded(before, hj));
            assert(has_blob(current, hj));
            assert forall|h: Seq<char>| has_blob(next, h) <==> (has_blob(done, h) || h == hj) by {
                if has_blob(done, h) {
                    let k = choose|k: int| 0 <= k < done.len() && (#[trigger] done[k]).hash@ == h;
                    assert(next[k] == done[k]);
                }
                if h == hj {
                    assert(next[j as int].hash@ == hj);
                }
                if has_blob(next, h) {
                    let k = choose|k: int| 0 <= k < next.len() && (#[trigger] next[k]).hash@ == h;
                    if k < j {
                        assert(done[k] == next[k]);
                    }
                }
            }
        }
        let found = find_blob(blobs, &counts[j].hash);
        let i = found.unwrap();
        proof {
            lemma_recorded_at(current, i as int);
        }
        let left = blobs[i].ref_count - counts[j].ref_count;
        if left == 0 {
            proof {
                lemma_blob_remove(current, i as int);
            }
            blobs.remove(i);
        } else {
            let row = Blob { hash: counts[j].hash.clone(), ref_count: left };
            proof {
                lemma_blob_update(current, i as int, row);
            }
            blobs.set(i, row);
        }
        touched.push(Blob { hash: counts[j].hash.clone(), ref_count: left });
        proof {
            assert forall|k: int| 0 <= k < j + 1 implies (#[trigger] touched[k]).hash@
                == counts[k].hash@ && touched[k].ref_count == recorded(blobs@, counts[k].hash@) by {
                if k < j {
                    assert(touched[k] == touched_before[k]);
                    assert(counts@[k].hash@ != counts@[j as int].hash@);
                    assert(recorded(blobs@, counts[k].hash@) == recorded(current, counts[k].hash@));
                }
            }
        }
        j += 1;
    }
    proof {
        assert(counts@.take(counts.len() as int) =~= counts@);
    }
    touched
}

} // verus!
