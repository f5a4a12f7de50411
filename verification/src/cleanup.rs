//! The two periodic sweeps: expired links, and files without a blob.
use vstd::prelude::*;
use vstd::string::*;
use crate::blob_store::{gone, Blob};
use crate::clock::unix_now;
use crate::service::{conf, Service};
use crate::store::{
    accounts_for, cleanup_expired_urls, cleanup_unreachable_files, texts_of, unreferenced,
};
use crate::url_index::{expired, live, refs};
use crate::utils::{joined, path_in};

verus! {

/// The paths of the files `names` in the directory `dir`, in order.
pub open spec fn paths_in(dir: Seq<char>, names: Seq<Seq<char>>) -> Seq<Seq<char>> {
    names.map_values(|name: Seq<char>| joined(dir, name))
}

/// The paths of the files `names` in the directory `dir`.
fn full_paths(dir: &str, names: &Vec<String>) -> (paths: Vec<String>)
    ensures
        texts_of(paths@) == paths_in(dir@, texts_of(names@)),
{
    let mut paths: Vec<String> = Vec::new();
    let mut i: usize = 0;
    while i < names.len()
        invariant
            i <= names.len(),
            paths.len() == i,
            forall|k: int| 0 <= k < i ==> (#[trigger] paths[k])@ == joined(dir@, names[k]@),
        decreases names.len() - i,
    {
        paths.push(path_in(dir, names[i].as_str()));
        i += 1;
    }
    assert(texts_of(paths@) =~= paths_in(dir@, texts_of(names@)));
    paths
}

/// What one tick of the expiry sweep did: each blob that lost links, with
/// the count it is left with, and the paths of the files to delete.
#[derive(Debug)]
pub struct Sweep {
    pub touched: Vec<Blob>,
    pub doomed: Vec<String>,
}

/// The paths in `dir` of the blobs among `touched` that are left without a
/// reference.
fn doomed_paths(dir: &str, touched: &Vec<Blob>) -> (paths: Vec<String>)
    ensures
        texts_of(paths@) == paths_in(dir@, gone(touched@)),
{
    let mut paths: Vec<String> = Vec::new();
    let mut i: usize = 0;
    proof {
        reveal(Seq::filter);
        assert(touched@.take(0) =~= Seq::<Blob>::empty());
        assert(texts_of(paths@) =~= paths_in(dir@, gone(touched@.take(0))));
    }
    while i < touched.len()
        invariant
            i <= touched.len(),
            texts_of(paths@) == paths_in(dir@, gone(touched@.take(i as int))),
        decreases touched.len() - i,
    {
        let ghost seen = touched@.take(i as int);
        let ghost before = texts_of(paths@);
        proof {
            assert(touched@.take(i + 1) =~= seen.push(touched@[i as int]));
            seen.lemma_filter_push(touched@[i as int], |b: Blob| b.ref_count == 0);
        }
        if touched[i].ref_count == 0 {
            paths.push(path_in(dir, touched[i].hash.as_str()));
            proof {
                assert(gone(seen.push(touched@[i as int])) =~= gone(seen).push(
                    touched@[i as int].hash@,
                ));
                assert(texts_of(paths@) =~= before.push(joined(dir@, touched@[i as int].hash@)));
                assert(paths_in(dir@, gone(seen).push(touched@[i as int].hash@)) =~= paths_in(
                    dir@,
                    gone(seen),
                ).push(joined(dir@, touched@[i as int].hash@)));
            }
        }
        i += 1;
    }
    proof {
        assert(touched@.take(touched.len() as int) =~= touched@);
    }
    paths
}

/// What a sweep at the second `now` makes of the service: the links that
/// had expired by `now` are gone, each blob has lost the references that
/// went with them, `touched` accounts for the blobs that lost any, and the
/// files of the blobs left without a reference are doomed.
pub open spec fn swept(before: Service, after: Service, now: int, sweep: Sweep) -> bool {
    &&& after.wf()
    &&& after.config() == before.config()
    &&& after.store().urls() == live(before.store().urls(), now)
    &&& forall|h: Seq<char>| #[trigger]
        after.store().ref_count(h) == before.store().ref_count(h) - refs(
            expired(before.store().urls(), now),
            h,
        )
    &&& accounts_for(sweep.touched@, before.store(), after.store())
    &&& texts_of(sweep.doomed@) == paths_in(before.config().upload_file_dir@, gone(sweep.touched@))
}

/// One tick of the expiry sweep, at the clock's reading.
pub fn cleanup_urls(service: &mut Service) -> (sweep: Sweep)
    requires
        old(service).wf(),
    ensures
        exists|now: int| #[trigger] swept(*old(service), *final(service), now, sweep),
{
    let now = unix_now();
    let sweep = cleanup_urls_at(service, now);
    assert(swept(*old(service), *service, now as int, sweep));
    sweep
}

/// One tick of the expiry sweep at the second `now`: removes the links that
/// have expired by `now` together with the references they held, and the
/// blobs left without a reference. Returns what it touched and the paths of
/// the files of the removed blobs. The files are the caller's to delete.
pub fn cleanup_urls_at(service: &mut Service, now: i64) -> (sweep: Sweep)
    requires
        old(service).wf(),
    ensures
        swept(*old(service), *final(service), now as int, sweep),
{
    let touched = cleanup_expired_urls(service.store_mut(), now);
    let doomed = doomed_paths(conf(service).upload_file_dir.as_str(), &touched);
    Sweep { touched, doomed }
}

/// One tick of the orphan sweep: of the files `names` found in the upload
/// directory, returns the paths of those that are no blob of the store.
/// The files are the caller's to delete; the store is not touched.
pub fn cleanup_files(service: &Service, names: &Vec<String>) -> (doomed: Vec<String>)
    requires
        service.wf(),
    ensures
        texts_of(doomed@) == paths_in(
            service.config().upload_file_dir@,
            unreferenced(service.store(), texts_of(names@)),
        ),
{
    let orphans = cleanup_unreachable_files(service.store_ref(), names);
    full_paths(conf(service).upload_file_dir.as_str(), &orphans)
}

} // verus!
