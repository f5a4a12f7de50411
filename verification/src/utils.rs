//! Where the files of the blobs are kept.
use vstd::prelude::*;
use vstd::string::*;
use crate::service::{conf, Service};

verus! {

/// A directory and a file name joined by a single `/`.
pub open spec fn joined(dir: Seq<char>, name: Seq<char>) -> Seq<char> {
    dir + "/"@ + name
}

/// The path of `filename` in the directory `dir`.
pub fn path_in(dir: &str, filename: &str) -> (path: String)
    ensures
        path@ == joined(dir@, filename@),
{
    let mut path = String::from_str(dir);
    path.append("/");
    path.append(filename);
    path
}

/// The path under which the service keeps the file `filename`: in its
/// upload directory.
pub fn get_full_path(service: &Service, filename: &str) -> (path: String)
    ensures
        path@ == joined(service.config().upload_file_dir@, filename@),
{
    path_in(conf(service).upload_file_dir.as_str(), filename)
}

} // verus!
