//! Serving a link: resolving the tail and answering the request.
use vstd::prelude::*;
use vstd::string::*;
use crate::error::AppError;
use crate::service::Service;
use crate::store::get_file_by_url;
use crate::url_index::{has_tail, resolves_to};
use crate::utils::{get_full_path, joined};

verus! {

/// Where the content behind a tail is kept, and the content type to serve
/// it with.
#[derive(Debug)]
pub struct Located {
    pub file_sha256sum: String,
    pub path: String,
    pub mimetype: String,
}

/// Resolves a tail to the file of its blob and the content type stored
/// with the link. A tail that no link carries is not found.
pub fn get_file(service: &Service, tail: &str) -> (r: Result<Located, AppError>)
    requires
        service.wf(),
    ensures
        r is Ok <==> has_tail(service.store().urls(), tail@),
        r matches Ok(found) ==> resolves_to(
            service.store().urls(),
            tail@,
            found.file_sha256sum@,
            found.mimetype@,
        ) && found.path@ == joined(service.config().upload_file_dir@, found.file_sha256sum@),
        r matches Err(e) ==> e is TailNotFound,
{
    match get_file_by_url(service.store_ref(), tail) {
        Some((hash, mimetype)) => {
            let path = get_full_path(service, hash.as_str());
            Ok(Located { file_sha256sum: hash, path, mimetype })
        },
        None => Err(AppError::TailNotFound),
    }
}

/// The answer to an access: an HTTP status, the content type and the
/// content where there is any, and, where the failure is the service's own,
/// the line to log.
#[derive(Debug)]
pub struct Served {
    pub status: u16,
    pub content_type: Option<String>,
    pub body: Vec<u8>,
    pub log: Option<String>,
}

/// The status that answers an access.
pub open spec fn access_status(outcome: Result<(Vec<u8>, String), AppError>) -> u16 {
    match outcome {
        Ok(_) => 200,
        Err(AppError::TailNotFound) => 404,
        Err(_) => 500,
    }
}

/// Answers an access: the content under its stored type; status 404 for a
/// tail that was not found; for any other failure status 500 and a line to
/// log.
pub fn handle_access(outcome: Result<(Vec<u8>, String), AppError>) -> (served: Served)
    ensures
        served.status == access_status(outcome),
        match outcome {
            Ok(found) => served.body == found.0 && served.content_type == Some(found.1)
                && served.log is None,
            Err(AppError::TailNotFound) => served.body@.len() == 0 && served.content_type is None
                && served.log is None,
            Err(e) => served.body@.len() == 0 && served.content_type is None && served.log is Some
                && served.log->Some_0@ == e.text(),
        },
{
    match outcome {
        Ok((data, mimetype)) => Served {
            status: 200,
            content_type: Some(mimetype),
            body: data,
            log: None,
        },
        Err(e) => match e {
            AppError::TailNotFound => Served {
                status: 404,
                content_type: None,
                body: Vec::new(),
                log: None,
            },
            _ => Served {
                status: 500,
                content_type: None,
                body: Vec::new(),
                log: Some(e.message()),
            },
        },
    }
}

} // verus!
