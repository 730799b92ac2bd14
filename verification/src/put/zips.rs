//! Zip archives of folders, made by the service for download.
use vstd::prelude::*;

use crate::put::request::{ApiRequest, FormField, RequestView, form_field, form_view, get_request, post_request, request_view};
use crate::text::{concat2, decimal, i64_to_decimal, owned};

verus! {

/// The reply to a request for an archive: the job's id.
pub struct CreateZipResponse {
    pub zip_id: i64,
}

/// The state of an archive job; `url` is there once the archive is ready.
pub struct CheckZipResponse {
    pub zip_status: String,
    pub url: Option<String>,
}

/// The request that starts zipping a folder.
pub fn create_request(file_id: i64) -> (res: ApiRequest)
    ensures
        request_view(res) == (RequestView {
            post: true,
            url: "https://api.put.io/v2/zips/create"@,
            form: seq![("file_ids"@, decimal(file_id as int))],
        }),
{
    let id = i64_to_decimal(file_id);
    let mut form: Vec<FormField> = Vec::new();
    form.push(form_field("file_ids", id.as_str()));
    proof {
        assert(form_view(form@) =~= seq![("file_ids"@, decimal(file_id as int))]);
    }
    post_request(owned("https://api.put.io/v2/zips/create"), form)
}

/// The request that checks on an archive job.
pub fn get_request_for(zip_id: i64) -> (res: ApiRequest)
    ensures
        request_view(res) == (RequestView {
            post: false,
            url: "https://api.put.io/v2/zips/"@ + decimal(zip_id as int),
            form: seq![],
        }),
{
    let id = i64_to_decimal(zip_id);
    get_request(concat2("https://api.put.io/v2/zips/", id.as_str()))
}

/// What to do after checking on an archive job.
pub enum ZipPoll {
    /// The archive can be downloaded from this address.
    Ready(String),
    /// Not yet: wait and check again.
    Wait,
}

/// The archive is ready exactly when the job reports its address.
pub fn zip_poll(status: CheckZipResponse) -> (res: ZipPoll)
    ensures
        match status.url {
            Some(u) => res == ZipPoll::Ready(u),
            None => res is Wait,
        },
{
    match status.url {
        Some(u) => ZipPoll::Ready(u),
        None => ZipPoll::Wait,
    }
}

} // verus!
