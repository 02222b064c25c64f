//! Asset transport: the verified half of one upload. Builds the exact URL,
//! authorization value and content-length declaration for the upload endpoint,
//! and classifies the observed response into a success or failure outcome.
//! The caller performs the file read and the HTTP POST and hands back the
//! response status and body.

use vstd::prelude::*;
use vstd::string::StringExecFns;

use crate::errors::UploadError;
use crate::textenc::base_name;
use crate::textenc::base_name_of;
use crate::textenc::dec_chars;
use crate::textenc::percent_encode;
use crate::textenc::u64_to_dec;
use crate::textenc::url_escaped;

verus! {

/// One pending upload: a file and the release it is to be attached to.
/// Created by path resolution, consumed by exactly one upload.
pub struct UploadTask {
    pub file_path: String,
    pub release_id: usize,
}

/// How one upload ended: either the file was attached, or it failed with a
/// typed error. Either way the batch goes on.
pub enum UploadOutcome {
    Success(String),
    Failure(String, UploadError),
}

impl UploadOutcome {
    /// The path of the file this outcome is about.
    pub open spec fn path_chars(&self) -> Seq<char> {
        match self {
            UploadOutcome::Success(p) => p@,
            UploadOutcome::Failure(p, _) => p@,
        }
    }

    /// The path of the file this outcome is about.
    pub fn path(&self) -> (r: &String)
        ensures
            r@ == self.path_chars(),
    {
        match self {
            UploadOutcome::Success(p) => p,
            UploadOutcome::Failure(p, _) => p,
        }
    }

    /// Whether this outcome records a failed upload.
    pub fn is_failure(&self) -> (r: bool)
        ensures
            r == (*self is Failure),
    {
        match self {
            UploadOutcome::Success(_) => false,
            UploadOutcome::Failure(_, _) => true,
        }
    }
}

/// Everything the HTTP layer needs to perform one upload: where to POST,
/// what authorization and content-length values to declare, and which file's
/// bytes form the body.
pub struct UploadRequest {
    pub url: String,
    pub auth_header: String,
    pub content_length: String,
    pub file_path: String,
}

/// The exact URL of the asset-upload endpoint for one file of one release.
pub open spec fn upload_url_chars(
    owner: Seq<char>,
    repo: Seq<char>,
    release_id: nat,
    name: Seq<char>,
) -> Seq<char> {
    "https://uploads.github.com/repos/"@ + owner + "/"@ + repo + "/releases/"@ + dec_chars(
        release_id,
    ) + "/assets?name="@ + url_escaped(name)
}

/// The exact authorization value sent with every request of a run.
pub open spec fn auth_header_chars(token: Seq<char>) -> Seq<char> {
    "token "@ + token
}

/// One upload task per file, all under the same release identifier, in the
/// order the files were discovered.
pub fn make_tasks(release_id: usize, files: Vec<String>) -> (r: Vec<UploadTask>)
    ensures
        r@.len() == files@.len(),
        forall|i: int|
            0 <= i < r@.len() ==> r@[i].file_path@ == files@[i]@ && r@[i].release_id == release_id,
{
    let mut files = files;
    let mut r: Vec<UploadTask> = Vec::new();
    let ghost all = files@;
    while files.len() > 0
        invariant
            r@.len() + files@.len() == all.len(),
            files@ =~= all.subrange(r@.len() as int, all.len() as int),
            forall|i: int|
                0 <= i < r@.len() ==> r@[i].file_path@ == all[i]@ && r@[i].release_id
                    == release_id,
        decreases files@.len(),
    {
        let file_path = files.remove(0);
        r.push(UploadTask { file_path, release_id });
        proof {
            assert(files@ =~= all.subrange(r@.len() as int, all.len() as int));
        }
    }
    r
}

/// Builds the request for one task, given the byte length that the file read
/// reported. Consumes the task: each task is uploaded exactly once.
pub fn build_upload_request(
    owner: &str,
    repo: &str,
    token: &str,
    task: UploadTask,
    byte_len: u64,
) -> (r: UploadRequest)
    ensures
        r.url@ == upload_url_chars(
            owner@,
            repo@,
            task.release_id as nat,
            base_name_of(task.file_path@),
        ),
        r.auth_header@ == auth_header_chars(token@),
        r.content_length@ == dec_chars(byte_len as nat),
        r.file_path@ == task.file_path@,
{
    let name = base_name(task.file_path.as_str());
    let mut url = String::new();
    url.append("https://uploads.github.com/repos/");
    url.append(owner);
    url.append("/");
    url.append(repo);
    url.append("/releases/");
    let id_dec = u64_to_dec(task.release_id as u64);
    url.append(id_dec.as_str());
    url.append("/assets?name=");
    let escaped = percent_encode(name.as_str());
    url.append(escaped.as_str());
    let mut auth_header = String::new();
    auth_header.append("token ");
    auth_header.append(token);
    let content_length = u64_to_dec(byte_len);
    UploadRequest { url, auth_header, content_length, file_path: task.file_path }
}

/// Turns the observed response to one upload into its outcome: the endpoint
/// answers 201 (Created) on success; any other status is a rejection whose
/// detail is the raw response body.
pub fn classify_response(file_path: String, status: u16, body: String) -> (r: UploadOutcome)
    ensures
        status == 201 ==> r == UploadOutcome::Success(file_path),
        status != 201 ==> r == UploadOutcome::Failure(
            file_path,
            UploadError::RemoteRejection(body),
        ),
{
    if status == 201 {
        UploadOutcome::Success(file_path)
    } else {
        UploadOutcome::Failure(file_path, UploadError::RemoteRejection(body))
    }
}

/// Wraps a transport-level fault (connection, DNS, timeout) as the failure
/// outcome of one file. Such a fault never propagates out of the upload.
pub fn network_failure(file_path: String, detail: String) -> (r: UploadOutcome)
    ensures
        r == UploadOutcome::Failure(file_path, UploadError::Network(detail)),
{
    UploadOutcome::Failure(file_path, UploadError::Network(detail))
}

/// Wraps a filesystem fault (the file vanished or became unreadable between
/// discovery and upload) as the failure outcome of one file.
pub fn filesystem_failure(file_path: String, detail: String) -> (r: UploadOutcome)
    ensures
        r == UploadOutcome::Failure(file_path, UploadError::Filesystem(detail)),
{
    UploadOutcome::Failure(file_path, UploadError::Filesystem(detail))
}

} // verus!
