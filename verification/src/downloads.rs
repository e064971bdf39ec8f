//! The bounded-retry download rules.
//!
//! A download makes up to `retry_count` attempts.  A server error (5xx) costs
//! one attempt and is retried after a fixed backoff; any other status is
//! accepted and its body streamed to the destination, so nothing of a failed
//! attempt is ever written.  Client errors (4xx) are deliberately not
//! distinguished from success here, as the reference behaviour has it: their
//! bodies stream too, and are caught by whatever validates the file
//! downstream.  Exhausting the budget yields a terminal download error naming
//! the URL.
//!
//! The decision logic is verified; the code that actually performs requests
//! awaits the network and lives outside the library, calling
//! [`ToolCache::download_step`] once per response it sees.
//!
//! [`ToolCache::download_step`]: crate::cache::ToolCache::download_step

use vstd::prelude::*;
use vstd::slice::slice_to_vec;

use crate::cache::ToolCache;
use crate::errors::ToolCacheError;

verus! {

/// The minimal description of a downloadable release artifact: an already
/// resolved URL, and the content type that is sent as the `Accept` header.
/// The cache is agnostic to how the descriptor was obtained.
pub struct AssetDescriptor {
    /// Where the artifact can be fetched.
    pub url: String,
    /// The content type of the artifact.
    pub content_type: String,
}

impl AssetDescriptor {
    /// Describe an artifact by its URL and content type.
    pub fn new(url: String, content_type: String) -> (r: AssetDescriptor)
        ensures
            r.url@ == url@,
            r.content_type@ == content_type@,
    {
        AssetDescriptor { url, content_type }
    }
}

/// Whether an HTTP status code is a server error (5xx).
pub open spec fn spec_server_error(status: u16) -> bool {
    500 <= status < 600
}

/// Whether an HTTP status code is a server error (5xx).
pub fn is_server_error(status: u16) -> (r: bool)
    ensures
        r == spec_server_error(status),
{
    500 <= status && status < 600
}

/// What the retry loop does after one attempt.
#[derive(Debug, Clone, Copy, PartialEq, Eq, Structural)]
pub enum DownloadAction {
    /// Accept the response: stream its body to the destination file.
    Accept,
    /// Back off for the fixed delay, then try again.
    Retry,
    /// The retry budget is exhausted: fail with a download error.
    GiveUp,
}

/// One observed HTTP response: its status code and its whole body.
pub struct HttpResponse {
    /// The status code.
    pub status: u16,
    /// The body.
    pub body: Vec<u8>,
}

impl HttpResponse {
    /// An observed response.
    pub fn new(status: u16, body: Vec<u8>) -> (r: HttpResponse)
        ensures
            r.status == status,
            r.body@ == body@,
    {
        HttpResponse { status, body }
    }
}

/// The attempt a download with the given budget accepts: the first response
/// within the budget whose status is not a server error.
pub open spec fn first_accepted(rs: Seq<HttpResponse>, budget: nat) -> Option<int>
    decreases budget,
{
    if budget == 0 || rs.len() == 0 {
        None
    } else if !spec_server_error(rs[0].status) {
        Some(0)
    } else {
        match first_accepted(rs.drop_first(), (budget - 1) as nat) {
            Some(j) => Some(j + 1),
            None => None,
        }
    }
}

pub proof fn lemma_first_accepted_some(rs: Seq<HttpResponse>, budget: nat, i: int)
    requires
        0 <= i < budget,
        i < rs.len(),
        forall|j: int| 0 <= j < i ==> spec_server_error(rs[j].status),
        !spec_server_error(rs[i].status),
    ensures
        first_accepted(rs, budget) == Some(i),
    decreases i,
{
    if i > 0 {
        lemma_first_accepted_some(rs.drop_first(), (budget - 1) as nat, i - 1);
    }
}

pub proof fn lemma_first_accepted_none(rs: Seq<HttpResponse>, budget: nat)
    requires
        forall|j: int| 0 <= j < budget && j < rs.len() ==> spec_server_error(rs[j].status),
    ensures
        first_accepted(rs, budget) is None,
    decreases budget,
{
    if budget > 0 && rs.len() > 0 {
        lemma_first_accepted_none(rs.drop_first(), (budget - 1) as nat);
    }
}

impl ToolCache {
    /// What the retry loop does after one attempt, given the response status
    /// and the attempts still left: accept anything that is not a server
    /// error, retry a server error while budget remains, give up otherwise.
    pub fn download_step(status: u16, attempts_left: u8) -> (r: DownloadAction)
        ensures
            !spec_server_error(status) ==> r == DownloadAction::Accept,
            spec_server_error(status) && attempts_left > 0 ==> r == DownloadAction::Retry,
            spec_server_error(status) && attempts_left == 0 ==> r == DownloadAction::GiveUp,
    {
        if !is_server_error(status) {
            DownloadAction::Accept
        } else if attempts_left > 0 {
            DownloadAction::Retry
        } else {
            DownloadAction::GiveUp
        }
    }

    /// The download algorithm run against the responses a transport hands
    /// back, one per attempt: the body of the first response within the
    /// retry budget that is not a server error, and nothing of any earlier
    /// attempt.  Exhausting the budget is a download error naming the URL; a
    /// transport that stops answering first is a transport error.
    pub fn run_download(&self, responses: &Vec<HttpResponse>, url: &str) -> (r: Result<
        Vec<u8>,
        ToolCacheError,
    >)
        ensures
            match first_accepted(responses@, self@.retry_count as nat) {
                Some(i) => r matches Ok(b) && b@ == responses@[i].body@,
                None => (r matches Err(e) && (if responses@.len() < self@.retry_count as int {
                    e matches ToolCacheError::HttpError(_)
                } else {
                    e matches ToolCacheError::DownloadError(m) && m@ == url@
                })),
            },
    {
        let n = responses.len();
        let mut counter: u8 = self.retry_count();
        let mut idx: usize = 0;
        while counter > 0
            invariant
                n == responses@.len(),
                idx <= n,
                counter <= self@.retry_count,
                idx == self@.retry_count as int - counter as int,
                forall|j: int| 0 <= j < idx ==> spec_server_error(responses@[j].status),
            decreases counter,
        {
            if idx >= n {
                proof {
                    lemma_first_accepted_none(responses@, self@.retry_count as nat);
                }
                return Err(ToolCacheError::HttpError("no response from transport".to_owned()));
            }
            let status = responses[idx].status;
            counter = counter - 1;
            match ToolCache::download_step(status, counter) {
                DownloadAction::Accept => {
                    proof {
                        lemma_first_accepted_some(
                            responses@,
                            self@.retry_count as nat,
                            idx as int,
                        );
                    }
                    return Ok(slice_to_vec(responses[idx].body.as_slice()));
                },
                DownloadAction::Retry => {
                    idx = idx + 1;
                },
                DownloadAction::GiveUp => {
                    idx = idx + 1;
                },
            }
        }
        proof {
            lemma_first_accepted_none(responses@, self@.retry_count as nat);
        }
        Err(ToolCacheError::DownloadError(url.to_owned()))
    }
}

} // verus!
