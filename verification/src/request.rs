//! What is asked of the network: how a request is made, and what the
//! download of an addon asks for and where it puts the answer.

use crate::addon::Addon;
use vstd::prelude::*;

verus! {

/// The time a request may take in all, in seconds.
pub const REQUEST_TIMEOUT_SECS: u64 = 5;

/// How one GET request is to be made.
#[derive(Debug, Clone)]
pub struct RequestPlan {
    pub url: String,
    /// Name and value of each header, sent with every request of the
    /// client that is built for the plan.
    pub headers: Vec<(String, String)>,
    /// Redirects are followed, however many there are.
    pub follow_redirects: bool,
    pub timeout_secs: u64,
}

/// What a `RequestPlan` stands for.
pub struct RequestModel {
    pub url: Seq<char>,
    pub headers: Seq<(Seq<char>, Seq<char>)>,
    pub follow_redirects: bool,
    pub timeout_secs: u64,
}

/// The views of a list of headers.
pub open spec fn header_texts(headers: Seq<(String, String)>) -> Seq<(Seq<char>, Seq<char>)> {
    Seq::new(headers.len(), |i: int| (headers[i].0@, headers[i].1@))
}

impl View for RequestPlan {
    type V = RequestModel;

    open spec fn view(&self) -> RequestModel {
        RequestModel {
            url: self.url@,
            headers: header_texts(self.headers@),
            follow_redirects: self.follow_redirects,
            timeout_secs: self.timeout_secs,
        }
    }
}

/// The request that every caller of the network makes: a GET of `url`
/// with the given headers, which follows redirects and gives up after
/// five seconds.
pub fn request_plan(url: String, headers: Vec<(String, String)>) -> (r: RequestPlan)
    ensures
        r@ == (RequestModel {
            url: url@,
            headers: header_texts(headers@),
            follow_redirects: true,
            timeout_secs: REQUEST_TIMEOUT_SECS,
        }),
{
    RequestPlan { url, headers, follow_redirects: true, timeout_secs: REQUEST_TIMEOUT_SECS }
}

/// What the download of one addon asks for and where the body goes.
#[derive(Debug, Clone)]
pub struct DownloadJob {
    pub request: RequestPlan,
    /// The name of the file in the destination directory.
    pub file_name: String,
}

/// The download of `addon`: a request for its remote url without any
/// header of its own, into a file named by the addon's id, with nothing
/// added to the name.
///
/// The addon must carry a remote url; to ask for a download without one
/// is a mistake of the caller.
pub fn download_job(addon: &Addon) -> (r: DownloadJob)
    requires
        addon@.remote_url is Some,
    ensures
        r.request@ == (RequestModel {
            url: addon@.remote_url->0,
            headers: Seq::empty(),
            follow_redirects: true,
            timeout_secs: REQUEST_TIMEOUT_SECS,
        }),
        r.file_name@ == addon@.id,
{
    let url = match &addon.remote_url {
        Some(url) => url.clone(),
        None => unreached(),
    };
    let request = request_plan(url, Vec::new());
    assert(request@.headers =~= Seq::empty());
    DownloadJob { request, file_name: addon.id.clone() }
}

} // verus!
