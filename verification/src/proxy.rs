//! The HTTP client that forwards proxied requests.
use vstd::prelude::*;

verus! {

/// `reqwest::Client`, a pooled HTTP client.
#[verifier::external_type_specification]
#[verifier::external_body]
pub struct ExReqwestClient(reqwest::Client);

/// A proxy client backed by a `reqwest` client.
pub struct ReqwestClient {
    inner: reqwest::Client,
}

impl ReqwestClient {
    /// The client that requests are sent with.
    pub closed spec fn inner_client(&self) -> reqwest::Client {
        self.inner
    }

    /// A proxy client that sends requests with `inner`.
    pub fn new(inner: reqwest::Client) -> (res: Self)
        ensures
            res.inner_client() == inner,
    {
        ReqwestClient { inner }
    }
}

} // verus!
