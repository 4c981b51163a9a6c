//! The transport selection: one of two network paths, chosen once from
//! the configuration, and the plain request that is handed to it.

use vstd::prelude::*;

verus! {

use vstd::string::StringExecFns;

/// The completions endpoint every generation request goes to.
pub open spec fn spec_chat_url() -> Seq<char> {
    "https://api.openai.com/v1/chat/completions"@
}

/// The endpoint, executable.
pub fn chat_url() -> (r: String)
    ensures
        r@ == spec_chat_url(),
{
    String::from_str("https://api.openai.com/v1/chat/completions")
}

/// One request, as plain values: where to send it, the bearer key, and
/// the serialized body.  The network side turns it into a real call.
#[derive(Debug)]
pub struct ApiRequest {
    pub url: String,
    pub api_key: String,
    pub body: String,
}

/// Which of two network paths services requests: the direct one, or one
/// through a configured forwarding proxy.  Chosen once at construction
/// and never changed; the network side builds the matching stack from
/// it.
#[derive(Debug)]
pub struct MultiClient {
    proxy: Option<String>,
}

impl MultiClient {
    /// The configured proxy endpoint, where there is one.
    pub closed spec fn spec_proxy(self) -> Option<Seq<char>> {
        match self.proxy {
            Some(u) => Some(u@),
            None => None,
        }
    }

    /// Builds the selection: where a proxy endpoint is configured the
    /// proxying path is taken, otherwise the direct one.
    pub fn new(proxy: Option<String>) -> (r: MultiClient)
        ensures
            match proxy {
                Some(uri) => r.spec_proxy() matches Some(u) && u == uri@,
                None => r.spec_proxy() is None,
            },
    {
        MultiClient { proxy }
    }

    /// Whether the proxying path was chosen.
    pub fn is_proxied(&self) -> (r: bool)
        ensures
            r == (self.spec_proxy() is Some),
    {
        match self.proxy {
            Some(_) => true,
            None => false,
        }
    }

    /// The configured proxy endpoint, where there is one.
    pub fn proxy_uri(&self) -> (r: Option<&String>)
        ensures
            match r {
                Some(u) => self.spec_proxy() matches Some(p) && u@ == p,
                None => self.spec_proxy() is None,
            },
    {
        match &self.proxy {
            Some(u) => Some(u),
            None => None,
        }
    }
}

} // verus!
