//! Requests that are not for the bridge are passed on to the web app's host.
use vstd::prelude::*;

verus! {

/// The host that other requests are passed on to.
pub const PROXY_HOST: &'static str = "https://app.tangoapp.dev";

/// What `reqwest::Url` gives, serialized, for `reference` read relative to
/// the URL `base` (`None` when either does not parse).
pub uninterp spec fn url_resolved(base: Seq<char>, reference: Seq<char>) -> Option<Seq<char>>;

/// The host of the URL `url` as `reqwest::Url::host_str` gives it (`None`
/// when it does not parse or has no host).
pub uninterp spec fn url_host(url: Seq<char>) -> Option<Seq<char>>;

/// Calls `reqwest::Url::parse` on `base`, then `Url::options().base_url(..)
/// .parse(reference)` (url 2.5), and serializes the result with `as_str`.
/// Claimed: the outcome is a function of the two texts alone, named
/// `url_resolved`.
#[verifier::external_body]
fn resolve_url(base: &str, reference: &str) -> (url: Option<String>)
    ensures
        match url {
            Some(u) => url_resolved(base@, reference@) == Some(u@),
            None => url_resolved(base@, reference@) is None,
        },
{
    match reqwest::Url::parse(base) {
        Ok(b) => match reqwest::Url::options().base_url(Some(&b)).parse(reference) {
            Ok(u) => Some(u.as_str().to_owned()),
            Err(_) => None,
        },
        Err(_) => None,
    }
}

/// Calls `reqwest::Url::parse` on `url`, then `Url::host_str`. Claimed: the
/// outcome is a function of the text alone, named `url_host`.
#[verifier::external_body]
fn host_of_url(url: &str) -> (host: Option<String>)
    ensures
        match host {
            Some(h) => url_host(url@) == Some(h@),
            None => url_host(url@) is None,
        },
{
    match reqwest::Url::parse(url) {
        Ok(u) => match u.host_str() {
            Some(h) => Some(h.to_owned()),
            None => None,
        },
        Err(_) => None,
    }
}

/// Where a request is passed on to.
pub struct ProxyTarget {
    pub url: String,
    /// The value of the `Host` header that goes with it.
    pub host: String,
}

#[derive(Clone, Copy, PartialEq, Eq, Structural)]
pub enum ProxyError {
    /// The request's URI does not make a URL: answered with 400 Bad Request.
    BadRequest,
    /// The URL has no host.
    NoHost,
}

/// The URL a request for `uri` is passed on to: `uri` read relative to
/// `PROXY_HOST`, with the host of the result for the `Host` header.
pub fn proxy_target(uri: &str) -> (target: Result<ProxyTarget, ProxyError>)
    ensures
        match url_resolved(PROXY_HOST@, uri@) {
            None => target == Err::<ProxyTarget, ProxyError>(ProxyError::BadRequest),
            Some(u) => match url_host(u) {
                None => target == Err::<ProxyTarget, ProxyError>(ProxyError::NoHost),
                Some(h) => target matches Ok(t) && t.url@ == u && t.host@ == h,
            },
        },
{
    let url = match resolve_url(PROXY_HOST, uri) {
        Some(u) => u,
        None => return Err(ProxyError::BadRequest),
    };
    let host = match host_of_url(url.as_str()) {
        Some(h) => h,
        None => return Err(ProxyError::NoHost),
    };
    Ok(ProxyTarget { url, host })
}

} // verus!
