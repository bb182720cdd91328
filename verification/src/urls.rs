//! The trusted boundary to the `url` crate. URL parsing is far too large to
//! restate, and it is a pure function of its input, so each facet of the
//! parse result is given an uninterpreted name; the wrappers below relate
//! the values the crate returns to those names.

use vstd::prelude::*;

verus! {

/// Whether `url::Url::parse` accepts the string.
pub uninterp spec fn url_ok(s: Seq<char>) -> bool;

/// The scheme of the parsed URL, as `url::Url::scheme` returns it.
pub uninterp spec fn url_scheme_of(s: Seq<char>) -> Seq<char>;

/// The host of the parsed URL as text, as `url::Url::host` displays it
/// (IPv6 addresses come bracketed); `None` when the URL has no host.
pub uninterp spec fn url_host_of(s: Seq<char>) -> Option<Seq<char>>;

/// The explicit port of the parsed URL, as `url::Url::port` returns it;
/// the crate never reports a scheme's default port here.
pub uninterp spec fn url_port_of(s: Seq<char>) -> Option<u16>;

/// The normalized serialization of the parsed URL, as `url::Url::as_str`
/// returns it.
pub uninterp spec fn url_text_of(s: Seq<char>) -> Seq<char>;

/// Whether `url::Url::set_port` accepts a new port on the parsed URL.
pub uninterp spec fn url_set_port_ok(s: Seq<char>, p: u16) -> bool;

/// The serialization of the parsed URL after `url::Url::set_port(Some(p))`.
pub uninterp spec fn url_with_port_text_of(s: Seq<char>, p: u16) -> Seq<char>;

/// The fields of a parsed URL that this crate reads, as plain values.
pub struct UrlParts {
    pub text: String,
    pub scheme: String,
    pub host: Option<String>,
    pub port: Option<u16>,
}

/// Relies on `url::Url::parse` and the accessors `as_str`, `scheme`,
/// `host` and `port`: all are pure functions of the input string, exposed
/// here under the uninterpreted names above.
#[verifier::external_body]
pub(crate) fn parse_url_parts(s: &str) -> (r: Result<UrlParts, String>)
    ensures
        r is Ok <==> url_ok(s@),
        r matches Ok(p) ==> {
            &&& p.text@ == url_text_of(s@)
            &&& p.scheme@ == url_scheme_of(s@)
            &&& p.host.deep_view() == url_host_of(s@)
            &&& p.port == url_port_of(s@)
        },
{
    match url::Url::parse(s) {
        Ok(u) => Ok(UrlParts {
            text: u.as_str().to_owned(),
            scheme: u.scheme().to_owned(),
            host: u.host().map(|h| h.to_string()),
            port: u.port(),
        }),
        Err(e) => Err(format!("{}", e)),
    }
}

/// Relies on `url::Url::set_port` over a freshly parsed URL: it fails only
/// for URLs that cannot carry a port, it leaves scheme and host unchanged,
/// and it records the new port except when the port is the scheme's
/// default (80 for `http`, 443 for `https`), which the crate stores as
/// "no explicit port".
#[verifier::external_body]
pub(crate) fn parse_url_with_port(s: &str, p: u16) -> (r: Result<UrlParts, String>)
    requires
        url_ok(s@),
    ensures
        r is Ok <==> url_set_port_ok(s@, p),
        r matches Ok(q) ==> {
            &&& q.text@ == url_with_port_text_of(s@, p)
            &&& q.scheme@ == url_scheme_of(s@)
            &&& q.host.deep_view() == url_host_of(s@)
            &&& (q.scheme@ == "http"@ && p != 80 ==> q.port == Some(p))
            &&& (q.scheme@ == "http"@ && p == 80 ==> q.port is None)
            &&& (q.scheme@ == "https"@ && p != 443 ==> q.port == Some(p))
            &&& (q.scheme@ == "https"@ && p == 443 ==> q.port is None)
        },
{
    let mut u = match url::Url::parse(s) {
        Ok(u) => u,
        Err(e) => return Err(format!("{}", e)),
    };
    match u.set_port(Some(p)) {
        Ok(()) => Ok(UrlParts {
            text: u.as_str().to_owned(),
            scheme: u.scheme().to_owned(),
            host: u.host().map(|h| h.to_string()),
            port: u.port(),
        }),
        Err(()) => Err(String::from("cannot set port on this URL")),
    }
}

} // verus!
