//! The forwarder's pure decisions: which node answers a request, the
//! upstream-failure message carrying the node's name, the hard cap on an
//! upstream response body, and the relayed response that keeps status,
//! content type and body byte for byte.

use vstd::prelude::*;
use crate::text::{to_chars, chars_to_string, norm_seq, trim_seq};
use crate::errors::AppError;
use crate::validators::{Validator, ValidatorRegistry, hint_given};

verus! {

/// The hard cap on an upstream response body, in bytes: 32 MiB.
pub const MAX_UPSTREAM_BODY: usize = 32 * 1024 * 1024;

/// The relayed response: the upstream status code, its content type if
/// it sent one, and the capped body.
pub struct RelayResponse {
    pub status: u16,
    pub content_type: Option<String>,
    pub body: Vec<u8>,
}

/// The message of every forwarding failure: it names the node.
pub fn unavailable_message(name: &str, detail: &str) -> (r: String)
    ensures
        r@ == "node '"@ + name@ + "' is unavailable: "@ + detail@,
{
    let mut out = to_chars("node '");
    out.extend_from_slice(to_chars(name).as_slice());
    out.extend_from_slice(to_chars("' is unavailable: ").as_slice());
    out.extend_from_slice(to_chars(detail).as_slice());
    chars_to_string(&out)
}

/// Any transport-level failure while talking to a node becomes an
/// upstream failure naming that node; it answers 502.
pub fn upstream_failure(name: &str, detail: &str) -> (r: AppError)
    ensures
        r matches AppError::Upstream(m) && m@ == "node '"@ + name@ + "' is unavailable: "@
            + detail@,
{
    AppError::Upstream(unavailable_message(name, detail))
}

/// Accept an upstream response: the status code and content type pass
/// through unchanged and the body is kept byte for byte, unless the body
/// exceeds the cap, which is a forwarding failure rather than a
/// truncated success.
pub fn accept_upstream_response(
    status: u16,
    content_type: Option<String>,
    body: Vec<u8>,
    name: &str,
) -> (r: Result<RelayResponse, AppError>)
    ensures
        body@.len() <= MAX_UPSTREAM_BODY ==> (r matches Ok(resp) && resp.status == status
            && resp.content_type == content_type && resp.body@ == body@),
        body@.len() > MAX_UPSTREAM_BODY ==> (r matches Err(e) && e matches AppError::Upstream(m)
            && m@ == "node '"@ + name@ + "' is unavailable: "@
            + "response body exceeds the size cap"@),
{
    if body.len() > MAX_UPSTREAM_BODY {
        Err(upstream_failure(name, "response body exceeds the size cap"))
    } else {
        Ok(RelayResponse { status, content_type, body })
    }
}

/// The forwarder's first decision: pick the node for the request's
/// hints, turning a selection failure into the caller-facing error. It
/// succeeds exactly when the selection policy does: always without
/// hints, and for a given hint exactly when some node matches it; every
/// failure is a `Selection` error carrying the selection failure's own
/// message.
pub fn select_for_proxy(
    registry: &ValidatorRegistry,
    validator: Option<&str>,
    location: Option<&str>,
) -> (r: Result<Validator, AppError>)
    requires
        registry.wf(),
    ensures
        r matches Ok(v) ==> exists|i: int| 0 <= i < registry@.len() && #[trigger] registry@[i]
            == v@,
        hint_given(validator) ==> match r {
            Ok(v) => norm_seq(v@.name) == norm_seq(validator->Some_0@),
            Err(e) => {
                &&& e matches AppError::Selection(m)
                &&& m@ == "validator '"@ + trim_seq(validator->Some_0@) + "' not found"@
                &&& forall|i: int|
                    0 <= i < registry@.len() ==> norm_seq(#[trigger] registry@[i].name)
                        != norm_seq(validator->Some_0@)
            },
        },
        !hint_given(validator) && hint_given(location) ==> match r {
            Ok(v) => norm_seq(v@.location) == norm_seq(location->Some_0@),
            Err(e) => {
                &&& e matches AppError::Selection(m)
                &&& m@ == "no validator available for location '"@ + trim_seq(
                    location->Some_0@,
                ) + "'"@
                &&& forall|i: int|
                    0 <= i < registry@.len() ==> norm_seq(#[trigger] registry@[i].location)
                        != norm_seq(location->Some_0@)
            },
        },
        !hint_given(validator) && !hint_given(location) ==> r is Ok,
{
    match registry.select(validator, location) {
        Ok(v) => Ok(v),
        Err(e) => Err(AppError::from_selection(&e)),
    }
}

} // verus!
