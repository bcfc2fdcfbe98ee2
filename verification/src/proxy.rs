//! The proxy forwarder's request rewriting and failure policy. Given a
//! matched proxy rule, the inbound request's destination is rewritten to the
//! upstream base URL joined with the inbound path-and-query by literal string
//! concatenation (deliberately without slash normalization), and the wire
//! protocol version is forced to HTTP/1.1 regardless of the inbound version.
//! The transport call itself happens outside the library; its outcome is
//! folded back through [`finish_forward`].

use vstd::prelude::*;

verus! {

/// Status code returned to the original caller on upstream transport failure.
pub const UPSTREAM_FAILURE_STATUS: u16 = 500;

/// A wire protocol version.
#[derive(Clone, Copy, Debug, PartialEq, Eq, Structural)]
pub enum HttpVersion {
    Http09,
    Http10,
    Http11,
    H2,
    H3,
}

/// The fully-rewritten outbound request: destination URI and the forced wire
/// protocol version. Method, headers and body pass through unmodified and so
/// are not modeled here.
pub struct OutboundRequest {
    pub uri: String,
    pub version: HttpVersion,
}

/// Rewrites a matched proxy request: the outbound URI is the upstream base
/// concatenated with the inbound path-and-query, literally, and the version
/// is forced to HTTP/1.1 whatever the inbound version was.
pub fn rewrite_request(target: &str, path_query: &str) -> (r: OutboundRequest)
    ensures
        r.uri@ == target@ + path_query@,
        r.version == HttpVersion::Http11,
{
    let mut uri = target.to_owned();
    uri.append(path_query);
    OutboundRequest { uri, version: HttpVersion::Http11 }
}

/// Whether a character sequence parses as a URI; determined by the
/// characters alone.
pub uninterp spec fn uri_well_formed(s: Seq<char>) -> bool;

#[verifier::external_type_specification]
#[verifier::external_body]
pub struct ExUri(hyper::Uri);

/// Relies on `hyper::Uri::try_from` (the `http` crate's URI parser): parsing
/// is deterministic, so whether it succeeds depends on the string alone.
#[verifier::external_body]
fn parse_uri(s: String) -> (r: Option<hyper::Uri>)
    ensures
        r is Some <==> uri_well_formed(s@),
{
    match hyper::Uri::try_from(s) {
        Ok(u) => Some(u),
        Err(_) => None,
    }
}

impl OutboundRequest {
    /// Parses the rewritten destination into the transport's URI type;
    /// `None` when the literal concatenation does not form a valid URI.
    pub fn to_uri(&self) -> (r: Option<hyper::Uri>)
        ensures
            r is Some <==> uri_well_formed(self.uri@),
    {
        parse_uri(self.uri.clone())
    }
}

/// The forwarder's last step. A received upstream response passes through
/// unmodified to the original caller; any transport failure is collapsed to
/// a bare 500 status, so the upstream error itself never reaches the
/// original caller.
pub fn finish_forward<R, E>(outcome: Result<R, E>) -> (r: Result<R, u16>)
    ensures
        outcome matches Ok(resp) ==> (r matches Ok(passed) && passed == resp),
        outcome is Err ==> (r matches Err(status) && status == UPSTREAM_FAILURE_STATUS),
{
    match outcome {
        Ok(resp) => Ok(resp),
        Err(_) => Err(UPSTREAM_FAILURE_STATUS),
    }
}

} // verus!
