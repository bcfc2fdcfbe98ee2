//! Verified core of a configuration-driven HTTP(S) edge server.
//!
//! The library compiles a declarative configuration into a route table,
//! resolves each inbound request to one of three behaviors (a parameterized
//! greeting endpoint, reverse proxying to an upstream target, or static-file
//! fallback), and rewrites matched proxy requests for forwarding. All of the
//! routing and rewriting logic carries contracts; the transport itself
//! (sockets, TLS, the HTTP client) lives outside the library.

use vstd::prelude::*;

pub mod args;
pub mod config;
pub mod greet;
pub mod proxy;
pub mod routes;
pub mod text;

use crate::config::FileServer;
use crate::greet::{greet_body, opt_str_view, spec_greet_body};
use crate::proxy::{rewrite_request, HttpVersion, OutboundRequest};
use crate::routes::{
    entry_matches, is_best_match, Dispatch, HandlerKind, RouteEntry, RouteTable,
};
use crate::text::{digits_val, spec_split};

verus! {

/// Status code of the standard not-found response.
pub const NOT_FOUND_STATUS: u16 = 404;

/// Status code of the greeting endpoint's response.
pub const OK_STATUS: u16 = 200;

/// What the server does with one inbound request, decided entirely by the
/// table and the request's own data; the transport performs it.
pub enum RequestAction {
    /// Answer directly with this status and JSON body: the greeting.
    Respond { status: u16, body: String },
    /// Send the rewritten request to the upstream and relay its response.
    Forward { outbound: OutboundRequest, log_requests: bool, log_responses: bool },
    /// Let the static-file service answer under its rule.
    ServeStatic { file_server: FileServer },
    /// Nothing matched and no static rule is configured.
    NotFound { status: u16 },
}

/// What acting on a matched entry yields, for a given split path, optional
/// `username` query parameter, and inbound path-and-query string.
pub open spec fn action_for(
    e: RouteEntry,
    parts: Seq<Seq<char>>,
    query_username: Option<Seq<char>>,
    path_query: Seq<char>,
    a: RequestAction,
) -> bool {
    match e.handler {
        HandlerKind::DynamicGreeting => (a matches RequestAction::Respond { status, body }
            && status == OK_STATUS && 3 <= parts.len() && (parts.len() == 3 ==> body@
            == spec_greet_body(parts[2], None, query_username)) && (parts.len() == 5 ==> body@
            == spec_greet_body(parts[2], Some((digits_val(parts[4]) as u32)), query_username))),
        HandlerKind::ProxyForward { target, log_requests, log_responses } => (a matches
            RequestAction::Forward { outbound, log_requests: lq, log_responses: lr }
            && outbound.uri@ == target@ + path_query && outbound.version == HttpVersion::Http11
            && lq == log_requests && lr == log_responses),
    }
}

/// The per-request dispatch: resolves the path against the table and turns
/// the outcome into the action the transport performs — the greeting body,
/// a rewritten upstream request, the static rule, or a not-found status.
pub fn handle_request(
    table: &RouteTable,
    path: &str,
    query_username: Option<&str>,
    path_query: &str,
) -> (a: RequestAction)
    requires
        table.wf(),
    ensures
        ({
            let parts = spec_split(path@, '/');
            let entries = table.entries@;
            &&& ((forall|i: int|
                0 <= i < entries.len() ==> !entry_matches(#[trigger] entries[i], parts)) <==> (
            a is ServeStatic || a is NotFound))
            &&& (exists|i: int|
                0 <= i < entries.len() && entry_matches(#[trigger] entries[i], parts)) ==> (exists|i: int|
                #[trigger] is_best_match(entries, parts, i) && action_for(
                    entries[i],
                    parts,
                    opt_str_view(query_username),
                    path_query@,
                    a,
                ))
            &&& a is ServeStatic ==> (table.fallback matches Some(f) && a matches
                RequestAction::ServeStatic { file_server } && file_server == f)
            &&& a is NotFound ==> table.fallback is None
            &&& a is NotFound ==> (a matches RequestAction::NotFound { status } && status
                == NOT_FOUND_STATUS)
        }),
{
    let d = crate::routes::match_route(table, path);
    match d {
        Dispatch::Greeting { username, age } => {
            let body = greet_body(username.as_str(), age, query_username);
            RequestAction::Respond { status: OK_STATUS, body }
        },
        Dispatch::Proxy { target, log_requests, log_responses } => {
            let outbound = rewrite_request(target.as_str(), path_query);
            RequestAction::Forward { outbound, log_requests, log_responses }
        },
        Dispatch::Static { file_server } => RequestAction::ServeStatic { file_server },
        Dispatch::NotFound => RequestAction::NotFound { status: NOT_FOUND_STATUS },
    }
}

} // verus!
