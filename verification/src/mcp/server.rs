//! How the MCP server answers each JSON-RPC request.
use vstd::prelude::*;

use crate::text::{concat, str_eq};

verus! {

/// The protocol version the server speaks.
pub const PROTOCOL_VERSION: &'static str = "2024-11-05";

/// The name the server introduces itself with.
pub const SERVER_NAME: &'static str = "annas-archive-mcp";

/// What the server says it is.
pub const SERVER_DESCRIPTION: &'static str = "Unified Anna's Archive MCP Server (Search, SciDB/DOI Lookup, Fast Downloads, SLUM Mirror Discovery)";

/// What the server tells its client to do with it.
pub const SERVER_INSTRUCTIONS: &'static str = "Search and retrieve books, academic articles, DOIs, and metadata from Anna's Archive. Downloads require ANNAS_SECRET_KEY.";

/// The JSON-RPC error code of a line that is not a request.
pub const PARSE_ERROR_CODE: i64 = -32700;

/// The JSON-RPC error code of an unknown method.
pub const METHOD_NOT_FOUND_CODE: i64 = -32601;

/// How a request is answered.
#[derive(Clone, Copy, Debug, PartialEq, Eq, Structural)]
pub enum RequestRoute {
    /// With the server's description.
    Initialize,
    /// With the list of tools.
    ListTools,
    /// With the result of the named tool.
    CallTool,
    /// With an empty result.
    EmptyResult,
    /// With a "method not found" error.
    MethodNotFound,
    /// Not at all.
    NoReply,
}

/// The route of a request: known methods by name; the `initialized`
/// notification with no answer, whatever its id; `ping` with an empty
/// result; any other method with an error when it has an id, else with no
/// answer.
pub open spec fn route_of(method: Seq<char>, has_id: bool) -> RequestRoute {
    if method == "initialize"@ {
        RequestRoute::Initialize
    } else if method == "notifications/initialized"@ || method == "initialized"@ {
        RequestRoute::NoReply
    } else if method == "ping"@ {
        RequestRoute::EmptyResult
    } else if method == "tools/list"@ {
        RequestRoute::ListTools
    } else if method == "tools/call"@ {
        RequestRoute::CallTool
    } else if has_id {
        RequestRoute::MethodNotFound
    } else {
        RequestRoute::NoReply
    }
}

/// Whether the server sends a reply of its own after routing: an empty
/// result for a request that carries an id but that its route left
/// unanswered.
pub open spec fn fallback_reply(route: RequestRoute, has_id: bool) -> bool {
    route == RequestRoute::NoReply && has_id
}

/// How to answer a request for `method`, with or without an id.
pub fn route_request(method: &str, has_id: bool) -> (r: RequestRoute)
    ensures
        r == route_of(method@, has_id),
{
    if str_eq(method, "initialize") {
        RequestRoute::Initialize
    } else if str_eq(method, "notifications/initialized") || str_eq(method, "initialized") {
        RequestRoute::NoReply
    } else if str_eq(method, "ping") {
        RequestRoute::EmptyResult
    } else if str_eq(method, "tools/list") {
        RequestRoute::ListTools
    } else if str_eq(method, "tools/call") {
        RequestRoute::CallTool
    } else if has_id {
        RequestRoute::MethodNotFound
    } else {
        RequestRoute::NoReply
    }
}

/// Whether a request that got `route` is answered with an empty result by
/// the server loop itself.
pub fn needs_fallback_reply(route: RequestRoute, has_id: bool) -> (r: bool)
    ensures
        r == fallback_reply(route, has_id),
{
    match route {
        RequestRoute::NoReply => has_id,
        _ => false,
    }
}

/// A request with an id is always answered, by its route or by the server
/// loop's empty result; the loop answers only the `initialized` notification
/// that way; a notification is never answered with an error.
pub proof fn lemma_requests_with_id_are_answered(method: Seq<char>)
    ensures
        route_of(method, true) != RequestRoute::NoReply || fallback_reply(
            route_of(method, true),
            true,
        ),
        fallback_reply(route_of(method, true), true) <==> (method == "notifications/initialized"@
            || method == "initialized"@),
        !fallback_reply(route_of(method, false), false),
        route_of(method, false) != RequestRoute::MethodNotFound,
{
    reveal_strlit("initialize");
    reveal_strlit("initialized");
    reveal_strlit("notifications/initialized");
    assert("initialized"@.len() != "initialize"@.len());
    assert("notifications/initialized"@.len() != "initialize"@.len());
}

/// The message of the error for an unknown method.
pub fn method_not_found_message(method: &str) -> (r: String)
    ensures
        r@ == "Method not found: "@ + method@,
{
    concat("Method not found: ", method)
}

/// The message of the error for a line that is not a request.
pub fn parse_error_message(parser_message: &str) -> (r: String)
    ensures
        r@ == "Parse error: "@ + parser_message@,
{
    concat("Parse error: ", parser_message)
}

} // verus!
