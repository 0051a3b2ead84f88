//! One connection: from the bytes that were read to the response that is
//! written, by way of what the route asks the server to do.

use crate::http::{
    buffered_head, created, HttpRequest, HttpRequestHeader, HttpResponse, Request, Response,
};
use crate::ids::{id_text, is_random_uuid, new_id, uuid_text};
use crate::logging::{LogItem, LogItemType, LogRecord};
use crate::orchestration::{record, records};
use crate::routing::{reply, routed, Action, RouteAction, RouteMap, RouteModel, RouteOutcome};
use crate::text::{to_chars, to_string};
use vstd::prelude::*;
use vstd::string::*;
use vstd::utf8::encode_utf8;

verus! {

/// The acceptor of connections.
#[derive(Debug)]
pub struct Server {}

/// What the log tells one connection from another by.
#[derive(Debug)]
pub struct ConnectionContext {
    pub id: u128,
    pub slug: String,
    pub from: String,
}

/// The first six characters of the hyphenated form of an identifier.
pub open spec fn slug_of(id: u128) -> Seq<char> {
    uuid_text(id).take(6)
}

impl ConnectionContext {
    /// The context of a connection from `from`, with `id` for the connection
    /// and the slug of `slug_id`.
    pub fn with_ids(id: u128, slug_id: u128, from: String) -> (context: ConnectionContext)
        ensures
            context.id == id,
            context.slug@ == slug_of(slug_id),
            context.from == from,
    {
        let text = id_text(slug_id);
        let chars = to_chars(text.as_str());
        let slug = to_string(&chars, 0, 6);
        assert(slug@ =~= slug_of(slug_id));
        ConnectionContext { id, slug, from }
    }

    /// The context of a connection from `from`, under a fresh identifier and
    /// with the slug of another.
    pub fn new(from: String) -> (context: ConnectionContext)
        ensures
            is_random_uuid(context.id),
            exists|slug_id: u128| is_random_uuid(slug_id) && context.slug@ == slug_of(slug_id),
            context.from == from,
    {
        let id = new_id();
        let slug_id = new_id();
        let context = ConnectionContext::with_ids(id, slug_id, from);
        assert(is_random_uuid(slug_id) && context.slug@ == slug_of(slug_id));
        context
    }
}

/// The response to a request that could not be read.
pub open spec fn bad_request() -> Response {
    created(400, "application/json"@, Some(encode_utf8("{\"message\":\"Bad request\"}"@)))
}

/// The response to a request that could not be served.
pub open spec fn server_error() -> Response {
    created(500, "application/json"@, Some(encode_utf8("{\"message\":\"Server error\"}"@)))
}

/// The response to a request for what is not there.
pub open spec fn not_found_response() -> Response {
    created(404, "application/json"@, Some(encode_utf8("{\"message\":\"Not found\"}"@)))
}

/// The response to a request that could not be served.
pub fn handle_500() -> (response: HttpResponse)
    ensures
        response@ == server_error(),
{
    let body = "{\"message\":\"Server error\"}".as_bytes_vec();
    HttpResponse::create(500, String::from_str("application/json"), Some(body))
}

/// The response to a request that could not be read.
pub fn handle_400() -> (response: HttpResponse)
    ensures
        response@ == bad_request(),
{
    let body = "{\"message\":\"Bad request\"}".as_bytes_vec();
    HttpResponse::create(400, String::from_str("application/json"), Some(body))
}

/// The response to a request for what is not there.
pub fn handle_404() -> (response: HttpResponse)
    ensures
        response@ == not_found_response(),
{
    let body = "{\"message\":\"Not found\"}".as_bytes_vec();
    HttpResponse::create(404, String::from_str("application/json"), Some(body))
}

/// The body that a buffer holds for a request head that declares
/// `content_length` bytes, where the body begins at `start`: the declared
/// bytes if there are any and they all lie within the buffer, and no body
/// otherwise.
pub open spec fn buffered_body(bytes: Seq<u8>, start: int, content_length: int) -> Option<Seq<u8>> {
    if content_length > 0 && start + content_length <= bytes.len() {
        Some(bytes.subrange(start, start + content_length))
    } else {
        None
    }
}

/// The request that a buffer holds.
pub open spec fn requested(bytes: Seq<u8>) -> Result<Request, Seq<char>> {
    match buffered_head(bytes) {
        Err(e) => Err(e),
        Ok((head, start)) => Ok(
            Request { head, body: buffered_body(bytes, start, head.content_length) },
        ),
    }
}

/// Reads a request from the buffer that it was received in. A body that does
/// not lie within the buffer is left out.
pub fn parse_request(buffer: [u8; 4096]) -> (request: Result<HttpRequest, &'static str>)
    ensures
        match request {
            Ok(r) => requested(buffer@) == Ok::<Request, Seq<char>>(r@)
                && r.header.content_length >= 0,
            Err(e) => requested(buffer@) == Err::<Request, Seq<char>>(e@),
        },
{
    let (header, body_start_index) = match HttpRequestHeader::create_from_buffer(buffer) {
        Ok(found) => found,
        Err(e) => {
            return Err(e);
        },
    };
    let body = if header.content_length > 0 {
        let length: usize = header.content_length as usize;
        if body_start_index > 4096 || length > 4096 - body_start_index {
            None
        } else {
            let end: usize = body_start_index + length;
            let mut body: Vec<u8> = Vec::new();
            let mut k: usize = body_start_index;
            while k < end
                invariant
                    body_start_index <= k <= end <= 4096,
                    body@ == buffer@.subrange(body_start_index as int, k as int),
                decreases end - k,
            {
                body.push(buffer[k]);
                k = k + 1;
                assert(body@ =~= buffer@.subrange(body_start_index as int, k as int));
            }
            Some(body)
        }
    } else {
        None
    };
    HttpRequest::create(header, body)
}

/// What is to be done next for a connection.
#[derive(Debug)]
pub enum ConnectionStep {
    /// Write this response.
    Respond(HttpResponse),
    /// Do this, and answer with what `finish_connection` makes of the
    /// outcome.
    Perform(RouteAction),
}

/// The model of a step.
pub enum Step {
    Respond(Response),
    Perform(Action),
}

impl View for ConnectionStep {
    type V = Step;

    open spec fn view(&self) -> Step {
        match self {
            ConnectionStep::Respond(response) => Step::Respond(response@),
            ConnectionStep::Perform(action) => Step::Perform(action@),
        }
    }
}

/// What is decided for a connection, and what is written to the log about
/// it.
#[derive(Debug)]
pub struct ConnectionPlan {
    pub log: Vec<LogItem>,
    pub step: ConnectionStep,
}

/// The name of the connection handler in the log.
pub open spec fn handler_name(slug: Seq<char>) -> Seq<char> {
    slug + " connection-handler"@
}

/// What is to be done for the request in a buffer: a request that cannot be
/// read is answered with 400, one that no route serves with 500, and for any
/// other the action of its route is to be performed.
pub open spec fn planned_step(bytes: Seq<u8>, routes: Seq<RouteModel>) -> Step {
    match requested(bytes) {
        Err(_) => Step::Respond(bad_request()),
        Ok(request) => match routed(routes, request.head.route) {
            Err(_) => Step::Respond(server_error()),
            Ok(action) => Step::Perform(action),
        },
    }
}

/// What is written to the log when a connection is taken up.
pub open spec fn planned_log(slug: Seq<char>, bytes: Seq<u8>, routes: Seq<RouteModel>) -> Seq<
    LogRecord,
> {
    let received = record(
        LogItemType::Information,
        handler_name(slug),
        "Connection received"@,
    );
    match requested(bytes) {
        Err(e) => seq![
            received,
            record(LogItemType::Error, handler_name(slug), "Error parsing http request: "@ + e),
        ],
        Ok(request) => {
            let handling = record(
                LogItemType::Information,
                slug + " request-handler"@,
                "Handling request for "@ + request.head.route,
            );
            match routed(routes, request.head.route) {
                Err(e) => seq![
                    received,
                    handling,
                    record(
                        LogItemType::Error,
                        handler_name(slug),
                        "Error in response handler: "@ + e,
                    ),
                ],
                Ok(_) => seq![received, handling],
            }
        },
    }
}

/// What is asked of the routes for `request`, and what is written to the
/// log about it.
pub fn handle_request(request: &HttpRequest, context: &ConnectionContext, route_map: &RouteMap)
    -> (handled: (LogItem, Result<RouteAction, &'static str>))
    ensures
        handled.0@ == record(
            LogItemType::Information,
            context.slug@ + " request-handler"@,
            "Handling request for "@ + request@.head.route,
        ),
        match handled.1 {
            Ok(a) => routed(route_map@, request@.head.route) == Ok::<Action, Seq<char>>(a@),
            Err(e) => routed(route_map@, request@.head.route) == Err::<Action, Seq<char>>(e@),
        },
{
    let mut from = context.slug.clone();
    from.append(" request-handler");
    let mut message = String::from_str("Handling request for ");
    message.append(request.header.route.as_str());
    (LogItem::info(from, message), route_map.handle(request))
}

/// What is to be done for the connection whose request was read into
/// `buffer`.
pub fn handle_connection(buffer: [u8; 4096], context: &ConnectionContext, route_map: &RouteMap)
    -> (plan: ConnectionPlan)
    ensures
        plan.step@ == planned_step(buffer@, route_map@),
        records(plan.log@) == planned_log(context.slug@, buffer@, route_map@),
{
    let mut name = context.slug.clone();
    name.append(" connection-handler");
    let received = LogItem::info(name.clone(), String::from_str("Connection received"));
    match parse_request(buffer) {
        Ok(request) => {
            let (handling, handled) = handle_request(&request, context, route_map);
            match handled {
                Ok(action) => {
                    let log = vec![received, handling];
                    assert(records(log@) =~= planned_log(context.slug@, buffer@, route_map@));
                    ConnectionPlan { log, step: ConnectionStep::Perform(action) }
                },
                Err(e) => {
                    let mut message = String::from_str("Error in response handler: ");
                    message.append(e);
                    let log = vec![received, handling, LogItem::error(name, message)];
                    assert(records(log@) =~= planned_log(context.slug@, buffer@, route_map@));
                    ConnectionPlan { log, step: ConnectionStep::Respond(handle_500()) }
                },
            }
        },
        Err(e) => {
            let mut message = String::from_str("Error parsing http request: ");
            message.append(e);
            let log = vec![received, LogItem::error(name, message)];
            assert(records(log@) =~= planned_log(context.slug@, buffer@, route_map@));
            ConnectionPlan { log, step: ConnectionStep::Respond(handle_400()) }
        },
    }
}

/// The response of a connection whose action had `outcome`, and what is
/// written to the log where the action failed: the response that the action
/// makes of the outcome, or 500.
pub open spec fn finished(action: Action, outcome: RouteOutcome) -> Response {
    match reply(action, outcome) {
        Ok(response) => response,
        Err(_) => server_error(),
    }
}

/// The response of a connection whose action had `outcome`, with what is to
/// be written to the log where the action failed.
pub fn finish_connection(context: &ConnectionContext, action: RouteAction, outcome: RouteOutcome)
    -> (finish: (HttpResponse, Option<LogItem>))
    ensures
        finish.0@ == finished(action@, outcome),
        match reply(action@, outcome) {
            Ok(_) => finish.1 is None,
            Err(e) => finish.1 is Some && finish.1->Some_0@ == record(
                LogItemType::Error,
                handler_name(context.slug@),
                "Error in response handler: "@ + e,
            ),
        },
{
    match action.respond(outcome) {
        Ok(response) => (response, None),
        Err(e) => {
            let mut name = context.slug.clone();
            name.append(" connection-handler");
            let mut message = String::from_str("Error in response handler: ");
            message.append(e);
            (handle_500(), Some(LogItem::error(name, message)))
        },
    }
}

} // verus!
