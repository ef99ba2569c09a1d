//! Per-connection decisions: what to do with a parse outcome, how an HTTP
//! request is routed, and how a handler's result becomes the final response.
//! The surrounding loop that reads sockets and invokes handlers performs
//! these decisions; nothing here touches a connection.
use vstd::prelude::*;

use crate::codes::HttpCode;
use crate::cors::{
    spec_apply_normal, spec_apply_preflight, spec_cors_origin, Cors, CorsConfig,
};
use crate::entity::{ParsingResult, Request, Response, ResponseRet};
use crate::headers::spec_get;
use crate::router::{params_view, spec_match, Router};
use crate::text::str_eq;
use vstd::string::StringSliceAdditionalSpecFns;

verus! {

/// Is the request an upgrade candidate: header `Connection` equals
/// `Upgrade`, exactly.
pub open spec fn spec_is_connection_upgrade(h: Seq<(Seq<char>, Seq<char>)>) -> bool {
    spec_get(h, "connection"@) == Some("Upgrade"@)
}

/// Is the candidate specifically a WebSocket upgrade: header `Upgrade`
/// equals `websocket`, exactly.
pub open spec fn spec_is_websocket_upgrade(h: Seq<(Seq<char>, Seq<char>)>) -> bool {
    spec_get(h, "upgrade"@) == Some("websocket"@)
}

pub fn is_connection_upgrade(req: &Request) -> (r: bool)
    ensures
        r == spec_is_connection_upgrade(req.headers@),
{
    match req.headers.get("connection") {
        Some(v) => str_eq(v.as_str(), "Upgrade"),
        None => false,
    }
}

pub fn is_websocket_upgrade(req: &Request) -> (r: bool)
    ensures
        r == spec_is_websocket_upgrade(req.headers@),
{
    match req.headers.get("upgrade") {
        Some(v) => str_eq(v.as_str(), "websocket"),
        None => false,
    }
}

/// What the connection loop must do with a parse outcome.
pub enum ConnectionStep {
    /// Serve the request over plain HTTP.
    Http(Request),
    /// Hand the request to the WebSocket handshake.
    WebSocket(Request),
    /// Answer and leave the connection to its fate (a non-WebSocket
    /// upgrade attempt).
    RespondOnly(Response),
    /// Answer, then disconnect (a classifiable protocol error).
    RespondAndClose(Response),
    /// Disconnect without an answer (an unrecoverable stream).
    CloseOnly,
    /// Nothing yet: more bytes may come.
    Idle,
}

/// Decides the connection's fate from the parse outcome: a complete request
/// goes to HTTP or to the WebSocket handshake; a non-WebSocket upgrade gets
/// a bare bad-request answer; a classifiable error is answered with its
/// status and the connection closed; an invalid stream is dropped silently.
pub fn connection_step(pr: ParsingResult) -> (r: ConnectionStep)
    ensures
        match pr@ {
            crate::entity::ParsingResultV::Complete(rv) => {
                if spec_is_connection_upgrade(rv.headers) {
                    if spec_is_websocket_upgrade(rv.headers) {
                        r is WebSocket && r->WebSocket_0@ == rv
                    } else {
                        &&& r is RespondOnly
                        &&& r->RespondOnly_0.code == HttpCode::BadRequest
                        &&& r->RespondOnly_0.headers@ == Seq::<(Seq<char>, Seq<char>)>::empty()
                        &&& r->RespondOnly_0.payload@ is NoContent
                    }
                } else {
                    r is Http && r->Http_0@ == rv
                }
            },
            crate::entity::ParsingResultV::Partial => r is Idle,
            crate::entity::ParsingResultV::Error(code) => {
                &&& r is RespondAndClose
                &&& r->RespondAndClose_0.code == code
                &&& r->RespondAndClose_0.headers@ == Seq::<(Seq<char>, Seq<char>)>::empty()
                &&& r->RespondAndClose_0.payload@ is NoContent
            },
            crate::entity::ParsingResultV::Invalid => r is CloseOnly,
        },
{
    match pr {
        ParsingResult::Complete(req) => {
            if is_connection_upgrade(&req) {
                if is_websocket_upgrade(&req) {
                    ConnectionStep::WebSocket(req)
                } else {
                    ConnectionStep::RespondOnly(Response::from_status(HttpCode::BadRequest))
                }
            } else {
                ConnectionStep::Http(req)
            }
        },
        ParsingResult::Partial => ConnectionStep::Idle,
        ParsingResult::Error(code) => ConnectionStep::RespondAndClose(
            Response::from_status(code),
        ),
        ParsingResult::Invalid => ConnectionStep::CloseOnly,
    }
}

/// How an HTTP request proceeds: a ready response (preflight or not-found),
/// or the first matching route with its extracted parameters.
pub enum HttpPlan {
    Ready(Response),
    Invoke(usize, Vec<(String, String)>),
}

/// Routes one HTTP request. A preflight (`OPTIONS`) is answered 200 with the
/// preflight CORS headers no matter what the path is; otherwise the first
/// registered route whose pattern matches the path is invoked with its
/// captured parameters; with no match, a plain-text 404 with the normal CORS
/// headers.
pub fn plan_http<H>(req: &Request, router: &Router<H>, config: &CorsConfig) -> (r: HttpPlan)
    ensures
        req.method is OPTIONS ==> {
            &&& r is Ready
            &&& r->Ready_0.code == HttpCode::OK
            &&& r->Ready_0.headers@ == spec_apply_preflight(
                Seq::empty(),
                spec_cors_origin(req.headers@),
                config.origin@,
                config.methods@,
                config.headers@,
                config.ttl@,
            )
            &&& r->Ready_0.payload@ is NoContent
        },
        !(req.method is OPTIONS) ==> match r {
            HttpPlan::Invoke(i, params) => {
                &&& i < router.routes@.len()
                &&& spec_match(router.routes@[i as int].matcher@, req.path@) is Some
                &&& params_view(params@) == spec_match(
                    router.routes@[i as int].matcher@,
                    req.path@,
                ).unwrap()
                &&& forall|j: int|
                    0 <= j < i ==> spec_match(router.routes@[j].matcher@, req.path@) is None
            },
            HttpPlan::Ready(res) => {
                &&& forall|j: int|
                    0 <= j < router.routes@.len() ==> spec_match(
                        router.routes@[j].matcher@,
                        req.path@,
                    ) is None
                &&& res.code == HttpCode::NotFound
                &&& res.payload@ == crate::entity::ResponseTypeV::Payload(
                    "API endpoint not found".spec_bytes(),
                )
                &&& res.headers@ == spec_apply_normal(
                    Seq::<(Seq<char>, Seq<char>)>::empty().push(
                        ("content-type"@, "text/plain"@),
                    ),
                    spec_cors_origin(req.headers@),
                    config.origin@,
                    config.headers@,
                )
            },
        },
{
    let cors = Cors::new(req);
    match req.method {
        crate::entity::HttpMethod::OPTIONS => {
            let mut res = Response::from_status(HttpCode::OK);
            cors.apply_preflight(&mut res, config);
            HttpPlan::Ready(res)
        },
        _ => {
            match router.match_path(req.path.as_str()) {
                Some((i, params)) => HttpPlan::Invoke(i, params),
                None => {
                    let mut res = Response::from_code(
                        HttpCode::NotFound,
                        "API endpoint not found",
                    );
                    cors.apply_normal(&mut res, config);
                    HttpPlan::Ready(res)
                },
            }
        },
    }
}

/// Resolves what the handler left behind: a `Replace` result supplies the
/// response outright, anything else keeps the context's response; either way
/// the normal CORS headers are applied on top.
pub fn finish_http(
    ctx_res: Response,
    ret: ResponseRet,
    req_origin: Cors,
    config: &CorsConfig,
) -> (r: Response)
    ensures
        ({
            let base = if ret is Replace {
                ret->Replace_0
            } else {
                ctx_res
            };
            &&& r.code == base.code
            &&& r.payload == base.payload
            &&& r.headers@ == spec_apply_normal(
                base.headers@,
                req_origin.origin@,
                config.origin@,
                config.headers@,
            )
        }),
{
    let mut res = match ret {
        ResponseRet::Replace(response) => response,
        _ => ctx_res,
    };
    req_origin.apply_normal(&mut res, config);
    res
}

} // verus!
