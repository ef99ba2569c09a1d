//! Requests, responses, and the three-way handler result.
use vstd::prelude::*;

use crate::codes::HttpCode;
use crate::headers::{spec_get, HttpHeaders};
use crate::text::{spec_find_char_from, spec_parse_usize, find_char_from, parse_usize, str_eq};
use vstd::string::StringSliceAdditionalSpecFns;

verus! {

/// The closed set of methods the server understands.
#[derive(Copy, Clone, PartialEq, Eq, Structural, Debug)]
pub enum HttpMethod {
    GET,
    POST,
    OPTIONS,
}

pub open spec fn spec_method_from(s: Seq<char>) -> Option<HttpMethod> {
    if s == "GET"@ {
        Some(HttpMethod::GET)
    } else if s == "POST"@ {
        Some(HttpMethod::POST)
    } else if s == "OPTIONS"@ {
        Some(HttpMethod::OPTIONS)
    } else {
        None
    }
}

/// Only a `POST` carries a body.
pub open spec fn spec_method_has_body(m: HttpMethod) -> bool {
    m is POST
}

impl HttpMethod {
    /// The method named by the token, if it is in the closed set.
    pub fn from_str(method: &str) -> (r: Option<HttpMethod>)
        ensures
            r == spec_method_from(method@),
    {
        if str_eq(method, "GET") {
            Some(HttpMethod::GET)
        } else if str_eq(method, "POST") {
            Some(HttpMethod::POST)
        } else if str_eq(method, "OPTIONS") {
            Some(HttpMethod::OPTIONS)
        } else {
            None
        }
    }
}

/// Ghost image of a request.
pub struct RequestV {
    pub path: Seq<char>,
    pub query: Seq<char>,
    pub headers: Seq<(Seq<char>, Seq<char>)>,
    pub method: HttpMethod,
    pub body: Seq<u8>,
}

/// A parsed request.
#[derive(Debug)]
pub struct Request {
    pub path: String,
    pub query: String,
    pub headers: HttpHeaders,
    pub method: HttpMethod,
    pub body: Vec<u8>,
}

impl View for Request {
    type V = RequestV;

    open spec fn view(&self) -> RequestV {
        RequestV {
            path: self.path@,
            query: self.query@,
            headers: self.headers@,
            method: self.method,
            body: self.body@,
        }
    }
}

/// The path part of a raw URL: everything before the first `?`.
pub open spec fn spec_url_path(url: Seq<char>) -> Seq<char> {
    url.take(spec_find_char_from(url, 0, '?'))
}

/// The query part of a raw URL: everything after the first `?`, or empty.
pub open spec fn spec_url_query(url: Seq<char>) -> Seq<char> {
    let q = spec_find_char_from(url, 0, '?');
    if q < url.len() {
        url.skip(q + 1)
    } else {
        Seq::empty()
    }
}

impl Request {
    /// A fresh request: the raw URL is split at the first `?` into path and
    /// query; headers and body start empty.
    pub fn new(method: HttpMethod, url_path: String) -> (r: Request)
        ensures
            r.method == method,
            r.path@ == spec_url_path(url_path@),
            r.query@ == spec_url_query(url_path@),
            r.headers@ == Seq::<(Seq<char>, Seq<char>)>::empty(),
            r.body@ == Seq::<u8>::empty(),
    {
        let len = url_path.as_str().unicode_len();
        let q = find_char_from(url_path.as_str(), 0, '?');
        if q < len {
            let path = url_path.as_str().substring_char(0, q).to_owned();
            let query = url_path.as_str().substring_char(q + 1, len).to_owned();
            assert(path@ =~= spec_url_path(url_path@));
            assert(query@ =~= spec_url_query(url_path@));
            Request { path, query, method, headers: HttpHeaders::empty(), body: Vec::new() }
        } else {
            assert(url_path@ =~= spec_url_path(url_path@));
            Request {
                path: url_path,
                query: String::new(),
                method,
                headers: HttpHeaders::empty(),
                body: Vec::new(),
            }
        }
    }

    /// The declared body length: the `content-length` header parsed as a
    /// decimal number, if present and well-formed.
    pub fn parse_content_length(&self) -> (r: Option<usize>)
        ensures
            r == spec_content_length(self.headers@),
    {
        match self.headers.get("content-length") {
            Some(v) => parse_usize(v.as_str()),
            None => None,
        }
    }
}

/// What `parse_content_length` yields on a header list.
pub open spec fn spec_content_length(headers: Seq<(Seq<char>, Seq<char>)>) -> Option<usize> {
    match spec_get(headers, "content-length"@) {
        Some(v) => spec_parse_usize(v),
        None => None,
    }
}

/// Ghost image of a response payload.
pub enum ResponseTypeV {
    NoContent,
    Payload(Seq<u8>),
    Upgrade,
    Drop,
}

/// What a response carries: nothing, bytes, an upgrade marker, or a drop
/// marker that suppresses the reply entirely.
#[derive(Debug)]
pub enum ResponseType {
    NoContent,
    Payload(Vec<u8>),
    Upgrade,
    Drop,
}

impl View for ResponseType {
    type V = ResponseTypeV;

    open spec fn view(&self) -> ResponseTypeV {
        match self {
            ResponseType::NoContent => ResponseTypeV::NoContent,
            ResponseType::Payload(p) => ResponseTypeV::Payload(p@),
            ResponseType::Upgrade => ResponseTypeV::Upgrade,
            ResponseType::Drop => ResponseTypeV::Drop,
        }
    }
}

/// Ghost image of a response.
pub struct ResponseV {
    pub code: HttpCode,
    pub headers: Seq<(Seq<char>, Seq<char>)>,
    pub payload: ResponseTypeV,
}

/// A response under construction or ready to serialize.
#[derive(Debug)]
pub struct Response {
    pub code: HttpCode,
    pub headers: HttpHeaders,
    pub payload: ResponseType,
}

impl View for Response {
    type V = ResponseV;

    open spec fn view(&self) -> ResponseV {
        ResponseV { code: self.code, headers: self.headers@, payload: self.payload@ }
    }
}

impl Response {
    /// A response nobody has filled in yet.
    pub fn empty() -> (r: Response)
        ensures
            r.code == HttpCode::NotSent,
            r.headers@ =~= Seq::<(Seq<char>, Seq<char>)>::empty(),
            r.payload@ is NoContent,
    {
        Response {
            code: HttpCode::NotSent,
            headers: HttpHeaders::empty(),
            payload: ResponseType::NoContent,
        }
    }

    /// A plain-text response with the given status and message.
    pub fn from_code(code: HttpCode, message: &str) -> (r: Response)
        ensures
            r.code == code,
            r.headers@ =~= Seq::<(Seq<char>, Seq<char>)>::empty().push(
                ("content-type"@, "text/plain"@),
            ),
            r.payload@ == ResponseTypeV::Payload(message.spec_bytes()),
    {
        Response {
            code,
            headers: HttpHeaders::from_type("text/plain"),
            payload: ResponseType::Payload(message.as_bytes_vec()),
        }
    }

    /// A bodiless response with the given status.
    pub fn from_status(code: HttpCode) -> (r: Response)
        ensures
            r.code == code,
            r.headers@ =~= Seq::<(Seq<char>, Seq<char>)>::empty(),
            r.payload@ is NoContent,
    {
        Response { code, headers: HttpHeaders::empty(), payload: ResponseType::NoContent }
    }

    /// A response that writes nothing at all to the wire.
    pub fn drop() -> (r: Response)
        ensures
            r.code == HttpCode::GatewayTimeout,
            r.headers@ =~= Seq::<(Seq<char>, Seq<char>)>::empty(),
            r.payload@ is Drop,
    {
        Response {
            code: HttpCode::GatewayTimeout,
            headers: HttpHeaders::empty(),
            payload: ResponseType::Drop,
        }
    }
}

/// Ghost image of a parse outcome.
pub enum ParsingResultV {
    Complete(RequestV),
    Partial,
    Error(HttpCode),
    Invalid,
}

/// What parsing a connection yields: a complete request, a signal that more
/// bytes are needed, a classifiable error, or an unrecoverable stream.
pub enum ParsingResult {
    Complete(Request),
    Partial,
    Error(HttpCode),
    Invalid,
}

impl View for ParsingResult {
    type V = ParsingResultV;

    open spec fn view(&self) -> ParsingResultV {
        match self {
            ParsingResult::Complete(req) => ParsingResultV::Complete(req@),
            ParsingResult::Partial => ParsingResultV::Partial,
            ParsingResult::Error(code) => ParsingResultV::Error(*code),
            ParsingResult::Invalid => ParsingResultV::Invalid,
        }
    }
}

/// A handler's three-way result: continue with a value, stop and keep the
/// response already on the context, or stop and substitute this response.
pub enum ResponseRet<T = ()> {
    Value(T),
    Continue,
    Replace(Response),
}

impl<T> ResponseRet<T> {
    /// Law: propagation is transparent. A nested call's non-value result
    /// short-circuits the caller with the same outcome: `Continue` stays
    /// `Continue` and `Replace` keeps its response.
    pub fn propagate<B>(self) -> (r: ResponseRet<B>)
        requires
            !(self is Value),
        ensures
            r is Continue <==> self is Continue,
            r is Replace <==> self is Replace,
            self is Replace ==> r->Replace_0 == self->Replace_0,
    {
        match self {
            ResponseRet::Value(_) => {
                proof {
                    assert(false);
                }
                ResponseRet::Continue
            },
            ResponseRet::Continue => ResponseRet::Continue,
            ResponseRet::Replace(res) => ResponseRet::Replace(res),
        }
    }
}

} // verus!
