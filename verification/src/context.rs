//! The per-request bundle a handler works on: the parsed request, the
//! response under construction, the extracted path parameters, and the peer
//! address, with the convenience response builders.
use vstd::prelude::*;

use crate::codes::HttpCode;
use crate::entity::{Request, Response, ResponseRet, ResponseType};
use crate::headers::{spec_get, spec_set, spec_set_default, HttpHeaders};
use crate::jsonlib::{json_dump, json_text_of};
use crate::text::bytes_as_str;
use crate::validator::{spec_error_json, validate_json, Validate, ValidateJson, ValidationError};
use vstd::string::StringSliceAdditionalSpecFns;
use vstd::utf8::encode_utf8;

verus! {

/// A 400 response carrying the error as its JSON body.
pub fn validation_error_response(error: ValidationError) -> (r: Response)
    ensures
        r.code == HttpCode::BadRequest,
        r.headers@ =~= Seq::<(Seq<char>, Seq<char>)>::empty().push(
            ("content-type"@, "application/json"@),
        ),
        r.payload@ == crate::entity::ResponseTypeV::Payload(
            encode_utf8(
                spec_error_json(error.message@, error.path@.map_values(|s: String| s@)),
            ),
        ),
{
    let body = error.into_json();
    Response {
        code: HttpCode::BadRequest,
        headers: HttpHeaders::from_type("application/json"),
        payload: ResponseType::Payload(body.as_str().as_bytes_vec()),
    }
}

/// Everything a handler sees for one request.
pub struct HttpContext {
    pub req: Request,
    pub res: Response,
    pub params: Vec<(String, String)>,
    pub address: String,
}

impl HttpContext {
    /// A fresh context around a parsed request: the response starts not
    /// sent, with no headers and no payload.
    pub fn from(address: String, req: Request, params: Vec<(String, String)>) -> (r: HttpContext)
        ensures
            r.req == req,
            r.params == params,
            r.address == address,
            r.res.code == HttpCode::NotSent,
            r.res.headers@ =~= Seq::<(Seq<char>, Seq<char>)>::empty(),
            r.res.payload@ is NoContent,
    {
        HttpContext { req, res: Response::empty(), params, address }
    }

    /// A request header, by exact stored (lower-cased) name.
    pub fn get_header(&self, name: &str) -> (r: Option<String>)
        ensures
            r is Some <==> spec_get(self.req.headers@, name@) is Some,
            r is Some ==> r.unwrap()@ == spec_get(self.req.headers@, name@).unwrap(),
    {
        self.req.headers.get(name)
    }

    /// A request header, or the given fallback.
    pub fn get_header_default(&self, name: &str, default: String) -> (r: String)
        ensures
            r@ == match spec_get(self.req.headers@, name@) {
                Some(v) => v,
                None => default@,
            },
    {
        match self.get_header(name) {
            Some(v) => v,
            None => default,
        }
    }

    /// Sets a response header, exact-case.
    pub fn set_header(&mut self, name: &str, value: String)
        ensures
            final(self).res.headers@ == spec_set(old(self).res.headers@, name@, value@),
            final(self).res.code == old(self).res.code,
            final(self).res.payload == old(self).res.payload,
            final(self).req == old(self).req,
            final(self).params == old(self).params,
            final(self).address == old(self).address,
    {
        self.res.headers.set(String::from_str(name), value);
    }

    /// Fills the response: status, payload bytes, and the content type
    /// unless one is already set.
    pub fn set_payload(&mut self, content_type: &str, body: Vec<u8>, code: HttpCode)
        ensures
            final(self).res.code == code,
            final(self).res.headers@ == spec_set_default(
                old(self).res.headers@,
                "content-type"@,
                content_type@,
            ),
            final(self).res.payload@ == crate::entity::ResponseTypeV::Payload(body@),
            final(self).req == old(self).req,
            final(self).params == old(self).params,
            final(self).address == old(self).address,
    {
        self.res.code = code;
        self.res.headers.set_default(
            String::from_str("content-type"),
            String::from_str(content_type),
        );
        self.res.payload = ResponseType::Payload(body);
    }

    /// Serializes a JSON value into the response with the given status and
    /// a JSON content type, and stops the handler keeping this response.
    pub fn json_status<T>(&mut self, data: json::JsonValue, code: HttpCode) -> (r: ResponseRet<T>)
        ensures
            r is Continue,
            final(self).res.code == code,
            final(self).res.headers@ == spec_set_default(
                old(self).res.headers@,
                "content-type"@,
                "application/json"@,
            ),
            final(self).res.payload@ == crate::entity::ResponseTypeV::Payload(
                encode_utf8(json_text_of(data)),
            ),
            final(self).req == old(self).req,
            final(self).params == old(self).params,
            final(self).address == old(self).address,
    {
        let text = json_dump(&data);
        self.set_payload("application/json", text.as_str().as_bytes_vec(), code);
        ResponseRet::Continue
    }

    /// `json_status` with status 200.
    pub fn json(&mut self, data: json::JsonValue) -> (r: ResponseRet)
        ensures
            r is Continue,
            final(self).res.code == HttpCode::OK,
            final(self).res.headers@ == spec_set_default(
                old(self).res.headers@,
                "content-type"@,
                "application/json"@,
            ),
            final(self).res.payload@ == crate::entity::ResponseTypeV::Payload(
                encode_utf8(json_text_of(data)),
            ),
            final(self).req == old(self).req,
            final(self).params == old(self).params,
            final(self).address == old(self).address,
    {
        self.json_status(data, HttpCode::OK)
    }

    /// Puts plain text into the response with the given status, and stops
    /// the handler keeping this response.
    pub fn text_status(&mut self, message: &str, code: HttpCode) -> (r: ResponseRet)
        ensures
            r is Continue,
            final(self).res.code == code,
            final(self).res.headers@ == spec_set_default(
                old(self).res.headers@,
                "content-type"@,
                "text/plain"@,
            ),
            final(self).res.payload@ == crate::entity::ResponseTypeV::Payload(
                message.spec_bytes(),
            ),
            final(self).req == old(self).req,
            final(self).params == old(self).params,
            final(self).address == old(self).address,
    {
        self.set_payload("text/plain", message.as_bytes_vec(), code);
        ResponseRet::Continue
    }

    /// `text_status` with status 200.
    pub fn text(&mut self, message: &str) -> (r: ResponseRet)
        ensures
            r is Continue,
            final(self).res.code == HttpCode::OK,
            final(self).res.headers@ == spec_set_default(
                old(self).res.headers@,
                "content-type"@,
                "text/plain"@,
            ),
            final(self).res.payload@ == crate::entity::ResponseTypeV::Payload(
                message.spec_bytes(),
            ),
            final(self).req == old(self).req,
            final(self).params == old(self).params,
            final(self).address == old(self).address,
    {
        self.text_status(message, HttpCode::OK)
    }

    /// A temporary redirect to the target, with no body.
    pub fn redirect(&mut self, target: &str) -> (r: ResponseRet)
        ensures
            r is Continue,
            final(self).res.code == HttpCode::TemporaryRedirect,
            final(self).res.headers@ == spec_set(old(self).res.headers@, "location"@, target@),
            final(self).res.payload@ is NoContent,
            final(self).req == old(self).req,
            final(self).params == old(self).params,
            final(self).address == old(self).address,
    {
        self.res.code = HttpCode::TemporaryRedirect;
        self.res.headers.set(String::from_str("location"), String::from_str(target));
        self.res.payload = ResponseType::NoContent;
        ResponseRet::Continue
    }

    /// Discards the context and replaces the response with the drop marker:
    /// nothing at all is written to the wire.
    pub fn drop(self) -> (r: ResponseRet)
        ensures
            r is Replace,
            r->Replace_0.code == HttpCode::GatewayTimeout,
            r->Replace_0.headers@ =~= Seq::<(Seq<char>, Seq<char>)>::empty(),
            r->Replace_0.payload@ is Drop,
    {
        ResponseRet::Replace(Response::drop())
    }

    /// Parses and validates the request body against a payload type. A body
    /// that is not UTF-8 short-circuits with the library's own fixed 400
    /// error before any parsing; one that does not parse or does not
    /// validate short-circuits with a 400 whose JSON body carries that
    /// structured error. The context itself is left untouched; whether a
    /// UTF-8 body parses and validates is the payload type's own business.
    pub fn validate_json<T: Validate + ValidateJson + Default>(&mut self) -> (r: ResponseRet<T>)
        ensures
            !(r is Continue),
            r is Value ==> vstd::utf8::valid_utf8(old(self).req.body@),
            !vstd::utf8::valid_utf8(old(self).req.body@) ==> r is Replace
                && r->Replace_0.payload@ == crate::entity::ResponseTypeV::Payload(
                encode_utf8(
                    spec_error_json("invalid UTF-8 in request body"@, Seq::<Seq<char>>::empty()),
                ),
            ),
            r is Replace ==> {
                let res = r->Replace_0;
                &&& res.code == HttpCode::BadRequest
                &&& res.headers@ == Seq::<(Seq<char>, Seq<char>)>::empty().push(
                    ("content-type"@, "application/json"@),
                )
                &&& exists|m: Seq<char>, p: Seq<Seq<char>>|
                    res.payload@ == crate::entity::ResponseTypeV::Payload(
                        encode_utf8(spec_error_json(m, p)),
                    )
            },
            *final(self) == *old(self),
    {
        let body_str = match bytes_as_str(&self.req.body) {
            Some(s) => s,
            None => {
                let error = ValidationError {
                    message: String::from_str("invalid UTF-8 in request body"),
                    path: Vec::new(),
                };
                let ghost m = error.message@;
                let ghost p = error.path@.map_values(|s: String| s@);
                proof {
                    assert(m == "invalid UTF-8 in request body"@);
                    assert(p =~= Seq::<Seq<char>>::empty());
                }
                let res = validation_error_response(error);
                assert(res.payload@ == crate::entity::ResponseTypeV::Payload(
                    encode_utf8(spec_error_json(m, p)),
                ));
                return ResponseRet::Replace(res);
            },
        };
        match validate_json::<T>(body_str) {
            Ok(payload) => ResponseRet::Value(payload),
            Err(error) => {
                let ghost m = error.message@;
                let ghost p = error.path@.map_values(|s: String| s@);
                let res = validation_error_response(error);
                assert(res.payload@ == crate::entity::ResponseTypeV::Payload(
                    encode_utf8(spec_error_json(m, p)),
                ));
                ResponseRet::Replace(res)
            },
        }
    }
}

} // verus!
