//! The HTTP/1.1 wire engine: parses a request out of the bytes a connection
//! has delivered so far, and serializes a response back to bytes.
//!
//! Parsing is incremental: `eof` says whether the connection can still
//! deliver more bytes. While it can, an incomplete buffer yields `Partial`;
//! once it cannot, the buffer is judged as final.
use vstd::prelude::*;

use crate::codes::HttpCode;
use crate::entity::{
    spec_content_length, spec_method_from, spec_method_has_body, spec_url_path, spec_url_query,
    HttpMethod, ParsingResult, ParsingResultV, Request, RequestV,
};
use crate::headers::{spec_set_normal, HttpHeaders};
use crate::text::{
    lemma_find_byte_from, spec_find_byte_from, utf8_lossy_of, bytes_to_string, find_byte_from,
};
use vstd::utf8::encode_utf8;

verus! {

// Wire bytes written as numbers: 10 is LF, 13 is CR, 32 is the space,
// 58 is the colon.
/// The fixed status-line prefix `HTTP/1.`, as bytes.
pub open spec fn spec_http_prefix() -> Seq<u8> {
    seq![72u8, 84u8, 84u8, 80u8, 47u8, 49u8, 46u8]
}

/// Outcome of the header section: the accumulated headers and the offset
/// where the body starts, or the verdict that ends parsing.
pub enum HeaderStep {
    Done(Seq<(Seq<char>, Seq<char>)>, int),
    Fail(ParsingResultV),
}

/// The header section from offset `q` on. Each line must open with a LF;
/// a CR LF pair ends the section; otherwise the name runs to the colon and
/// the value to the CR, and the pair goes through the case-insensitive
/// setter. A name or value that never terminates is a header-fields error
/// once no more bytes can come.
pub open spec fn spec_parse_headers(
    data: Seq<u8>,
    q: int,
    acc: Seq<(Seq<char>, Seq<char>)>,
    eof: bool,
) -> HeaderStep
    recommends
        0 <= q <= data.len(),
    decreases data.len() - q,
        via spec_parse_headers_dec
{
    let len = data.len() as int;
    if q < 0 || q >= len {
        HeaderStep::Fail(
            if eof {
                ParsingResultV::Invalid
            } else {
                ParsingResultV::Partial
            },
        )
    } else if data[q] != 10 {
        HeaderStep::Fail(ParsingResultV::Invalid)
    } else if len - q < 3 {
        HeaderStep::Fail(
            if eof {
                ParsingResultV::Invalid
            } else {
                ParsingResultV::Partial
            },
        )
    } else if data[q + 1] == 13 && data[q + 2] == 10 {
        HeaderStep::Done(acc, q + 3)
    } else {
        let colon = spec_find_byte_from(data, q + 1, 58);
        if colon == len {
            HeaderStep::Fail(
                if eof {
                    ParsingResultV::Error(HttpCode::RequestHeaderFieldsTooLarge)
                } else {
                    ParsingResultV::Partial
                },
            )
        } else {
            let cr = spec_find_byte_from(data, colon + 1, 13);
            if cr == len {
                HeaderStep::Fail(
                    if eof {
                        ParsingResultV::Error(HttpCode::RequestHeaderFieldsTooLarge)
                    } else {
                        ParsingResultV::Partial
                    },
                )
            } else {
                let name = utf8_lossy_of(data.subrange(q + 1, colon));
                let value = utf8_lossy_of(data.subrange(colon + 1, cr));
                spec_parse_headers(data, cr + 1, spec_set_normal(acc, name, value), eof)
            }
        }
    }
}

#[via_fn]
proof fn spec_parse_headers_dec(data: Seq<u8>, q: int, acc: Seq<(Seq<char>, Seq<char>)>, eof: bool) {
    if 0 <= q && q < data.len() {
        lemma_find_byte_from(data, q + 1, 58);
        let colon = spec_find_byte_from(data, q + 1, 58);
        if colon < data.len() {
            lemma_find_byte_from(data, colon + 1, 13);
        }
    }
}

/// A finished request from its pieces.
pub open spec fn spec_complete(
    url: Seq<char>,
    method: HttpMethod,
    headers: Seq<(Seq<char>, Seq<char>)>,
    body: Seq<u8>,
) -> ParsingResultV {
    ParsingResultV::Complete(
        RequestV {
            path: spec_url_path(url),
            query: spec_url_query(url),
            headers,
            method,
            body,
        },
    )
}

/// The body that follows the header section at offset `b`. Only a method
/// that carries a body reads one: a well-formed `content-length` demands
/// exactly that many bytes; without one the body is everything the
/// connection still delivers.
pub open spec fn spec_parse_body(
    data: Seq<u8>,
    b: int,
    method: HttpMethod,
    url: Seq<char>,
    headers: Seq<(Seq<char>, Seq<char>)>,
    eof: bool,
) -> ParsingResultV {
    let len = data.len() as int;
    if spec_method_has_body(method) {
        match spec_content_length(headers) {
            Some(clen) => {
                if b + clen <= len {
                    spec_complete(url, method, headers, data.subrange(b, b + clen))
                } else if eof {
                    ParsingResultV::Invalid
                } else {
                    ParsingResultV::Partial
                }
            },
            None => {
                if eof {
                    spec_complete(url, method, headers, data.subrange(b, len))
                } else {
                    ParsingResultV::Partial
                }
            },
        }
    } else {
        spec_complete(url, method, headers, Seq::empty())
    }
}

/// What a full parse of the delivered bytes yields, and the version-minor
/// byte if the parse got far enough to read one.
pub struct SpecParse {
    pub outcome: ParsingResultV,
    pub minor: Option<u8>,
}

/// The whole request grammar: method token to the first space, raw URL to
/// the next space, the fixed `HTTP/1.` prefix with one version byte and a
/// CR, then the header section, then the body.
pub open spec fn spec_parse(data: Seq<u8>, eof: bool) -> SpecParse {
    let len = data.len() as int;
    let sp1 = spec_find_byte_from(data, 0, 32);
    if sp1 == len {
        SpecParse {
            outcome: if eof {
                ParsingResultV::Invalid
            } else {
                ParsingResultV::Partial
            },
            minor: None,
        }
    } else {
        match spec_method_from(utf8_lossy_of(data.subrange(0, sp1))) {
            None => SpecParse {
                outcome: ParsingResultV::Error(HttpCode::MethodNotAllowed),
                minor: None,
            },
            Some(method) => {
                let sp2 = spec_find_byte_from(data, sp1 + 1, 32);
                if sp2 == len {
                    SpecParse {
                        outcome: if eof {
                            ParsingResultV::Error(HttpCode::RequestEntityTooLarge)
                        } else {
                            ParsingResultV::Partial
                        },
                        minor: None,
                    }
                } else {
                    let url = utf8_lossy_of(data.subrange(sp1 + 1, sp2));
                    if len - sp2 < 9 {
                        SpecParse {
                            outcome: if eof {
                                ParsingResultV::Invalid
                            } else {
                                ParsingResultV::Partial
                            },
                            minor: None,
                        }
                    } else if data.subrange(sp2 + 1, sp2 + 8) != spec_http_prefix() {
                        SpecParse { outcome: ParsingResultV::Invalid, minor: None }
                    } else {
                        let minor = data[sp2 + 8];
                        if len - sp2 < 10 {
                            SpecParse {
                                outcome: if eof {
                                    ParsingResultV::Invalid
                                } else {
                                    ParsingResultV::Partial
                                },
                                minor: Some(minor),
                            }
                        } else if data[sp2 + 9] != 13 {
                            SpecParse { outcome: ParsingResultV::Invalid, minor: Some(minor) }
                        } else {
                            let outcome = match spec_parse_headers(
                                data,
                                sp2 + 10,
                                Seq::empty(),
                                eof,
                            ) {
                                HeaderStep::Fail(o) => o,
                                HeaderStep::Done(headers, body_start) => spec_parse_body(
                                    data,
                                    body_start,
                                    method,
                                    url,
                                    headers,
                                    eof,
                                ),
                            };
                            SpecParse { outcome, minor: Some(minor) }
                        }
                    }
                }
            },
        }
    }
}

/// The bytes `data[a..b]` as text.
fn bytes_range_to_string(data: &Vec<u8>, a: usize, b: usize) -> (r: String)
    requires
        a <= b <= data@.len(),
    ensures
        r@ == utf8_lossy_of(data@.subrange(a as int, b as int)),
{
    let piece = vstd::slice::slice_to_vec(&data.as_slice()[a..b]);
    assert(piece@ =~= data@.subrange(a as int, b as int));
    bytes_to_string(&piece)
}

/// The bytes `data[a..b]` as their own vector.
fn bytes_range_to_vec(data: &Vec<u8>, a: usize, b: usize) -> (r: Vec<u8>)
    requires
        a <= b <= data@.len(),
    ensures
        r@ == data@.subrange(a as int, b as int),
{
    let piece = vstd::slice::slice_to_vec(&data.as_slice()[a..b]);
    assert(piece@ =~= data@.subrange(a as int, b as int));
    piece
}

/// Walks the header section, filling `headers` line by line.
fn parse_headers(data: &Vec<u8>, q: usize, headers: &mut HttpHeaders, eof: bool) -> (r: Result<
    usize,
    ParsingResult,
>)
    requires
        q <= data@.len(),
    ensures
        match spec_parse_headers(data@, q as int, old(headers)@, eof) {
            HeaderStep::Done(h, b) => r is Ok && r->Ok_0 == b && final(headers)@ == h && q
                <= r->Ok_0 <= data@.len(),
            HeaderStep::Fail(o) => r is Err && r->Err_0@ == o,
        },
    decreases data@.len() - q,
{
    let len = data.len();
    if q >= len {
        return Err(
            if eof {
                ParsingResult::Invalid
            } else {
                ParsingResult::Partial
            },
        );
    }
    if data[q] != 10 {
        return Err(ParsingResult::Invalid);
    }
    if len - q < 3 {
        return Err(
            if eof {
                ParsingResult::Invalid
            } else {
                ParsingResult::Partial
            },
        );
    }
    if data[q + 1] == 13 && data[q + 2] == 10 {
        return Ok(q + 3);
    }
    let colon = find_byte_from(data, q + 1, 58);
    if colon == len {
        return Err(
            if eof {
                ParsingResult::Error(HttpCode::RequestHeaderFieldsTooLarge)
            } else {
                ParsingResult::Partial
            },
        );
    }
    let cr = find_byte_from(data, colon + 1, 13);
    if cr == len {
        return Err(
            if eof {
                ParsingResult::Error(HttpCode::RequestHeaderFieldsTooLarge)
            } else {
                ParsingResult::Partial
            },
        );
    }
    let name = bytes_range_to_string(data, q + 1, colon);
    let value = bytes_range_to_string(data, colon + 1, cr);
    headers.set_normal(name, value);
    parse_headers(data, cr + 1, headers, eof)
}

/// The wire engine. It remembers the version-minor byte of the request it
/// parsed, to echo it on the status line of the response.
pub struct Http1Engine {
    pub version_minor: u8,
}

impl Http1Engine {
    /// An engine that has not seen a request yet.
    pub fn new() -> (r: Http1Engine)
        ensures
            r.version_minor == 0,
    {
        Http1Engine { version_minor: 0 }
    }

    /// Parses the bytes delivered so far. `eof` says no more can come.
    pub fn parse(&mut self, data: &Vec<u8>, eof: bool) -> (r: ParsingResult)
        ensures
            r@ == spec_parse(data@, eof).outcome,
            final(self).version_minor == match spec_parse(data@, eof).minor {
                Some(m) => m,
                None => old(self).version_minor,
            },
    {
        let len = data.len();
        let sp1 = find_byte_from(data, 0, 32);
        if sp1 == len {
            return if eof {
                ParsingResult::Invalid
            } else {
                ParsingResult::Partial
            };
        }
        let method_token = bytes_range_to_string(data, 0, sp1);
        let method = match HttpMethod::from_str(method_token.as_str()) {
            None => {
                return ParsingResult::Error(HttpCode::MethodNotAllowed);
            },
            Some(m) => m,
        };
        let sp2 = find_byte_from(data, sp1 + 1, 32);
        if sp2 == len {
            return if eof {
                ParsingResult::Error(HttpCode::RequestEntityTooLarge)
            } else {
                ParsingResult::Partial
            };
        }
        let url = bytes_range_to_string(data, sp1 + 1, sp2);
        if len - sp2 < 9 {
            return if eof {
                ParsingResult::Invalid
            } else {
                ParsingResult::Partial
            };
        }
        let prefix_ok = data[sp2 + 1] == 72 && data[sp2 + 2] == 84 && data[sp2 + 3] == 84
            && data[sp2 + 4] == 80 && data[sp2 + 5] == 47 && data[sp2 + 6] == 49 && data[sp2 + 7]
            == 46;
        proof {
            let sub = data@.subrange(sp2 + 1, sp2 + 8);
            assert(sub.len() == 7);
            assert(sub[0] == data@[sp2 + 1] && sub[1] == data@[sp2 + 2] && sub[2] == data@[sp2 + 3]
                && sub[3] == data@[sp2 + 4] && sub[4] == data@[sp2 + 5] && sub[5] == data@[sp2 + 6]
                && sub[6] == data@[sp2 + 7]);
            if prefix_ok {
                assert(sub =~= spec_http_prefix());
            } else {
                assert(sub != spec_http_prefix());
            }
        }
        if !prefix_ok {
            return ParsingResult::Invalid;
        }
        self.version_minor = data[sp2 + 8];
        if len - sp2 < 10 {
            return if eof {
                ParsingResult::Invalid
            } else {
                ParsingResult::Partial
            };
        }
        if data[sp2 + 9] != 13 {
            return ParsingResult::Invalid;
        }
        let mut req = Request::new(method, url);
        let mut headers = HttpHeaders::empty();
        assert(headers@ =~= Seq::<(Seq<char>, Seq<char>)>::empty());
        let body_start = match parse_headers(data, sp2 + 10, &mut headers, eof) {
            Err(outcome) => {
                return outcome;
            },
            Ok(b) => b,
        };
        req.headers = headers;
        let has_body = match method {
            HttpMethod::POST => true,
            _ => false,
        };
        if has_body {
            match req.parse_content_length() {
                Some(clen) => {
                    if clen <= len - body_start {
                        req.body = bytes_range_to_vec(data, body_start, body_start + clen);
                        ParsingResult::Complete(req)
                    } else if eof {
                        ParsingResult::Invalid
                    } else {
                        ParsingResult::Partial
                    }
                },
                None => {
                    if eof {
                        req.body = bytes_range_to_vec(data, body_start, len);
                        ParsingResult::Complete(req)
                    } else {
                        ParsingResult::Partial
                    }
                },
            }
        } else {
            assert(req.body@ =~= Seq::<u8>::empty());
            ParsingResult::Complete(req)
        }
    }

    /// Serializes a response under this engine's remembered version byte.
    pub fn serialize_response(&self, res: Response) -> (r: Vec<u8>)
        ensures
            r@ == spec_serialize(self.version_minor, res@),
    {
        serialize_response_with(self.version_minor, res)
    }
}

/// One serialized header line: CR LF, the name, a colon and a space, the
/// value.
pub open spec fn spec_header_line(h: (Seq<char>, Seq<char>)) -> Seq<u8> {
    seq![13u8, 10u8] + encode_utf8(h.0) + seq![58u8, 32u8] + encode_utf8(h.1)
}

/// All header lines, in stored order.
pub open spec fn spec_headers_bytes(hs: Seq<(Seq<char>, Seq<char>)>) -> Seq<u8>
    decreases hs.len(),
{
    if hs.len() == 0 {
        Seq::empty()
    } else {
        spec_headers_bytes(hs.drop_last()) + spec_header_line(hs.last())
    }
}

/// The whole response on the wire: the status line `HTTP/1.<minor> <code>
/// <reason>`, the header lines, a blank line, and the payload bytes if the
/// response carries any. The drop variant writes nothing at all.
pub open spec fn spec_serialize(minor: u8, res: crate::entity::ResponseV) -> Seq<u8> {
    if res.payload is Drop {
        Seq::empty()
    } else {
        let desc = crate::codes::spec_description(res.code);
        spec_http_prefix() + seq![minor, 32u8] + encode_utf8(desc.0) + seq![32u8] + encode_utf8(
            desc.1,
        ) + spec_headers_bytes(res.headers) + seq![13u8, 10u8, 13u8, 10u8] + (match res.payload {
            crate::entity::ResponseTypeV::Payload(p) => p,
            _ => Seq::<u8>::empty(),
        })
    }
}

use crate::entity::{Response, ResponseType};

/// Serializes a response under the given version byte.
pub fn serialize_response_with(minor: u8, res: Response) -> (r: Vec<u8>)
    ensures
        r@ == spec_serialize(minor, res@),
{
    match &res.payload {
        ResponseType::Drop => {
            let out: Vec<u8> = Vec::new();
            assert(out@ =~= spec_serialize(minor, res@));
            return out;
        },
        _ => {},
    }
    let mut out: Vec<u8> = Vec::new();
    out.push(72);
    out.push(84);
    out.push(84);
    out.push(80);
    out.push(47);
    out.push(49);
    out.push(46);
    out.push(minor);
    out.push(32);
    let (code, reason) = res.code.get_description();
    out.extend_from_slice(code.as_bytes());
    out.push(32);
    out.extend_from_slice(reason.as_bytes());
    let ghost status_line = spec_http_prefix() + seq![minor, 32u8] + encode_utf8(code@) + seq![
        32u8,
    ] + encode_utf8(reason@);
    assert(out@ =~= status_line);
    let entries = res.headers.entries();
    let ghost hview = res.headers@;
    let n = entries.len();
    assert(hview =~= entries@.map_values(|h: crate::headers::HttpHeader| h@));
    let mut i: usize = 0;
    while i < n
        invariant
            i <= n == entries@.len(),
            hview == entries@.map_values(|h: crate::headers::HttpHeader| h@),
            out@ == status_line + spec_headers_bytes(hview.take(i as int)),
        decreases n - i,
    {
        out.push(13);
        out.push(10);
        out.extend_from_slice(entries[i].name.as_str().as_bytes());
        out.push(58);
        out.push(32);
        out.extend_from_slice(entries[i].value.as_str().as_bytes());
        i = i + 1;
        proof {
            assert(hview.take(i as int).drop_last() =~= hview.take(i - 1));
            assert(hview.take(i as int).last() == hview[i - 1]);
            assert(out@ =~= status_line + spec_headers_bytes(hview.take(i as int)));
        }
    }
    assert(hview.take(n as int) =~= hview);
    out.push(13);
    out.push(10);
    out.push(13);
    out.push(10);
    match res.payload {
        ResponseType::Payload(p) => {
            out.extend_from_slice(p.as_slice());
        },
        _ => {},
    }
    assert(out@ =~= spec_serialize(minor, res@));
    out
}

} // verus!
