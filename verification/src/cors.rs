//! Cross-origin headers, computed per request from the `Origin` header and
//! the configured allow-lists.
use vstd::prelude::*;

use crate::entity::{Request, Response};
use crate::headers::{spec_get, spec_set};
use crate::text::{spec_join_comma, spec_decimal, join_comma, u32_to_decimal};

verus! {

/// The configured CORS surface: allowed origin, methods and headers, and the
/// preflight cache lifetime, all as wire strings.
pub struct CorsConfig {
    pub origin: String,
    pub methods: String,
    pub headers: String,
    pub ttl: String,
}

impl CorsConfig {
    /// A configuration with everything left empty.
    pub fn default() -> (r: CorsConfig)
        ensures
            r.origin@ == Seq::<char>::empty(),
            r.methods@ == Seq::<char>::empty(),
            r.headers@ == Seq::<char>::empty(),
            r.ttl@ == Seq::<char>::empty(),
    {
        CorsConfig {
            origin: String::new(),
            methods: String::new(),
            headers: String::new(),
            ttl: String::new(),
        }
    }

    /// The configuration derived from what the configuration file offers:
    /// absent entries fall back to the documented defaults.
    pub fn from_parts(
        origin: Option<String>,
        methods: Option<Vec<String>>,
        headers: Option<Vec<String>>,
        ttl: Option<u32>,
    ) -> (r: CorsConfig)
        ensures
            r.origin@ == match origin {
                Some(o) => o@,
                None => Seq::<char>::empty(),
            },
            r.methods@ == match methods {
                Some(list) => spec_join_comma(list@.map_values(|s: String| s@)),
                None => "GET,POST"@,
            },
            r.headers@ == match headers {
                Some(list) => spec_join_comma(list@.map_values(|s: String| s@)),
                None => "content-type,session"@,
            },
            r.ttl@ == match ttl {
                Some(n) => spec_decimal(n as nat),
                None => "86400"@,
            },
    {
        CorsConfig {
            origin: match origin {
                Some(o) => o,
                None => String::new(),
            },
            methods: match methods {
                Some(list) => join_comma(&list),
                None => String::from_str("GET,POST"),
            },
            headers: match headers {
                Some(list) => join_comma(&list),
                None => String::from_str("content-type,session"),
            },
            ttl: match ttl {
                Some(n) => u32_to_decimal(n),
                None => String::from_str("86400"),
            },
        }
    }
}

/// The request origin that the response headers will answer: the `origin`
/// header, or `*` if the request carries none.
pub open spec fn spec_cors_origin(req_headers: Seq<(Seq<char>, Seq<char>)>) -> Seq<char> {
    match spec_get(req_headers, "origin"@) {
        Some(v) => v,
        None => "*"@,
    }
}

/// The allow-origin value written back: the request origin, or the configured
/// one when the request origin was empty.
pub open spec fn spec_allow_origin(origin: Seq<char>, config_origin: Seq<char>) -> Seq<char> {
    if origin.len() == 0 {
        config_origin
    } else {
        origin
    }
}

/// Headers after an origin check alone.
pub open spec fn spec_apply_origin_check(
    h: Seq<(Seq<char>, Seq<char>)>,
    origin: Seq<char>,
    config_origin: Seq<char>,
) -> Seq<(Seq<char>, Seq<char>)> {
    spec_set(h, "Access-Control-Allow-Origin"@, spec_allow_origin(origin, config_origin))
}

/// Headers after the normal-response treatment: expose-headers, then the
/// origin check.
pub open spec fn spec_apply_normal(
    h: Seq<(Seq<char>, Seq<char>)>,
    origin: Seq<char>,
    config_origin: Seq<char>,
    config_headers: Seq<char>,
) -> Seq<(Seq<char>, Seq<char>)> {
    spec_apply_origin_check(
        spec_set(h, "Access-Control-Expose-Headers"@, config_headers),
        origin,
        config_origin,
    )
}

/// Headers after the preflight treatment: allow-methods, allow-headers,
/// max-age, then the origin check.
pub open spec fn spec_apply_preflight(
    h: Seq<(Seq<char>, Seq<char>)>,
    origin: Seq<char>,
    config_origin: Seq<char>,
    config_methods: Seq<char>,
    config_headers: Seq<char>,
    config_ttl: Seq<char>,
) -> Seq<(Seq<char>, Seq<char>)> {
    spec_apply_origin_check(
        spec_set(
            spec_set(
                spec_set(h, "Access-Control-Allow-Methods"@, config_methods),
                "Access-Control-Allow-Headers"@,
                config_headers,
            ),
            "Access-Control-Max-Age"@,
            config_ttl,
        ),
        origin,
        config_origin,
    )
}

/// Law: whatever headers a response already carried, after the preflight
/// treatment the allow-methods, allow-headers, max-age and allow-origin
/// headers are all present.
pub proof fn lemma_preflight_headers_present(
    h: Seq<(Seq<char>, Seq<char>)>,
    origin: Seq<char>,
    config_origin: Seq<char>,
    config_methods: Seq<char>,
    config_headers: Seq<char>,
    config_ttl: Seq<char>,
)
    ensures
        ({
            let after = spec_apply_preflight(
                h,
                origin,
                config_origin,
                config_methods,
                config_headers,
                config_ttl,
            );
            &&& crate::headers::spec_has_name(after, "Access-Control-Allow-Methods"@)
            &&& crate::headers::spec_has_name(after, "Access-Control-Allow-Headers"@)
            &&& crate::headers::spec_has_name(after, "Access-Control-Max-Age"@)
            &&& crate::headers::spec_has_name(after, "Access-Control-Allow-Origin"@)
        }),
{
    let h1 = spec_set(h, "Access-Control-Allow-Methods"@, config_methods);
    let h2 = spec_set(h1, "Access-Control-Allow-Headers"@, config_headers);
    let h3 = spec_set(h2, "Access-Control-Max-Age"@, config_ttl);
    let ao = spec_allow_origin(origin, config_origin);
    crate::headers::lemma_set_has_name(h, "Access-Control-Allow-Methods"@, config_methods);
    crate::headers::lemma_set_keeps_name(
        h1,
        "Access-Control-Allow-Headers"@,
        config_headers,
        "Access-Control-Allow-Methods"@,
    );
    crate::headers::lemma_set_has_name(h1, "Access-Control-Allow-Headers"@, config_headers);
    crate::headers::lemma_set_keeps_name(
        h2,
        "Access-Control-Max-Age"@,
        config_ttl,
        "Access-Control-Allow-Methods"@,
    );
    crate::headers::lemma_set_keeps_name(
        h2,
        "Access-Control-Max-Age"@,
        config_ttl,
        "Access-Control-Allow-Headers"@,
    );
    crate::headers::lemma_set_has_name(h2, "Access-Control-Max-Age"@, config_ttl);
    crate::headers::lemma_set_keeps_name(
        h3,
        "Access-Control-Allow-Origin"@,
        ao,
        "Access-Control-Allow-Methods"@,
    );
    crate::headers::lemma_set_keeps_name(
        h3,
        "Access-Control-Allow-Origin"@,
        ao,
        "Access-Control-Allow-Headers"@,
    );
    crate::headers::lemma_set_keeps_name(
        h3,
        "Access-Control-Allow-Origin"@,
        ao,
        "Access-Control-Max-Age"@,
    );
    crate::headers::lemma_set_has_name(h3, "Access-Control-Allow-Origin"@, ao);
}

/// The per-request origin, captured when the request arrives.
pub struct Cors {
    pub origin: String,
}

impl Cors {
    /// Captures the request's origin header, or `*` if absent.
    pub fn new(req: &Request) -> (r: Cors)
        ensures
            r.origin@ == spec_cors_origin(req.headers@),
    {
        match req.headers.get("origin") {
            Some(v) => Cors { origin: v },
            None => Cors { origin: String::from_str("*") },
        }
    }

    /// Writes the allow-origin header.
    pub fn apply_origin_check(self, res: &mut Response, config: &CorsConfig)
        ensures
            final(res).headers@ == spec_apply_origin_check(
                old(res).headers@,
                self.origin@,
                config.origin@,
            ),
            final(res).code == old(res).code,
            final(res).payload == old(res).payload,
    {
        let allow_origin = if self.origin.as_str().is_empty() {
            config.origin.clone()
        } else {
            self.origin
        };
        res.headers.set(String::from_str("Access-Control-Allow-Origin"), allow_origin);
    }

    /// Writes the headers a normal response carries.
    pub fn apply_normal(self, res: &mut Response, config: &CorsConfig)
        ensures
            final(res).headers@ == spec_apply_normal(
                old(res).headers@,
                self.origin@,
                config.origin@,
                config.headers@,
            ),
            final(res).code == old(res).code,
            final(res).payload == old(res).payload,
    {
        res.headers.set(
            String::from_str("Access-Control-Expose-Headers"),
            config.headers.clone(),
        );
        self.apply_origin_check(res, config);
    }

    /// Writes the headers a preflight response carries.
    pub fn apply_preflight(self, res: &mut Response, config: &CorsConfig)
        ensures
            final(res).headers@ == spec_apply_preflight(
                old(res).headers@,
                self.origin@,
                config.origin@,
                config.methods@,
                config.headers@,
                config.ttl@,
            ),
            final(res).code == old(res).code,
            final(res).payload == old(res).payload,
    {
        res.headers.set(
            String::from_str("Access-Control-Allow-Methods"),
            config.methods.clone(),
        );
        res.headers.set(
            String::from_str("Access-Control-Allow-Headers"),
            config.headers.clone(),
        );
        res.headers.set(String::from_str("Access-Control-Max-Age"), config.ttl.clone());
        self.apply_origin_check(res, config);
    }
}

} // verus!
