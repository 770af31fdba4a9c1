//! What the security middleware decide: the headers that harden a
//! response, the rate at which a client may ask, and the answers to
//! cross-origin requests.

use crate::http::response::{Response, ResponseView};
use crate::string_map::{lookup, StringMap};
use crate::text::{decimal, from_chars, join, join_strs, push_decimal, str_views};
use vstd::prelude::*;

verus! {

/// Which headers harden a response.
#[derive(Debug)]
pub struct SecurityConfig {
    pub hsts: bool,
    pub xss_protection: bool,
    pub content_type_options: bool,
    pub frame_options: Option<String>,
    pub content_security_policy: Option<String>,
}

impl Default for SecurityConfig {
    fn default() -> (c: SecurityConfig)
        ensures
            c.hsts,
            c.xss_protection,
            c.content_type_options,
            c.frame_options matches Some(f) && f@ == "DENY"@,
            c.content_security_policy.is_none(),
    {
        SecurityConfig {
            hsts: true,
            xss_protection: true,
            content_type_options: true,
            frame_options: Some("DENY".to_owned()),
            content_security_policy: None,
        }
    }
}

impl SecurityConfig {
    /// `response` with the headers that the configuration asks for.
    pub open spec fn secured(&self, response: ResponseView) -> ResponseView {
        let a = if self.hsts {
            response.with_header("Strict-Transport-Security"@, "max-age=31536000"@)
        } else {
            response
        };
        let b = if self.xss_protection {
            a.with_header("X-XSS-Protection"@, "1; mode=block"@)
        } else {
            a
        };
        let c = if self.content_type_options {
            b.with_header("X-Content-Type-Options"@, "nosniff"@)
        } else {
            b
        };
        let d = match self.frame_options {
            Some(f) => c.with_header("X-Frame-Options"@, f@),
            None => c,
        };
        match self.content_security_policy {
            Some(p) => d.with_header("Content-Security-Policy"@, p@),
            None => d,
        }
    }
}

/// The middleware that hardens responses.
#[derive(Debug)]
pub struct SecurityHeaders {
    pub config: SecurityConfig,
}

impl SecurityHeaders {
    pub fn new(config: SecurityConfig) -> (s: SecurityHeaders)
        ensures
            s.config == config,
    {
        SecurityHeaders { config }
    }

    /// Sets the headers that the configuration asks for on the response
    /// that the rest of the pipeline answered with.
    pub fn apply(&self, response: &mut Response)
        ensures
            final(response)@ == self.config.secured(old(response)@),
    {
        if self.config.hsts {
            response.header("Strict-Transport-Security", "max-age=31536000");
        }
        if self.config.xss_protection {
            response.header("X-XSS-Protection", "1; mode=block");
        }
        if self.config.content_type_options {
            response.header("X-Content-Type-Options", "nosniff");
        }
        match &self.config.frame_options {
            Some(f) => {
                response.header("X-Frame-Options", f.as_str());
            },
            None => {},
        }
        match &self.config.content_security_policy {
            Some(p) => {
                response.header("Content-Security-Policy", p.as_str());
            },
            None => {},
        }
    }
}

/// How often a client may ask.
#[derive(Clone, Copy, Debug)]
pub struct RateLimitConfig {
    pub requests_per_minute: u32,
    pub burst_size: u32,
}

impl Default for RateLimitConfig {
    fn default() -> (c: RateLimitConfig)
        ensures
            c.requests_per_minute == 60,
            c.burst_size == 10,
    {
        RateLimitConfig { requests_per_minute: 60, burst_size: 10 }
    }
}

/// Whether a request at the time `time` is less than a minute old at the
/// time `now`. Times are in milliseconds.
pub open spec fn is_recent(time: u64, now: u64) -> bool {
    time + 60000 > now
}

/// The times of `times` that are less than a minute old at `now`, in
/// their order.
pub open spec fn recent(times: Seq<u64>, now: u64) -> Seq<u64>
    decreases times.len(),
{
    if times.len() == 0 {
        Seq::empty()
    } else if is_recent(times.last(), now) {
        recent(times.drop_last(), now).push(times.last())
    } else {
        recent(times.drop_last(), now)
    }
}

impl RateLimitConfig {
    /// Whether a request at the time `now` is allowed to a client with the
    /// earlier requests `history` on the same path, and the history after
    /// it. A client without a history is allowed. Otherwise the requests
    /// of the last minute are counted, and the request is allowed, and
    /// recorded, if they are fewer than the burst size and fewer than the
    /// requests allowed in a minute.
    pub open spec fn decide(&self, history: Option<Seq<u64>>, now: u64) -> (bool, Seq<u64>) {
        match history {
            None => (true, seq![now]),
            Some(times) => {
                let kept = recent(times, now);
                if kept.len() >= self.burst_size || kept.len() >= self.requests_per_minute {
                    (false, kept)
                } else {
                    (true, kept.push(now))
                }
            },
        }
    }
}

/// The client that the headers `headers` name: the value of
/// `x-forwarded-for`, else that of `x-real-ip`, else `unknown`.
pub open spec fn client_named(headers: Seq<(Seq<char>, Seq<char>)>) -> Seq<char> {
    match lookup(headers, "x-forwarded-for"@) {
        Some(ip) => ip,
        None => match lookup(headers, "x-real-ip"@) {
            Some(ip) => ip,
            None => "unknown"@,
        },
    }
}

/// The middleware that limits the rate of requests, for each client and
/// path.
#[derive(Clone, Copy, Debug)]
pub struct RateLimiter {
    pub config: RateLimitConfig,
}

impl RateLimiter {
    pub fn new(config: RateLimitConfig) -> (r: RateLimiter)
        ensures
            r.config == config,
    {
        RateLimiter { config }
    }

    /// The client that a request with the headers `headers` comes from.
    pub fn client(headers: &StringMap) -> (ip: String)
        ensures
            ip@ == client_named(headers@),
    {
        match headers.get("x-forwarded-for") {
            Some(ip) => ip.clone(),
            None => match headers.get("x-real-ip") {
                Some(ip) => ip.clone(),
                None => "unknown".to_owned(),
            },
        }
    }

    /// Whether a request at the time `now` is allowed, and the history of
    /// the client on the path after it. Where it is not allowed, the
    /// pipeline answers that there are too many requests, and what is
    /// inside the middleware does not run.
    pub fn is_allowed(&self, history: Option<Vec<u64>>, now: u64) -> (r: (bool, Vec<u64>))
        ensures
            (r.0, r.1@) == self.config.decide(
                match history {
                    Some(times) => Some(times@),
                    None => None,
                },
                now,
            ),
    {
        match history {
            None => {
                let mut times: Vec<u64> = Vec::new();
                times.push(now);
                assert(times@ =~= seq![now]);
                (true, times)
            },
            Some(times) => {
                let mut kept: Vec<u64> = Vec::new();
                let mut i: usize = 0;
                proof {
                    assert(times@.take(0) =~= Seq::<u64>::empty());
                }
                while i < times.len()
                    invariant
                        i <= times@.len(),
                        kept@ == recent(times@.take(i as int), now),
                    decreases times@.len() - i,
                {
                    proof {
                        assert(times@.take(i + 1).drop_last() =~= times@.take(i as int));
                    }
                    let t = times[i];
                    if t > now || now - t < 60000 {
                        kept.push(t);
                    }
                    i = i + 1;
                }
                proof {
                    assert(times@.take(times@.len() as int) =~= times@);
                }
                if kept.len() >= self.config.burst_size as usize || kept.len()
                    >= self.config.requests_per_minute as usize {
                    (false, kept)
                } else {
                    kept.push(now);
                    (true, kept)
                }
            },
        }
    }
}

/// Which cross-origin requests are answered.
#[derive(Debug)]
pub struct CorsConfig {
    pub allow_origins: Vec<String>,
    pub allow_methods: Vec<String>,
    pub allow_headers: Vec<String>,
    pub allow_credentials: bool,
    pub max_age: Option<u32>,
}

/// The views of the strings of `items`.
pub open spec fn string_views(items: Seq<String>) -> Seq<Seq<char>> {
    Seq::new(items.len(), |i: int| items[i]@)
}

impl Default for CorsConfig {
    fn default() -> (c: CorsConfig)
        ensures
            string_views(c.allow_origins@) == seq!["*"@],
            string_views(c.allow_methods@) == seq![
                "GET"@,
                "POST"@,
                "PUT"@,
                "DELETE"@,
                "OPTIONS"@,
            ],
            string_views(c.allow_headers@) == seq!["Content-Type"@, "Authorization"@],
            !c.allow_credentials,
            c.max_age == Some(86400u32),
    {
        let mut allow_origins: Vec<String> = Vec::new();
        allow_origins.push("*".to_owned());
        let mut allow_methods: Vec<String> = Vec::new();
        allow_methods.push("GET".to_owned());
        allow_methods.push("POST".to_owned());
        allow_methods.push("PUT".to_owned());
        allow_methods.push("DELETE".to_owned());
        allow_methods.push("OPTIONS".to_owned());
        let mut allow_headers: Vec<String> = Vec::new();
        allow_headers.push("Content-Type".to_owned());
        allow_headers.push("Authorization".to_owned());
        assert(string_views(allow_origins@) =~= seq!["*"@]);
        assert(string_views(allow_methods@) =~= seq![
            "GET"@,
            "POST"@,
            "PUT"@,
            "DELETE"@,
            "OPTIONS"@,
        ]);
        assert(string_views(allow_headers@) =~= seq!["Content-Type"@, "Authorization"@]);
        CorsConfig {
            allow_origins,
            allow_methods,
            allow_headers,
            allow_credentials: false,
            max_age: Some(86400),
        }
    }
}

/// The middleware that answers cross-origin requests.
#[derive(Debug)]
pub struct Cors {
    pub config: CorsConfig,
}

/// The mathematical value of a `CorsConfig`.
pub struct CorsView {
    pub allow_origins: Seq<Seq<char>>,
    pub allow_methods: Seq<Seq<char>>,
    pub allow_headers: Seq<Seq<char>>,
    pub allow_credentials: bool,
    pub max_age: Option<u32>,
}

impl View for CorsConfig {
    type V = CorsView;

    open spec fn view(&self) -> CorsView {
        CorsView {
            allow_origins: string_views(self.allow_origins@),
            allow_methods: string_views(self.allow_methods@),
            allow_headers: string_views(self.allow_headers@),
            allow_credentials: self.allow_credentials,
            max_age: self.max_age,
        }
    }
}

impl CorsView {
    /// Whether requests from `origin` are answered: every origin is, or
    /// this one is listed.
    pub open spec fn allows(self, origin: Seq<char>) -> bool {
        self.allow_origins.contains("*"@) || self.allow_origins.contains(origin)
    }

    /// `response` with the origin `origin` allowed, if the request named
    /// one and it is answered.
    pub open spec fn with_origin(self, response: ResponseView, origin: Option<Seq<char>>) -> ResponseView {
        match origin {
            Some(o) => if self.allows(o) {
                response.with_header("Access-Control-Allow-Origin"@, o)
            } else {
                response
            },
            None => response,
        }
    }

    /// `response` with credentials allowed, if the configuration allows
    /// them.
    pub open spec fn with_credentials(self, response: ResponseView) -> ResponseView {
        if self.allow_credentials {
            response.with_header("Access-Control-Allow-Credentials"@, "true"@)
        } else {
            response
        }
    }

    /// The answer to a preflight request from `origin`: 204 with what is
    /// allowed. No handler runs for it.
    pub open spec fn preflight(self, origin: Option<Seq<char>>) -> ResponseView {
        let a = self.with_origin(ResponseView::empty(204), origin);
        let b = a.with_header("Access-Control-Allow-Methods"@, join(self.allow_methods, ", "@));
        let c = b.with_header("Access-Control-Allow-Headers"@, join(self.allow_headers, ", "@));
        let d = self.with_credentials(c);
        match self.max_age {
            Some(age) => d.with_header("Access-Control-Max-Age"@, decimal(age as nat)),
            None => d,
        }
    }

    /// The response to any other request from `origin`, from what the rest
    /// of the pipeline answered with.
    pub open spec fn decorated(self, response: ResponseView, origin: Option<Seq<char>>) -> ResponseView {
        self.with_credentials(self.with_origin(response, origin))
    }
}

/// Whether `items` holds a string with the characters of `wanted`.
fn contains_string(items: &Vec<String>, wanted: &str) -> (r: bool)
    ensures
        r == string_views(items@).contains(wanted@),
{
    let owned = wanted.to_owned();
    let mut i: usize = 0;
    while i < items.len()
        invariant
            i <= items@.len(),
            owned@ == wanted@,
            forall|j: int| 0 <= j < i ==> string_views(items@)[j] != wanted@,
        decreases items@.len() - i,
    {
        if items[i] == owned {
            assert(string_views(items@)[i as int] == wanted@);
            return true;
        }
        i = i + 1;
    }
    false
}

/// The strings of `items` in one text, with `sep` between each two.
fn join_strings(items: &Vec<String>, sep: &str) -> (out: String)
    ensures
        out@ == join(string_views(items@), sep@),
{
    let mut slices: Vec<&str> = Vec::new();
    let mut i: usize = 0;
    while i < items.len()
        invariant
            i <= items@.len(),
            slices@.len() == i,
            forall|j: int| 0 <= j < i ==> (#[trigger] slices@[j])@ == items@[j]@,
        decreases items@.len() - i,
    {
        slices.push(items[i].as_str());
        i = i + 1;
    }
    assert(str_views(slices@) =~= string_views(items@));
    let joined = join_strs(slices.as_slice(), sep);
    from_chars(joined.as_slice())
}

/// The view of an optional string.
pub open spec fn optional_view(s: Option<&str>) -> Option<Seq<char>> {
    match s {
        Some(s) => Some(s@),
        None => None,
    }
}

impl Cors {
    pub fn new(config: CorsConfig) -> (c: Cors)
        ensures
            c.config == config,
    {
        Cors { config }
    }

    fn allow_origin(&self, response: &mut Response, origin: Option<&str>)
        ensures
            final(response)@ == self.config@.with_origin(old(response)@, optional_view(origin)),
    {
        match origin {
            Some(o) => {
                if contains_string(&self.config.allow_origins, "*") || contains_string(
                    &self.config.allow_origins,
                    o,
                ) {
                    response.header("Access-Control-Allow-Origin", o);
                }
            },
            None => {},
        }
    }

    fn allow_credentials(&self, response: &mut Response)
        ensures
            final(response)@ == self.config@.with_credentials(old(response)@),
    {
        if self.config.allow_credentials {
            response.header("Access-Control-Allow-Credentials", "true");
        }
    }

    /// The answer to an `OPTIONS` request with the origin `origin`, which
    /// the middleware gives itself: what is inside it does not run.
    pub fn preflight(&self, origin: Option<&str>) -> (r: Response)
        ensures
            r@ == self.config@.preflight(optional_view(origin)),
    {
        let mut response = Response::new(204);
        self.allow_origin(&mut response, origin);
        let methods = join_strings(&self.config.allow_methods, ", ");
        response.header("Access-Control-Allow-Methods", methods.as_str());
        let headers = join_strings(&self.config.allow_headers, ", ");
        response.header("Access-Control-Allow-Headers", headers.as_str());
        self.allow_credentials(&mut response);
        match self.config.max_age {
            Some(age) => {
                let mut text: Vec<char> = Vec::new();
                push_decimal(&mut text, age as u64);
                assert(text@ =~= decimal(age as nat));
                let text = from_chars(text.as_slice());
                response.header("Access-Control-Max-Age", text.as_str());
            },
            None => {},
        }
        response
    }

    /// Marks the response that the rest of the pipeline answered with for
    /// the origin `origin` of the request.
    pub fn decorate(&self, response: &mut Response, origin: Option<&str>)
        ensures
            final(response)@ == self.config@.decorated(old(response)@, optional_view(origin)),
    {
        self.allow_origin(response, origin);
        self.allow_credentials(response);
    }
}

} // verus!
