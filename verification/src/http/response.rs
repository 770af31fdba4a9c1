//! Responses: a status, headers and a body, built step by step and framed
//! for the wire.

use crate::error::ServerError;
use crate::string_map::{put, put_all, StringMap};
use crate::text::{
    decimal, extend, extend_str, from_chars, join, join_strs, push_decimal, str_views, to_chars,
};
use vstd::prelude::*;

verus! {

/// What a handler or a middleware answers with.
pub type HttpResponse = Result<Response, ServerError>;

/// A response, before it is framed.
#[derive(Debug)]
pub struct Response {
    pub status: u16,
    pub body: String,
    pub headers: StringMap,
}

/// The mathematical value of a response.
pub struct ResponseView {
    pub status: u16,
    pub body: Seq<char>,
    pub headers: Seq<(Seq<char>, Seq<char>)>,
}

impl ResponseView {
    /// The empty response with the status `status`.
    pub open spec fn empty(status: u16) -> ResponseView {
        ResponseView { status, body: Seq::empty(), headers: Seq::empty() }
    }

    pub open spec fn with_status(self, status: u16) -> ResponseView {
        ResponseView { status, ..self }
    }

    pub open spec fn with_body(self, body: Seq<char>) -> ResponseView {
        ResponseView { body, ..self }
    }

    /// The response with the header `name` set to `value`; an earlier value
    /// of the same header is replaced.
    pub open spec fn with_header(self, name: Seq<char>, value: Seq<char>) -> ResponseView {
        ResponseView { headers: put(self.headers, name, value), ..self }
    }

    /// The response with the header `Vary` set to `names`, joined by commas.
    pub open spec fn with_vary(self, names: Seq<Seq<char>>) -> ResponseView {
        self.with_header("Vary"@, join(names, ", "@))
    }

    /// The header lines of the response, each ended by a line break.
    pub open spec fn header_lines(headers: Seq<(Seq<char>, Seq<char>)>) -> Seq<char>
        decreases headers.len(),
    {
        if headers.len() == 0 {
            Seq::empty()
        } else {
            Self::header_lines(headers.drop_last()) + headers.last().0 + ": "@ + headers.last().1
                + "\r\n"@
        }
    }

    /// The response as it is written to the connection: the status line, the
    /// headers in their order, the length of the body in bytes, a blank line
    /// and the body.
    pub open spec fn wire(self) -> Seq<char> {
        "HTTP/1.1 "@ + decimal(self.status as nat) + "\r\n"@ + Self::header_lines(self.headers)
            + "Content-Length: "@ + decimal(vstd::utf8::encode_utf8(self.body).len())
            + "\r\n\r\n"@ + self.body
    }
}

impl View for Response {
    type V = ResponseView;

    open spec fn view(&self) -> ResponseView {
        ResponseView { status: self.status, body: self.body@, headers: self.headers@ }
    }
}

/// The name for the JSON string literal that `serde_json` writes for a
/// string with the characters `s`: the text in double quotes, with escapes.
pub uninterp spec fn json_quoted(s: Seq<char>) -> Seq<char>;

/// The `Display` form of `serde_json::Value::String`, which is the compact
/// JSON text of the string. The contract only names the result.
#[verifier::external_body]
pub(crate) fn json_quote(s: &str) -> (out: String)
    ensures
        out@ == json_quoted(s@),
{
    serde_json::Value::String(s.to_string()).to_string()
}

/// The JSON body of an error response, from the error's message as a JSON
/// string literal and its status: an object `error` with the fields
/// `message` and `status`, in this order and without white space.
pub open spec fn error_json(quoted: Seq<char>, status: u16) -> Seq<char> {
    "{\"error\":{\"message\":"@ + quoted + ",\"status\":"@ + decimal(status as nat) + "}}"@
}

/// The elements of a JSON array of strings, from their string literals.
pub open spec fn json_elements(quoted: Seq<Seq<char>>) -> Seq<char> {
    join(quoted, ","@)
}

/// The JSON body of the response to a method that is not allowed: an
/// object `error` with the fields `allowed_methods` and `message`, in this
/// order and without white space.
pub open spec fn not_allowed_json(quoted_methods: Seq<Seq<char>>, quoted_message: Seq<char>) -> Seq<
    char,
> {
    "{\"error\":{\"allowed_methods\":["@ + json_elements(quoted_methods) + "],\"message\":"@
        + quoted_message + "}}"@
}

/// The string literals of `items`.
pub open spec fn all_quoted(items: Seq<Seq<char>>) -> Seq<Seq<char>> {
    Seq::new(items.len(), |i: int| json_quoted(items[i]))
}

impl Response {
    /// The response with the status `status`, without headers and body.
    pub fn new(status: u16) -> (r: Response)
        ensures
            r@ == ResponseView::empty(status),
    {
        Response { status, headers: StringMap::new(), body: String::new() }
    }

    /// Sets the status.
    pub fn status(&mut self, status: u16) -> (r: &mut Self)
        ensures
            r@ == old(self)@.with_status(status),
            *final(self) == *final(r),
    {
        self.status = status;
        self
    }

    /// Sets the body.
    pub fn body(&mut self, body: &str) -> (r: &mut Self)
        ensures
            r@ == old(self)@.with_body(body@),
            *final(self) == *final(r),
    {
        self.body = body.to_owned();
        self
    }

    /// Sets the header `name` to `value`.
    pub fn header(&mut self, name: &str, value: &str) -> (r: &mut Self)
        ensures
            r@ == old(self)@.with_header(name@, value@),
            *final(self) == *final(r),
    {
        self.headers.insert(name.to_owned(), value.to_owned());
        self
    }

    /// Sets every header of `headers`, from the first to the last.
    pub fn headers(&mut self, headers: StringMap) -> (r: &mut Self)
        ensures
            r@ == (ResponseView { headers: put_all(old(self)@.headers, headers@), ..old(self)@ }),
            *final(self) == *final(r),
    {
        self.headers.extend(headers);
        self
    }

    /// Makes the response a JSON document. `serialized` is the document's
    /// text, or the reason for which the value could not be serialised.
    pub fn json(&mut self, serialized: Result<String, String>) -> (r: Result<(), ServerError>)
        ensures
            match serialized {
                Ok(text) => r.is_ok() && final(self)@ == old(self)@.with_header(
                    "Content-Type"@,
                    "application/json"@,
                ).with_body(text@),
                Err(reason) => r matches Err(ServerError::InternalError(m)) && m@
                    == "JSON serialization error: "@ + reason@ && final(self)@ == old(self)@,
            },
    {
        match serialized {
            Ok(text) => {
                self.header("Content-Type", "application/json");
                self.body = text;
                Ok(())
            },
            Err(reason) => {
                let mut m = to_chars("JSON serialization error: ");
                extend_str(&mut m, reason.as_str());
                Err(ServerError::InternalError(from_chars(m.as_slice())))
            },
        }
    }

    /// A JSON response with the status `status`.
    pub fn with_json(status: u16, serialized: Result<String, String>) -> (r: HttpResponse)
        ensures
            match serialized {
                Ok(text) => r matches Ok(resp) && resp@ == ResponseView::empty(status).with_header(
                    "Content-Type"@,
                    "application/json"@,
                ).with_body(text@),
                Err(reason) => r matches Err(ServerError::InternalError(m)) && m@
                    == "JSON serialization error: "@ + reason@,
            },
    {
        let mut response = Response::new(status);
        match response.json(serialized) {
            Ok(()) => Ok(response),
            Err(e) => Err(e),
        }
    }

    /// 200 with a JSON document.
    pub fn ok(serialized: Result<String, String>) -> (r: HttpResponse)
        ensures
            Self::json_outcome(200, serialized, r),
    {
        Self::with_json(200, serialized)
    }

    /// 201 with a JSON document.
    pub fn created(serialized: Result<String, String>) -> (r: HttpResponse)
        ensures
            Self::json_outcome(201, serialized, r),
    {
        Self::with_json(201, serialized)
    }

    /// 202 with a JSON document.
    pub fn accepted(serialized: Result<String, String>) -> (r: HttpResponse)
        ensures
            Self::json_outcome(202, serialized, r),
    {
        Self::with_json(202, serialized)
    }

    /// 204 without a body.
    pub fn no_content() -> (r: Response)
        ensures
            r@ == ResponseView::empty(204),
    {
        Response::new(204)
    }

    /// 400 with a JSON document.
    pub fn bad_request(serialized: Result<String, String>) -> (r: HttpResponse)
        ensures
            Self::json_outcome(400, serialized, r),
    {
        Self::with_json(400, serialized)
    }

    /// 401 with a JSON document.
    pub fn unauthorized(serialized: Result<String, String>) -> (r: HttpResponse)
        ensures
            Self::json_outcome(401, serialized, r),
    {
        Self::with_json(401, serialized)
    }

    /// 403 with a JSON document.
    pub fn forbidden(serialized: Result<String, String>) -> (r: HttpResponse)
        ensures
            Self::json_outcome(403, serialized, r),
    {
        Self::with_json(403, serialized)
    }

    /// 404 with a JSON document.
    pub fn not_found(serialized: Result<String, String>) -> (r: HttpResponse)
        ensures
            Self::json_outcome(404, serialized, r),
    {
        Self::with_json(404, serialized)
    }

    /// 409 with a JSON document.
    pub fn conflict(serialized: Result<String, String>) -> (r: HttpResponse)
        ensures
            Self::json_outcome(409, serialized, r),
    {
        Self::with_json(409, serialized)
    }

    /// 422 with a JSON document.
    pub fn unprocessable_entity(serialized: Result<String, String>) -> (r: HttpResponse)
        ensures
            Self::json_outcome(422, serialized, r),
    {
        Self::with_json(422, serialized)
    }

    /// 429 with a JSON document.
    pub fn too_many_requests(serialized: Result<String, String>) -> (r: HttpResponse)
        ensures
            Self::json_outcome(429, serialized, r),
    {
        Self::with_json(429, serialized)
    }

    /// 503 with a JSON document.
    pub fn service_unavailable(serialized: Result<String, String>) -> (r: HttpResponse)
        ensures
            Self::json_outcome(503, serialized, r),
    {
        Self::with_json(503, serialized)
    }

    /// What a JSON constructor returns for the status `status`: the
    /// document as the body of a JSON response, or an internal error that
    /// gives the reason for which there is no document.
    pub open spec fn json_outcome(
        status: u16,
        serialized: Result<String, String>,
        r: HttpResponse,
    ) -> bool {
        match serialized {
            Ok(text) => r matches Ok(resp) && resp@ == ResponseView::empty(status).with_header(
                "Content-Type"@,
                "application/json"@,
            ).with_body(text@),
            Err(reason) => r matches Err(ServerError::InternalError(m)) && m@
                == "JSON serialization error: "@ + reason@,
        }
    }

    /// The JSON body of an error response.
    pub fn error_body(quoted_message: &str, status: u16) -> (out: String)
        ensures
            out@ == error_json(quoted_message@, status),
    {
        let mut out = to_chars("{\"error\":{\"message\":");
        extend_str(&mut out, quoted_message);
        extend_str(&mut out, ",\"status\":");
        push_decimal(&mut out, status as u64);
        extend_str(&mut out, "}}");
        from_chars(out.as_slice())
    }

    /// The response that reports `err`: its status, and a JSON body with its
    /// message and status.
    pub fn error(err: ServerError) -> (r: Response)
        ensures
            r@ == ResponseView::empty(err.status()).with_header(
                "Content-Type"@,
                "application/json"@,
            ).with_body(error_json(json_quoted(err.text()), err.status())),
    {
        let status = err.status_code();
        let message = err.message();
        let quoted = json_quote(message.as_str());
        let body = Self::error_body(quoted.as_str(), status);
        let mut response = Response::new(status);
        response.header("Content-Type", "application/json");
        response.body = body;
        response
    }

    /// The JSON body of the response to a method that is not allowed, from
    /// the allowed methods and the message as JSON string literals.
    pub fn not_allowed_body(quoted_methods: &Vec<String>, quoted_message: &str) -> (out: String)
        ensures
            out@ == not_allowed_json(
                Seq::new(quoted_methods@.len(), |i: int| quoted_methods@[i]@),
                quoted_message@,
            ),
    {
        let ghost all = Seq::new(quoted_methods@.len(), |i: int| quoted_methods@[i]@);
        let mut out = to_chars("{\"error\":{\"allowed_methods\":[");
        let ghost head = out@;
        let mut i: usize = 0;
        proof {
            assert(all.take(0) =~= Seq::<Seq<char>>::empty());
            assert(out@ =~= head + join(all.take(0), ","@));
        }
        while i < quoted_methods.len()
            invariant
                i <= quoted_methods@.len(),
                all == Seq::new(quoted_methods@.len(), |i: int| quoted_methods@[i]@),
                out@ == head + join(all.take(i as int), ","@),
            decreases quoted_methods@.len() - i,
        {
            proof {
                assert(all.take(i + 1).drop_last() =~= all.take(i as int));
                assert(all.take(i + 1).last() == quoted_methods@[i as int]@);
            }
            if i > 0 {
                extend_str(&mut out, ",");
            }
            extend_str(&mut out, quoted_methods[i].as_str());
            proof {
                if i == 0 {
                    assert(join(all.take(1), ","@) =~= all.take(1)[0]);
                }
                assert(out@ =~= head + join(all.take(i + 1), ","@));
            }
            i = i + 1;
        }
        proof {
            assert(all.take(quoted_methods@.len() as int) =~= all);
        }
        extend_str(&mut out, "],\"message\":");
        extend_str(&mut out, quoted_message);
        extend_str(&mut out, "}}");
        from_chars(out.as_slice())
    }

    /// 405 with the methods that are allowed, in the header `Allow` and in
    /// a JSON body.
    pub fn method_not_allowed(allowed_methods: &[&str]) -> (r: Response)
        ensures
            r@ == ResponseView::empty(405).with_header(
                "Allow"@,
                join(str_views(allowed_methods@), ", "@),
            ).with_header("Content-Type"@, "application/json"@).with_body(
                not_allowed_json(
                    all_quoted(str_views(allowed_methods@)),
                    json_quoted("Method not allowed"@),
                ),
            ),
    {
        let mut quoted: Vec<String> = Vec::new();
        let mut i: usize = 0;
        while i < allowed_methods.len()
            invariant
                i <= allowed_methods@.len(),
                quoted@.len() == i,
                forall|j: int|
                    0 <= j < i ==> (#[trigger] quoted@[j])@ == json_quoted(allowed_methods@[j]@),
            decreases allowed_methods@.len() - i,
        {
            quoted.push(json_quote(allowed_methods[i]));
            i = i + 1;
        }
        assert(Seq::new(quoted@.len(), |i: int| quoted@[i]@) =~= all_quoted(
            str_views(allowed_methods@),
        ));
        let message = json_quote("Method not allowed");
        let body = Self::not_allowed_body(&quoted, message.as_str());
        let allow = join_strs(allowed_methods, ", ");
        let allow = from_chars(allow.as_slice());
        let mut response = Response::new(405);
        response.header("Allow", allow.as_str());
        response.header("Content-Type", "application/json");
        response.body = body;
        response
    }

    /// Marks the response as streamed with the content type `content_type`.
    pub fn stream(&mut self, content_type: &str) -> (r: &mut Self)
        ensures
            r@ == old(self)@.with_header("Transfer-Encoding"@, "chunked"@).with_header(
                "Content-Type"@,
                content_type@,
            ),
            *final(self) == *final(r),
    {
        self.header("Transfer-Encoding", "chunked").header("Content-Type", content_type)
    }

    /// Allows cross-origin requests from `origin`.
    pub fn with_cors(&mut self, origin: &str) -> (r: &mut Self)
        ensures
            r@ == old(self)@.with_header("Access-Control-Allow-Origin"@, origin@).with_header(
                "Access-Control-Allow-Methods"@,
                "GET, POST, PUT, DELETE, OPTIONS"@,
            ).with_header("Access-Control-Allow-Headers"@, "Content-Type, Authorization"@),
            *final(self) == *final(r),
    {
        self.header("Access-Control-Allow-Origin", origin).header(
            "Access-Control-Allow-Methods",
            "GET, POST, PUT, DELETE, OPTIONS",
        ).header("Access-Control-Allow-Headers", "Content-Type, Authorization")
    }

    /// 200 with the body `content` of the content type `content_type`.
    fn with_content(content_type: &str, content: &str) -> (r: Response)
        ensures
            r@ == ResponseView::empty(200).with_header("Content-Type"@, content_type@).with_body(
                content@,
            ),
    {
        let mut response = Response::new(200);
        response.header("Content-Type", content_type).body(content);
        response
    }

    /// 200 with plain text.
    pub fn text(content: &str) -> (r: Response)
        ensures
            r@ == ResponseView::empty(200).with_header("Content-Type"@, "text/plain"@).with_body(
                content@,
            ),
    {
        Self::with_content("text/plain", content)
    }

    /// 200 with HTML.
    pub fn html(content: &str) -> (r: Response)
        ensures
            r@ == ResponseView::empty(200).with_header("Content-Type"@, "text/html"@).with_body(
                content@,
            ),
    {
        Self::with_content("text/html", content)
    }

    /// 200 with XML.
    pub fn xml(content: &str) -> (r: Response)
        ensures
            r@ == ResponseView::empty(200).with_header(
                "Content-Type"@,
                "application/xml"@,
            ).with_body(content@),
    {
        Self::with_content("application/xml", content)
    }

    /// 302 to `location`.
    pub fn redirect(location: &str) -> (r: Response)
        ensures
            r@ == ResponseView::empty(302).with_header("Location"@, location@),
    {
        let mut response = Response::new(302);
        response.header("Location", location);
        response
    }

    /// 301 to `location`.
    pub fn permanent_redirect(location: &str) -> (r: Response)
        ensures
            r@ == ResponseView::empty(301).with_header("Location"@, location@),
    {
        let mut response = Response::new(301);
        response.header("Location", location);
        response
    }

    /// Sets `Cache-Control` to `directive`.
    pub fn with_cache_control(&mut self, directive: &str) -> (r: &mut Self)
        ensures
            r@ == old(self)@.with_header("Cache-Control"@, directive@),
            *final(self) == *final(r),
    {
        self.header("Cache-Control", directive)
    }

    /// Forbids caching of the response.
    pub fn no_cache(&mut self) -> (r: &mut Self)
        ensures
            r@ == old(self)@.with_header(
                "Cache-Control"@,
                "no-cache, no-store, must-revalidate"@,
            ).with_header("Pragma"@, "no-cache"@).with_header("Expires"@, "0"@),
            *final(self) == *final(r),
    {
        self.with_cache_control("no-cache, no-store, must-revalidate").header(
            "Pragma",
            "no-cache",
        ).header("Expires", "0")
    }

    /// Sets the usual security headers.
    pub fn with_security_headers(&mut self) -> (r: &mut Self)
        ensures
            r@ == old(self)@.with_header("X-Content-Type-Options"@, "nosniff"@).with_header(
                "X-Frame-Options"@,
                "DENY"@,
            ).with_header("X-XSS-Protection"@, "1; mode=block"@).with_header(
                "Strict-Transport-Security"@,
                "max-age=31536000; includeSubDomains"@,
            ).with_header("Referrer-Policy"@, "strict-origin-when-cross-origin"@),
            *final(self) == *final(r),
    {
        self.header("X-Content-Type-Options", "nosniff").header("X-Frame-Options", "DENY").header(
            "X-XSS-Protection",
            "1; mode=block",
        ).header("Strict-Transport-Security", "max-age=31536000; includeSubDomains").header(
            "Referrer-Policy",
            "strict-origin-when-cross-origin",
        )
    }

    /// Offers the body as a download under the name `filename`.
    pub fn file_download(&mut self, filename: &str, content_type: &str) -> (r: &mut Self)
        ensures
            r@ == old(self)@.with_header("Content-Type"@, content_type@).with_header(
                "Content-Disposition"@,
                "attachment; filename=\""@ + filename@ + "\""@,
            ),
            *final(self) == *final(r),
    {
        let mut disposition = to_chars("attachment; filename=\"");
        extend_str(&mut disposition, filename);
        extend_str(&mut disposition, "\"");
        let disposition = from_chars(disposition.as_slice());
        self.header("Content-Type", content_type).header(
            "Content-Disposition",
            disposition.as_str(),
        )
    }

    /// Sets `Vary` to the names of `headers`, joined by commas.
    pub fn vary(&mut self, headers: &[&str]) -> (r: &mut Self)
        ensures
            r@ == old(self)@.with_vary(str_views(headers@)),
            *final(self) == *final(r),
    {
        let joined = join_strs(headers, ", ");
        let joined = from_chars(joined.as_slice());
        self.header("Vary", joined.as_str())
    }

    /// Sets `Vary` to the one name `name`.
    fn vary_on(&mut self, name: &str) -> (r: &mut Self)
        ensures
            r@ == old(self)@.with_vary(seq![name@]),
            *final(self) == *final(r),
    {
        self.header("Vary", name)
    }

    /// Marks the body as compressed with gzip.
    pub fn with_gzip(&mut self) -> (r: &mut Self)
        ensures
            r@ == old(self)@.with_header("Content-Encoding"@, "gzip"@).with_vary(
                seq!["Accept-Encoding"@],
            ),
            *final(self) == *final(r),
    {
        self.header("Content-Encoding", "gzip").vary_on("Accept-Encoding")
    }

    /// Marks the body as compressed with Brotli.
    pub fn with_brotli(&mut self) -> (r: &mut Self)
        ensures
            r@ == old(self)@.with_header("Content-Encoding"@, "br"@).with_vary(
                seq!["Accept-Encoding"@],
            ),
            *final(self) == *final(r),
    {
        self.header("Content-Encoding", "br").vary_on("Accept-Encoding")
    }

    /// Sets the language of the body.
    pub fn with_language(&mut self, lang: &str) -> (r: &mut Self)
        ensures
            r@ == old(self)@.with_header("Content-Language"@, lang@).with_vary(
                seq!["Accept-Language"@],
            ),
            *final(self) == *final(r),
    {
        self.header("Content-Language", lang).vary_on("Accept-Language")
    }

    /// Sets the version of the API that answered.
    pub fn with_api_version(&mut self, version: &str) -> (r: &mut Self)
        ensures
            r@ == old(self)@.with_header("X-API-Version"@, version@),
            *final(self) == *final(r),
    {
        self.header("X-API-Version", version)
    }

    /// The response as it is written to the connection.
    pub fn to_wire(&self) -> (out: String)
        ensures
            out@ == self@.wire(),
    {
        let mut out = to_chars("HTTP/1.1 ");
        push_decimal(&mut out, self.status as u64);
        extend_str(&mut out, "\r\n");
        let ghost head = out@;
        let mut i: usize = 0;
        proof {
            assert(self.headers@.take(0) =~= Seq::<(Seq<char>, Seq<char>)>::empty());
            assert(out@ =~= head + ResponseView::header_lines(self.headers@.take(0)));
        }
        while i < self.headers.len()
            invariant
                i <= self.headers@.len(),
                out@ == head + ResponseView::header_lines(self.headers@.take(i as int)),
            decreases self.headers@.len() - i,
        {
            proof {
                assert(self.headers@.take(i + 1).drop_last() =~= self.headers@.take(i as int));
            }
            extend_str(&mut out, self.headers.key_at(i).as_str());
            extend_str(&mut out, ": ");
            extend_str(&mut out, self.headers.value_at(i).as_str());
            extend_str(&mut out, "\r\n");
            proof {
                assert(out@ =~= head + ResponseView::header_lines(self.headers@.take(i + 1)));
            }
            i = i + 1;
        }
        proof {
            assert(self.headers@.take(self.headers@.len() as int) =~= self.headers@);
        }
        extend_str(&mut out, "Content-Length: ");
        push_decimal(&mut out, self.body.as_str().as_bytes().len() as u64);
        extend_str(&mut out, "\r\n\r\n");
        extend_str(&mut out, self.body.as_str());
        assert(out@ =~= self@.wire());
        from_chars(out.as_slice())
    }
}

} // verus!
