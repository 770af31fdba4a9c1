//! The application: its configuration, its route table, and the decision
//! how a request is served.

use crate::error::ServerError;
use crate::http::request::{Method, Request};
use crate::http::response::{HttpResponse, Response, ResponseView, error_json, json_quoted};
use crate::plugins::{slot_of, Plugins};
use crate::router::{Dispatch, Router, RouterView};
use crate::text::{
    decimal, eq_chars, eq_str, extend_str, from_chars, push_decimal, to_chars, tokens,
    tokens_chars, views, CharClass,
};
use vstd::prelude::*;

verus! {

/// Where the certificate and the key of a TLS server are kept.
#[derive(Debug)]
pub struct TlsConfig {
    pub cert_file: String,
    pub key_file: String,
}

impl TlsConfig {
    pub fn new(cert_file: &str, key_file: &str) -> (t: TlsConfig)
        ensures
            t.cert_file@ == cert_file@,
            t.key_file@ == key_file@,
    {
        TlsConfig { cert_file: cert_file.to_owned(), key_file: key_file.to_owned() }
    }
}

/// A web application: a route table and what configures the server that
/// serves it.
#[derive(Debug)]
pub struct Application {
    /// The ceiling on the connections that are served at the same time.
    pub max_connections: usize,
    /// The seconds for which an idle connection would be kept. Every
    /// connection serves one request, so the setting has no effect.
    pub keep_alive: u64,
    pub router: Router,
    /// The directory that files are served from where no route matches.
    pub static_dir: Option<String>,
    pub plugins: Plugins,
    pub tls_config: Option<TlsConfig>,
}

/// The content type of a file with the extension `ext`.
pub open spec fn content_type_of(ext: Seq<char>) -> Seq<char> {
    if ext == "html"@ {
        "text/html"@
    } else if ext == "css"@ {
        "text/css"@
    } else if ext == "js"@ {
        "text/javascript"@
    } else if ext == "png"@ {
        "image/png"@
    } else if ext == "jpg"@ || ext == "jpeg"@ {
        "image/jpeg"@
    } else if ext == "gif"@ {
        "image/gif"@
    } else if ext == "svg"@ {
        "image/svg+xml"@
    } else if ext == "ico"@ {
        "image/x-icon"@
    } else {
        "application/octet-stream"@
    }
}

/// The content type of a file with the extension `ext`.
pub fn content_type_for(ext: &str) -> (t: &'static str)
    ensures
        t@ == content_type_of(ext@),
{
    let chars = to_chars(ext);
    let e = chars.as_slice();
    if eq_str(e, "html") {
        "text/html"
    } else if eq_str(e, "css") {
        "text/css"
    } else if eq_str(e, "js") {
        "text/javascript"
    } else if eq_str(e, "png") {
        "image/png"
    } else if eq_str(e, "jpg") || eq_str(e, "jpeg") {
        "image/jpeg"
    } else if eq_str(e, "gif") {
        "image/gif"
    } else if eq_str(e, "svg") {
        "image/svg+xml"
    } else if eq_str(e, "ico") {
        "image/x-icon"
    } else {
        "application/octet-stream"
    }
}

/// Whether the path with the components `path` lies in the directory with
/// the components `root`: the components of the root are the first
/// components of the path.
pub open spec fn components_within(root: Seq<Seq<char>>, path: Seq<Seq<char>>) -> bool {
    root.len() <= path.len() && path.take(root.len() as int) == root
}

/// Whether `path` lies in the directory `root`, where both are absolute
/// paths without `.` and `..`, with slashes between their components.
pub open spec fn within_root(root: Seq<char>, path: Seq<char>) -> bool {
    components_within(
        tokens(root, CharClass::Exactly('/')),
        tokens(path, CharClass::Exactly('/')),
    )
}

/// Whether the resolved path of a file lies in the resolved directory that
/// files are served from. A request may not reach a file outside it.
pub fn is_within_root(root: &str, path: &str) -> (r: bool)
    ensures
        r == within_root(root@, path@),
{
    let root_chars = to_chars(root);
    let path_chars = to_chars(path);
    let a = tokens_chars(root_chars.as_slice(), CharClass::Exactly('/'));
    let b = tokens_chars(path_chars.as_slice(), CharClass::Exactly('/'));
    if a.len() > b.len() {
        return false;
    }
    let ghost ra = views(a@);
    let ghost rb = views(b@);
    let mut i: usize = 0;
    while i < a.len()
        invariant
            i <= a@.len() <= b@.len(),
            ra == views(a@),
            rb == views(b@),
            ra == tokens(root@, CharClass::Exactly('/')),
            rb == tokens(path@, CharClass::Exactly('/')),
            forall|j: int| 0 <= j < i ==> ra[j] == rb[j],
        decreases a@.len() - i,
    {
        assert(ra[i as int] == a@[i as int]@);
        assert(rb[i as int] == b@[i as int]@);
        if !eq_chars(a[i].as_slice(), b[i].as_slice()) {
            assert(rb.take(ra.len() as int)[i as int] != ra[i as int]);
            return false;
        }
        i = i + 1;
    }
    assert(rb.take(ra.len() as int) =~= ra);
    true
}

/// The name for the text that `httpdate::fmt_http_date` returns for the
/// time `secs` seconds after the beginning of 1970: the date in the fixed
/// format of HTTP, such as `Fri, 15 May 2015 15:34:21 GMT`.
pub uninterp spec fn http_date_of(secs: u64) -> Seq<char>;

/// The first second that has no date in the format of HTTP: the beginning
/// of the year 10000.
pub const DATE_LIMIT: u64 = 253402300800;

/// `httpdate::fmt_http_date` on the time `secs` seconds after the beginning
/// of 1970. It panics from the year 10000 on. The contract only names the
/// result.
#[verifier::external_body]
pub(crate) fn http_date(secs: u64) -> (out: String)
    requires
        secs < DATE_LIMIT,
    ensures
        out@ == http_date_of(secs),
{
    httpdate::fmt_http_date(std::time::UNIX_EPOCH + std::time::Duration::from_secs(secs))
}

/// What is known of a file that is served, besides its content.
#[derive(Debug)]
pub struct FileInfo {
    /// The extension of the file's name, if it has one.
    pub extension: Option<String>,
    /// The file's length and the seconds from 1970 to its last change, if
    /// the file system tells them. The time alone may be unknown.
    pub stamp: Option<(u64, Option<u64>)>,
}

/// The headers of a served file that depend on the file.
#[derive(Debug)]
pub struct FileHead {
    /// The content type, for a file with an extension.
    pub content_type: Option<String>,
    /// The date of the last change, in the format of HTTP.
    pub last_modified: Option<String>,
    /// The entity tag.
    pub etag: Option<String>,
}

/// The mathematical value of a `FileHead`.
pub struct FileHeadView {
    pub content_type: Option<Seq<char>>,
    pub last_modified: Option<Seq<char>>,
    pub etag: Option<Seq<char>>,
}

/// The view of an optional string.
pub open spec fn text_of(s: Option<String>) -> Option<Seq<char>> {
    match s {
        Some(s) => Some(s@),
        None => None,
    }
}

impl View for FileHead {
    type V = FileHeadView;

    open spec fn view(&self) -> FileHeadView {
        FileHeadView {
            content_type: text_of(self.content_type),
            last_modified: text_of(self.last_modified),
            etag: text_of(self.etag),
        }
    }
}

impl FileHeadView {
    /// The response that serves a file with these headers and the content
    /// `content`: 200, the content type, a year of caching, the date of the
    /// last change, the entity tag, and the content as the body.
    pub open spec fn response(self, content: Seq<char>) -> ResponseView {
        let typed = match self.content_type {
            Some(t) => ResponseView::empty(200).with_header("Content-Type"@, t),
            None => ResponseView::empty(200),
        };
        let cached = typed.with_header("Cache-Control"@, "public, max-age=31536000"@);
        let dated = match self.last_modified {
            Some(date) => cached.with_header("Last-Modified"@, date),
            None => cached,
        };
        let tagged = match self.etag {
            Some(tag) => dated.with_header("ETag"@, tag),
            None => dated,
        };
        tagged.with_body(content)
    }
}

impl FileInfo {
    /// The entity tag of a file: its length and the seconds of its last
    /// change, or 0 where they are unknown, in double quotes.
    pub open spec fn etag(length: u64, modified: Option<u64>) -> Seq<char> {
        "\""@ + decimal(length as nat) + "-"@ + decimal(
            match modified {
                Some(secs) => secs as nat,
                None => 0,
            },
        ) + "\""@
    }

    /// The headers of the file: a content type by its extension, and from
    /// its stamp the date of its last change and its entity tag.
    pub open spec fn head(self) -> FileHeadView {
        FileHeadView {
            content_type: match self.extension {
                Some(ext) => Some(content_type_of(ext@)),
                None => None,
            },
            last_modified: match self.stamp {
                Some((_, Some(secs))) => Some(http_date_of(secs)),
                _ => None,
            },
            etag: match self.stamp {
                Some((length, modified)) => Some(Self::etag(length, modified)),
                None => None,
            },
        }
    }

    /// Whether the time of the last change, if it is known, has a date in
    /// the format of HTTP.
    pub open spec fn datable(self) -> bool {
        self.stamp matches Some((_, Some(secs))) ==> secs < DATE_LIMIT
    }
}

/// The response that serves a file with the headers `head` and the content
/// `content`.
pub fn file_response(head: &FileHead, content: &str) -> (r: Response)
    ensures
        r@ == head@.response(content@),
{
    let mut response = Response::new(200);
    match &head.content_type {
        Some(t) => {
            response.header("Content-Type", t.as_str());
        },
        None => {},
    }
    response.header("Cache-Control", "public, max-age=31536000");
    match &head.last_modified {
        Some(date) => {
            response.header("Last-Modified", date.as_str());
        },
        None => {},
    }
    match &head.etag {
        Some(tag) => {
            response.header("ETag", tag.as_str());
        },
        None => {},
    }
    response.body(content);
    response
}

/// The response that serves the file `info` with the content `content`.
pub fn serve_file(info: &FileInfo, content: &str) -> (r: Response)
    requires
        info.datable(),
    ensures
        r@ == info.head().response(content@),
{
    let content_type = match &info.extension {
        Some(ext) => Some(content_type_for(ext.as_str()).to_owned()),
        None => None,
    };
    let last_modified = match info.stamp {
        Some((_, Some(secs))) => Some(http_date(secs)),
        _ => None,
    };
    let etag = match info.stamp {
        Some((length, modified)) => {
            let mut tag = to_chars("\"");
            push_decimal(&mut tag, length);
            extend_str(&mut tag, "-");
            match modified {
                Some(secs) => {
                    push_decimal(&mut tag, secs);
                },
                None => {
                    push_decimal(&mut tag, 0);
                },
            }
            extend_str(&mut tag, "\"");
            Some(from_chars(tag.as_slice()))
        },
        None => None,
    };
    let head = FileHead { content_type, last_modified, etag };
    file_response(&head, content)
}

/// What the file system gave for a path under the directory of static
/// files.
#[derive(Debug)]
pub struct FoundFile {
    /// The directory of static files, resolved: absolute, without `.`, `..`
    /// and links, with slashes between its components.
    pub root: String,
    /// The path that was asked for, resolved in the same way.
    pub path: String,
    /// Whether the path names a regular file.
    pub is_file: bool,
    pub info: FileInfo,
    /// The content of the file, as text.
    pub content: String,
}

impl Application {
    /// An application without routes, which serves 256 connections at the
    /// same time.
    pub fn new() -> (app: Application)
        ensures
            app.max_connections == 256,
            app.keep_alive == 5,
            app.router@ == (RouterView {
                middlewares: Seq::empty(),
                routes: Seq::empty(),
                dynamic: Seq::empty(),
            }),
            app.static_dir.is_none(),
            app.tls_config.is_none(),
            app.plugins.keys@ == Seq::<u64>::empty(),
            !app.plugins.shared,
    {
        Application {
            max_connections: 256,
            keep_alive: 5,
            router: Router::new(),
            static_dir: None,
            plugins: Plugins::new(),
            tls_config: None,
        }
    }

    /// Sets the ceiling on the connections that are served at the same
    /// time.
    pub fn max_connections(&mut self, max_connections: usize) -> (r: &mut Self)
        ensures
            *r == (Application { max_connections, ..*old(self) }),
            *final(self) == *final(r),
    {
        self.max_connections = max_connections;
        self
    }

    /// Sets the seconds for which an idle connection would be kept.
    pub fn keep_alive(&mut self, keep_alive: u64) -> (r: &mut Self)
        ensures
            *r == (Application { keep_alive, ..*old(self) }),
            *final(self) == *final(r),
    {
        self.keep_alive = keep_alive;
        self
    }

    /// Registers a plugin under `key`. The application must not serve
    /// connections yet.
    pub fn plugins(&mut self, key: u64) -> (slot: usize)
        requires
            !old(self).plugins.shared,
        ensures
            slot == slot_of(old(self).plugins.keys@, key),
            !final(self).plugins.shared,
            final(self).plugins.keys@ == if slot < old(self).plugins.keys@.len() {
                old(self).plugins.keys@
            } else {
                old(self).plugins.keys@.push(key)
            },
            final(self).router == old(self).router,
            final(self).max_connections == old(self).max_connections,
    {
        self.plugins.insert(key)
    }

    /// Registers `handler` for `GET` on `path`.
    pub fn get(&mut self, path: &str, handler: u64)
        ensures
            final(self).router@ == old(self).router@.with_route(Method::GET, path@, handler),
    {
        self.router.add(Method::GET, path, handler);
    }

    /// Registers `handler` for `POST` on `path`.
    pub fn post(&mut self, path: &str, handler: u64)
        ensures
            final(self).router@ == old(self).router@.with_route(Method::POST, path@, handler),
    {
        self.router.add(Method::POST, path, handler);
    }

    /// Registers `handler` for `PUT` on `path`.
    pub fn put(&mut self, path: &str, handler: u64)
        ensures
            final(self).router@ == old(self).router@.with_route(Method::PUT, path@, handler),
    {
        self.router.add(Method::PUT, path, handler);
    }

    /// Registers `handler` for `PATCH` on `path`.
    pub fn patch(&mut self, path: &str, handler: u64)
        ensures
            final(self).router@ == old(self).router@.with_route(Method::PATCH, path@, handler),
    {
        self.router.add(Method::PATCH, path, handler);
    }

    /// Registers `handler` for `DELETE` on `path`.
    pub fn delete(&mut self, path: &str, handler: u64)
        ensures
            final(self).router@ == old(self).router@.with_route(Method::DELETE, path@, handler),
    {
        self.router.add(Method::DELETE, path, handler);
    }

    /// Registers `handler` for `HEAD` on `path`.
    pub fn head(&mut self, path: &str, handler: u64)
        ensures
            final(self).router@ == old(self).router@.with_route(Method::HEAD, path@, handler),
    {
        self.router.add(Method::HEAD, path, handler);
    }

    /// Registers `handler` for `CONNECT` on `path`.
    pub fn connect(&mut self, path: &str, handler: u64)
        ensures
            final(self).router@ == old(self).router@.with_route(Method::CONNECT, path@, handler),
    {
        self.router.add(Method::CONNECT, path, handler);
    }

    /// Registers `handler` for `OPTIONS` on `path`.
    pub fn options(&mut self, path: &str, handler: u64)
        ensures
            final(self).router@ == old(self).router@.with_route(Method::OPTIONS, path@, handler),
    {
        self.router.add(Method::OPTIONS, path, handler);
    }

    /// Registers `handler` for `TRACE` on `path`.
    pub fn trace(&mut self, path: &str, handler: u64)
        ensures
            final(self).router@ == old(self).router@.with_route(Method::TRACE, path@, handler),
    {
        self.router.add(Method::TRACE, path, handler);
    }

    /// Wraps the routes that are registered from now on in `middleware`.
    pub fn middleware(&mut self, middleware: u64)
        ensures
            final(self).router@ == (RouterView {
                middlewares: old(self).router@.middlewares.push(middleware),
                ..old(self).router@
            }),
    {
        self.router.middleware(middleware);
    }

    /// Takes over the routes of `router` under the prefix `path`.
    pub fn mount(&mut self, path: &str, router: Router)
        ensures
            final(self).router@ == old(self).router@.with_mounted(path@, router@.routes),
    {
        self.router.mount(path, router);
    }

    /// Makes the server use TLS with the certificate and the key in the
    /// files `cert_file` and `key_file`.
    pub fn with_tls(&mut self, cert_file: &str, key_file: &str) -> (r: &mut Self)
        ensures
            r.tls_config matches Some(t) && t.cert_file@ == cert_file@ && t.key_file@ == key_file@,
            r.router == old(self).router,
            r.max_connections == old(self).max_connections,
            *final(self) == *final(r),
    {
        self.tls_config = Some(TlsConfig::new(cert_file, key_file));
        self
    }

    /// Sets the directory that files are served from.
    pub fn static_dir(&mut self, dir: &str) -> (r: &mut Self)
        ensures
            r.static_dir matches Some(d) && d@ == dir@,
            r.router == old(self).router,
            r.max_connections == old(self).max_connections,
            *final(self) == *final(r),
    {
        self.static_dir = Some(dir.to_owned());
        self
    }

    /// Decides how `req` is served, and prepares it: the parameters that a
    /// pattern bound become the request's parameters, and a `HEAD` request
    /// that the route for `GET` serves becomes a `GET` request.
    pub fn handle(&self, req: &mut Request) -> (dispatch: Dispatch)
        ensures
            dispatch@ == self.router@.resolve(old(req).path@, old(req).method).0,
            final(req).params@ == match self.router@.resolve(old(req).path@, old(req).method).1 {
                Some(params) => params,
                None => old(req).params@,
            },
            final(req).method == if dispatch@ is Head {
                Method::GET
            } else {
                old(req).method
            },
            final(req).path == old(req).path,
            final(req).query == old(req).query,
            final(req).headers == old(req).headers,
            final(req).data == old(req).data,
            final(req).body == old(req).body,
    {
        let (dispatch, params) = self.router.resolve(req.path.as_str(), req.method);
        match params {
            Some(params) => {
                req.params = params;
            },
            None => {},
        }
        match &dispatch {
            Dispatch::Head(_) => {
                req.method = Method::GET;
            },
            _ => {},
        }
        dispatch
    }

    /// Whether the file `found` is served: the application serves files,
    /// the resolved path lies in the resolved root, and it is a regular
    /// file.
    pub open spec fn serves(&self, found: &FoundFile) -> bool {
        self.static_dir.is_some() && within_root(found.root@, found.path@) && found.is_file
    }

    /// The answer to a request that no route serves, where `found` is what
    /// the file system gave for the request's path under the directory of
    /// static files, if it gave anything. The file is served only if it lies
    /// in that directory; in every other case nothing was found.
    pub fn handle_static_file(&self, found: Option<&FoundFile>) -> (r: HttpResponse)
        requires
            found matches Some(file) ==> file.info.datable(),
        ensures
            match found {
                Some(file) => if self.serves(file) {
                    r matches Ok(response) && response@ == file.info.head().response(
                        file.content@,
                    )
                } else {
                    r == Err::<Response, _>(ServerError::NotFound)
                },
                None => r == Err::<Response, _>(ServerError::NotFound),
            },
    {
        match found {
            Some(file) => {
                if self.static_dir.is_some() && file.is_file && is_within_root(
                    file.root.as_str(),
                    file.path.as_str(),
                ) {
                    Ok(serve_file(&file.info, file.content.as_str()))
                } else {
                    Err(ServerError::NotFound)
                }
            },
            None => Err(ServerError::NotFound),
        }
    }

    /// The response that reports `error`.
    pub fn handle_error(&self, error: ServerError) -> (r: Response)
        ensures
            r@ == ResponseView::empty(error.status()).with_header(
                "Content-Type"@,
                "application/json"@,
            ).with_body(error_json(json_quoted(error.text()), error.status())),
    {
        Response::error(error)
    }
}

} // verus!
