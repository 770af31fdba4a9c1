//! The head of a request, line by line: the request line, the header lines,
//! and what they say of the body that follows.

use crate::http::body::Body;
use crate::http::request::{method_named, Method, ParseError, Request};
use crate::path::{normalize_chars, normalized};
use crate::string_map::{lookup, put, StringMap};
use crate::text::{
    from_chars, lowercase_chars, parse_index, parse_usize, split, split_chars, split_once,
    split_once_chars, to_chars, tokens, tokens_chars, trim, trim_chars, lowercase, views,
    CharClass,
};
use vstd::prelude::*;

verus! {

/// `fields` with the piece `piece` of a query string put into it: what
/// stands before its first equals sign bound to what stands after it, or
/// the whole piece bound to the empty text. An empty piece is dropped.
pub open spec fn with_query_piece(
    fields: Seq<(Seq<char>, Seq<char>)>,
    piece: Seq<char>,
) -> Seq<(Seq<char>, Seq<char>)> {
    if piece.len() == 0 {
        fields
    } else {
        match split_once(piece, CharClass::Exactly('=')) {
            Some((key, value)) => put(fields, key, value),
            None => put(fields, piece, Seq::empty()),
        }
    }
}

/// What the pieces `pieces` of a query string say, from the first to the
/// last.
pub open spec fn query_fields(pieces: Seq<Seq<char>>) -> Seq<(Seq<char>, Seq<char>)>
    decreases pieces.len(),
{
    if pieces.len() == 0 {
        Seq::empty()
    } else {
        with_query_piece(query_fields(pieces.drop_last()), pieces.last())
    }
}

/// The parameters of the query string `query`, whose pieces ampersands
/// separate.
pub open spec fn query_of(query: Seq<char>) -> Seq<(Seq<char>, Seq<char>)> {
    query_fields(split(query, CharClass::Exactly('&')))
}

/// Reads a query string.
pub fn parse_query(query: &str) -> (fields: StringMap)
    ensures
        fields@ == query_of(query@),
{
    let chars = to_chars(query);
    parse_query_chars(chars.as_slice())
}

fn parse_query_chars(query: &[char]) -> (fields: StringMap)
    ensures
        fields@ == query_of(query@),
{
    let pieces = split_chars(query, CharClass::Exactly('&'));
    let ghost all = views(pieces@);
    let mut fields = StringMap::new();
    let mut i: usize = 0;
    proof {
        assert(all.take(0) =~= Seq::<Seq<char>>::empty());
    }
    while i < pieces.len()
        invariant
            i <= pieces@.len(),
            all == views(pieces@),
            fields@ == query_fields(all.take(i as int)),
        decreases pieces@.len() - i,
    {
        assert(all[i as int] == pieces@[i as int]@);
        proof {
            assert(all.take(i + 1).drop_last() =~= all.take(i as int));
        }
        let piece = pieces[i].as_slice();
        if piece.len() > 0 {
            match split_once_chars(piece, CharClass::Exactly('=')) {
                Some((key, value)) => {
                    fields.insert(from_chars(key.as_slice()), from_chars(value.as_slice()));
                },
                None => {
                    fields.insert(from_chars(piece), String::new());
                },
            }
        }
        i = i + 1;
    }
    proof {
        assert(all.take(pieces@.len() as int) =~= all);
    }
    fields
}

/// What a request line says.
#[derive(Debug)]
pub struct RequestLine {
    pub method: Method,
    pub path: String,
    pub query: StringMap,
}

/// The mathematical value of a request line.
pub struct RequestLineView {
    pub method: Method,
    pub path: Seq<char>,
    pub query: Seq<(Seq<char>, Seq<char>)>,
}

impl View for RequestLine {
    type V = RequestLineView;

    open spec fn view(&self) -> RequestLineView {
        RequestLineView { method: self.method, path: self.path@, query: self.query@ }
    }
}

/// What the target `target` of a request says under the method token
/// `token`: the path is what stands before the first question mark, in
/// normal form, and the query is what stands after it.
pub open spec fn target_of(token: Seq<char>, target: Seq<char>) -> RequestLineView {
    match split_once(target, CharClass::Exactly('?')) {
        Some((path, query)) => RequestLineView {
            method: method_named(token),
            path: normalized(path),
            query: query_of(query),
        },
        None => RequestLineView {
            method: method_named(token),
            path: normalized(target),
            query: Seq::empty(),
        },
    }
}

/// What the first line of a connection says. An empty line means that the
/// peer closed the connection, and there is no request. Any other line must
/// hold a method token and a target, with white space between them.
pub open spec fn request_line(line: Seq<char>) -> Result<Option<RequestLineView>, ParseError> {
    let words = tokens(line, CharClass::Whitespace);
    if line.len() == 0 {
        Ok(None)
    } else if words.len() < 2 {
        Err(ParseError::InvalidRequest)
    } else {
        Ok(Some(target_of(words[0], words[1])))
    }
}

/// Reads the first line of a connection.
pub fn parse_request_line(line: &str) -> (r: Result<Option<RequestLine>, ParseError>)
    ensures
        match r {
            Ok(Some(parsed)) => request_line(line@) == Ok::<_, ParseError>(Some(parsed@)),
            Ok(None) => request_line(line@) == Ok::<Option<RequestLineView>, ParseError>(None),
            Err(e) => request_line(line@) == Err::<Option<RequestLineView>, _>(e),
        },
{
    let chars = to_chars(line);
    if chars.len() == 0 {
        return Ok(None);
    }
    let words = tokens_chars(chars.as_slice(), CharClass::Whitespace);
    if words.len() < 2 {
        return Err(ParseError::InvalidRequest);
    }
    assert(views(words@)[0] == words@[0]@);
    assert(views(words@)[1] == words@[1]@);
    let token = from_chars(words[0].as_slice());
    let method = Method::from_string(token.as_str());
    let target = words[1].as_slice();
    let parsed = match split_once_chars(target, CharClass::Exactly('?')) {
        Some((path, query)) => {
            let path = normalize_chars(path.as_slice());
            RequestLine {
                method,
                path: from_chars(path.as_slice()),
                query: parse_query_chars(query.as_slice()),
            }
        },
        None => {
            let path = normalize_chars(target);
            RequestLine { method, path: from_chars(path.as_slice()), query: StringMap::new() }
        },
    };
    Ok(Some(parsed))
}

/// What a line of the head after the request line says.
#[derive(Debug)]
pub enum HeaderLine {
    /// A blank line: the head ends here.
    End,
    /// A header field: its name in lower case, and its value.
    Field(String, String),
    /// A line without a colon, which says nothing.
    Ignored,
}

/// The mathematical value of a header line.
pub enum HeaderLineView {
    End,
    Field(Seq<char>, Seq<char>),
    Ignored,
}

impl View for HeaderLine {
    type V = HeaderLineView;

    open spec fn view(&self) -> HeaderLineView {
        match self {
            HeaderLine::End => HeaderLineView::End,
            HeaderLine::Field(name, value) => HeaderLineView::Field(name@, value@),
            HeaderLine::Ignored => HeaderLineView::Ignored,
        }
    }
}

/// What the line `line` says: a line of nothing but white space ends the
/// head; a line with a colon is a field, whose name is what stands before
/// the first colon, trimmed and in lower case, and whose value is what
/// stands after it, trimmed.
pub open spec fn header_line(line: Seq<char>) -> HeaderLineView {
    if trim(line).len() == 0 {
        HeaderLineView::End
    } else {
        match split_once(trim(line), CharClass::Exactly(':')) {
            Some((name, value)) => HeaderLineView::Field(
                lowercase(trim(name)),
                trim(value),
            ),
            None => HeaderLineView::Ignored,
        }
    }
}

/// Reads a line of the head after the request line.
pub fn parse_header_line(line: &str) -> (r: HeaderLine)
    ensures
        r@ == header_line(line@),
{
    let chars = to_chars(line);
    let trimmed = trim_chars(chars.as_slice());
    if trimmed.len() == 0 {
        return HeaderLine::End;
    }
    match split_once_chars(trimmed.as_slice(), CharClass::Exactly(':')) {
        Some((name, value)) => {
            let name = trim_chars(name.as_slice());
            let name = lowercase_chars(name.as_slice());
            let value = trim_chars(value.as_slice());
            HeaderLine::Field(from_chars(name.as_slice()), from_chars(value.as_slice()))
        },
        None => HeaderLine::Ignored,
    }
}

/// The number of body bytes that the headers announce: what the header
/// `content-length` denotes, and none where it is missing or no number.
pub open spec fn announced_length(headers: Seq<(Seq<char>, Seq<char>)>) -> usize {
    match lookup(headers, "content-length"@) {
        Some(value) => match parse_index(value) {
            Some(n) => n,
            None => 0,
        },
        None => 0,
    }
}

/// The content type that the headers give, and `none` where they give
/// none.
pub open spec fn announced_type(headers: Seq<(Seq<char>, Seq<char>)>) -> Seq<char> {
    match lookup(headers, "content-type"@) {
        Some(value) => value,
        None => "none"@,
    }
}

/// The number of body bytes to read after the head.
pub fn content_length(headers: &StringMap) -> (n: usize)
    ensures
        n == announced_length(headers@),
{
    match headers.get("content-length") {
        Some(value) => {
            let chars = to_chars(value.as_str());
            match parse_usize(chars.as_slice()) {
                Some(n) => n,
                None => 0,
            }
        },
        None => 0,
    }
}

/// The content type of the body.
pub fn content_type(headers: &StringMap) -> (t: String)
    ensures
        t@ == announced_type(headers@),
{
    match headers.get("content-type") {
        Some(value) => value.clone(),
        None => "none".to_owned(),
    }
}

/// Where the reading of a request stands.
#[derive(PartialEq, Eq, Structural, Copy, Clone, Debug)]
pub enum ParserState {
    /// Nothing was read yet.
    RequestLine,
    /// The request line was read; header lines follow.
    Headers,
    /// The head is complete; the body follows.
    Body,
    /// The peer closed the connection before it sent a request.
    Closed,
    /// The request line was invalid.
    Failed,
}

/// What the parser asks for next.
#[derive(PartialEq, Eq, Structural, Copy, Clone, Debug)]
pub enum Need {
    /// One more line.
    Line,
    /// This many bytes of body, or as many as come before the end of input.
    Body(usize),
    /// Nothing: there is no request to serve.
    Nothing,
}

/// Reads the head of one request, line by line.
#[derive(Debug)]
pub struct RequestParser {
    pub state: ParserState,
    pub method: Method,
    pub path: String,
    pub query: StringMap,
    pub headers: StringMap,
}

/// The mathematical value of a parser.
pub struct ParserView {
    pub state: ParserState,
    pub method: Method,
    pub path: Seq<char>,
    pub query: Seq<(Seq<char>, Seq<char>)>,
    pub headers: Seq<(Seq<char>, Seq<char>)>,
}

impl View for RequestParser {
    type V = ParserView;

    open spec fn view(&self) -> ParserView {
        ParserView {
            state: self.state,
            method: self.method,
            path: self.path@,
            query: self.query@,
            headers: self.headers@,
        }
    }
}

impl ParserView {
    /// The parser that has read nothing: it waits for the request line, and
    /// holds no path, no query and no headers yet. Its method is `GET` until
    /// the request line names one.
    pub open spec fn fresh() -> ParserView {
        ParserView {
            state: ParserState::RequestLine,
            method: Method::GET,
            path: Seq::empty(),
            query: Seq::empty(),
            headers: Seq::empty(),
        }
    }

    /// The parser after the line `line`, and what it asks for then.
    ///
    /// The first line is the request line. Each following line adds a
    /// header, where a later header of the same name replaces an earlier
    /// one, until a blank line ends the head. After that, and after the
    /// connection was closed or the request line was invalid, lines change
    /// nothing.
    pub open spec fn after_line(self, line: Seq<char>) -> (ParserView, Need) {
        match self.state {
            ParserState::RequestLine => match request_line(line) {
                Ok(Some(parsed)) => (
                    ParserView {
                        state: ParserState::Headers,
                        method: parsed.method,
                        path: parsed.path,
                        query: parsed.query,
                        ..self
                    },
                    Need::Line,
                ),
                Ok(None) => (ParserView { state: ParserState::Closed, ..self }, Need::Nothing),
                Err(_) => (ParserView { state: ParserState::Failed, ..self }, Need::Nothing),
            },
            ParserState::Headers => match header_line(line) {
                HeaderLineView::End => (
                    ParserView { state: ParserState::Body, ..self },
                    Need::Body(announced_length(self.headers)),
                ),
                HeaderLineView::Field(name, value) => (
                    ParserView { headers: put(self.headers, name, value), ..self },
                    Need::Line,
                ),
                HeaderLineView::Ignored => (self, Need::Line),
            },
            ParserState::Body => (self, Need::Body(announced_length(self.headers))),
            ParserState::Closed => (self, Need::Nothing),
            ParserState::Failed => (self, Need::Nothing),
        }
    }
}

impl RequestParser {
    /// A parser that has read nothing.
    pub fn new() -> (p: RequestParser)
        ensures
            p@ == ParserView::fresh(),
    {
        RequestParser {
            state: ParserState::RequestLine,
            method: Method::GET,
            path: String::new(),
            query: StringMap::new(),
            headers: StringMap::new(),
        }
    }

    /// Takes the next line of the head.
    pub fn feed_line(&mut self, line: &str) -> (need: Need)
        ensures
            (final(self)@, need) == old(self)@.after_line(line@),
    {
        match self.state {
            ParserState::RequestLine => match parse_request_line(line) {
                Ok(Some(parsed)) => {
                    self.state = ParserState::Headers;
                    self.method = parsed.method;
                    self.path = parsed.path;
                    self.query = parsed.query;
                    Need::Line
                },
                Ok(None) => {
                    self.state = ParserState::Closed;
                    Need::Nothing
                },
                Err(_) => {
                    self.state = ParserState::Failed;
                    Need::Nothing
                },
            },
            ParserState::Headers => match parse_header_line(line) {
                HeaderLine::End => {
                    self.state = ParserState::Body;
                    Need::Body(content_length(&self.headers))
                },
                HeaderLine::Field(name, value) => {
                    self.headers.insert(name, value);
                    Need::Line
                },
                HeaderLine::Ignored => Need::Line,
            },
            ParserState::Body => Need::Body(content_length(&self.headers)),
            ParserState::Closed => Need::Nothing,
            ParserState::Failed => Need::Nothing,
        }
    }

    /// The request that was read, with the body bytes `body`. The body
    /// carries the content type that the headers give.
    pub fn finish(self, body: Vec<u8>) -> (request: Request)
        ensures
            request.method == self.method,
            request.path@ == self.path@,
            request.query@ == self.query@,
            request.headers@ == self.headers@,
            request.params@ == Seq::<(Seq<char>, Seq<char>)>::empty(),
            request.data@.len() == 0,
            request.body.content_type@ == announced_type(self.headers@),
            request.body.data@ == body@,
    {
        let content_type = content_type(&self.headers);
        Request {
            method: self.method,
            path: self.path,
            query: self.query,
            params: StringMap::new(),
            headers: self.headers,
            data: Vec::new(),
            body: Body { content_type, data: body },
        }
    }
}

} // verus!
