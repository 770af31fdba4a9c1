//! Request bodies and their decoders: URL-encoded forms and multipart form
//! data, both read into a `Value`.

use crate::http::value::{
    fields_view, lemma_object_view, set_nested, set_nested_value, Json, Value,
};
use crate::string_map::{lookup, put, StringMap};
use crate::text::{
    copy_range, decode_utf8, decode_utf8_lossy, eq_str, extend, find, find_bytes, from_chars,
    lemma_find_from, lowercase_chars, split, split_chars, split_on, split_on_chars, split_once,
    split_once_chars, starts_with, starts_with_chars, strip, strip_chars, to_chars, trim,
    trim_chars, lowercase, lossy_text, views, bytes_match_at, CharClass,
};
use vstd::prelude::*;
use vstd::string::StringSliceAdditionalSpecFns;

verus! {

/// Why a multipart body could not be decoded.
#[derive(Clone, Copy, Debug, PartialEq, Eq, Structural)]
pub enum MultipartError {
    /// The content type names no boundary.
    BoundaryNotFound,
    /// A part has no blank line after its headers, or the body ends before
    /// its closing delimiter is complete.
    InvalidFormat,
    /// The headers of a part are not UTF-8.
    Utf8Error,
}

/// The bytes of a line break.
pub open spec fn crlf() -> Seq<u8> {
    seq![13u8, 10u8]
}

/// The delimiter between two parts: a line that holds `delimiter`.
pub open spec fn part_pattern(delimiter: Seq<u8>) -> Seq<u8> {
    crlf() + delimiter + crlf()
}

/// The delimiter after the last part: a line that holds `delimiter` and two
/// hyphens.
pub open spec fn end_pattern(delimiter: Seq<u8>) -> Seq<u8> {
    crlf() + delimiter + seq![45u8, 45u8] + crlf()
}

/// What is left of a body after its last part delimiter: nothing, or one
/// more part, which is what is left without as many bytes at its end as
/// the closing delimiter has. `None` where less than that is left.
pub open spec fn last_part(rest: Seq<u8>, closing: Seq<u8>) -> Option<Seq<Seq<u8>>> {
    if rest.len() == 0 {
        Some(Seq::empty())
    } else if rest.len() < closing.len() {
        None
    } else {
        Some(seq![rest.take(rest.len() - closing.len())])
    }
}

/// The parts of `body`: the pieces between the occurrences of `pattern`,
/// up to the first one that `closing` follows directly, and then what
/// `last_part` makes of the rest.
pub open spec fn body_parts(body: Seq<u8>, pattern: Seq<u8>, closing: Seq<u8>) -> Option<
    Seq<Seq<u8>>,
>
    decreases body.len(),
{
    match find(body, pattern) {
        Some(pos) => if pattern.len() > 0 && 0 <= pos && pos + pattern.len() <= body.len() {
            let rest = body.skip(pos + pattern.len());
            let more = if starts_with(rest, closing) {
                last_part(rest, closing)
            } else {
                body_parts(rest, pattern, closing)
            };
            match more {
                Some(parts) => Some(seq![body.take(pos)] + parts),
                None => None,
            }
        } else {
            last_part(body, closing)
        },
        None => last_part(body, closing),
    }
}

/// The headers and the content of a part: what stands before and after its
/// first blank line.
pub open spec fn headers_and_content(part: Seq<u8>) -> Option<(Seq<u8>, Seq<u8>)> {
    match find(part, crlf() + crlf()) {
        Some(pos) => Some((part.take(pos), part.skip(pos + 4))),
        None => None,
    }
}

/// The four bytes of a blank line after a line.
fn blank_line() -> (out: Vec<u8>)
    ensures
        out@ == crlf() + crlf(),
{
    let mut out: Vec<u8> = Vec::new();
    out.push(13u8);
    out.push(10u8);
    out.push(13u8);
    out.push(10u8);
    assert(out@ =~= crlf() + crlf());
    out
}

/// `delimiter` as a line of its own, followed by two hyphens if `closing`.
fn delimiter_line(delimiter: &[u8], closing: bool) -> (out: Vec<u8>)
    ensures
        out@ == if closing {
            end_pattern(delimiter@)
        } else {
            part_pattern(delimiter@)
        },
{
    let mut out: Vec<u8> = Vec::new();
    out.push(13u8);
    out.push(10u8);
    extend(&mut out, delimiter);
    if closing {
        out.push(45u8);
        out.push(45u8);
    }
    out.push(13u8);
    out.push(10u8);
    proof {
        if closing {
            assert(out@ =~= end_pattern(delimiter@));
        } else {
            assert(out@ =~= part_pattern(delimiter@));
        }
    }
    out
}

/// The index of the first occurrence of `needle` in `haystack`.
pub fn find_subsequence(haystack: &[u8], needle: &[u8]) -> (r: Option<usize>)
    requires
        needle@.len() > 0,
    ensures
        match r {
            Some(i) => find(haystack@, needle@) == Some(i as int),
            None => find(haystack@, needle@).is_none(),
        },
{
    find_bytes(haystack, needle)
}

/// Cuts a multipart body into its parts. `delimiter` is the boundary with
/// its two leading hyphens.
pub fn split_body(body: &[u8], delimiter: &str) -> (r: Result<Vec<Vec<u8>>, MultipartError>)
    ensures
        match r {
            Ok(parts) => body_parts(
                body@,
                part_pattern(delimiter.spec_bytes()),
                end_pattern(delimiter.spec_bytes()),
            ) == Some(views(parts@)) && forall|i: int|
                0 <= i < parts@.len() ==> (#[trigger] parts@[i])@.len() <= body@.len(),
            Err(e) => e == MultipartError::InvalidFormat && body_parts(
                body@,
                part_pattern(delimiter.spec_bytes()),
                end_pattern(delimiter.spec_bytes()),
            ).is_none(),
        },
{
    let pattern = delimiter_line(delimiter.as_bytes(), false);
    let closing = delimiter_line(delimiter.as_bytes(), true);
    let ghost pat = pattern@;
    let ghost end = closing@;
    let mut parts: Vec<Vec<u8>> = Vec::new();
    let mut start: usize = 0;
    let mut ended: bool = false;
    proof {
        assert(body@.skip(0) =~= body@);
    }
    while !ended
        invariant
            pat == pattern@,
            end == closing@,
            pat.len() > 0,
            start <= body@.len(),
            forall|i: int| 0 <= i < parts@.len() ==> (#[trigger] parts@[i])@.len() <= body@.len(),
            !ended ==> match body_parts(body@.skip(start as int), pat, end) {
                Some(more) => body_parts(body@, pat, end) == Some(views(parts@) + more),
                None => body_parts(body@, pat, end).is_none(),
            },
            ended ==> match last_part(body@.skip(start as int), end) {
                Some(more) => body_parts(body@, pat, end) == Some(views(parts@) + more),
                None => body_parts(body@, pat, end).is_none(),
            },
        decreases body@.len() - start + (if ended { 0int } else { 1int }),
    {
        let rest = vstd::slice::slice_subrange(body, start, body.len());
        assert(rest@ =~= body@.skip(start as int));
        proof {
            lemma_find_from(rest@, pat, 0);
        }
        match find_bytes(rest, pattern.as_slice()) {
            Some(pos) => {
                let piece = copy_range(rest, 0, pos);
                let ghost pieces = parts@;
                parts.push(piece);
                proof {
                    crate::text::lemma_views_push(pieces, piece);
                    assert(rest@.skip(pos + pat.len()) =~= body@.skip(start + pos + pat.len()));
                    let after = rest@.skip(pos + pat.len());
                    let more = if starts_with(after, end) {
                        last_part(after, end)
                    } else {
                        body_parts(after, pat, end)
                    };
                    if more.is_some() {
                        assert(views(parts@) + more.unwrap() =~= views(pieces) + (seq![piece@]
                            + more.unwrap()));
                    }
                }
                start = start + pos + pattern.len();
                if bytes_match_at(body, closing.as_slice(), start) {
                    proof {
                        let after = body@.skip(start as int);
                        assert(after.subrange(0, end.len() as int) =~= body@.subrange(
                            start as int,
                            start + end.len(),
                        ));
                    }
                    ended = true;
                } else {
                    proof {
                        let after = body@.skip(start as int);
                        if starts_with(after, end) {
                            assert(after.subrange(0, end.len() as int) =~= body@.subrange(
                                start as int,
                                start + end.len(),
                            ));
                        }
                    }
                }
            },
            None => {
                ended = true;
            },
        }
    }
    if start < body.len() {
        if body.len() - start < closing.len() {
            return Err(MultipartError::InvalidFormat);
        }
        let piece = copy_range(body, start, body.len() - closing.len());
        let ghost pieces = parts@;
        parts.push(piece);
        proof {
            crate::text::lemma_views_push(pieces, piece);
            let rest = body@.skip(start as int);
            assert(piece@ =~= rest.take(rest.len() - end.len()));
            assert(views(parts@) =~= views(pieces) + seq![piece@]);
        }
    } else {
        proof {
            assert(views(parts@) + Seq::<Seq<u8>>::empty() =~= views(parts@));
        }
    }
    Ok(parts)
}

/// Cuts a part at its first blank line into headers and content.
pub fn split_headers_content(part: &[u8]) -> (r: Result<(Vec<u8>, Vec<u8>), MultipartError>)
    ensures
        match r {
            Ok((headers, content)) => headers_and_content(part@) == Some((headers@, content@))
                && content@.len() <= part@.len(),
            Err(e) => e == MultipartError::InvalidFormat && headers_and_content(part@).is_none(),
        },
{
    let separator = blank_line();
    proof {
        lemma_find_from(part@, separator@, 0);
        assert(separator@.len() == 4);
    }
    match find_bytes(part, separator.as_slice()) {
        Some(pos) => {
            assert(crate::text::matches_at(part@, separator@, pos as int));
            let end: usize = part.len();
            let headers = copy_range(part, 0, pos);
            let content = copy_range(part, pos + 4, end);
            Ok((headers, content))
        },
        None => Err(MultipartError::InvalidFormat),
    }
}


/// The boundary that the first piece of `pieces` with the prefix
/// `boundary=` names, without white space and quotes around it.
pub open spec fn boundary_in(pieces: Seq<Seq<char>>) -> Option<Seq<char>>
    decreases pieces.len(),
{
    if pieces.len() == 0 {
        None
    } else if starts_with(trim(pieces[0]), "boundary="@) {
        Some(strip(trim(pieces[0]).skip("boundary="@.len() as int), CharClass::Exactly('"')))
    } else {
        boundary_in(pieces.skip(1))
    }
}

/// The boundary that a content type names in its `boundary=` parameter.
pub open spec fn boundary_of(content_type: Seq<char>) -> Option<Seq<char>> {
    boundary_in(split(content_type, CharClass::Exactly(';')))
}

/// Reads the boundary from a multipart content type.
pub fn extract_boundary(content_type: &str) -> (r: Result<String, MultipartError>)
    ensures
        match r {
            Ok(boundary) => boundary_of(content_type@) == Some(boundary@),
            Err(e) => e == MultipartError::BoundaryNotFound && boundary_of(content_type@).is_none(),
        },
{
    let chars = to_chars(content_type);
    let pieces = split_chars(chars.as_slice(), CharClass::Exactly(';'));
    let prefix = to_chars("boundary=");
    let ghost all = split(content_type@, CharClass::Exactly(';'));
    let mut i: usize = 0;
    proof {
        assert(all.skip(0) =~= all);
    }
    while i < pieces.len()
        invariant
            i <= pieces@.len(),
            views(pieces@) == all,
            all == split(content_type@, CharClass::Exactly(';')),
            prefix@ == "boundary="@,
            boundary_in(all.skip(i as int)) == boundary_in(all),
        decreases pieces@.len() - i,
    {
        assert(views(pieces@)[i as int] == pieces@[i as int]@);
        assert(all.skip(i as int)[0] == all[i as int]);
        let piece = trim_chars(pieces[i].as_slice());
        if starts_with_chars(piece.as_slice(), prefix.as_slice()) {
            let named = copy_range(piece.as_slice(), prefix.len(), piece.len());
            assert(named@ =~= piece@.skip(prefix@.len() as int));
            let boundary = strip_chars(named.as_slice(), CharClass::Exactly('"'));
            proof {
                let rest = all.skip(i as int);
                assert(rest.len() > 0);
                assert(trim(rest[0]) == piece@);
                assert(boundary_in(rest) == Some(boundary@));
            }
            return Ok(from_chars(boundary.as_slice()));
        }
        proof {
            assert(all.skip(i as int).skip(1) =~= all.skip(i + 1));
        }
        i = i + 1;
    }
    Err(MultipartError::BoundaryNotFound)
}

/// `fields` with the parameters of `params` put into it: each piece with an
/// equals sign binds what stands before it to what stands after it.
pub open spec fn with_params(
    fields: Seq<(Seq<char>, Seq<char>)>,
    params: Seq<Seq<char>>,
) -> Seq<(Seq<char>, Seq<char>)>
    decreases params.len(),
{
    if params.len() == 0 {
        fields
    } else {
        let before = with_params(fields, params.drop_last());
        match split_once(trim(params.last()), CharClass::Exactly('=')) {
            Some((name, value)) => put(before, name, value),
            None => before,
        }
    }
}

/// `fields` with the header `name`, whose value is `value`, put into it.
/// `name` is the header's name in lower case. A content disposition
/// contributes its parameters, every other header itself.
pub open spec fn with_header(
    fields: Seq<(Seq<char>, Seq<char>)>,
    name: Seq<char>,
    value: Seq<char>,
) -> Seq<(Seq<char>, Seq<char>)> {
    if name == "content-disposition"@ {
        with_params(fields, split(value, CharClass::Exactly(';')).skip(1))
    } else {
        put(fields, name, value)
    }
}

/// `fields` with what the header line `line` says put into it. A line
/// without a colon says nothing.
pub open spec fn with_header_line(
    fields: Seq<(Seq<char>, Seq<char>)>,
    line: Seq<char>,
) -> Seq<(Seq<char>, Seq<char>)> {
    match split_once(line, CharClass::Exactly(':')) {
        Some((name, value)) => with_header(
            fields,
            lowercase(trim(name)),
            strip(trim(value), CharClass::Exactly('"')),
        ),
        None => fields,
    }
}

/// What the header lines `lines` say, from the first to the last.
pub open spec fn header_fields(lines: Seq<Seq<char>>) -> Seq<(Seq<char>, Seq<char>)>
    decreases lines.len(),
{
    if lines.len() == 0 {
        Seq::empty()
    } else {
        with_header_line(header_fields(lines.drop_last()), lines.last())
    }
}

/// What the headers of a part say, if they are UTF-8.
pub open spec fn part_headers(headers: Seq<u8>) -> Option<Seq<(Seq<char>, Seq<char>)>> {
    if vstd::utf8::valid_utf8(headers) {
        Some(header_fields(split_on(vstd::utf8::decode_utf8(headers), "\r\n"@)))
    } else {
        None
    }
}

/// Puts the header `name` with the value `value` into `fields`, where
/// `name` is already in lower case.
pub fn add_header(fields: &mut StringMap, name: &[char], value: &[char])
    ensures
        final(fields)@ == with_header(old(fields)@, name@, value@),
{
    if eq_str(name, "content-disposition") {
        let params = split_chars(value, CharClass::Exactly(';'));
        let ghost all = split(value@, CharClass::Exactly(';'));
        if params.len() > 0 {
            let mut i: usize = 1;
            proof {
                assert(all.skip(1).take(0) =~= Seq::<Seq<char>>::empty());
            }
            while i < params.len()
                invariant
                    1 <= i <= params@.len(),
                    views(params@) == all,
                    fields@ == with_params(old(fields)@, all.skip(1).take(i - 1)),
                decreases params@.len() - i,
            {
                assert(views(params@)[i as int] == params@[i as int]@);
                proof {
                    assert(all.skip(1).take(i as int).drop_last() =~= all.skip(1).take(i - 1));
                    assert(all.skip(1).take(i as int).last() == all[i as int]);
                }
                let param = trim_chars(params[i].as_slice());
                match split_once_chars(param.as_slice(), CharClass::Exactly('=')) {
                    Some((k, v)) => {
                        fields.insert(from_chars(k.as_slice()), from_chars(v.as_slice()));
                    },
                    None => {},
                }
                i = i + 1;
            }
            proof {
                assert(all.skip(1).take(params@.len() - 1) =~= all.skip(1));
            }
        } else {
            proof {
                assert(all.skip(1) =~= Seq::<Seq<char>>::empty());
            }
        }
    } else {
        fields.insert(from_chars(name), from_chars(value));
    }
}

/// Reads the headers of a part.
pub fn parse_headers(headers: &[u8]) -> (r: Result<StringMap, MultipartError>)
    ensures
        match r {
            Ok(fields) => part_headers(headers@) == Some(fields@),
            Err(e) => e == MultipartError::Utf8Error && part_headers(headers@).is_none(),
        },
{
    let text = match decode_utf8(headers) {
        Some(text) => text,
        None => {
            return Err(MultipartError::Utf8Error);
        },
    };
    let chars = to_chars(text.as_str());
    let line_break = to_chars("\r\n");
    proof {
        reveal_strlit("\r\n");
    }
    let lines = split_on_chars(chars.as_slice(), line_break.as_slice());
    let ghost all = split_on(chars@, "\r\n"@);
    let mut fields = StringMap::new();
    let mut i: usize = 0;
    proof {
        assert(all.take(0) =~= Seq::<Seq<char>>::empty());
    }
    while i < lines.len()
        invariant
            i <= lines@.len(),
            views(lines@) == all,
            fields@ == header_fields(all.take(i as int)),
        decreases lines@.len() - i,
    {
        assert(views(lines@)[i as int] == lines@[i as int]@);
        proof {
            assert(all.take(i + 1).drop_last() =~= all.take(i as int));
        }
        match split_once_chars(lines[i].as_slice(), CharClass::Exactly(':')) {
            Some((name, value)) => {
                let trimmed = trim_chars(name.as_slice());
                let key = lowercase_chars(trimmed.as_slice());
                let spaced = trim_chars(value.as_slice());
                let plain = strip_chars(spaced.as_slice(), CharClass::Exactly('"'));
                add_header(&mut fields, key.as_slice(), plain.as_slice());
            },
            None => {},
        }
        i = i + 1;
    }
    proof {
        assert(all.take(lines@.len() as int) =~= all);
    }
    Ok(fields)
}


/// The name for what the standard base64 engine of the crate `base64`
/// returns on `bytes`: their encoding in the standard alphabet, padded.
pub uninterp spec fn base64_standard(bytes: Seq<u8>) -> Seq<char>;

/// `Engine::encode` of `base64::engine::general_purpose::STANDARD`. It
/// panics where the encoded length does not fit a `usize`, which no input
/// of at most `isize::MAX` bytes reaches. The contract only names the
/// result.
#[verifier::external_body]
pub(crate) fn base64_encode(content: &[u8]) -> (out: String)
    requires
        content@.len() <= isize::MAX,
    ensures
        out@ == base64_standard(content@),
{
    base64::Engine::encode(&base64::engine::general_purpose::STANDARD, content)
}

/// The name for what `urlencoding::decode` returns on a string with the
/// characters `s`: the text with each `%xx` replaced by the byte it denotes,
/// or nothing where those bytes are not UTF-8.
pub uninterp spec fn percent_decoded(s: Seq<char>) -> Option<Seq<char>>;

/// Whether `s` holds a percent sign.
pub open spec fn has_percent(s: Seq<char>) -> bool {
    s.contains('%')
}

/// What percent-decoding makes of `s`: `s` itself where it holds no percent
/// sign, and what `percent_decoded` names otherwise.
pub open spec fn percent_text(s: Seq<char>) -> Option<Seq<char>> {
    if has_percent(s) {
        percent_decoded(s)
    } else {
        Some(s)
    }
}

/// `urlencoding::decode`. The contract names the result, and says that text
/// without a percent sign comes back as it is.
#[verifier::external_body]
pub(crate) fn percent_decode(s: &str) -> (r: Option<String>)
    ensures
        match r {
            Some(text) => percent_decoded(s@) == Some(text@),
            None => percent_decoded(s@).is_none(),
        },
        match r {
            Some(text) => has_percent(s@) || text@ == s@,
            None => has_percent(s@),
        },
{
    match urlencoding::decode(s) {
        Ok(text) => Some(text.into_owned()),
        Err(_) => None,
    }
}

/// What a file part decodes to: its file name, its content in base64 and
/// its content type.
pub open spec fn file_json(filename: Seq<char>, encoded: Seq<char>, content_type: Seq<char>) -> Json {
    Json::Object(
        seq![
            ("filename"@, Json::Text(filename)),
            ("content"@, Json::Text(encoded)),
            ("content_type"@, Json::Text(content_type)),
        ],
    )
}

/// What a part with the headers `headers` and the content `content` decodes
/// to: a file where the headers name one, the content as text otherwise,
/// and nothing where that content is not UTF-8.
pub open spec fn part_json(headers: Seq<(Seq<char>, Seq<char>)>, content: Seq<u8>) -> Option<Json> {
    match lookup(headers, "filename"@) {
        Some(filename) => Some(
            file_json(
                strip(filename, CharClass::Exactly('"')),
                base64_standard(content),
                match lookup(headers, "content-type"@) {
                    Some(t) => t,
                    None => "application/octet-stream"@,
                },
            ),
        ),
        None => if vstd::utf8::valid_utf8(content) {
            Some(Json::Text(vstd::utf8::decode_utf8(content)))
        } else {
            None
        },
    }
}

/// `fields` after the part `part` was decoded into them. A part without a
/// name, or with content that is neither a file nor text, is passed over.
pub open spec fn with_part(fields: Seq<(Seq<char>, Json)>, part: Seq<u8>) -> Result<
    Seq<(Seq<char>, Json)>,
    MultipartError,
> {
    match headers_and_content(part) {
        None => Err(MultipartError::InvalidFormat),
        Some((head, content)) => match part_headers(head) {
            None => Err(MultipartError::Utf8Error),
            Some(headers) => match lookup(headers, "name"@) {
                None => Ok(fields),
                Some(name) => match part_json(headers, content) {
                    None => Ok(fields),
                    Some(value) => Ok(
                        set_nested(fields, strip(name, CharClass::Exactly('"')), value),
                    ),
                },
            },
        },
    }
}

/// The fields that the parts `parts` decode to, or the error of the first
/// part that cannot be decoded.
pub open spec fn with_parts(parts: Seq<Seq<u8>>) -> Result<Seq<(Seq<char>, Json)>, MultipartError>
    decreases parts.len(),
{
    if parts.len() == 0 {
        Ok(Seq::empty())
    } else {
        match with_parts(parts.drop_last()) {
            Ok(fields) => with_part(fields, parts.last()),
            Err(e) => Err(e),
        }
    }
}

/// What a multipart body decodes to under the content type `content_type`.
pub open spec fn multipart(content_type: Seq<char>, body: Seq<u8>) -> Result<Json, MultipartError> {
    match boundary_of(content_type) {
        None => Err(MultipartError::BoundaryNotFound),
        Some(boundary) => {
            let delimiter = vstd::utf8::encode_utf8("--"@ + boundary);
            match body_parts(body, part_pattern(delimiter), end_pattern(delimiter)) {
                None => Err(MultipartError::InvalidFormat),
                Some(parts) => match with_parts(parts) {
                    Ok(fields) => Ok(Json::Object(fields)),
                    Err(e) => Err(e),
                },
            }
        },
    }
}

/// The value of a file part, from its file name, its content in base64 and
/// its content type.
pub fn file_value(filename: &[char], encoded: String, content_type: &str) -> (v: Value)
    ensures
        v@ == file_json(filename@, encoded@, content_type@),
{
    let mut fields: Vec<(String, Value)> = Vec::new();
    fields.push(("filename".to_owned(), Value::Text(from_chars(filename))));
    fields.push(("content".to_owned(), Value::Text(encoded)));
    fields.push(("content_type".to_owned(), Value::Text(content_type.to_owned())));
    proof {
        lemma_object_view(fields);
        assert(fields_view(fields@) =~= file_json(filename@, encoded@, content_type@)->Object_0);
    }
    Value::Object(fields)
}

/// The value of a part with the headers `headers` and the content
/// `content`.
pub fn part_value(headers: &StringMap, content: &[u8]) -> (r: Option<Value>)
    requires
        content@.len() <= isize::MAX,
    ensures
        match r {
            Some(v) => part_json(headers@, content@) == Some(v@),
            None => part_json(headers@, content@).is_none(),
        },
{
    match headers.get("filename") {
        Some(filename) => {
            let chars = to_chars(filename.as_str());
            let plain = strip_chars(chars.as_slice(), CharClass::Exactly('"'));
            let encoded = base64_encode(content);
            let value = match headers.get("content-type") {
                Some(t) => file_value(plain.as_slice(), encoded, t.as_str()),
                None => file_value(plain.as_slice(), encoded, "application/octet-stream"),
            };
            Some(value)
        },
        None => match decode_utf8(content) {
            Some(text) => Some(Value::Text(text)),
            None => None,
        },
    }
}

/// Decodes the part `part` into `fields`.
pub fn add_part(fields: &mut Vec<(String, Value)>, part: &[u8]) -> (r: Result<(), MultipartError>)
    requires
        part@.len() <= isize::MAX,
    ensures
        match r {
            Ok(()) => with_part(fields_view(old(fields)@), part@) == Ok::<_, MultipartError>(
                fields_view(final(fields)@),
            ),
            Err(e) => with_part(fields_view(old(fields)@), part@) == Err::<
                Seq<(Seq<char>, Json)>,
                _,
            >(e) && final(fields)@ == old(fields)@,
        },
{
    let (head, content) = match split_headers_content(part) {
        Ok(pair) => pair,
        Err(e) => {
            return Err(e);
        },
    };
    let headers = match parse_headers(head.as_slice()) {
        Ok(headers) => headers,
        Err(e) => {
            return Err(e);
        },
    };
    match headers.get("name") {
        Some(name) => {
            let chars = to_chars(name.as_str());
            let plain = strip_chars(chars.as_slice(), CharClass::Exactly('"'));
            match part_value(&headers, content.as_slice()) {
                Some(value) => {
                    let key = from_chars(plain.as_slice());
                    set_nested_value(fields, key.as_str(), value);
                },
                None => {},
            }
        },
        None => {},
    }
    Ok(())
}

/// Decodes a multipart body under the content type `content_type`.
pub fn parse_multipart(content_type: &str, body: &[u8]) -> (r: Result<Value, MultipartError>)
    requires
        body@.len() <= isize::MAX,
    ensures
        match r {
            Ok(v) => multipart(content_type@, body@) == Ok::<_, MultipartError>(v@),
            Err(e) => multipart(content_type@, body@) == Err::<Json, _>(e),
        },
{
    let boundary = match extract_boundary(content_type) {
        Ok(boundary) => boundary,
        Err(e) => {
            return Err(e);
        },
    };
    let mut marked = to_chars("--");
    extend(&mut marked, to_chars(boundary.as_str()).as_slice());
    let delimiter = from_chars(marked.as_slice());
    let parts = match split_body(body, delimiter.as_str()) {
        Ok(parts) => parts,
        Err(e) => {
            return Err(e);
        },
    };
    let ghost all = views(parts@);
    let mut fields: Vec<(String, Value)> = Vec::new();
    let mut i: usize = 0;
    proof {
        assert(all.take(0) =~= Seq::<Seq<u8>>::empty());
        assert(fields_view(fields@) =~= Seq::<(Seq<char>, Json)>::empty());
    }
    while i < parts.len()
        invariant
            i <= parts@.len(),
            all == views(parts@),
            body@.len() <= isize::MAX,
            forall|j: int| 0 <= j < parts@.len() ==> (#[trigger] parts@[j])@.len() <= body@.len(),
            with_parts(all.take(i as int)) == Ok::<_, MultipartError>(fields_view(fields@)),
            multipart(content_type@, body@) == match with_parts(all) {
                Ok(f) => Ok::<_, MultipartError>(Json::Object(f)),
                Err(e) => Err(e),
            },
        decreases parts@.len() - i,
    {
        assert(all[i as int] == parts@[i as int]@);
        proof {
            assert(all.take(i + 1).drop_last() =~= all.take(i as int));
            lemma_with_parts_prefix(all, i + 1);
        }
        match add_part(&mut fields, parts[i].as_slice()) {
            Ok(()) => {},
            Err(e) => {
                return Err(e);
            },
        }
        i = i + 1;
    }
    proof {
        assert(all.take(parts@.len() as int) =~= all);
        lemma_object_view(fields);
    }
    Ok(Value::Object(fields))
}

/// An error in a prefix of the parts is the error of all the parts.
pub proof fn lemma_with_parts_prefix(parts: Seq<Seq<u8>>, k: int)
    requires
        0 <= k <= parts.len(),
    ensures
        with_parts(parts.take(k)) matches Err(e) ==> with_parts(parts) == Err::<
            Seq<(Seq<char>, Json)>,
            _,
        >(e),
    decreases parts.len(),
{
    if k == parts.len() {
        assert(parts.take(k) =~= parts);
    } else {
        assert(parts.drop_last().take(k) =~= parts.take(k));
        lemma_with_parts_prefix(parts.drop_last(), k);
    }
}


/// `fields` after the pair `pair` of a URL-encoded form was decoded into
/// them. A pair without an equals sign is passed over; a key or a value
/// that cannot be percent-decoded fails the whole form.
pub open spec fn with_pair(fields: Seq<(Seq<char>, Json)>, pair: Seq<char>) -> Option<
    Seq<(Seq<char>, Json)>,
> {
    match split_once(pair, CharClass::Exactly('=')) {
        None => Some(fields),
        Some((key, value)) => match (percent_text(key), percent_text(value)) {
            (Some(k), Some(v)) => Some(set_nested(fields, k, Json::Text(v))),
            _ => None,
        },
    }
}

/// The fields that the pairs `pairs` decode to.
pub open spec fn with_pairs(pairs: Seq<Seq<char>>) -> Option<Seq<(Seq<char>, Json)>>
    decreases pairs.len(),
{
    if pairs.len() == 0 {
        Some(Seq::empty())
    } else {
        match with_pairs(pairs.drop_last()) {
            Some(fields) => with_pair(fields, pairs.last()),
            None => None,
        }
    }
}

/// What the URL-encoded form `text` decodes to: an object with one entry
/// for each of its pairs, which ampersands separate. Values stay text.
pub open spec fn urlencoded(text: Seq<char>) -> Option<Json> {
    match with_pairs(split(text, CharClass::Exactly('&'))) {
        Some(fields) => Some(Json::Object(fields)),
        None => None,
    }
}

/// A failure in a prefix of the pairs is the failure of all the pairs.
pub proof fn lemma_with_pairs_prefix(pairs: Seq<Seq<char>>, k: int)
    requires
        0 <= k <= pairs.len(),
    ensures
        with_pairs(pairs.take(k)).is_none() ==> with_pairs(pairs).is_none(),
    decreases pairs.len(),
{
    if k == pairs.len() {
        assert(pairs.take(k) =~= pairs);
    } else {
        assert(pairs.drop_last().take(k) =~= pairs.take(k));
        lemma_with_pairs_prefix(pairs.drop_last(), k);
    }
}

/// Decodes a URL-encoded form.
pub fn parse_urlencoded_text(text: &str) -> (r: Option<Value>)
    ensures
        match r {
            Some(v) => urlencoded(text@) == Some(v@),
            None => urlencoded(text@).is_none(),
        },
{
    let chars = to_chars(text);
    let pairs = split_chars(chars.as_slice(), CharClass::Exactly('&'));
    let ghost all = views(pairs@);
    let mut fields: Vec<(String, Value)> = Vec::new();
    let mut i: usize = 0;
    proof {
        assert(all.take(0) =~= Seq::<Seq<char>>::empty());
        assert(fields_view(fields@) =~= Seq::<(Seq<char>, Json)>::empty());
    }
    while i < pairs.len()
        invariant
            i <= pairs@.len(),
            all == views(pairs@),
            all == split(text@, CharClass::Exactly('&')),
            with_pairs(all.take(i as int)) == Some(fields_view(fields@)),
        decreases pairs@.len() - i,
    {
        assert(all[i as int] == pairs@[i as int]@);
        proof {
            assert(all.take(i + 1).drop_last() =~= all.take(i as int));
            lemma_with_pairs_prefix(all, i + 1);
        }
        match split_once_chars(pairs[i].as_slice(), CharClass::Exactly('=')) {
            Some((key, value)) => {
                let raw_key = from_chars(key.as_slice());
                let raw_value = from_chars(value.as_slice());
                let decoded_key = match percent_decode(raw_key.as_str()) {
                    Some(k) => k,
                    None => {
                        return None;
                    },
                };
                let decoded_value = match percent_decode(raw_value.as_str()) {
                    Some(v) => v,
                    None => {
                        return None;
                    },
                };
                set_nested_value(&mut fields, decoded_key.as_str(), Value::Text(decoded_value));
            },
            None => {},
        }
        i = i + 1;
    }
    proof {
        assert(all.take(pairs@.len() as int) =~= all);
        lemma_object_view(fields);
    }
    Some(Value::Object(fields))
}

/// Decodes a URL-encoded form from its bytes, which are read as UTF-8 with
/// U+FFFD in place of what is ill-formed.
pub fn parse_urlencoded(data: &[u8]) -> (r: Option<Value>)
    ensures
        match r {
            Some(v) => urlencoded(lossy_text(data@)) == Some(v@),
            None => urlencoded(lossy_text(data@)).is_none(),
        },
{
    let text = decode_utf8_lossy(data);
    parse_urlencoded_text(text.as_str())
}

/// The body of a request: its bytes, tagged with their content type.
#[derive(Debug)]
pub struct Body {
    pub content_type: String,
    pub data: Vec<u8>,
}

impl Body {
    /// The empty body without a content type.
    pub fn new() -> (b: Body)
        ensures
            b.content_type@ == Seq::<char>::empty(),
            b.data@ == Seq::<u8>::empty(),
    {
        Body { content_type: String::new(), data: Vec::new() }
    }

    /// A plain-text body that holds the bytes of `s`.
    pub fn from_string(s: &str) -> (b: Body)
        ensures
            b.content_type@ == "text/plain"@,
            b.data@ == s.spec_bytes(),
    {
        Body {
            content_type: "text/plain".to_owned(),
            data: vstd::slice::slice_to_vec(s.as_bytes()),
        }
    }

    /// A body of arbitrary bytes.
    pub fn from_bytes(b: Vec<u8>) -> (body: Body)
        ensures
            body.content_type@ == "application/octet-stream"@,
            body.data@ == b@,
    {
        Body { content_type: "application/octet-stream".to_owned(), data: b }
    }

    /// The bytes as text: UTF-8 with U+FFFD in place of what is ill-formed.
    pub fn as_string(&self) -> (s: String)
        ensures
            s@ == lossy_text(self.data@),
    {
        decode_utf8_lossy(self.data.as_slice())
    }

    /// The bytes.
    pub fn as_bytes(&self) -> (b: &[u8])
        ensures
            b@ == self.data@,
    {
        self.data.as_slice()
    }

    /// The bytes of a JSON document: the body's bytes where its content type
    /// is exactly `application/json`, nothing otherwise.
    pub fn json(&self) -> (r: Option<&[u8]>)
        ensures
            r.is_some() == (self.content_type@ == "application/json"@),
            r matches Some(b) ==> b@ == self.data@,
    {
        if eq_str(to_chars(self.content_type.as_str()).as_slice(), "application/json") {
            Some(self.data.as_slice())
        } else {
            None
        }
    }

    /// The form that the body holds, where its content type is exactly
    /// `application/x-www-form-urlencoded` and the form can be decoded.
    pub fn x_www_form_urlencoded(&self) -> (r: Option<Value>)
        ensures
            match r {
                Some(v) => self.content_type@ == "application/x-www-form-urlencoded"@
                    && urlencoded(lossy_text(self.data@)) == Some(v@),
                None => self.content_type@ != "application/x-www-form-urlencoded"@ || urlencoded(
                    lossy_text(self.data@),
                ).is_none(),
            },
    {
        if eq_str(
            to_chars(self.content_type.as_str()).as_slice(),
            "application/x-www-form-urlencoded",
        ) {
            parse_urlencoded(self.data.as_slice())
        } else {
            None
        }
    }

    /// The multipart form that the body holds, where its content type
    /// begins with `multipart/form-data` and the form can be decoded.
    pub fn form_data(&self) -> (r: Option<Value>)
        requires
            self.data@.len() <= isize::MAX,
        ensures
            match r {
                Some(v) => starts_with(self.content_type@, "multipart/form-data"@) && multipart(
                    self.content_type@,
                    self.data@,
                ) == Ok::<_, MultipartError>(v@),
                None => !starts_with(self.content_type@, "multipart/form-data"@) || multipart(
                    self.content_type@,
                    self.data@,
                ).is_err(),
            },
    {
        let tag = to_chars(self.content_type.as_str());
        let prefix = to_chars("multipart/form-data");
        if starts_with_chars(tag.as_slice(), prefix.as_slice()) {
            match parse_multipart(self.content_type.as_str(), self.data.as_slice()) {
                Ok(v) => Some(v),
                Err(_) => None,
            }
        } else {
            None
        }
    }
}

} // verus!
