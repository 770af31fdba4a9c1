//! What the compression middleware decides: whether a response is worth
//! compressing, with which encoding, and what the compressed response
//! holds.

use crate::error::ServerError;
use crate::http::response::{Response, ResponseView};
use crate::middleware::security::string_views;
use crate::string_map::lookup;
use crate::text::{
    decimal, decode_utf8_lossy, find, find_chars, from_chars, lowercase_chars,
    push_decimal, starts_with, starts_with_chars, to_chars, lowercase, lossy_text,
};
use vstd::prelude::*;

verus! {

/// When and how responses are compressed.
#[derive(Debug)]
pub struct CompressionConfig {
    /// The effort of the compressor, from 0 for none to 9 for the most.
    pub level: u32,
    /// The length in bytes below which a body is not compressed.
    pub min_size: usize,
    /// The prefixes of the content types that are not compressed.
    pub skip_types: Vec<String>,
}

/// Whether a prefix of `prefixes` begins the content type `content_type`.
pub open spec fn is_skipped(prefixes: Seq<Seq<char>>, content_type: Seq<char>) -> bool {
    exists|i: int| 0 <= i < prefixes.len() && starts_with(content_type, #[trigger] prefixes[i])
}

impl CompressionConfig {
    /// Whether a body of `content_length` bytes with the content type
    /// `content_type` is compressed: it is long enough, and its type is
    /// not one that is skipped.
    pub open spec fn compresses(&self, content_type: Option<Seq<char>>, content_length: usize) -> bool {
        content_length >= self.min_size && match content_type {
            Some(t) => !is_skipped(string_views(self.skip_types@), t),
            None => true,
        }
    }

    pub fn should_compress(&self, content_type: Option<&str>, content_length: usize) -> (r: bool)
        ensures
            r == self.compresses(
                match content_type {
                    Some(t) => Some(t@),
                    None => None,
                },
                content_length,
            ),
    {
        if content_length < self.min_size {
            return false;
        }
        match content_type {
            Some(t) => {
                let chars = to_chars(t);
                let mut i: usize = 0;
                while i < self.skip_types.len()
                    invariant
                        i <= self.skip_types@.len(),
                        chars@ == t@,
                        content_type == Some(t),
                        forall|j: int|
                            0 <= j < i ==> !starts_with(
                                t@,
                                #[trigger] string_views(self.skip_types@)[j],
                            ),
                    decreases self.skip_types@.len() - i,
                {
                    let prefix = to_chars(self.skip_types[i].as_str());
                    if starts_with_chars(chars.as_slice(), prefix.as_slice()) {
                        assert(starts_with(t@, string_views(self.skip_types@)[i as int]));
                        assert(is_skipped(string_views(self.skip_types@), t@));
                        return false;
                    }
                    i = i + 1;
                }
                true
            },
            None => true,
        }
    }
}

impl Default for CompressionConfig {
    fn default() -> (c: CompressionConfig)
        ensures
            c.level == 6,
            c.min_size == 1024,
            string_views(c.skip_types@) == seq![
                "image/"@,
                "video/"@,
                "audio/"@,
                "application/pdf"@,
                "application/zip"@,
            ],
    {
        let mut skip_types: Vec<String> = Vec::new();
        skip_types.push("image/".to_owned());
        skip_types.push("video/".to_owned());
        skip_types.push("audio/".to_owned());
        skip_types.push("application/pdf".to_owned());
        skip_types.push("application/zip".to_owned());
        assert(string_views(skip_types@) =~= seq![
            "image/"@,
            "video/"@,
            "audio/"@,
            "application/pdf"@,
            "application/zip"@,
        ]);
        CompressionConfig { level: 6, min_size: 1024, skip_types }
    }
}

/// The encodings that a body is compressed with.
#[derive(PartialEq, Eq, Structural, Copy, Clone, Debug)]
pub enum Encoding {
    Gzip,
    Deflate,
}

impl Encoding {
    /// The name of the encoding in the header `Content-Encoding`.
    pub open spec fn name(self) -> Seq<char> {
        match self {
            Encoding::Gzip => "gzip"@,
            Encoding::Deflate => "deflate"@,
        }
    }
}

/// The encoding that is used where the accepted encodings are `accepted`,
/// in lower case: gzip if it is named, else deflate if it is named.
pub open spec fn encoding_for(accepted: Seq<char>) -> Option<Encoding> {
    if find(accepted, "gzip"@).is_some() {
        Some(Encoding::Gzip)
    } else if find(accepted, "deflate"@).is_some() {
        Some(Encoding::Deflate)
    } else {
        None
    }
}

/// The encoding that is used where the accepted encodings are `accepted`.
pub fn choose_encoding(accepted: &str) -> (r: Option<Encoding>)
    ensures
        r == encoding_for(accepted@),
{
    let chars = to_chars(accepted);
    let gzip = to_chars("gzip");
    let deflate = to_chars("deflate");
    if find_chars(chars.as_slice(), gzip.as_slice()).is_some() {
        Some(Encoding::Gzip)
    } else if find_chars(chars.as_slice(), deflate.as_slice()).is_some() {
        Some(Encoding::Deflate)
    } else {
        None
    }
}

/// The name for what `flate2::write::GzEncoder` makes of `data` at the
/// level `level`: the bytes of a gzip stream, or nothing where the encoder
/// fails.
pub uninterp spec fn gzip_encoded(data: Seq<u8>, level: u32) -> Option<Seq<u8>>;

/// The name for what `flate2::write::DeflateEncoder` makes of `data` at the
/// level `level`: the bytes of a raw deflate stream, or nothing where the
/// encoder fails.
pub uninterp spec fn deflate_encoded(data: Seq<u8>, level: u32) -> Option<Seq<u8>>;

/// What the encoder of `encoding` makes of `data`.
pub open spec fn compressed_bytes(encoding: Encoding, data: Seq<u8>, level: u32) -> Option<
    Seq<u8>,
> {
    match encoding {
        Encoding::Gzip => gzip_encoded(data, level),
        Encoding::Deflate => deflate_encoded(data, level),
    }
}

/// The highest level of compression.
pub const MAX_LEVEL: u32 = 9;

/// `flate2::write::GzEncoder` over a vector: all of `data` is written and
/// the encoder is finished. An error of the encoder is passed on by its
/// message. A build with debug assertions panics on a level above 10; the
/// levels that `flate2` documents end at 9. The contract names the outcome:
/// the bytes of a success, and that a failure is one.
#[verifier::external_body]
pub(crate) fn gzip(data: &[u8], level: u32) -> (r: Result<Vec<u8>, String>)
    requires
        level <= MAX_LEVEL,
    ensures
        match r {
            Ok(out) => gzip_encoded(data@, level) == Some(out@),
            Err(_) => gzip_encoded(data@, level).is_none(),
        },
{
    let mut encoder = flate2::write::GzEncoder::new(Vec::new(), flate2::Compression::new(level));
    if let Err(e) = std::io::Write::write_all(&mut encoder, data) {
        return Err(e.to_string());
    }
    match encoder.finish() {
        Ok(out) => Ok(out),
        Err(e) => Err(e.to_string()),
    }
}

/// `flate2::write::DeflateEncoder` over a vector: all of `data` is written
/// and the encoder is finished. An error of the encoder is passed on by its
/// message. A build with debug assertions panics on a level above 10; the
/// levels that `flate2` documents end at 9. The contract names the outcome:
/// the bytes of a success, and that a failure is one.
#[verifier::external_body]
pub(crate) fn deflate(data: &[u8], level: u32) -> (r: Result<Vec<u8>, String>)
    requires
        level <= MAX_LEVEL,
    ensures
        match r {
            Ok(out) => deflate_encoded(data@, level) == Some(out@),
            Err(_) => deflate_encoded(data@, level).is_none(),
        },
{
    let mut encoder = flate2::write::DeflateEncoder::new(
        Vec::new(),
        flate2::Compression::new(level),
    );
    if let Err(e) = std::io::Write::write_all(&mut encoder, data) {
        return Err(e.to_string());
    }
    match encoder.finish() {
        Ok(out) => Ok(out),
        Err(e) => Err(e.to_string()),
    }
}

/// The response with the body `compressed`, which was compressed with
/// `encoding`: the encoding is named, the body is the compressed bytes read
/// as text, its length is given, and caches are told that the response
/// varies with the accepted encodings. Where nothing was produced, only the
/// encoding is named.
pub open spec fn compressed_response(
    response: ResponseView,
    encoding: Encoding,
    compressed: Seq<u8>,
    text: Seq<char>,
) -> ResponseView {
    let named = response.with_header("Content-Encoding"@, encoding.name());
    if compressed.len() == 0 {
        named
    } else {
        named.with_body(text).with_header(
            "Content-Length"@,
            decimal(compressed.len()),
        ).with_header("Vary"@, "Accept-Encoding"@)
    }
}

/// The middleware that compresses responses.
#[derive(Debug)]
pub struct CompressionMiddleware {
    pub config: CompressionConfig,
}

impl CompressionMiddleware {
    pub fn new(config: CompressionConfig) -> (m: CompressionMiddleware)
        ensures
            m.config == config,
    {
        CompressionMiddleware { config }
    }

    /// The encoding that the response is compressed with, if it is: the
    /// body is worth compressing, and the response names, in its header
    /// `accept-encoding`, an encoding that is known.
    pub open spec fn encoding_of(&self, response: ResponseView) -> Option<Encoding> {
        match lookup(response.headers, "accept-encoding"@) {
            Some(accepted) => if self.config.compresses(
                lookup(response.headers, "content-type"@),
                vstd::utf8::encode_utf8(response.body).len() as usize,
            ) {
                encoding_for(lowercase(accepted))
            } else {
                None
            },
            None => None,
        }
    }

    /// Puts the compressed body into the response.
    pub fn store(response: &mut Response, encoding: Encoding, compressed: &[u8], text: &str)
        ensures
            final(response)@ == compressed_response(old(response)@, encoding, compressed@, text@),
    {
        match encoding {
            Encoding::Gzip => {
                response.header("Content-Encoding", "gzip");
            },
            Encoding::Deflate => {
                response.header("Content-Encoding", "deflate");
            },
        }
        if compressed.len() > 0 {
            response.body(text);
            let mut length: Vec<char> = Vec::new();
            push_decimal(&mut length, compressed.len() as u64);
            assert(length@ =~= decimal(compressed@.len()));
            let length = from_chars(length.as_slice());
            response.header("Content-Length", length.as_str());
            response.header("Vary", "Accept-Encoding");
        }
    }

    /// Compresses the response that the rest of the pipeline answered
    /// with, where it is to be compressed. Where the encoder fails, the
    /// answer is an I/O error, and the response stays as it was. The level
    /// of the configuration must be one of the levels from 0 to 9.
    pub fn compress(&self, response: &mut Response) -> (r: Result<(), ServerError>)
        requires
            self.config.level <= MAX_LEVEL,
        ensures
            match self.encoding_of(old(response)@) {
                None => r.is_ok() && final(response)@ == old(response)@,
                Some(encoding) => match compressed_bytes(
                    encoding,
                    vstd::utf8::encode_utf8(old(response)@.body),
                    self.config.level,
                ) {
                    Some(bytes) => r.is_ok() && final(response)@ == compressed_response(
                        old(response)@,
                        encoding,
                        bytes,
                        lossy_text(bytes),
                    ),
                    None => r matches Err(ServerError::IoError(_)) && final(response)@ == old(
                        response,
                    )@,
                },
            },
    {
        let accepted = match response.headers.get("accept-encoding") {
            Some(accepted) => {
                let chars = to_chars(accepted.as_str());
                let lowered = lowercase_chars(chars.as_slice());
                from_chars(lowered.as_slice())
            },
            None => {
                return Ok(());
            },
        };
        let body = response.body.as_str().as_bytes();
        let worth = match response.headers.get("content-type") {
            Some(t) => self.config.should_compress(Some(t.as_str()), body.len()),
            None => self.config.should_compress(None, body.len()),
        };
        if !worth {
            return Ok(());
        }
        let encoding = match choose_encoding(accepted.as_str()) {
            Some(encoding) => encoding,
            None => {
                return Ok(());
            },
        };
        let encoded = match encoding {
            Encoding::Gzip => gzip(body, self.config.level),
            Encoding::Deflate => deflate(body, self.config.level),
        };
        let compressed = match encoded {
            Ok(bytes) => bytes,
            Err(message) => {
                return Err(ServerError::IoError(message));
            },
        };
        let text = decode_utf8_lossy(compressed.as_slice());
        Self::store(response, encoding, compressed.as_slice(), text.as_str());
        Ok(())
    }
}

} // verus!
