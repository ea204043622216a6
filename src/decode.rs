//! Content decoding of a fully buffered response body, by its
//! `Content-Encoding` token, into the canonical bytes a cache entry holds.
use vstd::prelude::*;
use vstd::string::*;
use crate::rewrite::opt_view;
use crate::text::same_text;

verus! {

/// What gzip decoding of the bytes gives, or `None` where they are no valid
/// gzip stream.
pub uninterp spec fn gzip_decoded(b: Seq<u8>) -> Option<Seq<u8>>;

/// What raw deflate decoding of the bytes gives, or `None` where they are
/// no valid deflate stream.
pub uninterp spec fn deflate_decoded(b: Seq<u8>) -> Option<Seq<u8>>;

/// What brotli decoding of the bytes gives, or `None` where they are no
/// valid brotli stream.
pub uninterp spec fn brotli_decoded(b: Seq<u8>) -> Option<Seq<u8>>;

/// Relies on `flate2::read::GzDecoder` read to its end: the decoded bytes,
/// or an error where the input is malformed; on an in-memory input the
/// outcome depends on the bytes alone.
#[verifier::external_body]
fn gunzip(b: &[u8]) -> (r: Option<Vec<u8>>)
    ensures
        r is Some <==> gzip_decoded(b@) is Some,
        r is Some ==> gzip_decoded(b@) == Some(r->0@),
{
    let mut out = Vec::new();
    match std::io::Read::read_to_end(&mut flate2::read::GzDecoder::new(b), &mut out) {
        Ok(_) => Some(out),
        Err(_) => None,
    }
}

/// Relies on `flate2::read::DeflateDecoder` read to its end: the decoded
/// bytes, or an error where the input is malformed; on an in-memory input
/// the outcome depends on the bytes alone.
#[verifier::external_body]
fn inflate(b: &[u8]) -> (r: Option<Vec<u8>>)
    ensures
        r is Some <==> deflate_decoded(b@) is Some,
        r is Some ==> deflate_decoded(b@) == Some(r->0@),
{
    let mut out = Vec::new();
    match std::io::Read::read_to_end(&mut flate2::read::DeflateDecoder::new(b), &mut out) {
        Ok(_) => Some(out),
        Err(_) => None,
    }
}

/// Relies on `brotli_decompressor::reader::Decompressor` read to its end:
/// the decoded bytes, or an error where the input is malformed; on an
/// in-memory input the outcome depends on the bytes alone.
#[verifier::external_body]
fn unbrotli(b: &[u8]) -> (r: Option<Vec<u8>>)
    ensures
        r is Some <==> brotli_decoded(b@) is Some,
        r is Some ==> brotli_decoded(b@) == Some(r->0@),
{
    let mut out = Vec::new();
    let mut reader = brotli_decompressor::reader::Decompressor::new(b, 4096);
    match std::io::Read::read_to_end(&mut reader, &mut out) {
        Ok(_) => Some(out),
        Err(_) => None,
    }
}

/// The content encodings a body can be decoded from; any other token is
/// kept as it came, and its body is stored unchanged.
pub enum ContentEncoding {
    Identity,
    Gzip,
    Deflate,
    Brotli,
    Unrecognized(String),
}

/// A body whose bytes do not form a valid stream of its declared encoding.
#[derive(PartialEq, Eq, Structural, Debug, Clone, Copy)]
pub enum DecodeError {
    MalformedGzip,
    MalformedDeflate,
    MalformedBrotli,
}

pub open spec fn gzip_token() -> Seq<char> {
    seq!['g', 'z', 'i', 'p']
}

pub open spec fn deflate_token() -> Seq<char> {
    seq!['d', 'e', 'f', 'l', 'a', 't', 'e']
}

pub open spec fn brotli_token() -> Seq<char> {
    seq!['b', 'r']
}

/// A decoder's outcome as the result of decoding: the bytes, or the error.
pub open spec fn outcome_or(d: Option<Seq<u8>>, e: DecodeError) -> Result<Seq<u8>, DecodeError> {
    match d {
        Some(v) => Ok(v),
        None => Err(e),
    }
}

/// What a body decodes to under an encoding: the identity and unrecognized
/// encodings pass it through unchanged.
pub open spec fn decoded_body(body: Seq<u8>, enc: ContentEncoding) -> Result<Seq<u8>, DecodeError> {
    match enc {
        ContentEncoding::Gzip => outcome_or(gzip_decoded(body), DecodeError::MalformedGzip),
        ContentEncoding::Deflate => outcome_or(deflate_decoded(body), DecodeError::MalformedDeflate),
        ContentEncoding::Brotli => outcome_or(brotli_decoded(body), DecodeError::MalformedBrotli),
        _ => Ok(body),
    }
}

/// What a body decodes to under a `Content-Encoding` token, or its absence.
pub open spec fn decoded_for_token(body: Seq<u8>, token: Option<Seq<char>>) -> Result<
    Seq<u8>,
    DecodeError,
> {
    if token == Some(gzip_token()) {
        outcome_or(gzip_decoded(body), DecodeError::MalformedGzip)
    } else if token == Some(deflate_token()) {
        outcome_or(deflate_decoded(body), DecodeError::MalformedDeflate)
    } else if token == Some(brotli_token()) {
        outcome_or(brotli_decoded(body), DecodeError::MalformedBrotli)
    } else {
        Ok(body)
    }
}

/// The view of a decoding result.
pub open spec fn outcome_view(r: Result<Vec<u8>, DecodeError>) -> Result<Seq<u8>, DecodeError> {
    match r {
        Ok(v) => Ok(v@),
        Err(e) => Err(e),
    }
}

/// The encoding a `Content-Encoding` token names: exact, case-sensitive
/// matches of `gzip`, `deflate` and `br`; no token is the identity.
pub fn content_encoding(token: Option<&str>) -> (r: ContentEncoding)
    ensures
        opt_view(token) is None <==> r is Identity,
        opt_view(token) == Some(gzip_token()) <==> r is Gzip,
        opt_view(token) == Some(deflate_token()) <==> r is Deflate,
        opt_view(token) == Some(brotli_token()) <==> r is Brotli,
        r matches ContentEncoding::Unrecognized(s) ==> opt_view(token) == Some(s@),
{
    let gzip = "gzip";
    let deflate = "deflate";
    let br = "br";
    proof {
        reveal_strlit("gzip");
        reveal_strlit("deflate");
        reveal_strlit("br");
        assert(gzip@ =~= gzip_token());
        assert(deflate@ =~= deflate_token());
        assert(br@ =~= brotli_token());
    }
    match token {
        None => ContentEncoding::Identity,
        Some(t) => {
            if same_text(t, gzip) {
                ContentEncoding::Gzip
            } else if same_text(t, deflate) {
                ContentEncoding::Deflate
            } else if same_text(t, br) {
                ContentEncoding::Brotli
            } else {
                ContentEncoding::Unrecognized(String::from_str(t))
            }
        },
    }
}

/// Decodes a whole body under an encoding; the identity and unrecognized
/// encodings give the body back unchanged.
pub fn decode_body(body: &[u8], encoding: &ContentEncoding) -> (r: Result<Vec<u8>, DecodeError>)
    ensures
        outcome_view(r) == decoded_body(body@, *encoding),
{
    match encoding {
        ContentEncoding::Gzip => match gunzip(body) {
            Some(v) => Ok(v),
            None => Err(DecodeError::MalformedGzip),
        },
        ContentEncoding::Deflate => match inflate(body) {
            Some(v) => Ok(v),
            None => Err(DecodeError::MalformedDeflate),
        },
        ContentEncoding::Brotli => match unbrotli(body) {
            Some(v) => Ok(v),
            None => Err(DecodeError::MalformedBrotli),
        },
        _ => {
            let mut copy: Vec<u8> = Vec::new();
            let mut i: usize = 0;
            while i < body.len()
                invariant
                    i <= body@.len(),
                    copy@ == body@.take(i as int),
                decreases body@.len() - i,
            {
                proof {
                    assert(body@.take(i + 1) =~= body@.take(i as int).push(body@[i as int]));
                }
                copy.push(body[i]);
                i = i + 1;
            }
            proof {
                assert(body@.take(body@.len() as int) =~= body@);
            }
            Ok(copy)
        },
    }
}

/// The bytes a cache entry holds for a response body sent under the given
/// `Content-Encoding` token: the decoded body, the body itself where the
/// token is absent or unrecognized, or the error of a malformed body.
pub fn cache_entry_body(token: Option<&str>, body: &[u8]) -> (r: Result<Vec<u8>, DecodeError>)
    ensures
        outcome_view(r) == decoded_for_token(body@, opt_view(token)),
{
    let encoding = content_encoding(token);
    decode_body(body, &encoding)
}

} // verus!
