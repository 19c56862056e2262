//! Body codecs: when a body is compressed for a response, and how a request body declared
//! as compressed is read back, within a bound on its size.
use crate::http::opt_str_view;
use crate::models::Compression;
use crate::text::{contains_seq, contains_str, find_from, lower_seq, occurs_at, to_ascii_lowercase};
use std::io::Read;
use std::io::Write;
use vstd::prelude::*;

verus! {

/// The most bytes a body may have, compressed or decompressed: 256 MiB.
pub const MAX_HTTP_BODY_BYTES: u64 = 268435456;

/// The gzip member `flate2` writes for `data` at its default level.
pub uninterp spec fn gzip_encoding(data: Seq<u8>) -> Seq<u8>;

/// The LZ4 frame `lz4_flex` writes for `data`.
pub uninterp spec fn lz4_encoding(data: Seq<u8>) -> Seq<u8>;

/// The zstd frame `zstd` writes for `data` at its default level.
pub uninterp spec fn zstd_encoding(data: Seq<u8>) -> Seq<u8>;

/// What reading at most `limit` bytes of the gzip decoding of `data` gives: the bytes, or
/// the text of the read error where the stream is malformed.
pub uninterp spec fn gzip_decoding(data: Seq<u8>, limit: u64) -> Result<Seq<u8>, Seq<char>>;

/// What reading at most `limit` bytes of the LZ4 frame decoding of `data` gives: the bytes,
/// or the text of the read error.
pub uninterp spec fn lz4_decoding(data: Seq<u8>, limit: u64) -> Result<Seq<u8>, Seq<char>>;

/// What reading at most `limit` bytes of the zstd decoding of `data` gives: the bytes, or
/// the text of the error of making the decoder or of reading.
pub uninterp spec fn zstd_decoding(data: Seq<u8>, limit: u64) -> Result<Seq<u8>, Seq<char>>;

/// A byte buffer that may be missing, as plain bytes.
pub open spec fn opt_bytes(o: Option<Vec<u8>>) -> Option<Seq<u8>> {
    match o {
        Some(v) => Some(v@),
        None => None,
    }
}

/// Whether a read gave exactly the bytes `x`.
pub open spec fn reads_back(r: Result<Vec<u8>, String>, x: Seq<u8>) -> bool {
    r matches Ok(v) && v@ == x
}

/// Bytes or an error text, as plain values.
pub open spec fn read_view(r: Result<Vec<u8>, String>) -> Result<Seq<u8>, Seq<char>> {
    match r {
        Ok(v) => Ok(v@),
        Err(e) => Err(e@),
    }
}

/// Compresses with `flate2::write::GzEncoder` at `flate2::Compression::default()`, writing
/// into a `Vec`. Writing into a `Vec` cannot fail, so the encoder always succeeds, and the
/// bytes are [`gzip_encoding`].
#[verifier::external_body]
fn gzip_encode(data: &[u8]) -> (r: Option<Vec<u8>>)
    ensures
        opt_bytes(r) == Some(gzip_encoding(data@)),
{
    let mut encoder = flate2::write::GzEncoder::new(Vec::new(), flate2::Compression::default());
    match encoder.write_all(data) {
        Ok(()) => encoder.finish().ok(),
        Err(_) => None,
    }
}

/// Compresses with `lz4_flex::frame::FrameEncoder`, writing into a `Vec`. Writing into a
/// `Vec` cannot fail, so the encoder always succeeds, and the bytes are [`lz4_encoding`].
#[verifier::external_body]
fn lz4_encode(data: &[u8]) -> (r: Option<Vec<u8>>)
    ensures
        opt_bytes(r) == Some(lz4_encoding(data@)),
{
    let mut encoder = lz4_flex::frame::FrameEncoder::new(Vec::new());
    match encoder.write_all(data) {
        Ok(()) => encoder.finish().ok(),
        Err(_) => None,
    }
}

/// Compresses with `zstd::bulk::compress` at `zstd::DEFAULT_COMPRESSION_LEVEL`. The
/// default level is valid and the output buffer is sized by the compression bound, so it
/// fails only where memory cannot be had, which aborts; the bytes are [`zstd_encoding`].
#[verifier::external_body]
fn zstd_encode(data: &[u8]) -> (r: Option<Vec<u8>>)
    ensures
        opt_bytes(r) == Some(zstd_encoding(data@)),
{
    zstd::bulk::compress(data, zstd::DEFAULT_COMPRESSION_LEVEL).ok()
}

/// Reads at most `limit` bytes from `flate2::read::GzDecoder` over `data`, giving the text of
/// the read error where it fails. The result is [`gzip_decoding`]; as `Read::take` documents, it holds at
/// most `limit` bytes; and gzip being lossless, what [`gzip_encode`] wrote of `x` reads back
/// as `x` where `x` fits the limit.
#[verifier::external_body]
fn gzip_decode(data: &[u8], limit: u64) -> (r: Result<Vec<u8>, String>)
    ensures
        read_view(r) == gzip_decoding(data@, limit),
        r matches Ok(v) ==> v@.len() <= limit,
        forall|x: Seq<u8>| #[trigger] gzip_encoding(x) == data@ && x.len() <= limit ==> reads_back(r, x),
{
    let mut out = Vec::new();
    match flate2::read::GzDecoder::new(data).take(limit).read_to_end(&mut out) {
        Ok(_) => Ok(out),
        Err(e) => Err(e.to_string()),
    }
}

/// Reads at most `limit` bytes from `lz4_flex::frame::FrameDecoder` over `data`, giving
/// the text of the read error where it fails. The result is [`lz4_decoding`], at most `limit` bytes; a frame
/// [`lz4_encode`] wrote of `x` reads back as `x` where `x` fits the limit.
#[verifier::external_body]
fn lz4_decode(data: &[u8], limit: u64) -> (r: Result<Vec<u8>, String>)
    ensures
        read_view(r) == lz4_decoding(data@, limit),
        r matches Ok(v) ==> v@.len() <= limit,
        forall|x: Seq<u8>| #[trigger] lz4_encoding(x) == data@ && x.len() <= limit ==> reads_back(r, x),
{
    let mut out = Vec::new();
    match lz4_flex::frame::FrameDecoder::new(data).take(limit).read_to_end(&mut out) {
        Ok(_) => Ok(out),
        Err(e) => Err(e.to_string()),
    }
}

/// Reads at most `limit` bytes from `zstd::stream::read::Decoder` over `data`, giving
/// the text of the error where the decoder cannot be made or a read fails. The result is
/// [`zstd_decoding`], at most `limit` bytes; a frame [`zstd_encode`] wrote of `x` reads
/// back as `x` where `x` fits the limit.
#[verifier::external_body]
fn zstd_decode(data: &[u8], limit: u64) -> (r: Result<Vec<u8>, String>)
    ensures
        read_view(r) == zstd_decoding(data@, limit),
        r matches Ok(v) ==> v@.len() <= limit,
        forall|x: Seq<u8>| #[trigger] zstd_encoding(x) == data@ && x.len() <= limit ==> reads_back(r, x),
{
    let mut out = Vec::new();
    match zstd::stream::read::Decoder::new(data) {
        Ok(decoder) => match decoder.take(limit).read_to_end(&mut out) {
            Ok(_) => Ok(out),
            Err(e) => Err(e.to_string()),
        },
        Err(e) => Err(e.to_string()),
    }
}

/// Why a body could not be encoded or decoded.
#[derive(Debug, PartialEq, Eq)]
pub enum CodecError {
    /// The codec failed to encode the body.
    Encode(Compression),
    /// The body is not valid for the codec it declares; the decoder's error text.
    Decode(Compression, String),
    /// The compressed body is over [`MAX_HTTP_BODY_BYTES`].
    CompressedTooLarge,
    /// The body decompresses to more than [`MAX_HTTP_BODY_BYTES`].
    DecompressedTooLarge,
}

/// The kinds of codec failure.
#[derive(Debug, Clone, Copy, PartialEq, Eq, Structural)]
pub enum CodecFault {
    Encode,
    Decode,
    CompressedTooLarge,
    DecompressedTooLarge,
}

/// A codec failure as plain values: its kind, the codec concerned (the identity where none
/// is), and the decoder's error text (empty but for a decode failure).
pub type CodecErrorView = (CodecFault, Compression, Seq<char>);

impl View for CodecError {
    type V = CodecErrorView;

    open spec fn view(&self) -> CodecErrorView {
        match self {
            CodecError::Encode(m) => (CodecFault::Encode, *m, Seq::empty()),
            CodecError::Decode(m, t) => (CodecFault::Decode, *m, t@),
            CodecError::CompressedTooLarge => (CodecFault::CompressedTooLarge, Compression::Identity, Seq::empty()),
            CodecError::DecompressedTooLarge => (CodecFault::DecompressedTooLarge, Compression::Identity, Seq::empty()),
        }
    }
}

/// What a codec failure says: for a decode failure, the decoder's own error text.
pub open spec fn codec_error_text(e: CodecErrorView) -> Seq<char> {
    match e.0 {
        CodecFault::Encode => "body encoding failed"@,
        CodecFault::Decode => e.2,
        CodecFault::CompressedTooLarge => "compressed body exceeds maximum allowed size of 268435456 bytes"@,
        CodecFault::DecompressedTooLarge => "decompressed body exceeds maximum allowed size of 268435456 bytes"@,
    }
}

impl CodecError {
    /// What this failure says (see [`codec_error_text`]).
    pub open spec fn message_text(self) -> Seq<char> {
        codec_error_text(self@)
    }

    /// What this failure says (see [`codec_error_text`]).
    pub fn message(&self) -> (r: String)
        ensures
            r@ == self.message_text(),
    {
        match self {
            CodecError::Encode(_) => String::from_str("body encoding failed"),
            CodecError::Decode(_, t) => t.clone(),
            CodecError::CompressedTooLarge => String::from_str(
                "compressed body exceeds maximum allowed size of 268435456 bytes",
            ),
            CodecError::DecompressedTooLarge => String::from_str(
                "decompressed body exceeds maximum allowed size of 268435456 bytes",
            ),
        }
    }
}

/// The encoding of `data` with `method` (not the identity).
pub open spec fn encoding_of(method: Compression, data: Seq<u8>) -> Seq<u8> {
    match method {
        Compression::Gzip => gzip_encoding(data),
        Compression::Lz4 => lz4_encoding(data),
        _ => zstd_encoding(data),
    }
}

/// The `content-encoding` token of a codec.
pub open spec fn token_of(method: Compression) -> Seq<char> {
    match method {
        Compression::Gzip => "gzip"@,
        Compression::Lz4 => "lz4"@,
        Compression::Zstd => "zstd"@,
        Compression::Identity => "identity"@,
    }
}

/// Whether a body of `len` bytes is compressed at all: only with a codec, and only from
/// `threshold` bytes on.
pub open spec fn compresses(method: Compression, len: nat, threshold: usize) -> bool {
    method != Compression::Identity && len >= threshold
}

/// The body a response carries and its `content-encoding` token: `data` as it is where it
/// is not compressed or where compressing does not make it smaller, else its encoding.
pub fn compress_if_needed(data: Vec<u8>, method: Compression, threshold: usize) -> (r: Result<
    (Vec<u8>, Option<&'static str>),
    CodecError,
>)
    ensures
        !compresses(method, data@.len(), threshold) ==> (r matches Ok((out, None)) && out@ == data@),
        compresses(method, data@.len(), threshold) ==> match r {
            Ok((out, None)) => encoding_of(method, data@).len() >= data@.len() && out@ == data@,
            Ok((out, Some(token))) => encoding_of(method, data@).len() < data@.len() && out@
                == encoding_of(method, data@) && token@ == token_of(method),
            Err(_) => false,
        },
{
    if method == Compression::Identity || data.len() < threshold {
        return Ok((data, None));
    }
    let (encoded, token): (Option<Vec<u8>>, &'static str) = match method {
        Compression::Gzip => (gzip_encode(data.as_slice()), "gzip"),
        Compression::Lz4 => (lz4_encode(data.as_slice()), "lz4"),
        _ => (zstd_encode(data.as_slice()), "zstd"),
    };
    match encoded {
        None => Err(CodecError::Encode(method)),
        Some(compressed) => {
            if compressed.len() < data.len() {
                Ok((compressed, Some(token)))
            } else {
                Ok((data, None))
            }
        },
    }
}

/// The codec a `content-encoding` value names, compared in lower case: the first of
/// `gzip`, `lz4` and `zstd` it contains; the identity where it contains none.
pub open spec fn declared_codec(encoding: Seq<char>) -> Compression {
    let e = lower_seq(encoding);
    if contains_seq(e, "gzip"@) {
        Compression::Gzip
    } else if contains_seq(e, "lz4"@) {
        Compression::Lz4
    } else if contains_seq(e, "zstd"@) {
        Compression::Zstd
    } else {
        Compression::Identity
    }
}

/// The token a codec writes is read back as that codec.
pub proof fn lemma_token_names_its_codec(m: Compression)
    requires
        m != Compression::Identity,
    ensures
        declared_codec(token_of(m)) == m,
{
    reveal_strlit("gzip");
    reveal_strlit("lz4");
    reveal_strlit("zstd");
    let t = token_of(m);
    assert(lower_seq(t) =~= t);
    match m {
        Compression::Gzip => {
            assert(t.subrange(0, 4) =~= "gzip"@);
            assert(occurs_at(t, "gzip"@, 0));
            assert(find_from(t, "gzip"@, 0) == Some(0int));
            assert(contains_seq(lower_seq(t), "gzip"@));
            assert(t == token_of(m));
            assert(declared_codec(t) == Compression::Gzip);
        },
        Compression::Lz4 => {
            assert(find_from(t, "gzip"@, 0) is None);
            assert(t.subrange(0, 3) =~= "lz4"@);
            assert(occurs_at(t, "lz4"@, 0));
            assert(find_from(t, "lz4"@, 0) == Some(0int));
            assert(!contains_seq(lower_seq(t), "gzip"@));
            assert(contains_seq(lower_seq(t), "lz4"@));
        },
        _ => {
            assert(t.subrange(0, 4)[0] != "gzip"@[0]);
            assert(!occurs_at(t, "gzip"@, 0));
            assert(find_from(t, "gzip"@, 1) is None);
            assert(t.subrange(0, 3)[0] != "lz4"@[0]);
            assert(!occurs_at(t, "lz4"@, 0));
            assert(t.subrange(1, 4)[0] != "lz4"@[0]);
            assert(!occurs_at(t, "lz4"@, 1));
            assert(find_from(t, "lz4"@, 2) is None);
            assert(t.subrange(0, 4) =~= "zstd"@);
            assert(occurs_at(t, "zstd"@, 0));
            assert(find_from(t, "gzip"@, 0) is None);
            assert(find_from(t, "lz4"@, 1) is None);
            assert(find_from(t, "lz4"@, 0) is None);
            assert(find_from(t, "zstd"@, 0) == Some(0int));
            assert(!contains_seq(lower_seq(t), "gzip"@));
            assert(!contains_seq(lower_seq(t), "lz4"@));
            assert(contains_seq(lower_seq(t), "zstd"@));
        },
    }
}

/// What reading at most `limit` decoded bytes of `data` with `codec` gives.
pub open spec fn decoding_of(codec: Compression, data: Seq<u8>, limit: u64) -> Result<Seq<u8>, Seq<char>> {
    match codec {
        Compression::Gzip => gzip_decoding(data, limit),
        Compression::Lz4 => lz4_decoding(data, limit),
        _ => zstd_decoding(data, limit),
    }
}

/// What a request body becomes, given the `content-encoding` it declares: decoding reads
/// one byte past the limit, so that a body that decodes to more is refused.
pub open spec fn decompressed_body(data: Seq<u8>, encoding: Option<Seq<char>>) -> Result<Seq<u8>, CodecErrorView> {
    match encoding {
        None => Ok(data),
        Some(e) => {
            let codec = declared_codec(e);
            if codec == Compression::Identity {
                Ok(data)
            } else if data.len() > MAX_HTTP_BODY_BYTES {
                Err((CodecFault::CompressedTooLarge, Compression::Identity, Seq::empty()))
            } else {
                match decoding_of(codec, data, (MAX_HTTP_BODY_BYTES + 1) as u64) {
                    Err(t) => Err((CodecFault::Decode, codec, t)),
                    Ok(d) => if d.len() > MAX_HTTP_BODY_BYTES {
                        Err((CodecFault::DecompressedTooLarge, Compression::Identity, Seq::empty()))
                    } else {
                        Ok(d)
                    },
                }
            }
        },
    }
}

/// A request body read back through the codec its `content-encoding` names (see
/// [`decompressed_body`]); an unknown encoding leaves it as it is.
pub fn decompress_if_needed(data: Vec<u8>, content_encoding: Option<&str>) -> (r: Result<
    Vec<u8>,
    CodecError,
>)
    ensures
        match r {
            Ok(v) => decompressed_body(data@, opt_str_view(content_encoding)) == Ok::<
                Seq<u8>,
                CodecErrorView,
            >(v@),
            Err(e) => decompressed_body(data@, opt_str_view(content_encoding)) == Err::<
                Seq<u8>,
                CodecErrorView,
            >(e@),
        },
        forall|m: Compression, x: Seq<u8>|
            m != Compression::Identity && opt_str_view(content_encoding) == Some(token_of(m)) && data@
                == #[trigger] encoding_of(m, x) && x.len() <= MAX_HTTP_BODY_BYTES && data@.len()
                <= MAX_HTTP_BODY_BYTES ==> (r matches Ok(v) && v@ == x),
{
    proof {
        lemma_token_names_its_codec(Compression::Gzip);
        lemma_token_names_its_codec(Compression::Lz4);
        lemma_token_names_its_codec(Compression::Zstd);
    }
    let encoding = match content_encoding {
        None => {
            return Ok(data);
        },
        Some(e) => to_ascii_lowercase(e),
    };
    let codec = if contains_str(encoding.as_str(), "gzip") {
        Compression::Gzip
    } else if contains_str(encoding.as_str(), "lz4") {
        Compression::Lz4
    } else if contains_str(encoding.as_str(), "zstd") {
        Compression::Zstd
    } else {
        return Ok(data);
    };
    if data.len() as u64 > MAX_HTTP_BODY_BYTES {
        return Err(CodecError::CompressedTooLarge);
    }
    let limit: u64 = MAX_HTTP_BODY_BYTES + 1;
    let decoded = match codec {
        Compression::Gzip => gzip_decode(data.as_slice(), limit),
        Compression::Lz4 => lz4_decode(data.as_slice(), limit),
        _ => zstd_decode(data.as_slice(), limit),
    };
    match decoded {
        Err(t) => Err(CodecError::Decode(codec, t)),
        Ok(d) => {
            if d.len() as u64 > MAX_HTTP_BODY_BYTES {
                Err(CodecError::DecompressedTooLarge)
            } else {
                Ok(d)
            }
        },
    }
}

} // verus!
