//! The SWF container: signature dispatch and decompression.
//!
//! An SWF file starts with a 3-byte signature naming the compression scheme,
//! a version byte, and a 4-byte little-endian declared uncompressed length
//! (which counts those 8 bytes).  The rest of the file is the header and tag
//! stream, stored raw, zlib-compressed, or LZMA-compressed.
use vstd::prelude::*;

verus! {

/// Why an SWF byte stream was rejected.
#[derive(Debug)]
pub enum FormatError {
    /// The stream does not begin with a recognized compression signature.
    UnknownSignature,
    /// The compressed payload is corrupt or truncated; carries the
    /// decoder's diagnostic.
    DecompressionFailed(String),
    /// The decompressed stream is too short for the required header fields.
    TruncatedHeader,
}

impl FormatError {
    /// A short rendering of the error for diagnostics.
    pub fn describe(&self) -> (r: Vec<char>)
        ensures
            self is UnknownSignature ==> r@ == "unknown signature"@,
            self is TruncatedHeader ==> r@ == "truncated header"@,
            self matches FormatError::DecompressionFailed(d) ==> r@ == "decompression failed: "@
                + d@,
    {
        match self {
            FormatError::UnknownSignature => crate::text::str_to_chars("unknown signature"),
            FormatError::TruncatedHeader => crate::text::str_to_chars("truncated header"),
            FormatError::DecompressionFailed(d) => {
                let mut out = crate::text::str_to_chars("decompression failed: ");
                crate::text::append_str(&mut out, d.as_str());
                out
            },
        }
    }
}

/// The uncompressed header-and-tag byte stream recovered from a container.
pub struct DecompressedStream {
    /// The container's format version byte.
    pub version: u8,
    /// The declared uncompressed length of the whole file, including the
    /// 8-byte container header.
    pub declared_len: u32,
    /// The uncompressed header and tag bytes that follow the container
    /// header.
    pub data: Vec<u8>,
}

/// What inflating a zlib stream yields: a function of the bytes alone;
/// `None` when the stream is corrupt or truncated.
pub uninterp spec fn zlib_inflate(b: Seq<u8>) -> Option<Seq<u8>>;

/// What decoding an SWF-framed LZMA stream (5 property bytes, then the raw
/// stream, with the unpacked size supplied separately) yields: a function of
/// the bytes and the size alone; `None` when the stream is corrupt.
pub uninterp spec fn lzma_decode(b: Seq<u8>, unpacked: u64) -> Option<Seq<u8>>;

/// Relies on flate2's `ZlibDecoder` over a byte slice: inflation is a
/// deterministic function of the input bytes, and corrupt or truncated
/// input reports an error through `read_to_end`.
#[verifier::external_body]
fn inflate_zlib(data: &[u8]) -> (r: Result<Vec<u8>, String>)
    ensures
        match r {
            Ok(v) => zlib_inflate(data@) == Some(v@),
            Err(_) => zlib_inflate(data@) is None,
        },
{
    let mut out: Vec<u8> = Vec::new();
    let mut dec = flate2::read::ZlibDecoder::new(data);
    match std::io::Read::read_to_end(&mut dec, &mut out) {
        Ok(_) => Ok(out),
        Err(e) => Err(format!("{}", e)),
    }
}

/// Relies on `lzma_rs::lzma_decompress_with_options` with a caller-provided
/// unpacked size: decoding is a deterministic function of the property and
/// stream bytes and the size alone; corrupt input reports an error.
#[verifier::external_body]
fn decode_lzma(data: &[u8], unpacked: u64) -> (r: Result<Vec<u8>, String>)
    ensures
        match r {
            Ok(v) => lzma_decode(data@, unpacked) == Some(v@),
            Err(_) => lzma_decode(data@, unpacked) is None,
        },
{
    let mut input: &[u8] = data;
    let mut out: Vec<u8> = Vec::new();
    let options = lzma_rs::decompress::Options {
        unpacked_size: lzma_rs::decompress::UnpackedSize::UseProvided(Some(unpacked)),
        memlimit: None,
        allow_incomplete: false,
    };
    match lzma_rs::lzma_decompress_with_options(&mut input, &mut out, &options) {
        Ok(()) => Ok(out),
        Err(e) => Err(format!("{:?}", e)),
    }
}

/// The signature of an uncompressed container: `FWS`.
pub open spec fn sig_uncompressed(b: Seq<u8>) -> bool {
    b.len() >= 3 && b[0] == 70 && b[1] == 87 && b[2] == 83
}

/// The signature of a zlib-compressed container: `CWS`.
pub open spec fn sig_zlib(b: Seq<u8>) -> bool {
    b.len() >= 3 && b[0] == 67 && b[1] == 87 && b[2] == 83
}

/// The signature of an LZMA-compressed container: `ZWS`.
pub open spec fn sig_lzma(b: Seq<u8>) -> bool {
    b.len() >= 3 && b[0] == 90 && b[1] == 87 && b[2] == 83
}

/// Whether the stream begins with any recognized signature.
pub open spec fn sig_recognized(b: Seq<u8>) -> bool {
    sig_uncompressed(b) || sig_zlib(b) || sig_lzma(b)
}

/// The declared uncompressed length: bytes 4..8, little endian.
pub open spec fn declared_len_of(b: Seq<u8>) -> nat {
    (b[4] as nat) + 256 * (b[5] as nat) + 65536 * (b[6] as nat) + 16777216 * (b[7] as nat)
}

/// The unpacked size handed to the LZMA decoder: the declared length less
/// the 8-byte container header, clamped at zero.
pub open spec fn lzma_unpacked_of(b: Seq<u8>) -> nat {
    if declared_len_of(b) >= 8 {
        (declared_len_of(b) - 8) as nat
    } else {
        0
    }
}

/// Whether the whole container decompresses: the signature is recognized,
/// the container header is complete, and the scheme's decoder accepts the
/// payload.
pub open spec fn decompress_ok(b: Seq<u8>) -> bool {
    &&& sig_recognized(b)
    &&& b.len() >= 8
    &&& (sig_zlib(b) ==> zlib_inflate(b.skip(8)) is Some)
    &&& (sig_lzma(b) ==> b.len() >= 17 && lzma_decode(b.skip(12), lzma_unpacked_of(b) as u64)
        is Some)
}

/// The uncompressed header-and-tag bytes of a container that decompresses.
pub open spec fn decompressed_of(b: Seq<u8>) -> Seq<u8> {
    if sig_uncompressed(b) {
        b.skip(8)
    } else if sig_zlib(b) {
        zlib_inflate(b.skip(8)).unwrap()
    } else {
        lzma_decode(b.skip(12), lzma_unpacked_of(b) as u64).unwrap()
    }
}

/// A stream without a recognized signature never decompresses: the
/// pipeline can only reject it, never hand back data for it.
pub proof fn lemma_unknown_signature_rejected(b: Seq<u8>)
    requires
        !sig_recognized(b),
    ensures
        !decompress_ok(b),
{
}

/// Read the container header, dispatch on the signature, and produce the
/// uncompressed header-and-tag stream.
///
/// An unrecognized (or missing) 3-byte signature is always rejected as
/// `UnknownSignature`; a recognized container whose payload the scheme's
/// decoder rejects, or whose container header is itself truncated, fails
/// with `DecompressionFailed`.
pub fn decompress(b: &Vec<u8>) -> (r: Result<DecompressedStream, FormatError>)
    ensures
        r is Ok <==> decompress_ok(b@),
        match r {
            Ok(s) => {
                &&& s.version == b@[3]
                &&& s.declared_len == declared_len_of(b@)
                &&& s.data@ == decompressed_of(b@)
            },
            Err(e) => {
                &&& (e is UnknownSignature <==> !sig_recognized(b@))
                &&& (e matches FormatError::DecompressionFailed(_) <==> sig_recognized(b@)
                    && !decompress_ok(b@))
            },
        },
{
    let n = b.len();
    if n < 3 {
        return Err(FormatError::UnknownSignature);
    }
    let s0 = b[0];
    let s1 = b[1];
    let s2 = b[2];
    // The recognized signatures are FWS, CWS, and ZWS.
    let uncompressed = s0 == 70 && s1 == 87 && s2 == 83;
    let zlib = s0 == 67 && s1 == 87 && s2 == 83;
    let lzma = s0 == 90 && s1 == 87 && s2 == 83;
    if !(uncompressed || zlib || lzma) {
        return Err(FormatError::UnknownSignature);
    }
    if n < 8 {
        return Err(
            FormatError::DecompressionFailed(String::from_str("container header truncated")),
        );
    }
    let version = b[3];
    let declared_len: u32 = (b[4] as u32) + 256 * (b[5] as u32) + 65536 * (b[6] as u32) + 16777216
        * (b[7] as u32);
    if uncompressed {
        let data = copy_tail(b, 8);
        Ok(DecompressedStream { version, declared_len, data })
    } else if zlib {
        let tail = copy_tail(b, 8);
        match inflate_zlib(tail.as_slice()) {
            Ok(data) => Ok(DecompressedStream { version, declared_len, data }),
            Err(d) => Err(FormatError::DecompressionFailed(d)),
        }
    } else {
        if n < 17 {
            return Err(
                FormatError::DecompressionFailed(String::from_str("compressed payload truncated")),
            );
        }
        let unpacked: u64 = if declared_len >= 8 {
            (declared_len - 8) as u64
        } else {
            0
        };
        // Bytes 8..12 hold the compressed length, which the decoder does
        // not need; the stream it wants starts with the five LZMA property
        // bytes at byte 12.
        let tail = copy_tail(b, 12);
        match decode_lzma(tail.as_slice(), unpacked) {
            Ok(data) => Ok(DecompressedStream { version, declared_len, data }),
            Err(d) => Err(FormatError::DecompressionFailed(d)),
        }
    }
}

/// Copy the bytes of a buffer from an offset on.
fn copy_tail(b: &Vec<u8>, from: usize) -> (r: Vec<u8>)
    requires
        from <= b@.len(),
    ensures
        r@ == b@.skip(from as int),
{
    let mut r: Vec<u8> = Vec::new();
    let mut i: usize = from;
    while i < b.len()
        invariant
            from <= i <= b@.len(),
            r@ == b@.subrange(from as int, i as int),
        decreases b@.len() - i,
    {
        r.push(b[i]);
        i = i + 1;
        proof {
            assert(r@ =~= b@.subrange(from as int, i as int));
        }
    }
    proof {
        assert(r@ =~= b@.skip(from as int));
    }
    r
}

} // verus!
