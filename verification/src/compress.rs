//! The decompression pipeline: none, zlib, LZO-style segmented, and
//! zstd, each decoding to a sized output, with the matching encoders.
//!
//! The LZO framing is this format's own: a 4-byte total length, then
//! segments of a 4-byte little-endian compressed length followed by
//! that many compressed bytes; segment outputs are concatenated until
//! the declared decoded length is reached or the source ends.

use std::io::Read;
use std::io::Write;

use vstd::prelude::*;
use vstd::bytes::{spec_u32_to_le_bytes, u32_to_le_bytes, lemma_auto_spec_u32_to_from_le_bytes};
use vstd::slice::slice_subrange;

use crate::bytes::{copy_bytes, le_u32, spec_le_u32};
use crate::error::BtrfsError;

verus! {

/// The largest input the LZO segment codec accepts.
pub const LZO_MAX_INPUT: usize = 0x7E000000;

/// Compression algorithms named by the on-disk compression byte.
#[derive(Debug, Clone, Copy, PartialEq, Eq, Structural)]
pub enum CompressionType {
    /// No compression.
    NoCompression,
    /// Zlib streams.
    Zlib,
    /// LZO-style segmented compression.
    Lzo,
    /// Zstd frames.
    Zstd,
}

impl CompressionType {
    /// Maps the on-disk compression byte to the algorithm; unknown
    /// bytes are unsupported compression.
    pub fn from_u8(value: u8) -> (r: Result<Self, BtrfsError>)
        ensures
            r is Ok <==> value <= 3,
            value == 0 ==> r == Ok::<Self, BtrfsError>(CompressionType::NoCompression),
            value == 1 ==> r == Ok::<Self, BtrfsError>(CompressionType::Zlib),
            value == 2 ==> r == Ok::<Self, BtrfsError>(CompressionType::Lzo),
            value == 3 ==> r == Ok::<Self, BtrfsError>(CompressionType::Zstd),
            r is Err ==> r->Err_0 == (BtrfsError::UnsupportedCompression(value)),
    {
        match value {
            0u8 => Ok(CompressionType::NoCompression),
            1u8 => Ok(CompressionType::Zlib),
            2u8 => Ok(CompressionType::Lzo),
            3u8 => Ok(CompressionType::Zstd),
            _ => Err(BtrfsError::UnsupportedCompression(value)),
        }
    }

    /// The on-disk byte of this algorithm.
    pub fn to_u8(self) -> (r: u8)
        ensures
            self is NoCompression ==> r == 0,
            self is Zlib ==> r == 1,
            self is Lzo ==> r == 2,
            self is Zstd ==> r == 3,
    {
        match self {
            CompressionType::NoCompression => 0,
            CompressionType::Zlib => 1,
            CompressionType::Lzo => 2,
            CompressionType::Zstd => 3,
        }
    }

    /// Whether data under this algorithm needs decoding.
    pub fn needs_decompression(&self) -> (r: bool)
        ensures
            r == !(*self is NoCompression),
    {
        match self {
            CompressionType::NoCompression => false,
            _ => true,
        }
    }
}

/// What decoding a zlib stream yields, or nothing if the stream is
/// not well-formed.
pub uninterp spec fn zlib_inflate(src: Seq<u8>) -> Option<Seq<u8>>;

/// What decoding one LZO-style compressed segment yields into a
/// buffer of `cap` bytes, or nothing if the segment is not
/// well-formed or does not fit.
pub uninterp spec fn lz4_inflate(src: Seq<u8>, cap: int) -> Option<Seq<u8>>;

/// What decoding zstd frames yields, or nothing if they are not
/// well-formed.
pub uninterp spec fn zstd_inflate(src: Seq<u8>) -> Option<Seq<u8>>;

/// Relies on `flate2::read::ZlibDecoder`: decoding succeeds exactly
/// on a well-formed zlib stream and the result depends on the stream
/// alone.
#[verifier::external_body]
fn inflate_zlib(src: &[u8]) -> (r: Result<Vec<u8>, String>)
    ensures
        r is Ok ==> zlib_inflate(src@) == Some(r->Ok_0@),
        r is Err ==> zlib_inflate(src@) is None,
{
    let mut decoder = flate2::read::ZlibDecoder::new(src);
    let mut out: Vec<u8> = Vec::new();
    match decoder.read_to_end(&mut out) {
        Ok(_) => Ok(out),
        Err(e) => Err(format!("zlib: {}", e)),
    }
}

/// Relies on `flate2::write::ZlibEncoder`: its output is a
/// well-formed zlib stream that decodes back to the input. The
/// backend accepts levels up to 9 only (its debug builds assert the
/// bound), so the level is a precondition here.
#[verifier::external_body]
fn deflate_zlib(data: &[u8], level: u32) -> (r: Result<Vec<u8>, String>)
    requires
        level <= 9,
    ensures
        r is Ok ==> zlib_inflate(r->Ok_0@) == Some(data@),
{
    let mut encoder = flate2::write::ZlibEncoder::new(Vec::new(), flate2::Compression::new(level));
    if let Err(e) = encoder.write_all(data) {
        return Err(format!("zlib compress: {}", e));
    }
    match encoder.finish() {
        Ok(v) => Ok(v),
        Err(e) => Err(format!("zlib finish: {}", e)),
    }
}

/// Relies on `lz4::block::decompress` with an explicit size: it
/// decodes the whole block into a buffer of `cap` bytes, the result a
/// function of the block and the capacity alone.
#[verifier::external_body]
fn inflate_lz4(src: &[u8], cap: usize) -> (r: Result<Vec<u8>, String>)
    requires
        cap <= LZO_MAX_INPUT,
    ensures
        r is Ok ==> lz4_inflate(src@, cap as int) == Some(r->Ok_0@) && r->Ok_0@.len() <= cap,
        r is Err ==> lz4_inflate(src@, cap as int) is None,
{
    match lz4::block::decompress(src, Some(cap as i32)) {
        Ok(v) => Ok(v),
        Err(e) => Err(format!("LZO: {}", e)),
    }
}

/// Relies on `lz4::block::compress` without a size prefix: it accepts
/// inputs up to the codec's input bound, and its output block decodes
/// back to the input in any buffer that holds it.
#[verifier::external_body]
fn deflate_lz4(data: &[u8]) -> (r: Result<Vec<u8>, String>)
    ensures
        r is Ok ==> data@.len() <= LZO_MAX_INPUT,
        r is Ok ==> forall|c: int|
            data@.len() <= c <= LZO_MAX_INPUT ==> #[trigger] lz4_inflate(r->Ok_0@, c) == Some(
                data@,
            ),
{
    match lz4::block::compress(data, None, false) {
        Ok(v) => Ok(v),
        Err(e) => Err(format!("LZO compress: {}", e)),
    }
}

/// Relies on `zstd::decode_all`: decoding succeeds exactly on
/// well-formed zstd frames and the result depends on them alone.
#[verifier::external_body]
fn inflate_zstd(src: &[u8]) -> (r: Result<Vec<u8>, String>)
    ensures
        r is Ok ==> zstd_inflate(src@) == Some(r->Ok_0@),
        r is Err ==> zstd_inflate(src@) is None,
{
    match zstd::decode_all(src) {
        Ok(v) => Ok(v),
        Err(e) => Err(format!("zstd: {}", e)),
    }
}

/// Relies on `zstd::encode_all`: its output frames decode back to the
/// input.
#[verifier::external_body]
fn deflate_zstd(data: &[u8], level: i32) -> (r: Result<Vec<u8>, String>)
    ensures
        r is Ok ==> zstd_inflate(r->Ok_0@) == Some(data@),
{
    match zstd::encode_all(data, level) {
        Ok(v) => Ok(v),
        Err(e) => Err(format!("zstd compress: {}", e)),
    }
}

/// A decoded sequence cut down to the declared length.
pub open spec fn spec_truncated(d: Seq<u8>, cap: int) -> Seq<u8> {
    if d.len() <= cap {
        d
    } else {
        d.subrange(0, cap)
    }
}

/// What decompressing `src` under the on-disk compression byte to a
/// declared size of `cap` yields, or nothing where decoding fails:
/// byte 0 is a plain copy, 1 a zlib stream cut to `cap`, 2 the LZO
/// segment walk cut to `cap`, 3 zstd frames; any other byte fails.
pub open spec fn spec_decode(compression: u8, src: Seq<u8>, cap: int) -> Option<Seq<u8>> {
    if compression == 0 {
        Some(src)
    } else if compression == 1 {
        match zlib_inflate(src) {
            Option::None => Option::<Seq<u8>>::None,
            Option::Some(d) => Some(spec_truncated(d, cap)),
        }
    } else if compression == 2 {
        if src.len() < 4 || cap > LZO_MAX_INPUT || cap < 0 {
            Option::<Seq<u8>>::None
        } else {
            match lzo_walk(src, 4, cap, Seq::<u8>::empty()) {
                Option::None => Option::<Seq<u8>>::None,
                Option::Some(d) => Some(spec_truncated(d, cap)),
            }
        }
    } else if compression == 3 {
        zstd_inflate(src)
    } else {
        Option::<Seq<u8>>::None
    }
}

/// Decompresses `src` under the on-disk compression byte, to at most
/// `cap` decoded bytes where the algorithm bounds its output.
pub fn decode_bytes(compression: u8, src: &[u8], cap: usize) -> (r: Result<Vec<u8>, BtrfsError>)
    ensures
        r is Ok <==> spec_decode(compression, src@, cap as int) is Some,
        r is Ok ==> r->Ok_0@ == spec_decode(compression, src@, cap as int)->0,
        r is Err ==> (r->Err_0 is DecompressionError || r->Err_0 is UnsupportedCompression),
{
    let algo = match CompressionType::from_u8(compression) {
        Ok(a) => a,
        Err(e) => {
            return Err(e);
        },
    };
    if compression == 2 && src.len() < 4 {
        return Err(BtrfsError::DecompressionError("LZO data too small".to_owned()));
    }
    decompress(algo, src, cap)
}

/// Decompresses a zlib stream; the decoded length is bounded by the
/// declared size.
pub fn decompress_zlib(compressed: &[u8], uncompressed_size: usize) -> (r: Result<
    Vec<u8>,
    BtrfsError,
>)
    ensures
        r is Ok <==> zlib_inflate(compressed@) is Some,
        r is Ok ==> r->Ok_0@ == spec_truncated(
            zlib_inflate(compressed@)->0,
            uncompressed_size as int,
        ),
        r is Err ==> r->Err_0 is DecompressionError,
{
    match inflate_zlib(compressed) {
        Ok(mut out) => {
            out.truncate(uncompressed_size);
            proof {
                assert(out@ == spec_truncated(
                    zlib_inflate(compressed@)->0,
                    uncompressed_size as int,
                ));
            }
            Ok(out)
        },
        Err(e) => Err(BtrfsError::DecompressionError(e)),
    }
}

/// The result of walking the LZO segment list of `src` from byte
/// offset `off`, having already decoded `acc`, stopping once `cap`
/// decoded bytes are reached or the source is exhausted; `None` marks
/// a segment that does not decode.
pub open spec fn lzo_walk(src: Seq<u8>, off: int, cap: int, acc: Seq<u8>) -> Option<Seq<u8>>
    decreases src.len() - off,
{
    if off >= src.len() || acc.len() >= cap {
        Some(acc)
    } else if off + 4 > src.len() {
        Some(acc)
    } else {
        let seg = spec_le_u32(src, off) as int;
        if seg == 0 || off + 4 + seg > src.len() {
            Some(acc)
        } else {
            match lz4_inflate(src.subrange(off + 4, off + 4 + seg), cap) {
                Option::None => Option::<Seq<u8>>::None,
                Option::Some(d) => lzo_walk(src, off + 4 + seg, cap, acc + d),
            }
        }
    }
}

/// Decompresses LZO-style segmented data: a 4-byte total length, then
/// segments decoded and concatenated until the declared size is
/// reached or the source ends; the result is cut to the declared
/// size.
pub fn decompress_lzo(compressed: &[u8], uncompressed_size: usize) -> (r: Result<
    Vec<u8>,
    BtrfsError,
>)
    ensures
        compressed@.len() < 4 ==> r is Err,
        uncompressed_size > LZO_MAX_INPUT ==> r is Err,
        compressed@.len() >= 4 && uncompressed_size <= LZO_MAX_INPUT ==> ({
            let walk = lzo_walk(compressed@, 4, uncompressed_size as int, Seq::<u8>::empty());
            &&& (r is Ok <==> walk is Some)
            &&& (r is Ok ==> r->Ok_0@ == spec_truncated(walk->0, uncompressed_size as int))
        }),
        r is Err ==> r->Err_0 is DecompressionError,
{
    let n: usize = compressed.len();
    if n < 4 {
        return Err(BtrfsError::DecompressionError("LZO data too small".to_owned()));
    }
    if uncompressed_size > LZO_MAX_INPUT {
        return Err(BtrfsError::DecompressionError("LZO declared size too large".to_owned()));
    }
    let mut out: Vec<u8> = Vec::new();
    let mut off: usize = 4;
    while off < n && out.len() < uncompressed_size
        invariant
            n == compressed@.len(),
            n >= 4,
            uncompressed_size <= LZO_MAX_INPUT,
            4 <= off <= n,
            lzo_walk(compressed@, 4, uncompressed_size as int, Seq::<u8>::empty()) == lzo_walk(
                compressed@,
                off as int,
                uncompressed_size as int,
                out@,
            ),
        decreases n - off,
    {
        if n - off < 4 {
            out.truncate(uncompressed_size);
            return Ok(out);
        }
        let seg: u32 = le_u32(compressed, off);
        let seg_sz: usize = seg as usize;
        if seg_sz == 0 || seg_sz > n - (off + 4) {
            out.truncate(uncompressed_size);
            return Ok(out);
        }
        let segment = slice_subrange(compressed, off + 4, off + 4 + seg_sz);
        let decoded = match inflate_lz4(segment, uncompressed_size) {
            Ok(d) => d,
            Err(e) => {
                return Err(BtrfsError::DecompressionError(e));
            },
        };
        let mut decoded = decoded;
        out.append(&mut decoded);
        off = off + 4 + seg_sz;
    }
    proof {
        assert(lzo_walk(compressed@, off as int, uncompressed_size as int, out@) == Some(out@));
    }
    out.truncate(uncompressed_size);
    Ok(out)
}

/// Decompresses zstd frames; the declared size is a hint only.
pub fn decompress_zstd(compressed: &[u8], _uncompressed_size: usize) -> (r: Result<
    Vec<u8>,
    BtrfsError,
>)
    ensures
        r is Ok <==> zstd_inflate(compressed@) is Some,
        r is Ok ==> Some(r->Ok_0@) == zstd_inflate(compressed@),
        r is Err ==> r->Err_0 is DecompressionError,
{
    match inflate_zstd(compressed) {
        Ok(v) => Ok(v),
        Err(e) => Err(BtrfsError::DecompressionError(e)),
    }
}

/// Decompresses `compressed` with the given algorithm to at most
/// `uncompressed_size` bytes (`None` returns a plain copy; zstd
/// ignores the bound).
pub fn decompress(
    compression: CompressionType,
    compressed: &[u8],
    uncompressed_size: usize,
) -> (r: Result<Vec<u8>, BtrfsError>)
    ensures
        compression is NoCompression ==> r is Ok && r->Ok_0@ == compressed@,
        compression is Zlib ==> ({
            &&& (r is Ok <==> zlib_inflate(compressed@) is Some)
            &&& (r is Ok ==> r->Ok_0@ == spec_truncated(
                zlib_inflate(compressed@)->0,
                uncompressed_size as int,
            ))
        }),
        compression is Zstd ==> ({
            &&& (r is Ok <==> zstd_inflate(compressed@) is Some)
            &&& (r is Ok ==> Some(r->Ok_0@) == zstd_inflate(compressed@))
        }),
        compression is Lzo && compressed@.len() >= 4 && uncompressed_size <= LZO_MAX_INPUT ==> ({
            let walk = lzo_walk(compressed@, 4, uncompressed_size as int, Seq::<u8>::empty());
            &&& (r is Ok <==> walk is Some)
            &&& (r is Ok ==> r->Ok_0@ == spec_truncated(walk->0, uncompressed_size as int))
        }),
        compression is Lzo && (compressed@.len() < 4 || uncompressed_size > LZO_MAX_INPUT)
            ==> r is Err,
        r is Err ==> r->Err_0 is DecompressionError,
{
    match compression {
        CompressionType::NoCompression => Ok(copy_bytes(compressed, 0, compressed.len())),
        CompressionType::Zlib => decompress_zlib(compressed, uncompressed_size),
        CompressionType::Lzo => decompress_lzo(compressed, uncompressed_size),
        CompressionType::Zstd => decompress_zstd(compressed, uncompressed_size),
    }
}

/// Compresses with zlib; the output decodes back to the input.
/// Levels outside the codec's range of 0 to 9 are clamped to the
/// strongest level.
pub fn compress_zlib(data: &[u8], level: i32) -> (r: Result<Vec<u8>, BtrfsError>)
    ensures
        r is Ok ==> zlib_inflate(r->Ok_0@) == Some(data@),
        r is Err ==> r->Err_0 is DecompressionError,
{
    let lvl: u32 = if 0 <= level && level <= 9 {
        level as u32
    } else {
        9
    };
    match deflate_zlib(data, lvl) {
        Ok(v) => Ok(v),
        Err(e) => Err(BtrfsError::DecompressionError(e)),
    }
}

/// Compresses into the LZO framing: one segment holding the whole
/// input, behind the total-length and segment-length words. Walking
/// the framing back with the input's length as the declared size
/// yields the input.
pub fn compress_lzo(data: &[u8]) -> (r: Result<Vec<u8>, BtrfsError>)
    ensures
        r is Ok ==> lzo_walk(r->Ok_0@, 4, data@.len() as int, Seq::<u8>::empty()) == Some(data@),
        r is Ok ==> r->Ok_0@.len() >= 8 && data@.len() <= LZO_MAX_INPUT,
        r is Err ==> r->Err_0 is DecompressionError,
{
    let compressed = match deflate_lz4(data) {
        Ok(v) => v,
        Err(e) => {
            return Err(BtrfsError::DecompressionError(e));
        },
    };
    if compressed.len() == 0 || compressed.len() > 0xFFFF_FFF7usize {
        return Err(BtrfsError::DecompressionError("LZO compressed block too large".to_owned()));
    }
    let total: u32 = (4 + 4 + compressed.len()) as u32;
    let seg: u32 = compressed.len() as u32;
    let mut result: Vec<u8> = u32_to_le_bytes(total);
    let mut seg_bytes: Vec<u8> = u32_to_le_bytes(seg);
    result.append(&mut seg_bytes);
    let mut payload = copy_bytes(compressed.as_slice(), 0, compressed.len());
    result.append(&mut payload);
    proof {
        lemma_auto_spec_u32_to_from_le_bytes();
        let rv = result@;
        let dl = data@.len() as int;
        assert(rv.len() == 8 + compressed@.len());
        assert(rv.subrange(0, 4) =~= spec_u32_to_le_bytes(total));
        assert(rv.subrange(4, 8) =~= spec_u32_to_le_bytes(seg));
        assert(spec_le_u32(rv, 4) == seg);
        assert(rv.subrange(8, 8 + compressed@.len() as int) =~= compressed@);
        if data@.len() == 0 {
            assert(lzo_walk(rv, 4, dl, Seq::<u8>::empty()) == Some(Seq::<u8>::empty()));
            assert(Seq::<u8>::empty() =~= data@);
        } else {
            assert(lz4_inflate(compressed@, dl) == Some(data@));
            assert(Seq::<u8>::empty() + data@ =~= data@);
            assert(lzo_walk(rv, 8 + compressed@.len() as int, dl, data@) == Some(data@));
            assert(lzo_walk(rv, 4, dl, Seq::<u8>::empty()) == Some(data@));
        }
    }
    Ok(result)
}

/// A carrier for the round-trip law of the codecs: the body
/// compresses and then decompresses with the input's length as the
/// declared size, and the verifier shows from the codec contracts
/// alone that whatever comes back equals the input, for every
/// algorithm.
pub fn compression_round_trip(
    compression: CompressionType,
    data: &[u8],
    level: i32,
) -> (r: Result<Vec<u8>, BtrfsError>)
    ensures
        compression is NoCompression ==> r is Ok,
        r is Ok ==> r->Ok_0@ == data@,
{
    let packed = match compress(compression, data, level) {
        Ok(v) => v,
        Err(e) => {
            return Err(e);
        },
    };
    let unpacked = match decompress(compression, packed.as_slice(), data.len()) {
        Ok(v) => v,
        Err(e) => {
            return Err(e);
        },
    };
    proof {
        if compression is Lzo {
            assert(spec_truncated(data@, data@.len() as int) == data@);
        }
        if compression is Zlib {
            assert(spec_truncated(data@, data@.len() as int) == data@);
        }
    }
    Ok(unpacked)
}

/// Compresses with zstd; the output decodes back to the input.
pub fn compress_zstd(data: &[u8], level: i32) -> (r: Result<Vec<u8>, BtrfsError>)
    ensures
        r is Ok ==> zstd_inflate(r->Ok_0@) == Some(data@),
        r is Err ==> r->Err_0 is DecompressionError,
{
    match deflate_zstd(data, level) {
        Ok(v) => Ok(v),
        Err(e) => Err(BtrfsError::DecompressionError(e)),
    }
}

/// Compresses `data` with the given algorithm (`None` returns a plain
/// copy); every algorithm's output decodes back to the input.
pub fn compress(compression: CompressionType, data: &[u8], level: i32) -> (r: Result<
    Vec<u8>,
    BtrfsError,
>)
    ensures
        compression is NoCompression ==> r is Ok && r->Ok_0@ == data@,
        compression is Zlib ==> (r is Ok ==> zlib_inflate(r->Ok_0@) == Some(data@)),
        compression is Zstd ==> (r is Ok ==> zstd_inflate(r->Ok_0@) == Some(data@)),
        compression is Lzo ==> (r is Ok ==> lzo_walk(
            r->Ok_0@,
            4,
            data@.len() as int,
            Seq::<u8>::empty(),
        ) == Some(data@) && r->Ok_0@.len() >= 8 && data@.len() <= LZO_MAX_INPUT),
        r is Err ==> r->Err_0 is DecompressionError,
{
    match compression {
        CompressionType::NoCompression => Ok(copy_bytes(data, 0, data.len())),
        CompressionType::Zlib => compress_zlib(data, level),
        CompressionType::Lzo => compress_lzo(data),
        CompressionType::Zstd => compress_zstd(data, level),
    }
}

} // verus!
