//! Zlib compression behind trusted wrappers around libdeflater.
use vstd::prelude::*;

verus! {

/// What libdeflater's zlib compressor emits for `data` at `level`: a
/// deterministic function of both.
pub uninterp spec fn zlib_deflate_of(data: Seq<u8>, level: int) -> Seq<u8>;

/// What libdeflater's zlib decompressor recovers from `data`: the content
/// of the first zlib stream it reads there (bytes behind that stream are
/// ignored), or nothing when no stream can be read.
pub uninterp spec fn zlib_inflate_of(data: Seq<u8>) -> Option<Seq<u8>>;

/// The smallest compression level libdeflater accepts.
pub const MIN_COMPRESSION_LEVEL: i32 = 0;

/// The largest compression level libdeflater accepts.
pub const MAX_COMPRESSION_LEVEL: i32 = 12;

/// Relies on libdeflater's Compressor::zlib_compress at the given level:
/// its output is deterministic in `data` and `level`, and zlib is lossless,
/// so decompressing the output yields `data` again. The output buffer is
/// sized by zlib_compress_bound, a hard upper bound, and insufficient
/// space is the compressor's only failure, so the call always succeeds.
#[verifier::external_body]
pub fn zlib_compress(data: &Vec<u8>, level: i32) -> (r: Result<Vec<u8>, ()>)
    requires
        MIN_COMPRESSION_LEVEL <= level <= MAX_COMPRESSION_LEVEL,
    ensures
        r is Ok,
        r matches Ok(z) ==> {
            &&& z@ == zlib_deflate_of(data@, level as int)
            &&& zlib_inflate_of(z@) == Some(data@)
        },
{
    let lvl = libdeflater::CompressionLvl::new(level).map_err(|_| ())?;
    let mut c = libdeflater::Compressor::new(lvl);
    let bound = c.zlib_compress_bound(data.len());
    let mut out = vec![0u8; bound];
    let n = c.zlib_compress(data.as_slice(), &mut out).map_err(|_| ())?;
    out.truncate(n);
    Ok(out)
}

/// Relies on libdeflater's Decompressor::zlib_decompress with an output
/// buffer of `max_len` bytes: it succeeds exactly when it can read one
/// zlib stream whose content fits, and returns that content.
#[verifier::external_body]
pub fn zlib_decompress(data: &Vec<u8>, max_len: usize) -> (r: Result<Vec<u8>, ()>)
    ensures
        r is Ok <==> (zlib_inflate_of(data@) matches Some(v) && v.len() <= max_len),
        r matches Ok(v) ==> zlib_inflate_of(data@) == Some(v@),
{
    let mut d = libdeflater::Decompressor::new();
    let mut out = vec![0u8; max_len];
    let n = d.zlib_decompress(data.as_slice(), &mut out).map_err(|_| ())?;
    out.truncate(n);
    Ok(out)
}

} // verus!
