use vstd::prelude::*;
use crate::error::ArchiveError;

verus! {

/// The content of the first xz stream at the start of `data`, when there is a
/// whole and intact one (what `xz2::read::XzDecoder` reads from it).
pub uninterp spec fn xz_decoding(data: Seq<u8>) -> Option<Seq<u8>>;

/// The gzip member that `flate2` writes for `data` at `level`.
pub uninterp spec fn gzip_encoding(data: Seq<u8>, level: u32) -> Seq<u8>;

/// The content of the first gzip member at the start of `data`, when there is
/// a whole and intact one.
pub uninterp spec fn gzip_decoding(data: Seq<u8>) -> Option<Seq<u8>>;

/// The bzip2 stream that libbzip2 (through `bzip2`) writes for `data` at block size `level`.
pub uninterp spec fn bzip2_encoding(data: Seq<u8>, level: u32) -> Seq<u8>;

/// The content of the bzip2 stream at the start of `data`, when there is a
/// whole and intact one.
pub uninterp spec fn bzip2_decoding(data: Seq<u8>) -> Option<Seq<u8>>;

/// `xz2::write::XzEncoder` over a vector, fed `data` and finished. Claimed:
/// it succeeds (writing into a vector cannot fail, and liblzma reports an
/// error only when it cannot allocate memory), and what it returns decodes to
/// `data`. The bytes themselves are not named: liblzma's output may differ
/// between its versions and builds, and the system library may be the one
/// linked. `XzEncoder::new` panics on a preset liblzma refuses, so the level
/// is kept to 0..=9.
#[verifier::external_body]
fn xz_encode(data: &[u8], level: u32) -> (r: Result<Vec<u8>, String>)
    requires
        level <= 9,
    ensures
        r is Ok,
        r matches Ok(out) ==> xz_decoding(out@) == Some(data@),
{
    let mut encoder = xz2::write::XzEncoder::new(Vec::new(), level);
    if let Err(e) = std::io::Write::write_all(&mut encoder, data) {
        return Err(e.to_string());
    }
    match encoder.finish() {
        Ok(out) => Ok(out),
        Err(e) => Err(e.to_string()),
    }
}

/// `xz2::read::XzDecoder` over `data`, read to the end. Claimed: it
/// succeeds exactly when `data` starts with a whole and intact xz stream, and
/// then returns that stream's content. The decoder runs with no memory limit
/// over a slice, so the outcome depends on the data alone.
#[verifier::external_body]
fn xz_decode(data: &[u8]) -> (r: Result<Vec<u8>, String>)
    ensures
        match xz_decoding(data@) {
            Some(c) => r matches Ok(out) && out@ == c,
            None => r is Err,
        },
{
    let mut out = Vec::new();
    match std::io::Read::read_to_end(&mut xz2::read::XzDecoder::new(data), &mut out) {
        Ok(_) => Ok(out),
        Err(e) => Err(e.to_string()),
    }
}

/// `flate2::write::GzEncoder` over a vector, fed `data` and finished.
/// Claimed: it succeeds (writing into a vector cannot fail), what it returns
/// is the gzip member for `data` at `level` (time stamp 0, system byte 255),
/// and that member decodes to `data`.
#[verifier::external_body]
fn gzip_encode(data: &[u8], level: u32) -> (r: Result<Vec<u8>, String>)
    requires
        level <= 9,
    ensures
        r is Ok,
        r matches Ok(out) ==> out@ == gzip_encoding(data@, level) && gzip_decoding(out@) == Some(data@),
{
    let mut encoder = flate2::write::GzEncoder::new(Vec::new(), flate2::Compression::new(level));
    if let Err(e) = std::io::Write::write_all(&mut encoder, data) {
        return Err(e.to_string());
    }
    match encoder.finish() {
        Ok(out) => Ok(out),
        Err(e) => Err(e.to_string()),
    }
}

/// `flate2::read::GzDecoder` over `data`, read to the end. Claimed: it
/// succeeds exactly when `data` starts with a whole and intact gzip member,
/// and then returns that member's content.
#[verifier::external_body]
fn gzip_decode(data: &[u8]) -> (r: Result<Vec<u8>, String>)
    ensures
        match gzip_decoding(data@) {
            Some(c) => r matches Ok(out) && out@ == c,
            None => r is Err,
        },
{
    let mut out = Vec::new();
    match std::io::Read::read_to_end(&mut flate2::read::GzDecoder::new(data), &mut out) {
        Ok(_) => Ok(out),
        Err(e) => Err(e.to_string()),
    }
}

/// `bzip2::write::BzEncoder` over a vector, fed `data` and finished.
/// Claimed: it succeeds (writing into a vector cannot fail), what it returns
/// is the bzip2 stream for `data` at `level`, and that stream decodes to
/// `data`. libbzip2 refuses a block size outside 1..=9 and the crate then
/// panics, so the level is kept in that range.
#[verifier::external_body]
fn bzip2_encode(data: &[u8], level: u32) -> (r: Result<Vec<u8>, String>)
    requires
        1 <= level <= 9,
    ensures
        r is Ok,
        r matches Ok(out) ==> out@ == bzip2_encoding(data@, level) && bzip2_decoding(out@) == Some(data@),
{
    let mut encoder = bzip2::write::BzEncoder::new(Vec::new(), bzip2::Compression::new(level));
    if let Err(e) = std::io::Write::write_all(&mut encoder, data) {
        return Err(e.to_string());
    }
    match encoder.finish() {
        Ok(out) => Ok(out),
        Err(e) => Err(e.to_string()),
    }
}

/// `bzip2::read::BzDecoder` over `data`, read to the end. Claimed: it
/// succeeds exactly when `data` starts with a whole and intact bzip2 stream,
/// and then returns that stream's content.
#[verifier::external_body]
fn bzip2_decode(data: &[u8]) -> (r: Result<Vec<u8>, String>)
    ensures
        match bzip2_decoding(data@) {
            Some(c) => r matches Ok(out) && out@ == c,
            None => r is Err,
        },
{
    let mut out = Vec::new();
    match std::io::Read::read_to_end(&mut bzip2::read::BzDecoder::new(data), &mut out) {
        Ok(_) => Ok(out),
        Err(e) => Err(e.to_string()),
    }
}

/// The xz preset the tool compresses with.
pub const XZ_LEVEL: u32 = 6;

/// The gzip level the tool compresses with.
pub const GZIP_LEVEL: u32 = 6;

/// The bzip2 block size the tool compresses with.
pub const BZIP2_LEVEL: u32 = 6;

/// Compresses `data` into one xz stream, which decompresses back to `data`.
pub fn xz_compress(data: &[u8]) -> (r: Vec<u8>)
    ensures
        xz_decoding(r@) == Some(data@),
{
    match xz_encode(data, XZ_LEVEL) {
        Ok(out) => out,
        Err(_) => {
            proof {
                assert(false);
            }
            Vec::new()
        },
    }
}

/// Decompresses the xz stream that `data` starts with, failing exactly when
/// there is no whole and intact one.
pub fn xz_decompress(data: &[u8]) -> (r: Result<Vec<u8>, ArchiveError>)
    ensures
        match xz_decoding(data@) {
            Some(c) => r matches Ok(out) && out@ == c,
            None => r matches Err(ArchiveError::Codec(_)),
        },
{
    match xz_decode(data) {
        Ok(out) => Ok(out),
        Err(reason) => Err(ArchiveError::Codec(reason)),
    }
}

/// Compresses `data` into one gzip member, which decompresses back to `data`.
pub fn gzip_compress(data: &[u8]) -> (r: Vec<u8>)
    ensures
        r@ == gzip_encoding(data@, GZIP_LEVEL),
        gzip_decoding(r@) == Some(data@),
{
    match gzip_encode(data, GZIP_LEVEL) {
        Ok(out) => out,
        Err(_) => {
            proof {
                assert(false);
            }
            Vec::new()
        },
    }
}

/// Decompresses the gzip member that `data` starts with, failing exactly
/// when there is no whole and intact one.
pub fn gzip_decompress(data: &[u8]) -> (r: Result<Vec<u8>, ArchiveError>)
    ensures
        match gzip_decoding(data@) {
            Some(c) => r matches Ok(out) && out@ == c,
            None => r matches Err(ArchiveError::Codec(_)),
        },
{
    match gzip_decode(data) {
        Ok(out) => Ok(out),
        Err(reason) => Err(ArchiveError::Codec(reason)),
    }
}

/// Compresses `data` into one bzip2 stream, which decompresses back to `data`.
pub fn bzip2_compress(data: &[u8]) -> (r: Vec<u8>)
    ensures
        r@ == bzip2_encoding(data@, BZIP2_LEVEL),
        bzip2_decoding(r@) == Some(data@),
{
    match bzip2_encode(data, BZIP2_LEVEL) {
        Ok(out) => out,
        Err(_) => {
            proof {
                assert(false);
            }
            Vec::new()
        },
    }
}

/// Decompresses the bzip2 stream that `data` starts with, failing exactly
/// when there is no whole and intact one.
pub fn bzip2_decompress(data: &[u8]) -> (r: Result<Vec<u8>, ArchiveError>)
    ensures
        match bzip2_decoding(data@) {
            Some(c) => r matches Ok(out) && out@ == c,
            None => r matches Err(ArchiveError::Codec(_)),
        },
{
    match bzip2_decode(data) {
        Ok(out) => Ok(out),
        Err(reason) => Err(ArchiveError::Codec(reason)),
    }
}

} // verus!
