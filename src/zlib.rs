//! The two-byte zlib container header (CMF and FLG).
use vstd::prelude::*;

verus! {

/// CMF: compression method 8 (DEFLATE) in the low nibble and CINFO 7
/// (a 32 KiB window) in the high nibble.
pub const DEFAULT_CMF: u8 = 0x78;

/// FDICT: no preset dictionary.
pub const DEFAULT_FDICT: u8 = 0;

/// The 16-bit value `CMF * 256 + FLG` must be a multiple of this.
pub const FCHECK_DIVISOR: u8 = 31;

/// The compression-effort hint stored in the two top bits of FLG.
#[derive(Clone, Copy, Debug, PartialEq, Eq, Structural)]
pub enum CompressionLevel {
    Fastest,
    Fast,
    Default,
    Maximum,
}

/// The two-bit FLEVEL value of a level.
pub open spec fn level_value(level: CompressionLevel) -> int {
    match level {
        CompressionLevel::Fastest => 0,
        CompressionLevel::Fast => 1,
        CompressionLevel::Default => 2,
        CompressionLevel::Maximum => 3,
    }
}

/// The bits of FLG above the five FCHECK bits (FLEVEL and FDICT), as a byte.
pub open spec fn flg_without_fcheck(flg: u8) -> int {
    (flg as int / 32) * 32
}

/// FLG with its FCHECK field set so that `CMF * 256 + FLG` is a multiple
/// of 31; whatever FCHECK held before is discarded.
pub open spec fn with_fcheck(cmf: u8, flg: u8) -> int {
    let upper = flg_without_fcheck(flg);
    upper + (31 - (cmf as int * 256 + upper) % 31)
}

/// The header bytes for a level: CMF, then FLG with FLEVEL, FDICT = 0 and FCHECK.
pub open spec fn zlib_header(level: CompressionLevel) -> Seq<u8> {
    seq![DEFAULT_CMF, with_fcheck(DEFAULT_CMF, (level_value(level) * 64) as u8) as u8]
}

/// Generates FCHECK for `cmf` and `flg` so that `(cmf * 256 + flg) % 31 == 0`,
/// and returns `flg` with those bits in place of any FCHECK bits it held.
pub fn add_fcheck(cmf: u8, flg: u8) -> (r: u8)
    ensures
        r == with_fcheck(cmf, flg),
        (cmf as int * 256 + r as int) % 31 == 0,
        r / 32 == flg / 32,
{
    let upper: u8 = flg & 0b1110_0000;
    assert(flg & 0b1110_0000u8 == flg / 32 * 32) by (bit_vector);
    let rem: usize = (cmf as usize * 256 + upper as usize) % (FCHECK_DIVISOR as usize);
    upper + (FCHECK_DIVISOR - rem as u8)
}

/// The FLEVEL value of a level, as a byte.
fn level_bits(level: CompressionLevel) -> (r: u8)
    ensures
        r as int == level_value(level),
{
    match level {
        CompressionLevel::Fastest => 0,
        CompressionLevel::Fast => 1,
        CompressionLevel::Default => 2,
        CompressionLevel::Maximum => 3,
    }
}

/// Appends the two header bytes for `level` to `writer`.
pub fn write_zlib_header(level: CompressionLevel, writer: &mut Vec<u8>)
    ensures
        final(writer)@ == old(writer)@ + zlib_header(level),
{
    let cmf = DEFAULT_CMF;
    let bits = level_bits(level);
    assert(bits <= 3 ==> bits << 6u8 == bits * 64) by (bit_vector);
    let flg = add_fcheck(cmf, bits << 6);
    writer.push(cmf);
    writer.push(flg);
    assert(writer@ =~= old(writer)@ + zlib_header(level));
}

/// Every header is valid: `CMF * 256 + FLG` is a multiple of 31, CMF names
/// DEFLATE with a 32 KiB window, FLG carries the level in its two top bits and
/// has no preset dictionary.
pub proof fn lemma_header_valid(level: CompressionLevel)
    ensures
        zlib_header(level).len() == 2,
        (zlib_header(level)[0] as int * 256 + zlib_header(level)[1] as int) % 31 == 0,
        zlib_header(level)[0] % 16 == 8,
        zlib_header(level)[0] / 16 == 7,
        zlib_header(level)[1] / 64 == level_value(level),
        (zlib_header(level)[1] / 32) % 2 == 0,
{
}

/// Setting FCHECK does not depend on what the field held: the result is the
/// same for any two FLG values that agree above it, and setting it a second
/// time changes nothing.
pub proof fn lemma_fcheck_idempotent(cmf: u8, flg: u8, other: u8)
    requires
        flg / 32 == other / 32,
    ensures
        with_fcheck(cmf, flg) == with_fcheck(cmf, other),
        0 <= with_fcheck(cmf, flg) <= 255,
        with_fcheck(cmf, with_fcheck(cmf, flg) as u8) == with_fcheck(cmf, flg),
{
}

} // verus!
