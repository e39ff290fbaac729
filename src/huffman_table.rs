//! The canonical DEFLATE alphabets and the mapping from match lengths and
//! distances to their code indices.
use vstd::prelude::*;

verus! {

/// Size of the combined literal / end-of-block / length alphabet, counting the
/// two trailing codes (286 and 287) that take part in code construction but
/// never occur in data.
pub const NUM_LITERALS_AND_LENGTHS: usize = 288;

/// The part of the combined alphabet that data can use: literals 0..=255, the
/// end-of-block code 256 and the length codes 257..=285.
pub const NUM_USED_LITERALS_AND_LENGTHS: usize = 286;

/// Size of the distance alphabet.
pub const NUM_DISTANCE_CODES: usize = 30;

/// Index of the end-of-block code in the combined alphabet.
pub const END_OF_BLOCK_POSITION: usize = 256;

/// Shortest and longest match lengths the format can express.
pub const MIN_MATCH: u16 = 3;
pub const MAX_MATCH: u16 = 258;

/// Longest match distance the format can express.
pub const MAX_DISTANCE: u16 = 32768;

pub open spec fn is_valid_length(length: int) -> bool {
    MIN_MATCH <= length <= MAX_MATCH
}

pub open spec fn is_valid_distance(distance: int) -> bool {
    1 <= distance <= MAX_DISTANCE
}

/// The length code of a valid match length, by the table of RFC 1951 3.2.5:
/// each group of four codes shares a number of extra bits, and each code
/// covers `2^extra` consecutive lengths; 258 has a code of its own.
pub open spec fn length_code(length: int) -> int {
    if length <= 10 {
        length + 254
    } else if length <= 18 {
        265 + (length - 11) / 2
    } else if length <= 34 {
        269 + (length - 19) / 4
    } else if length <= 66 {
        273 + (length - 35) / 8
    } else if length <= 130 {
        277 + (length - 67) / 16
    } else if length <= 257 {
        281 + (length - 131) / 32
    } else {
        285
    }
}

/// The distance code of a valid distance, by the table of RFC 1951 3.2.5:
/// codes 0..=3 stand for distances 1..=4, and from there each pair of codes
/// covers a range twice as wide as the pair before it.
pub open spec fn distance_code(distance: int) -> int {
    if distance <= 4 {
        distance - 1
    } else if distance <= 8 {
        4 + (distance - 5) / 2
    } else if distance <= 16 {
        6 + (distance - 9) / 4
    } else if distance <= 32 {
        8 + (distance - 17) / 8
    } else if distance <= 64 {
        10 + (distance - 33) / 16
    } else if distance <= 128 {
        12 + (distance - 65) / 32
    } else if distance <= 256 {
        14 + (distance - 129) / 64
    } else if distance <= 512 {
        16 + (distance - 257) / 128
    } else if distance <= 1024 {
        18 + (distance - 513) / 256
    } else if distance <= 2048 {
        20 + (distance - 1025) / 512
    } else if distance <= 4096 {
        22 + (distance - 2049) / 1024
    } else if distance <= 8192 {
        24 + (distance - 4097) / 2048
    } else if distance <= 16384 {
        26 + (distance - 8193) / 4096
    } else {
        28 + (distance - 16385) / 8192
    }
}

/// Valid lengths map into the length codes 257..=285, and valid distances
/// into the distance codes 0..=29.
pub proof fn lemma_code_ranges(length: int, distance: int)
    ensures
        is_valid_length(length) ==> 257 <= length_code(length) <= 285,
        is_valid_distance(distance) ==> 0 <= distance_code(distance) < NUM_DISTANCE_CODES,
{
}

/// Start, width and first code of the length group that starts at `base`.
spec fn is_length_group(base: int, step: int, code: int) -> bool {
    ||| base == 11 && step == 2 && code == 265
    ||| base == 19 && step == 4 && code == 269
    ||| base == 35 && step == 8 && code == 273
    ||| base == 67 && step == 16 && code == 277
    ||| base == 131 && step == 32 && code == 281
}

/// Returns the length code of `length`, or `None` when the format cannot
/// express a match of that length.
pub fn get_length_code(length: u16) -> (r: Option<usize>)
    ensures
        r == (if is_valid_length(length as int) {
            Some(length_code(length as int) as usize)
        } else {
            None::<usize>
        }),
{
    if length < MIN_MATCH || length > MAX_MATCH {
        return None;
    }
    if length <= 10 {
        return Some(length as usize + 254);
    }
    if length == MAX_MATCH {
        return Some(285);
    }
    // Walk the groups of four codes, each twice as wide as the one before.
    let mut base: u16 = 11;
    let mut step: u16 = 2;
    let mut code: usize = 265;
    while length >= base + 4 * step
        invariant
            is_length_group(base as int, step as int, code as int),
            base <= length <= 257,
        decreases 258 - base,
    {
        base = base + 4 * step;
        step = step * 2;
        code = code + 4;
    }
    Some(code + ((length - base) / step) as usize)
}

/// Start, width and first code of the pair of distance codes that starts at `base`.
spec fn is_distance_group(base: int, step: int, code: int) -> bool {
    ||| base == 5 && step == 2 && code == 4
    ||| base == 9 && step == 4 && code == 6
    ||| base == 17 && step == 8 && code == 8
    ||| base == 33 && step == 16 && code == 10
    ||| base == 65 && step == 32 && code == 12
    ||| base == 129 && step == 64 && code == 14
    ||| base == 257 && step == 128 && code == 16
    ||| base == 513 && step == 256 && code == 18
    ||| base == 1025 && step == 512 && code == 20
    ||| base == 2049 && step == 1024 && code == 22
    ||| base == 4097 && step == 2048 && code == 24
    ||| base == 8193 && step == 4096 && code == 26
    ||| base == 16385 && step == 8192 && code == 28
}

/// Returns the distance code of `distance`, or `None` when the format cannot
/// express a match at that distance.
pub fn get_distance_code(distance: u16) -> (r: Option<u8>)
    ensures
        r == (if is_valid_distance(distance as int) {
            Some(distance_code(distance as int) as u8)
        } else {
            None::<u8>
        }),
{
    if distance == 0 || distance > MAX_DISTANCE {
        return None;
    }
    if distance <= 4 {
        return Some((distance - 1) as u8);
    }
    // Walk the pairs of codes, each twice as wide as the one before.
    let mut base: u16 = 5;
    let mut step: u16 = 2;
    let mut code: u8 = 4;
    while base <= 16384 && distance >= base + 2 * step
        invariant
            is_distance_group(base as int, step as int, code as int),
            base <= distance <= MAX_DISTANCE,
        decreases 32768 - base,
    {
        base = base + 2 * step;
        step = step * 2;
        code = code + 2;
    }
    Some(code + ((distance - base) / step) as u8)
}

} // verus!
