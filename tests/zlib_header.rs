use deflate_tokens::zlib::{add_fcheck, write_zlib_header, CompressionLevel, DEFAULT_CMF, DEFAULT_FDICT};

#[test]
fn test_gen_fcheck() {
    let cmf = DEFAULT_CMF;
    let flg = add_fcheck(DEFAULT_CMF, CompressionLevel::Default as u8 | DEFAULT_FDICT);
    assert_eq!(((usize::from(cmf) * 256) + usize::from(flg)) % 31, 0);
}

fn header(level: CompressionLevel) -> Vec<u8> {
    let mut out = Vec::new();
    write_zlib_header(level, &mut out);
    out
}

#[test]
fn headers_of_each_level() {
    assert_eq!(header(CompressionLevel::Fastest), vec![0x78, 0x01]);
    assert_eq!(header(CompressionLevel::Fast), vec![0x78, 0x5E]);
    assert_eq!(header(CompressionLevel::Default), vec![0x78, 0x9C]);
    assert_eq!(header(CompressionLevel::Maximum), vec![0x78, 0xDA]);
}

#[test]
fn headers_are_multiples_of_31() {
    for level in [
        CompressionLevel::Fastest,
        CompressionLevel::Fast,
        CompressionLevel::Default,
        CompressionLevel::Maximum,
    ] {
        let h = header(level);
        assert_eq!(h.len(), 2);
        assert_eq!((usize::from(h[0]) * 256 + usize::from(h[1])) % 31, 0);
        assert_eq!(h[1] & 0b0010_0000, 0);
    }
}

#[test]
fn header_built_twice_is_identical() {
    assert_eq!(header(CompressionLevel::Fast), header(CompressionLevel::Fast));
    assert_eq!(header(CompressionLevel::Maximum), header(CompressionLevel::Maximum));
}

#[test]
fn header_is_appended_after_existing_bytes() {
    let mut out = vec![1u8, 2];
    write_zlib_header(CompressionLevel::Default, &mut out);
    assert_eq!(out, vec![1, 2, 0x78, 0x9C]);
}

#[test]
fn fcheck_ignores_previous_check_bits() {
    assert_eq!(add_fcheck(0x78, 0x80), 0x9C);
    assert_eq!(add_fcheck(0x78, 0x9C), 0x9C);
    assert_eq!(add_fcheck(0x78, 0x9F), 0x9C);
    assert_eq!(add_fcheck(0x78, 0x02), 0x01);
}

#[test]
fn fcheck_when_remainder_is_zero() {
    // 0x08 * 256 + 0xE0 = 2272 = 31 * 73 + 9; 0x1F * 256 = 7936 = 31 * 256.
    assert_eq!(add_fcheck(0x1F, 0x00), 0x1F);
    assert_eq!((0x1Fusize * 256 + 0x1F) % 31, 0);
    assert_eq!(add_fcheck(0x08, 0xE0), 0xE0 + 22);
}
