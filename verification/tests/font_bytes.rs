use blitz_dom::font_bytes::{decode_font_bytes, font_container, FontBytes, FontContainer};

/// A WOFF 1.0 file holding one uncompressed four-byte table `test`.
fn tiny_woff1() -> Vec<u8> {
    let mut v = Vec::new();
    v.extend_from_slice(b"wOFF");
    v.extend_from_slice(&0x0001_0000u32.to_be_bytes()); // flavor
    v.extend_from_slice(&68u32.to_be_bytes()); // length
    v.extend_from_slice(&1u16.to_be_bytes()); // numTables
    v.extend_from_slice(&0u16.to_be_bytes()); // reserved
    v.extend_from_slice(&32u32.to_be_bytes()); // totalSfntSize
    v.extend_from_slice(&1u16.to_be_bytes()); // majorVersion
    v.extend_from_slice(&0u16.to_be_bytes()); // minorVersion
    for _ in 0..5 {
        v.extend_from_slice(&0u32.to_be_bytes()); // meta and private blocks
    }
    assert_eq!(v.len(), 44);
    v.extend_from_slice(b"test");
    v.extend_from_slice(&64u32.to_be_bytes()); // offset
    v.extend_from_slice(&4u32.to_be_bytes()); // compLength
    v.extend_from_slice(&4u32.to_be_bytes()); // origLength
    v.extend_from_slice(&0u32.to_be_bytes()); // origChecksum
    v.extend_from_slice(b"ABCD");
    v
}

#[test]
fn short_input_passes_through() {
    let bytes = [0x77u8, 0x4F, 0x46];
    assert_eq!(font_container(&bytes), FontContainer::Plain);
    match decode_font_bytes(&bytes) {
        FontBytes::Borrowed(b) => assert_eq!(b, &bytes[..]),
        FontBytes::Owned(_) => panic!("expected the input back"),
    }
}

#[test]
fn plain_fonts_pass_through() {
    let bytes = [0x00u8, 0x01, 0x00, 0x00, 0x00, 0x05];
    assert_eq!(font_container(&bytes), FontContainer::Plain);
    assert!(matches!(decode_font_bytes(&bytes), FontBytes::Borrowed(b) if b == &bytes[..]));
    let otf = b"OTTO rest";
    assert!(matches!(decode_font_bytes(otf), FontBytes::Borrowed(b) if b == &otf[..]));
}

#[test]
fn signatures_are_recognised() {
    assert_eq!(font_container(b"wOFFxx"), FontContainer::Woff1);
    assert_eq!(font_container(b"wOF2"), FontContainer::Woff2);
    assert_eq!(font_container(b"wOF3"), FontContainer::Plain);
    assert_eq!(font_container(b"WOFF"), FontContainer::Plain);
}

#[test]
fn broken_woff_falls_back_to_the_input() {
    let woff1 = b"wOFF this is not a font";
    assert!(matches!(decode_font_bytes(woff1), FontBytes::Borrowed(b) if b == &woff1[..]));
    let woff2 = b"wOF2 neither is this";
    assert!(matches!(decode_font_bytes(woff2), FontBytes::Borrowed(b) if b == &woff2[..]));
}

#[test]
fn woff1_is_decompressed() {
    let woff = tiny_woff1();
    let decoded = decode_font_bytes(&woff);
    let mut expected = Vec::new();
    expected.extend_from_slice(&0x0001_0000u32.to_be_bytes());
    expected.extend_from_slice(&[0, 1, 0, 16, 0, 0, 0, 0]);
    expected.extend_from_slice(b"test");
    expected.extend_from_slice(&[0, 0, 0, 0, 0, 0, 0, 28, 0, 0, 0, 4]);
    expected.extend_from_slice(b"ABCD");
    match &decoded {
        FontBytes::Owned(v) => assert_eq!(v, &expected),
        FontBytes::Borrowed(_) => panic!("expected a decompressed font"),
    }
    assert_eq!(decoded.as_slice(), &expected[..]);
}

/// A WOFF 2.0 file holding one four-byte table `test`, stored in an
/// uncompressed Brotli meta-block.
fn tiny_woff2() -> Vec<u8> {
    let mut v = Vec::new();
    v.extend_from_slice(b"wOF2");
    v.extend_from_slice(&0x0001_0000u32.to_be_bytes()); // flavor
    v.extend_from_slice(&64u32.to_be_bytes()); // length
    v.extend_from_slice(&1u16.to_be_bytes()); // numTables
    v.extend_from_slice(&0u16.to_be_bytes()); // reserved
    v.extend_from_slice(&32u32.to_be_bytes()); // totalSfntSize
    v.extend_from_slice(&8u32.to_be_bytes()); // totalCompressedSize
    v.extend_from_slice(&1u16.to_be_bytes()); // majorVersion
    v.extend_from_slice(&0u16.to_be_bytes()); // minorVersion
    for _ in 0..5 {
        v.extend_from_slice(&0u32.to_be_bytes()); // meta and private blocks
    }
    assert_eq!(v.len(), 48);
    v.push(0x3F); // flags: tag follows, null transform
    v.extend_from_slice(b"test");
    v.push(4); // origLength
    // Brotli: window bits, one uncompressed meta-block of four bytes, last empty block.
    v.extend_from_slice(&[0x30, 0x00, 0x10, b'A', b'B', b'C', b'D', 0x03]);
    v.extend_from_slice(&[0, 0]); // padding to a multiple of four
    assert_eq!(v.len(), 64);
    v
}

#[test]
fn woff2_is_decompressed() {
    let woff = tiny_woff2();
    assert_eq!(font_container(&woff), FontContainer::Woff2);
    match decode_font_bytes(&woff) {
        FontBytes::Owned(v) => {
            assert_eq!(&v[0..4], &0x0001_0000u32.to_be_bytes());
            assert_eq!(&v[4..6], &1u16.to_be_bytes());
            assert_eq!(&v[12..16], b"test");
            assert_eq!(&v[v.len() - 4..], b"ABCD");
        }
        FontBytes::Borrowed(_) => panic!("expected a decompressed font"),
    }
}
