use fwx::verify::{
    cpio, cramfs, crc32, crc32_jffs2, crc32_update, der, dtb, ext, gzip, hex_byte, hex_swap,
    intel_hex, jffs2, lz4, lzma, macho, matches_at, parse_octal, pe, squashfs, srecord, tar,
    thin_macho, trx, u16_be, u16_le, u32_be, u32_le, u64_le, uimage, zip, zlib, zstd,
};

#[test]
fn crc32_known_vector() {
    // The canonical CRC-32 check value.
    assert_eq!(crc32(b"123456789"), 0xCBF4_3926);
}

#[test]
fn gzip_header() {
    let good = [0x1F, 0x8B, 0x08, 0x00, 0, 0, 0, 0, 0x00, 0x03];
    assert!(gzip(&good));
    let bad_cm = [0x1F, 0x8B, 0x07, 0x00, 0, 0, 0, 0, 0x00, 0x03];
    assert!(!gzip(&bad_cm));
    let bad_flg = [0x1F, 0x8B, 0x08, 0xE0, 0, 0, 0, 0, 0x00, 0x03];
    assert!(!gzip(&bad_flg));
}

#[test]
fn zlib_header() {
    assert!(zlib(&[0x78, 0x9C])); // default compression
    assert!(zlib(&[0x78, 0x01])); // fastest
    assert!(zlib(&[0x78, 0xDA])); // best
    assert!(!zlib(&[0x78, 0x00])); // fails the %31 rule
    assert!(!zlib(&[0x79, 0x9C])); // CM != 8 pattern
}

#[test]
fn intel_hex_records() {
    assert!(intel_hex(b":00000001FF")); // EOF record
    assert!(intel_hex(b":0300300002337A1E")); // data record w/ checksum
    assert!(!intel_hex(b":00000001FE")); // corrupted checksum
    assert!(!intel_hex(b":00000009F7")); // undefined record type
}

#[test]
fn srecord_records() {
    assert!(srecord(b"S0030000FC")); // header record
    assert!(srecord(b"S9030000FC")); // termination record
    assert!(!srecord(b"S0030000FB")); // corrupted checksum
    assert!(!srecord(b"S4030000FC")); // S4 undefined
}

#[test]
fn tar_header_checksum() {
    let mut hdr = vec![0u8; 512];
    hdr[..5].copy_from_slice(b"hello");
    // compute checksum with field as spaces
    hdr[148..156].fill(b' ');
    let sum: u32 = hdr.iter().map(|&b| u32::from(b)).sum();
    let field = format!("{:06o}\0 ", sum);
    hdr[148..156].copy_from_slice(field.as_bytes());
    assert!(tar(&hdr));
    hdr[0] ^= 0xFF; // corrupt a byte
    assert!(!tar(&hdr));
}

#[test]
fn jffs2_node() {
    // Build a cleanmarker node: magic, nodetype 0x2003, totlen 12, then CRC.
    let mut node = Vec::new();
    node.extend_from_slice(&0x1985u16.to_le_bytes());
    node.extend_from_slice(&0x2003u16.to_le_bytes());
    node.extend_from_slice(&12u32.to_le_bytes());
    let crc = crc32_jffs2(&node);
    node.extend_from_slice(&crc.to_le_bytes());
    assert!(jffs2(&node));
    node[3] ^= 0xFF;
    assert!(!jffs2(&node));
}

#[test]
fn uimage_header_crc() {
    let mut hdr = [0u8; 64];
    hdr[..4].copy_from_slice(&[0x27, 0x05, 0x19, 0x56]);
    hdr[32] = 5; // arbitrary field content
    let crc = crc32(&hdr); // hcrc field currently zero
    hdr[4..8].copy_from_slice(&crc.to_be_bytes());
    assert!(uimage(&hdr));
    hdr[32] = 6;
    assert!(!uimage(&hdr));
}

#[test]
fn der_lengths() {
    assert!(der(&[0x30, 0x03, 0x02, 0x01, 0x05])); // SEQUENCE { INTEGER 5 }
    assert!(!der(&[0x30, 0x80])); // indefinite length
    assert!(!der(&[0x30, 0x81, 0x05])); // non-minimal long form
    assert!(!der(&[0x30, 0x05, 0x02])); // declared length overruns data
    assert!(der(&[0x30, 0x81, 0x80 /* len=128 */]
        .iter()
        .copied()
        .chain(std::iter::repeat(0u8).take(128))
        .collect::<Vec<_>>()
        .as_slice()));
}

#[test]
fn cpio_ascii() {
    let mut newc = b"070701".to_vec();
    newc.extend_from_slice(&[b'0'; 104]);
    assert!(cpio(&newc));
    newc[10] = b'X';
    assert!(!cpio(&newc));
}

#[test]
fn lz4_descriptor() {
    // magic + FLG(version=01) + BD(block max size = 4) + dummy HC byte
    assert!(lz4(&[0x04, 0x22, 0x4D, 0x18, 0b0100_0000, 0b0100_0000, 0x00]));
    // reserved FLG bit set
    assert!(!lz4(&[0x04, 0x22, 0x4D, 0x18, 0b0100_0010, 0b0100_0000, 0x00]));
    // invalid block max size (3)
    assert!(!lz4(&[0x04, 0x22, 0x4D, 0x18, 0b0100_0000, 0b0011_0000, 0x00]));
}

#[test]
fn fat_macho_vs_java_class() {
    // Fat Mach-O: 2 arches, first is arm64
    let mut fat = Vec::new();
    fat.extend_from_slice(&0xCAFE_BABEu32.to_be_bytes());
    fat.extend_from_slice(&2u32.to_be_bytes());
    for cpu in [0x0100_000Cu32, 0x0100_0007] {
        fat.extend_from_slice(&cpu.to_be_bytes());
        fat.extend_from_slice(&[0u8; 16]);
    }
    assert!(macho(&fat));
    // Java class file: CAFEBABE, minor 0, major 52 (Java 8)
    let mut class = Vec::new();
    class.extend_from_slice(&0xCAFE_BABEu32.to_be_bytes());
    class.extend_from_slice(&[0x00, 0x00, 0x00, 0x34]);
    class.extend_from_slice(&[0u8; 40]);
    assert!(!macho(&class));
}
