use fwx::verify::{
    cpio, cramfs, crc32, crc32_jffs2, crc32_update, der, dtb, ext, hex_byte, hex_swap, lzma, macho,
    matches_at, parse_octal, pe, squashfs, tar, thin_macho, trx, u16_be, u16_le, u32_be, u32_le,
    u64_le, zip, zstd,
};

#[test]
fn readers_pick_byte_order() {
    let d = [0x01, 0x02, 0x03, 0x04, 0x05, 0x06, 0x07, 0x08, 0x09];
    assert_eq!(u16_le(&d, 0), Some(0x0201));
    assert_eq!(u16_be(&d, 0), Some(0x0102));
    assert_eq!(u32_le(&d, 1), Some(0x0504_0302));
    assert_eq!(u32_be(&d, 1), Some(0x0203_0405));
    assert_eq!(u64_le(&d, 1), Some(0x0908_0706_0504_0302));
    assert_eq!(u16_le(&d, 8), None);
    assert_eq!(u32_be(&d, 6), None);
    assert_eq!(u64_le(&d, 2), None);
    assert_eq!(u16_le(&d, usize::MAX), None);
}

#[test]
fn crc_is_incremental() {
    let whole = crc32_update(0xFFFF_FFFF, b"123456789");
    let split = crc32_update(crc32_update(0xFFFF_FFFF, b"1234"), b"56789");
    assert_eq!(whole, split);
    assert_eq!(crc32(b""), 0);
    assert_eq!(crc32_jffs2(b""), 0);
    assert_eq!(crc32_jffs2(b"123456789"), crc32_update(0, b"123456789"));
}

#[test]
fn hex_digits() {
    assert_eq!(hex_swap(b'0'), Some(0));
    assert_eq!(hex_swap(b'a'), Some(10));
    assert_eq!(hex_swap(b'F'), Some(15));
    assert_eq!(hex_swap(b'g'), None);
    assert_eq!(hex_byte(b"1Fa0", 0), Some(0x1F));
    assert_eq!(hex_byte(b"1Fa0", 1), Some(0xA0));
    assert_eq!(hex_byte(b"1Fa", 1), None);
    assert_eq!(hex_byte(b"1Z", 0), None);
}

#[test]
fn octal_fields() {
    assert_eq!(parse_octal(b"0000644\0"), Some(0o644));
    assert_eq!(parse_octal(b"  17 x"), Some(0o17));
    assert_eq!(parse_octal(b"      \0 "), None);
    assert_eq!(parse_octal(b"12x"), None);
    assert_eq!(parse_octal(b"8"), None);
    assert_eq!(parse_octal(b"37777777777"), Some(u32::MAX));
    assert_eq!(parse_octal(b"40000000000"), None);
}

#[test]
fn tar_posix_header() {
    let mut hdr = vec![0u8; 512];
    hdr[257..263].copy_from_slice(b"ustar\0");
    hdr[148..156].fill(b' ');
    let sum: u32 = hdr.iter().map(|&b| u32::from(b)).sum();
    hdr[148..156].copy_from_slice(format!("{:06o}\0 ", sum).as_bytes());
    assert!(tar(&hdr));
    hdr[257] = b'X';
    assert!(!tar(&hdr));
    assert!(!tar(&hdr[..511]));
}

#[test]
fn lzma_header_fields() {
    let mut h = vec![0x5D, 0x00, 0x00, 0x80, 0x00];
    h.extend_from_slice(&u64::MAX.to_le_bytes());
    assert!(lzma(&h));
    h[0] = 225;
    assert!(!lzma(&h));
    h[0] = 0x5D;
    h[5..13].copy_from_slice(&(1u64 << 34).to_le_bytes());
    assert!(!lzma(&h));
    assert!(!lzma(&h[..12]));
}

#[test]
fn zstd_window() {
    assert!(zstd(&[0x28, 0xB5, 0x2F, 0xFD, 0x20]));
    assert!(zstd(&[0x28, 0xB5, 0x2F, 0xFD, 0x00, 0x00]));
    assert!(!zstd(&[0x28, 0xB5, 0x2F, 0xFD, 0x00]));
    assert!(!zstd(&[0x28, 0xB5, 0x2F, 0xFD, 0x08, 0x00]));
    assert!(zstd(&[0x28, 0xB5, 0x2F, 0xFD, 0x00, 0xF8])); // exponent 31: window log 41, the maximum
}

#[test]
fn zip_local_header() {
    let mut h = vec![0u8; 30];
    h[..4].copy_from_slice(b"PK\x03\x04");
    h[4] = 0x14;
    h[8] = 8;
    assert!(zip(&h));
    h[26] = 1;
    assert!(!zip(&h)); // name runs past the data
    h.push(b'a');
    assert!(zip(&h));
    h[8] = 7;
    assert!(!zip(&h)); // unregistered method
}

#[test]
fn ext_superblock() {
    let mut fs = vec![0u8; 2048];
    fs[1024] = 1;
    fs[1028] = 1;
    fs[1064] = 1;
    fs[1048] = 2;
    fs[1080] = 0x53;
    fs[1081] = 0xEF;
    assert!(ext(&fs));
    fs[1048] = 7;
    assert!(!ext(&fs));
}

#[test]
fn squashfs_superblock() {
    let mut sb = vec![0u8; 96];
    sb[..4].copy_from_slice(b"hsqs");
    sb[12..16].copy_from_slice(&(1u32 << 17).to_le_bytes());
    sb[22..24].copy_from_slice(&17u16.to_le_bytes());
    sb[28..30].copy_from_slice(&4u16.to_le_bytes());
    assert!(squashfs(&sb));
    sb[12..16].copy_from_slice(&(1u32 << 16).to_le_bytes());
    assert!(!squashfs(&sb));
    let mut be = vec![0u8; 96];
    be[..4].copy_from_slice(b"sqsh");
    be[28..30].copy_from_slice(&3u16.to_be_bytes());
    assert!(squashfs(&be));
}

#[test]
fn cramfs_signature() {
    let mut img = vec![0u8; 64];
    img[16..32].copy_from_slice(b"Compressed ROMFS");
    assert!(cramfs(&img));
    assert!(!cramfs(&img[..31]));
    img[20] = b'X';
    assert!(!cramfs(&img));
}

#[test]
fn trx_partitions() {
    let mut h = vec![0u8; 64];
    h[..4].copy_from_slice(b"HDR0");
    h[4..8].copy_from_slice(&64u32.to_le_bytes());
    h[12..16].copy_from_slice(&(1u32 << 16).to_le_bytes());
    h[16..20].copy_from_slice(&28u32.to_le_bytes());
    assert!(trx(&h));
    h[20..24].copy_from_slice(&64u32.to_le_bytes());
    assert!(!trx(&h));
}

#[test]
fn dtb_header() {
    let mut h = Vec::new();
    for v in [0xD00D_FEEDu32, 100, 40, 60, 40, 17, 16] {
        h.extend_from_slice(&v.to_be_bytes());
    }
    assert!(dtb(&h));
    h[20..24].copy_from_slice(&15u32.to_be_bytes());
    assert!(!dtb(&h));
}

#[test]
fn pe_header_chain() {
    let mut img = vec![0u8; 0x100];
    img[..2].copy_from_slice(b"MZ");
    img[0x3C..0x40].copy_from_slice(&0x80u32.to_le_bytes());
    img[0x80..0x84].copy_from_slice(b"PE\0\0");
    img[0x84..0x86].copy_from_slice(&0x8664u16.to_le_bytes());
    img[0x94..0x96].copy_from_slice(&0xF0u16.to_le_bytes());
    img[0x98..0x9A].copy_from_slice(&0x020Bu16.to_le_bytes());
    assert!(pe(&img));
    img[0x98] = 0;
    assert!(!pe(&img));
    img[0x94] = 0;
    assert!(pe(&img));
    img[0x3C] = 0x10;
    assert!(!pe(&img));
}

#[test]
fn thin_macho_header() {
    let mut h = Vec::new();
    for v in [0xFEED_FACFu32, 0x0100_000C, 0, 2, 12] {
        h.extend_from_slice(&v.to_be_bytes());
    }
    assert!(thin_macho(&h, true));
    assert!(macho(&h));
    let le: Vec<u8> = [0xFEED_FACFu32, 0x0100_000C, 0, 2, 12]
        .iter()
        .flat_map(|v| v.to_le_bytes())
        .collect();
    assert!(macho(&le));
    assert!(!thin_macho(&h, false));
}

#[test]
fn der_long_forms() {
    assert!(!der(&[0x30, 0x00]));
    assert!(!der(&[0x30, 0x85, 1, 0, 0, 0, 0]));
    assert!(!der(&[0x30, 0x82, 0x00, 0x80]));
    let mut v = vec![0x30, 0x82, 0x01, 0x00];
    v.extend(std::iter::repeat(0u8).take(256));
    assert!(der(&v));
    assert!(!der(&v[..259]));
}

#[test]
fn pattern_compare() {
    assert!(matches_at(b"xxPK", 2, b"PK"));
    assert!(!matches_at(b"xxPK", 3, b"PK"));
    assert!(!matches_at(b"xxPK", 9, b""));
    assert!(matches_at(b"xxPK", 4, b""));
}

#[test]
fn jffs2_big_endian_node() {
    let mut node = Vec::new();
    node.extend_from_slice(&0x1985u16.to_be_bytes());
    node.extend_from_slice(&0xE002u16.to_be_bytes());
    node.extend_from_slice(&68u32.to_be_bytes());
    let crc = fwx::verify::crc32_jffs2(&node);
    node.extend_from_slice(&crc.to_be_bytes());
    assert!(fwx::verify::jffs2(&node));
    node[11] ^= 1;
    assert!(!fwx::verify::jffs2(&node));
}

#[test]
fn cpio_old_portable_needs_sixty_six_octal_digits() {
    let mut odc = b"070707".to_vec();
    odc.extend_from_slice(&[b'7'; 66]);
    assert_eq!(odc.len(), 72);
    assert!(cpio(&odc));
    assert!(!cpio(&odc[..71]));
    odc[40] = b'8';
    assert!(!cpio(&odc));
}

#[test]
fn octal_field_layout() {
    assert_eq!(parse_octal(b"\0 17 x"), Some(15));
    assert_eq!(parse_octal(b"  0644"), Some(0o644));
    assert_eq!(parse_octal(b"0644x"), None);
    assert_eq!(parse_octal(b"37777777777"), Some(u32::MAX));
    assert_eq!(parse_octal(b"40000000000"), None);
}
