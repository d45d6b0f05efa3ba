use fwx::type_identify::{identify, magic_numbers, Category, Check, FileType, run_check};

#[test]
fn identifies_gzip_at_offset() {
    let mut blob = vec![0u8; 64];
    blob.extend_from_slice(&[0x1f, 0x8b, 0x08, 0x00]);
    assert_eq!(identify(&blob, 64), Some(FileType::Gzip));
}

#[test]
fn ext_magic_is_offset_relative() {
    let mut blob = vec![0u8; 0x500];
    blob[0x438] = 0x53;
    blob[0x439] = 0xef;
    assert_eq!(identify(&blob, 0), Some(FileType::Ext));
}

#[test]
fn display_matches_old_strings() {
    assert_eq!(FileType::SquashFs.to_string(), "SquashFS");
    assert_eq!(
        FileType::DeviceTreeBlob.to_string(),
        "Flattened Device Tree Blob (FDTB)"
    );
}

#[test]
fn identify_misses_and_overflow() {
    let blob = vec![0u8; 16];
    assert_eq!(identify(&blob, 0), None);
    assert_eq!(identify(&blob, 100), None);
    assert_eq!(identify(b"\x1f\x8b\x08", usize::MAX - 1), None);
}

#[test]
fn identify_table_order() {
    // "S1" is an S-record magic; the Tar row comes later and needs offset 257.
    assert_eq!(identify(b"S1xx", 0), Some(FileType::SRecord));
    // A colon wins for Intel HEX even though later rows could also match.
    assert_eq!(identify(b":PK\x03\x04", 0), Some(FileType::IntelHex));
    assert_eq!(identify(b":PK\x03\x04", 1), Some(FileType::Zip));
    let mut t = vec![0u8; 300];
    t[257..263].copy_from_slice(b"ustar ");
    assert_eq!(identify(&t, 0), Some(FileType::Tar));
}

#[test]
fn categories_and_weakness() {
    assert_eq!(FileType::Gzip.category(), Category::Compression);
    assert_eq!(FileType::Pem.category(), Category::Crypto);
    assert_eq!(FileType::Iso9660.category(), Category::Filesystem);
    assert!(FileType::DerAsn1.is_weak_signature());
    assert!(!FileType::Elf.is_weak_signature());
    assert!(!FileType::Pem.is_weak_signature());
    assert_eq!(FileType::MachOUniversal.name(), "Mach-O Universal Binary");
}

#[test]
fn table_rows() {
    let t = magic_numbers();
    assert_eq!(t.len(), 29);
    assert_eq!(t[0].filetype, FileType::UBootUImage);
    assert_eq!(t[16].patterns, vec![(0x438usize, vec![0x53u8, 0xef])]);
    assert!(t.iter().all(|m| m.validate.is_none()));
}

#[test]
fn checks_dispatch() {
    assert!(run_check(Check::Zlib, &[0x78, 0x9C]));
    assert!(!run_check(Check::Gzip, &[0x78, 0x9C]));
}

#[test]
fn offsets_at_or_past_the_end_find_nothing() {
    let blob = [0x1f, 0x8b, 0x08, 0x00];
    assert_eq!(identify(&blob, 0), Some(FileType::Gzip));
    assert_eq!(identify(&blob, blob.len()), None);
    assert_eq!(identify(&blob, blob.len() + 7), None);
    assert_eq!(identify(&[], 0), None);
}
