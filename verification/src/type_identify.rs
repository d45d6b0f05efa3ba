//! Magic-number identification of embedded file formats.
use crate::verify;
use vstd::prelude::*;

verus! {

/// The file formats recognised by their magic numbers.
#[derive(Debug, Clone, Copy, PartialEq, Eq, Hash, Structural)]
pub enum FileType {
    // Boot / firmware images
    UBootUImage,
    DeviceTreeBlob,
    AndroidBoot,
    BroadcomTrx,
    // Record formats
    IntelHex,
    SRecord,
    // Compression
    Gzip,
    Zlib,
    Bzip2,
    Xz,
    Lzma,
    Lz4,
    Lzop,
    Zstd,
    // Filesystems
    SquashFs,
    CramFs,
    Jffs2,
    UbiEc,
    Ubifs,
    RomFs,
    Ext,
    Iso9660,
    // Archives
    Tar,
    Zip,
    SevenZ,
    Cpio,
    Ar,
    // Executables
    Elf,
    PeCoff,
    MachO,
    MachOUniversal,
    // Certificates / keys
    DerAsn1,
    Pem,
}

/// Broad family of a file type.
#[derive(Debug, Clone, Copy, PartialEq, Eq, Structural)]
pub enum Category {
    Firmware,
    Record,
    Compression,
    Filesystem,
    Archive,
    Executable,
    Crypto,
}

/// A structural check that can confirm a magic-number hit: each names one
/// of the verifiers of `crate::verify`.
#[derive(Debug, Clone, Copy, PartialEq, Eq, Structural)]
pub enum Check {
    Gzip,
    Zlib,
    Lzma,
    Lz4,
    Zstd,
    Tar,
    IntelHex,
    SRecord,
    Cpio,
    Zip,
    Jffs2,
    Ext,
    SquashFs,
    CramFs,
    UImage,
    Trx,
    Dtb,
    Pe,
    MachO,
    Der,
}

/// What a check says of the bytes it is given.
pub open spec fn spec_check(c: Check, d: Seq<u8>) -> bool {
    match c {
        Check::Gzip => verify::spec_gzip(d),
        Check::Zlib => verify::spec_zlib(d),
        Check::Lzma => verify::spec_lzma(d),
        Check::Lz4 => verify::spec_lz4(d),
        Check::Zstd => verify::spec_zstd(d),
        Check::Tar => verify::spec_tar(d),
        Check::IntelHex => verify::spec_intel_hex(d),
        Check::SRecord => verify::spec_srecord(d),
        Check::Cpio => verify::spec_cpio(d),
        Check::Zip => verify::spec_zip(d),
        Check::Jffs2 => verify::spec_jffs2(d),
        Check::Ext => verify::spec_ext(d),
        Check::SquashFs => verify::spec_squashfs(d),
        Check::CramFs => verify::spec_cramfs(d),
        Check::UImage => verify::spec_uimage(d),
        Check::Trx => verify::spec_trx(d),
        Check::Dtb => verify::spec_dtb(d),
        Check::Pe => verify::spec_pe(d),
        Check::MachO => verify::spec_macho(d),
        Check::Der => verify::spec_der(d),
    }
}

/// Runs a check on the bytes that start at a candidate offset.
pub fn run_check(c: Check, data: &[u8]) -> (r: bool)
    ensures
        r == spec_check(c, data@),
{
    match c {
        Check::Gzip => verify::gzip(data),
        Check::Zlib => verify::zlib(data),
        Check::Lzma => verify::lzma(data),
        Check::Lz4 => verify::lz4(data),
        Check::Zstd => verify::zstd(data),
        Check::Tar => verify::tar(data),
        Check::IntelHex => verify::intel_hex(data),
        Check::SRecord => verify::srecord(data),
        Check::Cpio => verify::cpio(data),
        Check::Zip => verify::zip(data),
        Check::Jffs2 => verify::jffs2(data),
        Check::Ext => verify::ext(data),
        Check::SquashFs => verify::squashfs(data),
        Check::CramFs => verify::cramfs(data),
        Check::UImage => verify::uimage(data),
        Check::Trx => verify::trx(data),
        Check::Dtb => verify::dtb(data),
        Check::Pe => verify::pe(data),
        Check::MachO => verify::macho(data),
        Check::Der => verify::der(data),
    }
}

/// One row of the signature table: a file type, the byte patterns that
/// announce it (each at an offset relative to the candidate start), and an
/// optional structural check run on the bytes from the candidate start.
pub struct Magic {
    pub filetype: FileType,
    pub patterns: Vec<(usize, Vec<u8>)>,
    pub validate: Option<Check>,
}

/// Mathematical form of a table row.
pub type MagicView = (FileType, Seq<(usize, Seq<u8>)>, Option<Check>);

impl View for Magic {
    type V = MagicView;

    open spec fn view(&self) -> MagicView {
        (self.filetype, patterns_view(self.patterns@), self.validate)
    }
}

/// The patterns of a row, each byte vector taken by its view.
pub open spec fn patterns_view(p: Seq<(usize, Vec<u8>)>) -> Seq<(usize, Seq<u8>)> {
    p.map_values(|x: (usize, Vec<u8>)| (x.0, x.1@))
}

fn add_pattern(v: &mut Vec<(usize, Vec<u8>)>, off: usize, bytes: Vec<u8>)
    ensures
        patterns_view(final(v)@) == patterns_view(old(v)@).push((off, bytes@)),
{
    let ghost b = bytes@;
    v.push((off, bytes));
    assert(patterns_view(v@) =~= patterns_view(old(v)@).push((off, b)));
}

/// Number of rows in the signature table.
pub open spec fn magic_count() -> int {
    29
}

/// Row `i` of the signature table, in lookup order.
pub open spec fn magic_entry(i: int) -> MagicView {
    if i == 0 {
        (
            FileType::UBootUImage,
            seq![
                (0usize, seq![0x27u8, 0x05, 0x19, 0x56]),
            ],
            None,
        )
    } else if i == 1 {
        (
            FileType::DeviceTreeBlob,
            seq![
                (0usize, seq![0xD0u8, 0x0D, 0xFE, 0xED]),
            ],
            None,
        )
    } else if i == 2 {
        (
            FileType::AndroidBoot,
            seq![
                (0usize, seq![0x41u8, 0x4E, 0x44, 0x52, 0x4F, 0x49, 0x44, 0x21]),  // "ANDROID!"
            ],
            None,
        )
    } else if i == 3 {
        (
            FileType::BroadcomTrx,
            seq![
                (0usize, seq![0x48u8, 0x44, 0x52, 0x30]),  // "HDR0"
            ],
            None,
        )
    } else if i == 4 {
        (
            FileType::IntelHex,
            seq![
                (0usize, seq![0x3Au8]),
            ],
            None,
        )
    } else if i == 5 {
        (
            FileType::SRecord,
            seq![
                (0usize, seq![0x53u8, 0x30]),  // "S0"
                (0usize, seq![0x53u8, 0x31]),  // "S1"
                (0usize, seq![0x53u8, 0x33]),  // "S3"
            ],
            None,
        )
    } else if i == 6 {
        (
            FileType::Gzip,
            seq![
                (0usize, seq![0x1Fu8, 0x8B, 0x08]),
            ],
            None,
        )
    } else if i == 7 {
        (
            FileType::Zlib,
            seq![
                (0usize, seq![0x78u8, 0x01]),  // no/low compression
                (0usize, seq![0x78u8, 0x5E]),  // fast compression
                (0usize, seq![0x78u8, 0x9C]),  // default compression
                (0usize, seq![0x78u8, 0xDA]),  // best compression
            ],
            None,
        )
    } else if i == 8 {
        (
            FileType::Bzip2,
            seq![
                (0usize, seq![0x42u8, 0x5A, 0x68]),
            ],
            None,
        )
    } else if i == 9 {
        (
            FileType::Xz,
            seq![
                (0usize, seq![0xFDu8, 0x37, 0x7A, 0x58, 0x5A, 0x00]),
            ],
            None,
        )
    } else if i == 10 {
        (
            FileType::Lzma,
            seq![
                (0usize, seq![0x5Du8, 0x00, 0x00, 0x80, 0x00]),
            ],
            None,
        )
    } else if i == 11 {
        (
            FileType::Lz4,
            seq![
                (0usize, seq![0x04u8, 0x22, 0x4D, 0x18]),
            ],
            None,
        )
    } else if i == 12 {
        (
            FileType::Lzop,
            seq![
                (0usize, seq![0x89u8, 0x4C, 0x5A, 0x4F, 0x00, 0x0D, 0x0A, 0x1A, 0x0A]),
            ],
            None,
        )
    } else if i == 13 {
        (
            FileType::Zstd,
            seq![
                (0usize, seq![0x28u8, 0xB5, 0x2F, 0xFD]),
            ],
            None,
        )
    } else if i == 14 {
        (
            FileType::SquashFs,
            seq![
                (0usize, seq![0x68u8, 0x73, 0x71, 0x73]),  // "hsqs", little-endian
                (0usize, seq![0x73u8, 0x71, 0x73, 0x68]),  // "sqsh", big-endian
                (0usize, seq![0x73u8, 0x68, 0x73, 0x71]),  // "shsq", LZMA variant (DD-WRT)
                (0usize, seq![0x71u8, 0x73, 0x68, 0x73]),  // "qshs", LZMA variant alt
            ],
            None,
        )
    } else if i == 15 {
        (
            FileType::CramFs,
            seq![
                (0usize, seq![0x45u8, 0x3D, 0xCD, 0x28]),  // little-endian
                (0usize, seq![0x28u8, 0xCD, 0x3D, 0x45]),  // big-endian
            ],
            None,
        )
    } else if i == 16 {
        (
            FileType::Ext,
            seq![
                (0x438usize, seq![0x53u8, 0xEF]),
            ],
            None,
        )
    } else if i == 17 {
        (
            FileType::Iso9660,
            seq![
                (0x8001usize, seq![0x43u8, 0x44, 0x30, 0x30, 0x31]),  // "CD001"
            ],
            None,
        )
    } else if i == 18 {
        (
            FileType::Tar,
            seq![
                (0x101usize, seq![0x75u8, 0x73, 0x74, 0x61, 0x72, 0x00]),  // "ustar\0", POSIX
                (0x101usize, seq![0x75u8, 0x73, 0x74, 0x61, 0x72, 0x20]),  // "ustar ", GNU
            ],
            None,
        )
    } else if i == 19 {
        (
            FileType::Zip,
            seq![
                (0usize, seq![0x50u8, 0x4B, 0x03, 0x04]),  // local file header
                (0usize, seq![0x50u8, 0x4B, 0x05, 0x06]),  // end of central dir
                (0usize, seq![0x50u8, 0x4B, 0x07, 0x08]),  // spanned archive
            ],
            None,
        )
    } else if i == 20 {
        (
            FileType::SevenZ,
            seq![
                (0usize, seq![0x37u8, 0x7A, 0xBC, 0xAF, 0x27, 0x1C]),
            ],
            None,
        )
    } else if i == 21 {
        (
            FileType::Cpio,
            seq![
                (0usize, seq![0x30u8, 0x37, 0x30, 0x37, 0x30, 0x31]),  // "070701", newc (no CRC)
                (0usize, seq![0x30u8, 0x37, 0x30, 0x37, 0x30, 0x32]),  // "070702", newc (CRC)
                (0usize, seq![0xC7u8, 0x71]),  // binary little-endian
                (0usize, seq![0x71u8, 0xC7]),  // binary big-endian
            ],
            None,
        )
    } else if i == 22 {
        (
            FileType::Ar,
            seq![
                (0usize, seq![0x21u8, 0x3C, 0x61, 0x72, 0x63, 0x68, 0x3E, 0x0A]),  // "!<arch>\n"
            ],
            None,
        )
    } else if i == 23 {
        (
            FileType::Elf,
            seq![
                (0usize, seq![0x7Fu8, 0x45, 0x4C, 0x46]),  // "\x7fELF"
            ],
            None,
        )
    } else if i == 24 {
        (
            FileType::PeCoff,
            seq![
                (0usize, seq![0x4Du8, 0x5A]),  // "MZ"
            ],
            None,
        )
    } else if i == 25 {
        (
            FileType::MachO,
            seq![
                (0usize, seq![0xFEu8, 0xED, 0xFA, 0xCE]),  // 32-bit BE
                (0usize, seq![0xCEu8, 0xFA, 0xED, 0xFE]),  // 32-bit LE
                (0usize, seq![0xFEu8, 0xED, 0xFA, 0xCF]),  // 64-bit BE
                (0usize, seq![0xCFu8, 0xFA, 0xED, 0xFE]),  // 64-bit LE
            ],
            None,
        )
    } else if i == 26 {
        (
            FileType::MachOUniversal,
            seq![
                (0usize, seq![0xCAu8, 0xFE, 0xBA, 0xBE]),
                (0usize, seq![0xBEu8, 0xBA, 0xFE, 0xCA]),
            ],
            None,
        )
    } else if i == 27 {
        (
            FileType::DerAsn1,
            seq![
                (0usize, seq![0x30u8, 0x82]),
            ],
            None,
        )
    } else if i == 28 {
        (
            FileType::Pem,
            seq![
                (0usize, seq![0x2Du8, 0x2D, 0x2D, 0x2D, 0x2D, 0x42, 0x45, 0x47, 0x49, 0x4E, 0x20]),  // "-----BEGIN "
            ],
            None,
        )
    } else {
        (FileType::Pem, seq![], None)
    }
}

fn magic_at(i: usize) -> (m: Magic)
    requires
        i < magic_count(),
    ensures
        m@ == magic_entry(i as int),
{
    let m = match i {
        0 => {
            let mut p: Vec<(usize, Vec<u8>)> = Vec::new();
            add_pattern(&mut p, 0, vec![0x27u8, 0x05, 0x19, 0x56]);
            assert(patterns_view(p@) =~~= magic_entry(0).1);
            Magic { filetype: FileType::UBootUImage, patterns: p, validate: None }
        },
        1 => {
            let mut p: Vec<(usize, Vec<u8>)> = Vec::new();
            add_pattern(&mut p, 0, vec![0xD0u8, 0x0D, 0xFE, 0xED]);
            assert(patterns_view(p@) =~~= magic_entry(1).1);
            Magic { filetype: FileType::DeviceTreeBlob, patterns: p, validate: None }
        },
        2 => {
            let mut p: Vec<(usize, Vec<u8>)> = Vec::new();
            add_pattern(&mut p, 0, vec![0x41u8, 0x4E, 0x44, 0x52, 0x4F, 0x49, 0x44, 0x21]);
            assert(patterns_view(p@) =~~= magic_entry(2).1);
            Magic { filetype: FileType::AndroidBoot, patterns: p, validate: None }
        },
        3 => {
            let mut p: Vec<(usize, Vec<u8>)> = Vec::new();
            add_pattern(&mut p, 0, vec![0x48u8, 0x44, 0x52, 0x30]);
            assert(patterns_view(p@) =~~= magic_entry(3).1);
            Magic { filetype: FileType::BroadcomTrx, patterns: p, validate: None }
        },
        4 => {
            let mut p: Vec<(usize, Vec<u8>)> = Vec::new();
            add_pattern(&mut p, 0, vec![0x3Au8]);
            assert(patterns_view(p@) =~~= magic_entry(4).1);
            Magic { filetype: FileType::IntelHex, patterns: p, validate: None }
        },
        5 => {
            let mut p: Vec<(usize, Vec<u8>)> = Vec::new();
            add_pattern(&mut p, 0, vec![0x53u8, 0x30]);
            add_pattern(&mut p, 0, vec![0x53u8, 0x31]);
            add_pattern(&mut p, 0, vec![0x53u8, 0x33]);
            assert(patterns_view(p@) =~~= magic_entry(5).1);
            Magic { filetype: FileType::SRecord, patterns: p, validate: None }
        },
        6 => {
            let mut p: Vec<(usize, Vec<u8>)> = Vec::new();
            add_pattern(&mut p, 0, vec![0x1Fu8, 0x8B, 0x08]);
            assert(patterns_view(p@) =~~= magic_entry(6).1);
            Magic { filetype: FileType::Gzip, patterns: p, validate: None }
        },
        7 => {
            let mut p: Vec<(usize, Vec<u8>)> = Vec::new();
            add_pattern(&mut p, 0, vec![0x78u8, 0x01]);
            add_pattern(&mut p, 0, vec![0x78u8, 0x5E]);
            add_pattern(&mut p, 0, vec![0x78u8, 0x9C]);
            add_pattern(&mut p, 0, vec![0x78u8, 0xDA]);
            assert(patterns_view(p@) =~~= magic_entry(7).1);
            Magic { filetype: FileType::Zlib, patterns: p, validate: None }
        },
        8 => {
            let mut p: Vec<(usize, Vec<u8>)> = Vec::new();
            add_pattern(&mut p, 0, vec![0x42u8, 0x5A, 0x68]);
            assert(patterns_view(p@) =~~= magic_entry(8).1);
            Magic { filetype: FileType::Bzip2, patterns: p, validate: None }
        },
        9 => {
            let mut p: Vec<(usize, Vec<u8>)> = Vec::new();
            add_pattern(&mut p, 0, vec![0xFDu8, 0x37, 0x7A, 0x58, 0x5A, 0x00]);
            assert(patterns_view(p@) =~~= magic_entry(9).1);
            Magic { filetype: FileType::Xz, patterns: p, validate: None }
        },
        10 => {
            let mut p: Vec<(usize, Vec<u8>)> = Vec::new();
            add_pattern(&mut p, 0, vec![0x5Du8, 0x00, 0x00, 0x80, 0x00]);
            assert(patterns_view(p@) =~~= magic_entry(10).1);
            Magic { filetype: FileType::Lzma, patterns: p, validate: None }
        },
        11 => {
            let mut p: Vec<(usize, Vec<u8>)> = Vec::new();
            add_pattern(&mut p, 0, vec![0x04u8, 0x22, 0x4D, 0x18]);
            assert(patterns_view(p@) =~~= magic_entry(11).1);
            Magic { filetype: FileType::Lz4, patterns: p, validate: None }
        },
        12 => {
            let mut p: Vec<(usize, Vec<u8>)> = Vec::new();
            add_pattern(&mut p, 0, vec![0x89u8, 0x4C, 0x5A, 0x4F, 0x00, 0x0D, 0x0A, 0x1A, 0x0A]);
            assert(patterns_view(p@) =~~= magic_entry(12).1);
            Magic { filetype: FileType::Lzop, patterns: p, validate: None }
        },
        13 => {
            let mut p: Vec<(usize, Vec<u8>)> = Vec::new();
            add_pattern(&mut p, 0, vec![0x28u8, 0xB5, 0x2F, 0xFD]);
            assert(patterns_view(p@) =~~= magic_entry(13).1);
            Magic { filetype: FileType::Zstd, patterns: p, validate: None }
        },
        14 => {
            let mut p: Vec<(usize, Vec<u8>)> = Vec::new();
            add_pattern(&mut p, 0, vec![0x68u8, 0x73, 0x71, 0x73]);
            add_pattern(&mut p, 0, vec![0x73u8, 0x71, 0x73, 0x68]);
            add_pattern(&mut p, 0, vec![0x73u8, 0x68, 0x73, 0x71]);
            add_pattern(&mut p, 0, vec![0x71u8, 0x73, 0x68, 0x73]);
            assert(patterns_view(p@) =~~= magic_entry(14).1);
            Magic { filetype: FileType::SquashFs, patterns: p, validate: None }
        },
        15 => {
            let mut p: Vec<(usize, Vec<u8>)> = Vec::new();
            add_pattern(&mut p, 0, vec![0x45u8, 0x3D, 0xCD, 0x28]);
            add_pattern(&mut p, 0, vec![0x28u8, 0xCD, 0x3D, 0x45]);
            assert(patterns_view(p@) =~~= magic_entry(15).1);
            Magic { filetype: FileType::CramFs, patterns: p, validate: None }
        },
        16 => {
            let mut p: Vec<(usize, Vec<u8>)> = Vec::new();
            add_pattern(&mut p, 0x438, vec![0x53u8, 0xEF]);
            assert(patterns_view(p@) =~~= magic_entry(16).1);
            Magic { filetype: FileType::Ext, patterns: p, validate: None }
        },
        17 => {
            let mut p: Vec<(usize, Vec<u8>)> = Vec::new();
            add_pattern(&mut p, 0x8001, vec![0x43u8, 0x44, 0x30, 0x30, 0x31]);
            assert(patterns_view(p@) =~~= magic_entry(17).1);
            Magic { filetype: FileType::Iso9660, patterns: p, validate: None }
        },
        18 => {
            let mut p: Vec<(usize, Vec<u8>)> = Vec::new();
            add_pattern(&mut p, 0x101, vec![0x75u8, 0x73, 0x74, 0x61, 0x72, 0x00]);
            add_pattern(&mut p, 0x101, vec![0x75u8, 0x73, 0x74, 0x61, 0x72, 0x20]);
            assert(patterns_view(p@) =~~= magic_entry(18).1);
            Magic { filetype: FileType::Tar, patterns: p, validate: None }
        },
        19 => {
            let mut p: Vec<(usize, Vec<u8>)> = Vec::new();
            add_pattern(&mut p, 0, vec![0x50u8, 0x4B, 0x03, 0x04]);
            add_pattern(&mut p, 0, vec![0x50u8, 0x4B, 0x05, 0x06]);
            add_pattern(&mut p, 0, vec![0x50u8, 0x4B, 0x07, 0x08]);
            assert(patterns_view(p@) =~~= magic_entry(19).1);
            Magic { filetype: FileType::Zip, patterns: p, validate: None }
        },
        20 => {
            let mut p: Vec<(usize, Vec<u8>)> = Vec::new();
            add_pattern(&mut p, 0, vec![0x37u8, 0x7A, 0xBC, 0xAF, 0x27, 0x1C]);
            assert(patterns_view(p@) =~~= magic_entry(20).1);
            Magic { filetype: FileType::SevenZ, patterns: p, validate: None }
        },
        21 => {
            let mut p: Vec<(usize, Vec<u8>)> = Vec::new();
            add_pattern(&mut p, 0, vec![0x30u8, 0x37, 0x30, 0x37, 0x30, 0x31]);
            add_pattern(&mut p, 0, vec![0x30u8, 0x37, 0x30, 0x37, 0x30, 0x32]);
            add_pattern(&mut p, 0, vec![0xC7u8, 0x71]);
            add_pattern(&mut p, 0, vec![0x71u8, 0xC7]);
            assert(patterns_view(p@) =~~= magic_entry(21).1);
            Magic { filetype: FileType::Cpio, patterns: p, validate: None }
        },
        22 => {
            let mut p: Vec<(usize, Vec<u8>)> = Vec::new();
            add_pattern(&mut p, 0, vec![0x21u8, 0x3C, 0x61, 0x72, 0x63, 0x68, 0x3E, 0x0A]);
            assert(patterns_view(p@) =~~= magic_entry(22).1);
            Magic { filetype: FileType::Ar, patterns: p, validate: None }
        },
        23 => {
            let mut p: Vec<(usize, Vec<u8>)> = Vec::new();
            add_pattern(&mut p, 0, vec![0x7Fu8, 0x45, 0x4C, 0x46]);
            assert(patterns_view(p@) =~~= magic_entry(23).1);
            Magic { filetype: FileType::Elf, patterns: p, validate: None }
        },
        24 => {
            let mut p: Vec<(usize, Vec<u8>)> = Vec::new();
            add_pattern(&mut p, 0, vec![0x4Du8, 0x5A]);
            assert(patterns_view(p@) =~~= magic_entry(24).1);
            Magic { filetype: FileType::PeCoff, patterns: p, validate: None }
        },
        25 => {
            let mut p: Vec<(usize, Vec<u8>)> = Vec::new();
            add_pattern(&mut p, 0, vec![0xFEu8, 0xED, 0xFA, 0xCE]);
            add_pattern(&mut p, 0, vec![0xCEu8, 0xFA, 0xED, 0xFE]);
            add_pattern(&mut p, 0, vec![0xFEu8, 0xED, 0xFA, 0xCF]);
            add_pattern(&mut p, 0, vec![0xCFu8, 0xFA, 0xED, 0xFE]);
            assert(patterns_view(p@) =~~= magic_entry(25).1);
            Magic { filetype: FileType::MachO, patterns: p, validate: None }
        },
        26 => {
            let mut p: Vec<(usize, Vec<u8>)> = Vec::new();
            add_pattern(&mut p, 0, vec![0xCAu8, 0xFE, 0xBA, 0xBE]);
            add_pattern(&mut p, 0, vec![0xBEu8, 0xBA, 0xFE, 0xCA]);
            assert(patterns_view(p@) =~~= magic_entry(26).1);
            Magic { filetype: FileType::MachOUniversal, patterns: p, validate: None }
        },
        27 => {
            let mut p: Vec<(usize, Vec<u8>)> = Vec::new();
            add_pattern(&mut p, 0, vec![0x30u8, 0x82]);
            assert(patterns_view(p@) =~~= magic_entry(27).1);
            Magic { filetype: FileType::DerAsn1, patterns: p, validate: None }
        },
        28 => {
            let mut p: Vec<(usize, Vec<u8>)> = Vec::new();
            add_pattern(&mut p, 0, vec![0x2Du8, 0x2D, 0x2D, 0x2D, 0x2D, 0x42, 0x45, 0x47, 0x49, 0x4E, 0x20]);
            assert(patterns_view(p@) =~~= magic_entry(28).1);
            Magic { filetype: FileType::Pem, patterns: p, validate: None }
        },
        _ => Magic { filetype: FileType::Pem, patterns: Vec::new(), validate: None },
    };
    m
}

/// The signature table, in lookup order.
pub fn magic_numbers() -> (r: Vec<Magic>)
    ensures
        r.len() == magic_count(),
        forall|i: int| 0 <= i < magic_count() ==> (#[trigger] r[i])@ == magic_entry(i),
{
    let mut r: Vec<Magic> = Vec::new();
    let mut i: usize = 0;
    while i < 29
        invariant
            i <= 29,
            r.len() == i,
            forall|k: int| 0 <= k < i ==> (#[trigger] r[k])@ == magic_entry(k),
        decreases 29 - i,
    {
        r.push(magic_at(i));
        i = i + 1;
    }
    r
}


/// Where a table row was found: its type and the offset in the whole image.
pub struct Finding {
    pub filetype: FileType,
    pub offset: usize,
}

/// A row's structural check accepts the bytes from the candidate offset.
pub open spec fn spec_valid(check: Option<Check>, data: Seq<u8>, off: int) -> bool {
    match check {
        None => true,
        Some(c) => spec_check(c, data.skip(off)),
    }
}

/// The lookup order: rows in table order, and within a row its patterns in
/// order. The first pattern found at its place in `data` (relative to `off`)
/// whose row's check accepts the data gives the answer; computing a place
/// that does not fit in `usize` ends the search with no answer.
pub open spec fn scan_from(data: Seq<u8>, off: int, i: int, j: int) -> Option<FileType>
    decreases magic_count() - i, magic_entry(i).1.len() - j,
{
    if i < 0 || i >= magic_count() || j < 0 {
        None
    } else if j >= magic_entry(i).1.len() {
        scan_from(data, off, i + 1, 0)
    } else {
        let (po, pat) = magic_entry(i).1[j];
        if off + po > usize::MAX || off + po + pat.len() > usize::MAX {
            None
        } else if verify::bytes_at(data, off + po, pat) && spec_valid(magic_entry(i).2, data, off) {
            Some(magic_entry(i).0)
        } else {
            scan_from(data, off, i, j + 1)
        }
    }
}

/// The file type whose signature appears at `off`, in lookup order.
pub open spec fn spec_identify(data: Seq<u8>, off: int) -> Option<FileType> {
    scan_from(data, off, 0, 0)
}

pub fn identify(data: &[u8], offset: usize) -> (r: Option<FileType>)
    ensures
        r == spec_identify(data@, offset as int),
{
    let table = magic_numbers();
    let mut i: usize = 0;
    while i < table.len()
        invariant
            i <= table.len() == magic_count(),
            forall|k: int| 0 <= k < magic_count() ==> (#[trigger] table[k])@ == magic_entry(k),
            spec_identify(data@, offset as int) == scan_from(data@, offset as int, i as int, 0),
        decreases table.len() - i,
    {
        let m = &table[i];
        assert(m@ == magic_entry(i as int));
        let mut j: usize = 0;
        while j < m.patterns.len()
            invariant
                i < table.len() == magic_count(),
                m@ == magic_entry(i as int),
                j <= m.patterns@.len(),
                patterns_view(m.patterns@).len() == m.patterns@.len(),
                spec_identify(data@, offset as int) == scan_from(
                    data@,
                    offset as int,
                    i as int,
                    j as int,
                ),
            decreases m.patterns@.len() - j,
        {
            let pat_off = m.patterns[j].0;
            let pattern = m.patterns[j].1.as_slice();
            assert(patterns_view(m.patterns@)[j as int] == (pat_off, pattern@));
            let start = match offset.checked_add(pat_off) {
                Some(v) => v,
                None => return None,
            };
            let end = match start.checked_add(pattern.len()) {
                Some(v) => v,
                None => return None,
            };
            if matches_pattern(data, start, pattern) {
                let valid = match m.validate {
                    None => true,
                    Some(c) => {
                        let rest = vstd::slice::slice_subrange(data, offset, data.len());
                        assert(rest@ =~= data@.skip(offset as int));
                        run_check(c, rest)
                    },
                };
                if valid {
                    return Some(m.filetype);
                }
            }
            j = j + 1;
        }
        i = i + 1;
    }
    None
}

fn matches_pattern(data: &[u8], start: usize, pattern: &[u8]) -> (r: bool)
    ensures
        r == verify::bytes_at(data@, start as int, pattern@),
        r ==> start <= data@.len(),
{
    verify::matches_at(data, start, pattern)
}

impl FileType {
    pub open spec fn spec_category(self) -> Category {
        match self {
            FileType::UBootUImage | FileType::DeviceTreeBlob | FileType::AndroidBoot
            | FileType::BroadcomTrx => Category::Firmware,
            FileType::IntelHex | FileType::SRecord => Category::Record,
            FileType::Gzip | FileType::Zlib | FileType::Bzip2 | FileType::Xz | FileType::Lzma
            | FileType::Lz4 | FileType::Lzop | FileType::Zstd => Category::Compression,
            FileType::SquashFs | FileType::CramFs | FileType::Jffs2 | FileType::UbiEc
            | FileType::Ubifs | FileType::RomFs | FileType::Ext | FileType::Iso9660 => {
                Category::Filesystem
            },
            FileType::Tar | FileType::Zip | FileType::SevenZ | FileType::Cpio | FileType::Ar => {
                Category::Archive
            },
            FileType::Elf | FileType::PeCoff | FileType::MachO | FileType::MachOUniversal => {
                Category::Executable
            },
            FileType::DerAsn1 | FileType::Pem => Category::Crypto,
        }
    }

    pub fn category(self) -> (r: Category)
        ensures
            r == self.spec_category(),
    {
        match self {
            FileType::UBootUImage | FileType::DeviceTreeBlob | FileType::AndroidBoot
            | FileType::BroadcomTrx => Category::Firmware,
            FileType::IntelHex | FileType::SRecord => Category::Record,
            FileType::Gzip | FileType::Zlib | FileType::Bzip2 | FileType::Xz | FileType::Lzma
            | FileType::Lz4 | FileType::Lzop | FileType::Zstd => Category::Compression,
            FileType::SquashFs | FileType::CramFs | FileType::Jffs2 | FileType::UbiEc
            | FileType::Ubifs | FileType::RomFs | FileType::Ext | FileType::Iso9660 => {
                Category::Filesystem
            },
            FileType::Tar | FileType::Zip | FileType::SevenZ | FileType::Cpio | FileType::Ar => {
                Category::Archive
            },
            FileType::Elf | FileType::PeCoff | FileType::MachO | FileType::MachOUniversal => {
                Category::Executable
            },
            FileType::DerAsn1 | FileType::Pem => Category::Crypto,
        }
    }

    /// Types whose magic number is short or common enough that a hit needs
    /// structural confirmation before it is believed.
    pub open spec fn spec_is_weak(self) -> bool {
        match self {
            FileType::DerAsn1 | FileType::IntelHex | FileType::SRecord | FileType::Zlib
            | FileType::Lzma | FileType::Jffs2 | FileType::Gzip | FileType::Tar | FileType::Ext
            | FileType::PeCoff | FileType::Zip | FileType::Cpio | FileType::Lz4 | FileType::Zstd
            | FileType::SquashFs | FileType::CramFs | FileType::BroadcomTrx
            | FileType::UBootUImage | FileType::DeviceTreeBlob | FileType::MachO => true,
            _ => false,
        }
    }

    pub fn is_weak_signature(&self) -> (r: bool)
        ensures
            r == self.spec_is_weak(),
    {
        match self {
            FileType::DerAsn1 | FileType::IntelHex | FileType::SRecord | FileType::Zlib
            | FileType::Lzma | FileType::Jffs2 | FileType::Gzip | FileType::Tar | FileType::Ext
            | FileType::PeCoff | FileType::Zip | FileType::Cpio | FileType::Lz4 | FileType::Zstd
            | FileType::SquashFs | FileType::CramFs | FileType::BroadcomTrx
            | FileType::UBootUImage | FileType::DeviceTreeBlob | FileType::MachO => true,
            _ => false,
        }
    }

    /// Human-readable name of the type.
    pub open spec fn spec_name(self) -> Seq<char> {
        match self {
            FileType::UBootUImage => "U-Boot uImage"@,
            FileType::DeviceTreeBlob => "Flattened Device Tree Blob (FDTB)"@,
            FileType::AndroidBoot => "Android boot image"@,
            FileType::BroadcomTrx => "Broadcom TRX"@,
            FileType::IntelHex => "Intel HEX"@,
            FileType::SRecord => "Motorola S-Record"@,
            FileType::Gzip => "gzip"@,
            FileType::Zlib => "zlib"@,
            FileType::Bzip2 => "bzip2"@,
            FileType::Xz => "xz"@,
            FileType::Lzma => "LZMA"@,
            FileType::Lz4 => "LZ4"@,
            FileType::Lzop => "LZOP"@,
            FileType::Zstd => "Zstandard"@,
            FileType::SquashFs => "SquashFS"@,
            FileType::CramFs => "CRAMFS"@,
            FileType::Jffs2 => "JFFS2"@,
            FileType::UbiEc => "UBI EC header"@,
            FileType::Ubifs => "UBIFS"@,
            FileType::RomFs => "ROMFS"@,
            FileType::Ext => "ext2/3/4"@,
            FileType::Iso9660 => "ISO 9660"@,
            FileType::Tar => "tar"@,
            FileType::Zip => "zip"@,
            FileType::SevenZ => "7z"@,
            FileType::Cpio => "cpio"@,
            FileType::Ar => "AR archive"@,
            FileType::Elf => "ELF"@,
            FileType::PeCoff => "PE/COFF"@,
            FileType::MachO => "Mach-O"@,
            FileType::MachOUniversal => "Mach-O Universal Binary"@,
            FileType::DerAsn1 => "DER/ASN.1"@,
            FileType::Pem => "PEM"@,
        }
    }

    pub fn name(&self) -> (r: &'static str)
        ensures
            r@ == self.spec_name(),
    {
        match self {
            FileType::UBootUImage => "U-Boot uImage",
            FileType::DeviceTreeBlob => "Flattened Device Tree Blob (FDTB)",
            FileType::AndroidBoot => "Android boot image",
            FileType::BroadcomTrx => "Broadcom TRX",
            FileType::IntelHex => "Intel HEX",
            FileType::SRecord => "Motorola S-Record",
            FileType::Gzip => "gzip",
            FileType::Zlib => "zlib",
            FileType::Bzip2 => "bzip2",
            FileType::Xz => "xz",
            FileType::Lzma => "LZMA",
            FileType::Lz4 => "LZ4",
            FileType::Lzop => "LZOP",
            FileType::Zstd => "Zstandard",
            FileType::SquashFs => "SquashFS",
            FileType::CramFs => "CRAMFS",
            FileType::Jffs2 => "JFFS2",
            FileType::UbiEc => "UBI EC header",
            FileType::Ubifs => "UBIFS",
            FileType::RomFs => "ROMFS",
            FileType::Ext => "ext2/3/4",
            FileType::Iso9660 => "ISO 9660",
            FileType::Tar => "tar",
            FileType::Zip => "zip",
            FileType::SevenZ => "7z",
            FileType::Cpio => "cpio",
            FileType::Ar => "AR archive",
            FileType::Elf => "ELF",
            FileType::PeCoff => "PE/COFF",
            FileType::MachO => "Mach-O",
            FileType::MachOUniversal => "Mach-O Universal Binary",
            FileType::DerAsn1 => "DER/ASN.1",
            FileType::Pem => "PEM",
        }
    }

    /// The name as an owned string.
    pub fn to_string(&self) -> (r: String)
        ensures
            r@ == self.spec_name(),
    {
        self.name().to_owned()
    }

}


/// Row `i` has a pattern `j` in place at `off` and its check accepts the data.
pub open spec fn row_hit(data: Seq<u8>, off: int, i: int, j: int) -> bool {
    &&& 0 <= j < magic_entry(i).1.len()
    &&& verify::bytes_at(data, off + magic_entry(i).1[j].0, magic_entry(i).1[j].1)
    &&& spec_valid(magic_entry(i).2, data, off)
}

/// No place computed for row `i`, pattern `j` or any later one overflows.
pub open spec fn no_overflow(off: int) -> bool {
    0 <= off && off + 0x8006 <= usize::MAX
}

/// The file types that no row of the table names.
pub open spec fn untabled(t: FileType) -> bool {
    t == FileType::Jffs2 || t == FileType::UbiEc || t == FileType::Ubifs || t == FileType::RomFs
}

proof fn lemma_entry_reach(i: int)
    requires
        0 <= i < magic_count(),
    ensures
        forall|j: int|
            0 <= j < magic_entry(i).1.len() ==> magic_entry(i).1[j].0 + magic_entry(i).1[j].1.len()
                <= 0x8006 && magic_entry(i).1[j].1.len() >= 1,
        !untabled(magic_entry(i).0),
{
    if i == 0 {
    }
    else if i == 1 {
    }
    else if i == 2 {
    }
    else if i == 3 {
    }
    else if i == 4 {
    }
    else if i == 5 {
    }
    else if i == 6 {
    }
    else if i == 7 {
    }
    else if i == 8 {
    }
    else if i == 9 {
    }
    else if i == 10 {
    }
    else if i == 11 {
    }
    else if i == 12 {
    }
    else if i == 13 {
    }
    else if i == 14 {
    }
    else if i == 15 {
    }
    else if i == 16 {
    }
    else if i == 17 {
    }
    else if i == 18 {
    }
    else if i == 19 {
    }
    else if i == 20 {
    }
    else if i == 21 {
    }
    else if i == 22 {
    }
    else if i == 23 {
    }
    else if i == 24 {
    }
    else if i == 25 {
    }
    else if i == 26 {
    }
    else if i == 27 {
    }
    else if i == 28 {
    }
}

proof fn lemma_scan_sound(data: Seq<u8>, off: int, i: int, j: int)
    requires
        0 <= j,
    ensures
        scan_from(data, off, i, j) matches Some(t) ==> exists|k: int, l: int|
            i <= k < magic_count() && #[trigger] row_hit(data, off, k, l) && magic_entry(k).0 == t,
    decreases magic_count() - i, magic_entry(i).1.len() - j,
{
    if i < 0 || i >= magic_count() {
    } else if j >= magic_entry(i).1.len() {
        lemma_scan_sound(data, off, i + 1, 0);
    } else {
        let (po, pat) = magic_entry(i).1[j];
        if off + po > usize::MAX || off + po + pat.len() > usize::MAX {
        } else if verify::bytes_at(data, off + po, pat) && spec_valid(magic_entry(i).2, data, off) {
            assert(row_hit(data, off, i, j));
        } else {
            lemma_scan_sound(data, off, i, j + 1);
        }
    }
}

proof fn lemma_scan_first(data: Seq<u8>, off: int, i: int, j: int, k: int, l: int)
    requires
        no_overflow(off),
        0 <= i <= k < magic_count(),
        0 <= j,
        i == k ==> j <= l,
        row_hit(data, off, k, l),
        forall|a: int, b: int| i <= a < k && #[trigger] row_hit(data, off, a, b) ==> false,
    ensures
        scan_from(data, off, i, j) == Some(magic_entry(k).0),
    decreases magic_count() - i, magic_entry(i).1.len() - j,
{
    lemma_entry_reach(i);
    if j >= magic_entry(i).1.len() {
        lemma_scan_first(data, off, i + 1, 0, k, l);
    } else {
        let (po, pat) = magic_entry(i).1[j];
        assert(po + pat.len() <= 0x8006);
        if verify::bytes_at(data, off + po, pat) && spec_valid(magic_entry(i).2, data, off) {
            assert(row_hit(data, off, i, j));
        } else {
            assert(!row_hit(data, off, i, j));
            lemma_scan_first(data, off, i, j + 1, k, l);
        }
    }
}

/// Whatever `identify` answers is backed by the table: some row of that type
/// has one of its patterns in place at the offset, and the row's check (if
/// any) accepts the data there.
pub proof fn law_identify_sound(data: Seq<u8>, off: int, t: FileType)
    requires
        spec_identify(data, off) == Some(t),
    ensures
        exists|k: int, l: int|
            0 <= k < magic_count() && #[trigger] row_hit(data, off, k, l) && magic_entry(k).0
                == t,
{
    lemma_scan_sound(data, off, 0, 0);
}

/// Rows are tried in table order: when row `k` is the first row with a
/// pattern in place (and an accepting check), `identify` answers row `k`'s
/// type. This holds for data of any length a slice can have.
pub proof fn law_identify_first_row(data: Seq<u8>, off: int, k: int, l: int)
    requires
        0 <= off,
        data.len() <= isize::MAX,
        0 <= k < magic_count(),
        row_hit(data, off, k, l),
        forall|a: int, b: int| 0 <= a < k ==> !#[trigger] row_hit(data, off, a, b),
    ensures
        spec_identify(data, off) == Some(magic_entry(k).0),
{
    lemma_entry_reach(k);
    assert(off <= data.len());
    assert(no_overflow(off));
    lemma_scan_first(data, off, 0, 0, k, l);
}

proof fn lemma_least_row(data: Seq<u8>, off: int, k: int, l: int)
    requires
        0 <= k < magic_count(),
        row_hit(data, off, k, l),
    ensures
        exists|k0: int, l0: int|
            #![trigger row_hit(data, off, k0, l0)]
            0 <= k0 <= k && row_hit(data, off, k0, l0) && forall|a: int, b: int|
                0 <= a < k0 ==> !#[trigger] row_hit(data, off, a, b),
    decreases k,
{
    if exists|a: int, b: int| 0 <= a < k && #[trigger] row_hit(data, off, a, b) {
        let (a, b) = choose|a: int, b: int| 0 <= a < k && #[trigger] row_hit(data, off, a, b);
        lemma_least_row(data, off, a, b);
    } else {
        assert(row_hit(data, off, k, l));
    }
}

/// `identify` answers nothing exactly when no row has a pattern in place
/// (with an accepting check) at the offset. This holds for data of any
/// length a slice can have.
pub proof fn law_identify_none_iff_no_row(data: Seq<u8>, off: int)
    requires
        0 <= off,
        data.len() <= isize::MAX,
    ensures
        spec_identify(data, off) is None <==> forall|k: int, l: int|
            0 <= k < magic_count() ==> !#[trigger] row_hit(data, off, k, l),
{
    if let Some(t) = spec_identify(data, off) {
        law_identify_sound(data, off, t);
    }
    if exists|k: int, l: int| 0 <= k < magic_count() && #[trigger] row_hit(data, off, k, l) {
        let (k, l) = choose|k: int, l: int| 0 <= k < magic_count() && #[trigger] row_hit(data, off, k, l);
        lemma_least_row(data, off, k, l);
        let (k0, l0) = choose|k0: int, l0: int|
            #![trigger row_hit(data, off, k0, l0)]
            0 <= k0 <= k && row_hit(data, off, k0, l0) && forall|a: int, b: int|
                0 <= a < k0 ==> !#[trigger] row_hit(data, off, a, b);
        law_identify_first_row(data, off, k0, l0);
    }
}

/// The published magic numbers of each file type: where each signature
/// sits relative to the candidate offset, and its bytes. The filesystem
/// types without a fixed signature here have none.
pub open spec fn published_magic(t: FileType) -> Seq<(usize, Seq<u8>)> {
    match t {
        FileType::UBootUImage => seq![
            (0usize, seq![0x27u8, 0x05, 0x19, 0x56]),
        ],
        FileType::DeviceTreeBlob => seq![
            (0usize, seq![0xD0u8, 0x0D, 0xFE, 0xED]),
        ],
        FileType::AndroidBoot => seq![
            (0usize, seq![0x41u8, 0x4E, 0x44, 0x52, 0x4F, 0x49, 0x44, 0x21]),  // "ANDROID!"
        ],
        FileType::BroadcomTrx => seq![
            (0usize, seq![0x48u8, 0x44, 0x52, 0x30]),  // "HDR0"
        ],
        FileType::IntelHex => seq![
            (0usize, seq![0x3Au8]),
        ],
        FileType::SRecord => seq![
            (0usize, seq![0x53u8, 0x30]),  // "S0"
            (0usize, seq![0x53u8, 0x31]),  // "S1"
            (0usize, seq![0x53u8, 0x33]),  // "S3"
        ],
        FileType::Gzip => seq![
            (0usize, seq![0x1Fu8, 0x8B, 0x08]),
        ],
        FileType::Zlib => seq![
            (0usize, seq![0x78u8, 0x01]),  // no/low compression
            (0usize, seq![0x78u8, 0x5E]),  // fast compression
            (0usize, seq![0x78u8, 0x9C]),  // default compression
            (0usize, seq![0x78u8, 0xDA]),  // best compression
        ],
        FileType::Bzip2 => seq![
            (0usize, seq![0x42u8, 0x5A, 0x68]),
        ],
        FileType::Xz => seq![
            (0usize, seq![0xFDu8, 0x37, 0x7A, 0x58, 0x5A, 0x00]),
        ],
        FileType::Lzma => seq![
            (0usize, seq![0x5Du8, 0x00, 0x00, 0x80, 0x00]),
        ],
        FileType::Lz4 => seq![
            (0usize, seq![0x04u8, 0x22, 0x4D, 0x18]),
        ],
        FileType::Lzop => seq![
            (0usize, seq![0x89u8, 0x4C, 0x5A, 0x4F, 0x00, 0x0D, 0x0A, 0x1A, 0x0A]),
        ],
        FileType::Zstd => seq![
            (0usize, seq![0x28u8, 0xB5, 0x2F, 0xFD]),
        ],
        FileType::SquashFs => seq![
            (0usize, seq![0x68u8, 0x73, 0x71, 0x73]),  // "hsqs", little-endian
            (0usize, seq![0x73u8, 0x71, 0x73, 0x68]),  // "sqsh", big-endian
            (0usize, seq![0x73u8, 0x68, 0x73, 0x71]),  // "shsq", LZMA variant (DD-WRT)
            (0usize, seq![0x71u8, 0x73, 0x68, 0x73]),  // "qshs", LZMA variant alt
        ],
        FileType::CramFs => seq![
            (0usize, seq![0x45u8, 0x3D, 0xCD, 0x28]),  // little-endian
            (0usize, seq![0x28u8, 0xCD, 0x3D, 0x45]),  // big-endian
        ],
        FileType::Ext => seq![
            (0x438usize, seq![0x53u8, 0xEF]),
        ],
        FileType::Iso9660 => seq![
            (0x8001usize, seq![0x43u8, 0x44, 0x30, 0x30, 0x31]),  // "CD001"
        ],
        FileType::Tar => seq![
            (0x101usize, seq![0x75u8, 0x73, 0x74, 0x61, 0x72, 0x00]),  // "ustar\0", POSIX
            (0x101usize, seq![0x75u8, 0x73, 0x74, 0x61, 0x72, 0x20]),  // "ustar ", GNU
        ],
        FileType::Zip => seq![
            (0usize, seq![0x50u8, 0x4B, 0x03, 0x04]),  // local file header
            (0usize, seq![0x50u8, 0x4B, 0x05, 0x06]),  // end of central dir
            (0usize, seq![0x50u8, 0x4B, 0x07, 0x08]),  // spanned archive
        ],
        FileType::SevenZ => seq![
            (0usize, seq![0x37u8, 0x7A, 0xBC, 0xAF, 0x27, 0x1C]),
        ],
        FileType::Cpio => seq![
            (0usize, seq![0x30u8, 0x37, 0x30, 0x37, 0x30, 0x31]),  // "070701", newc (no CRC)
            (0usize, seq![0x30u8, 0x37, 0x30, 0x37, 0x30, 0x32]),  // "070702", newc (CRC)
            (0usize, seq![0xC7u8, 0x71]),  // binary little-endian
            (0usize, seq![0x71u8, 0xC7]),  // binary big-endian
        ],
        FileType::Ar => seq![
            (0usize, seq![0x21u8, 0x3C, 0x61, 0x72, 0x63, 0x68, 0x3E, 0x0A]),  // "!<arch>\n"
        ],
        FileType::Elf => seq![
            (0usize, seq![0x7Fu8, 0x45, 0x4C, 0x46]),  // "\x7fELF"
        ],
        FileType::PeCoff => seq![
            (0usize, seq![0x4Du8, 0x5A]),  // "MZ"
        ],
        FileType::MachO => seq![
            (0usize, seq![0xFEu8, 0xED, 0xFA, 0xCE]),  // 32-bit BE
            (0usize, seq![0xCEu8, 0xFA, 0xED, 0xFE]),  // 32-bit LE
            (0usize, seq![0xFEu8, 0xED, 0xFA, 0xCF]),  // 64-bit BE
            (0usize, seq![0xCFu8, 0xFA, 0xED, 0xFE]),  // 64-bit LE
        ],
        FileType::MachOUniversal => seq![
            (0usize, seq![0xCAu8, 0xFE, 0xBA, 0xBE]),
            (0usize, seq![0xBEu8, 0xBA, 0xFE, 0xCA]),
        ],
        FileType::DerAsn1 => seq![
            (0usize, seq![0x30u8, 0x82]),
        ],
        FileType::Pem => seq![
            (0usize, seq![0x2Du8, 0x2D, 0x2D, 0x2D, 0x2D, 0x42, 0x45, 0x47, 0x49, 0x4E, 0x20]),  // "-----BEGIN "
        ],
        FileType::Jffs2 | FileType::UbiEc | FileType::Ubifs | FileType::RomFs => seq![],
    }
}

/// Where each file type stands in the lookup order (types without a
/// signature come last).
pub open spec fn lookup_rank(t: FileType) -> int {
    match t {
        FileType::UBootUImage => 0,
        FileType::DeviceTreeBlob => 1,
        FileType::AndroidBoot => 2,
        FileType::BroadcomTrx => 3,
        FileType::IntelHex => 4,
        FileType::SRecord => 5,
        FileType::Gzip => 6,
        FileType::Zlib => 7,
        FileType::Bzip2 => 8,
        FileType::Xz => 9,
        FileType::Lzma => 10,
        FileType::Lz4 => 11,
        FileType::Lzop => 12,
        FileType::Zstd => 13,
        FileType::SquashFs => 14,
        FileType::CramFs => 15,
        FileType::Ext => 16,
        FileType::Iso9660 => 17,
        FileType::Tar => 18,
        FileType::Zip => 19,
        FileType::SevenZ => 20,
        FileType::Cpio => 21,
        FileType::Ar => 22,
        FileType::Elf => 23,
        FileType::PeCoff => 24,
        FileType::MachO => 25,
        FileType::MachOUniversal => 26,
        FileType::DerAsn1 => 27,
        FileType::Pem => 28,
        FileType::Jffs2 | FileType::UbiEc | FileType::Ubifs | FileType::RomFs => 29,
    }
}

proof fn lemma_row_is_published(k: int)
    requires
        0 <= k < magic_count(),
    ensures
        magic_entry(k).1 == published_magic(magic_entry(k).0),
        magic_entry(k).2 is None,
        lookup_rank(magic_entry(k).0) == k,
{
    if k == 0 {
    }
    else if k == 1 {
    }
    else if k == 2 {
    }
    else if k == 3 {
    }
    else if k == 4 {
    }
    else if k == 5 {
    }
    else if k == 6 {
    }
    else if k == 7 {
    }
    else if k == 8 {
    }
    else if k == 9 {
    }
    else if k == 10 {
    }
    else if k == 11 {
    }
    else if k == 12 {
    }
    else if k == 13 {
    }
    else if k == 14 {
    }
    else if k == 15 {
    }
    else if k == 16 {
    }
    else if k == 17 {
    }
    else if k == 18 {
    }
    else if k == 19 {
    }
    else if k == 20 {
    }
    else if k == 21 {
    }
    else if k == 22 {
    }
    else if k == 23 {
    }
    else if k == 24 {
    }
    else if k == 25 {
    }
    else if k == 26 {
    }
    else if k == 27 {
    }
    else if k == 28 {
    }
}

proof fn lemma_rank_is_row(t: FileType)
    requires
        !untabled(t),
    ensures
        0 <= lookup_rank(t) < magic_count(),
        magic_entry(lookup_rank(t)).0 == t,
{
}

/// A published magic number in place at the offset: pattern `j` of `t`.
pub open spec fn magic_in_place(data: Seq<u8>, off: int, t: FileType, j: int) -> bool {
    &&& 0 <= j < published_magic(t).len()
    &&& verify::bytes_at(data, off + published_magic(t)[j].0, published_magic(t)[j].1)
}

/// Data with a published magic number in place at the offset is always
/// identified as something. This holds for data of any length a slice can
/// have.
pub proof fn law_identify_recognises_published_magic(data: Seq<u8>, off: int, t: FileType, j: int)
    requires
        0 <= off,
        data.len() <= isize::MAX,
        magic_in_place(data, off, t, j),
    ensures
        spec_identify(data, off) is Some,
{
    let k = lookup_rank(t);
    lemma_rank_is_row(t);
    lemma_row_is_published(k);
    assert(row_hit(data, off, k, j));
    law_identify_none_iff_no_row(data, off);
}

/// Whatever `identify` answers has one of its published magic numbers in
/// place at the offset.
pub proof fn law_identify_answer_has_published_magic(data: Seq<u8>, off: int, t: FileType)
    requires
        spec_identify(data, off) == Some(t),
    ensures
        exists|j: int| #[trigger] magic_in_place(data, off, t, j),
{
    law_identify_sound(data, off, t);
    let (k, l) = choose|k: int, l: int|
        0 <= k < magic_count() && #[trigger] row_hit(data, off, k, l) && magic_entry(k).0 == t;
    lemma_row_is_published(k);
    assert(magic_in_place(data, off, t, l));
}

/// Types are tried in lookup order: a type whose published magic number is
/// in place at the offset is the answer when no type tried before it has
/// one in place. This holds for data of any length a slice can have.
pub proof fn law_identify_first_type_in_order(data: Seq<u8>, off: int, t: FileType, j: int)
    requires
        0 <= off,
        data.len() <= isize::MAX,
        magic_in_place(data, off, t, j),
        forall|u: FileType, i: int|
            lookup_rank(u) < lookup_rank(t) ==> !#[trigger] magic_in_place(data, off, u, i),
    ensures
        spec_identify(data, off) == Some(t),
{
    let k = lookup_rank(t);
    lemma_rank_is_row(t);
    lemma_row_is_published(k);
    assert(row_hit(data, off, k, j));
    assert forall|a: int, b: int| 0 <= a < k implies !#[trigger] row_hit(data, off, a, b) by {
        lemma_row_is_published(a);
        if row_hit(data, off, a, b) {
            assert(magic_in_place(data, off, magic_entry(a).0, b));
        }
    }
    law_identify_first_row(data, off, k, j);
}

proof fn lemma_rows_before_elf(k: int)
    requires
        0 <= k < 23,
        k != 16 && k != 17 && k != 18,
    ensures
        forall|l: int|
            0 <= l < magic_entry(k).1.len() ==> magic_entry(k).1[l].0 == 0 && magic_entry(k).1[l].1.len()
                >= 1 && magic_entry(k).1[l].1[0] != 0x7F,
{
    if k == 0 {
    }
    else if k == 1 {
    }
    else if k == 2 {
    }
    else if k == 3 {
    }
    else if k == 4 {
    }
    else if k == 5 {
    }
    else if k == 6 {
    }
    else if k == 7 {
    }
    else if k == 8 {
    }
    else if k == 9 {
    }
    else if k == 10 {
    }
    else if k == 11 {
    }
    else if k == 12 {
    }
    else if k == 13 {
    }
    else if k == 14 {
    }
    else if k == 15 {
    }
    else if k == 16 {
    }
    else if k == 17 {
    }
    else if k == 18 {
    }
    else if k == 19 {
    }
    else if k == 20 {
    }
    else if k == 21 {
    }
    else if k == 22 {
    }
}

/// Data whose bytes at the offset are "\x7fELF" is identified as ELF, unless
/// a container's signature further in is in place first: an ext superblock
/// magic 0x438 bytes in, an ISO 9660 "CD001" 0x8001 bytes in, or a tar
/// "ustar" marker 0x101 bytes in. No other signature tried before ELF starts
/// with 0x7F. This holds for data of any length a slice can have.
pub proof fn law_identify_elf(data: Seq<u8>, off: int)
    requires
        0 <= off,
        off + 4 <= data.len() <= isize::MAX,
        data.subrange(off, off + 4) == seq![0x7Fu8, 0x45, 0x4C, 0x46],
    ensures
        spec_identify(data, off) matches Some(t) && (t == FileType::Elf || t == FileType::Ext || t
            == FileType::Iso9660 || t == FileType::Tar),
        !verify::bytes_at(data, off + 0x438, seq![0x53u8, 0xEF]) && !verify::bytes_at(
            data,
            off + 0x8001,
            seq![0x43u8, 0x44, 0x30, 0x30, 0x31],
        ) && !verify::bytes_at(data, off + 0x101, seq![0x75u8, 0x73, 0x74, 0x61, 0x72, 0x00])
            && !verify::bytes_at(data, off + 0x101, seq![0x75u8, 0x73, 0x74, 0x61, 0x72, 0x20])
            ==> spec_identify(data, off) == Some(FileType::Elf),
{
    assert(data[off] == 0x7F) by {
        assert(data.subrange(off, off + 4)[0] == data[off]);
    }
    assert(magic_entry(23).1[0].1 == seq![0x7Fu8, 0x45, 0x4C, 0x46]);
    assert(row_hit(data, off, 23, 0));
    lemma_least_row(data, off, 23, 0);
    let (k0, l0) = choose|k0: int, l0: int|
        #![trigger row_hit(data, off, k0, l0)]
        0 <= k0 <= 23 && row_hit(data, off, k0, l0) && forall|a: int, b: int|
            0 <= a < k0 ==> !#[trigger] row_hit(data, off, a, b);
    if k0 < 23 && k0 != 16 && k0 != 17 && k0 != 18 {
        lemma_rows_before_elf(k0);
        let pat = magic_entry(k0).1[l0].1;
        assert(data.subrange(off, off + pat.len())[0] == data[off]);
        assert(false);
    }
    law_identify_first_row(data, off, k0, l0);
}

/// An offset at or past the end of the data identifies nothing: every
/// pattern has at least one byte, and none fits there.
pub proof fn law_identify_past_end(data: Seq<u8>, off: int)
    requires
        off >= data.len(),
    ensures
        spec_identify(data, off) is None,
{
    if let Some(t) = spec_identify(data, off) {
        law_identify_sound(data, off, t);
        let (k, l) = choose|k: int, l: int|
            0 <= k < magic_count() && #[trigger] row_hit(data, off, k, l) && magic_entry(k).0 == t;
        lemma_entry_reach(k);
        assert(magic_entry(k).1[l].1.len() >= 1);
    }
}

/// `identify` only answers types that some row of the table names; the
/// filesystem types with no row (JFFS2, UBI, UBIFS, romfs) never come back.
pub proof fn law_identify_only_tabled(data: Seq<u8>, off: int)
    ensures
        spec_identify(data, off) matches Some(t) ==> !untabled(t),
{
    if let Some(t) = spec_identify(data, off) {
        law_identify_sound(data, off, t);
        let (k, l) = choose|k: int, l: int|
            0 <= k < magic_count() && #[trigger] row_hit(data, off, k, l) && magic_entry(k).0 == t;
        lemma_entry_reach(k);
    }
}

} // verus!
