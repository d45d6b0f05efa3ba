use fwx::disassemble::arch_of_name;
use fwx::disassemble::{
    build_capstone, disassemble_bytes, disassemble_manual, disassembler, engine_config,
    finish_disassembly, hex_string, listing_rows, parse_arch, parse_endian, parse_hex,
    push_lower_hex, Arch, CsArch, CsMode, Endian, EngineConfig, ManualMeta, RawInsn,
};

#[test]
fn arch_keywords_and_aliases() {
    assert_eq!(parse_arch("x86_64"), Some(Arch::X86_64));
    assert_eq!(parse_arch("  AMD64\t"), Some(Arch::X86_64));
    assert_eq!(parse_arch("i686"), Some(Arch::I386));
    assert_eq!(parse_arch("ARM64"), Some(Arch::Aarch64));
    assert_eq!(parse_arch("armeb"), Some(Arch::Arm));
    assert_eq!(parse_arch("mips"), Some(Arch::Mips));
    assert_eq!(parse_arch("Mips64"), Some(Arch::Mips64));
    assert_eq!(parse_arch("powerpc64"), Some(Arch::PowerPc64));
    assert_eq!(parse_arch("rv64"), Some(Arch::Riscv64));
    assert_eq!(parse_arch("riscv32"), Some(Arch::Riscv32));
    assert_eq!(parse_arch("sparc"), None);
    assert_eq!(parse_arch(""), None);
    assert_eq!(parse_arch("x86 64"), None);
}

#[test]
fn endian_keywords() {
    assert_eq!(parse_endian("little"), Some(Endian::Little));
    assert_eq!(parse_endian(" LE "), Some(Endian::Little));
    assert_eq!(parse_endian("b"), Some(Endian::Big));
    assert_eq!(parse_endian("Big"), Some(Endian::Big));
    assert_eq!(parse_endian("middle"), None);
}

#[test]
fn hex_numbers() {
    assert_eq!(parse_hex("0x80000000"), Some(0x8000_0000));
    assert_eq!(parse_hex("0X1f"), Some(0x1F));
    assert_eq!(parse_hex("  ff  "), Some(0xFF));
    assert_eq!(parse_hex("0"), Some(0));
    assert_eq!(parse_hex("+10"), Some(0x10));
    assert_eq!(parse_hex("0x"), None);
    assert_eq!(parse_hex(""), None);
    assert_eq!(parse_hex("+"), None);
    assert_eq!(parse_hex("-1"), None);
    assert_eq!(parse_hex("0xg"), None);
    assert_eq!(parse_hex("ffffffffffffffff"), Some(u64::MAX));
    assert_eq!(parse_hex("10000000000000000"), None);
    assert_eq!(parse_hex("0000000000000000001"), Some(1));
    assert_eq!(parse_hex("0xbeef"), parse_hex("beef"));
    assert_eq!(parse_hex("0Xbeef"), parse_hex("beef"));
    // agrees with the standard library on a few samples
    for s in ["abc", "+7", "DEAD", "0x0", "12 3", "x1"] {
        let t = s.trim();
        let t = t.strip_prefix("0x").or_else(|| t.strip_prefix("0X")).unwrap_or(t);
        let expected = if t.is_empty() { None } else { u64::from_str_radix(t, 16).ok() };
        assert_eq!(parse_hex(s), expected, "{s}");
    }
}

#[test]
fn engine_choice() {
    assert_eq!(
        engine_config(Arch::X86_64, Endian::Big),
        Some(EngineConfig { arch: CsArch::X86, mode: CsMode::Mode64, endian: None })
    );
    assert_eq!(
        engine_config(Arch::Mips, Endian::Big),
        Some(EngineConfig { arch: CsArch::Mips, mode: CsMode::Mips32, endian: Some(Endian::Big) })
    );
    assert_eq!(engine_config(Arch::Other, Endian::Little), None);
    assert!(build_capstone(Arch::X86_64, Endian::Little).is_ok());
    assert!(build_capstone(Arch::Arm, Endian::Big).is_ok());
    assert_eq!(build_capstone(Arch::Other, Endian::Little).err(), Some("unsupported architecture"));
}

#[test]
fn engine_remembers_its_configuration() {
    let engine = build_capstone(Arch::Mips, Endian::Big).unwrap();
    assert_eq!(
        engine.config(),
        EngineConfig { arch: CsArch::Mips, mode: CsMode::Mips32, endian: Some(Endian::Big) }
    );
    let engine = build_capstone(Arch::Riscv32, Endian::Big).unwrap();
    assert_eq!(engine.config(), EngineConfig { arch: CsArch::RiscV, mode: CsMode::RiscV32, endian: None });
}

#[test]
fn big_endian_mips_decodes_in_its_byte_order() {
    // `jr $ra` followed by `nop`, big-endian.
    let rows = disassemble_bytes(&[0x03, 0xe0, 0x00, 0x08, 0, 0, 0, 0], 0x8000_0000, Arch::Mips, Endian::Big)
        .unwrap();
    assert_eq!(rows[0].0, 0x8000_0000);
    assert_eq!(rows[0].1, "03e00008");
    assert_eq!(rows[0].2, "jr");
    assert_eq!(rows.len(), 2);
}

#[test]
fn hex_text() {
    assert_eq!(hex_string(&[0x00, 0x0f, 0xa0, 0xff]), "000fa0ff");
    assert_eq!(hex_string(&[]), "");
    let mut s = String::from("0x");
    push_lower_hex(&mut s, 0x1a2b);
    assert_eq!(s, "0x1a2b");
    let mut z = String::new();
    push_lower_hex(&mut z, 0);
    assert_eq!(z, "0");
}

#[test]
fn listing_from_raw() {
    let raw = vec![
        RawInsn { address: 0x10, bytes: vec![0x90], mnemonic: Some("nop".into()), operands: None },
        RawInsn { address: 0x11, bytes: vec![0xc3], mnemonic: None, operands: Some("x".into()) },
    ];
    let rows = listing_rows(&raw);
    assert_eq!(
        rows,
        vec![
            (0x10, "90".to_string(), "nop".to_string(), String::new()),
            (0x11, "c3".to_string(), String::new(), "x".to_string()),
        ]
    );
    assert_eq!(finish_disassembly(Ok(raw)).unwrap().len(), 2);
    assert_eq!(
        finish_disassembly(Ok(Vec::new())).unwrap_err(),
        "no instructions decoded — the arch, endianness, or offset is probably wrong"
    );
    assert_eq!(
        finish_disassembly(Err("bad".to_string())).unwrap_err(),
        "capstone failed to disassemble: bad"
    );
}

#[test]
fn x86_bytes_decode() {
    let rows = disassemble_bytes(&[0x90, 0xc3], 0x1000, Arch::X86_64, Endian::Little).unwrap();
    assert_eq!(
        rows,
        vec![
            (0x1000, "90".to_string(), "nop".to_string(), String::new()),
            (0x1001, "c3".to_string(), "ret".to_string(), String::new()),
        ]
    );
    assert_eq!(
        disassemble_bytes(&[0x90], 0, Arch::Other, Endian::Little).unwrap_err(),
        "unsupported architecture"
    );
}

#[test]
fn manual_offsets() {
    let fw = [0u8, 0, 0x90, 0xc3];
    let meta = |offset| ManualMeta { arch: Arch::X86_64, endian: Endian::Little, base_addr: 0x400, offset };
    assert_eq!(
        disassemble_manual(&fw, &meta(0x20)).unwrap_err(),
        "offset 0x20 is past the end of the file"
    );
    assert_eq!(
        disassemble_manual(&fw, &meta(4)).unwrap_err(),
        "offset leaves no bytes to disassemble"
    );
    let rows = disassemble_manual(&fw, &meta(2)).unwrap();
    assert_eq!(rows[0], (0x400, "90".to_string(), "nop".to_string(), String::new()));
}

#[test]
fn automatic_needs_an_object_file() {
    assert_eq!(
        disassembler(b"not an object file").unwrap_err(),
        "could not locate a .text section / base address (not a recognized object file)"
    );
}

/// A minimal little-endian x86-64 ELF file whose `.text` holds `code`,
/// loaded at `addr`.
fn tiny_elf(code: &[u8], addr: u64) -> Vec<u8> {
    let shstrtab = b"\0.text\0.shstrtab\0";
    let text_off = 64u64;
    let str_off = text_off + code.len() as u64;
    let sh_off = (str_off + shstrtab.len() as u64 + 7) / 8 * 8;
    let mut f = Vec::new();
    f.extend_from_slice(&[0x7f, b'E', b'L', b'F', 2, 1, 1, 0]);
    f.extend_from_slice(&[0u8; 8]);
    f.extend_from_slice(&2u16.to_le_bytes()); // executable
    f.extend_from_slice(&62u16.to_le_bytes()); // x86-64
    f.extend_from_slice(&1u32.to_le_bytes());
    f.extend_from_slice(&addr.to_le_bytes()); // entry
    f.extend_from_slice(&0u64.to_le_bytes()); // no program headers
    f.extend_from_slice(&sh_off.to_le_bytes());
    f.extend_from_slice(&0u32.to_le_bytes());
    f.extend_from_slice(&64u16.to_le_bytes());
    f.extend_from_slice(&56u16.to_le_bytes());
    f.extend_from_slice(&0u16.to_le_bytes());
    f.extend_from_slice(&64u16.to_le_bytes());
    f.extend_from_slice(&3u16.to_le_bytes());
    f.extend_from_slice(&2u16.to_le_bytes());
    assert_eq!(f.len(), 64);
    f.extend_from_slice(code);
    f.extend_from_slice(shstrtab);
    f.resize(sh_off as usize, 0);
    let mut section = |name: u32, kind: u32, flags: u64, a: u64, off: u64, size: u64, align: u64| {
        f.extend_from_slice(&name.to_le_bytes());
        f.extend_from_slice(&kind.to_le_bytes());
        f.extend_from_slice(&flags.to_le_bytes());
        f.extend_from_slice(&a.to_le_bytes());
        f.extend_from_slice(&off.to_le_bytes());
        f.extend_from_slice(&size.to_le_bytes());
        f.extend_from_slice(&0u32.to_le_bytes());
        f.extend_from_slice(&0u32.to_le_bytes());
        f.extend_from_slice(&align.to_le_bytes());
        f.extend_from_slice(&0u64.to_le_bytes());
    };
    section(0, 0, 0, 0, 0, 0, 0);
    section(1, 1, 6, addr, text_off, code.len() as u64, 16);
    section(7, 3, 0, 0, str_off, shstrtab.len() as u64, 1);
    f
}

#[test]
fn automatic_from_object_headers() {
    let elf = tiny_elf(&[0x90, 0xc3], 0x40_1000);
    let rows = disassembler(&elf).unwrap();
    assert_eq!(
        rows,
        vec![
            (0x40_1000, "90".to_string(), "nop".to_string(), String::new()),
            (0x40_1001, "c3".to_string(), "ret".to_string(), String::new()),
        ]
    );
}

#[test]
fn object_architecture_names() {
    assert_eq!(arch_of_name("X86_64"), Arch::X86_64);
    assert_eq!(arch_of_name("Riscv32"), Arch::Riscv32);
    assert_eq!(arch_of_name("PowerPc64"), Arch::PowerPc64);
    assert_eq!(arch_of_name("PowerPc"), Arch::Other);
    assert_eq!(arch_of_name("Sparc64"), Arch::Other);
}
