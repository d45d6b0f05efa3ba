# fwx

Firmware triage library with machine-checked contracts (Verus), plus the
terminal viewer around it.

Layout:

- `src/verify.rs` — structural verifiers for the formats a magic number may
  announce (gzip, zlib, LZMA, LZ4, Zstandard, tar, Intel HEX, S-records, cpio,
  zip, JFFS2, ext2/3/4, SquashFS, CramFS, uImage, TRX, device trees, PE,
  Mach-O, DER), the byte readers and the CRC-32 they rest on. Each verifier is
  specified by a spec function over the byte sequence.
- `src/type_identify.rs` — the signature table and `identify`, with laws on
  what a hit means and on lookup order.
- `src/metadata.rs` — string extraction (through `rust-strings`) and the
  prioritisation of interesting strings.
- `src/disassemble.rs` — parsing of user-supplied metadata, the choice of the
  capstone engine, and the listing built from decoded instructions; object
  files are read with the `object` crate.
- `src/extract.rs` — signature scanning of the image with `binwalk`.
- `src/ui.rs` — the viewer's decisions: focus, key handling, the
  manual-metadata form and its lines, the disassembly listing it installs,
  and list scrolling.
- `src/text.rs` — character helpers.
- `app/` — the terminal program: argument handling, file reading, binwalk
  extraction to disk, entropy (floating point) and all drawing.
