//! Format verifiers: given the bytes that start where a magic number was
//! found, decide whether the surrounding header is structurally sound.
//! Every verifier is a total function on the byte string; its contract is a
//! spec function over `Seq<u8>` that states the format rule directly.
use vstd::prelude::*;

verus! {

// ---------------------------------------------------------------------------
// Byte-level models
// ---------------------------------------------------------------------------

/// Little-endian 16-bit value stored at `o`.
pub open spec fn le16(d: Seq<u8>, o: int) -> int {
    d[o] + d[o + 1] * 256
}

/// Big-endian 16-bit value stored at `o`.
pub open spec fn be16(d: Seq<u8>, o: int) -> int {
    d[o] * 256 + d[o + 1]
}

/// Little-endian 32-bit value stored at `o`.
pub open spec fn le32(d: Seq<u8>, o: int) -> int {
    d[o] + d[o + 1] * 0x100 + d[o + 2] * 0x1_0000 + d[o + 3] * 0x100_0000
}

/// Big-endian 32-bit value stored at `o`.
pub open spec fn be32(d: Seq<u8>, o: int) -> int {
    d[o] * 0x100_0000 + d[o + 1] * 0x1_0000 + d[o + 2] * 0x100 + d[o + 3]
}

/// Little-endian 64-bit value stored at `o`.
pub open spec fn le64(d: Seq<u8>, o: int) -> int {
    le32(d, o) + le32(d, o + 4) * 0x1_0000_0000
}

/// `n` bytes starting at `o` lie inside `d`.
pub open spec fn fits(d: Seq<u8>, o: int, n: int) -> bool {
    0 <= o && o + n <= d.len()
}

/// The bytes of `d` at `o` are exactly `pat`.
pub open spec fn bytes_at(d: Seq<u8>, o: int, pat: Seq<u8>) -> bool {
    fits(d, o, pat.len() as int) && d.subrange(o, o + pat.len()) == pat
}

pub fn u16_le(d: &[u8], o: usize) -> (r: Option<u16>)
    ensures
        match r {
            Some(v) => fits(d@, o as int, 2) && v == le16(d@, o as int),
            None => !fits(d@, o as int, 2),
        },
{
    if o < d.len() && d.len() - o >= 2 {
        Some(d[o] as u16 + d[o + 1] as u16 * 256)
    } else {
        None
    }
}

pub fn u16_be(d: &[u8], o: usize) -> (r: Option<u16>)
    ensures
        match r {
            Some(v) => fits(d@, o as int, 2) && v == be16(d@, o as int),
            None => !fits(d@, o as int, 2),
        },
{
    if o < d.len() && d.len() - o >= 2 {
        Some(d[o] as u16 * 256 + d[o + 1] as u16)
    } else {
        None
    }
}

pub fn u32_le(d: &[u8], o: usize) -> (r: Option<u32>)
    ensures
        match r {
            Some(v) => fits(d@, o as int, 4) && v == le32(d@, o as int),
            None => !fits(d@, o as int, 4),
        },
{
    if o < d.len() && d.len() - o >= 4 {
        Some(
            d[o] as u32 + d[o + 1] as u32 * 0x100 + d[o + 2] as u32 * 0x1_0000 + d[o + 3] as u32
                * 0x100_0000,
        )
    } else {
        None
    }
}

pub fn u32_be(d: &[u8], o: usize) -> (r: Option<u32>)
    ensures
        match r {
            Some(v) => fits(d@, o as int, 4) && v == be32(d@, o as int),
            None => !fits(d@, o as int, 4),
        },
{
    if o < d.len() && d.len() - o >= 4 {
        Some(
            d[o] as u32 * 0x100_0000 + d[o + 1] as u32 * 0x1_0000 + d[o + 2] as u32 * 0x100
                + d[o + 3] as u32,
        )
    } else {
        None
    }
}

pub fn u64_le(d: &[u8], o: usize) -> (r: Option<u64>)
    ensures
        match r {
            Some(v) => fits(d@, o as int, 8) && v == le64(d@, o as int),
            None => !fits(d@, o as int, 8),
        },
{
    let lo = match u32_le(d, o) {
        Some(v) => v as u64,
        None => return None,
    };
    assert(o + 4 <= d.len());
    let hi = match u32_le(d, o + 4) {
        Some(v) => v as u64,
        None => return None,
    };
    Some(hi * 0x1_0000_0000 + lo)
}

/// Reads one of the two byte orders, chosen by `big`.
pub open spec fn rd16(big: bool, d: Seq<u8>, o: int) -> int {
    if big { be16(d, o) } else { le16(d, o) }
}

/// Reads one of the two byte orders, chosen by `big`.
pub open spec fn rd32(big: bool, d: Seq<u8>, o: int) -> int {
    if big { be32(d, o) } else { le32(d, o) }
}

fn read16(big: bool, d: &[u8], o: usize) -> (r: Option<u16>)
    ensures
        match r {
            Some(v) => fits(d@, o as int, 2) && v == rd16(big, d@, o as int),
            None => !fits(d@, o as int, 2),
        },
{
    if big { u16_be(d, o) } else { u16_le(d, o) }
}

fn read32(big: bool, d: &[u8], o: usize) -> (r: Option<u32>)
    ensures
        match r {
            Some(v) => fits(d@, o as int, 4) && v == rd32(big, d@, o as int),
            None => !fits(d@, o as int, 4),
        },
{
    if big { u32_be(d, o) } else { u32_le(d, o) }
}

/// Compares the bytes of `d` at `o` with `pat`.
pub fn matches_at(d: &[u8], o: usize, pat: &[u8]) -> (r: bool)
    ensures
        r == bytes_at(d@, o as int, pat@),
{
    if o > d.len() || d.len() - o < pat.len() {
        return false;
    }
    let mut i: usize = 0;
    while i < pat.len()
        invariant
            o + pat.len() <= d.len(),
            i <= pat@.len(),
            forall|k: int| 0 <= k < i ==> d@[o + k] == pat@[k],
        decreases pat@.len() - i,
    {
        if d[o + i] != pat[i] {
            assert(d@.subrange(o as int, o + pat@.len())[i as int] != pat@[i as int]);
            return false;
        }
        i = i + 1;
    }
    assert(d@.subrange(o as int, o + pat@.len()) =~= pat@);
    true
}

// ---------------------------------------------------------------------------
// ASCII hex digits (Intel HEX and Motorola S-Record)
// ---------------------------------------------------------------------------

/// Value of an ASCII hex digit, either case.
pub open spec fn hex_value(c: u8) -> Option<u8> {
    if 0x30 <= c <= 0x39 {
        Some((c - 0x30) as u8)
    } else if 0x61 <= c <= 0x66 {
        Some((c - 0x61 + 10) as u8)
    } else if 0x41 <= c <= 0x46 {
        Some((c - 0x41 + 10) as u8)
    } else {
        None
    }
}

pub fn hex_swap(c: u8) -> (r: Option<u8>)
    ensures
        r == hex_value(c),
        r matches Some(v) ==> v < 16,
{
    if 0x30 <= c && c <= 0x39 {
        Some(c - 0x30)
    } else if 0x61 <= c && c <= 0x66 {
        Some(c - 0x61 + 10)
    } else if 0x41 <= c && c <= 0x46 {
        Some(c - 0x41 + 10)
    } else {
        None
    }
}

/// The `i`-th byte of an ASCII hex string: two digits, high nibble first.
pub open spec fn hex_byte_at(s: Seq<u8>, i: int) -> Option<u8> {
    if 0 <= i && 2 * i + 1 < s.len() {
        match (hex_value(s[2 * i]), hex_value(s[2 * i + 1])) {
            (Some(hi), Some(lo)) => Some((hi * 16 + lo) as u8),
            _ => None,
        }
    } else {
        None
    }
}

pub fn hex_byte(s: &[u8], i: usize) -> (r: Option<u8>)
    requires
        2 * i <= usize::MAX,
    ensures
        r == hex_byte_at(s@, i as int),
{
    if 2 * i >= s.len() || s.len() - 2 * i < 2 {
        return None;
    }
    let hi = match hex_swap(s[2 * i]) {
        Some(v) => v,
        None => return None,
    };
    let lo = match hex_swap(s[2 * i + 1]) {
        Some(v) => v,
        None => return None,
    };
    Some(hi * 16 + lo)
}

/// Sum of the first `n` decoded bytes of a hex string, or `None` when one of
/// them is not two hex digits.
pub open spec fn hex_sum(s: Seq<u8>, n: nat) -> Option<int>
    decreases n,
{
    if n == 0 {
        Some(0)
    } else {
        match (hex_sum(s, (n - 1) as nat), hex_byte_at(s, n - 1)) {
            (Some(t), Some(b)) => Some(t + b),
            _ => None,
        }
    }
}

proof fn lemma_hex_sum_none_grows(s: Seq<u8>, n: nat, m: nat)
    requires
        n <= m,
        hex_sum(s, n) is None,
    ensures
        hex_sum(s, m) is None,
    decreases m - n,
{
    if n < m {
        lemma_hex_sum_none_grows(s, n, (m - 1) as nat);
    }
}

proof fn lemma_hex_sum_bound(s: Seq<u8>, n: nat)
    ensures
        hex_sum(s, n) matches Some(t) ==> 0 <= t <= 255 * n,
    decreases n,
{
    if n > 0 {
        lemma_hex_sum_bound(s, (n - 1) as nat);
    }
}

/// Adds the decoded bytes `from..to` of a hex string to `acc`.
fn add_hex_bytes(s: &[u8], from: usize, to: usize, acc: u32) -> (r: Option<u32>)
    requires
        from <= to <= 1000,
        hex_sum(s@, from as nat) == Some(acc as int),
    ensures
        match r {
            Some(t) => hex_sum(s@, to as nat) == Some(t as int),
            None => hex_sum(s@, to as nat) is None,
        },
{
    let mut sum: u32 = acc;
    let mut i: usize = from;
    while i < to
        invariant
            from <= i <= to <= 1000,
            hex_sum(s@, i as nat) == Some(sum as int),
        decreases to - i,
    {
        proof {
            lemma_hex_sum_bound(s@, i as nat);
        }
        match hex_byte(s, i) {
            Some(b) => {
                sum = sum + b as u32;
            },
            None => {
                proof {
                    lemma_hex_sum_none_grows(s@, (i + 1) as nat, to as nat);
                }
                return None;
            },
        }
        i = i + 1;
    }
    Some(sum)
}

// ---------------------------------------------------------------------------
// CRC-32 (reflected, polynomial 0xEDB88320)
// ---------------------------------------------------------------------------

/// One bit step of the reflected CRC-32 register.
pub open spec fn crc_shift(c: u32) -> u32 {
    if c & 1 != 0 {
        (c >> 1) ^ 0xEDB8_8320
    } else {
        c >> 1
    }
}

/// `k` bit steps of the register.
pub open spec fn crc_shifts(c: u32, k: nat) -> u32
    decreases k,
{
    if k == 0 {
        c
    } else {
        crc_shift(crc_shifts(c, (k - 1) as nat))
    }
}

/// The register after feeding one byte.
pub open spec fn crc_byte(c: u32, b: u8) -> u32 {
    crc_shifts(c ^ (b as u32), 8)
}

/// The register after feeding every byte of `s`, starting from `c`.
pub open spec fn crc_update_spec(c: u32, s: Seq<u8>) -> u32
    decreases s.len(),
{
    if s.len() == 0 {
        c
    } else {
        crc_byte(crc_update_spec(c, s.drop_last()), s.last())
    }
}

/// The standard (zlib / IEEE) CRC-32: preset and final inversion.
pub open spec fn spec_crc32(s: Seq<u8>) -> u32 {
    crc_update_spec(0xFFFF_FFFF, s) ^ 0xFFFF_FFFF
}

/// The JFFS2 variant: register preset to zero, no final inversion.
pub open spec fn spec_crc32_jffs2(s: Seq<u8>) -> u32 {
    crc_update_spec(0, s)
}

pub fn crc32_update(crc: u32, data: &[u8]) -> (r: u32)
    ensures
        r == crc_update_spec(crc, data@),
{
    let mut c: u32 = crc;
    let mut i: usize = 0;
    while i < data.len()
        invariant
            i <= data@.len(),
            c == crc_update_spec(crc, data@.take(i as int)),
        decreases data@.len() - i,
    {
        let ghost before = c;
        c = c ^ (data[i] as u32);
        let ghost start = c;
        let mut k: usize = 0;
        while k < 8
            invariant
                k <= 8,
                c == crc_shifts(start, k as nat),
            decreases 8 - k,
        {
            c = if c & 1 != 0 {
                (c >> 1) ^ 0xEDB8_8320
            } else {
                c >> 1
            };
            k = k + 1;
        }
        assert(data@.take(i + 1).drop_last() =~= data@.take(i as int));
        assert(c == crc_byte(before, data@[i as int]));
        i = i + 1;
    }
    assert(data@.take(data@.len() as int) =~= data@);
    c
}

pub fn crc32(data: &[u8]) -> (r: u32)
    ensures
        r == spec_crc32(data@),
{
    crc32_update(0xFFFF_FFFF, data) ^ 0xFFFF_FFFF
}

pub fn crc32_jffs2(data: &[u8]) -> (r: u32)
    ensures
        r == spec_crc32_jffs2(data@),
{
    crc32_update(0, data)
}

/// Feeding two byte strings one after the other leaves the register where
/// feeding their concatenation does: a CRC can be computed incrementally.
pub proof fn lemma_crc_update_concat(c: u32, a: Seq<u8>, b: Seq<u8>)
    ensures
        crc_update_spec(c, a + b) == crc_update_spec(crc_update_spec(c, a), b),
    decreases b.len(),
{
    if b.len() == 0 {
        assert(a + b =~= a);
    } else {
        lemma_crc_update_concat(c, a, b.drop_last());
        assert((a + b).drop_last() =~= a + b.drop_last());
        assert((a + b).last() == b.last());
    }
}


// ---------------------------------------------------------------------------
// Verifiers: compression
// ---------------------------------------------------------------------------

/// gzip: magic 1F 8B, method 8 (deflate), reserved flag bits 5..7 clear, and
/// room for the ten-byte member header.
pub open spec fn spec_gzip(d: Seq<u8>) -> bool {
    &&& d.len() >= 10
    &&& d[0] == 0x1F
    &&& d[1] == 0x8B
    &&& d[2] == 0x08
    &&& d[3] & 0xE0 == 0
}

pub fn gzip(data: &[u8]) -> (r: bool)
    ensures
        r == spec_gzip(data@),
{
    data.len() >= 10 && data[0] == 0x1F && data[1] == 0x8B && data[2] == 0x08 && data[3] & 0xE0
        == 0
}

/// zlib: method 8, window exponent CINFO at most 7, and the two header bytes
/// read as a big-endian number are a multiple of 31.
pub open spec fn spec_zlib(d: Seq<u8>) -> bool {
    &&& d.len() >= 2
    &&& d[0] & 0x0F == 8
    &&& d[0] >> 4 <= 7
    &&& (d[0] * 256 + d[1]) % 31 == 0
}

pub fn zlib(data: &[u8]) -> (r: bool)
    ensures
        r == spec_zlib(data@),
{
    if data.len() < 2 {
        return false;
    }
    let cmf = data[0];
    let flg = data[1];
    cmf & 0x0F == 8 && cmf >> 4 <= 7 && (cmf as u16 * 256 + flg as u16) % 31 == 0
}

/// LZMA "alone" header: properties byte below 225, dictionary size in
/// 4 KiB ..= 512 MiB, and an uncompressed size that is either the
/// "unknown" sentinel or below 16 GiB.
pub open spec fn spec_lzma(d: Seq<u8>) -> bool {
    &&& d.len() >= 13
    &&& d[0] < 225
    &&& 0x1000 <= le32(d, 1) <= 0x2000_0000
    &&& (le64(d, 5) == u64::MAX || le64(d, 5) < 0x4_0000_0000)
}

pub fn lzma(data: &[u8]) -> (r: bool)
    ensures
        r == spec_lzma(data@),
{
    if data.len() < 1 {
        return false;
    }
    let props = data[0];
    let (dict, size) = match (u32_le(data, 1), u64_le(data, 5)) {
        (Some(a), Some(b)) => (a, b),
        _ => return false,
    };
    props < 225 && 0x1000 <= dict && dict <= 0x2000_0000 && (size == u64::MAX || size
        < 0x4_0000_0000)
}

/// LZ4 frame: magic 04 22 4D 18, FLG version bits `01` with reserved bit 1
/// clear, BD reserved bits clear and a block maximum code of 4..=7.
pub open spec fn spec_lz4(d: Seq<u8>) -> bool {
    &&& d.len() >= 7
    &&& d[0] == 0x04 && d[1] == 0x22 && d[2] == 0x4D && d[3] == 0x18
    &&& d[4] >> 6 == 1
    &&& d[4] & 2 == 0
    &&& d[5] & 0x8F == 0
    &&& 4 <= (d[5] >> 4) & 7 <= 7
}

pub fn lz4(data: &[u8]) -> (r: bool)
    ensures
        r == spec_lz4(data@),
{
    if data.len() < 7 {
        return false;
    }
    let flg = data[4];
    let bd = data[5];
    data[0] == 0x04 && data[1] == 0x22 && data[2] == 0x4D && data[3] == 0x18 && flg >> 6 == 1
        && flg & 2 == 0 && bd & 0x8F == 0 && 4 <= (bd >> 4) & 7 && (bd >> 4) & 7 <= 7
}

/// Zstandard frame: magic 28 B5 2F FD, reserved descriptor bit 3 clear, and
/// unless the single-segment flag is set, a window descriptor whose window
/// log (10 + exponent) is at most 41.
pub open spec fn spec_zstd(d: Seq<u8>) -> bool {
    &&& d.len() >= 5
    &&& d[0] == 0x28 && d[1] == 0xB5 && d[2] == 0x2F && d[3] == 0xFD
    &&& d[4] & 0x08 == 0
    &&& (d[4] & 0x20 != 0 || (d.len() >= 6 && 10 + (d[5] >> 3) <= 41))
}

pub fn zstd(data: &[u8]) -> (r: bool)
    ensures
        r == spec_zstd(data@),
{
    if data.len() < 5 {
        return false;
    }
    let fhd = data[4];
    if !(data[0] == 0x28 && data[1] == 0xB5 && data[2] == 0x2F && data[3] == 0xFD) || fhd & 0x08
        != 0 {
        return false;
    }
    if fhd & 0x20 != 0 {
        return true;
    }
    if data.len() < 6 {
        return false;
    }
    10 + (data[5] >> 3) as u32 <= 41
}

// ---------------------------------------------------------------------------
// Verifiers: archives
// ---------------------------------------------------------------------------

/// A padding byte of a tar numeric field: space or NUL.
pub open spec fn is_pad(b: u8) -> bool {
    b == 0x20 || b == 0
}

pub open spec fn is_octal_digit(b: u8) -> bool {
    0x30 <= b <= 0x37
}

/// First index at or after `i` that does not hold padding.
pub open spec fn skip_pads(s: Seq<u8>, i: int) -> int
    decreases s.len() - i,
{
    if 0 <= i < s.len() && is_pad(s[i]) {
        skip_pads(s, i + 1)
    } else {
        i
    }
}

/// First index at or after `i` that does not hold an octal digit.
pub open spec fn skip_octal(s: Seq<u8>, i: int) -> int
    decreases s.len() - i,
{
    if 0 <= i < s.len() && is_octal_digit(s[i]) {
        skip_octal(s, i + 1)
    } else {
        i
    }
}

/// Value of a string of octal digits.
pub open spec fn octal_value(s: Seq<u8>) -> int
    decreases s.len(),
{
    if s.len() == 0 {
        0
    } else {
        octal_value(s.drop_last()) * 8 + (s.last() - 0x30)
    }
}

/// A tar numeric field: optional padding, one or more octal digits, then the
/// end of the field or a padding byte (after which anything may follow).
/// The value must fit in 32 bits.
pub open spec fn spec_parse_octal(f: Seq<u8>) -> Option<u32> {
    let p = skip_pads(f, 0);
    let q = skip_octal(f, p);
    if p >= f.len() || !is_octal_digit(f[p]) {
        None
    } else if q < f.len() && !is_pad(f[q]) {
        None
    } else if octal_value(f.subrange(p, q)) > u32::MAX {
        None
    } else {
        Some(octal_value(f.subrange(p, q)) as u32)
    }
}

proof fn lemma_skip_pads_range(s: Seq<u8>, i: int)
    requires
        0 <= i <= s.len(),
    ensures
        i <= skip_pads(s, i) <= s.len(),
        skip_pads(s, i) < s.len() ==> !is_pad(s[skip_pads(s, i)]),
        forall|k: int| i <= k < skip_pads(s, i) ==> is_pad(#[trigger] s[k]),
    decreases s.len() - i,
{
    if i < s.len() && is_pad(s[i]) {
        lemma_skip_pads_range(s, i + 1);
    }
}

proof fn lemma_skip_octal_range(s: Seq<u8>, i: int)
    requires
        0 <= i <= s.len(),
    ensures
        i <= skip_octal(s, i) <= s.len(),
        skip_octal(s, i) < s.len() ==> !is_octal_digit(s[skip_octal(s, i)]),
        forall|k: int| i <= k < skip_octal(s, i) ==> is_octal_digit(#[trigger] s[k]),
    decreases s.len() - i,
{
    if i < s.len() && is_octal_digit(s[i]) {
        lemma_skip_octal_range(s, i + 1);
    }
}

proof fn lemma_octal_value_nonneg(s: Seq<u8>)
    requires
        forall|k: int| 0 <= k < s.len() ==> is_octal_digit(#[trigger] s[k]),
    ensures
        octal_value(s) >= 0,
    decreases s.len(),
{
    if s.len() > 0 {
        lemma_octal_value_nonneg(s.drop_last());
    }
}

/// Appending digits never makes an octal number smaller.
proof fn lemma_octal_value_prefix(s: Seq<u8>, k: int)
    requires
        0 <= k <= s.len(),
        forall|j: int| 0 <= j < s.len() ==> is_octal_digit(#[trigger] s[j]),
    ensures
        octal_value(s.take(k)) <= octal_value(s),
    decreases s.len() - k,
{
    if k < s.len() {
        assert(s.drop_last().take(k) =~= s.take(k));
        lemma_octal_value_prefix(s.drop_last(), k);
        lemma_octal_value_nonneg(s.drop_last());
    } else {
        assert(s.take(k) =~= s);
    }
}

proof fn lemma_skip_pads_to(f: Seq<u8>, i: int, n: int)
    requires
        0 <= i <= n < f.len(),
        forall|k: int| i <= k < n ==> is_pad(#[trigger] f[k]),
        !is_pad(f[n]),
    ensures
        skip_pads(f, i) == n,
    decreases n - i,
{
    if i < n {
        lemma_skip_pads_to(f, i + 1, n);
    }
}

proof fn lemma_skip_octal_to(f: Seq<u8>, i: int, n: int)
    requires
        0 <= i <= n <= f.len(),
        forall|k: int| i <= k < n ==> is_octal_digit(#[trigger] f[k]),
        n == f.len() || !is_octal_digit(f[n]),
    ensures
        skip_octal(f, i) == n,
    decreases n - i,
{
    if i < n {
        lemma_skip_octal_to(f, i + 1, n);
    }
}

/// A field laid out as padding (spaces or NULs), one or more octal digits
/// whose value fits in 32 bits, and then either nothing or a padding byte
/// followed by anything.
pub open spec fn octal_layout(pads: Seq<u8>, digits: Seq<u8>, rest: Seq<u8>) -> bool {
    &&& forall|k: int| 0 <= k < pads.len() ==> is_pad(#[trigger] pads[k])
    &&& digits.len() >= 1
    &&& forall|k: int| 0 <= k < digits.len() ==> is_octal_digit(#[trigger] digits[k])
    &&& rest.len() == 0 || is_pad(rest[0])
    &&& octal_value(digits) <= u32::MAX
}

/// A field with that layout parses to the value of its digits.
pub proof fn law_parse_octal_layout(pads: Seq<u8>, digits: Seq<u8>, rest: Seq<u8>)
    requires
        octal_layout(pads, digits, rest),
    ensures
        spec_parse_octal(pads + digits + rest) == Some(octal_value(digits) as u32),
{
    let f = pads + digits + rest;
    let p = pads.len() as int;
    let q = p + digits.len();
    assert forall|k: int| 0 <= k < p implies is_pad(#[trigger] f[k]) by {
        assert(f[k] == pads[k]);
    }
    assert(f[p] == digits[0]);
    lemma_skip_pads_to(f, 0, p);
    assert forall|k: int| p <= k < q implies is_octal_digit(#[trigger] f[k]) by {
        assert(f[k] == digits[k - p]);
    }
    if q < f.len() {
        assert(f[q] == rest[0]);
    }
    lemma_skip_octal_to(f, p, q);
    assert(f.subrange(p, q) =~= digits);
}

/// A field parses only when it has that layout, and then to the value of
/// its digits.
pub proof fn law_parse_octal_only_layout(f: Seq<u8>)
    requires
        spec_parse_octal(f) is Some,
    ensures
        exists|pads: Seq<u8>, digits: Seq<u8>, rest: Seq<u8>|
            #![trigger octal_layout(pads, digits, rest)]
            f == pads + digits + rest && octal_layout(pads, digits, rest) && spec_parse_octal(f)
                == Some(octal_value(digits) as u32),
{
    let p = skip_pads(f, 0);
    lemma_skip_pads_range(f, 0);
    let q = skip_octal(f, p);
    lemma_skip_octal_range(f, p);
    let pads = f.take(p);
    let digits = f.subrange(p, q);
    let rest = f.skip(q);
    assert(q > p);
    assert forall|k: int| 0 <= k < pads.len() implies is_pad(#[trigger] pads[k]) by {
        assert(pads[k] == f[k]);
    }
    assert forall|k: int| 0 <= k < digits.len() implies is_octal_digit(#[trigger] digits[k]) by {
        assert(digits[k] == f[p + k]);
    }
    if rest.len() > 0 {
        assert(rest[0] == f[q]);
    }
    assert(f =~= pads + digits + rest);
    assert(octal_layout(pads, digits, rest));
}

pub fn parse_octal(field: &[u8]) -> (r: Option<u32>)
    ensures
        r == spec_parse_octal(field@),
{
    let ghost f = field@;
    let mut i: usize = 0;
    while i < field.len() && (field[i] == 0x20 || field[i] == 0)
        invariant
            i <= f.len(),
            f == field@,
            skip_pads(f, 0) == skip_pads(f, i as int),
        decreases f.len() - i,
    {
        i = i + 1;
    }
    let p = i;
    proof {
        lemma_skip_pads_range(f, 0);
    }
    assert(p as int == skip_pads(f, 0));
    if p >= field.len() || !(0x30 <= field[p] && field[p] <= 0x37) {
        return None;
    }
    let mut val: u32 = 0;
    proof {
        lemma_skip_octal_range(f, p as int);
        assert(f.subrange(p as int, p as int) =~= Seq::<u8>::empty());
    }
    let ghost q = skip_octal(f, p as int);
    while i < field.len() && 0x30 <= field[i] && field[i] <= 0x37
        invariant
            p <= i <= q <= f.len(),
            f == field@,
            q == skip_octal(f, p as int),
            q == skip_octal(f, i as int),
            p == skip_pads(f, 0),
            p < f.len(),
            is_octal_digit(f[p as int]),
            forall|k: int| p <= k < q ==> is_octal_digit(#[trigger] f[k]),
            val == octal_value(f.subrange(p as int, i as int)),
        decreases f.len() - i,
    {
        let ghost next = f.subrange(p as int, i + 1);
        assert(next.drop_last() =~= f.subrange(p as int, i as int));
        let digit = (field[i] - 0x30) as u32;
        proof {
            assert(q == skip_octal(f, i + 1));
            lemma_skip_octal_range(f, i + 1);
            assert(forall|k: int| 0 <= k < f.subrange(p as int, q).len() ==> is_octal_digit(
                #[trigger] f.subrange(p as int, q)[k],
            ));
            assert(f.subrange(p as int, q).take(i + 1 - p) =~= next);
            lemma_octal_value_prefix(f.subrange(p as int, q), i + 1 - p);
            assert(octal_value(next) == val * 8 + (f[i as int] - 0x30));
        }
        let m = match val.checked_mul(8) {
            Some(m) => m,
            None => return None,
        };
        val = match m.checked_add(digit) {
            Some(v) => v,
            None => return None,
        };
        i = i + 1;
    }
    assert(i as int == q);
    if i < field.len() && !(field[i] == 0x20 || field[i] == 0) {
        return None;
    }
    Some(val)
}

/// tar header checksum: the sum of the first `n` header bytes, the eight
/// checksum bytes 148..156 counted as ASCII spaces.
pub open spec fn tar_sum(h: Seq<u8>, n: nat) -> int
    decreases n,
{
    if n == 0 {
        0
    } else {
        tar_sum(h, (n - 1) as nat) + if 148 <= n - 1 < 156 {
            0x20
        } else {
            h[n - 1] as int
        }
    }
}

proof fn lemma_tar_sum_bound(h: Seq<u8>, n: nat)
    ensures
        0 <= tar_sum(h, n) <= 255 * n,
    decreases n,
{
    if n > 0 {
        lemma_tar_sum_bound(h, (n - 1) as nat);
    }
}

pub open spec fn ustar_magic() -> Seq<u8> {
    seq![0x75u8, 0x73, 0x74, 0x61, 0x72]
}

/// tar header block: the magic field at 257 reads "ustar" (POSIX) or is empty
/// (pre-POSIX), and the octal checksum field at 148..156 equals the header sum.
pub open spec fn spec_tar(d: Seq<u8>) -> bool {
    &&& d.len() >= 512
    &&& (bytes_at(d, 257, ustar_magic()) || bytes_at(d, 257, seq![0u8, 0, 0, 0, 0]))
    &&& spec_parse_octal(d.subrange(148, 156)) == Some(tar_sum(d, 512) as u32)
}

pub fn tar(data: &[u8]) -> (r: bool)
    ensures
        r == spec_tar(data@),
{
    if data.len() < 512 {
        return false;
    }
    let ustar: [u8; 5] = [0x75, 0x73, 0x74, 0x61, 0x72];
    let empty: [u8; 5] = [0, 0, 0, 0, 0];
    assert(ustar@ =~= ustar_magic());
    assert(empty@ =~= seq![0u8, 0, 0, 0, 0]);
    if !(matches_at(data, 257, &ustar) || matches_at(data, 257, &empty)) {
        return false;
    }
    let stored = match parse_octal(vstd::slice::slice_subrange(data, 148, 156)) {
        Some(v) => v,
        None => return false,
    };
    let mut sum: u32 = 0;
    let mut i: usize = 0;
    while i < 512
        invariant
            i <= 512 <= data@.len(),
            sum == tar_sum(data@, i as nat),
        decreases 512 - i,
    {
        proof {
            lemma_tar_sum_bound(data@, i as nat);
        }
        if 148 <= i && i < 156 {
            sum = sum + 0x20;
        } else {
            sum = sum + data[i] as u32;
        }
        i = i + 1;
    }
    proof {
        lemma_tar_sum_bound(data@, 512);
    }
    sum == stored
}

/// Intel HEX record `:llaaaatt(dd...)cc`: the record type is at most 5 and
/// the `5 + ll` decoded bytes (count, address, type, data, checksum) sum to
/// zero modulo 256.
pub open spec fn spec_intel_hex(d: Seq<u8>) -> bool {
    &&& d.len() >= 1
    &&& d[0] == 0x3A
    &&& match (hex_byte_at(d.drop_first(), 0), hex_byte_at(d.drop_first(), 3)) {
        (Some(count), Some(rectype)) => rectype <= 5 && match hex_sum(
            d.drop_first(),
            (5 + count) as nat,
        ) {
            Some(t) => t % 256 == 0,
            None => false,
        },
        _ => false,
    }
}

pub fn intel_hex(data: &[u8]) -> (r: bool)
    ensures
        r == spec_intel_hex(data@),
{
    if data.len() < 1 || data[0] != 0x3A {
        return false;
    }
    let hex = vstd::slice::slice_subrange(data, 1, data.len());
    assert(hex@ =~= data@.drop_first());
    let count = match hex_byte(hex, 0) {
        Some(c) => c,
        None => return false,
    };
    let rectype = match hex_byte(hex, 3) {
        Some(t) => t,
        None => return false,
    };
    if rectype > 5 {
        return false;
    }
    let total = 5 + count as usize;
    match add_hex_bytes(hex, 0, total, 0) {
        Some(sum) => sum % 256 == 0,
        None => false,
    }
}

/// Motorola S-record `Stcc(aaaa...)(dd...)kk`: `t` is a decimal digit other
/// than 4, the count `cc` is at least 3, and the count byte plus the `cc`
/// bytes it covers sum to 0xFF modulo 256.
pub open spec fn spec_srecord(d: Seq<u8>) -> bool {
    &&& d.len() >= 2
    &&& d[0] == 0x53
    &&& 0x30 <= d[1] <= 0x39
    &&& d[1] != 0x34
    &&& match hex_byte_at(d.skip(2), 0) {
        Some(count) => count >= 3 && match hex_sum(d.skip(2), (count + 1) as nat) {
            Some(t) => t % 256 == 0xFF,
            None => false,
        },
        None => false,
    }
}

pub fn srecord(data: &[u8]) -> (r: bool)
    ensures
        r == spec_srecord(data@),
{
    if data.len() < 2 || data[0] != 0x53 {
        return false;
    }
    let t = data[1];
    if !(0x30 <= t && t <= 0x39) || t == 0x34 {
        return false;
    }
    let hex = vstd::slice::slice_subrange(data, 2, data.len());
    assert(hex@ =~= data@.skip(2));
    let count = match hex_byte(hex, 0) {
        Some(c) => c,
        None => return false,
    };
    if count < 3 {
        return false;
    }
    assert(hex_sum(hex@, 1) == Some(count as int)) by {
        reveal_with_fuel(hex_sum, 2);
    }
    match add_hex_bytes(hex, 1, count as usize + 1, count as u32) {
        Some(sum) => sum % 256 == 0xFF,
        None => false,
    }
}

pub open spec fn is_hex_digit(b: u8) -> bool {
    (0x30 <= b <= 0x39) || (0x41 <= b <= 0x46) || (0x61 <= b <= 0x66)
}

/// Every byte of `d` in `from..to` satisfies `is_hex_digit` (or, when `octal`
/// is set, `is_octal_digit`).
pub open spec fn all_digits(d: Seq<u8>, from: int, to: int, octal: bool) -> bool {
    forall|k: int|
        from <= k < to ==> if octal {
            is_octal_digit(#[trigger] d[k])
        } else {
            is_hex_digit(d[k])
        }
}

fn check_digits(d: &[u8], from: usize, to: usize, octal: bool) -> (r: bool)
    requires
        from <= to <= d@.len(),
    ensures
        r == all_digits(d@, from as int, to as int, octal),
{
    let mut i = from;
    while i < to
        invariant
            from <= i <= to <= d@.len(),
            all_digits(d@, from as int, i as int, octal),
        decreases to - i,
    {
        let b = d[i];
        let ok = if octal {
            0x30 <= b && b <= 0x37
        } else {
            (0x30 <= b && b <= 0x39) || (0x41 <= b && b <= 0x46) || (0x61 <= b && b <= 0x66)
        };
        if !ok {
            return false;
        }
        i = i + 1;
    }
    true
}

pub open spec fn cpio_magic(last: u8) -> Seq<u8> {
    seq![0x30u8, 0x37, 0x30, 0x37, 0x30, last]
}

/// Portable cpio header: after "070701"/"070702" (newc) come 104 hex digits,
/// after "070707" (old portable) come 66 octal digits.
pub open spec fn spec_cpio(d: Seq<u8>) -> bool {
    if bytes_at(d, 0, cpio_magic(0x31)) || bytes_at(d, 0, cpio_magic(0x32)) {
        d.len() >= 110 && all_digits(d, 6, 110, false)
    } else if bytes_at(d, 0, cpio_magic(0x37)) {
        d.len() >= 72 && all_digits(d, 6, 72, true)
    } else {
        false
    }
}

pub fn cpio(data: &[u8]) -> (r: bool)
    ensures
        r == spec_cpio(data@),
{
    let newc: [u8; 6] = [0x30, 0x37, 0x30, 0x37, 0x30, 0x31];
    let crc: [u8; 6] = [0x30, 0x37, 0x30, 0x37, 0x30, 0x32];
    let odc: [u8; 6] = [0x30, 0x37, 0x30, 0x37, 0x30, 0x37];
    assert(newc@ =~= cpio_magic(0x31));
    assert(crc@ =~= cpio_magic(0x32));
    assert(odc@ =~= cpio_magic(0x37));
    if matches_at(data, 0, &newc) || matches_at(data, 0, &crc) {
        data.len() >= 110 && check_digits(data, 6, 110, false)
    } else if matches_at(data, 0, &odc) {
        data.len() >= 72 && check_digits(data, 6, 72, true)
    } else {
        false
    }
}

/// The registered zip compression method identifiers.
pub open spec fn is_zip_method(m: int) -> bool {
    ||| 0 <= m <= 6
    ||| m == 8 || m == 9 || m == 12 || m == 14 || m == 20
    ||| 93 <= m <= 99
}

/// zip local file header: magic "PK\x03\x04", "version needed" low byte at
/// most 63, a registered compression method, and file name plus extra field
/// inside the data.
pub open spec fn spec_zip(d: Seq<u8>) -> bool {
    &&& d.len() >= 30
    &&& d[0] == 0x50 && d[1] == 0x4B && d[2] == 0x03 && d[3] == 0x04
    &&& d[4] <= 63
    &&& is_zip_method(le16(d, 8))
    &&& 30 + le16(d, 26) + le16(d, 28) <= d.len()
}

pub fn zip(data: &[u8]) -> (r: bool)
    ensures
        r == spec_zip(data@),
{
    let (version, method, name_len, extra_len) = match (
        u16_le(data, 4),
        u16_le(data, 8),
        u16_le(data, 26),
        u16_le(data, 28),
    ) {
        (Some(a), Some(b), Some(c), Some(e)) => (a, b, c, e),
        _ => return false,
    };
    let known = matches!(method, 0..=6 | 8 | 9 | 12 | 14 | 20 | 93..=99);
    data[0] == 0x50 && data[1] == 0x4B && data[2] == 0x03 && data[3] == 0x04 && version % 256
        <= 63 && known && 30 + name_len as usize + extra_len as usize <= data.len()
}


// ---------------------------------------------------------------------------
// Verifiers: filesystems
// ---------------------------------------------------------------------------

/// The JFFS2 node types: dirent, inode, cleanmarker, padding, summary,
/// xattr, xref.
pub open spec fn is_jffs2_nodetype(t: int) -> bool {
    t == 0xE001 || t == 0xE002 || t == 0x2003 || t == 0x2004 || t == 0x2006 || t == 0xE008 || t
        == 0xE009
}

/// A JFFS2 node header in one byte order: magic 0x1985, a known node type,
/// total length at least 12, and a header CRC (JFFS2 variant) of the first
/// eight bytes equal to the stored one.
pub open spec fn jffs2_node(d: Seq<u8>, big: bool) -> bool {
    &&& d.len() >= 12
    &&& rd16(big, d, 0) == 0x1985
    &&& is_jffs2_nodetype(rd16(big, d, 2))
    &&& rd32(big, d, 4) >= 12
    &&& spec_crc32_jffs2(d.take(8)) == rd32(big, d, 8)
}

pub open spec fn spec_jffs2(d: Seq<u8>) -> bool {
    jffs2_node(d, false) || jffs2_node(d, true)
}

fn jffs2_check(data: &[u8], big: bool) -> (r: bool)
    ensures
        r == jffs2_node(data@, big),
{
    let (m, nodetype, totlen, stored) = match (
        read16(big, data, 0),
        read16(big, data, 2),
        read32(big, data, 4),
        read32(big, data, 8),
    ) {
        (Some(a), Some(b), Some(c), Some(e)) => (a, b, c, e),
        _ => return false,
    };
    let known = matches!(nodetype, 0xE001 | 0xE002 | 0x2003 | 0x2004 | 0x2006 | 0xE008 | 0xE009);
    let head = vstd::slice::slice_subrange(data, 0, 8);
    assert(head@ =~= data@.take(8));
    m == 0x1985 && known && totlen >= 12 && crc32_jffs2(head) == stored
}

pub fn jffs2(data: &[u8]) -> (r: bool)
    ensures
        r == spec_jffs2(data@),
{
    jffs2_check(data, false) || jffs2_check(data, true)
}

/// A JFFS2 node header with its header CRC filled in: the JFFS2-variant
/// CRC-32 of the first eight bytes, stored at offset 8 in the node's byte
/// order.
pub open spec fn jffs2_sealed(d: Seq<u8>, big: bool) -> Seq<u8> {
    let v = spec_crc32_jffs2(d.take(8));
    let c = if big {
        seq![(v >> 24) as u8, (v >> 16) as u8, (v >> 8) as u8, v as u8]
    } else {
        seq![v as u8, (v >> 8) as u8, (v >> 16) as u8, (v >> 24) as u8]
    };
    d.update(8, c[0]).update(9, c[1]).update(10, c[2]).update(11, c[3])
}

/// A node header with the JFFS2 magic, a known node type and a total length
/// of at least 12 passes once its header CRC is stored: recomputing the CRC
/// is what decides.
pub proof fn law_jffs2_sealed_node_passes(d: Seq<u8>, big: bool)
    requires
        d.len() >= 12,
        rd16(big, d, 0) == 0x1985,
        is_jffs2_nodetype(rd16(big, d, 2)),
        rd32(big, d, 4) >= 12,
    ensures
        spec_jffs2(jffs2_sealed(d, big)),
{
    let v = spec_crc32_jffs2(d.take(8));
    let s = jffs2_sealed(d, big);
    assert(s.take(8) =~= d.take(8));
    assert(((v >> 24) as u8) * 0x100_0000 + ((v >> 16) as u8) * 0x1_0000 + ((v >> 8) as u8) * 0x100
        + (v as u8) == v) by (bit_vector);
    assert(rd32(big, s, 8) == v);
    assert(jffs2_node(s, big));
}

/// ext2/3/4 superblock, 1024 bytes into the filesystem: magic 0xEF53, nonzero
/// inode count, block count and inodes per group, block size exponent <= 6.
pub open spec fn spec_ext(d: Seq<u8>) -> bool {
    &&& d.len() >= 1024 + 58
    &&& le16(d, 1080) == 0xEF53
    &&& le32(d, 1024int) != 0
    &&& le32(d, 1028) != 0
    &&& le32(d, 1064) != 0
    &&& le32(d, 1048) <= 6
}

pub fn ext(data: &[u8]) -> (r: bool)
    ensures
        r == spec_ext(data@),
{
    let (magic, inodes, blocks, log_bs, per_group) = match (
        u16_le(data, 1024 + 56),
        u32_le(data, 1024),
        u32_le(data, 1024 + 4),
        u32_le(data, 1024 + 24),
        u32_le(data, 1024 + 40),
    ) {
        (Some(a), Some(b), Some(c), Some(e), Some(g)) => (a, b, c, e, g),
        _ => return false,
    };
    magic == 0xEF53 && inodes != 0 && blocks != 0 && per_group != 0 && log_bs <= 6
}

/// SquashFS superblock: magic "hsqs" (little-endian) or "sqsh" (big-endian);
/// version major 4 requires block_log in 12..=20 and block_size equal to
/// `1 << block_log`; majors 1..=3 are accepted as they are.
pub open spec fn squashfs_fields(d: Seq<u8>, big: bool) -> bool {
    &&& d.len() >= 30
    &&& {
        let major = rd16(big, d, 28);
        let block_size = rd32(big, d, 12);
        let block_log = rd16(big, d, 22);
        if major == 4 {
            12 <= block_log <= 20 && block_size == (1u32 << (block_log as u32))
        } else {
            1 <= major <= 3
        }
    }
}

pub open spec fn spec_squashfs(d: Seq<u8>) -> bool {
    if bytes_at(d, 0, seq![0x68u8, 0x73, 0x71, 0x73]) {
        squashfs_fields(d, false)
    } else if bytes_at(d, 0, seq![0x73u8, 0x71, 0x73, 0x68]) {
        squashfs_fields(d, true)
    } else {
        false
    }
}

fn squashfs_check(data: &[u8], big: bool) -> (r: bool)
    ensures
        r == squashfs_fields(data@, big),
{
    let (major, block_size, block_log) = match (
        read16(big, data, 28),
        read32(big, data, 12),
        read16(big, data, 22),
    ) {
        (Some(a), Some(b), Some(c)) => (a, b, c),
        _ => return false,
    };
    if major == 4 {
        12 <= block_log && block_log <= 20 && block_size == (1u32 << (block_log as u32))
    } else {
        1 <= major && major <= 3
    }
}

pub fn squashfs(data: &[u8]) -> (r: bool)
    ensures
        r == spec_squashfs(data@),
{
    let le: [u8; 4] = [0x68, 0x73, 0x71, 0x73];
    let be: [u8; 4] = [0x73, 0x71, 0x73, 0x68];
    assert(le@ =~= seq![0x68u8, 0x73, 0x71, 0x73]);
    assert(be@ =~= seq![0x73u8, 0x71, 0x73, 0x68]);
    if matches_at(data, 0, &le) {
        squashfs_check(data, false)
    } else if matches_at(data, 0, &be) {
        squashfs_check(data, true)
    } else {
        false
    }
}

/// "Compressed ROMFS" in ASCII.
pub open spec fn cramfs_signature() -> Seq<u8> {
    seq![
        0x43u8, 0x6F, 0x6D, 0x70, 0x72, 0x65, 0x73, 0x73, 0x65, 0x64, 0x20, 0x52, 0x4F, 0x4D, 0x46,
        0x53,
    ]
}

/// CramFS: the literal signature "Compressed ROMFS" at offset 16.
pub open spec fn spec_cramfs(d: Seq<u8>) -> bool {
    bytes_at(d, 16, cramfs_signature())
}

pub fn cramfs(data: &[u8]) -> (r: bool)
    ensures
        r == spec_cramfs(data@),
{
    let sig: [u8; 16] = [
        0x43, 0x6F, 0x6D, 0x70, 0x72, 0x65, 0x73, 0x73, 0x65, 0x64, 0x20, 0x52, 0x4F, 0x4D, 0x46,
        0x53,
    ];
    assert(sig@ =~= cramfs_signature());
    matches_at(data, 16, &sig)
}

// ---------------------------------------------------------------------------
// Verifiers: firmware containers and executables
// ---------------------------------------------------------------------------

/// The 64-byte uImage header with its CRC field (bytes 4..8) zeroed.
pub open spec fn uimage_crc_input(d: Seq<u8>) -> Seq<u8> {
    d.take(64).update(4, 0).update(5, 0).update(6, 0).update(7, 0)
}

/// U-Boot uImage: magic 27 05 19 56 and a big-endian header CRC at offset 4
/// equal to the standard CRC-32 of the 64-byte header with that field zeroed.
pub open spec fn spec_uimage(d: Seq<u8>) -> bool {
    &&& d.len() >= 64
    &&& d[0] == 0x27 && d[1] == 0x05 && d[2] == 0x19 && d[3] == 0x56
    &&& spec_crc32(uimage_crc_input(d)) == be32(d, 4)
}

pub fn uimage(data: &[u8]) -> (r: bool)
    ensures
        r == spec_uimage(data@),
{
    if data.len() < 64 {
        return false;
    }
    if !(data[0] == 0x27 && data[1] == 0x05 && data[2] == 0x19 && data[3] == 0x56) {
        return false;
    }
    let stored = match u32_be(data, 4) {
        Some(v) => v,
        None => return false,
    };
    let mut hdr: Vec<u8> = Vec::new();
    let mut i: usize = 0;
    while i < 64
        invariant
            i <= 64 <= data@.len(),
            hdr@ =~= data@.take(i as int),
        decreases 64 - i,
    {
        hdr.push(data[i]);
        i = i + 1;
    }
    hdr.set(4, 0);
    hdr.set(5, 0);
    hdr.set(6, 0);
    hdr.set(7, 0);
    assert(hdr@ =~= uimage_crc_input(data@));
    crc32(hdr.as_slice()) == stored
}

/// The four big-endian bytes of a 32-bit value.
pub open spec fn be32_bytes(v: u32) -> Seq<u8> {
    seq![(v >> 24) as u8, (v >> 16) as u8, (v >> 8) as u8, v as u8]
}

/// A uImage header with its CRC field filled in: the CRC-32 of the header
/// with that field zeroed, stored big-endian at offset 4.
pub open spec fn uimage_sealed(h: Seq<u8>) -> Seq<u8> {
    let c = be32_bytes(spec_crc32(uimage_crc_input(h)));
    h.update(4, c[0]).update(5, c[1]).update(6, c[2]).update(7, c[3])
}

/// Whatever the header holds, storing the CRC-32 of the header (computed
/// with the CRC field zeroed) in that field makes the uImage check pass:
/// the check is exactly the one U-Boot performs on a header it wrote.
pub proof fn law_uimage_sealed_header_passes(h: Seq<u8>)
    requires
        h.len() >= 64,
        h[0] == 0x27 && h[1] == 0x05 && h[2] == 0x19 && h[3] == 0x56,
    ensures
        spec_uimage(uimage_sealed(h)),
{
    let v = spec_crc32(uimage_crc_input(h));
    let s = uimage_sealed(h);
    assert(uimage_crc_input(s) =~= uimage_crc_input(h));
    assert(((v >> 24) as u8) * 0x100_0000 + ((v >> 16) as u8) * 0x1_0000 + ((v >> 8) as u8) * 0x100
        + (v as u8) == v) by (bit_vector);
    assert(be32(s, 4) == v);
}

/// A TRX partition offset: unused (zero) or inside the image past the header.
pub open spec fn trx_offset_ok(off: int, len: int) -> bool {
    off == 0 || (28 <= off < len)
}

/// Broadcom TRX: magic "HDR0", stated length covering at least the 28-byte
/// header, version (upper half of the flags word) 1 or 2, and each of the
/// three partition offsets zero or inside the stated length.
pub open spec fn spec_trx(d: Seq<u8>) -> bool {
    &&& d.len() >= 28
    &&& d[0] == 0x48 && d[1] == 0x44 && d[2] == 0x52 && d[3] == 0x30
    &&& le32(d, 4) >= 28
    &&& 1 <= le32(d, 12) / 0x1_0000 <= 2
    &&& forall|i: int| 0 <= i < 3 ==> trx_offset_ok(#[trigger] le32(d, 16 + 4 * i), le32(d, 4))
}

pub fn trx(data: &[u8]) -> (r: bool)
    ensures
        r == spec_trx(data@),
{
    let (len, flag_version) = match (u32_le(data, 4), u32_le(data, 12)) {
        (Some(a), Some(b)) => (a, b),
        _ => return false,
    };
    if !(data[0] == 0x48 && data[1] == 0x44 && data[2] == 0x52 && data[3] == 0x30) {
        return false;
    }
    let version = flag_version / 0x1_0000;
    if len < 28 || !(1 <= version && version <= 2) || data.len() < 28 {
        return false;
    }
    let mut i: usize = 0;
    while i < 3
        invariant
            i <= 3,
            len == le32(data@, 4),
            data@.len() >= 28,
            forall|k: int| 0 <= k < i ==> trx_offset_ok(#[trigger] le32(data@, 16 + 4 * k), len as int),
        decreases 3 - i,
    {
        match u32_le(data, 16 + 4 * i) {
            Some(off) => {
                if !(off == 0 || (28 <= off && off < len)) {
                    return false;
                }
            },
            None => {
                return false;
            },
        }
        i = i + 1;
    }
    true
}

/// Flattened device tree header: magic D00DFEED, total size at least 40,
/// `last_comp_version <= version <= 32`, and the struct, strings and
/// memory-reservation offsets all below the total size.
pub open spec fn spec_dtb(d: Seq<u8>) -> bool {
    &&& d.len() >= 28
    &&& be32(d, 0) == 0xD00D_FEED
    &&& be32(d, 4) >= 40
    &&& be32(d, 24) <= be32(d, 20) <= 32
    &&& be32(d, 8) < be32(d, 4)
    &&& be32(d, 12) < be32(d, 4)
    &&& be32(d, 16) < be32(d, 4)
}

pub fn dtb(data: &[u8]) -> (r: bool)
    ensures
        r == spec_dtb(data@),
{
    let (magic, total, off_struct, off_strings, off_rsvmap, version, last_comp) = match (
        u32_be(data, 0),
        u32_be(data, 4),
        u32_be(data, 8),
        u32_be(data, 12),
        u32_be(data, 16),
        u32_be(data, 20),
        u32_be(data, 24),
    ) {
        (Some(a), Some(b), Some(c), Some(e), Some(f), Some(g), Some(h)) => (a, b, c, e, f, g, h),
        _ => return false,
    };
    magic == 0xD00D_FEED && total >= 40 && version >= last_comp && version <= 32 && off_struct
        < total && off_strings < total && off_rsvmap < total
}

/// The registered COFF machine types.
pub open spec fn is_pe_machine(m: int) -> bool {
    ||| m == 0x0000 || m == 0x014C || m == 0x0166 || m == 0x0169 || m == 0x01C0
    ||| m == 0x01C2 || m == 0x01C4 || m == 0x0266 || m == 0x0284 || m == 0x0366
    ||| m == 0x0466 || m == 0x01F0 || m == 0x01F1 || m == 0x0EBC || m == 0x5032
    ||| m == 0x5064 || m == 0x6232 || m == 0x6264 || m == 0x8664 || m == 0xAA64
}

/// PE/COFF: "MZ", then `e_lfanew` (at 0x3C) in 0x40..0x100000 pointing at
/// "PE\0\0", a registered machine type, and, when the optional header is at
/// least two bytes, its magic is PE32 (0x10B), PE32+ (0x20B) or ROM (0x107).
pub open spec fn spec_pe(d: Seq<u8>) -> bool {
    &&& d.len() >= 0x40
    &&& d[0] == 0x4D && d[1] == 0x5A
    &&& {
        let e = le32(d, 0x3C);
        &&& 0x40 <= e < 0x10_0000
        &&& e + 22 <= d.len()
        &&& bytes_at(d, e, seq![0x50u8, 0x45, 0, 0])
        &&& is_pe_machine(le16(d, e + 4))
        &&& (le16(d, e + 20) >= 2 ==> e + 26 <= d.len() && (le16(d, e + 24) == 0x010B || le16(
            d,
            e + 24,
        ) == 0x020B || le16(d, e + 24) == 0x0107))
    }
}

/// The registered COFF machine types a PE header may name: unknown, i386,
/// R4000, WCE MIPS v2, ARM, Thumb, ARMv7 Thumb-2, MIPS16, Alpha64, MIPS with
/// FPU, MIPS16 with FPU, PowerPC, PowerPC with FPU, EFI byte code, RISC-V 32
/// and 64, LoongArch 32 and 64, x86-64 and ARM64.
pub open spec fn registered_machines() -> Seq<int> {
    seq![
        0x0000,
        0x014C,
        0x0166,
        0x0169,
        0x01C0,
        0x01C2,
        0x01C4,
        0x0266,
        0x0284,
        0x0366,
        0x0466,
        0x01F0,
        0x01F1,
        0x0EBC,
        0x5032,
        0x5064,
        0x6232,
        0x6264,
        0x8664,
        0xAA64
    ]
}

/// A well-formed PE header chain: "MZ", `e_lfanew` (little-endian at 0x3C)
/// between 0x40 and 1 MiB, "PE\0\0" there, then the machine type, and an
/// optional header that is either shorter than two bytes or starts with
/// the PE32 (0x10B), PE32+ (0x20B) or ROM (0x107) magic.
pub open spec fn pe_header_chain(d: Seq<u8>, machine: int) -> bool {
    &&& d.len() >= 0x40
    &&& d[0] == 0x4D && d[1] == 0x5A
    &&& {
        let e = d[0x3C] + d[0x3D] * 0x100 + d[0x3E] * 0x1_0000 + d[0x3F] * 0x100_0000;
        &&& 0x40 <= e < 0x10_0000
        &&& e + 22 <= d.len()
        &&& d[e] == 0x50 && d[e + 1] == 0x45 && d[e + 2] == 0 && d[e + 3] == 0
        &&& machine == d[e + 4] + d[e + 5] * 0x100
        &&& {
            let opt = d[e + 20] + d[e + 21] * 0x100;
            opt >= 2 ==> e + 26 <= d.len() && {
                let magic = d[e + 24] + d[e + 25] * 0x100;
                magic == 0x010B || magic == 0x020B || magic == 0x0107
            }
        }
    }
}

/// The PE check accepts exactly the well-formed header chains whose machine
/// type is one of the registered ones.
pub proof fn law_pe_registered_machines(d: Seq<u8>)
    ensures
        spec_pe(d) <==> exists|m: int|
            #[trigger] pe_header_chain(d, m) && registered_machines().contains(m),
{
    let ms = registered_machines();
    assert(ms[0] == 0x0000);
    assert(ms[1] == 0x014C);
    assert(ms[2] == 0x0166);
    assert(ms[3] == 0x0169);
    assert(ms[4] == 0x01C0);
    assert(ms[5] == 0x01C2);
    assert(ms[6] == 0x01C4);
    assert(ms[7] == 0x0266);
    assert(ms[8] == 0x0284);
    assert(ms[9] == 0x0366);
    assert(ms[10] == 0x0466);
    assert(ms[11] == 0x01F0);
    assert(ms[12] == 0x01F1);
    assert(ms[13] == 0x0EBC);
    assert(ms[14] == 0x5032);
    assert(ms[15] == 0x5064);
    assert(ms[16] == 0x6232);
    assert(ms[17] == 0x6264);
    assert(ms[18] == 0x8664);
    assert(ms[19] == 0xAA64);
    if spec_pe(d) {
        let e = le32(d, 0x3C);
        let m = le16(d, e + 4);
        assert(pe_header_chain(d, m));
        assert(ms.contains(m));
    }
    if exists|m: int| #[trigger] pe_header_chain(d, m) && ms.contains(m) {
        let m = choose|m: int| #[trigger] pe_header_chain(d, m) && ms.contains(m);
        let e = le32(d, 0x3C);
        assert(d.subrange(e, e + 4) =~= seq![0x50u8, 0x45, 0, 0]);
        assert(is_pe_machine(m));
    }
}

pub fn pe(data: &[u8]) -> (r: bool)
    ensures
        r == spec_pe(data@),
{
    if data.len() < 0x40 || !(data[0] == 0x4D && data[1] == 0x5A) {
        return false;
    }
    let e = match u32_le(data, 0x3C) {
        Some(v) => v as usize,
        None => return false,
    };
    if !(0x40 <= e && e < 0x10_0000) {
        return false;
    }
    let sig_pat: [u8; 4] = [0x50, 0x45, 0, 0];
    assert(sig_pat@ =~= seq![0x50u8, 0x45, 0, 0]);
    let sig_ok = matches_at(data, e, &sig_pat);
    let (machine, opt_size) = match (u16_le(data, e + 4), u16_le(data, e + 20)) {
        (Some(a), Some(b)) => (a, b),
        _ => return false,
    };
    if !sig_ok || !matches!(
        machine,
        0x0000 | 0x014C | 0x0166 | 0x0169 | 0x01C0 | 0x01C2 | 0x01C4 | 0x0266 | 0x0284 | 0x0366
            | 0x0466 | 0x01F0 | 0x01F1 | 0x0EBC | 0x5032 | 0x5064 | 0x6232 | 0x6264 | 0x8664
            | 0xAA64
    ) {
        return false;
    }
    if opt_size >= 2 {
        match u16_le(data, e + 24) {
            Some(m) => m == 0x010B || m == 0x020B || m == 0x0107,
            None => false,
        }
    } else {
        true
    }
}

/// Mach-O CPU types accepted: x86, x86_64, arm, arm64, ppc, ppc64.
pub open spec fn is_macho_cpu(c: int) -> bool {
    c == 7 || c == 0x0100_0007 || c == 12 || c == 0x0100_000C || c == 18 || c == 0x0100_0012
}

/// Thin Mach-O header in one byte order: known CPU type, file type 1..=11,
/// and 1..10000 load commands.
pub open spec fn spec_thin_macho(d: Seq<u8>, big: bool) -> bool {
    &&& d.len() >= 20
    &&& is_macho_cpu(rd32(big, d, 4))
    &&& 1 <= rd32(big, d, 12) <= 11
    &&& 1 <= rd32(big, d, 16) < 10_000
}

/// Fat (universal) Mach-O: 1..=30 architecture slices, each naming a known
/// CPU type. A Java class file has the same magic but its version word
/// decodes to 45 or more.
pub open spec fn spec_fat_macho(d: Seq<u8>) -> bool {
    &&& d.len() >= 8
    &&& 1 <= be32(d, 4) <= 30
    &&& 20 * be32(d, 4) - 8 <= d.len()
    &&& forall|i: int| 0 <= i < be32(d, 4) ==> is_macho_cpu(#[trigger] be32(d, 8 + 20 * i))
}

pub open spec fn spec_macho(d: Seq<u8>) -> bool {
    &&& d.len() >= 4
    &&& {
        let magic = be32(d, 0);
        if magic == 0xFEED_FACE || magic == 0xFEED_FACF {
            spec_thin_macho(d, true)
        } else if magic == 0xCEFA_EDFE || magic == 0xCFFA_EDFE {
            spec_thin_macho(d, false)
        } else if magic == 0xCAFE_BABE || magic == 0xCAFE_BABF {
            spec_fat_macho(d)
        } else {
            false
        }
    }
}

/// A Java class file (magic CAFEBABE followed by a 16-bit minor and a 16-bit
/// major version, the major being at least 45) is never taken for a fat
/// Mach-O image.
pub proof fn law_java_class_is_not_macho(d: Seq<u8>)
    requires
        d.len() >= 8,
        be32(d, 0) == 0xCAFE_BABE,
        be16(d, 6) >= 45,
    ensures
        !spec_macho(d),
{
}

fn is_known_cpu(c: u32) -> (r: bool)
    ensures
        r == is_macho_cpu(c as int),
{
    c == 7 || c == 0x0100_0007 || c == 12 || c == 0x0100_000C || c == 18 || c == 0x0100_0012
}

pub fn thin_macho(data: &[u8], big: bool) -> (r: bool)
    ensures
        r == spec_thin_macho(data@, big),
{
    let (cputype, filetype, ncmds) = match (
        read32(big, data, 4),
        read32(big, data, 12),
        read32(big, data, 16),
    ) {
        (Some(a), Some(b), Some(c)) => (a, b, c),
        _ => return false,
    };
    is_known_cpu(cputype) && 1 <= filetype && filetype <= 11 && 1 <= ncmds && ncmds < 10_000
}

pub fn macho(data: &[u8]) -> (r: bool)
    ensures
        r == spec_macho(data@),
{
    let magic = match u32_be(data, 0) {
        Some(m) => m,
        None => return false,
    };
    if magic == 0xFEED_FACE || magic == 0xFEED_FACF {
        thin_macho(data, true)
    } else if magic == 0xCEFA_EDFE || magic == 0xCFFA_EDFE {
        thin_macho(data, false)
    } else if magic == 0xCAFE_BABE || magic == 0xCAFE_BABF {
        let nfat = match u32_be(data, 4) {
            Some(n) => n,
            None => return false,
        };
        if !(1 <= nfat && nfat <= 30) {
            return false;
        }
        let n = nfat as usize;
        if data.len() < 20 * n - 8 {
            return false;
        }
        let mut i: usize = 0;
        while i < n
            invariant
                i <= n <= 30,
                n == be32(data@, 4),
                data@.len() >= 20 * n - 8,
                data@.len() >= 8,
                magic == be32(data@, 0),
                magic == 0xCAFE_BABE || magic == 0xCAFE_BABF,
                forall|k: int| 0 <= k < i ==> is_macho_cpu(#[trigger] be32(data@, 8 + 20 * k)),
            decreases n - i,
        {
            let ghost at: int = 8 + 20 * i;
            match u32_be(data, 8 + i * 20) {
                Some(cpu) => {
                    if !is_known_cpu(cpu) {
                        assert(!is_macho_cpu(be32(data@, at)));
                        return false;
                    }
                },
                None => {
                    return false;
                },
            }
            i = i + 1;
        }
        true
    } else {
        false
    }
}

// ---------------------------------------------------------------------------
// Verifiers: encoded data
// ---------------------------------------------------------------------------

/// Big-endian value of a byte string.
pub open spec fn be_value(s: Seq<u8>) -> int
    decreases s.len(),
{
    if s.len() == 0 {
        0
    } else {
        be_value(s.drop_last()) * 256 + s.last()
    }
}

/// DER SEQUENCE header: tag 0x30, a definite length in minimal form (short
/// form 1..=0x7F, or 1..=4 length bytes with no leading zero and a value of
/// at least 0x80), and the declared content inside the data.
pub open spec fn spec_der(d: Seq<u8>) -> bool {
    &&& d.len() >= 2
    &&& d[0] == 0x30
    &&& {
        let lb = d[1];
        if 1 <= lb <= 0x7F {
            2 + lb <= d.len()
        } else if 0x81 <= lb <= 0x84 {
            let n = lb - 0x80;
            &&& 2 + n <= d.len()
            &&& d[2] != 0
            &&& be_value(d.subrange(2, 2 + n)) >= 0x80
            &&& 2 + n + be_value(d.subrange(2, 2 + n)) <= d.len()
        } else {
            false
        }
    }
}

proof fn lemma_be_value_bound(s: Seq<u8>)
    ensures
        0 <= be_value(s),
        s.len() <= 3 ==> be_value(s) < 0x100_0000,
        s.len() <= 2 ==> be_value(s) < 0x1_0000,
        s.len() <= 1 ==> be_value(s) < 0x100,
        s.len() <= 4 ==> be_value(s) < 0x1_0000_0000,
    decreases s.len(),
{
    if s.len() > 0 {
        lemma_be_value_bound(s.drop_last());
    }
}

pub fn der(data: &[u8]) -> (r: bool)
    ensures
        r == spec_der(data@),
{
    if data.len() < 2 || data[0] != 0x30 {
        return false;
    }
    let lb = data[1];
    let (len, hdr_len): (usize, usize) = if 1 <= lb && lb <= 0x7F {
        (lb as usize, 2)
    } else if 0x81 <= lb && lb <= 0x84 {
        let n = (lb & 0x7F) as usize;
        assert(lb & 0x7F == lb - 0x80) by (bit_vector)
            requires
                0x81 <= lb <= 0x84,
        ;
        if data.len() - 2 < n {
            return false;
        }
        if data[2] == 0 {
            return false;
        }
        let mut v: usize = 0;
        let mut i: usize = 0;
        while i < n
            invariant
                i <= n <= 4,
                2 + n <= data@.len(),
                v == be_value(data@.subrange(2, 2 + i)),
            decreases n - i,
        {
            proof {
                lemma_be_value_bound(data@.subrange(2, 2 + i));
                assert(data@.subrange(2, 2 + i + 1).drop_last() =~= data@.subrange(2, 2 + i));
            }
            v = v * 256 + data[2 + i] as usize;
            i = i + 1;
        }
        if v < 0x80 {
            return false;
        }
        (v, 2 + n)
    } else {
        return false;
    };
    len <= data.len() - hdr_len
}

} // verus!
