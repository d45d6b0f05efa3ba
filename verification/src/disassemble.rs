//! Disassembly front end: parsing user-supplied metadata, choosing the
//! capstone engine for an architecture, and turning decoded instructions
//! into listing rows.
use crate::text::{
    chars_equal, chars_of, is_white_space, lead_ws, lower, lower_chars, push_char, push_str,
    trail_ws, trim, trim_chars,
};
use object::{Object, ObjectSection};
use vstd::prelude::*;

verus! {

/// Instruction-set architectures the viewer knows how to disassemble, plus
/// `Other` for any architecture an object file may name beyond these.
#[derive(Debug, Clone, Copy, PartialEq, Eq, Structural)]
pub enum Arch {
    X86_64,
    I386,
    Aarch64,
    Arm,
    Mips,
    Mips64,
    PowerPc64,
    Riscv64,
    Riscv32,
    Other,
}

/// Byte order of the code.
#[derive(Debug, Clone, Copy, PartialEq, Eq, Structural)]
pub enum Endian {
    Little,
    Big,
}

/// Metadata the user supplies by hand when automatic detection fails.
pub struct ManualMeta {
    pub arch: Arch,
    pub endian: Endian,
    pub base_addr: u64,
    /// Byte offset into the firmware where code begins.
    pub offset: usize,
}

// ---------------------------------------------------------------------------
// Parsing user input
// ---------------------------------------------------------------------------

/// The keyword the user typed, trimmed and ASCII-lowercased.
pub open spec fn keyword(s: Seq<char>) -> Seq<char> {
    lower(trim(s))
}

/// Architecture keywords and their common aliases.
pub open spec fn spec_parse_arch(s: Seq<char>) -> Option<Arch> {
    let k = keyword(s);
    if k == "x86_64"@ || k == "x64"@ || k == "amd64"@ {
        Some(Arch::X86_64)
    } else if k == "i386"@ || k == "x86"@ || k == "x86_32"@ || k == "i686"@ {
        Some(Arch::I386)
    } else if k == "aarch64"@ || k == "arm64"@ {
        Some(Arch::Aarch64)
    } else if k == "arm"@ || k == "armv7"@ || k == "armel"@ || k == "armeb"@ {
        Some(Arch::Arm)
    } else if k == "mips"@ {
        Some(Arch::Mips)
    } else if k == "mips64"@ {
        Some(Arch::Mips64)
    } else if k == "ppc64"@ || k == "powerpc64"@ {
        Some(Arch::PowerPc64)
    } else if k == "riscv64"@ || k == "rv64"@ {
        Some(Arch::Riscv64)
    } else if k == "riscv32"@ || k == "rv32"@ {
        Some(Arch::Riscv32)
    } else {
        None
    }
}

/// The keywords a user may type for each architecture: the x86 word sizes
/// are told apart (i386, x86, x86_32 and i686 are 32-bit; x86_64, x64 and
/// amd64 are 64-bit), and `Other` has none.
pub open spec fn is_alias_of(k: Seq<char>, a: Arch) -> bool {
    match a {
        Arch::X86_64 => k == "x86_64"@ || k == "x64"@ || k == "amd64"@,
        Arch::I386 => k == "i386"@ || k == "x86"@ || k == "x86_32"@ || k == "i686"@,
        Arch::Aarch64 => k == "aarch64"@ || k == "arm64"@,
        Arch::Arm => k == "arm"@ || k == "armv7"@ || k == "armel"@ || k == "armeb"@,
        Arch::Mips => k == "mips"@,
        Arch::Mips64 => k == "mips64"@,
        Arch::PowerPc64 => k == "ppc64"@ || k == "powerpc64"@,
        Arch::Riscv64 => k == "riscv64"@ || k == "rv64"@,
        Arch::Riscv32 => k == "riscv32"@ || k == "rv32"@,
        Arch::Other => false,
    }
}

/// The architecture field is read by its keyword alone (trimmed, any ASCII
/// case): it names an architecture exactly when the keyword is one of that
/// architecture's aliases.
pub proof fn law_parse_arch_by_alias(s: Seq<char>, a: Arch)
    ensures
        spec_parse_arch(s) == Some(a) <==> is_alias_of(keyword(s), a),
        spec_parse_arch(s) is None <==> forall|b: Arch| !#[trigger] is_alias_of(keyword(s), b),
{
    reveal_strlit("x86_64");
    assert("x86_64"@.len() == 6 && "x86_64"@[0] == 'x' && "x86_64"@[1] == '8' && "x86_64"@[2] == '6' && "x86_64"@[3] == '_' && "x86_64"@[4] == '6' && "x86_64"@[5] == '4');
    reveal_strlit("x64");
    assert("x64"@.len() == 3 && "x64"@[0] == 'x' && "x64"@[1] == '6' && "x64"@[2] == '4');
    reveal_strlit("amd64");
    assert("amd64"@.len() == 5 && "amd64"@[0] == 'a' && "amd64"@[1] == 'm' && "amd64"@[2] == 'd' && "amd64"@[3] == '6' && "amd64"@[4] == '4');
    reveal_strlit("i386");
    assert("i386"@.len() == 4 && "i386"@[0] == 'i' && "i386"@[1] == '3' && "i386"@[2] == '8' && "i386"@[3] == '6');
    reveal_strlit("x86");
    assert("x86"@.len() == 3 && "x86"@[0] == 'x' && "x86"@[1] == '8' && "x86"@[2] == '6');
    reveal_strlit("x86_32");
    assert("x86_32"@.len() == 6 && "x86_32"@[0] == 'x' && "x86_32"@[1] == '8' && "x86_32"@[2] == '6' && "x86_32"@[3] == '_' && "x86_32"@[4] == '3' && "x86_32"@[5] == '2');
    reveal_strlit("i686");
    assert("i686"@.len() == 4 && "i686"@[0] == 'i' && "i686"@[1] == '6' && "i686"@[2] == '8' && "i686"@[3] == '6');
    reveal_strlit("aarch64");
    assert("aarch64"@.len() == 7 && "aarch64"@[0] == 'a' && "aarch64"@[1] == 'a' && "aarch64"@[2] == 'r' && "aarch64"@[3] == 'c' && "aarch64"@[4] == 'h' && "aarch64"@[5] == '6' && "aarch64"@[6] == '4');
    reveal_strlit("arm64");
    assert("arm64"@.len() == 5 && "arm64"@[0] == 'a' && "arm64"@[1] == 'r' && "arm64"@[2] == 'm' && "arm64"@[3] == '6' && "arm64"@[4] == '4');
    reveal_strlit("arm");
    assert("arm"@.len() == 3 && "arm"@[0] == 'a' && "arm"@[1] == 'r' && "arm"@[2] == 'm');
    reveal_strlit("armv7");
    assert("armv7"@.len() == 5 && "armv7"@[0] == 'a' && "armv7"@[1] == 'r' && "armv7"@[2] == 'm' && "armv7"@[3] == 'v' && "armv7"@[4] == '7');
    reveal_strlit("armel");
    assert("armel"@.len() == 5 && "armel"@[0] == 'a' && "armel"@[1] == 'r' && "armel"@[2] == 'm' && "armel"@[3] == 'e' && "armel"@[4] == 'l');
    reveal_strlit("armeb");
    assert("armeb"@.len() == 5 && "armeb"@[0] == 'a' && "armeb"@[1] == 'r' && "armeb"@[2] == 'm' && "armeb"@[3] == 'e' && "armeb"@[4] == 'b');
    reveal_strlit("mips");
    assert("mips"@.len() == 4 && "mips"@[0] == 'm' && "mips"@[1] == 'i' && "mips"@[2] == 'p' && "mips"@[3] == 's');
    reveal_strlit("mips64");
    assert("mips64"@.len() == 6 && "mips64"@[0] == 'm' && "mips64"@[1] == 'i' && "mips64"@[2] == 'p' && "mips64"@[3] == 's' && "mips64"@[4] == '6' && "mips64"@[5] == '4');
    reveal_strlit("ppc64");
    assert("ppc64"@.len() == 5 && "ppc64"@[0] == 'p' && "ppc64"@[1] == 'p' && "ppc64"@[2] == 'c' && "ppc64"@[3] == '6' && "ppc64"@[4] == '4');
    reveal_strlit("powerpc64");
    assert("powerpc64"@.len() == 9 && "powerpc64"@[0] == 'p' && "powerpc64"@[1] == 'o' && "powerpc64"@[2] == 'w' && "powerpc64"@[3] == 'e' && "powerpc64"@[4] == 'r' && "powerpc64"@[5] == 'p' && "powerpc64"@[6] == 'c' && "powerpc64"@[7] == '6' && "powerpc64"@[8] == '4');
    reveal_strlit("riscv64");
    assert("riscv64"@.len() == 7 && "riscv64"@[0] == 'r' && "riscv64"@[1] == 'i' && "riscv64"@[2] == 's' && "riscv64"@[3] == 'c' && "riscv64"@[4] == 'v' && "riscv64"@[5] == '6' && "riscv64"@[6] == '4');
    reveal_strlit("rv64");
    assert("rv64"@.len() == 4 && "rv64"@[0] == 'r' && "rv64"@[1] == 'v' && "rv64"@[2] == '6' && "rv64"@[3] == '4');
    reveal_strlit("riscv32");
    assert("riscv32"@.len() == 7 && "riscv32"@[0] == 'r' && "riscv32"@[1] == 'i' && "riscv32"@[2] == 's' && "riscv32"@[3] == 'c' && "riscv32"@[4] == 'v' && "riscv32"@[5] == '3' && "riscv32"@[6] == '2');
    reveal_strlit("rv32");
    assert("rv32"@.len() == 4 && "rv32"@[0] == 'r' && "rv32"@[1] == 'v' && "rv32"@[2] == '3' && "rv32"@[3] == '2');
    let k = keyword(s);
    if is_alias_of(k, a) {
        assert(spec_parse_arch(s) == Some(a));
    }
    if spec_parse_arch(s) is None {
        assert forall|b: Arch| !#[trigger] is_alias_of(k, b) by {
        }
    } else {
        let b = spec_parse_arch(s).unwrap();
        assert(is_alias_of(k, b));
    }
}

fn keyword_chars(s: &str) -> (r: Vec<char>)
    ensures
        r@ == keyword(s@),
{
    lower_chars(&trim_chars(&chars_of(s)))
}

/// Parses an architecture keyword, accepting the aliases a user is likely to
/// type, surrounding white space and any ASCII case.
pub fn parse_arch(s: &str) -> (r: Option<Arch>)
    ensures
        r == spec_parse_arch(s@),
{
    let k = keyword_chars(s);
    if chars_equal(&k, "x86_64") || chars_equal(&k, "x64") || chars_equal(&k, "amd64") {
        Some(Arch::X86_64)
    } else if chars_equal(&k, "i386") || chars_equal(&k, "x86") || chars_equal(&k, "x86_32")
        || chars_equal(&k, "i686") {
        Some(Arch::I386)
    } else if chars_equal(&k, "aarch64") || chars_equal(&k, "arm64") {
        Some(Arch::Aarch64)
    } else if chars_equal(&k, "arm") || chars_equal(&k, "armv7") || chars_equal(&k, "armel")
        || chars_equal(&k, "armeb") {
        Some(Arch::Arm)
    } else if chars_equal(&k, "mips") {
        Some(Arch::Mips)
    } else if chars_equal(&k, "mips64") {
        Some(Arch::Mips64)
    } else if chars_equal(&k, "ppc64") || chars_equal(&k, "powerpc64") {
        Some(Arch::PowerPc64)
    } else if chars_equal(&k, "riscv64") || chars_equal(&k, "rv64") {
        Some(Arch::Riscv64)
    } else if chars_equal(&k, "riscv32") || chars_equal(&k, "rv32") {
        Some(Arch::Riscv32)
    } else {
        None
    }
}

/// Endianness keywords.
pub open spec fn spec_parse_endian(s: Seq<char>) -> Option<Endian> {
    let k = keyword(s);
    if k == "little"@ || k == "le"@ || k == "l"@ {
        Some(Endian::Little)
    } else if k == "big"@ || k == "be"@ || k == "b"@ {
        Some(Endian::Big)
    } else {
        None
    }
}

/// The keywords for each byte order.
pub open spec fn is_endian_alias(k: Seq<char>, e: Endian) -> bool {
    match e {
        Endian::Little => k == "little"@ || k == "le"@ || k == "l"@,
        Endian::Big => k == "big"@ || k == "be"@ || k == "b"@,
    }
}

/// The endianness field is read by its keyword alone (trimmed, any ASCII
/// case): it names a byte order exactly when the keyword is one of its
/// aliases, and nothing otherwise.
pub proof fn law_parse_endian_by_alias(s: Seq<char>, e: Endian)
    ensures
        spec_parse_endian(s) == Some(e) <==> is_endian_alias(keyword(s), e),
        spec_parse_endian(s) is None <==> (!is_endian_alias(keyword(s), Endian::Little)
            && !is_endian_alias(keyword(s), Endian::Big)),
{
    reveal_strlit("little");
    assert("little"@.len() == 6 && "little"@[0] == 'l' && "little"@[1] == 'i' && "little"@[2] == 't' && "little"@[3] == 't' && "little"@[4] == 'l' && "little"@[5] == 'e');
    reveal_strlit("le");
    assert("le"@.len() == 2 && "le"@[0] == 'l' && "le"@[1] == 'e');
    reveal_strlit("l");
    assert("l"@.len() == 1 && "l"@[0] == 'l');
    reveal_strlit("big");
    assert("big"@.len() == 3 && "big"@[0] == 'b' && "big"@[1] == 'i' && "big"@[2] == 'g');
    reveal_strlit("be");
    assert("be"@.len() == 2 && "be"@[0] == 'b' && "be"@[1] == 'e');
    reveal_strlit("b");
    assert("b"@.len() == 1 && "b"@[0] == 'b');
}

pub fn parse_endian(s: &str) -> (r: Option<Endian>)
    ensures
        r == spec_parse_endian(s@),
{
    let k = keyword_chars(s);
    if chars_equal(&k, "little") || chars_equal(&k, "le") || chars_equal(&k, "l") {
        Some(Endian::Little)
    } else if chars_equal(&k, "big") || chars_equal(&k, "be") || chars_equal(&k, "b") {
        Some(Endian::Big)
    } else {
        None
    }
}

/// Value of a hexadecimal digit character.
pub open spec fn hex_char_value(c: char) -> Option<int> {
    if '0' <= c <= '9' {
        Some(c as int - '0' as int)
    } else if 'a' <= c <= 'f' {
        Some(c as int - 'a' as int + 10)
    } else if 'A' <= c <= 'F' {
        Some(c as int - 'A' as int + 10)
    } else {
        None
    }
}

/// Every character of `d` is a hexadecimal digit.
pub open spec fn all_hex(d: Seq<char>) -> bool {
    forall|k: int| 0 <= k < d.len() ==> (#[trigger] hex_char_value(d[k])) is Some
}

/// Value of a string of hexadecimal digits.
pub open spec fn hex_chars_value(d: Seq<char>) -> int
    decreases d.len(),
{
    if d.len() == 0 {
        0
    } else {
        hex_chars_value(d.drop_last()) * 16 + hex_char_value(d.last()).unwrap()
    }
}

/// Base-16 digits with an optional leading `+`, as `u64::from_str_radix`
/// reads them: at least one digit and a value that fits in 64 bits.
pub open spec fn spec_radix16(u: Seq<char>) -> Option<u64> {
    let d = if u.len() > 0 && u[0] == '+' {
        u.drop_first()
    } else {
        u
    };
    if d.len() == 0 || !all_hex(d) || hex_chars_value(d) > u64::MAX {
        None
    } else {
        Some(hex_chars_value(d) as u64)
    }
}

/// `t` without one leading `0x` or `0X`.
pub open spec fn strip_hex_prefix(t: Seq<char>) -> Seq<char> {
    if t.len() >= 2 && t[0] == '0' && (t[1] == 'x' || t[1] == 'X') {
        t.skip(2)
    } else {
        t
    }
}

/// A hexadecimal number, with or without a `0x` prefix, surrounding white
/// space ignored.
pub open spec fn spec_parse_hex(s: Seq<char>) -> Option<u64> {
    let u = strip_hex_prefix(trim(s));
    if u.len() == 0 {
        None
    } else {
        spec_radix16(u)
    }
}

proof fn lemma_hex_value_nonneg(d: Seq<char>)
    requires
        all_hex(d),
    ensures
        hex_chars_value(d) >= 0,
    decreases d.len(),
{
    if d.len() > 0 {
        assert(hex_char_value(d[d.len() - 1]) is Some);
        lemma_hex_value_nonneg(d.drop_last());
    }
}

/// Appending digits never makes a number smaller.
proof fn lemma_hex_value_prefix(d: Seq<char>, k: int)
    requires
        0 <= k <= d.len(),
        all_hex(d),
    ensures
        hex_chars_value(d.take(k)) <= hex_chars_value(d),
    decreases d.len() - k,
{
    if k < d.len() {
        assert(d.drop_last().take(k) =~= d.take(k));
        assert(all_hex(d.drop_last())) by {
            assert forall|j: int| 0 <= j < d.drop_last().len() implies (#[trigger] hex_char_value(
                d.drop_last()[j],
            )) is Some by {
                assert(hex_char_value(d[j]) is Some);
            }
        }
        assert(hex_char_value(d[d.len() - 1]) is Some);
        lemma_hex_value_prefix(d.drop_last(), k);
        lemma_hex_value_nonneg(d.drop_last());
    } else {
        assert(d.take(k) =~= d);
    }
}

fn hex_digit(c: char) -> (r: Option<u64>)
    ensures
        match r {
            Some(v) => hex_char_value(c) == Some(v as int) && v < 16,
            None => hex_char_value(c) is None,
        },
{
    if '0' <= c && c <= '9' {
        Some((c as u32 - '0' as u32) as u64)
    } else if 'a' <= c && c <= 'f' {
        Some((c as u32 - 'a' as u32 + 10) as u64)
    } else if 'A' <= c && c <= 'F' {
        Some((c as u32 - 'A' as u32 + 10) as u64)
    } else {
        None
    }
}

fn radix16(u: &Vec<char>) -> (r: Option<u64>)
    ensures
        r == spec_radix16(u@),
{
    let start: usize = if u.len() > 0 && u[0] == '+' {
        1
    } else {
        0
    };
    let ghost d = if u@.len() > 0 && u@[0] == '+' {
        u@.drop_first()
    } else {
        u@
    };
    assert(d =~= u@.skip(start as int));
    if start == u.len() {
        return None;
    }
    let mut i = start;
    while i < u.len()
        invariant
            start <= i <= u@.len(),
            d =~= u@.skip(start as int),
            d == (if u@.len() > 0 && u@[0] == '+' {
                u@.drop_first()
            } else {
                u@
            }),
            forall|k: int| 0 <= k < i - start ==> (#[trigger] hex_char_value(d[k])) is Some,
        decreases u@.len() - i,
    {
        if hex_digit(u[i]).is_none() {
            assert(d[i - start] == u@[i as int]);
            assert(hex_char_value(d[i - start]) is None);
            return None;
        }
        i = i + 1;
    }
    assert(all_hex(d));
    let mut val: u64 = 0;
    let mut j = start;
    assert(d.take(0) =~= Seq::<char>::empty());
    while j < u.len()
        invariant
            start <= j <= u@.len(),
            d =~= u@.skip(start as int),
            d == (if u@.len() > 0 && u@[0] == '+' {
                u@.drop_first()
            } else {
                u@
            }),
            all_hex(d),
            val == hex_chars_value(d.take(j - start)),
        decreases u@.len() - j,
    {
        let digit = match hex_digit(u[j]) {
            Some(v) => v,
            None => {
                assert(hex_char_value(d[j - start]) is Some);
                return None;
            },
        };
        proof {
            assert(d.take(j + 1 - start).drop_last() =~= d.take(j - start));
            assert(d.take(j + 1 - start).last() == u@[j as int]);
            assert(hex_chars_value(d.take(j + 1 - start)) == val * 16 + digit);
            lemma_hex_value_prefix(d, j + 1 - start);
        }
        let m = match val.checked_mul(16) {
            Some(m) => m,
            None => return None,
        };
        val = match m.checked_add(digit) {
            Some(v) => v,
            None => return None,
        };
        j = j + 1;
    }
    assert(d.take(d.len() as int) =~= d);
    Some(val)
}

/// Parses a hex number, with or without a `0x` prefix.
pub fn parse_hex(s: &str) -> (r: Option<u64>)
    ensures
        r == spec_parse_hex(s@),
{
    let t = trim_chars(&chars_of(s));
    let u = if t.len() >= 2 && t[0] == '0' && (t[1] == 'x' || t[1] == 'X') {
        let mut rest: Vec<char> = Vec::new();
        let mut i: usize = 2;
        while i < t.len()
            invariant
                2 <= i <= t@.len(),
                rest@ == t@.subrange(2, i as int),
            decreases t@.len() - i,
        {
            rest.push(t[i]);
            assert(t@.subrange(2, i + 1) =~= t@.subrange(2, i as int).push(t@[i as int]));
            i = i + 1;
        }
        assert(rest@ =~= t@.skip(2));
        rest
    } else {
        t
    };
    if u.len() == 0 {
        return None;
    }
    radix16(&u)
}

proof fn lemma_trim_unchanged(p: Seq<char>)
    requires
        p.len() > 0,
        !is_white_space(p[0]),
        !is_white_space(p.last()),
    ensures
        trim(p) == p,
{
    assert(lead_ws(p) == 0);
    assert(trail_ws(p) == 0);
    assert(p.subrange(0, p.len() as int) =~= p);
}

/// A hexadecimal number reads the same with or without a `0x` / `0X`
/// prefix (for digits that do not themselves start with one and carry no
/// surrounding white space).
pub proof fn law_hex_prefix_optional(d: Seq<char>)
    requires
        d.len() > 0,
        !is_white_space(d[0]),
        !is_white_space(d.last()),
        !(d.len() >= 2 && d[0] == '0' && (d[1] == 'x' || d[1] == 'X')),
    ensures
        spec_parse_hex(seq!['0', 'x'] + d) == spec_parse_hex(d),
        spec_parse_hex(seq!['0', 'X'] + d) == spec_parse_hex(d),
{
    lemma_trim_unchanged(d);
    let p = seq!['0', 'x'] + d;
    let q = seq!['0', 'X'] + d;
    assert(p[0] == '0' && q[0] == '0');
    assert(p.last() == d.last() && q.last() == d.last());
    lemma_trim_unchanged(p);
    lemma_trim_unchanged(q);
    assert(p.skip(2) =~= d);
    assert(q.skip(2) =~= d);
}

// ---------------------------------------------------------------------------
// Hexadecimal text
// ---------------------------------------------------------------------------

/// Lowercase hexadecimal digit for a value below 16.
pub open spec fn hex_digit_char(v: int) -> char {
    if v < 10 {
        ('0' as int + v) as char
    } else {
        ('a' as int + v - 10) as char
    }
}

/// Lowercase hexadecimal form of `n` without leading zeros (`{:x}`).
pub open spec fn lower_hex(n: nat) -> Seq<char>
    decreases n,
{
    if n < 16 {
        seq![hex_digit_char(n as int)]
    } else {
        lower_hex(n / 16) + seq![hex_digit_char((n % 16) as int)]
    }
}

/// Two lowercase hexadecimal digits of a byte (`{:02x}`).
pub open spec fn hex_pair(b: u8) -> Seq<char> {
    seq![hex_digit_char((b / 16) as int), hex_digit_char((b % 16) as int)]
}

/// A byte string as consecutive `{:02x}` pairs.
pub open spec fn hex_bytes_text(bs: Seq<u8>) -> Seq<char>
    decreases bs.len(),
{
    if bs.len() == 0 {
        seq![]
    } else {
        hex_bytes_text(bs.drop_last()) + hex_pair(bs.last())
    }
}

fn digit_char(v: u64) -> (c: char)
    requires
        v < 16,
    ensures
        c == hex_digit_char(v as int),
{
    if v < 10 {
        (v as u8 + 0x30) as char
    } else {
        (v as u8 - 10 + 0x61) as char
    }
}

/// Appends `n` in lowercase hexadecimal.
pub fn push_lower_hex(s: &mut String, n: u64)
    ensures
        final(s)@ == old(s)@ + lower_hex(n as nat),
    decreases n,
{
    if n >= 16 {
        push_lower_hex(s, n / 16);
    }
    push_char(s, digit_char(n % 16));
    assert(final(s)@ =~= old(s)@ + lower_hex(n as nat));
}

/// Bytes as lowercase hexadecimal text, two digits per byte.
pub fn hex_string(bytes: &[u8]) -> (r: String)
    ensures
        r@ == hex_bytes_text(bytes@),
{
    let mut s = String::new();
    let mut i: usize = 0;
    assert(bytes@.take(0) =~= Seq::<u8>::empty());
    while i < bytes.len()
        invariant
            i <= bytes@.len(),
            s@ == hex_bytes_text(bytes@.take(i as int)),
        decreases bytes@.len() - i,
    {
        let b = bytes[i];
        push_char(&mut s, digit_char((b / 16) as u64));
        push_char(&mut s, digit_char((b % 16) as u64));
        assert(bytes@.take(i + 1).drop_last() =~= bytes@.take(i as int));
        assert(s@ =~= hex_bytes_text(bytes@.take(i + 1)));
        i = i + 1;
    }
    assert(bytes@.take(bytes@.len() as int) =~= bytes@);
    s
}

// ---------------------------------------------------------------------------
// Choosing the disassembler engine
// ---------------------------------------------------------------------------

/// Capstone's architecture families used here.
#[derive(Debug, Clone, Copy, PartialEq, Eq, Structural)]
pub enum CsArch {
    X86,
    Arm64,
    Arm,
    Mips,
    Ppc,
    RiscV,
}

/// Capstone's decoding modes used here.
#[derive(Debug, Clone, Copy, PartialEq, Eq, Structural)]
pub enum CsMode {
    Mode64,
    Mode32,
    Arm,
    Mips64,
    Mips32,
    RiscV64,
    RiscV32,
}

/// How to open a capstone engine: family, mode, and an explicit byte order
/// for the families that take one. Instruction details are always on.
#[derive(Debug, Clone, Copy, PartialEq, Eq, Structural)]
pub struct EngineConfig {
    pub arch: CsArch,
    pub mode: CsMode,
    pub endian: Option<Endian>,
}

/// The engine for each supported architecture. ARM and MIPS decode in the
/// requested byte order; the others use their fixed one.
pub open spec fn spec_engine_config(arch: Arch, endian: Endian) -> Option<EngineConfig> {
    match arch {
        Arch::X86_64 => Some(EngineConfig { arch: CsArch::X86, mode: CsMode::Mode64, endian: None }),
        Arch::I386 => Some(EngineConfig { arch: CsArch::X86, mode: CsMode::Mode32, endian: None }),
        Arch::Aarch64 => Some(EngineConfig { arch: CsArch::Arm64, mode: CsMode::Arm, endian: None }),
        Arch::Arm => Some(EngineConfig { arch: CsArch::Arm, mode: CsMode::Arm, endian: Some(endian) }),
        Arch::Mips64 => Some(
            EngineConfig { arch: CsArch::Mips, mode: CsMode::Mips64, endian: Some(endian) },
        ),
        Arch::Mips => Some(
            EngineConfig { arch: CsArch::Mips, mode: CsMode::Mips32, endian: Some(endian) },
        ),
        Arch::PowerPc64 => Some(EngineConfig { arch: CsArch::Ppc, mode: CsMode::Mode64, endian: None }),
        Arch::Riscv64 => Some(
            EngineConfig { arch: CsArch::RiscV, mode: CsMode::RiscV64, endian: None },
        ),
        Arch::Riscv32 => Some(
            EngineConfig { arch: CsArch::RiscV, mode: CsMode::RiscV32, endian: None },
        ),
        Arch::Other => None,
    }
}

/// The width in bits of an architecture's words and addresses (none for
/// `Other`).
pub open spec fn word_bits(a: Arch) -> nat {
    match a {
        Arch::X86_64 | Arch::Aarch64 | Arch::Mips64 | Arch::PowerPc64 | Arch::Riscv64 => 64,
        Arch::I386 | Arch::Arm | Arch::Mips | Arch::Riscv32 => 32,
        Arch::Other => 0,
    }
}

/// The capstone family that decodes an architecture's instruction set.
pub open spec fn cs_family(a: Arch) -> Option<CsArch> {
    match a {
        Arch::X86_64 | Arch::I386 => Some(CsArch::X86),
        Arch::Aarch64 => Some(CsArch::Arm64),
        Arch::Arm => Some(CsArch::Arm),
        Arch::Mips | Arch::Mips64 => Some(CsArch::Mips),
        Arch::PowerPc64 => Some(CsArch::Ppc),
        Arch::Riscv64 | Arch::Riscv32 => Some(CsArch::RiscV),
        Arch::Other => None,
    }
}

/// The word width a capstone engine decodes for: its mode says so, except
/// the plain ARM mode, whose width is that of the family (AArch64 or ARM).
pub open spec fn engine_word_bits(c: EngineConfig) -> nat {
    match c.mode {
        CsMode::Mode64 | CsMode::Mips64 | CsMode::RiscV64 => 64,
        CsMode::Mode32 | CsMode::Mips32 | CsMode::RiscV32 => 32,
        CsMode::Arm => if c.arch == CsArch::Arm64 {
            64
        } else {
            32
        },
    }
}

/// Whether an architecture comes in both byte orders.
pub open spec fn bi_endian(a: Arch) -> bool {
    a == Arch::Arm || a == Arch::Mips || a == Arch::Mips64
}

/// The engine chosen for an architecture belongs to its family, decodes at
/// its word width (32-bit code is never decoded as 64-bit or the other way
/// round), and takes the requested byte order exactly for the architectures
/// that come in both; `Other` gets no engine.
pub proof fn law_engine_fits_architecture(arch: Arch, endian: Endian)
    ensures
        arch == Arch::Other <==> spec_engine_config(arch, endian) is None,
        spec_engine_config(arch, endian) matches Some(c) ==> {
            &&& Some(c.arch) == cs_family(arch)
            &&& engine_word_bits(c) == word_bits(arch)
            &&& c.endian == if bi_endian(arch) {
                Some(endian)
            } else {
                None
            }
        },
{
}

pub fn engine_config(arch: Arch, endian: Endian) -> (r: Option<EngineConfig>)
    ensures
        r == spec_engine_config(arch, endian),
{
    match arch {
        Arch::X86_64 => Some(EngineConfig { arch: CsArch::X86, mode: CsMode::Mode64, endian: None }),
        Arch::I386 => Some(EngineConfig { arch: CsArch::X86, mode: CsMode::Mode32, endian: None }),
        Arch::Aarch64 => Some(EngineConfig { arch: CsArch::Arm64, mode: CsMode::Arm, endian: None }),
        Arch::Arm => Some(EngineConfig { arch: CsArch::Arm, mode: CsMode::Arm, endian: Some(endian) }),
        Arch::Mips64 => Some(
            EngineConfig { arch: CsArch::Mips, mode: CsMode::Mips64, endian: Some(endian) },
        ),
        Arch::Mips => Some(
            EngineConfig { arch: CsArch::Mips, mode: CsMode::Mips32, endian: Some(endian) },
        ),
        Arch::PowerPc64 => Some(EngineConfig { arch: CsArch::Ppc, mode: CsMode::Mode64, endian: None }),
        Arch::Riscv64 => Some(
            EngineConfig { arch: CsArch::RiscV, mode: CsMode::RiscV64, endian: None },
        ),
        Arch::Riscv32 => Some(
            EngineConfig { arch: CsArch::RiscV, mode: CsMode::RiscV32, endian: None },
        ),
        Arch::Other => None,
    }
}

/// Capstone's name for an architecture family (what `capstone::Arch`
/// parses from text).
pub open spec fn spec_cs_arch_name(a: CsArch) -> Seq<char> {
    match a {
        CsArch::X86 => "x86"@,
        CsArch::Arm64 => "arm64"@,
        CsArch::Arm => "arm"@,
        CsArch::Mips => "mips"@,
        CsArch::Ppc => "ppc"@,
        CsArch::RiscV => "riscv"@,
    }
}

pub fn cs_arch_name(a: CsArch) -> (r: &'static str)
    ensures
        r@ == spec_cs_arch_name(a),
{
    match a {
        CsArch::X86 => "x86",
        CsArch::Arm64 => "arm64",
        CsArch::Arm => "arm",
        CsArch::Mips => "mips",
        CsArch::Ppc => "ppc",
        CsArch::RiscV => "riscv",
    }
}

/// Capstone's name for a mode (what `capstone::Mode` parses from text).
pub open spec fn spec_cs_mode_name(m: CsMode) -> Seq<char> {
    match m {
        CsMode::Mode64 => "mode64"@,
        CsMode::Mode32 => "mode32"@,
        CsMode::Arm => "arm"@,
        CsMode::Mips64 => "mips64"@,
        CsMode::Mips32 => "mips32"@,
        CsMode::RiscV64 => "riscv64"@,
        CsMode::RiscV32 => "riscv32"@,
    }
}

pub fn cs_mode_name(m: CsMode) -> (r: &'static str)
    ensures
        r@ == spec_cs_mode_name(m),
{
    match m {
        CsMode::Mode64 => "mode64",
        CsMode::Mode32 => "mode32",
        CsMode::Arm => "arm",
        CsMode::Mips64 => "mips64",
        CsMode::Mips32 => "mips32",
        CsMode::RiscV64 => "riscv64",
        CsMode::RiscV32 => "riscv32",
    }
}

/// Capstone's name for a byte order (what `capstone::Endian` parses).
pub open spec fn spec_cs_endian_name(e: Endian) -> Seq<char> {
    match e {
        Endian::Little => "little"@,
        Endian::Big => "big"@,
    }
}

pub fn cs_endian_name(e: Endian) -> (r: &'static str)
    ensures
        r@ == spec_cs_endian_name(e),
{
    match e {
        Endian::Little => "little",
        Endian::Big => "big",
    }
}

/// The disassembler engine of the `capstone` crate.
#[verifier::external_type_specification]
#[verifier::external_body]
pub struct ExCapstone(capstone::Capstone);

/// The text of an optional name.
pub open spec fn opt_name_view(o: Option<&str>) -> Option<Seq<char>> {
    match o {
        Some(s) => Some(s@),
        None => None,
    }
}

/// Whether capstone opens an engine for these names (architecture, mode,
/// optional byte order) with the detail option set as given. It depends on
/// the names alone: whether each parses, and whether `cs_open` and
/// `cs_option` accept the combination.
pub uninterp spec fn capstone_opens(
    arch: Seq<char>,
    mode: Seq<char>,
    endian: Option<Seq<char>>,
    detail: bool,
) -> bool;

/// Opens a capstone engine: the names are parsed into `capstone::Arch`,
/// `capstone::Mode` and `capstone::Endian` (their `FromStr` impls match
/// variant names case-insensitively), `Capstone::new_raw` opens the engine
/// with no extra modes, and `Capstone::set_detail` sets the detail option.
/// The contract claims that whether this succeeds is decided by the names
/// and the detail flag (named `capstone_opens`); capstone's own allocation
/// failing is left out of that claim. Nothing else is claimed of the
/// engine, which Verus cannot look into.
#[verifier::external_body]
fn open_engine(arch: &str, mode: &str, endian: Option<&str>, detail: bool) -> (r: Option<capstone::Capstone>)
    ensures
        r is Some <==> capstone_opens(arch@, mode@, opt_name_view(endian), detail),
{
    let arch: capstone::Arch = arch.parse().ok()?;
    let mode: capstone::Mode = mode.parse().ok()?;
    let endian: Option<capstone::Endian> = match endian {
        Some(e) => Some(e.parse().ok()?),
        None => None,
    };
    let mut cs = capstone::Capstone::new_raw(arch, mode, capstone::NO_EXTRA_MODE, endian).ok()?;
    cs.set_detail(detail).ok()?;
    Some(cs)
}

/// The names an engine configuration is opened with.
pub open spec fn endian_name_view(e: Option<Endian>) -> Option<Seq<char>> {
    match e {
        Some(x) => Some(spec_cs_endian_name(x)),
        None => None,
    }
}

/// Whether capstone opens the engine for a configuration, details on.
pub open spec fn config_opens(c: EngineConfig) -> bool {
    capstone_opens(spec_cs_arch_name(c.arch), spec_cs_mode_name(c.mode), endian_name_view(c.endian), true)
}

/// An opened capstone engine and the configuration it was opened with.
/// Only `build_capstone` makes one, so the two always agree.
pub struct Engine {
    config: EngineConfig,
    cs: capstone::Capstone,
}

impl View for Engine {
    type V = EngineConfig;

    closed spec fn view(&self) -> EngineConfig {
        self.config
    }
}

impl Engine {
    /// The configuration the engine was opened with.
    pub fn config(&self) -> (r: EngineConfig)
        ensures
            r == self@,
    {
        self.config
    }
}

/// Message for an architecture with no engine.
pub open spec fn unsupported_arch_msg() -> Seq<char> {
    "unsupported architecture"@
}

/// Message for an engine that failed to open.
pub open spec fn engine_failed_msg() -> Seq<char> {
    "failed to initialize capstone"@
}

/// Builds the capstone engine for an architecture and byte order, with
/// instruction details enabled.
pub fn build_capstone(arch: Arch, endian: Endian) -> (r: Result<Engine, &'static str>)
    ensures
        match spec_engine_config(arch, endian) {
            None => r is Err && r->Err_0@ == unsupported_arch_msg(),
            Some(c) => if config_opens(c) {
                r is Ok && r->Ok_0@ == c
            } else {
                r is Err && r->Err_0@ == engine_failed_msg()
            },
        },
{
    let config = match engine_config(arch, endian) {
        Some(c) => c,
        None => return Err("unsupported architecture"),
    };
    let endian_name = match config.endian {
        Some(e) => Some(cs_endian_name(e)),
        None => None,
    };
    assert(opt_name_view(endian_name) == endian_name_view(config.endian));
    match open_engine(cs_arch_name(config.arch), cs_mode_name(config.mode), endian_name, true) {
        Some(cs) => Ok(Engine { config, cs }),
        None => Err("failed to initialize capstone"),
    }
}

// ---------------------------------------------------------------------------
// Decoding and listing
// ---------------------------------------------------------------------------

/// One instruction as capstone reports it.
pub struct RawInsn {
    pub address: u64,
    pub bytes: Vec<u8>,
    pub mnemonic: Option<String>,
    pub operands: Option<String>,
}

/// Mathematical form of a decoded instruction: address, bytes, mnemonic and
/// operand text.
pub type RawInsnView = (u64, Seq<u8>, Option<Seq<char>>, Option<Seq<char>>);

pub open spec fn opt_text(o: Option<String>) -> Option<Seq<char>> {
    match o {
        Some(s) => Some(s@),
        None => None,
    }
}

pub open spec fn raw_view(x: RawInsn) -> RawInsnView {
    (x.address, x.bytes@, opt_text(x.mnemonic), opt_text(x.operands))
}

pub open spec fn raw_result_view(r: Result<Vec<RawInsn>, String>) -> Result<Seq<RawInsnView>, Seq<char>> {
    match r {
        Ok(v) => Ok(v@.map_values(|x: RawInsn| raw_view(x))),
        Err(e) => Err(e@),
    }
}

/// What capstone decodes from `code` placed at `addr` with an engine of the
/// given configuration: the instructions in order, or capstone's error
/// message.
pub uninterp spec fn capstone_decode(
    config: EngineConfig,
    code: Seq<u8>,
    addr: u64,
) -> Result<Seq<RawInsnView>, Seq<char>>;

/// One disassembled instruction: (address, hex bytes, mnemonic, operands).
pub type Insn = (u64, String, String, String);

/// Mathematical form of a listing row.
pub type InsnView = (u64, Seq<char>, Seq<char>, Seq<char>);

pub open spec fn insn_view(i: Insn) -> InsnView {
    (i.0, i.1@, i.2@, i.3@)
}

pub open spec fn insns_view(v: Seq<Insn>) -> Seq<InsnView> {
    v.map_values(|i: Insn| insn_view(i))
}

/// Text of an optional field, empty when absent.
pub open spec fn text_or_empty(o: Option<Seq<char>>) -> Seq<char> {
    match o {
        Some(s) => s,
        None => seq![],
    }
}

/// The listing row of a decoded instruction: address, its bytes as hex
/// pairs, mnemonic and operand text (empty when capstone gives none).
pub open spec fn spec_listing_row(raw: RawInsnView) -> InsnView {
    (raw.0, hex_bytes_text(raw.1), text_or_empty(raw.2), text_or_empty(raw.3))
}

/// Calls `Capstone::disasm_all` on `code` at `addr` and copies each decoded
/// instruction out (address, bytes, mnemonic, operand text); a capstone
/// error comes back as its message. The contract claims that the outcome is
/// decided by the engine's configuration, the code and the address (named
/// `capstone_decode`); capstone's own allocation failing is left out of
/// that claim.
#[verifier::external_body]
fn disasm_all(engine: &Engine, code: &[u8], addr: u64) -> (r: Result<Vec<RawInsn>, String>)
    ensures
        raw_result_view(r) == capstone_decode(engine@, code@, addr),
{
    match engine.cs.disasm_all(code, addr) {
        Ok(insns) => Ok(
            insns.iter().map(
                |i| RawInsn {
                    address: i.address(),
                    bytes: i.bytes().to_vec(),
                    mnemonic: i.mnemonic().map(|m| m.to_string()),
                    operands: i.op_str().map(|o| o.to_string()),
                },
            ).collect(),
        ),
        Err(e) => Err(e.to_string()),
    }
}

fn owned_or_empty(o: &Option<String>) -> (r: String)
    ensures
        r@ == text_or_empty(opt_text(*o)),
{
    match o {
        Some(s) => s.clone(),
        None => String::new(),
    }
}

/// Turns decoded instructions into listing rows, one per instruction.
pub fn listing_rows(raw: &Vec<RawInsn>) -> (r: Vec<Insn>)
    ensures
        r@.len() == raw@.len(),
        forall|i: int|
            0 <= i < raw@.len() ==> insn_view(#[trigger] r@[i]) == spec_listing_row(raw_view(raw@[i])),
{
    let mut out: Vec<Insn> = Vec::new();
    let mut i: usize = 0;
    while i < raw.len()
        invariant
            i <= raw@.len(),
            out@.len() == i,
            forall|k: int|
                0 <= k < i ==> insn_view(#[trigger] out@[k]) == spec_listing_row(raw_view(raw@[k])),
        decreases raw@.len() - i,
    {
        let ri = &raw[i];
        let row = (ri.address, hex_string(ri.bytes.as_slice()), owned_or_empty(&ri.mnemonic), owned_or_empty(&ri.operands));
        out.push(row);
        i = i + 1;
    }
    out
}

/// Prefix of the message for a capstone decoding error.
pub open spec fn decode_failed_prefix() -> Seq<char> {
    "capstone failed to disassemble: "@
}

/// Message when nothing decodes.
pub open spec fn nothing_decoded_msg() -> Seq<char> {
    "no instructions decoded — the arch, endianness, or offset is probably wrong"@
}

/// What a decoding outcome becomes: capstone's error prefixed, an error when
/// nothing was decoded, and otherwise the listing rows in decoding order.
pub open spec fn spec_finish(raw: Result<Seq<RawInsnView>, Seq<char>>) -> Result<Seq<InsnView>, Seq<char>> {
    match raw {
        Err(e) => Err(decode_failed_prefix() + e),
        Ok(v) => if v.len() == 0 {
            Err(nothing_decoded_msg())
        } else {
            Ok(v.map_values(|x: RawInsnView| spec_listing_row(x)))
        },
    }
}

pub open spec fn result_view(r: Result<Vec<Insn>, String>) -> Result<Seq<InsnView>, Seq<char>> {
    match r {
        Ok(v) => Ok(insns_view(v@)),
        Err(e) => Err(e@),
    }
}

/// Finishes a decoding outcome into listing rows or an error message.
pub fn finish_disassembly(raw: Result<Vec<RawInsn>, String>) -> (r: Result<Vec<Insn>, String>)
    ensures
        result_view(r) == spec_finish(raw_result_view(raw)),
{
    match raw {
        Err(e) => {
            let mut msg = String::new();
            push_str(&mut msg, "capstone failed to disassemble: ");
            push_str(&mut msg, e.as_str());
            assert(msg@ =~= decode_failed_prefix() + e@);
            Err(msg)
        },
        Ok(v) => {
            if v.len() == 0 {
                Err("no instructions decoded — the arch, endianness, or offset is probably wrong".to_owned())
            } else {
                let rows = listing_rows(&v);
                assert(insns_view(rows@) =~= v@.map_values(|x: RawInsn| raw_view(x)).map_values(
                    |x: RawInsnView| spec_listing_row(x),
                ));
                Ok(rows)
            }
        },
    }
}

/// What decoding `code` at `addr` gives for an architecture and byte order:
/// an error for an architecture with no engine, the engine failure where
/// capstone does not open, and otherwise the finished capstone decoding.
pub open spec fn spec_disassemble_bytes(
    code: Seq<u8>,
    addr: u64,
    arch: Arch,
    endian: Endian,
) -> Result<Seq<InsnView>, Seq<char>> {
    match spec_engine_config(arch, endian) {
        None => Err(unsupported_arch_msg()),
        Some(c) => if config_opens(c) {
            spec_finish(capstone_decode(c, code, addr))
        } else {
            Err(engine_failed_msg())
        },
    }
}

/// Build the engine for the architecture and byte order and decode `code`
/// starting at `base_addr`.
pub fn disassemble_bytes(code: &[u8], base_addr: u64, arch: Arch, endian: Endian) -> (r: Result<
    Vec<Insn>,
    String,
>)
    ensures
        result_view(r) == spec_disassemble_bytes(code@, base_addr, arch, endian),
{
    let engine = match build_capstone(arch, endian) {
        Ok(engine) => engine,
        Err(e) => return Err(e.to_owned()),
    };
    let raw = disasm_all(&engine, code, base_addr);
    finish_disassembly(raw)
}

/// Message for an offset beyond the image.
pub open spec fn offset_past_end_msg(offset: usize) -> Seq<char> {
    "offset 0x"@ + lower_hex(offset as nat) + " is past the end of the file"@
}

/// Message for an offset at the very end of the image.
pub open spec fn nothing_left_msg() -> Seq<char> {
    "offset leaves no bytes to disassemble"@
}

/// What manual disassembly gives: an error for an offset past the end or at
/// the end, and otherwise the decoding of the image from the offset on,
/// placed at the base address.
pub open spec fn spec_disassemble_manual(firmware: Seq<u8>, meta: ManualMeta) -> Result<
    Seq<InsnView>,
    Seq<char>,
> {
    if meta.offset > firmware.len() {
        Err(offset_past_end_msg(meta.offset))
    } else if meta.offset == firmware.len() {
        Err(nothing_left_msg())
    } else {
        spec_disassemble_bytes(firmware.skip(meta.offset as int), meta.base_addr, meta.arch, meta.endian)
    }
}

/// Disassemble using metadata the user entered by hand: the image from the
/// given offset on, decoded at the given base address.
pub fn disassemble_manual(firmware: &[u8], meta: &ManualMeta) -> (r: Result<Vec<Insn>, String>)
    ensures
        result_view(r) == spec_disassemble_manual(firmware@, *meta),
{
    if meta.offset > firmware.len() {
        let mut msg = String::new();
        push_str(&mut msg, "offset 0x");
        push_lower_hex(&mut msg, meta.offset as u64);
        push_str(&mut msg, " is past the end of the file");
        assert(msg@ =~= offset_past_end_msg(meta.offset));
        return Err(msg);
    }
    if meta.offset == firmware.len() {
        return Err("offset leaves no bytes to disassemble".to_owned());
    }
    let code = vstd::slice::slice_subrange(firmware, meta.offset, firmware.len());
    assert(code@ =~= firmware@.skip(meta.offset as int));
    disassemble_bytes(code, meta.base_addr, meta.arch, meta.endian)
}

/// What the `object` crate reads of a section of an object file: the bytes
/// and load address of the section with this name. `None` when the image
/// does not parse as an object file, has no such section, or its data cannot
/// be read.
pub uninterp spec fn object_section(data: Seq<u8>, name: Seq<char>) -> Option<(Seq<u8>, u64)>;

/// What the `object` crate reads of an object file's headers: the name of
/// the architecture they declare (as `object::Architecture` spells its
/// variant) and whether the file is little-endian. `None` when the image
/// does not parse as an object file.
pub uninterp spec fn object_arch(data: Seq<u8>) -> Option<(Seq<char>, bool)>;

/// `object::File::parse` on the image, then `section_by_name` with the
/// given name, and the section's `data()` (copied) and `address()`. The
/// result is claimed to be a function of the image's bytes and the name.
#[verifier::external_body]
fn read_section(firmware: &[u8], name: &str) -> (r: Option<(Vec<u8>, u64)>)
    ensures
        match r {
            Some((bytes, addr)) => object_section(firmware@, name@) == Some((bytes@, addr)),
            None => object_section(firmware@, name@) is None,
        },
{
    let file = object::File::parse(firmware).ok()?;
    let section = file.section_by_name(name)?;
    let bytes = section.data().ok()?.to_vec();
    Some((bytes, section.address()))
}

/// `object::File::parse` on the image, then the file's `architecture()`,
/// written with `Debug` (for these fieldless variants, the variant's name),
/// and its `is_little_endian()`. The result is claimed to be a function of
/// the image's bytes.
#[verifier::external_body]
fn read_arch(firmware: &[u8]) -> (r: Option<(String, bool)>)
    ensures
        match r {
            Some((arch, little)) => object_arch(firmware@) == Some((arch@, little)),
            None => object_arch(firmware@) is None,
        },
{
    let file = object::File::parse(firmware).ok()?;
    Some((format!("{:?}", file.architecture()), file.is_little_endian()))
}

/// The architecture an `object::Architecture` name stands for; the ones
/// the disassembler has no engine for are `Other`.
pub open spec fn spec_arch_of_name(n: Seq<char>) -> Arch {
    if n == "X86_64"@ {
        Arch::X86_64
    } else if n == "I386"@ {
        Arch::I386
    } else if n == "Aarch64"@ {
        Arch::Aarch64
    } else if n == "Arm"@ {
        Arch::Arm
    } else if n == "Mips"@ {
        Arch::Mips
    } else if n == "Mips64"@ {
        Arch::Mips64
    } else if n == "PowerPc64"@ {
        Arch::PowerPc64
    } else if n == "Riscv64"@ {
        Arch::Riscv64
    } else if n == "Riscv32"@ {
        Arch::Riscv32
    } else {
        Arch::Other
    }
}

pub fn arch_of_name(n: &str) -> (r: Arch)
    ensures
        r == spec_arch_of_name(n@),
{
    let cs = chars_of(n);
    if chars_equal(&cs, "X86_64") {
        Arch::X86_64
    } else if chars_equal(&cs, "I386") {
        Arch::I386
    } else if chars_equal(&cs, "Aarch64") {
        Arch::Aarch64
    } else if chars_equal(&cs, "Arm") {
        Arch::Arm
    } else if chars_equal(&cs, "Mips") {
        Arch::Mips
    } else if chars_equal(&cs, "Mips64") {
        Arch::Mips64
    } else if chars_equal(&cs, "PowerPc64") {
        Arch::PowerPc64
    } else if chars_equal(&cs, "Riscv64") {
        Arch::Riscv64
    } else if chars_equal(&cs, "Riscv32") {
        Arch::Riscv32
    } else {
        Arch::Other
    }
}

/// The `.text` section and its load address, if the image is an object file
/// that has a readable one.
pub open spec fn spec_text_section(data: Seq<u8>) -> Option<(Seq<u8>, u64)> {
    object_section(data, ".text"@)
}

/// The architecture and byte order, if the image is an object file.
pub open spec fn spec_detect_arch(data: Seq<u8>) -> Option<(Arch, Endian)> {
    match object_arch(data) {
        Some((n, little)) => Some(
            (
                spec_arch_of_name(n),
                if little {
                    Endian::Little
                } else {
                    Endian::Big
                },
            ),
        ),
        None => None,
    }
}

fn text_section(firmware: &[u8]) -> (r: Option<(Vec<u8>, u64)>)
    ensures
        match r {
            Some((bytes, addr)) => spec_text_section(firmware@) == Some((bytes@, addr)),
            None => spec_text_section(firmware@) is None,
        },
{
    read_section(firmware, ".text")
}

fn detect_arch(firmware: &[u8]) -> (r: Option<(Arch, Endian)>)
    ensures
        r == spec_detect_arch(firmware@),
{
    match read_arch(firmware) {
        Some((name, little)) => {
            let endian = if little {
                Endian::Little
            } else {
                Endian::Big
            };
            Some((arch_of_name(name.as_str()), endian))
        },
        None => None,
    }
}

/// Message when the image is not an object file with a `.text` section.
pub open spec fn no_text_msg() -> Seq<char> {
    "could not locate a .text section / base address (not a recognized object file)"@
}

/// Message when the headers name no architecture.
pub open spec fn no_arch_msg() -> Seq<char> {
    "architecture could not be identified from the file headers"@
}

/// What automatic disassembly gives for an image: an error when it has no
/// readable `.text` section, an error when its headers name no architecture,
/// and otherwise the decoding of the section's bytes at its load address.
pub open spec fn spec_disassembler(data: Seq<u8>) -> Result<Seq<InsnView>, Seq<char>> {
    match spec_text_section(data) {
        None => Err(no_text_msg()),
        Some((bytes, addr)) => match spec_detect_arch(data) {
            None => Err(no_arch_msg()),
            Some((a, e)) => spec_disassemble_bytes(bytes, addr, a, e),
        },
    }
}

/// Automatic disassembly: the object file's `.text` section, decoded at its
/// load address for the architecture and byte order its headers declare.
pub fn disassembler(firmware: &[u8]) -> (r: Result<Vec<Insn>, String>)
    ensures
        result_view(r) == spec_disassembler(firmware@),
{
    let (base_bytes, base_addr) = match text_section(firmware) {
        Some(t) => t,
        None => {
            return Err(
                "could not locate a .text section / base address (not a recognized object file)".to_owned(),
            )
        },
    };
    let (arch, endian) = match detect_arch(firmware) {
        Some(m) => m,
        None => return Err("architecture could not be identified from the file headers".to_owned()),
    };
    disassemble_bytes(base_bytes.as_slice(), base_addr, arch, endian)
}

} // verus!
