//! String triage: which extracted strings deserve attention first.
use crate::text::{chars_of, lemma_lower_concat, lemma_lower_forgets_case, lower, lower_chars, upper};
use vstd::prelude::*;

verus! {

/// `needle` occurs in `hay` as a contiguous run.
pub open spec fn contains_seq(hay: Seq<char>, needle: Seq<char>) -> bool {
    exists|i: int|
        0 <= i && i + needle.len() <= hay.len() && #[trigger] hay.subrange(i, i + needle.len())
            == needle
}

fn contains_chars(hay: &Vec<char>, needle: &Vec<char>) -> (r: bool)
    ensures
        r == contains_seq(hay@, needle@),
{
    let n = needle.len();
    if n > hay.len() {
        return false;
    }
    if n == 0 {
        let ghost zero: int = 0;
        assert(hay@.subrange(zero, zero + needle@.len()) =~= needle@);
        return true;
    }
    let count = hay.len() - n + 1;
    let mut i: usize = 0;
    while i < count
        invariant
            n == needle@.len(),
            n >= 1,
            count + n == hay.len() + 1,
            i <= count,
            forall|k: int| 0 <= k < i ==> #[trigger] hay@.subrange(k, k + n) != needle@,
        decreases count - i,
    {
        let mut j: usize = 0;
        while j < n && hay[i + j] == needle[j]
            invariant
                i < count,
                j <= n,
                n == needle@.len(),
                count + n == hay.len() + 1,
                forall|k: int| 0 <= k < j ==> hay@[i + k] == needle@[k],
            decreases n - j,
        {
            j = j + 1;
        }
        if j == n {
            assert(hay@.subrange(i as int, i + n) =~= needle@);
            return true;
        }
        assert(hay@.subrange(i as int, i + n)[j as int] != needle@[j as int]);
        i = i + 1;
    }
    false
}

/// Substrings worth surfacing first when triaging a firmware image, matched
/// case-insensitively: versioning and build information, credentials, keys
/// and certificates, boot configuration, network services.
pub open spec fn important_keywords() -> Seq<Seq<char>> {
    seq![
        "version"@,
        "release"@,
        "revision"@,
        "firmware"@,
        "kernel"@,
        "linux"@,
        "u-boot"@,
        "uboot"@,
        "busybox"@,
        "openwrt"@,
        "gcc"@,
        "compiled"@,
        "build"@,
        "password"@,
        "passwd"@,
        "shadow"@,
        "root:"@,
        "admin"@,
        "login"@,
        "username"@,
        "secret"@,
        "credential"@,
        "token"@,
        "api_key"@,
        "apikey"@,
        "private key"@,
        "-----begin"@,
        "ssh-rsa"@,
        "ssh-dss"@,
        "certificate"@,
        "pgp"@,
        "bootargs"@,
        "bootcmd"@,
        "nvram"@,
        "/etc/"@,
        "mtdparts"@,
        "squashfs"@,
        "http://"@,
        "https://"@,
        "ftp://"@,
        "telnet"@,
        "dropbear"@,
        "ssid"@,
        "wpa"@
    ]
}

/// `s` contains one of the important keywords, ignoring ASCII case.
pub open spec fn spec_is_important(s: Seq<char>) -> bool {
    exists|k: int|
        0 <= k < important_keywords().len() && contains_seq(lower(s), #[trigger] important_keywords()[k])
}

pub fn is_important(s: &str) -> (r: bool)
    ensures
        r == spec_is_important(s@),
{
    let keywords: [&str; 44] = [
        "version",
        "release",
        "revision",
        "firmware",
        "kernel",
        "linux",
        "u-boot",
        "uboot",
        "busybox",
        "openwrt",
        "gcc",
        "compiled",
        "build",
        "password",
        "passwd",
        "shadow",
        "root:",
        "admin",
        "login",
        "username",
        "secret",
        "credential",
        "token",
        "api_key",
        "apikey",
        "private key",
        "-----begin",
        "ssh-rsa",
        "ssh-dss",
        "certificate",
        "pgp",
        "bootargs",
        "bootcmd",
        "nvram",
        "/etc/",
        "mtdparts",
        "squashfs",
        "http://",
        "https://",
        "ftp://",
        "telnet",
        "dropbear",
        "ssid",
        "wpa"
    ];
    assert(keywords@.map_values(|k: &str| k@) =~= important_keywords());
    let hay = lower_chars(&chars_of(s));
    let mut i: usize = 0;
    while i < 44
        invariant
            i <= 44,
            hay@ == lower(s@),
            keywords@.map_values(|k: &str| k@) == important_keywords(),
            forall|k: int| 0 <= k < i ==> !contains_seq(lower(s@), #[trigger] important_keywords()[k]),
        decreases 44 - i,
    {
        let needle = chars_of(keywords[i]);
        assert(needle@ == important_keywords()[i as int]);
        if contains_chars(&hay, &needle) {
            return true;
        }
        i = i + 1;
    }
    false
}


/// Whether a string is important does not depend on its ASCII letter case.
pub proof fn law_important_ignores_case(s: Seq<char>, t: Seq<char>)
    requires
        lower(s) == lower(t),
    ensures
        spec_is_important(s) == spec_is_important(t),
{
}

/// `t` (already lowercased) holds one of the keywords worth surfacing:
/// versioning and build information, credentials, keys and certificates,
/// boot configuration, network services.
pub open spec fn holds_listed_keyword(t: Seq<char>) -> bool {
    ||| contains_seq(t, "version"@)
    ||| contains_seq(t, "release"@)
    ||| contains_seq(t, "revision"@)
    ||| contains_seq(t, "firmware"@)
    ||| contains_seq(t, "kernel"@)
    ||| contains_seq(t, "linux"@)
    ||| contains_seq(t, "u-boot"@)
    ||| contains_seq(t, "uboot"@)
    ||| contains_seq(t, "busybox"@)
    ||| contains_seq(t, "openwrt"@)
    ||| contains_seq(t, "gcc"@)
    ||| contains_seq(t, "compiled"@)
    ||| contains_seq(t, "build"@)
    ||| contains_seq(t, "password"@)
    ||| contains_seq(t, "passwd"@)
    ||| contains_seq(t, "shadow"@)
    ||| contains_seq(t, "root:"@)
    ||| contains_seq(t, "admin"@)
    ||| contains_seq(t, "login"@)
    ||| contains_seq(t, "username"@)
    ||| contains_seq(t, "secret"@)
    ||| contains_seq(t, "credential"@)
    ||| contains_seq(t, "token"@)
    ||| contains_seq(t, "api_key"@)
    ||| contains_seq(t, "apikey"@)
    ||| contains_seq(t, "private key"@)
    ||| contains_seq(t, "-----begin"@)
    ||| contains_seq(t, "ssh-rsa"@)
    ||| contains_seq(t, "ssh-dss"@)
    ||| contains_seq(t, "certificate"@)
    ||| contains_seq(t, "pgp"@)
    ||| contains_seq(t, "bootargs"@)
    ||| contains_seq(t, "bootcmd"@)
    ||| contains_seq(t, "nvram"@)
    ||| contains_seq(t, "/etc/"@)
    ||| contains_seq(t, "mtdparts"@)
    ||| contains_seq(t, "squashfs"@)
    ||| contains_seq(t, "http://"@)
    ||| contains_seq(t, "https://"@)
    ||| contains_seq(t, "ftp://"@)
    ||| contains_seq(t, "telnet"@)
    ||| contains_seq(t, "dropbear"@)
    ||| contains_seq(t, "ssid"@)
    ||| contains_seq(t, "wpa"@)
}

/// A string is important exactly when, ignoring ASCII case, it contains one
/// of the listed keywords.
pub proof fn law_important_iff_listed_keyword(s: Seq<char>)
    ensures
        spec_is_important(s) <==> holds_listed_keyword(lower(s)),
{
    let t = lower(s);
        assert(important_keywords()[0] == "version"@);
        assert(important_keywords()[1] == "release"@);
        assert(important_keywords()[2] == "revision"@);
        assert(important_keywords()[3] == "firmware"@);
        assert(important_keywords()[4] == "kernel"@);
        assert(important_keywords()[5] == "linux"@);
        assert(important_keywords()[6] == "u-boot"@);
        assert(important_keywords()[7] == "uboot"@);
        assert(important_keywords()[8] == "busybox"@);
        assert(important_keywords()[9] == "openwrt"@);
        assert(important_keywords()[10] == "gcc"@);
        assert(important_keywords()[11] == "compiled"@);
        assert(important_keywords()[12] == "build"@);
        assert(important_keywords()[13] == "password"@);
        assert(important_keywords()[14] == "passwd"@);
        assert(important_keywords()[15] == "shadow"@);
        assert(important_keywords()[16] == "root:"@);
        assert(important_keywords()[17] == "admin"@);
        assert(important_keywords()[18] == "login"@);
        assert(important_keywords()[19] == "username"@);
        assert(important_keywords()[20] == "secret"@);
        assert(important_keywords()[21] == "credential"@);
        assert(important_keywords()[22] == "token"@);
        assert(important_keywords()[23] == "api_key"@);
        assert(important_keywords()[24] == "apikey"@);
        assert(important_keywords()[25] == "private key"@);
        assert(important_keywords()[26] == "-----begin"@);
        assert(important_keywords()[27] == "ssh-rsa"@);
        assert(important_keywords()[28] == "ssh-dss"@);
        assert(important_keywords()[29] == "certificate"@);
        assert(important_keywords()[30] == "pgp"@);
        assert(important_keywords()[31] == "bootargs"@);
        assert(important_keywords()[32] == "bootcmd"@);
        assert(important_keywords()[33] == "nvram"@);
        assert(important_keywords()[34] == "/etc/"@);
        assert(important_keywords()[35] == "mtdparts"@);
        assert(important_keywords()[36] == "squashfs"@);
        assert(important_keywords()[37] == "http://"@);
        assert(important_keywords()[38] == "https://"@);
        assert(important_keywords()[39] == "ftp://"@);
        assert(important_keywords()[40] == "telnet"@);
        assert(important_keywords()[41] == "dropbear"@);
        assert(important_keywords()[42] == "ssid"@);
        assert(important_keywords()[43] == "wpa"@);
    if holds_listed_keyword(t) {
        assert(exists|k: int|
            0 <= k < important_keywords().len() && contains_seq(t, #[trigger] important_keywords()[k]));
    }
    if spec_is_important(s) {
        let k = choose|k: int|
            0 <= k < important_keywords().len() && contains_seq(t, #[trigger] important_keywords()[k]);
        assert(contains_seq(t, important_keywords()[k]));
    }
}

/// Whether a string is important does not depend on ASCII case: its
/// uppercase and lowercase forms are judged as the string itself is.
pub proof fn law_important_case_forms(s: Seq<char>)
    ensures
        spec_is_important(upper(s)) == spec_is_important(s),
        spec_is_important(lower(s)) == spec_is_important(s),
{
    lemma_lower_forgets_case(s);
    law_important_ignores_case(upper(s), s);
    law_important_ignores_case(lower(s), s);
}

/// A string that holds an important keyword stays important whatever text
/// is put before or after it.
pub proof fn law_important_survives_extension(p: Seq<char>, s: Seq<char>, q: Seq<char>)
    requires
        spec_is_important(s),
    ensures
        spec_is_important(p + s + q),
{
    let k = choose|k: int|
        0 <= k < important_keywords().len() && contains_seq(lower(s), #[trigger] important_keywords()[k]);
    let kw = important_keywords()[k];
    let i = choose|i: int|
        0 <= i && i + kw.len() <= lower(s).len() && #[trigger] lower(s).subrange(i, i + kw.len()) == kw;
    lemma_lower_concat(p, s);
    lemma_lower_concat(p + s, q);
    let whole = lower(p + s + q);
    let j = p.len() + i;
    assert(whole.subrange(j, j + kw.len()) =~= kw);
    assert(contains_seq(whole, important_keywords()[k]));
}

/// Extracted strings, each text taken by its view, with its offset.
pub open spec fn found_view(f: Seq<(String, u64)>) -> Seq<(Seq<char>, u64)> {
    f.map_values(|x: (String, u64)| (x.0@, x.1))
}

/// Tagged strings, each text taken by its view.
pub open spec fn tagged_view(t: Seq<(String, u64, bool)>) -> Seq<(Seq<char>, u64, bool)> {
    t.map_values(|x: (String, u64, bool)| (x.0@, x.1, x.2))
}

/// Each string with its offset and whether it is important.
pub open spec fn tag(f: Seq<(Seq<char>, u64)>) -> Seq<(Seq<char>, u64, bool)> {
    f.map_values(|x: (Seq<char>, u64)| (x.0, x.1, spec_is_important(x.0)))
}

/// The entries of `t` whose flag is `flag`, in the order they come in `t`.
pub open spec fn select(t: Seq<(Seq<char>, u64, bool)>, flag: bool) -> Seq<(Seq<char>, u64, bool)>
    decreases t.len(),
{
    if t.len() == 0 {
        seq![]
    } else if t.last().2 == flag {
        select(t.drop_last(), flag).push(t.last())
    } else {
        select(t.drop_last(), flag)
    }
}

/// Important entries first, then the others, each group in input order.
pub open spec fn important_first(t: Seq<(Seq<char>, u64, bool)>) -> Seq<(Seq<char>, u64, bool)> {
    select(t, true) + select(t, false)
}

/// Tags every extracted string with whether it matches an important keyword
/// and floats the important ones to the top; within each group the incoming
/// (offset) order is kept.
pub fn prioritize_strings(found: Vec<(String, u64)>) -> (r: Vec<(String, u64, bool)>)
    ensures
        tagged_view(r@) == important_first(tag(found_view(found@))),
{
    let ghost t = tag(found_view(found@));
    let mut flags: Vec<bool> = Vec::new();
    let mut i: usize = 0;
    while i < found.len()
        invariant
            i <= found@.len(),
            flags@.len() == i,
            forall|k: int| 0 <= k < i ==> flags@[k] == #[trigger] spec_is_important(found@[k].0@),
        decreases found@.len() - i,
    {
        flags.push(is_important(found[i].0.as_str()));
        i = i + 1;
    }
    let mut out: Vec<(String, u64, bool)> = Vec::new();
    let mut pass: usize = 0;
    while pass < 2
        invariant
            pass <= 2,
            t == tag(found_view(found@)),
            t.len() == found@.len() == flags@.len(),
            forall|k: int| 0 <= k < t.len() ==> flags@[k] == #[trigger] t[k].2,
            pass == 0 ==> tagged_view(out@) == Seq::<(Seq<char>, u64, bool)>::empty(),
            pass == 1 ==> tagged_view(out@) == select(t, true),
            pass == 2 ==> tagged_view(out@) == important_first(t),
        decreases 2 - pass,
    {
        let want = pass == 0;
        let ghost base = if pass == 0 {
            Seq::<(Seq<char>, u64, bool)>::empty()
        } else {
            select(t, true)
        };
        assert(t.take(0) =~= Seq::<(Seq<char>, u64, bool)>::empty());
        assert(tagged_view(out@) =~= base + select(t.take(0), want));
        let mut k: usize = 0;
        while k < found.len()
            invariant
                k <= found@.len(),
                t == tag(found_view(found@)),
                t.len() == found@.len() == flags@.len(),
                forall|j: int| 0 <= j < t.len() ==> flags@[j] == #[trigger] t[j].2,
                tagged_view(out@) == base + select(t.take(k as int), want),
            decreases found@.len() - k,
        {
            assert(t.take(k + 1).drop_last() =~= t.take(k as int));
            assert(t[k as int] == (found@[k as int].0@, found@[k as int].1, flags@[k as int]));
            if flags[k] == want {
                let text = found[k].0.clone();
                let ghost before = tagged_view(out@);
                out.push((text, found[k].1, want));
                assert(tagged_view(out@) =~= before.push((found@[k as int].0@, found@[k as int].1, want)));
                assert(select(t.take(k + 1), want) == select(t.take(k as int), want).push(t[k as int]));
                assert(tagged_view(out@) =~= base + select(t.take(k + 1), want));
            } else {
                assert(tagged_view(out@) =~= base + select(t.take(k + 1), want));
            }
            k = k + 1;
        }
        assert(t.take(t.len() as int) =~= t);
        pass = pass + 1;
        assert(pass == 1 ==> tagged_view(out@) =~= select(t, true));
        assert(pass == 2 ==> tagged_view(out@) =~= important_first(t));
    }
    out
}

proof fn lemma_select_flags(t: Seq<(Seq<char>, u64, bool)>, flag: bool)
    ensures
        forall|i: int| 0 <= i < select(t, flag).len() ==> (#[trigger] select(t, flag)[i]).2 == flag,
        select(t, flag).len() <= t.len(),
    decreases t.len(),
{
    if t.len() > 0 {
        lemma_select_flags(t.drop_last(), flag);
    }
}

/// After prioritising, no ordinary string precedes an important one.
pub proof fn law_important_before_ordinary(t: Seq<(Seq<char>, u64, bool)>, i: int, j: int)
    requires
        0 <= i < j < important_first(t).len(),
        important_first(t)[j].2,
    ensures
        important_first(t)[i].2,
{
    lemma_select_flags(t, true);
    lemma_select_flags(t, false);
    let a = select(t, true);
    if j >= a.len() {
        assert(important_first(t)[j] == select(t, false)[j - a.len()]);
    }
    if i < a.len() {
        assert(important_first(t)[i] == a[i]);
    }
}

/// Prioritising only reorders: the result holds exactly the tagged entries,
/// each as often as before.
pub proof fn law_prioritize_is_permutation(t: Seq<(Seq<char>, u64, bool)>)
    ensures
        important_first(t).to_multiset() =~= t.to_multiset(),
    decreases t.len(),
{
    broadcast use vstd::seq_lib::group_to_multiset_ensures;

    if t.len() == 0 {
        assert(important_first(t) =~= Seq::<(Seq<char>, u64, bool)>::empty());
    } else {
        let p = t.drop_last();
        let x = t.last();
        law_prioritize_is_permutation(p);
        vstd::seq_lib::lemma_multiset_commutative(select(p, true), select(p, false));
        vstd::seq_lib::lemma_multiset_commutative(select(t, true), select(t, false));
        assert(p.push(x) =~= t);
    }
}

/// The important entries come out in the order in which they went in, and so
/// do the ordinary ones.
pub proof fn law_prioritize_is_stable(t: Seq<(Seq<char>, u64, bool)>)
    ensures
        important_first(t).take(select(t, true).len() as int) == select(t, true),
        important_first(t).skip(select(t, true).len() as int) == select(t, false),
{
    assert(important_first(t).take(select(t, true).len() as int) =~= select(t, true));
    assert(important_first(t).skip(select(t, true).len() as int) =~= select(t, false));
}

/// The bytes the string extractor treats as text: printable ASCII, tab,
/// line feed and carriage return.
pub open spec fn is_text_byte(b: u8) -> bool {
    (32 <= b <= 126) || b == 9 || b == 10 || b == 13
}

/// The characters of a run of text bytes.
pub open spec fn byte_chars(s: Seq<u8>) -> Seq<char> {
    s.map_values(|x: u8| x as char)
}

/// The run of text bytes from `start` up to `end`, if it is at least `min`
/// long: its characters and start offset.
pub open spec fn run_at(b: Seq<u8>, min: nat, start: int, end: int) -> Seq<(Seq<char>, u64)> {
    if end - start >= min {
        seq![(byte_chars(b.subrange(start, end)), start as u64)]
    } else {
        seq![]
    }
}

/// The maximal runs of text bytes at least `min` long, with their start
/// offsets, in order; the scan is at `i` and the current run began at
/// `start`.
pub open spec fn text_runs(b: Seq<u8>, min: nat, i: int, start: int) -> Seq<(Seq<char>, u64)>
    decreases b.len() - i,
{
    if i >= b.len() {
        run_at(b, min, start, b.len() as int)
    } else if is_text_byte(b[i]) {
        text_runs(b, min, i + 1, start)
    } else {
        run_at(b, min, start, i) + text_runs(b, min, i + 1, i + 1)
    }
}

/// A reported string is at least `min` characters long, lies inside the
/// data, and is made of text bytes only.
pub open spec fn good_run(b: Seq<u8>, min: nat, r: (Seq<char>, u64)) -> bool {
    &&& r.0.len() >= min
    &&& r.1 + r.0.len() <= b.len()
    &&& forall|k: int| 0 <= k < r.0.len() ==> is_text_byte(#[trigger] b[r.1 + k])
}

proof fn lemma_run_at_good(b: Seq<u8>, min: nat, start: int, end: int)
    requires
        0 <= start <= end <= b.len() <= u64::MAX,
        forall|k: int| start <= k < end ==> is_text_byte(#[trigger] b[k]),
    ensures
        forall|n: int| 0 <= n < run_at(b, min, start, end).len() ==> good_run(b, min, #[trigger] run_at(b, min, start, end)[n]),
{
    if end - start >= min {
        let r = run_at(b, min, start, end)[0];
        assert(r.1 == start);
        assert(r.0.len() == end - start);
        assert forall|k: int| 0 <= k < r.0.len() implies is_text_byte(#[trigger] b[r.1 + k]) by {
            assert(b[r.1 + k] == b[start + k]);
        }
    }
}

/// Every string reported is at least `min` characters long, lies inside
/// the data, and is made of text bytes only.
pub proof fn law_text_runs_are_text(b: Seq<u8>, min: nat, i: int, start: int)
    requires
        0 <= start <= i <= b.len() <= u64::MAX,
        forall|k: int| start <= k < i ==> is_text_byte(#[trigger] b[k]),
    ensures
        forall|n: int|
            0 <= n < text_runs(b, min, i, start).len() ==> good_run(b, min, #[trigger] text_runs(b, min, i, start)[n]),
    decreases b.len() - i,
{
    if i >= b.len() {
        lemma_run_at_good(b, min, start, i);
        assert(text_runs(b, min, i, start) == run_at(b, min, start, i));
    } else if is_text_byte(b[i]) {
        law_text_runs_are_text(b, min, i + 1, start);
        assert(text_runs(b, min, i, start) == text_runs(b, min, i + 1, start));
    } else {
        lemma_run_at_good(b, min, start, i);
        law_text_runs_are_text(b, min, i + 1, i + 1);
        let head = run_at(b, min, start, i);
        let tail = text_runs(b, min, i + 1, i + 1);
        assert(text_runs(b, min, i, start) == head + tail);
        assert forall|n: int| 0 <= n < head.len() + tail.len() implies good_run(b, min, #[trigger] (head + tail)[n]) by {
            if n < head.len() {
                assert((head + tail)[n] == head[n]);
            } else {
                assert((head + tail)[n] == tail[n - head.len()]);
            }
        }
    }
}

/// Calls `rust_strings::strings` on a byte buffer, ASCII only (no encoding
/// given means ASCII), with the given minimum length. Its ASCII extractor
/// collects each run of text bytes (32..=126, tab, line feed, carriage
/// return), starts writing the run out once it reaches `min_length` bytes,
/// and ends it at the next other byte or at the end of the buffer; the
/// vector writer keeps each written run with the offset of its first byte.
/// So the result is the maximal text runs at least `min_length` long, in
/// order. Over an in-memory buffer the call never fails: neither the
/// byte-buffer source nor the vector writer has an error path. A minimum
/// length of zero would underflow inside the extractor, hence the
/// precondition.
#[verifier::external_body]
fn strings_from_bytes(bytes: Vec<u8>, min_length: usize) -> (r: Result<Vec<(String, u64)>, String>)
    requires
        min_length >= 1,
    ensures
        r is Ok,
        r matches Ok(v) ==> found_view(v@) == text_runs(bytes@, min_length as nat, 0, 0),
{
    let config = rust_strings::BytesConfig { bytes, min_length, encodings: Vec::new() };
    match rust_strings::strings(&config) {
        Ok(found) => Ok(found),
        Err(e) => Err(e.to_string()),
    }
}

/// Shortest run of printable bytes reported as a string.
pub open spec fn min_string_length() -> usize {
    4
}

/// The text strings of the image (maximal runs of text bytes at least four
/// long), with their offsets, in offset order.
pub fn extract_strings(firmware: &[u8]) -> (r: Result<Vec<(String, u64)>, String>)
    ensures
        r matches Ok(v) && found_view(v@) == text_runs(firmware@, min_string_length() as nat, 0, 0),
{
    let bytes = vstd::slice::slice_to_vec(firmware);
    strings_from_bytes(bytes, 4)
}

} // verus!
