//! The feed files that the parser reads without failing.
//!
//! The parser reads times with a pattern of decimal digits (any Unicode
//! digits among them) and takes each run of digits as a `u64` without
//! looking at the outcome, multiplying the hours by 3600. It does so with
//! the text of an element named `duration` (of the iTunes namespace) and the
//! values of the attributes `start`, `end` (of `media:text`) and `time` (of
//! `media:thumbnail`). A time with a run of 20 or more digits, an hour part
//! of 16 or more digits, or a digit other than `0`-`9` stops it.
//!
//! `safe_feed_bytes` looks at those places only, as the parser reads them:
//! the text after every start tag whose local name is `duration` (up to the
//! next tag, through CDATA sections, comments and processing instructions,
//! which the parser joins into one text, and with character references
//! resolved) and the value of every attribute named `start`, `end` or
//! `time` (both as it stands and with its references resolved, since the
//! parser takes it as it stands where a reference cannot be resolved).
//! There it allows no run of 20 digits, none of 16 followed by `:`, and no
//! digit other than `0`-`9`. Where it cannot follow the parser, it leans to
//! the safe side: it refuses a declaration in such a text, a reference there
//! that the parser would refuse, and a non-ASCII character that it reads as
//! UTF-8 to be a digit. Besides, the bytes must be read in an encoding in
//! which these bytes mean what they mean in ASCII and which has no digits but
//! `0`-`9`: they may not begin as UTF-16 does, and an `encoding` named in
//! them must be UTF-8 or one of the one-byte encodings of Latin, Cyrillic
//! and Greek script (see `ascii_label_at`).
use vstd::prelude::*;

verus! {

/// An ASCII decimal digit.
pub open spec fn is_digit(c: u8) -> bool {
    0x30 <= c <= 0x39
}

/// White space as XML reads it.
pub open spec fn is_space(c: u8) -> bool {
    c == 0x20 || c == 0x09 || c == 0x0A || c == 0x0D
}

/// A continuation byte of UTF-8.
pub open spec fn is_cont(c: u8) -> bool {
    0x80 <= c <= 0xBF
}

/// `pat` stands in `b` at position `i`.
pub open spec fn bytes_at(b: Seq<u8>, i: int, pat: Seq<u8>) -> bool {
    0 <= i && i + pat.len() <= b.len() && b.subrange(i, i + pat.len()) == pat
}

/// A decimal digit of a script other than Latin, or a Latin one, among the
/// characters below U+10000 (the Unicode class `Nd`).
pub open spec fn bmp_digit(cp: int) -> bool {
    ||| 0x30 <= cp <= 0x39
    ||| 0x660 <= cp <= 0x669
    ||| 0x6F0 <= cp <= 0x6F9
    ||| 0x7C0 <= cp <= 0x7C9
    ||| 0x966 <= cp <= 0x96F
    ||| 0x9E6 <= cp <= 0x9EF
    ||| 0xA66 <= cp <= 0xA6F
    ||| 0xAE6 <= cp <= 0xAEF
    ||| 0xB66 <= cp <= 0xB6F
    ||| 0xBE6 <= cp <= 0xBEF
    ||| 0xC66 <= cp <= 0xC6F
    ||| 0xCE6 <= cp <= 0xCEF
    ||| 0xD66 <= cp <= 0xD6F
    ||| 0xDE6 <= cp <= 0xDEF
    ||| 0xE50 <= cp <= 0xE59
    ||| 0xED0 <= cp <= 0xED9
    ||| 0xF20 <= cp <= 0xF29
    ||| 0x1040 <= cp <= 0x1049
    ||| 0x1090 <= cp <= 0x1099
    ||| 0x17E0 <= cp <= 0x17E9
    ||| 0x1810 <= cp <= 0x1819
    ||| 0x1946 <= cp <= 0x194F
    ||| 0x19D0 <= cp <= 0x19D9
    ||| 0x1A80 <= cp <= 0x1A89
    ||| 0x1A90 <= cp <= 0x1A99
    ||| 0x1B50 <= cp <= 0x1B59
    ||| 0x1BB0 <= cp <= 0x1BB9
    ||| 0x1C40 <= cp <= 0x1C49
    ||| 0x1C50 <= cp <= 0x1C59
    ||| 0xA620 <= cp <= 0xA629
    ||| 0xA8D0 <= cp <= 0xA8D9
    ||| 0xA900 <= cp <= 0xA909
    ||| 0xA9D0 <= cp <= 0xA9D9
    ||| 0xA9F0 <= cp <= 0xA9F9
    ||| 0xAA50 <= cp <= 0xAA59
    ||| 0xABF0 <= cp <= 0xABF9
    ||| 0xFF10 <= cp <= 0xFF19
}

/// A character that is no decimal digit: one below U+10000 that is none, or
/// one of the symbols and pictographs from U+1F000 to U+1FBEF; other
/// characters above U+FFFF are counted as possible digits.
pub open spec fn nd_free(cp: int) -> bool {
    (0 <= cp < 0x10000 && !bmp_digit(cp)) || (0x1F000 <= cp < 0x1FBF0)
}

/// The character that a complete UTF-8 sequence at position `i` encodes, if
/// one begins there, is no digit.
pub open spec fn char_ok_at(b: Seq<u8>, i: int) -> bool {
    let c = b[i];
    if 0xC2 <= c <= 0xDF && i + 1 < b.len() && is_cont(b[i + 1]) {
        nd_free((c - 0xC0) * 64 + (b[i + 1] - 0x80))
    } else if 0xE0 <= c <= 0xEF && i + 2 < b.len() && is_cont(b[i + 1]) && is_cont(b[i + 2]) {
        nd_free((c - 0xE0) * 4096 + (b[i + 1] - 0x80) * 64 + (b[i + 2] - 0x80))
    } else if 0xF0 <= c <= 0xF4 && i + 3 < b.len() && is_cont(b[i + 1]) && is_cont(b[i + 2]) && is_cont(b[i + 3]) {
        nd_free((c - 0xF0) * 262144 + (b[i + 1] - 0x80) * 4096 + (b[i + 2] - 0x80) * 64 + (b[i + 3] - 0x80))
    } else {
        true
    }
}

/// The first position from `k` on that holds no white space.
pub open spec fn skip_space(b: Seq<u8>, k: int) -> int
    decreases b.len() - k,
{
    if 0 <= k < b.len() && is_space(b[k]) {
        skip_space(b, k + 1)
    } else {
        k
    }
}

/// `<![CDATA[`, which opens a CDATA section.
pub open spec fn cdata_open() -> Seq<u8> {
    seq![0x3Cu8, 0x21u8, 0x5Bu8, 0x43u8, 0x44u8, 0x41u8, 0x54u8, 0x41u8, 0x5Bu8]
}

/// `]]>`, which closes a CDATA section.
pub open spec fn cdata_close() -> Seq<u8> {
    seq![0x5Du8, 0x5Du8, 0x3Eu8]
}

/// `<!`, which opens a comment, a CDATA section or a declaration.
pub open spec fn markup_open() -> Seq<u8> {
    seq![0x3Cu8, 0x21u8]
}

/// `<?`, which opens a processing instruction.
pub open spec fn pi_open() -> Seq<u8> {
    seq![0x3Cu8, 0x3Fu8]
}

/// `duration`, the name of the element of a time.
pub open spec fn duration_word() -> Seq<u8> {
    seq![0x64u8, 0x75u8, 0x72u8, 0x61u8, 0x74u8, 0x69u8, 0x6Fu8, 0x6Eu8]
}

/// `start`, an attribute of a time.
pub open spec fn start_word() -> Seq<u8> {
    seq![0x73u8, 0x74u8, 0x61u8, 0x72u8, 0x74u8]
}

/// `end`, an attribute of a time.
pub open spec fn end_word() -> Seq<u8> {
    seq![0x65u8, 0x6Eu8, 0x64u8]
}

/// `time`, an attribute of a time.
pub open spec fn time_word() -> Seq<u8> {
    seq![0x74u8, 0x69u8, 0x6Du8, 0x65u8]
}

/// `encoding`, the attribute of the XML declaration that names the encoding.
pub open spec fn encoding_word() -> Seq<u8> {
    seq![0x65u8, 0x6Eu8, 0x63u8, 0x6Fu8, 0x64u8, 0x69u8, 0x6Eu8, 0x67u8]
}

/// `<!--`, which opens a comment.
pub open spec fn comment_open() -> Seq<u8> {
    seq![0x3Cu8, 0x21u8, 0x2Du8, 0x2Du8]
}

/// `-->`, which closes a comment.
pub open spec fn comment_close() -> Seq<u8> {
    seq![0x2Du8, 0x2Du8, 0x3Eu8]
}

/// `?>`, which closes a processing instruction.
pub open spec fn pi_close() -> Seq<u8> {
    seq![0x3Fu8, 0x3Eu8]
}

/// `lt`, a predefined entity.
pub open spec fn lt_word() -> Seq<u8> {
    seq![0x6Cu8, 0x74u8]
}

/// `gt`, a predefined entity.
pub open spec fn gt_word() -> Seq<u8> {
    seq![0x67u8, 0x74u8]
}

/// `amp`, a predefined entity.
pub open spec fn amp_word() -> Seq<u8> {
    seq![0x61u8, 0x6Du8, 0x70u8]
}

/// `apos`, a predefined entity.
pub open spec fn apos_word() -> Seq<u8> {
    seq![0x61u8, 0x70u8, 0x6Fu8, 0x73u8]
}

/// `quot`, a predefined entity.
pub open spec fn quot_word() -> Seq<u8> {
    seq![0x71u8, 0x75u8, 0x6Fu8, 0x74u8]
}

/// The label `utf-8`.
pub open spec fn label_0() -> Seq<u8> {
    seq![0x75u8, 0x74u8, 0x66u8, 0x2Du8, 0x38u8]
}

/// The label `utf8`.
pub open spec fn label_1() -> Seq<u8> {
    seq![0x75u8, 0x74u8, 0x66u8, 0x38u8]
}

/// The label `iso-8859-1`.
pub open spec fn label_2() -> Seq<u8> {
    seq![0x69u8, 0x73u8, 0x6Fu8, 0x2Du8, 0x38u8, 0x38u8, 0x35u8, 0x39u8, 0x2Du8, 0x31u8]
}

/// The label `latin1`.
pub open spec fn label_3() -> Seq<u8> {
    seq![0x6Cu8, 0x61u8, 0x74u8, 0x69u8, 0x6Eu8, 0x31u8]
}

/// The label `windows-1252`.
pub open spec fn label_4() -> Seq<u8> {
    seq![0x77u8, 0x69u8, 0x6Eu8, 0x64u8, 0x6Fu8, 0x77u8, 0x73u8, 0x2Du8, 0x31u8, 0x32u8, 0x35u8, 0x32u8]
}

/// The label `us-ascii`.
pub open spec fn label_5() -> Seq<u8> {
    seq![0x75u8, 0x73u8, 0x2Du8, 0x61u8, 0x73u8, 0x63u8, 0x69u8, 0x69u8]
}

/// The label `ascii`.
pub open spec fn label_6() -> Seq<u8> {
    seq![0x61u8, 0x73u8, 0x63u8, 0x69u8, 0x69u8]
}

/// The label `iso-8859-2`.
pub open spec fn label_7() -> Seq<u8> {
    seq![0x69u8, 0x73u8, 0x6Fu8, 0x2Du8, 0x38u8, 0x38u8, 0x35u8, 0x39u8, 0x2Du8, 0x32u8]
}

/// The label `iso-8859-3`.
pub open spec fn label_8() -> Seq<u8> {
    seq![0x69u8, 0x73u8, 0x6Fu8, 0x2Du8, 0x38u8, 0x38u8, 0x35u8, 0x39u8, 0x2Du8, 0x33u8]
}

/// The label `iso-8859-4`.
pub open spec fn label_9() -> Seq<u8> {
    seq![0x69u8, 0x73u8, 0x6Fu8, 0x2Du8, 0x38u8, 0x38u8, 0x35u8, 0x39u8, 0x2Du8, 0x34u8]
}

/// The label `iso-8859-5`.
pub open spec fn label_10() -> Seq<u8> {
    seq![0x69u8, 0x73u8, 0x6Fu8, 0x2Du8, 0x38u8, 0x38u8, 0x35u8, 0x39u8, 0x2Du8, 0x35u8]
}

/// The label `iso-8859-7`.
pub open spec fn label_11() -> Seq<u8> {
    seq![0x69u8, 0x73u8, 0x6Fu8, 0x2Du8, 0x38u8, 0x38u8, 0x35u8, 0x39u8, 0x2Du8, 0x37u8]
}

/// The label `iso-8859-9`.
pub open spec fn label_12() -> Seq<u8> {
    seq![0x69u8, 0x73u8, 0x6Fu8, 0x2Du8, 0x38u8, 0x38u8, 0x35u8, 0x39u8, 0x2Du8, 0x39u8]
}

/// The label `iso-8859-10`.
pub open spec fn label_13() -> Seq<u8> {
    seq![0x69u8, 0x73u8, 0x6Fu8, 0x2Du8, 0x38u8, 0x38u8, 0x35u8, 0x39u8, 0x2Du8, 0x31u8, 0x30u8]
}

/// The label `iso-8859-13`.
pub open spec fn label_14() -> Seq<u8> {
    seq![0x69u8, 0x73u8, 0x6Fu8, 0x2Du8, 0x38u8, 0x38u8, 0x35u8, 0x39u8, 0x2Du8, 0x31u8, 0x33u8]
}

/// The label `iso-8859-14`.
pub open spec fn label_15() -> Seq<u8> {
    seq![0x69u8, 0x73u8, 0x6Fu8, 0x2Du8, 0x38u8, 0x38u8, 0x35u8, 0x39u8, 0x2Du8, 0x31u8, 0x34u8]
}

/// The label `iso-8859-15`.
pub open spec fn label_16() -> Seq<u8> {
    seq![0x69u8, 0x73u8, 0x6Fu8, 0x2Du8, 0x38u8, 0x38u8, 0x35u8, 0x39u8, 0x2Du8, 0x31u8, 0x35u8]
}

/// The label `iso-8859-16`.
pub open spec fn label_17() -> Seq<u8> {
    seq![0x69u8, 0x73u8, 0x6Fu8, 0x2Du8, 0x38u8, 0x38u8, 0x35u8, 0x39u8, 0x2Du8, 0x31u8, 0x36u8]
}

/// The label `windows-1250`.
pub open spec fn label_18() -> Seq<u8> {
    seq![0x77u8, 0x69u8, 0x6Eu8, 0x64u8, 0x6Fu8, 0x77u8, 0x73u8, 0x2Du8, 0x31u8, 0x32u8, 0x35u8, 0x30u8]
}

/// The label `windows-1251`.
pub open spec fn label_19() -> Seq<u8> {
    seq![0x77u8, 0x69u8, 0x6Eu8, 0x64u8, 0x6Fu8, 0x77u8, 0x73u8, 0x2Du8, 0x31u8, 0x32u8, 0x35u8, 0x31u8]
}

/// The label `windows-1253`.
pub open spec fn label_20() -> Seq<u8> {
    seq![0x77u8, 0x69u8, 0x6Eu8, 0x64u8, 0x6Fu8, 0x77u8, 0x73u8, 0x2Du8, 0x31u8, 0x32u8, 0x35u8, 0x33u8]
}

/// The label `windows-1254`.
pub open spec fn label_21() -> Seq<u8> {
    seq![0x77u8, 0x69u8, 0x6Eu8, 0x64u8, 0x6Fu8, 0x77u8, 0x73u8, 0x2Du8, 0x31u8, 0x32u8, 0x35u8, 0x34u8]
}

/// The label `windows-1257`.
pub open spec fn label_22() -> Seq<u8> {
    seq![0x77u8, 0x69u8, 0x6Eu8, 0x64u8, 0x6Fu8, 0x77u8, 0x73u8, 0x2Du8, 0x31u8, 0x32u8, 0x35u8, 0x37u8]
}

/// The label `windows-1258`.
pub open spec fn label_23() -> Seq<u8> {
    seq![0x77u8, 0x69u8, 0x6Eu8, 0x64u8, 0x6Fu8, 0x77u8, 0x73u8, 0x2Du8, 0x31u8, 0x32u8, 0x35u8, 0x38u8]
}

/// The label `koi8-r`.
pub open spec fn label_24() -> Seq<u8> {
    seq![0x6Bu8, 0x6Fu8, 0x69u8, 0x38u8, 0x2Du8, 0x72u8]
}

/// The label `koi8-u`.
pub open spec fn label_25() -> Seq<u8> {
    seq![0x6Bu8, 0x6Fu8, 0x69u8, 0x38u8, 0x2Du8, 0x75u8]
}

/// A byte of a name (letters, digits, `-`, `_`, `.`, `:` and the bytes of
/// characters beyond ASCII).
pub open spec fn is_name_byte(c: u8) -> bool {
    ||| 0x41 <= c <= 0x5A
    ||| 0x61 <= c <= 0x7A
    ||| 0x30 <= c <= 0x39
    ||| c == 0x2D || c == 0x5F || c == 0x2E || c == 0x3A
    ||| c >= 0x80
}

/// The letter `c` in lower case.
pub open spec fn lower(c: u8) -> u8 {
    if 0x41 <= c <= 0x5A {
        (c + 32) as u8
    } else {
        c
    }
}

/// At position `q` stands `lab` in quotes (`"` or `'`), in any case.
pub open spec fn label_at(b: Seq<u8>, q: int, lab: Seq<u8>) -> bool {
    &&& 0 <= q && q + lab.len() + 2 <= b.len()
    &&& (b[q] == 0x22 || b[q] == 0x27)
    &&& forall|k: int| 0 <= k < lab.len() ==> lower(#[trigger] b[q + 1 + k]) == lab[k]
    &&& b[q + 1 + lab.len()] == b[q]
}

/// At position `q` stands the quoted label of an encoding that reads ASCII
/// bytes as ASCII and has no digits but `0`-`9`: UTF-8, and the one-byte
/// encodings of Latin, Cyrillic and Greek script.
pub open spec fn ascii_label_at(b: Seq<u8>, q: int) -> bool {
    ||| label_at(b, q, label_0())
    ||| label_at(b, q, label_1())
    ||| label_at(b, q, label_2())
    ||| label_at(b, q, label_3())
    ||| label_at(b, q, label_4())
    ||| label_at(b, q, label_5())
    ||| label_at(b, q, label_6())
    ||| label_at(b, q, label_7())
    ||| label_at(b, q, label_8())
    ||| label_at(b, q, label_9())
    ||| label_at(b, q, label_10())
    ||| label_at(b, q, label_11())
    ||| label_at(b, q, label_12())
    ||| label_at(b, q, label_13())
    ||| label_at(b, q, label_14())
    ||| label_at(b, q, label_15())
    ||| label_at(b, q, label_16())
    ||| label_at(b, q, label_17())
    ||| label_at(b, q, label_18())
    ||| label_at(b, q, label_19())
    ||| label_at(b, q, label_20())
    ||| label_at(b, q, label_21())
    ||| label_at(b, q, label_22())
    ||| label_at(b, q, label_23())
    ||| label_at(b, q, label_24())
    ||| label_at(b, q, label_25())
}

/// After the word `encoding` ending before position `k`, an `=` (with or
/// without white space around it) is followed by such a label.
pub open spec fn encoding_ok(b: Seq<u8>, k: int) -> bool {
    let j = skip_space(b, k);
    (0 <= j < b.len() && b[j] == 0x3D) ==> ascii_label_at(b, skip_space(b, j + 1))
}

/// The bytes do not begin as a UTF-16 text does (with its byte order mark or
/// with a zero byte in one of the first two places).
pub open spec fn start_ok(b: Seq<u8>) -> bool {
    &&& b.len() >= 1 ==> b[0] != 0x00 && b[0] != 0xFE && b[0] != 0xFF
    &&& b.len() >= 2 ==> b[1] != 0x00
}

/// The end of the name that begins at `k`: the first white space or `>`.
pub open spec fn name_end(b: Seq<u8>, k: int) -> int
    decreases b.len() - k,
{
    if 0 <= k < b.len() && !is_space(b[k]) && b[k] != 0x3E {
        name_end(b, k + 1)
    } else {
        k
    }
}

/// The `<` at position `t` opens a tag whose local name (after its last
/// `:`, without a closing `/`) is `duration`.
pub open spec fn duration_tag(b: Seq<u8>, t: int) -> bool {
    let e = name_end(b, t + 1);
    let e2 = if e > t + 1 && b[e - 1] == 0x2F { e - 1 } else { e };
    &&& 0 <= t < b.len() && b[t] == 0x3C
    &&& e2 >= t + 9
    &&& bytes_at(b, e2 - 8, duration_word())
    &&& (e2 - 8 == t + 1 || b[e2 - 9] == 0x3A)
}


/// An ASCII hexadecimal digit.
pub open spec fn is_hex(c: u8) -> bool {
    is_digit(c) || (0x41 <= c <= 0x46) || (0x61 <= c <= 0x66)
}

/// The value of a hexadecimal digit.
pub open spec fn hex_digit_value(c: u8) -> int {
    if is_digit(c) {
        c - 0x30
    } else if 0x41 <= c <= 0x46 {
        c - 0x41 + 10
    } else {
        c - 0x61 + 10
    }
}

/// The bytes from `s` up to `e` are decimal digits.
pub open spec fn all_dec(b: Seq<u8>, s: int, e: int) -> bool {
    forall|p: int| s <= p < e ==> is_digit(#[trigger] b[p])
}

/// The bytes from `s` up to `e` are hexadecimal digits.
pub open spec fn all_hex(b: Seq<u8>, s: int, e: int) -> bool {
    forall|p: int| s <= p < e ==> is_hex(#[trigger] b[p])
}

/// The value of the decimal digits from `s` up to `e`.
pub open spec fn dec_val(b: Seq<u8>, s: int, e: int) -> int
    decreases e - s,
{
    if e <= s {
        0
    } else {
        dec_val(b, s, e - 1) * 10 + (b[e - 1] - 0x30)
    }
}

/// The value of the hexadecimal digits from `s` up to `e`.
pub open spec fn hex_val(b: Seq<u8>, s: int, e: int) -> int
    decreases e - s,
{
    if e <= s {
        0
    } else {
        hex_val(b, s, e - 1) * 16 + hex_digit_value(b[e - 1])
    }
}

/// The character that the reference `&#...;` stands for, whose number runs
/// from `s` up to `e`: `x` and hexadecimal digits, or decimal digits, for a
/// character other than 0; `None` where the parser refuses it.
pub open spec fn ref_char(b: Seq<u8>, s: int, e: int) -> Option<int> {
    let n: Option<int> = if s < e && b[s] == 0x78 {
        if s + 1 < e && all_hex(b, s + 1, e) {
            Some(hex_val(b, s + 1, e))
        } else {
            None
        }
    } else if s < e && all_dec(b, s, e) {
        Some(dec_val(b, s, e))
    } else {
        None
    };
    match n {
        Some(v) => if 0 < v <= 0x10FFFF && !(0xD800 <= v <= 0xDFFF) {
            Some(v)
        } else {
            None
        },
        None => None,
    }
}

/// The number of digits just read after character `v`, with `r` read
/// before it; `None` where that makes a time the parser fails on (a run of
/// 20 digits, 16 followed by `:`, or a digit other than `0`-`9`).
pub open spec fn run_after(v: int, r: int) -> Option<int> {
    if 0x30 <= v <= 0x39 {
        if r >= 19 {
            None
        } else {
            Some(r + 1)
        }
    } else if v == 0x3A && r >= 16 {
        None
    } else if !nd_free(v) {
        None
    } else {
        Some(0)
    }
}

/// The end of the reference in a text that begins before `k`: the first
/// `;`, `&` or `<` from `k` on.
pub open spec fn text_ref_end(b: Seq<u8>, k: int) -> int
    decreases b.len() - k,
{
    if 0 <= k < b.len() && b[k] != 0x3B && b[k] != 0x26 && b[k] != 0x3C {
        text_ref_end(b, k + 1)
    } else {
        k
    }
}

/// The end of the reference in an attribute value that begins before `k`:
/// the first `;`, `&` or closing quote from `k` on.
pub open spec fn value_ref_end(b: Seq<u8>, k: int, quote: u8) -> int
    decreases b.len() - k,
{
    if 0 <= k < b.len() && b[k] != 0x3B && b[k] != 0x26 && b[k] != quote {
        value_ref_end(b, k + 1, quote)
    } else {
        k
    }
}

/// The name from `s` up to `e` is that of a predefined entity.
pub open spec fn predefined_at(b: Seq<u8>, s: int, e: int) -> bool {
    ||| e == s + 2 && bytes_at(b, s, lt_word())
    ||| e == s + 2 && bytes_at(b, s, gt_word())
    ||| e == s + 3 && bytes_at(b, s, amp_word())
    ||| e == s + 4 && bytes_at(b, s, apos_word())
    ||| e == s + 4 && bytes_at(b, s, quot_word())
}

/// Where the scan of a time text stands: in the tag (with the quote of an
/// open attribute value, 0 for none), in the text, a CDATA section, a
/// comment or a processing instruction (with the number of digits of the
/// text just read).
#[derive(Clone, Copy, Debug, PartialEq, Eq, Structural)]
pub enum TimeScan {
    Tag(u8),
    Text(u8),
    CData(u8),
    Comment(u8),
    Pi(u8),
}

/// One step of the scan at position `k`: the verdict where the scan ends
/// there, else the next state and how many bytes it goes on.
pub open spec fn time_step(b: Seq<u8>, k: int, st: TimeScan) -> (Option<bool>, TimeScan, int) {
    let c = b[k];
    match st {
        TimeScan::Tag(q) => if q == 0 {
            if c == 0x3E {
                (None, TimeScan::Text(0), 1)
            } else if c == 0x22 || c == 0x27 {
                (None, TimeScan::Tag(c), 1)
            } else {
                (None, TimeScan::Tag(0), 1)
            }
        } else if c == q {
            (None, TimeScan::Tag(0), 1)
        } else {
            (None, TimeScan::Tag(q), 1)
        },
        TimeScan::Text(r) => if c == 0x3C {
            if bytes_at(b, k, cdata_open()) {
                (None, TimeScan::CData(r), 9)
            } else if bytes_at(b, k, comment_open()) {
                (None, TimeScan::Comment(r), 2)
            } else if bytes_at(b, k, markup_open()) {
                (Some(false), st, 0)
            } else if bytes_at(b, k, pi_open()) {
                (None, TimeScan::Pi(r), 1)
            } else {
                (Some(true), st, 0)
            }
        } else if c == 0x26 {
            let e = text_ref_end(b, k + 1);
            if !(e < b.len() && b[e] == 0x3B) {
                (Some(false), st, 0)
            } else if k + 1 < e && b[k + 1] == 0x23 {
                match ref_char(b, k + 2, e) {
                    None => (Some(false), st, 0),
                    Some(v) => match run_after(v, r as int) {
                        None => (Some(false), st, 0),
                        Some(r2) => (None, TimeScan::Text(r2 as u8), e + 1 - k),
                    },
                }
            } else {
                (None, TimeScan::Text(0), 1)
            }
        } else if is_digit(c) {
            if r >= 19 {
                (Some(false), st, 0)
            } else {
                (None, TimeScan::Text((r + 1) as u8), 1)
            }
        } else if c == 0x3A && r >= 16 {
            (Some(false), st, 0)
        } else if !char_ok_at(b, k) {
            (Some(false), st, 0)
        } else {
            (None, TimeScan::Text(0), 1)
        },
        TimeScan::CData(r) => if bytes_at(b, k, cdata_close()) {
            (None, TimeScan::Text(r), 3)
        } else if is_digit(c) {
            if r >= 19 {
                (Some(false), st, 0)
            } else {
                (None, TimeScan::CData((r + 1) as u8), 1)
            }
        } else if c == 0x3A && r >= 16 {
            (Some(false), st, 0)
        } else if !char_ok_at(b, k) {
            (Some(false), st, 0)
        } else {
            (None, TimeScan::CData(0), 1)
        },
        TimeScan::Comment(r) => if bytes_at(b, k, comment_close()) {
            (None, TimeScan::Text(r), 3)
        } else {
            (None, TimeScan::Comment(r), 1)
        },
        TimeScan::Pi(r) => if bytes_at(b, k, pi_close()) {
            (None, TimeScan::Text(r), 2)
        } else {
            (None, TimeScan::Pi(r), 1)
        },
    }
}

/// The scan of a time text from position `k` in state `st` finds nothing
/// that stops the parser, up to the next tag or the end.
pub open spec fn time_scan(b: Seq<u8>, k: int, st: TimeScan) -> bool
    decreases b.len() - k,
{
    if k < 0 || k >= b.len() {
        true
    } else {
        let s = time_step(b, k, st);
        match s.0 {
            Some(v) => v,
            None => if s.2 >= 1 {
                time_scan(b, k + s.2, s.1)
            } else {
                false
            },
        }
    }
}

/// The attribute value that begins at position `k` (after its quote `quote`)
/// holds, up to its closing quote and read as it stands, nothing that stops
/// the parser; `r` digits were just read.
pub open spec fn value_scan(b: Seq<u8>, k: int, quote: u8, r: int) -> bool
    decreases b.len() - k,
{
    if k < 0 || k >= b.len() {
        true
    } else if b[k] == quote {
        true
    } else if is_digit(b[k]) {
        r < 19 && value_scan(b, k + 1, quote, r + 1)
    } else if b[k] == 0x3A && r >= 16 {
        false
    } else {
        char_ok_at(b, k) && value_scan(b, k + 1, quote, 0)
    }
}

/// The same with its references resolved, where all of them can be (else
/// the parser takes the value as it stands).
pub open spec fn value_res(b: Seq<u8>, k: int, quote: u8, r: int) -> bool
    decreases b.len() - k,
{
    if k < 0 || k >= b.len() {
        true
    } else if b[k] == quote {
        true
    } else if b[k] == 0x26 {
        let e = value_ref_end(b, k + 1, quote);
        if !(k < e < b.len() && b[e] == 0x3B) {
            true
        } else if k + 1 < e && b[k + 1] == 0x23 {
            match ref_char(b, k + 2, e) {
                None => true,
                Some(v) => match run_after(v, r) {
                    None => false,
                    Some(r2) => value_res(b, e + 1, quote, r2),
                },
            }
        } else if predefined_at(b, k + 1, e) {
            value_res(b, e + 1, quote, 0)
        } else {
            true
        }
    } else if is_digit(b[k]) {
        r < 19 && value_res(b, k + 1, quote, r + 1)
    } else if b[k] == 0x3A && r >= 16 {
        false
    } else {
        char_ok_at(b, k) && value_res(b, k + 1, quote, 0)
    }
}

/// Where the attribute name `name` stands at position `i` (not as the end of
/// a longer name) and is given a quoted value, that value is safe.
pub open spec fn attr_ok(b: Seq<u8>, i: int, name: Seq<u8>) -> bool {
    (bytes_at(b, i, name) && (i == 0 || !is_name_byte(b[i - 1]))) ==> {
        let j = skip_space(b, i + name.len());
        (0 <= j < b.len() && b[j] == 0x3D) ==> {
            let q = skip_space(b, j + 1);
            (0 <= q < b.len() && (b[q] == 0x22 || b[q] == 0x27)) ==> value_scan(b, q + 1, b[q], 0) && value_res(b, q + 1, b[q], 0)
        }
    }
}

/// What position `i` must meet.
pub open spec fn pos_ok(b: Seq<u8>, i: int) -> bool {
    &&& duration_tag(b, i) ==> time_scan(b, i + 1, TimeScan::Tag(0))
    &&& attr_ok(b, i, start_word())
    &&& attr_ok(b, i, end_word())
    &&& attr_ok(b, i, time_word())
    &&& bytes_at(b, i, encoding_word()) ==> encoding_ok(b, i + 8)
}

/// The bytes of a feed file that the parser reads without failing on a time
/// (see the module's documentation).
pub open spec fn safe_feed_bytes(b: Seq<u8>) -> bool {
    &&& start_ok(b)
    &&& forall|i: int| 0 <= i < b.len() ==> #[trigger] pos_ok(b, i)
}

} // verus!

verus! {

/// Whether `pat` stands in `b` at position `i`.
fn bytes_at_exec(b: &[u8], i: usize, pat: &Vec<u8>) -> (res: bool)
    ensures
        res == bytes_at(b@, i as int, pat@),
{
    if i > b.len() || pat.len() > b.len() - i {
        return false;
    }
    let blen = b.len();
    let mut j: usize = 0;
    while j < pat.len()
        invariant
            blen == b@.len(),
            j <= pat@.len(),
            i + pat@.len() <= b@.len(),
            forall|k: int| 0 <= k < j ==> b@[i + k] == pat@[k],
        decreases pat@.len() - j,
    {
        if b[i + j] != pat[j] {
            assert(b@.subrange(i as int, i + pat@.len())[j as int] != pat@[j as int]);
            return false;
        }
        j += 1;
    }
    assert(b@.subrange(i as int, i + pat@.len()) =~= pat@);
    true
}

/// Whether a character is no decimal digit (see `nd_free`).
fn nd_free_exec(cp: u32) -> (res: bool)
    ensures
        res == nd_free(cp as int),
{
    let d = (0x30 <= cp && cp <= 0x39) ||
            (0x660 <= cp && cp <= 0x669) ||
            (0x6F0 <= cp && cp <= 0x6F9) ||
            (0x7C0 <= cp && cp <= 0x7C9) ||
            (0x966 <= cp && cp <= 0x96F) ||
            (0x9E6 <= cp && cp <= 0x9EF) ||
            (0xA66 <= cp && cp <= 0xA6F) ||
            (0xAE6 <= cp && cp <= 0xAEF) ||
            (0xB66 <= cp && cp <= 0xB6F) ||
            (0xBE6 <= cp && cp <= 0xBEF) ||
            (0xC66 <= cp && cp <= 0xC6F) ||
            (0xCE6 <= cp && cp <= 0xCEF) ||
            (0xD66 <= cp && cp <= 0xD6F) ||
            (0xDE6 <= cp && cp <= 0xDEF) ||
            (0xE50 <= cp && cp <= 0xE59) ||
            (0xED0 <= cp && cp <= 0xED9) ||
            (0xF20 <= cp && cp <= 0xF29) ||
            (0x1040 <= cp && cp <= 0x1049) ||
            (0x1090 <= cp && cp <= 0x1099) ||
            (0x17E0 <= cp && cp <= 0x17E9) ||
            (0x1810 <= cp && cp <= 0x1819) ||
            (0x1946 <= cp && cp <= 0x194F) ||
            (0x19D0 <= cp && cp <= 0x19D9) ||
            (0x1A80 <= cp && cp <= 0x1A89) ||
            (0x1A90 <= cp && cp <= 0x1A99) ||
            (0x1B50 <= cp && cp <= 0x1B59) ||
            (0x1BB0 <= cp && cp <= 0x1BB9) ||
            (0x1C40 <= cp && cp <= 0x1C49) ||
            (0x1C50 <= cp && cp <= 0x1C59) ||
            (0xA620 <= cp && cp <= 0xA629) ||
            (0xA8D0 <= cp && cp <= 0xA8D9) ||
            (0xA900 <= cp && cp <= 0xA909) ||
            (0xA9D0 <= cp && cp <= 0xA9D9) ||
            (0xA9F0 <= cp && cp <= 0xA9F9) ||
            (0xAA50 <= cp && cp <= 0xAA59) ||
            (0xABF0 <= cp && cp <= 0xABF9) ||
            (0xFF10 <= cp && cp <= 0xFF19);
    (cp < 0x10000 && !d) || (0x1F000 <= cp && cp < 0x1FBF0)
}

/// Whether the character that begins at position `i` is no digit (see
/// `char_ok_at`).
fn char_ok_exec(b: &[u8], i: usize) -> (res: bool)
    requires
        i < b@.len(),
    ensures
        res == char_ok_at(b@, i as int),
{
    let c = b[i];
    let n = b.len();
    if 0xC2 <= c && c <= 0xDF && n - i > 1 && 0x80 <= b[i + 1] && b[i + 1] <= 0xBF {
        nd_free_exec((c as u32 - 0xC0) * 64 + (b[i + 1] as u32 - 0x80))
    } else if 0xE0 <= c && c <= 0xEF && n - i > 2 && 0x80 <= b[i + 1] && b[i + 1] <= 0xBF && 0x80 <= b[i + 2]
        && b[i + 2] <= 0xBF {
        nd_free_exec((c as u32 - 0xE0) * 4096 + (b[i + 1] as u32 - 0x80) * 64 + (b[i + 2] as u32 - 0x80))
    } else if 0xF0 <= c && c <= 0xF4 && n - i > 3 && 0x80 <= b[i + 1] && b[i + 1] <= 0xBF && 0x80 <= b[i + 2]
        && b[i + 2] <= 0xBF && 0x80 <= b[i + 3] && b[i + 3] <= 0xBF {
        nd_free_exec(
            (c as u32 - 0xF0) * 262144 + (b[i + 1] as u32 - 0x80) * 4096 + (b[i + 2] as u32 - 0x80) * 64 + (
            b[i + 3] as u32 - 0x80),
        )
    } else {
        true
    }
}

/// The first position from `k` on that holds no white space.
fn skip_space_exec(b: &[u8], k: usize) -> (res: usize)
    requires
        k <= b@.len(),
    ensures
        res as int == skip_space(b@, k as int),
        k <= res <= b@.len(),
{
    let mut j = k;
    while j < b.len() && (b[j] == 0x20 || b[j] == 0x09 || b[j] == 0x0A || b[j] == 0x0D)
        invariant
            k <= j <= b@.len(),
            skip_space(b@, k as int) == skip_space(b@, j as int),
        decreases b@.len() - j,
    {
        j += 1;
    }
    j
}

/// The markers and labels that the scan looks for.
struct Markers {
    cdata_open: Vec<u8>,
    cdata_close: Vec<u8>,
    markup_open: Vec<u8>,
    pi_open: Vec<u8>,
    duration_word: Vec<u8>,
    start_word: Vec<u8>,
    end_word: Vec<u8>,
    time_word: Vec<u8>,
    encoding_word: Vec<u8>,
    comment_open: Vec<u8>,
    comment_close: Vec<u8>,
    pi_close: Vec<u8>,
    lt_word: Vec<u8>,
    gt_word: Vec<u8>,
    amp_word: Vec<u8>,
    apos_word: Vec<u8>,
    quot_word: Vec<u8>,
    label_0: Vec<u8>,
    label_1: Vec<u8>,
    label_2: Vec<u8>,
    label_3: Vec<u8>,
    label_4: Vec<u8>,
    label_5: Vec<u8>,
    label_6: Vec<u8>,
    label_7: Vec<u8>,
    label_8: Vec<u8>,
    label_9: Vec<u8>,
    label_10: Vec<u8>,
    label_11: Vec<u8>,
    label_12: Vec<u8>,
    label_13: Vec<u8>,
    label_14: Vec<u8>,
    label_15: Vec<u8>,
    label_16: Vec<u8>,
    label_17: Vec<u8>,
    label_18: Vec<u8>,
    label_19: Vec<u8>,
    label_20: Vec<u8>,
    label_21: Vec<u8>,
    label_22: Vec<u8>,
    label_23: Vec<u8>,
    label_24: Vec<u8>,
    label_25: Vec<u8>,
}

impl Markers {
    spec fn wf(&self) -> bool {
        &&& self.cdata_open@ == cdata_open()
        &&& self.cdata_close@ == cdata_close()
        &&& self.markup_open@ == markup_open()
        &&& self.pi_open@ == pi_open()
        &&& self.duration_word@ == duration_word()
        &&& self.start_word@ == start_word()
        &&& self.end_word@ == end_word()
        &&& self.time_word@ == time_word()
        &&& self.encoding_word@ == encoding_word()
        &&& self.comment_open@ == comment_open()
        &&& self.comment_close@ == comment_close()
        &&& self.pi_close@ == pi_close()
        &&& self.lt_word@ == lt_word()
        &&& self.gt_word@ == gt_word()
        &&& self.amp_word@ == amp_word()
        &&& self.apos_word@ == apos_word()
        &&& self.quot_word@ == quot_word()
        &&& self.label_0@ == label_0()
        &&& self.label_1@ == label_1()
        &&& self.label_2@ == label_2()
        &&& self.label_3@ == label_3()
        &&& self.label_4@ == label_4()
        &&& self.label_5@ == label_5()
        &&& self.label_6@ == label_6()
        &&& self.label_7@ == label_7()
        &&& self.label_8@ == label_8()
        &&& self.label_9@ == label_9()
        &&& self.label_10@ == label_10()
        &&& self.label_11@ == label_11()
        &&& self.label_12@ == label_12()
        &&& self.label_13@ == label_13()
        &&& self.label_14@ == label_14()
        &&& self.label_15@ == label_15()
        &&& self.label_16@ == label_16()
        &&& self.label_17@ == label_17()
        &&& self.label_18@ == label_18()
        &&& self.label_19@ == label_19()
        &&& self.label_20@ == label_20()
        &&& self.label_21@ == label_21()
        &&& self.label_22@ == label_22()
        &&& self.label_23@ == label_23()
        &&& self.label_24@ == label_24()
        &&& self.label_25@ == label_25()
    }

    fn new() -> (res: Markers)
        ensures
            res.wf(),
    {
        let res = Markers {
            cdata_open: vec![0x3Cu8, 0x21u8, 0x5Bu8, 0x43u8, 0x44u8, 0x41u8, 0x54u8, 0x41u8, 0x5Bu8],
            cdata_close: vec![0x5Du8, 0x5Du8, 0x3Eu8],
            markup_open: vec![0x3Cu8, 0x21u8],
            pi_open: vec![0x3Cu8, 0x3Fu8],
            duration_word: vec![0x64u8, 0x75u8, 0x72u8, 0x61u8, 0x74u8, 0x69u8, 0x6Fu8, 0x6Eu8],
            start_word: vec![0x73u8, 0x74u8, 0x61u8, 0x72u8, 0x74u8],
            end_word: vec![0x65u8, 0x6Eu8, 0x64u8],
            time_word: vec![0x74u8, 0x69u8, 0x6Du8, 0x65u8],
            encoding_word: vec![0x65u8, 0x6Eu8, 0x63u8, 0x6Fu8, 0x64u8, 0x69u8, 0x6Eu8, 0x67u8],
            comment_open: vec![0x3Cu8, 0x21u8, 0x2Du8, 0x2Du8],
            comment_close: vec![0x2Du8, 0x2Du8, 0x3Eu8],
            pi_close: vec![0x3Fu8, 0x3Eu8],
            lt_word: vec![0x6Cu8, 0x74u8],
            gt_word: vec![0x67u8, 0x74u8],
            amp_word: vec![0x61u8, 0x6Du8, 0x70u8],
            apos_word: vec![0x61u8, 0x70u8, 0x6Fu8, 0x73u8],
            quot_word: vec![0x71u8, 0x75u8, 0x6Fu8, 0x74u8],
            label_0: vec![0x75u8, 0x74u8, 0x66u8, 0x2Du8, 0x38u8],
            label_1: vec![0x75u8, 0x74u8, 0x66u8, 0x38u8],
            label_2: vec![0x69u8, 0x73u8, 0x6Fu8, 0x2Du8, 0x38u8, 0x38u8, 0x35u8, 0x39u8, 0x2Du8, 0x31u8],
            label_3: vec![0x6Cu8, 0x61u8, 0x74u8, 0x69u8, 0x6Eu8, 0x31u8],
            label_4: vec![0x77u8, 0x69u8, 0x6Eu8, 0x64u8, 0x6Fu8, 0x77u8, 0x73u8, 0x2Du8, 0x31u8, 0x32u8, 0x35u8, 0x32u8],
            label_5: vec![0x75u8, 0x73u8, 0x2Du8, 0x61u8, 0x73u8, 0x63u8, 0x69u8, 0x69u8],
            label_6: vec![0x61u8, 0x73u8, 0x63u8, 0x69u8, 0x69u8],
            label_7: vec![0x69u8, 0x73u8, 0x6Fu8, 0x2Du8, 0x38u8, 0x38u8, 0x35u8, 0x39u8, 0x2Du8, 0x32u8],
            label_8: vec![0x69u8, 0x73u8, 0x6Fu8, 0x2Du8, 0x38u8, 0x38u8, 0x35u8, 0x39u8, 0x2Du8, 0x33u8],
            label_9: vec![0x69u8, 0x73u8, 0x6Fu8, 0x2Du8, 0x38u8, 0x38u8, 0x35u8, 0x39u8, 0x2Du8, 0x34u8],
            label_10: vec![0x69u8, 0x73u8, 0x6Fu8, 0x2Du8, 0x38u8, 0x38u8, 0x35u8, 0x39u8, 0x2Du8, 0x35u8],
            label_11: vec![0x69u8, 0x73u8, 0x6Fu8, 0x2Du8, 0x38u8, 0x38u8, 0x35u8, 0x39u8, 0x2Du8, 0x37u8],
            label_12: vec![0x69u8, 0x73u8, 0x6Fu8, 0x2Du8, 0x38u8, 0x38u8, 0x35u8, 0x39u8, 0x2Du8, 0x39u8],
            label_13: vec![0x69u8, 0x73u8, 0x6Fu8, 0x2Du8, 0x38u8, 0x38u8, 0x35u8, 0x39u8, 0x2Du8, 0x31u8, 0x30u8],
            label_14: vec![0x69u8, 0x73u8, 0x6Fu8, 0x2Du8, 0x38u8, 0x38u8, 0x35u8, 0x39u8, 0x2Du8, 0x31u8, 0x33u8],
            label_15: vec![0x69u8, 0x73u8, 0x6Fu8, 0x2Du8, 0x38u8, 0x38u8, 0x35u8, 0x39u8, 0x2Du8, 0x31u8, 0x34u8],
            label_16: vec![0x69u8, 0x73u8, 0x6Fu8, 0x2Du8, 0x38u8, 0x38u8, 0x35u8, 0x39u8, 0x2Du8, 0x31u8, 0x35u8],
            label_17: vec![0x69u8, 0x73u8, 0x6Fu8, 0x2Du8, 0x38u8, 0x38u8, 0x35u8, 0x39u8, 0x2Du8, 0x31u8, 0x36u8],
            label_18: vec![0x77u8, 0x69u8, 0x6Eu8, 0x64u8, 0x6Fu8, 0x77u8, 0x73u8, 0x2Du8, 0x31u8, 0x32u8, 0x35u8, 0x30u8],
            label_19: vec![0x77u8, 0x69u8, 0x6Eu8, 0x64u8, 0x6Fu8, 0x77u8, 0x73u8, 0x2Du8, 0x31u8, 0x32u8, 0x35u8, 0x31u8],
            label_20: vec![0x77u8, 0x69u8, 0x6Eu8, 0x64u8, 0x6Fu8, 0x77u8, 0x73u8, 0x2Du8, 0x31u8, 0x32u8, 0x35u8, 0x33u8],
            label_21: vec![0x77u8, 0x69u8, 0x6Eu8, 0x64u8, 0x6Fu8, 0x77u8, 0x73u8, 0x2Du8, 0x31u8, 0x32u8, 0x35u8, 0x34u8],
            label_22: vec![0x77u8, 0x69u8, 0x6Eu8, 0x64u8, 0x6Fu8, 0x77u8, 0x73u8, 0x2Du8, 0x31u8, 0x32u8, 0x35u8, 0x37u8],
            label_23: vec![0x77u8, 0x69u8, 0x6Eu8, 0x64u8, 0x6Fu8, 0x77u8, 0x73u8, 0x2Du8, 0x31u8, 0x32u8, 0x35u8, 0x38u8],
            label_24: vec![0x6Bu8, 0x6Fu8, 0x69u8, 0x38u8, 0x2Du8, 0x72u8],
            label_25: vec![0x6Bu8, 0x6Fu8, 0x69u8, 0x38u8, 0x2Du8, 0x75u8],
        };
        assert(res.cdata_open@ =~= cdata_open());
        assert(res.cdata_close@ =~= cdata_close());
        assert(res.markup_open@ =~= markup_open());
        assert(res.pi_open@ =~= pi_open());
        assert(res.duration_word@ =~= duration_word());
        assert(res.start_word@ =~= start_word());
        assert(res.end_word@ =~= end_word());
        assert(res.time_word@ =~= time_word());
        assert(res.encoding_word@ =~= encoding_word());
        assert(res.comment_open@ =~= comment_open());
        assert(res.comment_close@ =~= comment_close());
        assert(res.pi_close@ =~= pi_close());
        assert(res.lt_word@ =~= lt_word());
        assert(res.gt_word@ =~= gt_word());
        assert(res.amp_word@ =~= amp_word());
        assert(res.apos_word@ =~= apos_word());
        assert(res.quot_word@ =~= quot_word());
        assert(res.label_0@ =~= label_0());
        assert(res.label_1@ =~= label_1());
        assert(res.label_2@ =~= label_2());
        assert(res.label_3@ =~= label_3());
        assert(res.label_4@ =~= label_4());
        assert(res.label_5@ =~= label_5());
        assert(res.label_6@ =~= label_6());
        assert(res.label_7@ =~= label_7());
        assert(res.label_8@ =~= label_8());
        assert(res.label_9@ =~= label_9());
        assert(res.label_10@ =~= label_10());
        assert(res.label_11@ =~= label_11());
        assert(res.label_12@ =~= label_12());
        assert(res.label_13@ =~= label_13());
        assert(res.label_14@ =~= label_14());
        assert(res.label_15@ =~= label_15());
        assert(res.label_16@ =~= label_16());
        assert(res.label_17@ =~= label_17());
        assert(res.label_18@ =~= label_18());
        assert(res.label_19@ =~= label_19());
        assert(res.label_20@ =~= label_20());
        assert(res.label_21@ =~= label_21());
        assert(res.label_22@ =~= label_22());
        assert(res.label_23@ =~= label_23());
        assert(res.label_24@ =~= label_24());
        assert(res.label_25@ =~= label_25());
        res
    }
}

/// Whether the quoted label `lab` stands at position `q` (see `label_at`).
fn label_at_exec(b: &[u8], q: usize, lab: &Vec<u8>) -> (res: bool)
    ensures
        res == label_at(b@, q as int, lab@),
{
    let n = b.len();
    if q > n || lab.len() > n - q || n - q - lab.len() < 2 {
        return false;
    }
    let quote = b[q];
    if quote != 0x22 && quote != 0x27 {
        return false;
    }
    let mut k: usize = 0;
    while k < lab.len()
        invariant
            n == b@.len(),
            q + lab@.len() + 2 <= n,
            k <= lab@.len(),
            forall|j: int| 0 <= j < k ==> lower(#[trigger] b@[q + 1 + j]) == lab@[j],
        decreases lab@.len() - k,
    {
        let c = b[q + 1 + k];
        let l = if 0x41 <= c && c <= 0x5A {
            c + 32
        } else {
            c
        };
        if l != lab[k] {
            return false;
        }
        k += 1;
    }
    b[q + 1 + lab.len()] == quote
}

/// Whether the word `encoding` that ends before `k` names an allowed
/// encoding where it is given a value (see `encoding_ok`).
fn encoding_ok_exec(b: &[u8], k: usize, mk: &Markers) -> (res: bool)
    requires
        k <= b@.len(),
        mk.wf(),
    ensures
        res == encoding_ok(b@, k as int),
{
    let j = skip_space_exec(b, k);
    if !(j < b.len() && b[j] == 0x3D) {
        return true;
    }
    let q = skip_space_exec(b, j + 1);
    label_at_exec(b, q, &mk.label_0) ||
        label_at_exec(b, q, &mk.label_1) ||
        label_at_exec(b, q, &mk.label_2) ||
        label_at_exec(b, q, &mk.label_3) ||
        label_at_exec(b, q, &mk.label_4) ||
        label_at_exec(b, q, &mk.label_5) ||
        label_at_exec(b, q, &mk.label_6) ||
        label_at_exec(b, q, &mk.label_7) ||
        label_at_exec(b, q, &mk.label_8) ||
        label_at_exec(b, q, &mk.label_9) ||
        label_at_exec(b, q, &mk.label_10) ||
        label_at_exec(b, q, &mk.label_11) ||
        label_at_exec(b, q, &mk.label_12) ||
        label_at_exec(b, q, &mk.label_13) ||
        label_at_exec(b, q, &mk.label_14) ||
        label_at_exec(b, q, &mk.label_15) ||
        label_at_exec(b, q, &mk.label_16) ||
        label_at_exec(b, q, &mk.label_17) ||
        label_at_exec(b, q, &mk.label_18) ||
        label_at_exec(b, q, &mk.label_19) ||
        label_at_exec(b, q, &mk.label_20) ||
        label_at_exec(b, q, &mk.label_21) ||
        label_at_exec(b, q, &mk.label_22) ||
        label_at_exec(b, q, &mk.label_23) ||
        label_at_exec(b, q, &mk.label_24) ||
        label_at_exec(b, q, &mk.label_25)
}

/// The end of the name that begins at `k` (see `name_end`).
fn name_end_exec(b: &[u8], k: usize) -> (res: usize)
    requires
        k <= b@.len(),
    ensures
        res as int == name_end(b@, k as int),
        k <= res <= b@.len(),
{
    let mut j = k;
    while j < b.len() && !(b[j] == 0x20 || b[j] == 0x09 || b[j] == 0x0A || b[j] == 0x0D) && b[j] != 0x3E
        invariant
            k <= j <= b@.len(),
            name_end(b@, k as int) == name_end(b@, j as int),
        decreases b@.len() - j,
    {
        j += 1;
    }
    j
}

/// Whether the `<` at `t` opens a tag named `duration` (see `duration_tag`).
fn duration_tag_exec(b: &[u8], t: usize, mk: &Markers) -> (res: bool)
    requires
        t < b@.len(),
        mk.wf(),
    ensures
        res == duration_tag(b@, t as int),
{
    if b[t] != 0x3C {
        return false;
    }
    let e = name_end_exec(b, t + 1);
    let e2 = if e > t + 1 && b[e - 1] == 0x2F {
        e - 1
    } else {
        e
    };
    if e2 - t < 9 {
        return false;
    }
    bytes_at_exec(b, e2 - 8, &mk.duration_word) && (e2 - 8 == t + 1 || b[e2 - 9] == 0x3A)
}

/// The character of a reference (see `ref_char`).
fn ref_char_exec(b: &[u8], s: usize, e: usize) -> (res: Option<u32>)
    requires
        s <= e <= b@.len(),
    ensures
        match res {
            Some(v) => ref_char(b@, s as int, e as int) == Some(v as int),
            None => ref_char(b@, s as int, e as int) is None,
        },
{
    let big: u32 = 0x110000;
    let hex = s < e && b[s] == 0x78;
    let start = if hex {
        s + 1
    } else {
        s
    };
    if start >= e {
        return None;
    }
    let mut val: u32 = 0;
    let mut p = start;
    while p < e
        invariant
            start <= p <= e <= b@.len(),
            start < e,
            hex == (s < e && b@[s as int] == 0x78),
            start == if hex { s + 1 } else { s as int },
            hex ==> all_hex(b@, start as int, p as int) && hex_val(b@, start as int, p as int) >= 0 && val as int == if hex_val(b@, start as int, p as int) >= 0x110000 { 0x110000 } else { hex_val(b@, start as int, p as int) },
            !hex ==> all_dec(b@, start as int, p as int) && dec_val(b@, start as int, p as int) >= 0 && val as int == if dec_val(b@, start as int, p as int) >= 0x110000 { 0x110000 } else { dec_val(b@, start as int, p as int) },
            big == 0x110000,
        decreases e - p,
    {
        let c = b[p];
        let d: u32 = if 0x30 <= c && c <= 0x39 {
            (c - 0x30) as u32
        } else if hex && 0x41 <= c && c <= 0x46 {
            (c - 0x41 + 10) as u32
        } else if hex && 0x61 <= c && c <= 0x66 {
            (c - 0x61 + 10) as u32
        } else {
            proof {
                if hex {
                    assert(!all_hex(b@, start as int, e as int));
                } else {
                    assert(!all_dec(b@, start as int, e as int));
                }
            }
            return None;
        };
        let radix: u32 = if hex {
            16
        } else {
            10
        };
        val = if val >= big {
            big
        } else if val * radix + d >= big {
            big
        } else {
            val * radix + d
        };
        p += 1;
    }
    if val == 0 || val >= big || (0xD800 <= val && val <= 0xDFFF) {
        None
    } else {
        Some(val)
    }
}

/// The end of a reference in a text (see `text_ref_end`).
fn text_ref_end_exec(b: &[u8], k: usize) -> (res: usize)
    requires
        k <= b@.len(),
    ensures
        res as int == text_ref_end(b@, k as int),
        k <= res <= b@.len(),
{
    let mut j = k;
    while j < b.len() && b[j] != 0x3B && b[j] != 0x26 && b[j] != 0x3C
        invariant
            k <= j <= b@.len(),
            text_ref_end(b@, k as int) == text_ref_end(b@, j as int),
        decreases b@.len() - j,
    {
        j += 1;
    }
    j
}

/// The end of a reference in an attribute value (see `value_ref_end`).
fn value_ref_end_exec(b: &[u8], k: usize, quote: u8) -> (res: usize)
    requires
        k <= b@.len(),
    ensures
        res as int == value_ref_end(b@, k as int, quote),
        k <= res <= b@.len(),
{
    let mut j = k;
    while j < b.len() && b[j] != 0x3B && b[j] != 0x26 && b[j] != quote
        invariant
            k <= j <= b@.len(),
            value_ref_end(b@, k as int, quote) == value_ref_end(b@, j as int, quote),
        decreases b@.len() - j,
    {
        j += 1;
    }
    j
}

/// The digits just read after a character (see `run_after`).
fn run_after_exec(v: u32, r: u8) -> (res: Option<u8>)
    requires
        r <= 19,
    ensures
        match res {
            Some(r2) => run_after(v as int, r as int) == Some(r2 as int) && r2 <= 19,
            None => run_after(v as int, r as int) is None,
        },
{
    if 0x30 <= v && v <= 0x39 {
        if r >= 19 {
            None
        } else {
            Some(r + 1)
        }
    } else if v == 0x3A && r >= 16 {
        None
    } else if !nd_free_exec(v) {
        None
    } else {
        Some(0)
    }
}

/// Whether the name from `s` up to `e` is that of a predefined entity.
fn predefined_exec(b: &[u8], s: usize, e: usize, mk: &Markers) -> (res: bool)
    requires
        s <= e <= b@.len(),
        mk.wf(),
    ensures
        res == predefined_at(b@, s as int, e as int),
{
    (e - s == 2 && bytes_at_exec(b, s, &mk.lt_word)) || (e - s == 2 && bytes_at_exec(b, s, &mk.gt_word)) || (e
        - s == 3 && bytes_at_exec(b, s, &mk.amp_word)) || (e - s == 4 && bytes_at_exec(b, s, &mk.apos_word)) || (
    e - s == 4 && bytes_at_exec(b, s, &mk.quot_word))
}

/// One step of the scan of a time text (see `time_step`).
fn time_step_exec(b: &[u8], k: usize, st: TimeScan, mk: &Markers) -> (res: (Option<bool>, TimeScan, usize))
    requires
        k < b@.len(),
        mk.wf(),
        st matches TimeScan::Text(r) ==> r <= 19,
        st matches TimeScan::CData(r) ==> r <= 19,
        st matches TimeScan::Comment(r) ==> r <= 19,
        st matches TimeScan::Pi(r) ==> r <= 19,
    ensures
        (res.0, res.1, res.2 as int) == time_step(b@, k as int, st),
        res.1 matches TimeScan::Text(r) ==> r <= 19,
        res.1 matches TimeScan::CData(r) ==> r <= 19,
        res.1 matches TimeScan::Comment(r) ==> r <= 19,
        res.1 matches TimeScan::Pi(r) ==> r <= 19,
{
    let c = b[k];
    match st {
        TimeScan::Tag(q) => if q == 0 {
            if c == 0x3E {
                (None, TimeScan::Text(0), 1)
            } else if c == 0x22 || c == 0x27 {
                (None, TimeScan::Tag(c), 1)
            } else {
                (None, TimeScan::Tag(0), 1)
            }
        } else if c == q {
            (None, TimeScan::Tag(0), 1)
        } else {
            (None, TimeScan::Tag(q), 1)
        },
        TimeScan::Text(r) => if c == 0x3C {
            if bytes_at_exec(b, k, &mk.cdata_open) {
                (None, TimeScan::CData(r), 9)
            } else if bytes_at_exec(b, k, &mk.comment_open) {
                (None, TimeScan::Comment(r), 2)
            } else if bytes_at_exec(b, k, &mk.markup_open) {
                (Some(false), st, 0)
            } else if bytes_at_exec(b, k, &mk.pi_open) {
                (None, TimeScan::Pi(r), 1)
            } else {
                (Some(true), st, 0)
            }
        } else if c == 0x26 {
            let e = text_ref_end_exec(b, k + 1);
            if !(e < b.len() && b[e] == 0x3B) {
                (Some(false), st, 0)
            } else if k + 1 < e && b[k + 1] == 0x23 {
                match ref_char_exec(b, k + 2, e) {
                    None => (Some(false), st, 0),
                    Some(v) => match run_after_exec(v, r) {
                        None => (Some(false), st, 0),
                        Some(r2) => (None, TimeScan::Text(r2), e + 1 - k),
                    },
                }
            } else {
                (None, TimeScan::Text(0), 1)
            }
        } else if 0x30 <= c && c <= 0x39 {
            if r >= 19 {
                (Some(false), st, 0)
            } else {
                (None, TimeScan::Text(r + 1), 1)
            }
        } else if c == 0x3A && r >= 16 {
            (Some(false), st, 0)
        } else if !char_ok_exec(b, k) {
            (Some(false), st, 0)
        } else {
            (None, TimeScan::Text(0), 1)
        },
        TimeScan::CData(r) => if bytes_at_exec(b, k, &mk.cdata_close) {
            (None, TimeScan::Text(r), 3)
        } else if 0x30 <= c && c <= 0x39 {
            if r >= 19 {
                (Some(false), st, 0)
            } else {
                (None, TimeScan::CData(r + 1), 1)
            }
        } else if c == 0x3A && r >= 16 {
            (Some(false), st, 0)
        } else if !char_ok_exec(b, k) {
            (Some(false), st, 0)
        } else {
            (None, TimeScan::CData(0), 1)
        },
        TimeScan::Comment(r) => if bytes_at_exec(b, k, &mk.comment_close) {
            (None, TimeScan::Text(r), 3)
        } else {
            (None, TimeScan::Comment(r), 1)
        },
        TimeScan::Pi(r) => if bytes_at_exec(b, k, &mk.pi_close) {
            (None, TimeScan::Text(r), 2)
        } else {
            (None, TimeScan::Pi(r), 1)
        },
    }
}

/// The scan of a time text from `k` in state `st` (see `time_scan`).
fn time_scan_exec(b: &[u8], k: usize, st: TimeScan, mk: &Markers) -> (res: bool)
    requires
        k <= b@.len(),
        mk.wf(),
        st matches TimeScan::Text(r) ==> r <= 19,
        st matches TimeScan::CData(r) ==> r <= 19,
        st matches TimeScan::Comment(r) ==> r <= 19,
        st matches TimeScan::Pi(r) ==> r <= 19,
    ensures
        res == time_scan(b@, k as int, st),
{
    let mut at = k;
    let mut state = st;
    loop
        invariant
            mk.wf(),
            time_scan(b@, k as int, st) == time_scan(b@, at as int, state),
            state matches TimeScan::Text(r) ==> r <= 19,
            state matches TimeScan::CData(r) ==> r <= 19,
            state matches TimeScan::Comment(r) ==> r <= 19,
            state matches TimeScan::Pi(r) ==> r <= 19,
        decreases b@.len() - at,
    {
        if at >= b.len() {
            return true;
        }
        let (v, next, adv) = time_step_exec(b, at, state, mk);
        match v {
            Some(x) => {
                return x;
            },
            None => {
                if adv < 1 {
                    return false;
                }
                if adv > b.len() - at {
                    assert(time_scan(b@, at + adv, next));
                    return true;
                }
                at = at + adv;
                state = next;
            },
        }
    }
}

/// The scan of an attribute value from `k`, as it stands (see `value_scan`).
fn value_scan_exec(b: &[u8], k: usize, quote: u8) -> (res: bool)
    requires
        k <= b@.len(),
    ensures
        res == value_scan(b@, k as int, quote, 0),
{
    let mut at = k;
    let mut r: u8 = 0;
    loop
        invariant
            at <= b@.len(),
            r <= 19,
            value_scan(b@, k as int, quote, 0) == value_scan(b@, at as int, quote, r as int),
        decreases b@.len() - at,
    {
        if at >= b.len() {
            return true;
        }
        let c = b[at];
        if c == quote {
            return true;
        }
        if 0x30 <= c && c <= 0x39 {
            if r >= 19 {
                return false;
            }
            r = r + 1;
        } else if c == 0x3A && r >= 16 {
            return false;
        } else {
            if !char_ok_exec(b, at) {
                return false;
            }
            r = 0;
        }
        at = at + 1;
    }
}

/// The scan of an attribute value from `k` with its references resolved
/// (see `value_res`).
fn value_res_exec(b: &[u8], k: usize, quote: u8, mk: &Markers) -> (res: bool)
    requires
        k <= b@.len(),
        mk.wf(),
    ensures
        res == value_res(b@, k as int, quote, 0),
{
    let mut at = k;
    let mut r: u8 = 0;
    loop
        invariant
            at <= b@.len(),
            r <= 19,
            mk.wf(),
            value_res(b@, k as int, quote, 0) == value_res(b@, at as int, quote, r as int),
        decreases b@.len() - at,
    {
        if at >= b.len() {
            return true;
        }
        let c = b[at];
        if c == quote {
            return true;
        }
        if c == 0x26 {
            let e = value_ref_end_exec(b, at + 1, quote);
            if !(e < b.len() && b[e] == 0x3B) {
                return true;
            }
            if at + 1 < e && b[at + 1] == 0x23 {
                match ref_char_exec(b, at + 2, e) {
                    None => {
                        return true;
                    },
                    Some(v) => match run_after_exec(v, r) {
                        None => {
                            return false;
                        },
                        Some(r2) => {
                            r = r2;
                        },
                    },
                }
            } else if predefined_exec(b, at + 1, e, mk) {
                r = 0;
            } else {
                return true;
            }
            at = e + 1;
        } else {
            if 0x30 <= c && c <= 0x39 {
                if r >= 19 {
                    return false;
                }
                r = r + 1;
            } else if c == 0x3A && r >= 16 {
                return false;
            } else {
                if !char_ok_exec(b, at) {
                    return false;
                }
                r = 0;
            }
            at = at + 1;
        }
    }
}

/// Whether an attribute `name` at `i` has a safe value (see `attr_ok`).
fn attr_ok_exec(b: &[u8], i: usize, name: &Vec<u8>, mk: &Markers) -> (res: bool)
    requires
        i < b@.len(),
        mk.wf(),
    ensures
        res == attr_ok(b@, i as int, name@),
{
    if !bytes_at_exec(b, i, name) {
        return true;
    }
    if i > 0 {
        let c = b[i - 1];
        if (0x41 <= c && c <= 0x5A) || (0x61 <= c && c <= 0x7A) || (0x30 <= c && c <= 0x39) || c == 0x2D || c
            == 0x5F || c == 0x2E || c == 0x3A || c >= 0x80 {
            return true;
        }
    }
    let j = skip_space_exec(b, i + name.len());
    if !(j < b.len() && b[j] == 0x3D) {
        return true;
    }
    let q = skip_space_exec(b, j + 1);
    if !(q < b.len() && (b[q] == 0x22 || b[q] == 0x27)) {
        return true;
    }
    value_scan_exec(b, q + 1, b[q]) && value_res_exec(b, q + 1, b[q], mk)
}

/// Whether position `i` meets `pos_ok`.
fn pos_ok_exec(b: &[u8], i: usize, mk: &Markers) -> (res: bool)
    requires
        i < b@.len(),
        mk.wf(),
    ensures
        res == pos_ok(b@, i as int),
{
    let _n = b.len();
    if duration_tag_exec(b, i, mk) && !time_scan_exec(b, i + 1, TimeScan::Tag(0), mk) {
        return false;
    }
    if !attr_ok_exec(b, i, &mk.start_word, mk) || !attr_ok_exec(b, i, &mk.end_word, mk) || !attr_ok_exec(
        b,
        i,
        &mk.time_word,
        mk,
    ) {
        return false;
    }
    if bytes_at_exec(b, i, &mk.encoding_word) && !encoding_ok_exec(b, i + 8, mk) {
        return false;
    }
    true
}

/// Whether the parser reads these bytes of a feed file without failing on
/// a time, as far as `safe_feed_bytes` tells.
pub fn is_safe_feed_bytes(bytes: &[u8]) -> (res: bool)
    ensures
        res == safe_feed_bytes(bytes@),
{
    let n = bytes.len();
    if n >= 1 && (bytes[0] == 0x00 || bytes[0] == 0xFE || bytes[0] == 0xFF) {
        return false;
    }
    if n >= 2 && bytes[1] == 0x00 {
        return false;
    }
    let mk = Markers::new();
    let mut i: usize = 0;
    while i < n
        invariant
            n == bytes@.len(),
            i <= n,
            mk.wf(),
            forall|k: int| 0 <= k < i ==> #[trigger] pos_ok(bytes@, k),
        decreases n - i,
    {
        if !pos_ok_exec(bytes, i, &mk) {
            return false;
        }
        i += 1;
    }
    true
}

} // verus!
