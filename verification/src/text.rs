//! Byte- and character-level text helpers: UTF-16 column counting, line
//! splitting, blank-line classification and decimal rendering.
use vstd::prelude::*;

verus! {

use vstd::utf8::{valid_utf8, decode_utf8};
use vstd::string::StrSliceExecFns;
use vstd::string::StringExecFns;
use vstd::slice::slice_subrange;
use vstd::slice::slice_to_vec;
use vstd::string::StringSliceAdditionalSpecFns;

/// Largest source length the analysis accepts; keeps every derived count
/// comfortably inside the fixed-width integer types.
pub const SRC_LIMIT: usize = 0x3FFF_FFFF;

/// The number of UTF-16 code units that one UTF-8 byte contributes: a
/// continuation byte contributes none, the leading byte of a four-byte
/// sequence contributes two (a surrogate pair), every other byte one.
pub open spec fn utf16_unit(b: u8) -> int {
    if b & 0xC0 == 0x80 {
        0
    } else if b >= 0xF0 {
        2
    } else {
        1
    }
}

/// UTF-16 length of the text that a UTF-8 byte sequence decodes to.
pub open spec fn spec_utf16_units(s: Seq<u8>) -> int
    decreases s.len(),
{
    if s.len() == 0 {
        0
    } else {
        spec_utf16_units(s.drop_last()) + utf16_unit(s.last())
    }
}

pub proof fn lemma_utf16_units_bound(s: Seq<u8>)
    ensures
        0 <= spec_utf16_units(s) <= 2 * s.len(),
    decreases s.len(),
{
    if s.len() > 0 {
        lemma_utf16_units_bound(s.drop_last());
    }
}

/// Counts the UTF-16 code units of the byte range `[lo, hi)` of `src`.
pub fn utf16_units(src: &[u8], lo: usize, hi: usize) -> (r: usize)
    requires
        lo <= hi <= src@.len(),
        src@.len() <= SRC_LIMIT,
    ensures
        r == spec_utf16_units(src@.subrange(lo as int, hi as int)),
{
    let mut count: usize = 0;
    let mut i: usize = lo;
    proof {
        assert(src@.subrange(lo as int, lo as int) =~= Seq::<u8>::empty());
    }
    while i < hi
        invariant
            lo <= i <= hi <= src@.len(),
            src@.len() <= SRC_LIMIT,
            count == spec_utf16_units(src@.subrange(lo as int, i as int)),
            count <= 2 * (i - lo),
        decreases hi - i,
    {
        let b = src[i];
        proof {
            assert(src@.subrange(lo as int, i + 1).drop_last() =~= src@.subrange(
                lo as int,
                i as int,
            ));
            assert(src@.subrange(lo as int, i + 1).last() == src@[i as int]);
        }
        if b & 0xC0 == 0x80 {
            // continuation byte
        } else if b >= 0xF0 {
            count = count + 2;
        } else {
            count = count + 1;
        }
        i = i + 1;
    }
    count
}

/// Whether the code point is whitespace, as Unicode defines it.
pub open spec fn is_whitespace_cp(u: u32) -> bool {
    u == 0x09 || u == 0x0A || u == 0x0B || u == 0x0C || u == 0x0D || u == 0x20 || u == 0x85 || u
        == 0xA0 || u == 0x1680 || (0x2000 <= u && u <= 0x200A) || u == 0x2028 || u == 0x2029 || u
        == 0x202F || u == 0x205F || u == 0x3000
}

/// Whether the code point is an ASCII punctuation character.
pub open spec fn is_ascii_punct_cp(u: u32) -> bool {
    (0x21 <= u && u <= 0x2F) || (0x3A <= u && u <= 0x40) || (0x5B <= u && u <= 0x60) || (0x7B <= u
        && u <= 0x7E)
}

/// A character that does not keep a line from being blank.
pub open spec fn is_blank_char(c: char) -> bool {
    is_whitespace_cp(c as u32) || is_ascii_punct_cp(c as u32)
}

/// A sequence of characters is blank when every character is whitespace or
/// ASCII punctuation.
pub open spec fn spec_is_blank(s: Seq<char>) -> bool {
    forall|i: int| 0 <= i < s.len() ==> is_blank_char(#[trigger] s[i])
}

fn blank_char(c: char) -> (r: bool)
    ensures
        r == is_blank_char(c),
{
    let u = c as u32;
    (u == 0x09 || u == 0x0A || u == 0x0B || u == 0x0C || u == 0x0D || u == 0x20 || u == 0x85 || u
        == 0xA0 || u == 0x1680 || (0x2000 <= u && u <= 0x200A) || u == 0x2028 || u == 0x2029 || u
        == 0x202F || u == 0x205F || u == 0x3000) || ((0x21 <= u && u <= 0x2F) || (0x3A <= u && u
        <= 0x40) || (0x5B <= u && u <= 0x60) || (0x7B <= u && u <= 0x7E))
}

/// A line is blank when every character on it is whitespace or ASCII
/// punctuation; such lines do not count as comment lines.
pub fn is_blank(line: &str) -> (r: bool)
    ensures
        r == spec_is_blank(line@),
{
    let len = line.unicode_len();
    let mut i: usize = 0;
    while i < len
        invariant
            i <= len,
            len == line@.len(),
            forall|j: int| 0 <= j < i ==> is_blank_char(#[trigger] line@[j]),
        decreases len - i,
    {
        if !blank_char(line.get_char(i)) {
            return false;
        }
        i = i + 1;
    }
    true
}

/// Blankness of a raw byte range: the bytes are valid UTF-8 and decode to a
/// blank sequence of characters.
pub open spec fn spec_blank_bytes(b: Seq<u8>) -> bool {
    valid_utf8(b) && spec_is_blank(decode_utf8(b))
}

/// Relies on String::from_utf8: bytes that are valid UTF-8 become exactly the
/// string they decode to; any other bytes are rejected.
#[verifier::external_body]
pub(crate) fn string_from_utf8(bytes: Vec<u8>) -> (r: Option<String>)
    ensures
        r is Some <==> valid_utf8(bytes@),
        r matches Some(s) ==> s@ == decode_utf8(bytes@),
{
    String::from_utf8(bytes).ok()
}

/// The text of the byte range `[lo, hi)` of `src`, or `None` when the range
/// is not valid UTF-8.
pub fn range_to_string(src: &[u8], lo: usize, hi: usize) -> (r: Option<String>)
    requires
        lo <= hi <= src@.len(),
    ensures
        valid_utf8(src@.subrange(lo as int, hi as int)) ==> (r matches Some(s) && s@ == decode_utf8(
            src@.subrange(lo as int, hi as int),
        )),
        !valid_utf8(src@.subrange(lo as int, hi as int)) ==> r is None,
{
    let bytes = slice_to_vec(slice_subrange(src, lo, hi));
    string_from_utf8(bytes)
}

/// The view of the single decimal digit `d`.
pub open spec fn digit_chars(d: int) -> Seq<char> {
    if d == 0 {
        "0"@
    } else if d == 1 {
        "1"@
    } else if d == 2 {
        "2"@
    } else if d == 3 {
        "3"@
    } else if d == 4 {
        "4"@
    } else if d == 5 {
        "5"@
    } else if d == 6 {
        "6"@
    } else if d == 7 {
        "7"@
    } else if d == 8 {
        "8"@
    } else {
        "9"@
    }
}

/// The decimal rendering of `n`, as a sequence of characters.
pub open spec fn spec_dec_chars(n: int) -> Seq<char>
    decreases n,
{
    if n < 10 {
        digit_chars(n)
    } else {
        spec_dec_chars(n / 10) + digit_chars(n % 10)
    }
}

fn digit_str(d: usize) -> (r: &'static str)
    requires
        d < 10,
    ensures
        r@ == digit_chars(d as int),
{
    match d {
        0 => "0",
        1 => "1",
        2 => "2",
        3 => "3",
        4 => "4",
        5 => "5",
        6 => "6",
        7 => "7",
        8 => "8",
        _ => "9",
    }
}

/// Renders `n` in decimal.
pub fn dec_string(n: usize) -> (r: String)
    ensures
        r@ == spec_dec_chars(n as int),
    decreases n,
{
    if n < 10 {
        String::from_str(digit_str(n))
    } else {
        let mut s = dec_string(n / 10);
        s.append(digit_str(n % 10));
        s
    }
}

/// Equality of two string slices, decided character by character.
pub fn str_eq(a: &str, b: &str) -> (r: bool)
    ensures
        r == (a@ == b@),
{
    let la = a.unicode_len();
    let lb = b.unicode_len();
    if la != lb {
        return false;
    }
    let mut i: usize = 0;
    while i < la
        invariant
            i <= la,
            la == a@.len(),
            la == b@.len(),
            forall|j: int| 0 <= j < i ==> a@[j] == b@[j],
        decreases la - i,
    {
        if a.get_char(i) != b.get_char(i) {
            return false;
        }
        i = i + 1;
    }
    proof {
        assert(a@ =~= b@);
    }
    true
}

/// The number of newline bytes in `s`.
pub open spec fn spec_newline_count(s: Seq<u8>) -> int
    decreases s.len(),
{
    if s.len() == 0 {
        0
    } else {
        spec_newline_count(s.drop_last()) + if s.last() == 0x0Au8 {
            1int
        } else {
            0int
        }
    }
}

pub proof fn lemma_newline_count_bound(s: Seq<u8>)
    ensures
        0 <= spec_newline_count(s) <= s.len(),
    decreases s.len(),
{
    if s.len() > 0 {
        lemma_newline_count_bound(s.drop_last());
    }
}

/// The number of lines of a source text: its newline count plus one, counting
/// the portion after the last newline as a line.
pub open spec fn spec_line_count(s: Seq<u8>) -> int {
    spec_newline_count(s) + 1
}

/// Counts the newline bytes of `src`.
pub fn newline_count(src: &[u8]) -> (r: usize)
    ensures
        r == spec_newline_count(src@),
{
    let mut count: usize = 0;
    let mut i: usize = 0;
    proof {
        assert(src@.subrange(0, 0) =~= Seq::<u8>::empty());
        lemma_newline_count_bound(src@);
    }
    while i < src.len()
        invariant
            i <= src@.len(),
            count == spec_newline_count(src@.subrange(0, i as int)),
            count <= i,
        decreases src@.len() - i,
    {
        proof {
            assert(src@.subrange(0, i + 1).drop_last() =~= src@.subrange(0, i as int));
            assert(src@.subrange(0, i + 1).last() == src@[i as int]);
            lemma_newline_count_bound(src@.subrange(0, i + 1));
        }
        if src[i] == 0x0Au8 {
            count = count + 1;
        }
        i = i + 1;
    }
    proof {
        assert(src@.subrange(0, src@.len() as int) =~= src@);
    }
    count
}

/// The position of the first newline byte in `[lo, hi)`, or `hi` if none.
pub open spec fn spec_find_nl(src: Seq<u8>, lo: int, hi: int) -> int
    decreases hi - lo,
{
    if lo < 0 || lo >= hi {
        hi
    } else if src[lo] == 0x0Au8 {
        lo
    } else {
        spec_find_nl(src, lo + 1, hi)
    }
}

pub proof fn lemma_find_nl_range(src: Seq<u8>, lo: int, hi: int)
    requires
        0 <= lo <= hi,
    ensures
        lo <= spec_find_nl(src, lo, hi) <= hi,
    decreases hi - lo,
{
    if lo < hi && src[lo] != 0x0Au8 {
        lemma_find_nl_range(src, lo + 1, hi);
    }
}

/// Finds the first newline byte in `[lo, hi)` of `src`, or `hi` if none.
#[verifier::loop_isolation(false)]
pub fn find_nl(src: &[u8], lo: usize, hi: usize) -> (r: usize)
    requires
        lo <= hi <= src@.len(),
    ensures
        r == spec_find_nl(src@, lo as int, hi as int),
        lo <= r <= hi,
{
    let mut t: usize = lo;
    while t < hi
        invariant
            lo <= t <= hi,
            spec_find_nl(src@, lo as int, hi as int) == spec_find_nl(src@, t as int, hi as int),
        decreases hi - t,
    {
        if src[t] == 0x0Au8 {
            return t;
        }
        t = t + 1;
    }
    t
}

/// ASCII lowercasing of one byte.
pub open spec fn lower_byte(b: u8) -> u8 {
    if 0x41 <= b && b <= 0x5A {
        (b + 0x20) as u8
    } else {
        b
    }
}

/// ASCII lowercasing of a byte sequence.
pub open spec fn spec_lower_bytes(s: Seq<u8>) -> Seq<u8> {
    Seq::new(s.len(), |i: int| lower_byte(s[i]))
}

/// Lowercases the ASCII letters of `bytes`.
pub fn lower_bytes(bytes: &Vec<u8>) -> (r: Vec<u8>)
    ensures
        r@ == spec_lower_bytes(bytes@),
{
    let n = bytes.len();
    let mut out: Vec<u8> = Vec::new();
    let mut i: usize = 0;
    while i < n
        invariant
            i <= n,
            n == bytes@.len(),
            out@.len() == i,
            forall|j: int| 0 <= j < i ==> (#[trigger] out@[j]) == lower_byte(bytes@[j]),
        decreases n - i,
    {
        let b = bytes[i];
        if 0x41u8 <= b && b <= 0x5Au8 {
            out.push(b + 0x20);
        } else {
            out.push(b);
        }
        i = i + 1;
    }
    proof {
        assert(out@ =~= spec_lower_bytes(bytes@));
    }
    out
}

/// Whether the byte range `[lo, hi)` of `src` spells exactly `pat`.
#[verifier::loop_isolation(false)]
pub fn range_is(src: &[u8], lo: usize, hi: usize, pat: &str) -> (r: bool)
    requires
        lo <= hi <= src@.len(),
    ensures
        r == (src@.subrange(lo as int, hi as int) == pat.spec_bytes()),
{
    let pb = pat.as_bytes();
    if hi - lo != pb.len() {
        return false;
    }
    let n = pb.len();
    let mut t: usize = 0;
    while t < n
        invariant
            t <= n,
            forall|j: int| 0 <= j < t ==> src@[lo + j] == pb@[j],
        decreases n - t,
    {
        if src[lo + t] != pb[t] {
            return false;
        }
        t = t + 1;
    }
    proof {
        assert(src@.subrange(lo as int, hi as int) =~= pat.spec_bytes());
    }
    true
}

/// The decimal rendering of a 32-bit integer, sign included.
pub open spec fn spec_i32_chars(v: int) -> Seq<char> {
    if v < 0 {
        "-"@ + spec_dec_chars(-v)
    } else {
        spec_dec_chars(v)
    }
}

/// Renders a 32-bit integer in decimal.
pub fn i32_string(v: i32) -> (r: String)
    ensures
        r@ == spec_i32_chars(v as int),
{
    if v < 0 {
        let mag = (-(v as i64)) as usize;
        let mut s = String::from_str("-");
        s.append(dec_string(mag).as_str());
        s
    } else {
        dec_string(v as usize)
    }
}

/// The UTF-16 length of a character sequence: one code unit per character
/// in the basic plane, two for a character that needs a surrogate pair.
pub open spec fn spec_utf16_len_chars(s: Seq<char>) -> int
    decreases s.len(),
{
    if s.len() == 0 {
        0
    } else {
        (if s[0] as u32 >= 0x10000 {
            2int
        } else {
            1int
        }) + spec_utf16_len_chars(s.subrange(1, s.len() as int))
    }
}

pub proof fn lemma_utf16_units_concat(a: Seq<u8>, b: Seq<u8>)
    ensures
        spec_utf16_units(a + b) == spec_utf16_units(a) + spec_utf16_units(b),
    decreases b.len(),
{
    if b.len() == 0 {
        assert(a + b =~= a);
    } else {
        assert((a + b).drop_last() =~= a + b.drop_last());
        lemma_utf16_units_concat(a, b.drop_last());
    }
}

/// Law: counting one UTF-16 code unit per non-continuation byte, and one
/// more per leading byte of a four-byte sequence, gives exactly the UTF-16
/// length of the text that the bytes decode to.
pub proof fn lemma_utf16_units_decode(bytes: Seq<u8>)
    requires
        valid_utf8(bytes),
    ensures
        spec_utf16_units(bytes) == spec_utf16_len_chars(decode_utf8(bytes)),
    decreases bytes.len(),
{
    broadcast use vstd::utf8::utf8_byte_ranges_bitwise;

    if bytes.len() == 0 {
        assert(decode_utf8(bytes) =~= Seq::<char>::empty());
    } else {
        let w = vstd::utf8::length_of_first_scalar(bytes);
        let first = vstd::utf8::take_first_scalar(bytes);
        let rest = vstd::utf8::pop_first_scalar(bytes);
        let cp = vstd::utf8::decode_first_scalar(bytes);
        let b0 = bytes[0];
        assert(1 <= w <= 4);
        assert(bytes =~= first + rest);
        lemma_utf16_units_concat(first, rest);
        lemma_utf16_units_decode(rest);
        assert(spec_utf16_units(seq![b0]) == utf16_unit(b0)) by {
            assert(seq![b0].drop_last() =~= Seq::<u8>::empty());
            assert(seq![b0].last() == b0);
            assert(spec_utf16_units(Seq::<u8>::empty()) == 0);
        }
        if vstd::utf8::is_leading_byte_width_1(b0) {
            assert(first =~= seq![b0]);
            assert((b0 & 0x7F) < 0x10000u32) by (bit_vector);
            assert(cp < 0x10000);
        } else if vstd::utf8::is_leading_byte_width_2(b0) {
            let b1 = bytes[1];
            assert(first.len() == 2 && first.last() == b1);
            assert(first.drop_last() =~= seq![b0]);
            assert(spec_utf16_units(first) == spec_utf16_units(seq![b0]) + utf16_unit(b1));
            assert((((b0 & 0x1F) as u32) << 6 | ((b1 & 0x3f) as u32)) < 0x10000u32)
                by (bit_vector);
            assert(cp < 0x10000);
        } else if vstd::utf8::is_leading_byte_width_3(b0) {
            let b1 = bytes[1];
            let b2 = bytes[2];
            assert(first.len() == 3 && first.last() == b2);
            assert(first.drop_last() =~= seq![b0, b1]);
            assert(spec_utf16_units(first) == spec_utf16_units(seq![b0, b1]) + utf16_unit(b2));
            assert(spec_utf16_units(seq![b0, b1]) == spec_utf16_units(seq![b0]) + utf16_unit(
                b1,
            )) by {
                assert(seq![b0, b1].drop_last() =~= seq![b0]);
                assert(seq![b0, b1].last() == b1);
            }
            assert((((b0 & 0x0F) as u32) << 12 | ((b1 & 0x3f) as u32) << 6 | ((b2
                & 0x3f) as u32)) < 0x10000u32) by (bit_vector);
            assert(cp < 0x10000);
        } else {
            let b1 = bytes[1];
            let b2 = bytes[2];
            let b3 = bytes[3];
            assert(first.len() == 4 && first.last() == b3);
            assert(first.drop_last() =~= seq![b0, b1, b2]);
            assert(spec_utf16_units(first) == spec_utf16_units(seq![b0, b1, b2]) + utf16_unit(
                b3,
            ));
            assert(spec_utf16_units(seq![b0, b1, b2]) == spec_utf16_units(seq![b0, b1])
                + utf16_unit(b2)) by {
                assert(seq![b0, b1, b2].drop_last() =~= seq![b0, b1]);
                assert(seq![b0, b1, b2].last() == b2);
            }
            assert(spec_utf16_units(seq![b0, b1]) == spec_utf16_units(seq![b0]) + utf16_unit(
                b1,
            )) by {
                assert(seq![b0, b1].drop_last() =~= seq![b0]);
                assert(seq![b0, b1].last() == b1);
            }
            assert(cp >= 0x10000);
        }
        let c = cp as char;
        assert(c as u32 == cp);
        assert(decode_utf8(bytes) == seq![c] + decode_utf8(rest));
        let tail = decode_utf8(rest);
        assert((seq![c] + tail)[0] == c);
        assert((seq![c] + tail).subrange(1, (seq![c] + tail).len() as int) =~= tail);
        assert(spec_utf16_len_chars(seq![c] + tail) == (if c as u32 >= 0x10000 {
            2int
        } else {
            1int
        }) + spec_utf16_len_chars(tail));
    }
}

} // verus!
