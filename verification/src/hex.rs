//! Lower-case hexadecimal text for bytes, and the identifiers built from it.

use vstd::prelude::*;
use vstd::utf8::{encode_scalar, encode_utf8, has_width_1_encoding, is_ascii_chars, is_ascii_chars_encode_utf8, is_char_boundary};
use vstd::string::StringSliceAdditionalSpecFns;
use crate::text::string_of;

verus! {

/// The lower-case hexadecimal digit for `n < 16`.
pub open spec fn hex_digit(n: nat) -> char {
    if n < 10 {
        ((n + 48) as u8) as char
    } else {
        ((n + 87) as u8) as char
    }
}

/// The two digits that stand for a byte.
pub open spec fn hex_pair(b: u8) -> Seq<char> {
    seq![hex_digit((b / 16) as nat), hex_digit((b % 16) as nat)]
}

/// Bytes written as two lower-case hexadecimal digits each.
pub open spec fn hex_of(bytes: Seq<u8>) -> Seq<char>
    decreases bytes.len(),
{
    if bytes.len() == 0 {
        Seq::empty()
    } else {
        hex_pair(bytes[0]) + hex_of(bytes.drop_first())
    }
}

fn hex_digit_exec(n: u8) -> (c: char)
    requires
        n < 16,
    ensures
        c == hex_digit(n as nat),
{
    if n < 10 {
        (n + 48) as char
    } else {
        (n + 87) as char
    }
}

proof fn lemma_hex_of_len(bytes: Seq<u8>)
    ensures
        hex_of(bytes).len() == 2 * bytes.len(),
    decreases bytes.len(),
{
    if bytes.len() > 0 {
        lemma_hex_of_len(bytes.drop_first());
    }
}

proof fn lemma_hex_of_push(bytes: Seq<u8>, b: u8)
    ensures
        hex_of(bytes.push(b)) == hex_of(bytes) + hex_pair(b),
    decreases bytes.len(),
{
    if bytes.len() == 0 {
        assert(bytes.push(b).drop_first() =~= Seq::<u8>::empty());
        assert(hex_of(Seq::<u8>::empty()) == Seq::<char>::empty());
        assert(hex_of(bytes) == Seq::<char>::empty());
        assert(bytes.push(b)[0] == b);
        assert(hex_of(bytes.push(b)) == hex_pair(b) + hex_of(Seq::<u8>::empty()));
        assert(hex_of(bytes.push(b)) =~= hex_of(bytes) + hex_pair(b));
    } else {
        assert(bytes.push(b).drop_first() =~= bytes.drop_first().push(b));
        assert(bytes.push(b)[0] == bytes[0]);
        lemma_hex_of_push(bytes.drop_first(), b);
        assert(hex_of(bytes.push(b)) == hex_pair(bytes[0]) + hex_of(bytes.drop_first().push(b)));
        assert(hex_of(bytes.push(b)) =~= hex_of(bytes) + hex_pair(b));
    }
}

/// The digits of `hex_of` at a byte's two positions.
pub proof fn lemma_hex_of_index(bytes: Seq<u8>, k: int)
    requires
        0 <= k < bytes.len(),
    ensures
        hex_of(bytes).len() == 2 * bytes.len(),
        hex_of(bytes)[2 * k] == hex_digit((bytes[k] / 16) as nat),
        hex_of(bytes)[2 * k + 1] == hex_digit((bytes[k] % 16) as nat),
    decreases bytes.len(),
{
    lemma_hex_of_len(bytes);
    if k > 0 {
        lemma_hex_of_index(bytes.drop_first(), k - 1);
    }
}

/// Writes bytes as lower-case hexadecimal, two digits per byte.
pub fn to_hex(bytes: &[u8]) -> (r: String)
    ensures
        r@ == hex_of(bytes@),
{
    let mut out: Vec<char> = Vec::new();
    let mut i: usize = 0;
    while i < bytes.len()
        invariant
            0 <= i <= bytes@.len(),
            out@ == hex_of(bytes@.take(i as int)),
        decreases bytes@.len() - i,
    {
        let b = bytes[i];
        proof {
            assert(bytes@.take(i + 1) =~= bytes@.take(i as int).push(b));
            lemma_hex_of_push(bytes@.take(i as int), b);
        }
        out.push(hex_digit_exec(b / 16));
        out.push(hex_digit_exec(b % 16));
        i = i + 1;
        assert(out@ =~= hex_of(bytes@.take(i as int)));
    }
    assert(bytes@.take(bytes@.len() as int) =~= bytes@);
    string_of(&out)
}

/// The value of a hexadecimal digit byte (either case), if it is one.
pub open spec fn hex_value(b: u8) -> Option<u8> {
    if 48 <= b <= 57 {
        Some((b - 48) as u8)
    } else if 97 <= b <= 102 {
        Some((b - 87) as u8)
    } else if 65 <= b <= 70 {
        Some((b - 55) as u8)
    } else {
        None
    }
}

/// The byte that a two-byte chunk stands for: two hexadecimal digits, the
/// high one first; nothing else is hexadecimal.
pub open spec fn pair_value(b0: u8, b1: u8) -> Option<u8> {
    match (hex_value(b0), hex_value(b1)) {
        (Some(h), Some(l)) => Some((h * 16 + l) as u8),
        _ => None,
    }
}

/// The bytes that the chunks from chunk `k` on decode to, or `None` when a
/// chunk is not a number in base 16.
pub open spec fn decode_from(b: Seq<u8>, k: nat) -> Option<Seq<u8>>
    decreases b.len() - 2 * k,
{
    if 2 * k + 2 > b.len() {
        Some(Seq::empty())
    } else {
        match pair_value(b[2 * k as int], b[(2 * k + 1) as int]) {
            None => None,
            Some(x) => match decode_from(b, k + 1) {
                Some(rest) => Some(seq![x] + rest),
                None => None,
            },
        }
    }
}

/// Whether decoding, chunk by chunk from chunk `k` on, only ever cuts the
/// text at character boundaries before it stops (at the end, or at the first
/// chunk that is not a number).
pub open spec fn chunks_cut_cleanly(b: Seq<u8>, k: nat) -> bool
    decreases b.len() - 2 * k,
{
    if 2 * k + 2 > b.len() {
        true
    } else if !is_char_boundary(b, (2 * k + 2) as int) {
        false
    } else if pair_value(b[2 * k as int], b[(2 * k + 1) as int]) is None {
        true
    } else {
        chunks_cut_cleanly(b, k + 1)
    }
}

/// A hexadecimal digit, in either case.
pub open spec fn is_hex_char(c: char) -> bool {
    ('0' <= c && c <= '9') || ('a' <= c && c <= 'f') || ('A' <= c && c <= 'F')
}

/// A hexadecimal digit in lower case (`char::to_ascii_lowercase` on the
/// digits A to F).
pub open spec fn hex_lower(c: char) -> char {
    if c == 'A' { 'a' }
    else if c == 'B' { 'b' }
    else if c == 'C' { 'c' }
    else if c == 'D' { 'd' }
    else if c == 'E' { 'e' }
    else if c == 'F' { 'f' }
    else { c }
}

/// Hexadecimal text in lower case.
pub open spec fn lower_hex(s: Seq<char>) -> Seq<char> {
    s.map_values(|c: char| hex_lower(c))
}


/// A hexadecimal digit character is ASCII, its byte is a digit byte, and
/// the digit that its value gives back is the character in lower case; an
/// ASCII character that is no hexadecimal digit has a byte that is none.
proof fn lemma_hex_char(c: char)
    requires
        c <= '\u{7f}',
    ensures
        is_hex_char(c) <==> hex_value(c as u8) is Some,
        is_hex_char(c) ==> hex_value(c as u8)->0 < 16
            && hex_digit(hex_value(c as u8)->0 as nat) == hex_lower(c),
{
}

/// Decoding from chunk `k` on succeeds exactly when every chunk from `k` on
/// is two digits, and then gives one byte per chunk, the chunk's value.
proof fn lemma_decode_from(b: Seq<u8>, k: nat)
    requires
        b.len() % 2 == 0,
        2 * k <= b.len(),
    ensures
        decode_from(b, k) is Some <==> forall|j: int| k <= j < b.len() / 2
            ==> #[trigger] pair_value(b[2 * j], b[2 * j + 1]) is Some,
        decode_from(b, k) matches Some(w) ==> w.len() == b.len() / 2 - k
            && forall|j: int| 0 <= j < w.len() ==> #[trigger] w[j] == pair_value(b[2 * (k + j)], b[2 * (k + j) + 1])->0,
    decreases b.len() - 2 * k,
{
    if 2 * k + 2 <= b.len() {
        lemma_decode_from(b, k + 1);
        if decode_from(b, k) is Some {
            let w = decode_from(b, k)->0;
            let rest = decode_from(b, k + 1)->0;
            assert forall|j: int| 0 <= j < w.len() implies #[trigger] w[j] == pair_value(b[2 * (k + j)], b[2 * (k + j) + 1])->0 by {
                if j > 0 {
                    assert(w[j] == rest[j - 1]);
                    assert(2 * ((k + 1) + (j - 1)) == 2 * (k + j));
                }
            }
        }
        if forall|j: int| k <= j < b.len() / 2 ==> #[trigger] pair_value(b[2 * j], b[2 * j + 1]) is Some {
            assert(pair_value(b[2 * (k as int)], b[2 * (k as int) + 1]) is Some);
        }
    }
}

/// Every byte of an encoding is ASCII only when every character is.
proof fn lemma_ascii_bytes(s: Seq<char>)
    requires
        forall|i: int| 0 <= i < encode_utf8(s).len() ==> #[trigger] encode_utf8(s)[i] <= 0x7f,
    ensures
        is_ascii_chars(s),
    decreases s.len(),
{
    if s.len() > 0 {
        let c = s[0] as u32;
        let first = encode_scalar(c);
        let rest = encode_utf8(s.drop_first());
        assert(encode_utf8(s) == first + rest);
        assert(first.len() >= 1);
        assert(encode_utf8(s)[0] == first[0]);
        assert(forall|y: u8| #![auto] (0xC0u8 | y) >= 0x80u8 && (0xE0u8 | y) >= 0x80u8 && (0xF0u8 | y) >= 0x80u8) by (bit_vector);
        assert(has_width_1_encoding(c));
        assert forall|i: int| 0 <= i < rest.len() implies #[trigger] rest[i] <= 0x7f by {
            assert(rest[i] == encode_utf8(s)[first.len() + i]);
        }
        lemma_ascii_bytes(s.drop_first());
        assert forall|i: int| 0 <= i < s.len() implies '\0' <= #[trigger] s[i] <= '\u{7f}' by {
            if i > 0 {
                assert(s[i] == s.drop_first()[i - 1]);
            } else {
                let ch = s[0];
                let u = ch as u32;
                assert(u <= 0x7f);
                vstd::utf8::char_u32_cast(ch, u);
                assert((u as char) == ch);
            }
        }
    }
}

/// Hexadecimal text decodes exactly when it is an even number of
/// hexadecimal digits (of either case), and then into one byte per two
/// digits, whose lower-case hexadecimal text is the text in lower case.
pub proof fn law_hex_decoding(s: Seq<char>)
    ensures
        hex_decoded(s) is Ok <==> (s.len() % 2 == 0 && forall|i: int| 0 <= i < s.len() ==> is_hex_char(#[trigger] s[i])),
        hex_decoded(s) matches Ok(v) ==> 2 * v.len() == s.len() && hex_of(v) == lower_hex(s),
{
    let enc = encode_utf8(s);
    if s.len() % 2 == 0 && forall|i: int| 0 <= i < s.len() ==> is_hex_char(#[trigger] s[i]) {
        assert(is_ascii_chars(s));
        is_ascii_chars_encode_utf8(s);
        assert forall|j: int| 0 <= j < enc.len() / 2 implies #[trigger] pair_value(enc[2 * j], enc[2 * j + 1]) is Some by {
            lemma_hex_char(s[2 * j]);
            lemma_hex_char(s[2 * j + 1]);
        }
        lemma_decode_from(enc, 0);
    }
    if hex_decoded(s) is Ok {
        lemma_decode_from(enc, 0);
        assert forall|i: int| 0 <= i < enc.len() implies #[trigger] enc[i] <= 0x7f by {
            let j = i / 2;
            assert(pair_value(enc[2 * j], enc[2 * j + 1]) is Some);
            if i % 2 == 0 {
                assert(i == 2 * j);
            } else {
                assert(i == 2 * j + 1);
            }
        }
        lemma_ascii_bytes(s);
        is_ascii_chars_encode_utf8(s);
        assert forall|i: int| 0 <= i < s.len() implies is_hex_char(#[trigger] s[i]) by {
            let j = i / 2;
            assert(pair_value(enc[2 * j], enc[2 * j + 1]) is Some);
            lemma_hex_char(s[i]);
            if i % 2 == 0 {
                assert(i == 2 * j);
            } else {
                assert(i == 2 * j + 1);
            }
        }
        let v = hex_decoded(s)->Ok_0;
        lemma_hex_of_len(v);
        assert forall|i: int| 0 <= i < s.len() implies #[trigger] hex_of(v)[i] == lower_hex(s)[i] by {
            let j = i / 2;
            lemma_hex_of_index(v, j);
            lemma_hex_char(s[2 * j]);
            lemma_hex_char(s[2 * j + 1]);
            let h = hex_value(s[2 * j] as u8)->0;
            let l = hex_value(s[2 * j + 1] as u8)->0;
            assert(v[j] == (h * 16 + l) as u8);
            assert(v[j] / 16 == h && v[j] % 16 == l) by (nonlinear_arith)
                requires v[j] == (h * 16 + l) as u8, h < 16, l < 16;
            if i % 2 == 0 {
                assert(i == 2 * j);
            } else {
                assert(i == 2 * j + 1);
            }
        }
        assert(hex_of(v) =~= lower_hex(s));
    }
}

/// The inputs on which decoding is defined: decoding cuts the text into
/// two-byte chunks, which must fall on character boundaries.
pub open spec fn hex_decodable(s: &str) -> bool {
    hex_text_decodable(s@)
}

/// `hex_decodable` for the characters of a text.
pub open spec fn hex_text_decodable(s: Seq<char>) -> bool {
    encode_utf8(s).len() % 2 != 0 || chunks_cut_cleanly(encode_utf8(s), 0)
}

/// What decoding a hexadecimal text gives.
pub open spec fn hex_decoded(s: Seq<char>) -> Result<Seq<u8>, HexError> {
    if encode_utf8(s).len() % 2 != 0 {
        Err(HexError::OddLength)
    } else {
        match decode_from(encode_utf8(s), 0) {
            Some(v) => Ok(v),
            None => Err(HexError::InvalidDigit),
        }
    }
}

/// Why hexadecimal text could not be decoded.
#[derive(Debug, Clone, PartialEq, Eq)]
pub enum HexError {
    /// The text has an odd number of bytes.
    OddLength,
    /// A chunk is not a number in base 16.
    InvalidDigit,
}

fn hex_value_exec(b: u8) -> (r: Option<u8>)
    ensures
        r == hex_value(b),
{
    if 48 <= b && b <= 57 {
        Some(b - 48)
    } else if 97 <= b && b <= 102 {
        Some(b - 87)
    } else if 65 <= b && b <= 70 {
        Some(b - 55)
    } else {
        None
    }
}

fn pair_value_exec(b0: u8, b1: u8) -> (r: Option<u8>)
    ensures
        r == pair_value(b0, b1),
{
    match (hex_value_exec(b0), hex_value_exec(b1)) {
        (Some(h), Some(l)) => Some(h * 16 + l),
        _ => None,
    }
}

/// Decodes hexadecimal text: two bytes of text per byte, digits of either
/// case.
pub fn from_hex(hex: &str) -> (r: Result<Vec<u8>, HexError>)
    requires
        hex_decodable(hex),
    ensures
        hex.spec_bytes().len() % 2 != 0 ==> r == Err::<Vec<u8>, HexError>(HexError::OddLength),
        hex.spec_bytes().len() % 2 == 0 ==> match decode_from(hex.spec_bytes(), 0) {
            Some(v) => r matches Ok(w) && w@ == v,
            None => r == Err::<Vec<u8>, HexError>(HexError::InvalidDigit),
        },
{
    let b = hex.as_bytes();
    let n = b.len();
    if n % 2 != 0 {
        return Err(HexError::OddLength);
    }
    let ghost bs = b@;
    let mut out: Vec<u8> = Vec::new();
    let mut k: usize = 0;
    while 2 * k < n
        invariant
            n == bs.len(),
            bs == b@,
            bs == hex.spec_bytes(),
            n % 2 == 0,
            2 * k <= n,
            decode_from(bs, 0) == match decode_from(bs, k as nat) {
                Some(rest) => Some(out@ + rest),
                None => None,
            },
        decreases n - 2 * k,
    {
        let ghost before = out@;
        match pair_value_exec(b[2 * k], b[2 * k + 1]) {
            None => {
                assert(decode_from(bs, k as nat) is None);
                return Err(HexError::InvalidDigit);
            },
            Some(x) => {
                out.push(x);
                proof {
                    match decode_from(bs, (k + 1) as nat) {
                        Some(rest) => {
                            assert(before + (seq![x] + rest) =~= out@ + rest);
                        },
                        None => {},
                    }
                }
            },
        }
        k = k + 1;
    }
    assert(out@ + Seq::<u8>::empty() =~= out@);
    Ok(out)
}

proof fn lemma_hex_digit_value(n: nat)
    requires
        n < 16,
    ensures
        hex_value(hex_digit(n) as u8) == Some(n as u8),
        '\0' <= hex_digit(n) <= '\u{7f}',
{
}

/// The hexadecimal text of bytes is ASCII.
pub proof fn lemma_hex_of_ascii(bytes: Seq<u8>)
    ensures
        is_ascii_chars(hex_of(bytes)),
{
    lemma_hex_of_len(bytes);
    assert forall|i: int| 0 <= i < hex_of(bytes).len() implies '\0' <= #[trigger] hex_of(bytes)[i] <= '\u{7f}' by {
        let k = i / 2;
        lemma_hex_of_index(bytes, k);
        lemma_hex_digit_value((bytes[k] / 16) as nat);
        lemma_hex_digit_value((bytes[k] % 16) as nat);
        if i % 2 == 0 {
            assert(i == 2 * k);
        } else {
            assert(i == 2 * k + 1);
        }
    }
}

proof fn lemma_decode_hex_bytes(bytes: Seq<u8>, enc: Seq<u8>, k: nat)
    requires
        enc.len() == 2 * bytes.len(),
        k <= bytes.len(),
        forall|j: int| 0 <= j < bytes.len() ==> enc[2 * j] == hex_digit((bytes[j] / 16) as nat) as u8
            && enc[2 * j + 1] == hex_digit((bytes[j] % 16) as nat) as u8,
    ensures
        decode_from(enc, k) == Some(bytes.skip(k as int)),
    decreases bytes.len() - k,
{
    if k == bytes.len() {
        assert(bytes.skip(k as int) =~= Seq::<u8>::empty());
    } else {
        lemma_decode_hex_bytes(bytes, enc, k + 1);
        let x = bytes[k as int];
        lemma_hex_digit_value((x / 16) as nat);
        lemma_hex_digit_value((x % 16) as nat);
        assert(enc[2 * k as int] == hex_digit((x / 16) as nat) as u8);
        assert(enc[(2 * k + 1) as int] == hex_digit((x % 16) as nat) as u8);
        assert((x / 16) * 16 + x % 16 == x);
        assert(pair_value(enc[2 * k as int], enc[(2 * k + 1) as int]) == Some(x));
        assert(seq![x] + bytes.skip((k + 1) as int) =~= bytes.skip(k as int));
    }
}

/// Decoding the hexadecimal text of bytes gives the bytes back, and the
/// text can always be decoded.
pub proof fn law_hex_roundtrip(bytes: Seq<u8>)
    ensures
        encode_utf8(hex_of(bytes)).len() % 2 == 0,
        chunks_cut_cleanly(encode_utf8(hex_of(bytes)), 0),
        decode_from(encode_utf8(hex_of(bytes)), 0) == Some(bytes),
{
    let h = hex_of(bytes);
    lemma_hex_of_len(bytes);
    lemma_hex_of_ascii(bytes);
    is_ascii_chars_encode_utf8(h);
    let enc = encode_utf8(h);
    assert forall|j: int| 0 <= j < bytes.len() implies enc[2 * j] == hex_digit((bytes[j] / 16) as nat) as u8
        && enc[2 * j + 1] == hex_digit((bytes[j] % 16) as nat) as u8 by {
        lemma_hex_of_index(bytes, j);
        assert(h[2 * j] as u8 == enc[2 * j]);
        assert(h[2 * j + 1] as u8 == enc[2 * j + 1]);
    }
    lemma_decode_hex_bytes(bytes, enc, 0);
    assert(bytes.skip(0) =~= bytes);
    lemma_ascii_cut_cleanly(h, 0);
}

proof fn lemma_ascii_cut_cleanly(h: Seq<char>, k: nat)
    requires
        is_ascii_chars(h),
    ensures
        chunks_cut_cleanly(encode_utf8(h), k),
    decreases encode_utf8(h).len() - 2 * k,
{
    is_ascii_chars_encode_utf8(h);
    let enc = encode_utf8(h);
    if 2 * k + 2 <= enc.len() {
        lemma_ascii_boundary(h, (2 * k + 2) as int);
        lemma_ascii_cut_cleanly(h, k + 1);
    }
}

/// Every position of the encoding of ASCII text is a character boundary.
pub proof fn lemma_ascii_boundary(h: Seq<char>, i: int)
    requires
        is_ascii_chars(h),
        0 <= i <= h.len(),
    ensures
        is_char_boundary(encode_utf8(h), i),
{
    vstd::utf8::encode_utf8_valid_utf8(h);
    is_ascii_chars_encode_utf8(h);
    let enc = encode_utf8(h);
    if i == h.len() {
        vstd::utf8::is_char_boundary_start_end_of_seq(enc);
    } else {
        assert(h[i] as u8 == enc[i]);
        assert('\0' <= h[i] <= '\u{7f}');
        vstd::utf8::is_char_boundary_iff_not_is_continuation_byte(enc, i);
    }
}


/// Whether the chunks of a hexadecimal text fall on character boundaries
/// wherever decoding would cut it (what `from_hex` requires).
pub fn hex_decodable_exec(hex: &str) -> (r: bool)
    ensures
        r == hex_decodable(hex),
{
    let b = hex.as_bytes();
    let n = b.len();
    if n % 2 != 0 {
        return true;
    }
    let ghost bs = hex.spec_bytes();
    let mut k: usize = 0;
    while n - 2 * k >= 2
        invariant
            n == bs.len(),
            bs == b@,
            bs == hex.spec_bytes(),
            n % 2 == 0,
            2 * k <= n,
            chunks_cut_cleanly(bs, 0) == chunks_cut_cleanly(bs, k as nat),
        decreases n - 2 * k,
    {
        if !hex.is_char_boundary(2 * k + 2) {
            return false;
        }
        if pair_value_exec(b[2 * k], b[2 * k + 1]).is_none() {
            return true;
        }
        k = k + 1;
    }
    true
}

/// The sixteen bytes of an identifier with the version (4) and variant
/// (10xx) bits set.
pub open spec fn uuid_bytes(b: Seq<u8>) -> Seq<u8> {
    b.update(6, (b[6] & 0x0f) | 0x40).update(8, (b[8] & 0x3f) | 0x80)
}

/// The text of an identifier: groups of 4, 2, 2, 2 and 6 bytes in
/// hexadecimal, separated by '-'.
pub open spec fn uuid_text(b: Seq<u8>) -> Seq<char> {
    let u = uuid_bytes(b);
    hex_of(u.subrange(0, 4)) + seq!['-'] + hex_of(u.subrange(4, 6)) + seq!['-']
        + hex_of(u.subrange(6, 8)) + seq!['-'] + hex_of(u.subrange(8, 10)) + seq!['-']
        + hex_of(u.subrange(10, 16))
}

fn push_hex(out: &mut Vec<char>, b: &[u8], from: usize, to: usize)
    requires
        from <= to <= b@.len(),
    ensures
        final(out)@ == old(out)@ + hex_of(b@.subrange(from as int, to as int)),
{
    let part = slice_range(b, from, to);
    let h = to_hex(&part);
    let hc = crate::text::chars_of(h.as_str());
    crate::text::append_chars(out, &hc);
}

pub(crate) fn slice_range(b: &[u8], from: usize, to: usize) -> (r: Vec<u8>)
    requires
        from <= to <= b@.len(),
    ensures
        r@ == b@.subrange(from as int, to as int),
{
    let mut out: Vec<u8> = Vec::new();
    let mut i = from;
    while i < to
        invariant
            from <= i <= to <= b@.len(),
            out@ == b@.subrange(from as int, i as int),
        decreases to - i,
    {
        out.push(b[i]);
        i = i + 1;
        assert(out@ =~= b@.subrange(from as int, i as int));
    }
    out
}

/// Formats sixteen bytes as an identifier, setting its version and variant
/// bits.
pub fn format_uuid(bytes: &[u8]) -> (r: String)
    requires
        bytes@.len() == 16,
    ensures
        r@ == uuid_text(bytes@),
{
    let mut b: Vec<u8> = slice_range(bytes, 0, 16);
    assert(b@ =~= bytes@);
    let b6 = (b[6] & 0x0f) | 0x40;
    let b8 = (b[8] & 0x3f) | 0x80;
    b.set(6, b6);
    b.set(8, b8);
    assert(b@ =~= uuid_bytes(bytes@));
    let mut out: Vec<char> = Vec::new();
    push_hex(&mut out, &b, 0, 4);
    out.push('-');
    push_hex(&mut out, &b, 4, 6);
    out.push('-');
    push_hex(&mut out, &b, 6, 8);
    out.push('-');
    push_hex(&mut out, &b, 8, 10);
    out.push('-');
    push_hex(&mut out, &b, 10, 16);
    string_of(&out)
}

/// The bytes that stand in for random ones when no randomness is at hand:
/// the seconds and nanoseconds of the clock, then zeros.
pub open spec fn clock_bytes(secs: u64, nanos: u32) -> Seq<u8> {
    seq![
        (secs >> 24u64) as u8, (secs >> 16u64) as u8, (secs >> 8u64) as u8, secs as u8,
        nanos as u8, (nanos >> 8u32) as u8, (nanos >> 16u32) as u8, (nanos >> 24u32) as u8,
        0u8, 0u8, 0u8, 0u8, 0u8, 0u8, 0u8, 0u8,
    ]
}

/// The clock-based stand-in for random identifier bytes.
pub fn clock_fallback_bytes(secs: u64, nanos: u32) -> (r: Vec<u8>)
    ensures
        r@ == clock_bytes(secs, nanos),
{
    let mut v: Vec<u8> = Vec::new();
    v.push((secs >> 24u64) as u8);
    v.push((secs >> 16u64) as u8);
    v.push((secs >> 8u64) as u8);
    v.push(secs as u8);
    v.push(nanos as u8);
    v.push((nanos >> 8u32) as u8);
    v.push((nanos >> 16u32) as u8);
    v.push((nanos >> 24u32) as u8);
    let mut i: usize = 0;
    while i < 8
        invariant
            0 <= i <= 8,
            v@.len() == 8 + i,
            forall|k: int| 0 <= k < 8 ==> v@[k] == clock_bytes(secs, nanos)[k],
            forall|k: int| 8 <= k < 8 + i ==> v@[k] == 0u8,
        decreases 8 - i,
    {
        v.push(0u8);
        i = i + 1;
    }
    assert(v@ =~= clock_bytes(secs, nanos));
    v
}


proof fn lemma_hex_of_no_dash(bytes: Seq<u8>)
    ensures
        hex_of(bytes).len() == 2 * bytes.len(),
        forall|j: int| 0 <= j < hex_of(bytes).len() ==> #[trigger] hex_of(bytes)[j] != '-',
{
    lemma_hex_of_len(bytes);
    assert forall|j: int| 0 <= j < hex_of(bytes).len() implies #[trigger] hex_of(bytes)[j] != '-' by {
        let k = j / 2;
        lemma_hex_of_index(bytes, k);
        if j % 2 == 0 {
            assert(j == 2 * k);
        } else {
            assert(j == 2 * k + 1);
        }
    }
}

/// An identifier is 36 characters long, with '-' at positions 8, 13, 18
/// and 23 and nowhere else.
pub proof fn law_uuid_shape(b: Seq<u8>)
    requires
        b.len() == 16,
    ensures
        uuid_text(b).len() == 36,
        forall|i: int| 0 <= i < 36 ==> (#[trigger] uuid_text(b)[i] == '-' <==> (i == 8 || i == 13 || i == 18 || i == 23)),
{
    let u = uuid_bytes(b);
    let p0 = hex_of(u.subrange(0, 4));
    let p1 = hex_of(u.subrange(4, 6));
    let p2 = hex_of(u.subrange(6, 8));
    let p3 = hex_of(u.subrange(8, 10));
    let p4 = hex_of(u.subrange(10, 16));
    lemma_hex_of_no_dash(u.subrange(0, 4));
    lemma_hex_of_no_dash(u.subrange(4, 6));
    lemma_hex_of_no_dash(u.subrange(6, 8));
    lemma_hex_of_no_dash(u.subrange(8, 10));
    lemma_hex_of_no_dash(u.subrange(10, 16));
    let t = uuid_text(b);
    assert(t.len() == 36);
    assert forall|i: int| 0 <= i < 36 implies (#[trigger] t[i] == '-' <==> (i == 8 || i == 13 || i == 18 || i == 23)) by {
        if i < 8 {
            assert(t[i] == p0[i]);
        } else if i == 8 {
        } else if i < 13 {
            assert(t[i] == p1[i - 9]);
        } else if i == 13 {
        } else if i < 18 {
            assert(t[i] == p2[i - 14]);
        } else if i == 18 {
        } else if i < 23 {
            assert(t[i] == p3[i - 19]);
        } else if i == 23 {
        } else {
            assert(t[i] == p4[i - 24]);
        }
    }
}

} // verus!
