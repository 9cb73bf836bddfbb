//! Text made of ASCII bytes: hexadecimal and decimal digits, escaped byte
//! dumps, and the conversion of such bytes into a `String`.

use std::string::FromUtf8Error;
use vstd::prelude::*;
use vstd::slice::slice_to_vec;
use vstd::utf8::*;

verus! {

/// Every byte is below 0x80.
pub open spec fn is_ascii_bytes(bytes: Seq<u8>) -> bool {
    forall|i: int| 0 <= i < bytes.len() ==> #[trigger] bytes[i] < 0x80
}

/// The text whose characters are the given bytes, one character per byte.
pub open spec fn ascii_text(bytes: Seq<u8>) -> Seq<char> {
    Seq::new(bytes.len(), |i: int| bytes[i] as char)
}

/// std's report of bytes that are no UTF-8, with the bytes.
#[verifier::external_type_specification]
#[verifier::external_body]
pub struct ExFromUtf8Error(FromUtf8Error);

/// `String::from_utf8`: the bytes become a `String` exactly when they are
/// valid UTF-8, and the string then holds the text that they encode.
#[verifier::external_body]
fn string_from_utf8(bytes: Vec<u8>) -> (r: Result<String, FromUtf8Error>)
    ensures
        r is Ok <==> valid_utf8(bytes@),
        r matches Ok(s) ==> s@ == decode_utf8(bytes@),
{
    String::from_utf8(bytes)
}

/// The text that `String::from_utf8_lossy` makes of bytes: where they are
/// not UTF-8, every part that is not stands as the replacement character.
pub uninterp spec fn lossy_text(bytes: Seq<u8>) -> Seq<char>;

/// `String::from_utf8_lossy`, as an owned string: the text that
/// `lossy_text` names, which for valid UTF-8 is the text that the bytes
/// encode.
#[verifier::external_body]
fn string_from_utf8_lossy(bytes: &[u8]) -> (text: String)
    ensures
        text@ == lossy_text(bytes@),
        valid_utf8(bytes@) ==> text@ == decode_utf8(bytes@),
{
    String::from_utf8_lossy(bytes).into_owned()
}

/// The text that bytes are read as: the text that they encode where they
/// are UTF-8, and else that text with the replacement character in place
/// of every part that is not UTF-8.
pub open spec fn text_of(bytes: Seq<u8>) -> Seq<char> {
    if valid_utf8(bytes) {
        decode_utf8(bytes)
    } else {
        lossy_text(bytes)
    }
}

/// Reads bytes as text, with the replacement character in place of every
/// part that is not UTF-8.
pub fn read_text(bytes: &[u8]) -> (text: String)
    ensures
        text@ == text_of(bytes@),
{
    string_from_utf8_lossy(bytes)
}

/// ASCII bytes are read as the text that has one character per byte.
pub proof fn lemma_text_of_ascii(bytes: Seq<u8>)
    requires
        is_ascii_bytes(bytes),
    ensures
        text_of(bytes) == ascii_text(bytes),
        encode_utf8(text_of(bytes)) == bytes,
{
    lemma_ascii_is_utf8(bytes);
}

/// Whether the bytes are valid UTF-8.
pub fn is_utf8(bytes: &[u8]) -> (r: bool)
    ensures
        r == valid_utf8(bytes@),
{
    string_from_utf8(slice_to_vec(bytes)).is_ok()
}

/// ASCII bytes are valid UTF-8: they encode the text that has one
/// character per byte.
pub proof fn lemma_ascii_is_utf8(bytes: Seq<u8>)
    requires
        is_ascii_bytes(bytes),
    ensures
        valid_utf8(bytes),
        decode_utf8(bytes) == ascii_text(bytes),
        encode_utf8(ascii_text(bytes)) == bytes,
{
    let chars = ascii_text(bytes);
    assert(is_ascii_chars(chars)) by {
        assert forall|i: int| 0 <= i < chars.len() implies '\0' <= #[trigger] chars[i]
            <= '\u{7f}' by {
            assert(bytes[i] < 0x80);
        }
    }
    is_ascii_chars_encode_utf8(chars);
    assert(encode_utf8(chars) =~= bytes) by {
        assert forall|i: int| 0 <= i < bytes.len() implies (chars[i] as u8) == bytes[i] by {
            assert(bytes[i] < 0x80);
        }
    }
    encode_utf8_valid_utf8(chars);
    encode_utf8_decode_utf8(chars);
}

/// The string with one character per byte of `bytes`.
pub(crate) fn string_from_ascii(bytes: Vec<u8>) -> (s: String)
    requires
        is_ascii_bytes(bytes@),
    ensures
        s@ == ascii_text(bytes@),
{
    proof {
        lemma_ascii_is_utf8(bytes@);
    }
    match string_from_utf8(bytes) {
        Ok(s) => s,
        Err(_) => String::new(),
    }
}

/// Whether the two slices hold the same bytes.
pub fn same_bytes(a: &[u8], b: &[u8]) -> (r: bool)
    ensures
        r == (a@ == b@),
{
    if a.len() != b.len() {
        return false;
    }
    let mut i: usize = 0;
    while i < a.len()
        invariant
            i <= a.len(),
            a.len() == b.len(),
            forall|k: int| 0 <= k < i ==> a@[k] == b@[k],
        decreases a.len() - i,
    {
        if a[i] != b[i] {
            return false;
        }
        i = i + 1;
    }
    assert(a@ =~= b@);
    true
}

/// The ASCII digit for a value below sixteen, with the letters in upper or
/// lower case.
pub open spec fn hex_digit(value: u8, upper: bool) -> u8 {
    if value < 10 {
        (0x30 + value) as u8
    } else if upper {
        (0x41 + (value - 10)) as u8
    } else {
        (0x61 + (value - 10)) as u8
    }
}

/// Two hexadecimal digits for every byte, high digit first.
pub open spec fn hex_text(bytes: Seq<u8>, upper: bool) -> Seq<u8> {
    Seq::new(
        2 * bytes.len(),
        |i: int|
            if i % 2 == 0 {
                hex_digit(bytes[i / 2] / 16, upper)
            } else {
                hex_digit(bytes[i / 2] % 16, upper)
            },
    )
}

/// The hexadecimal digits of a byte in lower case, without a leading zero.
pub open spec fn short_hex(byte: u8) -> Seq<u8> {
    if byte < 16 {
        seq![hex_digit(byte, false)]
    } else {
        seq![hex_digit(byte / 16, false), hex_digit(byte % 16, false)]
    }
}

fn hex_digit_of(value: u8, upper: bool) -> (digit: u8)
    requires
        value < 16,
    ensures
        digit == hex_digit(value, upper),
        digit < 0x80,
{
    if value < 10 {
        0x30 + value
    } else if upper {
        0x41 + (value - 10)
    } else {
        0x61 + (value - 10)
    }
}

/// Appends the two hexadecimal digits of `byte` to `out`.
pub fn push_hex(out: &mut Vec<u8>, byte: u8, upper: bool)
    ensures
        final(out)@ == old(out)@ + hex_text(seq![byte], upper),
{
    out.push(hex_digit_of(byte / 16, upper));
    out.push(hex_digit_of(byte % 16, upper));
    assert(final(out)@ =~= old(out)@ + hex_text(seq![byte], upper));
}

/// The hexadecimal digits of `bytes`, two for each byte.
pub fn to_hex_bytes(bytes: &[u8], upper: bool) -> (out: Vec<u8>)
    ensures
        out@ == hex_text(bytes@, upper),
        is_ascii_bytes(out@),
{
    let mut out: Vec<u8> = Vec::new();
    let mut i: usize = 0;
    while i < bytes.len()
        invariant
            i <= bytes.len(),
            out@ == hex_text(bytes@.take(i as int), upper),
        decreases bytes.len() - i,
    {
        push_hex(&mut out, bytes[i], upper);
        assert(out@ =~= hex_text(bytes@.take(i as int + 1), upper));
        i = i + 1;
    }
    assert(bytes@.take(i as int) =~= bytes@);
    out
}

/// The hexadecimal digits of `byte` as `{:x}` prints them.
pub fn short_hex_bytes(byte: u8) -> (out: Vec<u8>)
    ensures
        out@ == short_hex(byte),
        is_ascii_bytes(out@),
{
    let mut out: Vec<u8> = Vec::new();
    if byte >= 16 {
        out.push(hex_digit_of(byte / 16, false));
    }
    out.push(hex_digit_of(byte % 16, false));
    assert(out@ =~= short_hex(byte));
    out
}

/// The value of a hexadecimal digit in either case, if the byte is one.
pub open spec fn hex_value(digit: u8) -> Option<u8> {
    if 0x30 <= digit <= 0x39 {
        Some((digit - 0x30) as u8)
    } else if 0x41 <= digit <= 0x46 {
        Some((digit - 0x41 + 10) as u8)
    } else if 0x61 <= digit <= 0x66 {
        Some((digit - 0x61 + 10) as u8)
    } else {
        None
    }
}

/// The text is made of pairs of hexadecimal digits.
pub open spec fn is_hex_text(text: Seq<u8>) -> bool {
    text.len() % 2 == 0 && forall|i: int| 0 <= i < text.len() ==> hex_value(#[trigger] text[i]) is Some
}

/// The bytes that pairs of hexadecimal digits write, high digit first.
pub open spec fn hex_bytes(text: Seq<u8>) -> Seq<u8> {
    Seq::new(
        text.len() / 2,
        |i: int| (hex_value(text[2 * i])->Some_0 * 16 + hex_value(text[2 * i + 1])->Some_0) as u8,
    )
}

/// The value of a hexadecimal digit in either case.
fn hex_value_of(digit: u8) -> (r: Option<u8>)
    ensures
        r == hex_value(digit),
        r matches Some(value) ==> value < 16,
{
    if 0x30 <= digit && digit <= 0x39 {
        Some(digit - 0x30)
    } else if 0x41 <= digit && digit <= 0x46 {
        Some(digit - 0x41 + 10)
    } else if 0x61 <= digit && digit <= 0x66 {
        Some(digit - 0x61 + 10)
    } else {
        None
    }
}

/// Reads bytes from pairs of hexadecimal digits in either case.  `None`
/// for a text of odd length and for one that holds anything else.
pub fn from_hex(text: &[u8]) -> (r: Option<Vec<u8>>)
    ensures
        match r {
            Some(bytes) => is_hex_text(text@) && bytes@ == hex_bytes(text@),
            None => !is_hex_text(text@),
        },
{
    if text.len() % 2 != 0 {
        return None;
    }
    let mut out: Vec<u8> = Vec::new();
    let mut i: usize = 0;
    while i < text.len()
        invariant
            i <= text.len(),
            i % 2 == 0,
            text.len() % 2 == 0,
            out@.len() == i / 2,
            forall|k: int| 0 <= k < i ==> hex_value(#[trigger] text@[k]) is Some,
            forall|k: int| 0 <= k < out@.len() ==> out@[k] == hex_bytes(text@)[k],
        decreases text.len() - i,
    {
        let high = match hex_value_of(text[i]) {
            Some(value) => value,
            None => {
                return None;
            },
        };
        let low = match hex_value_of(text[i + 1]) {
            Some(value) => value,
            None => {
                return None;
            },
        };
        out.push(high * 16 + low);
        i = i + 2;
    }
    assert(out@ =~= hex_bytes(text@));
    Some(out)
}

/// Bytes come back from their hexadecimal digits, in either case.
pub proof fn lemma_hex_round_trip(bytes: Seq<u8>, upper: bool)
    ensures
        is_hex_text(hex_text(bytes, upper)),
        hex_bytes(hex_text(bytes, upper)) == bytes,
{
    let text = hex_text(bytes, upper);
    assert forall|i: int| 0 <= i < text.len() implies hex_value(#[trigger] text[i]) is Some by {
        lemma_hex_digit(bytes[i / 2] / 16, upper);
        lemma_hex_digit(bytes[i / 2] % 16, upper);
    }
    assert forall|k: int| 0 <= k < bytes.len() implies hex_bytes(text)[k] == bytes[k] by {
        lemma_hex_digit(bytes[k] / 16, upper);
        lemma_hex_digit(bytes[k] % 16, upper);
        assert(text[2 * k] == hex_digit(bytes[k] / 16, upper));
        assert(text[2 * k + 1] == hex_digit(bytes[k] % 16, upper));
    }
    assert(hex_bytes(text) =~= bytes);
}

/// A hexadecimal digit has the value that it was made from.
proof fn lemma_hex_digit(value: u8, upper: bool)
    requires
        value < 16,
    ensures
        hex_value(hex_digit(value, upper)) == Some(value),
{
}

/// The decimal digits of `n`, without leading zeros.
pub open spec fn decimal_text(n: nat) -> Seq<u8>
    decreases n,
{
    if n < 10 {
        seq![(0x30 + n) as u8]
    } else {
        decimal_text(n / 10).push((0x30 + n % 10) as u8)
    }
}

/// The decimal digits of `n`, without leading zeros.
pub fn decimal_bytes(n: u64) -> (out: Vec<u8>)
    ensures
        out@ == decimal_text(n as nat),
        is_ascii_bytes(out@),
{
    let mut reversed: Vec<u8> = Vec::new();
    let mut rest: u64 = n;
    assert(decimal_text(n as nat) =~= decimal_text(rest as nat) + reversed@.reverse());
    while rest >= 10
        invariant
            decimal_text(n as nat) == decimal_text(rest as nat) + reversed@.reverse(),
            is_ascii_bytes(reversed@),
        decreases rest,
    {
        let digit: u8 = 0x30 + (rest % 10) as u8;
        let ghost before = reversed@;
        reversed.push(digit);
        assert(reversed@.reverse() =~= seq![digit] + before.reverse());
        assert(decimal_text(rest as nat) + before.reverse() =~= decimal_text((rest / 10) as nat)
            + reversed@.reverse());
        rest = rest / 10;
    }
    let ghost before = reversed@;
    reversed.push(0x30 + rest as u8);
    assert(reversed@.reverse() =~= decimal_text(rest as nat) + before.reverse());
    let mut out: Vec<u8> = Vec::new();
    let mut i: usize = reversed.len();
    while i > 0
        invariant
            i <= reversed.len(),
            out@.len() == reversed.len() - i,
            forall|k: int| 0 <= k < out@.len() ==> out@[k] == reversed@[reversed.len() - 1 - k],
            is_ascii_bytes(reversed@),
        decreases i,
    {
        i = i - 1;
        out.push(reversed[i]);
    }
    assert(out@ =~= reversed@.reverse());
    out
}

/// The byte is one of the digits `0` to `9`.
pub open spec fn is_digit(byte: u8) -> bool {
    0x30 <= byte <= 0x39
}

/// Every byte is a decimal digit.
pub open spec fn all_digits(s: Seq<u8>) -> bool {
    forall|i: int| 0 <= i < s.len() ==> is_digit(#[trigger] s[i])
}

/// The number that the decimal digits `s` write.
pub open spec fn decimal_value(s: Seq<u8>) -> nat
    decreases s.len(),
{
    if s.len() == 0 {
        0
    } else {
        decimal_value(s.drop_last()) * 10 + (s.last() - 0x30) as nat
    }
}

/// `s` without a leading `+`.
pub open spec fn unsigned_part(s: Seq<u8>) -> Seq<u8> {
    if s.len() > 0 && s[0] == 0x2b {
        s.skip(1)
    } else {
        s
    }
}

/// The number that `s` writes: an optional `+`, then one or more decimal
/// digits whose value fits in 64 bits.
pub open spec fn parsed_u64(s: Seq<u8>) -> Option<u64> {
    let digits = unsigned_part(s);
    if digits.len() > 0 && all_digits(digits) && decimal_value(digits) <= u64::MAX {
        Some(decimal_value(digits) as u64)
    } else {
        None
    }
}

/// The value of a prefix of decimal digits is at most the value of the
/// whole.
pub proof fn lemma_decimal_value_grows(s: Seq<u8>, k: int)
    requires
        all_digits(s),
        0 <= k <= s.len(),
    ensures
        decimal_value(s.take(k)) <= decimal_value(s),
    decreases s.len() - k,
{
    if k < s.len() {
        assert(s.take(k + 1).drop_last() =~= s.take(k));
        assert(s.take(k + 1).last() == s[k]);
        assert(is_digit(s[k]));
        lemma_decimal_value_grows(s, k + 1);
    } else {
        assert(s.take(k) =~= s);
    }
}

/// Reads an unsigned decimal number: an optional `+`, then one or more
/// digits.  `None` for any other text and for a number above 64 bits.
pub fn parse_u64(bytes: &[u8]) -> (r: Option<u64>)
    ensures
        r == parsed_u64(bytes@),
{
    let start: usize = if bytes.len() > 0 && bytes[0] == 0x2b {
        1
    } else {
        0
    };
    let ghost digits = unsigned_part(bytes@);
    assert(digits =~= bytes@.skip(start as int));
    if start == bytes.len() {
        return None;
    }
    let mut value: u64 = 0;
    let mut i: usize = start;
    assert(digits.take(0) =~= Seq::<u8>::empty());
    while i < bytes.len()
        invariant
            start <= i <= bytes.len(),
            digits == bytes@.skip(start as int),
            digits == unsigned_part(bytes@),
            value == decimal_value(digits.take(i - start)),
            all_digits(digits.take(i - start)),
        decreases bytes.len() - i,
    {
        let byte = bytes[i];
        let ghost k = i - start;
        assert(digits[k] == byte);
        assert(digits.take(k + 1).drop_last() =~= digits.take(k));
        assert(digits.take(k + 1).last() == byte);
        if byte < 0x30 || byte > 0x39 {
            assert(!is_digit(digits[k]));
            return None;
        }
        assert(decimal_value(digits.take(k + 1)) == value * 10 + (byte - 0x30));
        let grown = match value.checked_mul(10) {
            Some(tens) => tens.checked_add((byte - 0x30) as u64),
            None => None,
        };
        match grown {
            Some(next) => {
                value = next;
            },
            None => {
                proof {
                    if all_digits(digits) {
                        lemma_decimal_value_grows(digits, k + 1);
                    }
                }
                return None;
            },
        }
        i = i + 1;
    }
    assert(digits.take(i - start) =~= digits);
    Some(value)
}

/// How a byte is shown in a dump: printable ASCII as it is, the usual
/// escapes for tab, carriage return, line feed, quotes and backslash, and
/// `\xNN` in lower-case hexadecimal digits for every other byte.
pub open spec fn escaped_byte(byte: u8) -> Seq<u8> {
    if byte == 0x09 {
        seq![0x5cu8, 0x74u8]
    } else if byte == 0x0d {
        seq![0x5cu8, 0x72u8]
    } else if byte == 0x0a {
        seq![0x5cu8, 0x6eu8]
    } else if byte == 0x27 || byte == 0x22 || byte == 0x5c {
        seq![0x5cu8, byte]
    } else if 0x20 <= byte <= 0x7e {
        seq![byte]
    } else {
        seq![0x5cu8, 0x78u8, hex_digit(byte / 16, false), hex_digit(byte % 16, false)]
    }
}

/// The dump of `bytes`: every byte as [`escaped_byte`] shows it.
pub open spec fn escaped_text(bytes: Seq<u8>) -> Seq<u8>
    decreases bytes.len(),
{
    if bytes.len() == 0 {
        Seq::empty()
    } else {
        escaped_text(bytes.drop_last()) + escaped_byte(bytes.last())
    }
}

/// Appends the dump of one byte to `out`.
fn push_escaped(out: &mut Vec<u8>, byte: u8)
    requires
        is_ascii_bytes(old(out)@),
    ensures
        final(out)@ == old(out)@ + escaped_byte(byte),
        is_ascii_bytes(final(out)@),
{
    if byte == 0x09 {
        out.push(0x5c);
        out.push(0x74);
    } else if byte == 0x0d {
        out.push(0x5c);
        out.push(0x72);
    } else if byte == 0x0a {
        out.push(0x5c);
        out.push(0x6e);
    } else if byte == 0x27 || byte == 0x22 || byte == 0x5c {
        out.push(0x5c);
        out.push(byte);
    } else if 0x20 <= byte && byte <= 0x7e {
        out.push(byte);
    } else {
        out.push(0x5c);
        out.push(0x78);
        out.push(hex_digit_of(byte / 16, false));
        out.push(hex_digit_of(byte % 16, false));
    }
    assert(final(out)@ =~= old(out)@ + escaped_byte(byte));
}

/// The dump of `bytes` as ASCII bytes.
pub fn escape_bytes(bytes: &[u8]) -> (out: Vec<u8>)
    ensures
        out@ == escaped_text(bytes@),
        is_ascii_bytes(out@),
{
    let mut out: Vec<u8> = Vec::new();
    let mut i: usize = 0;
    assert(bytes@.take(0) =~= Seq::<u8>::empty());
    while i < bytes.len()
        invariant
            i <= bytes.len(),
            out@ == escaped_text(bytes@.take(i as int)),
            is_ascii_bytes(out@),
        decreases bytes.len() - i,
    {
        assert(bytes@.take(i + 1).drop_last() =~= bytes@.take(i as int));
        assert(bytes@.take(i + 1).last() == bytes@[i as int]);
        push_escaped(&mut out, bytes[i]);
        i = i + 1;
    }
    assert(bytes@.take(i as int) =~= bytes@);
    out
}

} // verus!
