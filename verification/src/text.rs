//! Text and positional-number primitives shared by identities, keys and frames.

use vstd::prelude::*;

verus! {

// ---------------------------------------------------------------------------
// Equality and code points
// ---------------------------------------------------------------------------

/// Compares two texts by their characters.
pub fn text_is(value: &str, other: &str) -> (same: bool)
    ensures
        same == (value@ == other@),
{
    value.to_owned() == other.to_owned()
}

/// A decimal digit character.
pub open spec fn is_digit(c: char) -> bool {
    '0' <= c && c <= '9'
}

/// A lowercase hexadecimal character.
pub open spec fn is_lower_hex_char(c: char) -> bool {
    is_digit(c) || ('a' <= c && c <= 'f')
}

/// A Unicode control character (general category Cc).
pub open spec fn is_control_char(c: char) -> bool {
    c as u32 <= 0x1f || (0x7f <= c as u32 && c as u32 <= 0x9f)
}

/// Exactly `digits` decimal digits and nothing else.
pub open spec fn digit_code(text: Seq<char>, digits: nat) -> bool {
    text.len() == digits && forall|i: int| 0 <= i < text.len() ==> is_digit(#[trigger] text[i])
}

/// Exactly `length` lowercase hexadecimal characters and nothing else.
pub open spec fn lower_hex(text: Seq<char>, length: nat) -> bool {
    text.len() == length && forall|i: int|
        0 <= i < text.len() ==> is_lower_hex_char(#[trigger] text[i])
}

/// Returns whether one human code contains the exact number of ASCII digits.
pub fn is_digit_code(value: &str, digits: usize) -> (matches: bool)
    ensures
        matches == digit_code(value@, digits as nat),
{
    let length: usize = value.unicode_len();
    if length != digits {
        return false;
    }
    let mut i: usize = 0;
    while i < length
        invariant
            length == value@.len(),
            length == digits,
            i <= length,
            forall|k: int| 0 <= k < i ==> is_digit(#[trigger] value@[k]),
        decreases length - i,
    {
        let c = value.get_char(i);
        if c < '0' || c > '9' {
            assert(!is_digit(value@[i as int]));
            return false;
        }
        i += 1;
    }
    true
}

/// Returns whether one value is exact lowercase hexadecimal text.
pub fn is_lower_hex(value: &str, length: usize) -> (matches: bool)
    ensures
        matches == lower_hex(value@, length as nat),
{
    let count: usize = value.unicode_len();
    if count != length {
        return false;
    }
    let mut i: usize = 0;
    while i < count
        invariant
            count == value@.len(),
            count == length,
            i <= count,
            forall|k: int| 0 <= k < i ==> is_lower_hex_char(#[trigger] value@[k]),
        decreases count - i,
    {
        let c = value.get_char(i);
        if !((c >= '0' && c <= '9') || (c >= 'a' && c <= 'f')) {
            assert(!is_lower_hex_char(value@[i as int]));
            return false;
        }
        i += 1;
    }
    true
}

/// Returns whether any character of one text is a control character.
pub fn has_control(value: &str) -> (found: bool)
    ensures
        found == exists|i: int| 0 <= i < value@.len() && is_control_char(#[trigger] value@[i]),
{
    let count: usize = value.unicode_len();
    let mut i: usize = 0;
    while i < count
        invariant
            count == value@.len(),
            i <= count,
            forall|k: int| 0 <= k < i ==> !is_control_char(#[trigger] value@[k]),
        decreases count - i,
    {
        let c = value.get_char(i);
        let code: u32 = c as u32;
        if code <= 0x1f || (code >= 0x7f && code <= 0x9f) {
            assert(is_control_char(value@[i as int]));
            return true;
        }
        i += 1;
    }
    false
}

/// The length of one text in UTF-8 bytes.
pub open spec fn byte_length(text: Seq<char>) -> nat {
    vstd::utf8::encode_utf8(text).len()
}

/// Returns the length of one text in UTF-8 bytes.
pub fn text_bytes(value: &str) -> (length: usize)
    ensures
        length == byte_length(value@),
{
    value.as_bytes().len()
}

// ---------------------------------------------------------------------------
// Digits
// ---------------------------------------------------------------------------

/// The character of one hexadecimal digit.
pub open spec fn hex_char(digit: nat) -> char {
    if digit == 0 {
        '0'
    } else if digit == 1 {
        '1'
    } else if digit == 2 {
        '2'
    } else if digit == 3 {
        '3'
    } else if digit == 4 {
        '4'
    } else if digit == 5 {
        '5'
    } else if digit == 6 {
        '6'
    } else if digit == 7 {
        '7'
    } else if digit == 8 {
        '8'
    } else if digit == 9 {
        '9'
    } else if digit == 10 {
        'a'
    } else if digit == 11 {
        'b'
    } else if digit == 12 {
        'c'
    } else if digit == 13 {
        'd'
    } else if digit == 14 {
        'e'
    } else {
        'f'
    }
}

/// The number that one hexadecimal character stands for.
pub open spec fn char_number(c: char) -> nat {
    if c <= '9' {
        (c as u32 - '0' as u32) as nat
    } else {
        (c as u32 - 'a' as u32 + 10) as nat
    }
}

/// Returns the text of one hexadecimal digit.
pub fn digit_text(digit: u8) -> (text: &'static str)
    requires
        digit < 16,
    ensures
        text@ == seq![hex_char(digit as nat)],
{
    proof {
        reveal_strlit("0");
        reveal_strlit("1");
        reveal_strlit("2");
        reveal_strlit("3");
        reveal_strlit("4");
        reveal_strlit("5");
        reveal_strlit("6");
        reveal_strlit("7");
        reveal_strlit("8");
        reveal_strlit("9");
        reveal_strlit("a");
        reveal_strlit("b");
        reveal_strlit("c");
        reveal_strlit("d");
        reveal_strlit("e");
        reveal_strlit("f");
    }
    let text = if digit == 0 {
        "0"
    } else if digit == 1 {
        "1"
    } else if digit == 2 {
        "2"
    } else if digit == 3 {
        "3"
    } else if digit == 4 {
        "4"
    } else if digit == 5 {
        "5"
    } else if digit == 6 {
        "6"
    } else if digit == 7 {
        "7"
    } else if digit == 8 {
        "8"
    } else if digit == 9 {
        "9"
    } else if digit == 10 {
        "a"
    } else if digit == 11 {
        "b"
    } else if digit == 12 {
        "c"
    } else if digit == 13 {
        "d"
    } else if digit == 14 {
        "e"
    } else {
        "f"
    };
    assert(text@ =~= seq![hex_char(digit as nat)]);
    text
}

/// The decimal text of one number, without leading zeros.
pub open spec fn decimal_text(value: nat) -> Seq<char>
    decreases value,
{
    if value < 10 {
        seq![hex_char(value)]
    } else {
        decimal_text(value / 10).push(hex_char(value % 10))
    }
}

/// Returns the decimal text of one number.
pub fn decimal(value: u64) -> (text: String)
    ensures
        text@ == decimal_text(value as nat),
    decreases value,
{
    if value < 10 {
        digit_text(value as u8).to_owned()
    } else {
        let mut text = decimal(value / 10);
        text.append(digit_text((value % 10) as u8));
        assert(text@ =~= decimal_text(value as nat));
        text
    }
}

// ---------------------------------------------------------------------------
// Hexadecimal numbers
// ---------------------------------------------------------------------------

/// Sixteen to the power of `digits`.
pub open spec fn pow16(digits: nat) -> nat
    decreases digits,
{
    if digits == 0 {
        1
    } else {
        16 * pow16((digits - 1) as nat)
    }
}

/// The lowest `digits` hexadecimal digits of one number, most significant first.
pub open spec fn hex_text(value: nat, digits: nat) -> Seq<char>
    decreases digits,
{
    if digits == 0 {
        Seq::empty()
    } else {
        hex_text(value / 16, (digits - 1) as nat).push(hex_char(value % 16))
    }
}

/// The number that one hexadecimal text stands for.
pub open spec fn hex_number(text: Seq<char>) -> nat
    decreases text.len(),
{
    if text.len() == 0 {
        0
    } else {
        hex_number(text.drop_last()) * 16 + char_number(text.last())
    }
}

pub proof fn lemma_hex_char(digit: nat)
    requires
        digit < 16,
    ensures
        is_lower_hex_char(hex_char(digit)),
        char_number(hex_char(digit)) == digit,
{
}

pub proof fn lemma_char_number(c: char)
    requires
        is_lower_hex_char(c),
    ensures
        char_number(c) < 16,
        hex_char(char_number(c)) == c,
{
}

/// Every number below `16^digits` is read back from its hexadecimal text.
pub proof fn lemma_hex_text_number(value: nat, digits: nat)
    requires
        value < pow16(digits),
    ensures
        lower_hex(hex_text(value, digits), digits),
        hex_number(hex_text(value, digits)) == value,
    decreases digits,
{
    if digits > 0 {
        let shorter = (digits - 1) as nat;
        assert(value / 16 < pow16(shorter));
        lemma_hex_text_number(value / 16, shorter);
        lemma_hex_char(value % 16);
        let text = hex_text(value, digits);
        assert(text.drop_last() =~= hex_text(value / 16, shorter));
        assert forall|i: int| 0 <= i < text.len() implies is_lower_hex_char(#[trigger] text[i]) by {
            if i < shorter {
                assert(text[i] == text.drop_last()[i]);
            }
        }
    }
}

/// Every lowercase hexadecimal text is written back from its number.
pub proof fn lemma_hex_number_text(text: Seq<char>)
    requires
        lower_hex(text, text.len()),
    ensures
        hex_number(text) < pow16(text.len()),
        hex_text(hex_number(text), text.len()) == text,
    decreases text.len(),
{
    if text.len() > 0 {
        let shorter = text.drop_last();
        assert(lower_hex(shorter, shorter.len())) by {
            assert forall|i: int| 0 <= i < shorter.len() implies is_lower_hex_char(
                #[trigger] shorter[i],
            ) by {
                assert(shorter[i] == text[i]);
            }
        }
        lemma_hex_number_text(shorter);
        lemma_char_number(text.last());
        let number = hex_number(text);
        assert(number / 16 == hex_number(shorter));
        assert(number % 16 == char_number(text.last()));
        assert(hex_text(number, text.len()) =~= text);
    } else {
        assert(hex_text(hex_number(text), text.len()) =~= text);
    }
}

pub proof fn lemma_hex_text_length(value: nat, digits: nat)
    ensures
        hex_text(value, digits).len() == digits,
        lower_hex(hex_text(value, digits), digits),
    decreases digits,
{
    if digits > 0 {
        lemma_hex_text_length(value / 16, (digits - 1) as nat);
        lemma_hex_char(value % 16);
        let text = hex_text(value, digits);
        assert forall|i: int| 0 <= i < text.len() implies is_lower_hex_char(#[trigger] text[i]) by {
            if i < digits - 1 {
                assert(text[i] == hex_text(value / 16, (digits - 1) as nat)[i]);
            }
        }
    }
}

pub proof fn lemma_pow16_monotonic(low: nat, high: nat)
    requires
        low <= high,
    ensures
        0 < pow16(low) <= pow16(high),
    decreases high,
{
    if low < high {
        lemma_pow16_monotonic(low, (high - 1) as nat);
    } else if high > 0 {
        lemma_pow16_monotonic((low - 1) as nat, (high - 1) as nat);
    }
}

pub proof fn lemma_pow16_32()
    ensures
        pow16(32) == 0x1_0000_0000_0000_0000_0000_0000_0000_0000,
{
    reveal_with_fuel(pow16, 33);
}

/// Returns the lowest `digits` hexadecimal digits of one number.
pub fn hex(value: u128, digits: usize) -> (text: String)
    ensures
        text@ == hex_text(value as nat, digits as nat),
    decreases digits,
{
    if digits == 0 {
        let text = String::new();
        assert(text@ =~= hex_text(value as nat, 0));
        text
    } else {
        let mut text = hex(value / 16, digits - 1);
        text.append(digit_text((value % 16) as u8));
        assert(text@ =~= hex_text(value as nat, digits as nat));
        text
    }
}

/// Reads exactly thirty-two lowercase hexadecimal digits.
pub fn parse_hex_128(value: &str) -> (number: Option<u128>)
    ensures
        number is Some <==> lower_hex(value@, 32),
        number matches Some(n) ==> n as nat == hex_number(value@),
{
    if !is_lower_hex(value, 32) {
        return None;
    }
    proof {
        lemma_pow16_32();
        lemma_pow16_monotonic(0, 32);
    }
    let mut number: u128 = 0;
    let mut i: usize = 0;
    while i < 32
        invariant
            lower_hex(value@, 32),
            i <= 32,
            number as nat == hex_number(value@.take(i as int)),
            number < pow16(i as nat),
            pow16(32) == 0x1_0000_0000_0000_0000_0000_0000_0000_0000,
        decreases 32 - i,
    {
        let c = value.get_char(i);
        let code: u32 = c as u32;
        let digit: u8 = if c <= '9' {
            (code - 48) as u8
        } else {
            (code - 87) as u8
        };
        proof {
            assert(is_lower_hex_char(value@[i as int]));
            lemma_char_number(c);
            let longer = value@.take(i as int + 1);
            assert(longer.drop_last() =~= value@.take(i as int));
            assert(longer.last() == c);
            lemma_pow16_monotonic((i + 1) as nat, 32);
        }
        number = number * 16 + digit as u128;
        i += 1;
    }
    proof {
        assert(value@.take(32) =~= value@);
    }
    Some(number)
}

// ---------------------------------------------------------------------------
// Big-endian bytes
// ---------------------------------------------------------------------------

/// The lowest `count` bytes of one number, most significant first.
pub open spec fn be_bytes(value: nat, count: nat) -> Seq<u8>
    decreases count,
{
    if count == 0 {
        Seq::empty()
    } else {
        be_bytes(value / 256, (count - 1) as nat).push((value % 256) as u8)
    }
}

/// The number that one big-endian byte sequence stands for.
pub open spec fn be_number(bytes: Seq<u8>) -> nat
    decreases bytes.len(),
{
    if bytes.len() == 0 {
        0
    } else {
        be_number(bytes.drop_last()) * 256 + bytes.last() as nat
    }
}

/// Two hexadecimal characters for each byte, in order.
pub open spec fn byte_hex(bytes: Seq<u8>) -> Seq<char>
    decreases bytes.len(),
{
    if bytes.len() == 0 {
        Seq::empty()
    } else {
        byte_hex(bytes.drop_last()).push(hex_char(bytes.last() as nat / 16)).push(
            hex_char(bytes.last() as nat % 16),
        )
    }
}

/// The hexadecimal text of a big-endian number is the hexadecimal text of its bytes.
pub proof fn lemma_byte_hex(bytes: Seq<u8>)
    ensures
        hex_text(be_number(bytes), 2 * bytes.len()) == byte_hex(bytes),
    decreases bytes.len(),
{
    if bytes.len() > 0 {
        let shorter = bytes.drop_last();
        lemma_byte_hex(shorter);
        let number = be_number(bytes);
        let last = bytes.last() as nat;
        assert(number == be_number(shorter) * 256 + last);
        assert(number % 16 == last % 16);
        assert((number / 16) % 16 == last / 16);
        assert((number / 16) / 16 == be_number(shorter));
        let digits = 2 * bytes.len();
        assert(hex_text(number, digits) == hex_text(number / 16, (digits - 1) as nat).push(
            hex_char(number % 16),
        ));
        assert(hex_text(number / 16, (digits - 1) as nat) == hex_text(
            number / 16 / 16,
            (digits - 2) as nat,
        ).push(hex_char((number / 16) % 16)));
    }
}

pub proof fn lemma_be_bytes_length(value: nat, count: nat)
    ensures
        be_bytes(value, count).len() == count,
    decreases count,
{
    if count > 0 {
        lemma_be_bytes_length(value / 256, (count - 1) as nat);
    }
}

/// Two hundred fifty-six to the power of `count`.
pub open spec fn pow256(count: nat) -> nat
    decreases count,
{
    if count == 0 {
        1
    } else {
        256 * pow256((count - 1) as nat)
    }
}

/// Every number below `256^count` is read back from its big-endian bytes.
pub proof fn lemma_be_round_trip(value: nat, count: nat)
    requires
        value < pow256(count),
    ensures
        be_number(be_bytes(value, count)) == value,
    decreases count,
{
    if count > 0 {
        assert(value / 256 < pow256((count - 1) as nat));
        lemma_be_round_trip(value / 256, (count - 1) as nat);
        assert(be_bytes(value, count).drop_last() =~= be_bytes(value / 256, (count - 1) as nat));
    }
}

/// Every byte sequence is written back from its big-endian number.
pub proof fn lemma_be_number_bytes(bytes: Seq<u8>)
    ensures
        be_number(bytes) < pow256(bytes.len()),
        be_bytes(be_number(bytes), bytes.len()) == bytes,
    decreases bytes.len(),
{
    if bytes.len() > 0 {
        lemma_be_number_bytes(bytes.drop_last());
        let number = be_number(bytes);
        assert(number / 256 == be_number(bytes.drop_last()));
        assert(number % 256 == bytes.last() as nat);
        assert(be_bytes(number, bytes.len()) =~= bytes);
    } else {
        assert(be_bytes(be_number(bytes), bytes.len()) =~= bytes);
    }
}

pub proof fn lemma_pow256_values()
    ensures
        pow256(4) == 0x1_0000_0000,
        pow256(8) == 0x1_0000_0000_0000_0000,
        pow256(16) == 0x1_0000_0000_0000_0000_0000_0000_0000_0000,
{
    reveal_with_fuel(pow256, 17);
}

/// Appends the lowest `count` bytes of one number, most significant first.
pub fn append_be_bytes(buffer: &mut Vec<u8>, value: u64, count: usize)
    ensures
        final(buffer)@ == old(buffer)@ + be_bytes(value as nat, count as nat),
    decreases count,
{
    if count > 0 {
        append_be_bytes(buffer, value / 256, count - 1);
        buffer.push((value % 256) as u8);
    }
    assert(buffer@ =~= old(buffer)@ + be_bytes(value as nat, count as nat));
}

/// Reads sixteen big-endian bytes that start at `from`.
pub fn be_number_128(bytes: &[u8], from: usize) -> (number: u128)
    requires
        from + 16 <= bytes@.len(),
    ensures
        number as nat == be_number(bytes@.subrange(from as int, from + 16)),
{
    proof {
        lemma_pow256_values();
    }
    let length: usize = bytes.len();
    let mut number: u128 = 0;
    let mut i: usize = 0;
    while i < 16
        invariant
            length == bytes@.len(),
            from + 16 <= length,
            i <= 16,
            number as nat == be_number(bytes@.subrange(from as int, from + i)),
            number < pow256(i as nat),
            pow256(16) == 0x1_0000_0000_0000_0000_0000_0000_0000_0000,
        decreases 16 - i,
    {
        proof {
            let longer = bytes@.subrange(from as int, from + i + 1);
            assert(longer.drop_last() =~= bytes@.subrange(from as int, from + i));
            assert(longer.last() == bytes@[from + i]);
            lemma_pow256_monotonic((i + 1) as nat, 16);
        }
        number = number * 256 + bytes[from + i] as u128;
        i += 1;
    }
    number
}

/// Reads four big-endian bytes.
pub fn be_number_32(bytes: &[u8]) -> (number: u32)
    requires
        bytes@.len() == 4,
    ensures
        number as nat == be_number(bytes@),
{
    proof {
        reveal_with_fuel(be_number, 5);
        let b = bytes@;
        assert(b.drop_last().drop_last().drop_last().drop_last().len() == 0);
        assert(b.drop_last().last() == b[2]);
        assert(b.drop_last().drop_last().last() == b[1]);
        assert(b.drop_last().drop_last().drop_last().last() == b[0]);
    }
    let a: u32 = bytes[0] as u32;
    let b: u32 = bytes[1] as u32;
    let c: u32 = bytes[2] as u32;
    let d: u32 = bytes[3] as u32;
    ((a * 256 + b) * 256 + c) * 256 + d
}

pub proof fn lemma_pow256_monotonic(low: nat, high: nat)
    requires
        low <= high,
    ensures
        0 < pow256(low) <= pow256(high),
    decreases high,
{
    if low < high {
        lemma_pow256_monotonic(low, (high - 1) as nat);
    } else if high > 0 {
        lemma_pow256_monotonic((low - 1) as nat, (high - 1) as nat);
    }
}

} // verus!
