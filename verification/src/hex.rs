//! Digests written as 32 hexadecimal digits.

use vstd::prelude::*;

verus! {

/// Whether the byte is an ASCII hexadecimal digit: `0` to `9`, `a` to `f`
/// or `A` to `F`.
pub open spec fn is_hex_digit(b: u8) -> bool {
    (0x30 <= b <= 0x39) || (0x61 <= b <= 0x66) || (0x41 <= b <= 0x46)
}

/// The number that a hexadecimal digit stands for.
pub open spec fn hex_value(b: u8) -> int {
    if b <= 0x39 {
        b - 0x30
    } else if b >= 0x61 {
        b - 0x61 + 10
    } else {
        b - 0x41 + 10
    }
}

/// The lower-case hexadecimal digit for a number below 16.
pub open spec fn hex_digit(n: int) -> u8 {
    if n < 10 {
        (0x30 + n) as u8
    } else {
        (0x61 + n - 10) as u8
    }
}

/// Whether the text is a digest in hexadecimal: exactly 32 digits.
pub open spec fn is_hex_digest(text: Seq<u8>) -> bool {
    text.len() == 32 && forall|i: int| 0 <= i < 32 ==> is_hex_digit(#[trigger] text[i])
}

/// The 16 bytes that 32 hexadecimal digits spell, two digits to a byte with
/// the high half first.
pub open spec fn hex_digest(text: Seq<u8>) -> Seq<u8> {
    Seq::new(16, |i: int| (16 * hex_value(text[2 * i]) + hex_value(text[2 * i + 1])) as u8)
}

/// The bytes in lower-case hexadecimal, two digits to a byte with the high
/// half first.
pub open spec fn lower_hex(bytes: Seq<u8>) -> Seq<u8> {
    Seq::new(
        2 * bytes.len(),
        |i: int|
            if i % 2 == 0 {
                hex_digit(bytes[i / 2] as int / 16)
            } else {
                hex_digit(bytes[i / 2] as int % 16)
            },
    )
}

/// Writing a digest in hexadecimal and reading it back gives the digest.
pub proof fn lemma_hex_round_trip(digest: Seq<u8>)
    requires
        digest.len() == 16,
    ensures
        is_hex_digest(lower_hex(digest)),
        hex_digest(lower_hex(digest)) == digest,
{
    let text = lower_hex(digest);
    assert forall|i: int| 0 <= i < 32 implies is_hex_digit(#[trigger] text[i]) by {
        let b = digest[i / 2];
        assert(0 <= b as int / 16 < 16 && 0 <= b as int % 16 < 16);
    }
    assert forall|i: int| 0 <= i < 16 implies hex_digest(text)[i] == digest[i] by {
        let b = digest[i];
        assert((2 * i) / 2 == i && (2 * i + 1) / 2 == i);
        assert(text[2 * i] == hex_digit(b as int / 16));
        assert(text[2 * i + 1] == hex_digit(b as int % 16));
        assert(hex_value(hex_digit(b as int / 16)) == b as int / 16);
        assert(hex_value(hex_digit(b as int % 16)) == b as int % 16);
    }
    assert(hex_digest(text) =~= digest);
}

/// The value of a hexadecimal digit, or `None` for any other byte.
pub fn digit_value(b: u8) -> (value: Option<u8>)
    ensures
        value is Some <==> is_hex_digit(b),
        value matches Some(v) ==> v == hex_value(b) && v < 16,
{
    if 0x30 <= b && b <= 0x39 {
        Some(b - 0x30)
    } else if 0x61 <= b && b <= 0x66 {
        Some(b - 0x61 + 10)
    } else if 0x41 <= b && b <= 0x46 {
        Some(b - 0x41 + 10)
    } else {
        None
    }
}

/// Reads a digest written as 32 hexadecimal digits, in either case. Any
/// other text is not a digest.
pub fn parse_hex_digest(text: &[u8]) -> (digest: Option<[u8; 16]>)
    ensures
        digest is Some <==> is_hex_digest(text@),
        digest matches Some(d) ==> d@ == hex_digest(text@),
{
    if text.len() != 32 {
        return None;
    }
    let mut digest = [0u8; 16];
    let mut i: usize = 0;
    while i < 16
        invariant
            text@.len() == 32,
            i <= 16,
            forall|j: int| 0 <= j < 2 * i ==> is_hex_digit(#[trigger] text@[j]),
            forall|j: int| 0 <= j < i ==> digest@[j] == hex_digest(text@)[j],
        decreases 16 - i,
    {
        let high = digit_value(text[2 * i]);
        let low = digit_value(text[2 * i + 1]);
        match (high, low) {
            (Some(h), Some(l)) => {
                digest[i] = 16 * h + l;
            },
            _ => {
                return None;
            },
        }
        i += 1;
    }
    assert(digest@ =~= hex_digest(text@));
    Some(digest)
}

/// Writes bytes in lower-case hexadecimal.
pub fn to_lower_hex(bytes: &[u8]) -> (text: Vec<u8>)
    ensures
        text@ == lower_hex(bytes@),
{
    let mut text: Vec<u8> = Vec::new();
    let mut i: usize = 0;
    while i < bytes.len()
        invariant
            i <= bytes@.len(),
            text@ == lower_hex(bytes@).subrange(0, 2 * i),
        decreases bytes@.len() - i,
    {
        let b = bytes[i];
        text.push(digit_of(b / 16));
        text.push(digit_of(b % 16));
        assert((2 * i) / 2 == i && (2 * i + 1) / 2 == i);
        assert(text@ =~= lower_hex(bytes@).subrange(0, 2 * (i + 1)));
        i += 1;
    }
    assert(text@ =~= lower_hex(bytes@));
    text
}

/// The lower-case hexadecimal digit for a number below 16.
pub fn digit_of(n: u8) -> (digit: u8)
    requires
        n < 16,
    ensures
        digit == hex_digit(n as int),
{
    if n < 10 {
        0x30 + n
    } else {
        0x61 + (n - 10)
    }
}

} // verus!
