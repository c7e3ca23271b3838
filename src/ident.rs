//! Identifiers for credential entries: random 128-bit values written in the
//! hyphenated 8-4-4-4-12 lowercase hexadecimal form, version 4 (random),
//! with the variant bits of the RFC 4122 layout.
use vstd::prelude::*;

verus! {

/// Length of an identifier in its hyphenated form.
pub const ID_LEN: usize = 36;

/// A lowercase hexadecimal digit.
pub open spec fn is_lower_hex(c: char) -> bool {
    ('0' <= c && c <= '9') || ('a' <= c && c <= 'f')
}

/// Positions of the four group separators.
pub open spec fn is_hyphen_pos(i: int) -> bool {
    i == 8 || i == 13 || i == 18 || i == 23
}

/// The canonical form: 36 characters, hyphens between the groups, lowercase
/// hex digits elsewhere, the version digit `4`, and the variant digit one of
/// `8`, `9`, `a`, `b` (its two high bits are `10`).
pub open spec fn is_canonical_id(s: Seq<char>) -> bool {
    &&& s.len() == 36
    &&& forall|i: int|
        0 <= i < 36 ==> if is_hyphen_pos(i) {
            s[i] == '-'
        } else {
            is_lower_hex(s[i])
        }
    &&& s[14] == '4'
    &&& (s[19] == '8' || s[19] == '9' || s[19] == 'a' || s[19] == 'b')
}

/// Why an identifier or a timestamp could not be made.
#[derive(Clone, Copy, Debug, PartialEq, Eq, Structural)]
pub enum GenerationError {
    /// The operating system's random source failed.
    Entropy,
    /// The system clock could not be read as a time after the Unix epoch.
    Clock,
}

/// Relies on `getrandom::fill`, which fills the buffer from the operating
/// system's cryptographically secure random source and returns an error,
/// mapped here to `None`, when that source fails.
#[verifier::external_body]
fn os_random_bytes() -> (r: Option<[u8; 16]>)
{
    let mut b = [0u8; 16];
    match getrandom::fill(&mut b) {
        Ok(()) => Some(b),
        Err(_) => None,
    }
}

/// The lowercase hexadecimal digit of `n`, for `n` below 16.
pub open spec fn hex_digit(n: u8) -> char {
    match n {
        0 => '0',
        1 => '1',
        2 => '2',
        3 => '3',
        4 => '4',
        5 => '5',
        6 => '6',
        7 => '7',
        8 => '8',
        9 => '9',
        10 => 'a',
        11 => 'b',
        12 => 'c',
        13 => 'd',
        14 => 'e',
        _ => 'f',
    }
}

/// The bytes with the version nibble of byte 6 set to 4 and the two high
/// bits of byte 8 set to `10`.
pub open spec fn versioned_bytes(b: Seq<u8>) -> Seq<u8> {
    b.update(6, (b[6] & 0x0f) | 0x40).update(8, (b[8] & 0x3f) | 0x80)
}

/// Which of the 32 hex digits stands at position `i` of the hyphenated form.
pub open spec fn hex_index(i: int) -> int {
    if i < 8 {
        i
    } else if i < 13 {
        i - 1
    } else if i < 18 {
        i - 2
    } else if i < 23 {
        i - 3
    } else {
        i - 4
    }
}

/// Hex digit `k` of `b`: the high nibble of byte `k / 2` for even `k`, the
/// low nibble for odd `k`.
pub open spec fn hex_char(b: Seq<u8>, k: int) -> char {
    if k % 2 == 0 {
        hex_digit(b[k / 2] >> 4)
    } else {
        hex_digit(b[k / 2] & 0x0f)
    }
}

/// The identifier made from 16 random bytes: the version-4 bytes in
/// lowercase hex, hyphens after the 8th, 12th, 16th and 20th digit.
pub open spec fn uuid_text(b: Seq<u8>) -> Seq<char> {
    Seq::new(
        36,
        |i: int|
            if is_hyphen_pos(i) {
                '-'
            } else {
                hex_char(versioned_bytes(b), hex_index(i))
            },
    )
}

/// Relies on `uuid::Builder::from_random_bytes`, which keeps the bytes but
/// sets byte 6 to `(b & 0x0f) | 0x40` and byte 8 to `(b & 0x3f) | 0x80`, and
/// on the `Display` impl of `uuid::Uuid`, which writes the bytes in order as
/// lowercase hex in groups of 8, 4, 4, 4 and 12 digits joined by hyphens.
#[verifier::external_body]
fn uuid_text_of(bytes: [u8; 16]) -> (r: String)
    ensures
        r@ == uuid_text(bytes@),
{
    uuid::Builder::from_random_bytes(bytes).into_uuid().to_string()
}

proof fn lemma_nibbles(x: u8)
    ensures
        x >> 4 < 16,
        x & 0x0f < 16,
        ((x & 0x0f) | 0x40) >> 4 == 4,
        8 <= ((x & 0x3f) | 0x80) >> 4 <= 11,
{
    assert(x >> 4 < 16) by (bit_vector);
    assert(x & 0x0f < 16) by (bit_vector);
    assert(((x & 0x0f) | 0x40) >> 4 == 4) by (bit_vector);
    assert(8 <= ((x & 0x3f) | 0x80) >> 4 <= 11) by (bit_vector);
}

/// The identifier made from the given random bytes; it is in canonical form.
pub fn id_from_bytes(bytes: [u8; 16]) -> (r: String)
    ensures
        r@ == uuid_text(bytes@),
        is_canonical_id(r@),
{
    let r = uuid_text_of(bytes);
    proof {
        let b = versioned_bytes(bytes@);
        assert(b.len() == 16);
        assert forall|i: int| 0 <= i < 36 implies if is_hyphen_pos(i) {
            r@[i] == '-'
        } else {
            is_lower_hex(r@[i])
        } by {
            if !is_hyphen_pos(i) {
                let k = hex_index(i);
                lemma_nibbles(b[k / 2]);
            }
        }
        lemma_nibbles(bytes@[6]);
        lemma_nibbles(bytes@[8]);
        assert(r@[14] == hex_digit(b[6] >> 4));
        assert(r@[19] == hex_digit(b[8] >> 4));
    }
    r
}

/// A fresh random identifier in canonical form, drawn from the operating
/// system's secure random source; fails only when that source fails.
pub fn generate_id() -> (r: Result<String, GenerationError>)
    ensures
        r matches Ok(s) ==> is_canonical_id(s@),
        r matches Err(e) ==> e == GenerationError::Entropy,
{
    match os_random_bytes() {
        Some(bytes) => Ok(id_from_bytes(bytes)),
        None => Err(GenerationError::Entropy),
    }
}

fn char_is_lower_hex(c: char) -> (r: bool)
    ensures
        r == is_lower_hex(c),
{
    ('0' <= c && c <= '9') || ('a' <= c && c <= 'f')
}

/// Whether `s` is an identifier in canonical form.
pub fn is_canonical_id_text(s: &str) -> (r: bool)
    ensures
        r == is_canonical_id(s@),
{
    if s.unicode_len() != ID_LEN {
        return false;
    }
    let mut i: usize = 0;
    while i < ID_LEN
        invariant
            s@.len() == 36,
            i <= 36,
            forall|j: int|
                0 <= j < i ==> if is_hyphen_pos(j) {
                    s@[j] == '-'
                } else {
                    is_lower_hex(s@[j])
                },
        decreases 36 - i,
    {
        let c = s.get_char(i);
        let ok = if i == 8 || i == 13 || i == 18 || i == 23 {
            c == '-'
        } else {
            char_is_lower_hex(c)
        };
        if !ok {
            return false;
        }
        i = i + 1;
    }
    let v = s.get_char(19);
    s.get_char(14) == '4' && (v == '8' || v == '9' || v == 'a' || v == 'b')
}

} // verus!
