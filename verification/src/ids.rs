//! Random identifiers for sessions, transfers and edit sessions: version 4
//! UUIDs built from 16 random bytes, in their hyphenated text form.

use vstd::prelude::*;
use crate::names::is_unsafe_name;

verus! {

/// A lowercase hexadecimal digit.
pub open spec fn is_lower_hex(c: char) -> bool {
    ('0' <= c && c <= '9') || ('a' <= c && c <= 'f')
}

/// The positions of the hyphens in a hyphenated UUID.
pub open spec fn is_hyphen_position(i: int) -> bool {
    i == 8 || i == 13 || i == 18 || i == 23
}

/// The hyphenated lowercase text of a random (version 4, RFC 4122 variant)
/// UUID, such as `67e55044-10b1-426f-9247-bb680e5fe0c8`.
pub open spec fn is_uuid_v4_text(s: Seq<char>) -> bool {
    &&& s.len() == 36
    &&& forall|i: int|
        0 <= i < 36 ==> if is_hyphen_position(i) {
            #[trigger] s[i] == '-'
        } else {
            is_lower_hex(s[i])
        }
    &&& s[14] == '4'
    &&& (s[19] == '8' || s[19] == '9' || s[19] == 'a' || s[19] == 'b')
}

/// Byte `i` of the UUID built from the random bytes `b`: the version (4) is
/// set in the high nibble of byte 6 and the RFC 4122 variant in the two top
/// bits of byte 8.
pub open spec fn v4_byte(b: Seq<u8>, i: int) -> u8 {
    if i == 6 {
        (b[6] & 0x0f) | 0x40
    } else if i == 8 {
        (b[8] & 0x3f) | 0x80
    } else {
        b[i]
    }
}

/// The lowercase hexadecimal digit of a nibble.
pub open spec fn hex_char(n: u8) -> char {
    if n == 0 { '0' } else if n == 1 { '1' } else if n == 2 { '2' } else if n == 3 { '3' }
    else if n == 4 { '4' } else if n == 5 { '5' } else if n == 6 { '6' } else if n == 7 { '7' }
    else if n == 8 { '8' } else if n == 9 { '9' } else if n == 10 { 'a' } else if n == 11 { 'b' }
    else if n == 12 { 'c' } else if n == 13 { 'd' } else if n == 14 { 'e' } else { 'f' }
}

/// Which of the 32 hex digits stands at text position `j` (not a hyphen).
pub open spec fn digit_index(j: int) -> int {
    if j < 8 {
        j
    } else if j < 13 {
        j - 1
    } else if j < 18 {
        j - 2
    } else if j < 23 {
        j - 3
    } else {
        j - 4
    }
}

/// Hex digit `k` of the UUID built from `b`: the high nibble of byte `k / 2`
/// for even `k`, the low nibble for odd `k`.
pub open spec fn uuid_nibble(b: Seq<u8>, k: int) -> u8 {
    let byte = v4_byte(b, k / 2);
    if k % 2 == 0 {
        byte >> 4
    } else {
        byte & 0x0f
    }
}

/// The hyphenated lowercase text of the version 4 UUID built from the random
/// bytes `b`.
pub open spec fn uuid_v4_text(b: Seq<u8>) -> Seq<char> {
    Seq::new(
        36,
        |j: int|
            if is_hyphen_position(j) {
                '-'
            } else {
                hex_char(uuid_nibble(b, digit_index(j)))
            },
    )
}

proof fn lemma_nibbles(x: u8)
    ensures
        x >> 4 < 16,
        x & 0x0f < 16,
        ((x & 0x0f) | 0x40) >> 4 == 4,
        8 <= ((x & 0x3f) | 0x80) >> 4 <= 11,
{
    assert(x >> 4 < 16) by (bit_vector);
    assert(x & 0x0f < 16) by (bit_vector);
    assert(((x & 0x0f) | 0x40) >> 4 == 4) by (bit_vector);
    assert(8 <= ((x & 0x3f) | 0x80) >> 4 <= 11) by (bit_vector);
}

/// The text of a UUID built from any 16 bytes has the version 4 shape.
pub proof fn lemma_uuid_v4_text_shape(b: Seq<u8>)
    requires
        b.len() == 16,
    ensures
        is_uuid_v4_text(uuid_v4_text(b)),
{
    let s = uuid_v4_text(b);
    assert forall|i: int| 0 <= i < 36 implies if is_hyphen_position(i) {
        #[trigger] s[i] == '-'
    } else {
        is_lower_hex(s[i])
    } by {
        if !is_hyphen_position(i) {
            let k = digit_index(i);
            lemma_nibbles(b[k / 2]);
            lemma_nibbles(v4_byte(b, k / 2));
            assert(uuid_nibble(b, k) < 16);
        }
    }
    lemma_nibbles(b[6]);
    lemma_nibbles(b[8]);
    assert(uuid_nibble(b, 12) == 4);
    assert(8 <= uuid_nibble(b, 16) <= 11);
}

/// Calls `uuid::Builder::from_random_bytes`, `into_uuid` and renders the
/// UUID with `to_string`.
///
/// The contract claims what the crate's source shows: the builder keeps the
/// bytes but sets byte 6 to `(b[6] & 0x0f) | 0x40` and byte 8 to
/// `(b[8] & 0x3f) | 0x80`, and the rendering is the hyphenated lowercase
/// hexadecimal form, two digits per byte, high nibble first.
#[verifier::external_body]
fn uuid_text_from_bytes(random: [u8; 16]) -> (r: String)
    ensures
        r@ == uuid_v4_text(random@),
{
    uuid::Builder::from_random_bytes(random).into_uuid().to_string()
}

/// The identifier (version 4 UUID text) built from 16 random bytes.
pub fn new_id(random: [u8; 16]) -> (r: String)
    ensures
        r@ == uuid_v4_text(random@),
        is_uuid_v4_text(r@),
{
    proof {
        broadcast use vstd::array::array_len_matches_n;
        assert(random@.len() == 16);
        lemma_uuid_v4_text_shape(random@);
    }
    uuid_text_from_bytes(random)
}

/// An identifier in UUID form is a safe single path segment: it is not
/// empty, `.` or `..`, and holds no `/` or `\`, so a directory named after
/// it stays inside its parent.
pub proof fn lemma_uuid_text_is_safe_name(s: Seq<char>)
    requires
        is_uuid_v4_text(s),
    ensures
        !is_unsafe_name(s),
{
    assert(s[0] != '.' || s.len() != 1);
    if s.contains('/') {
        let i = choose|i: int| 0 <= i < s.len() && s[i] == '/';
        assert(is_hyphen_position(i) ==> s[i] == '-');
    }
    if s.contains('\\') {
        let i = choose|i: int| 0 <= i < s.len() && s[i] == '\\';
        assert(is_hyphen_position(i) ==> s[i] == '-');
    }
}

} // verus!
