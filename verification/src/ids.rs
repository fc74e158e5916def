//! Fresh identifiers: version-4 UUIDs made from random bytes that the
//! caller draws.

use vstd::prelude::*;
use crate::audit::{hex_digit, lower_hex, lemma_lower_hex_digits, lemma_lower_hex_len};
use crate::commands::uuid_parses;

verus! {

/// The bytes of a version-4 UUID made from `b`: the version nibble of byte 6
/// set to 4 and the two variant bits of byte 8 set to `10`.
pub open spec fn v4_bytes(b: Seq<u8>) -> Seq<u8> {
    b.update(6, (b[6] & 0x0f) | 0x40).update(8, (b[8] & 0x3f) | 0x80)
}

/// Thirty-two hex digits in the hyphenated 8-4-4-4-12 grouping.
pub open spec fn hyphenate(h: Seq<char>) -> Seq<char> {
    h.subrange(0, 8) + seq!['-'] + h.subrange(8, 12) + seq!['-'] + h.subrange(12, 16) + seq!['-']
        + h.subrange(16, 20) + seq!['-'] + h.subrange(20, 32)
}

/// The hyphenated lowercase text of the version-4 UUID made from `b`.
pub open spec fn uuid_v4_text(b: Seq<u8>) -> Seq<char> {
    hyphenate(lower_hex(v4_bytes(b)))
}

/// Text in the hyphenated UUID form: 36 characters, hyphens at 8, 13, 18
/// and 23, lowercase hex digits elsewhere.
pub open spec fn hyphenated_hex(s: Seq<char>) -> bool {
    &&& s.len() == 36
    &&& forall|i: int|
        0 <= i < 36 ==> (if i == 8 || i == 13 || i == 18 || i == 23 {
            #[trigger] s[i] == '-'
        } else {
            ('0' <= s[i] <= '9') || ('a' <= s[i] <= 'f')
        })
}

/// Wrapper of `Builder::from_random_bytes(..).into_uuid()` followed by
/// `to_string`: the builder sets the version and variant bits of the given
/// bytes, and `Display` writes the UUID in lowercase hyphenated form.  Text
/// in that form is what `Uuid::parse_str` accepts, so the result parses.
#[verifier::external_body]
fn uuid_v4_from_bytes(random: [u8; 16]) -> (r: String)
    ensures
        r@ == uuid_v4_text(random@),
        uuid_parses(r@),
{
    uuid::Builder::from_random_bytes(random).into_uuid().to_string()
}

proof fn lemma_lower_hex_index(b: Seq<u8>, k: int)
    requires
        0 <= k < b.len(),
    ensures
        lower_hex(b)[2 * k] == hex_digit(b[k] as int / 16),
        lower_hex(b)[2 * k + 1] == hex_digit(b[k] as int % 16),
    decreases b.len(),
{
    lemma_lower_hex_len(b.drop_last());
    if k < b.len() - 1 {
        lemma_lower_hex_index(b.drop_last(), k);
    }
}

/// A version-4 UUID made from sixteen random bytes, as
/// `Uuid::new_v4().to_string()` makes one from the operating system's.
pub fn new_uuid_v4(random: [u8; 16]) -> (r: String)
    ensures
        r@ == uuid_v4_text(random@),
        hyphenated_hex(r@),
        r@[14] == '4',
        r@[19] == '8' || r@[19] == '9' || r@[19] == 'a' || r@[19] == 'b',
        uuid_parses(r@),
{
    let r = uuid_v4_from_bytes(random);
    proof {
        let b = v4_bytes(random@);
        let h = lower_hex(b);
        lemma_lower_hex_len(b);
        lemma_lower_hex_digits(b);
        lemma_lower_hex_index(b, 6);
        lemma_lower_hex_index(b, 8);
        let b6 = random@[6];
        let b8 = random@[8];
        assert(((b6 & 0x0f) | 0x40) / 16 == 4) by (bit_vector);
        assert(8 <= ((b8 & 0x3f) | 0x80) / 16 <= 11) by (bit_vector);
        assert(b[6] == (b6 & 0x0f) | 0x40);
        assert(b[8] == (b8 & 0x3f) | 0x80);
        let t = hyphenate(h);
        assert(t.len() == 36);
        assert(t[14] == h[12]);
        assert(t[19] == h[16]);
        assert forall|i: int| 0 <= i < 36 implies (if i == 8 || i == 13 || i == 18 || i == 23 {
            #[trigger] t[i] == '-'
        } else {
            ('0' <= t[i] <= '9') || ('a' <= t[i] <= 'f')
        }) by {
            if i < 8 {
                assert(t[i] == h[i]);
            } else if 8 < i < 13 {
                assert(t[i] == h[i - 1]);
            } else if 13 < i < 18 {
                assert(t[i] == h[i - 2]);
            } else if 18 < i < 23 {
                assert(t[i] == h[i - 3]);
            } else if 23 < i {
                assert(t[i] == h[i - 4]);
            }
        }
    }
    r
}

} // verus!
