//! Fresh identifiers and the current time, from the outside world.
use vstd::prelude::*;
use vstd::utf8::*;
use crate::crypto::is_lower_hex;
use crate::storage::shard_cut_panics;
use crate::auth::{format_rfc3339, four_digit_years_end, rfc3339_instant, rfc3339_of, utc_now};

verus! {

broadcast use vstd::utf8::group_utf8_lib;

/// Text of a random (version 4, RFC 4122 variant) UUID as uuid writes it: 36 characters,
/// lower-case hex digits with `-` at positions 8, 13, 18 and 23, the version digit `4` at
/// position 14 and a variant digit `8`, `9`, `a` or `b` at position 19.
pub open spec fn is_uuid_v4_text(s: Seq<char>) -> bool {
    &&& s.len() == 36
    &&& forall|i: int|
        0 <= i < 36 ==> if i == 8 || i == 13 || i == 18 || i == 23 {
            #[trigger] s[i] == '-'
        } else {
            is_lower_hex(s[i])
        }
    &&& s[14] == '4'
    &&& (s[19] == '8' || s[19] == '9' || s[19] == 'a' || s[19] == 'b')
}

/// `uuid::Uuid::new_v4().to_string()`: random bits with the version nibble set to 4 and the
/// variant bits to `10` (`& 0x..4FFFBFFF.. | 0x40008000..` in `new_v4`), written by `Display`
/// as the lower-case hyphenated form (`format_hyphenated`). Which UUID comes back is chance.
#[verifier::external_body]
pub(crate) fn uuid_v4_string() -> (r: String)
    ensures
        is_uuid_v4_text(r@),
{
    uuid::Uuid::new_v4().to_string()
}

/// A UUID's text is ASCII, so cutting its first two pairs of bytes never splits a character.
pub proof fn lemma_uuid_shards(s: Seq<char>)
    requires
        is_uuid_v4_text(s),
    ensures
        !shard_cut_panics(s),
{
    assert forall|i: int| 0 <= i < s.len() implies '\0' <= #[trigger] s[i] <= '\u{7f}' by {
        if i == 8 || i == 13 || i == 18 || i == 23 {
            assert(s[i] == '-');
        } else {
            assert(is_lower_hex(s[i]));
        }
    }
    assert(is_ascii_chars(s));
    is_ascii_chars_encode_utf8(s);
    let b = encode_utf8(s);
    assert(s[2] as u8 == b[2]);
    assert(s[4] as u8 == b[4]);
    assert(is_lower_hex(s[2]));
    assert(is_lower_hex(s[4]));
    is_char_boundary_iff_not_is_continuation_byte(b, 2);
    is_char_boundary_iff_not_is_continuation_byte(b, 4);
}

/// A new random identifier for a file, folder, crew or app password: a version-4 UUID, which
/// can always be sharded.
pub fn fresh_id() -> (r: String)
    ensures
        is_uuid_v4_text(r@),
        !shard_cut_panics(r@),
{
    let r = uuid_v4_string();
    proof {
        lemma_uuid_shards(r@);
    }
    r
}

/// The current time, as stored in `created_at`/`updated_at` columns: the RFC 3339 text that
/// chrono writes for the clock's instant, which reads back as that instant while the year has
/// four digits.
pub fn timestamp_now() -> (r: String)
    ensures
        exists|t: (i64, u32)|
            #![trigger rfc3339_of(t.0, t.1)]
            0 <= t.0 && t.1 < 1_000_000_000 && rfc3339_of(t.0, t.1) == Some(r@) && (t.0
                < four_digit_years_end() ==> rfc3339_instant(r@) == Some(t)),
{
    let t = utc_now();
    match format_rfc3339(t.0, t.1) {
        Some(s) => s,
        None => {
            proof {
                assert(rfc3339_of(t.0, t.1) is Some);
            }
            String::new()
        },
    }
}

} // verus!
