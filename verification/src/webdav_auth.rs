//! HTTP Basic credentials of WebDAV clients.
use vstd::prelude::*;
use vstd::utf8::*;
use base64::Engine;
use crate::bytes::{find_chars_in, find_in, lemma_find_in};
use crate::subtitle::utf8_to_string;
use crate::text::{starts_with, starts_with_chars, str_chars, string_from_chars, sub_chars, trim, trim_chars};

verus! {

/// Who a WebDAV request was authenticated as; carried through the request's handling.
#[derive(Clone, Copy, Debug)]
pub struct WebDavCredentials {
    pub user_id: i64,
}

/// The standard base64 alphabet (RFC 4648 §4).
pub open spec fn b64_char(v: int) -> char {
    if v < 26 {
        (65 + v) as char
    } else if v < 52 {
        (97 + v - 26) as char
    } else if v < 62 {
        (48 + v - 52) as char
    } else if v == 62 {
        '+'
    } else {
        '/'
    }
}

/// Standard base64 with `=` padding.
pub open spec fn b64_std(b: Seq<u8>) -> Seq<char>
    decreases b.len(),
{
    if b.len() == 0 {
        Seq::<char>::empty()
    } else if b.len() == 1 {
        seq![b64_char(b[0] as int / 4), b64_char((b[0] as int % 4) * 16), '=', '=']
    } else if b.len() == 2 {
        seq![
            b64_char(b[0] as int / 4),
            b64_char((b[0] as int % 4) * 16 + b[1] as int / 16),
            b64_char((b[1] as int % 16) * 4),
            '=',
        ]
    } else {
        seq![
            b64_char(b[0] as int / 4),
            b64_char((b[0] as int % 4) * 16 + b[1] as int / 16),
            b64_char((b[1] as int % 16) * 4 + b[2] as int / 64),
            b64_char(b[2] as int % 64),
        ] + b64_std(b.subrange(3, b.len() as int))
    }
}


proof fn lemma_b64_char(x: int, y: int)
    requires
        0 <= x < 64,
        0 <= y < 64,
    ensures
        b64_char(x) != '=',
        b64_char(x) == b64_char(y) ==> x == y,
{
    if b64_char(x) == b64_char(y) {
        assert(b64_char(x) as u32 == b64_char(y) as u32);
    }
}

proof fn lemma_b64_std_len(b: Seq<u8>)
    ensures
        b64_std(b).len() == 4 * ((b.len() + 2) / 3),
        b.len() > 0 ==> b64_std(b).len() >= 4,
    decreases b.len(),
{
    if b.len() >= 3 {
        lemma_b64_std_len(b.subrange(3, b.len() as int));
    }
}

proof fn lemma_b64_group(x0: int, x1: int, x2: int, y0: int, y1: int, y2: int)
    requires
        0 <= x0 < 256,
        0 <= x1 < 256,
        0 <= x2 < 256,
        0 <= y0 < 256,
        0 <= y1 < 256,
        0 <= y2 < 256,
        x0 / 4 == y0 / 4,
        (x0 % 4) * 16 + x1 / 16 == (y0 % 4) * 16 + y1 / 16,
        (x1 % 16) * 4 + x2 / 64 == (y1 % 16) * 4 + y2 / 64,
        x2 % 64 == y2 % 64,
    ensures
        x0 == y0 && x1 == y1 && x2 == y2,
{
}

/// Different bytes have different standard base64 encodings.
proof fn lemma_b64_std_injective(a: Seq<u8>, b: Seq<u8>)
    requires
        b64_std(a) == b64_std(b),
    ensures
        a == b,
    decreases a.len(),
{
    lemma_b64_std_len(a);
    lemma_b64_std_len(b);
    let ea = b64_std(a);
    if a.len() == 0 {
        assert(b.len() == 0);
        assert(a =~= b);
        return;
    }
    assert(b.len() > 0);
    let a0 = a[0] as int;
    let b0 = b[0] as int;
    lemma_b64_char(a0 / 4, b0 / 4);
    if a.len() < 3 || b.len() < 3 {
        // four characters in all, so one group on both sides
        assert(a.len() <= 3 && b.len() <= 3);
        if a.len() == 1 {
            lemma_b64_char((a0 % 4) * 16, 0);
            if b.len() == 2 {
                lemma_b64_char((b0 % 4) * 16 + b[1] as int / 16, 0);
                lemma_b64_char((b[1] as int % 16) * 4, 0);
                assert(ea[2] == '=');
            } else if b.len() >= 3 {
                lemma_b64_char((b[1] as int % 16) * 4 + b[2] as int / 64, 0);
                assert(ea[2] == '=');
            } else {
                lemma_b64_char((a0 % 4) * 16, (b0 % 4) * 16);
                lemma_b64_group(a0, 0, 0, b0, 0, 0);
            }
        } else if a.len() == 2 {
            let a1 = a[1] as int;
            lemma_b64_char((a1 % 16) * 4, 0);
            if b.len() == 1 {
                lemma_b64_char((b0 % 4) * 16, 0);
                assert(ea[2] == b64_char((a1 % 16) * 4));
            } else if b.len() >= 3 {
                lemma_b64_char(b[2] as int % 64, 0);
                assert(ea[3] == '=');
            } else {
                let b1 = b[1] as int;
                lemma_b64_char((a0 % 4) * 16 + a1 / 16, (b0 % 4) * 16 + b1 / 16);
                lemma_b64_char((a1 % 16) * 4, (b1 % 16) * 4);
                lemma_b64_group(a0, a1, 0, b0, b1, 0);
            }
        } else {
            lemma_b64_char(a[2] as int % 64, 0);
            if b.len() == 1 {
                assert(ea[3] == '=');
            } else {
                assert(ea[3] == '=');
            }
        }
        assert(a =~= b);
        return;
    }
    let a1 = a[1] as int;
    let a2 = a[2] as int;
    let b1 = b[1] as int;
    let b2 = b[2] as int;
    let eb = b64_std(b);
    assert(ea[0] == b64_char(a0 / 4) && eb[0] == b64_char(b0 / 4));
    assert(ea[1] == b64_char((a0 % 4) * 16 + a1 / 16) && eb[1] == b64_char((b0 % 4) * 16 + b1 / 16));
    assert(ea[2] == b64_char((a1 % 16) * 4 + a2 / 64) && eb[2] == b64_char((b1 % 16) * 4 + b2 / 64));
    assert(ea[3] == b64_char(a2 % 64) && eb[3] == b64_char(b2 % 64));
    lemma_b64_char((a0 % 4) * 16 + a1 / 16, (b0 % 4) * 16 + b1 / 16);
    lemma_b64_char((a1 % 16) * 4 + a2 / 64, (b1 % 16) * 4 + b2 / 64);
    lemma_b64_char(a2 % 64, b2 % 64);
    lemma_b64_group(a0, a1, a2, b0, b1, b2);
    let ra = a.subrange(3, a.len() as int);
    let rb = b.subrange(3, b.len() as int);
    assert(b64_std(ra) =~= ea.subrange(4, ea.len() as int));
    assert(b64_std(rb) =~= ea.subrange(4, ea.len() as int));
    lemma_b64_std_injective(ra, rb);
    assert(a.len() == b.len());
    assert forall|i: int| 0 <= i < a.len() implies a[i] == b[i] by {
        if i >= 3 {
            assert(a[i] == ra[i - 3]);
            assert(b[i] == rb[i - 3]);
        }
    }
    assert(a =~= b);
}

/// base64 0.22 `general_purpose::STANDARD.decode`: standard alphabet, canonical `=` padding
/// required, no trailing bits, no other characters. It accepts exactly the canonical encodings
/// of byte strings, so the bytes it returns encode to the input, and it fails only where no
/// bytes do.
#[verifier::external_body]
fn base64_std_decode(s: &str) -> (r: Option<Vec<u8>>)
    ensures
        r matches Some(b) ==> b64_std(b@) == s@,
        r is None ==> forall|b: Seq<u8>| b64_std(b) != s@,
{
    base64::engine::general_purpose::STANDARD.decode(s).ok()
}

pub open spec fn basic_prefix() -> Seq<char> {
    seq!['B', 'a', 's', 'i', 'c', ' ']
}

/// The credentials text of a `Basic` header: base64 of UTF-8 `user:password`.
pub open spec fn basic_payload(header: Seq<char>) -> Seq<char> {
    trim(header.skip(6))
}

/// `user:password` split at the first `:`.
pub open spec fn split_credentials(text: Seq<char>) -> Option<(Seq<char>, Seq<char>)> {
    match find_in(text, seq![':'], 0, text.len() as int) {
        None => None,
        Some(i) => Some((text.take(i), text.skip(i + 1))),
    }
}

/// User name and password of an `Authorization: Basic ...` header value.
pub fn parse_basic_auth(header_value: &str) -> (r: Option<(String, String)>)
    ensures
        r matches Some((u, p)) ==> starts_with(header_value@, basic_prefix()) && exists|b: Seq<u8>|
            b64_std(b) == basic_payload(header_value@) && valid_utf8(b) && split_credentials(
                decode_utf8(b),
            ) == Some((u@, p@)),
        r is None ==> !starts_with(header_value@, basic_prefix()) || forall|b: Seq<u8>|
            b64_std(b) == basic_payload(header_value@) ==> !valid_utf8(b) || split_credentials(
                decode_utf8(b),
            ) is None,
{
    let hc = str_chars(header_value);
    let prefix = vec!['B', 'a', 's', 'i', 'c', ' '];
    assert(prefix@ =~= basic_prefix());
    if !starts_with_chars(&hc, &prefix) {
        return None;
    }
    let rest = sub_chars(&hc, 6, hc.len());
    assert(rest@ =~= header_value@.skip(6));
    let enc = trim_chars(&rest);
    let enc_s = string_from_chars(&enc);
    let decoded = match base64_std_decode(enc_s.as_str()) {
        None => {
            return None;
        },
        Some(b) => b,
    };
    proof {
        assert forall|b: Seq<u8>| b64_std(b) == basic_payload(header_value@) implies b == decoded@ by {
            lemma_b64_std_injective(b, decoded@);
        }
    }
    let text = match utf8_to_string(decoded.as_slice()) {
        Err(_) => {
            return None;
        },
        Ok(t) => t,
    };
    let tc = str_chars(text.as_str());
    let colon = vec![':'];
    assert(colon@ =~= seq![':']);
    match find_chars_in(&tc, &colon, 0, tc.len()) {
        None => None,
        Some(i) => {
            proof { lemma_find_in(tc@, colon@, 0, tc@.len() as int); }
            let u = sub_chars(&tc, 0, i);
            let p = sub_chars(&tc, i + 1, tc.len());
            assert(u@ =~= tc@.take(i as int));
            assert(p@ =~= tc@.skip(i + 1));
            Some((string_from_chars(&u), string_from_chars(&p)))
        },
    }
}

} // verus!
