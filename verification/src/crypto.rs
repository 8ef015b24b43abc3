//! Password hashing (Argon2id) and session/app-password tokens (random, BLAKE3-hashed).
use vstd::prelude::*;
use vstd::string::*;
use vstd::utf8::encode_utf8;
use crate::text::{
    dec_digits, parse_u64, parse_u64_chars, split_char, split_chars, starts_with, starts_with_chars,
    string_from_chars, str_chars, sub_chars,
};
use argon2::password_hash::{rand_core::OsRng, PasswordHash, PasswordHasher, PasswordVerifier, SaltString};
use base64::Engine;
use rand::RngCore;

verus! {

/// Whether Argon2 (`PasswordHash::new` on the stored PHC text, then `verify_password`, which
/// recomputes the hash with the algorithm, version, costs and salt written in that text)
/// accepts `password`.
pub uninterp spec fn argon2_accepts(password: Seq<char>, phc: Seq<char>) -> bool;

/// The Argon2id cost parameters chosen for a low-power NAS: 19 MiB of memory, two passes, one
/// lane.
pub const ARGON2_M_COST: u32 = 19456;

pub const ARGON2_T_COST: u32 = 2;

pub const ARGON2_P_COST: u32 = 1;

/// Cost parameters that argon2's `Params::new` accepts (`MIN_M_COST` is 8 blocks, at least 8
/// per lane; at least one pass; 1 to `MAX_P_COST` lanes).
pub open spec fn argon2_params_valid(m_cost: u32, t_cost: u32, p_cost: u32) -> bool {
    &&& 8 <= m_cost
    &&& 8 * p_cost <= m_cost
    &&& 1 <= t_cost
    &&& 1 <= p_cost <= 0xFF_FFFF
}

/// The head of an Argon2id (version 0x13) PHC string with these costs, up to the `$` before the
/// salt: `$argon2id$v=19$m=<m>,t=<t>,p=<p>$`.
pub open spec fn phc_prefix(m_cost: u32, t_cost: u32, p_cost: u32) -> Seq<char> {
    seq!['$', 'a', 'r', 'g', 'o', 'n', '2', 'i', 'd', '$', 'v', '=', '1', '9', '$', 'm', '=']
        + dec_digits(m_cost as nat) + seq![',', 't', '='] + dec_digits(t_cost as nat) + seq![
        ',',
        'p',
        '=',
    ] + dec_digits(p_cost as nat) + seq!['$']
}

/// The highest costs a stored hash may ask for before its check is refused unrun: 256 MiB of
/// memory, 16 passes, 16 lanes. Beyond them a check could take unbounded time, or (for lanes
/// from 2^29 on) overflow inside argon2's parameter check.
pub const ARGON2_M_COST_CAP: u32 = 262_144;

pub const ARGON2_T_COST_CAP: u32 = 16;

pub const ARGON2_P_COST_CAP: u32 = 16;

/// Costs within the caps.
pub open spec fn argon2_costs_capped(m_cost: u32, t_cost: u32, p_cost: u32) -> bool {
    m_cost <= ARGON2_M_COST_CAP && t_cost <= ARGON2_T_COST_CAP && p_cost <= ARGON2_P_COST_CAP
}

/// A decimal cost no greater than `cap`.
pub open spec fn cost_within(v: Seq<char>, cap: u32) -> bool {
    parse_u64(v) matches Some(n) && n <= cap
}

/// A `name=value` piece of a PHC text that names the memory (`m`), passes (`t`) or lanes (`p`)
/// gives a decimal within that cost's cap.
pub open spec fn phc_piece_capped(piece: Seq<char>) -> bool {
    &&& starts_with(piece, seq!['m', '=']) ==> cost_within(piece.skip(2), ARGON2_M_COST_CAP)
    &&& starts_with(piece, seq!['t', '=']) ==> cost_within(piece.skip(2), ARGON2_T_COST_CAP)
    &&& starts_with(piece, seq!['p', '=']) ==> cost_within(piece.skip(2), ARGON2_P_COST_CAP)
}

/// Every piece of the PHC text (its `$`-separated fields, each cut at `,`) that sets a cost
/// sets it within the caps. Whichever field the PHC parser takes for the parameters is one of
/// these, and a cost it does not find keeps argon2's default (19456, 2, 1), so a text with
/// this property makes argon2 recompute with capped costs or refuse it.
pub open spec fn phc_costs_capped(phc: Seq<char>) -> bool {
    forall|i: int, j: int|
        0 <= i < split_char(phc, '$').len() && 0 <= j < split_char(split_char(phc, '$')[i], ',').len()
            ==> phc_piece_capped(#[trigger] split_char(split_char(phc, '$')[i], ',')[j])
}

/// A password is accepted by a stored hash whose costs are within the caps and which Argon2
/// accepts it against.
pub open spec fn password_verifies(password: Seq<char>, phc: Seq<char>) -> bool {
    phc_costs_capped(phc) && argon2_accepts(password, phc)
}

fn cost_piece_ok(piece: &Vec<char>, name: char, cap: u32) -> (r: bool)
    ensures
        r == (starts_with(piece@, seq![name, '=']) ==> cost_within(piece@.skip(2), cap)),
{
    let mut head: Vec<char> = Vec::new();
    head.push(name);
    head.push('=');
    assert(head@ =~= seq![name, '=']);
    if !starts_with_chars(piece, &head) {
        return true;
    }
    let v = sub_chars(piece, 2, piece.len());
    assert(v@ =~= piece@.skip(2));
    match parse_u64_chars(&v) {
        Some(n) => n <= cap as u64,
        None => false,
    }
}

/// Whether the costs written in a PHC text are within the caps (see `phc_costs_capped`).
pub fn phc_costs_within_caps(phc: &str) -> (r: bool)
    ensures
        r == phc_costs_capped(phc@),
{
    let c = str_chars(phc);
    let fields = split_chars(&c, '$');
    let ghost fv = split_char(phc@, '$');
    let mut i: usize = 0;
    while i < fields.len()
        invariant
            i <= fields.len(),
            fields@.len() == fv.len(),
            fv == split_char(phc@, '$'),
            forall|k: int| 0 <= k < fields@.len() ==> #[trigger] fields@[k]@ == fv[k],
            forall|a: int, b: int|
                0 <= a < i && 0 <= b < split_char(fv[a], ',').len() ==> phc_piece_capped(
                    #[trigger] split_char(fv[a], ',')[b],
                ),
        decreases fields.len() - i,
    {
        let pieces = split_chars(&fields[i], ',');
        let ghost pv = split_char(fv[i as int], ',');
        let mut j: usize = 0;
        while j < pieces.len()
            invariant
                i < fields.len(),
                j <= pieces.len(),
                fields@.len() == fv.len(),
                fv == split_char(phc@, '$'),
                fields@[i as int]@ == fv[i as int],
                pv == split_char(fv[i as int], ','),
                pieces@.len() == pv.len(),
                forall|k: int| 0 <= k < pieces@.len() ==> #[trigger] pieces@[k]@ == pv[k],
                forall|b: int| 0 <= b < j ==> phc_piece_capped(#[trigger] pv[b]),
            decreases pieces.len() - j,
        {
            let p = &pieces[j];
            let ok = cost_piece_ok(p, 'm', ARGON2_M_COST_CAP) && cost_piece_ok(p, 't', ARGON2_T_COST_CAP)
                && cost_piece_ok(p, 'p', ARGON2_P_COST_CAP);
            if !ok {
                assert(pieces@[j as int]@ == pv[j as int]);
                assert(!phc_piece_capped(split_char(split_char(phc@, '$')[i as int], ',')[j as int]));
                return false;
            }
            j += 1;
        }
        i += 1;
    }
    true
}

/// argon2 0.5: `Argon2::new(Algorithm::Argon2id, Version::V0x13, Params::new(m, t, p, None))`
/// (the parameters are valid, so `Params::new` succeeds), then `hash_password` with a fresh
/// random salt (`SaltString::generate(&mut OsRng)`), as a PHC string; on failure the error's
/// text. The salt is chance, so the text is not named. Stated:
/// - the PHC string is `$argon2id$v=19$`, the costs as `m=..,t=..,p=..` (`ParamsString` writes
///   them in this order, in decimal), `$`, then the salt and the hash;
/// - checking the same password against it accepts it, as the check recomputes the hash from
///   the salt and parameters written into it;
/// - its costs are within the caps: its pieces are `""`, `argon2id`, `v=19`, `m=..`, `t=..`,
///   `p=..` (the given costs, in decimal) and the salt and hash in B64, whose alphabet
///   (`A`-`Z`, `a`-`z`, `0`-`9`, `+`, `/`) has no `=`, so neither begins with a cost's name;
/// - with the default 32-byte output and a 16-byte generated salt, the one input check that
///   can fail is the password's length: it fails exactly where the password has more than
///   `MAX_PWD_LEN` (0xFFFF_FFFF) bytes.
#[verifier::external_body]
fn argon2_hash(m_cost: u32, t_cost: u32, p_cost: u32, password: &str) -> (r: Result<String, String>)
    requires
        argon2_params_valid(m_cost, t_cost, p_cost),
        argon2_costs_capped(m_cost, t_cost, p_cost),
    ensures
        r is Ok <==> encode_utf8(password@).len() <= 0xFFFF_FFFF,
        r matches Ok(h) ==> argon2_accepts(password@, h@),
        r matches Ok(h) ==> phc_costs_capped(h@),
        r matches Ok(h) ==> phc_prefix(m_cost, t_cost, p_cost).is_prefix_of(h@),
{
    let params = argon2::Params::new(m_cost, t_cost, p_cost, None).expect("valid Argon2 parameters");
    let hasher = argon2::Argon2::new(argon2::Algorithm::Argon2id, argon2::Version::V0x13, params);
    let salt = SaltString::generate(&mut OsRng);
    hasher.hash_password(password.as_bytes(), &salt).map(|h| h.to_string()).map_err(|e| e.to_string())
}

/// argon2 0.5: the hasher as in `argon2_hash`; parses `phc` (`PasswordHash::new`; a parse
/// failure rejects) and checks the password against it (`verify_password(..).is_ok()`, which
/// recomputes the hash with the algorithm, version, costs and salt written in `phc`). A PHC
/// string begins with `$`: an empty text, or one that begins otherwise, does not parse.
/// The costs written in `phc` must be within the caps: argon2's `Params::new` computes
/// `p_cost * 8` in `u32` before it bounds `p_cost` (an overflow for 2^29 lanes and more), and
/// the work grows with the memory and passes asked for.
#[verifier::external_body]
fn argon2_verify(m_cost: u32, t_cost: u32, p_cost: u32, password: &str, phc: &str) -> (r: bool)
    requires
        argon2_params_valid(m_cost, t_cost, p_cost),
        phc_costs_capped(phc@),
    ensures
        r == argon2_accepts(password@, phc@),
        phc@.len() == 0 || phc@[0] != '$' ==> !r,
{
    let params = argon2::Params::new(m_cost, t_cost, p_cost, None).expect("valid Argon2 parameters");
    let hasher = argon2::Argon2::new(argon2::Algorithm::Argon2id, argon2::Version::V0x13, params);
    let Ok(parsed) = PasswordHash::new(phc) else {
        return false;
    };
    hasher.verify_password(password.as_bytes(), &parsed).is_ok()
}

/// Hashes a human-entered password into an Argon2id PHC string with the library's costs
/// (`$argon2id$v=19$m=19456,t=2,p=1$` then salt and hash); it fails only on a password of more
/// than 0xFFFF_FFFF bytes.
pub fn hash_password(password: &str) -> (r: Result<String, String>)
    ensures
        r is Ok <==> encode_utf8(password@).len() <= 0xFFFF_FFFF,
        r matches Ok(h) ==> argon2_accepts(password@, h@),
        r matches Ok(h) ==> phc_prefix(ARGON2_M_COST, ARGON2_T_COST, ARGON2_P_COST).is_prefix_of(h@),
        r matches Ok(h) ==> "$argon2id$v=19$m=19456,t=2,p=1$"@.is_prefix_of(h@),
        r matches Ok(h) ==> password_verifies(password@, h@),
{
    proof {
        reveal_strlit("$argon2id$v=19$m=19456,t=2,p=1$");
        reveal_with_fuel(dec_digits, 6);
        assert(phc_prefix(ARGON2_M_COST, ARGON2_T_COST, ARGON2_P_COST)
            =~= "$argon2id$v=19$m=19456,t=2,p=1$"@);
    }
    argon2_hash(ARGON2_M_COST, ARGON2_T_COST, ARGON2_P_COST, password)
}

/// Checks a password against a stored PHC hash. A hash whose costs exceed the caps is refused
/// without running Argon2, and a text that is no PHC string (empty, or not beginning with `$`)
/// accepts no password.
pub fn verify_password(password: &str, phc: &str) -> (r: bool)
    ensures
        r == password_verifies(password@, phc@),
        phc@.len() == 0 || phc@[0] != '$' ==> !r,
{
    if !phc_costs_within_caps(phc) {
        return false;
    }
    argon2_verify(ARGON2_M_COST, ARGON2_T_COST, ARGON2_P_COST, password, phc)
}

// ------------------------------------------------------------------
// tokens

/// `rand_core::OsRng.fill_bytes`: 32 bytes from the operating system's random source
/// (it panics if that source fails). Which bytes come back is chance.
#[verifier::external_body]
fn os_random_bytes() -> (r: [u8; 32]) {
    let mut bytes = [0u8; 32];
    OsRng.fill_bytes(&mut bytes);
    bytes
}

/// The URL-safe base64 alphabet (RFC 4648 §5).
pub open spec fn b64url_char(v: int) -> char {
    if v < 26 {
        (65 + v) as char
    } else if v < 52 {
        (97 + v - 26) as char
    } else if v < 62 {
        (48 + v - 52) as char
    } else if v == 62 {
        '-'
    } else {
        '_'
    }
}

/// Base64 with the URL-safe alphabet and no padding.
pub open spec fn b64url_nopad(b: Seq<u8>) -> Seq<char>
    decreases b.len(),
{
    if b.len() == 0 {
        Seq::<char>::empty()
    } else if b.len() == 1 {
        seq![b64url_char(b[0] as int / 4), b64url_char((b[0] as int % 4) * 16)]
    } else if b.len() == 2 {
        seq![
            b64url_char(b[0] as int / 4),
            b64url_char((b[0] as int % 4) * 16 + b[1] as int / 16),
            b64url_char((b[1] as int % 16) * 4),
        ]
    } else {
        seq![
            b64url_char(b[0] as int / 4),
            b64url_char((b[0] as int % 4) * 16 + b[1] as int / 16),
            b64url_char((b[1] as int % 16) * 4 + b[2] as int / 64),
            b64url_char(b[2] as int % 64),
        ] + b64url_nopad(b.subrange(3, b.len() as int))
    }
}

/// `base64::engine::general_purpose::URL_SAFE_NO_PAD.encode`: RFC 4648 base64 with the
/// URL-safe alphabet and no `=` padding.
#[verifier::external_body]
fn base64_url_nopad_encode(bytes: &[u8]) -> (r: String)
    ensures
        r@ == b64url_nopad(bytes@),
{
    base64::engine::general_purpose::URL_SAFE_NO_PAD.encode(bytes)
}

/// A high-entropy random token for sessions and app passwords: 32 random bytes in
/// URL-safe base64 without padding.
pub fn generate_token() -> (r: String)
    ensures
        exists|b: Seq<u8>| b.len() == 32 && r@ == b64url_nopad(b),
{
    let bytes = os_random_bytes();
    base64_url_nopad_encode(&bytes)
}

/// What `blake3::hash` returns for the bytes of this text (32 bytes).
pub uninterp spec fn blake3_digest(data: Seq<char>) -> Seq<u8>;

/// `blake3::hash(data.as_bytes())`: the 32-byte BLAKE3 digest.
#[verifier::external_body]
fn blake3_hash(data: &str) -> (r: [u8; 32])
    ensures
        r@ == blake3_digest(data@),
{
    *blake3::hash(data.as_bytes()).as_bytes()
}

pub open spec fn hex_digit(v: int) -> char {
    if v < 10 {
        (48 + v) as char
    } else {
        (97 + v - 10) as char
    }
}

/// Lower-case hexadecimal, two digits per byte.
pub open spec fn hex_lower(b: Seq<u8>) -> Seq<char>
    decreases b.len(),
{
    if b.len() == 0 {
        Seq::<char>::empty()
    } else {
        hex_lower(b.drop_last()) + seq![hex_digit(b.last() as int / 16), hex_digit(b.last() as int % 16)]
    }
}

fn hex_digit_exec(v: u8) -> (c: char)
    requires
        v < 16,
    ensures
        c == hex_digit(v as int),
{
    if v < 10 {
        (48u8 + v) as char
    } else {
        (97u8 + v - 10) as char
    }
}

/// A lower-case hexadecimal digit: `0`-`9` or `a`-`f`.
pub open spec fn is_lower_hex(c: char) -> bool {
    ('0' <= c <= '9') || ('a' <= c <= 'f')
}

/// The token's fast hash (BLAKE3, lower-case hex) under which it is stored: 64 hex digits.
pub fn hash_token(token: &str) -> (r: String)
    ensures
        r@ == hex_lower(blake3_digest(token@)),
        r@.len() == 64,
        forall|k: int| 0 <= k < r@.len() ==> is_lower_hex(#[trigger] r@[k]),
{
    let d = blake3_hash(token);
    let mut out: Vec<char> = Vec::new();
    let mut i: usize = 0;
    while i < 32
        invariant
            i <= 32,
            d@.len() == 32,
            out@ == hex_lower(d@.take(i as int)),
            out@.len() == 2 * i,
            forall|k: int| 0 <= k < out@.len() ==> is_lower_hex(#[trigger] out@[k]),
        decreases 32 - i,
    {
        let b = d[i];
        out.push(hex_digit_exec(b / 16));
        out.push(hex_digit_exec(b % 16));
        proof {
            assert(d@.take(i + 1).drop_last() =~= d@.take(i as int));
            assert(out@ =~= hex_lower(d@.take(i as int)) + seq![hex_digit(b as int / 16), hex_digit(b as int % 16)]);
        }
        i += 1;
    }
    assert(d@.take(32) =~= d@);
    string_from_chars(&out)
}

/// Cache keys for verified tokens carry the token kind: `s:` for sessions, `a:` for app
/// passwords.
pub open spec fn session_key_spec(hash: Seq<char>) -> Seq<char> {
    seq!['s', ':'] + hash
}

pub open spec fn app_key_spec(hash: Seq<char>) -> Seq<char> {
    seq!['a', ':'] + hash
}

pub fn session_key(hash: &str) -> (r: String)
    ensures
        r@ == session_key_spec(hash@),
{
    let mut v: Vec<char> = Vec::new();
    v.push('s');
    v.push(':');
    let h = str_chars(hash);
    crate::text::extend_chars(&mut v, &h);
    assert(v@ =~= session_key_spec(hash@));
    string_from_chars(&v)
}

pub fn app_key(hash: &str) -> (r: String)
    ensures
        r@ == app_key_spec(hash@),
{
    let mut v: Vec<char> = Vec::new();
    v.push('a');
    v.push(':');
    let h = str_chars(hash);
    crate::text::extend_chars(&mut v, &h);
    assert(v@ =~= app_key_spec(hash@));
    string_from_chars(&v)
}

/// A session token's cache entry can never be taken for an app password's, and the other
/// way round; each kind's key determines the hash.
pub proof fn lemma_cache_keys_disjoint(h1: Seq<char>, h2: Seq<char>)
    ensures
        session_key_spec(h1) != app_key_spec(h2),
        session_key_spec(h1) == session_key_spec(h2) ==> h1 == h2,
        app_key_spec(h1) == app_key_spec(h2) ==> h1 == h2,
{
    assert(session_key_spec(h1)[0] != app_key_spec(h2)[0]);
    if session_key_spec(h1) == session_key_spec(h2) {
        assert(h1 =~= session_key_spec(h1).subrange(2, session_key_spec(h1).len() as int));
        assert(h2 =~= session_key_spec(h2).subrange(2, session_key_spec(h2).len() as int));
    }
    if app_key_spec(h1) == app_key_spec(h2) {
        assert(h1 =~= app_key_spec(h1).subrange(2, app_key_spec(h1).len() as int));
        assert(h2 =~= app_key_spec(h2).subrange(2, app_key_spec(h2).len() as int));
    }
}

} // verus!
