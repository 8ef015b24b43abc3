//! Byte positions in UTF-8 text: searching, cutting and slicing as `str` indexing does.
use vstd::prelude::*;
use vstd::string::*;
use vstd::utf8::*;
use crate::text::{ascii_lower, ascii_lower_char, bytes_match_at, chars_match_at, matches_at};

verus! {

broadcast use vstd::utf8::group_utf8_lib;

/// First index `i` in `[from, end - n.len()]` at which `n` occurs in `h`: what `find` returns on
/// `h[from..end]`, counted from the start of `h`.
pub open spec fn find_in<T>(h: Seq<T>, n: Seq<T>, from: int, end: int) -> Option<int>
    decreases end + 1 - from,
{
    if from < 0 || end > h.len() || from + n.len() > end {
        None
    } else if matches_at(h, n, from) {
        Some(from)
    } else {
        find_in(h, n, from + 1, end)
    }
}

pub proof fn lemma_find_in<T>(h: Seq<T>, n: Seq<T>, from: int, end: int)
    ensures
        find_in(h, n, from, end) matches Some(i) ==> from <= i && i + n.len() <= end && end <= h.len()
            && matches_at(h, n, i),
        find_in(h, n, from, end) matches Some(i) ==> forall|j: int|
            from <= j < i ==> !#[trigger] matches_at(h, n, j),
    decreases end + 1 - from,
{
    if !(from < 0 || end > h.len() || from + n.len() > end) && !matches_at(h, n, from) {
        lemma_find_in(h, n, from + 1, end);
    }
}

/// Index of the last `x` in `b`, or -1.
pub open spec fn last_byte(b: Seq<u8>, x: u8) -> int
    decreases b.len(),
{
    if b.len() == 0 {
        -1
    } else if b.last() == x {
        b.len() - 1
    } else {
        last_byte(b.drop_last(), x)
    }
}

pub proof fn lemma_last_byte(b: Seq<u8>, x: u8)
    ensures
        -1 <= last_byte(b, x) < b.len(),
        last_byte(b, x) >= 0 ==> b[last_byte(b, x)] == x,
        forall|j: int| last_byte(b, x) < j < b.len() ==> b[j] != x,
    decreases b.len(),
{
    if b.len() > 0 && b.last() != x {
        lemma_last_byte(b.drop_last(), x);
        assert forall|j: int| last_byte(b, x) < j < b.len() implies b[j] != x by {
            if j < b.len() - 1 {
                assert(b.drop_last()[j] == b[j]);
            }
        }
    }
}

/// A byte below 0x80 at position `i` of valid UTF-8 is a whole character: `i + 1` is a boundary.
pub proof fn lemma_ascii_byte_boundary(b: Seq<u8>, i: int)
    requires
        valid_utf8(b),
        0 <= i < b.len(),
        b[i] < 0x80,
    ensures
        is_char_boundary(b, i),
        is_char_boundary(b, i + 1),
    decreases b.len(),
{
    let lf = length_of_first_scalar(b);
    let tail = pop_first_scalar(b);
    assert(valid_first_scalar(b) && valid_utf8(tail));
    if i == 0 {
        assert(lf == 1);
        assert(is_char_boundary(tail, 0));
    } else {
        assert(!is_continuation_byte(b[i]));
        assert(is_char_boundary(b, i));
        assert(is_char_boundary(tail, i - lf));
        if i - lf < 0 {
            assert(false);
        }
        assert(tail[i - lf] == b[i]);
        lemma_ascii_byte_boundary(tail, i - lf);
    }
}

/// The UTF-8 bytes of a string slice.
pub fn str_bytes(s: &str) -> (r: Vec<u8>)
    ensures
        r@ == s.spec_bytes(),
        valid_utf8(r@),
{
    vstd::slice::slice_to_vec(s.as_bytes())
}

/// Whether `&s[..i]` and `&s[i..]` may cut a string with bytes `b` at `i`.
pub fn is_cut(b: &Vec<u8>, i: usize) -> (r: bool)
    requires
        valid_utf8(b@),
    ensures
        r == (i <= b.len() && is_char_boundary(b@, i as int)),
{
    if i > b.len() {
        false
    } else if i == b.len() {
        true
    } else {
        let x = b[i];
        assert(is_continuation_byte(b@[i as int]) == (0x80 <= x && x <= 0xbf));
        !(0x80 <= x && x <= 0xbf)
    }
}

/// `&s[a..b]`.
pub fn str_slice<'a>(s: &'a str, a: usize, b: usize) -> (r: &'a str)
    requires
        a <= b <= s.spec_bytes().len(),
        is_char_boundary(s.spec_bytes(), a as int),
        is_char_boundary(s.spec_bytes(), b as int),
    ensures
        r.spec_bytes() == s.spec_bytes().subrange(a as int, b as int),
        r@ == decode_utf8(s.spec_bytes().subrange(a as int, b as int)),
{
    let ghost whole = s.spec_bytes();
    let (_, tail) = s.split_at(a);
    let ghost t = tail.spec_bytes();
    proof {
        assert(valid_utf8(whole.subrange(a as int, whole.len() as int)));
        assert(t.len() == whole.len() - a);
        assert(valid_utf8(t));
        if b < whole.len() {
            assert(t[b - a] == whole[b as int]);
            assert(!is_continuation_byte(whole[b as int]));
            assert(!is_continuation_byte(t[b - a]));
            assert(is_char_boundary(t, b - a));
        } else {
            assert(is_char_boundary(t, t.len() as int));
        }
    }
    let (mid, _) = tail.split_at(b - a);
    proof {
        assert(mid.spec_bytes() =~= whole.subrange(a as int, b as int));
        assert(decode_utf8(encode_utf8(mid@)) == mid@);
    }
    mid
}

/// First occurrence of `n` in `h[from..end]`, counted from the start of `h`.
pub fn find_bytes_in(h: &Vec<u8>, n: &Vec<u8>, from: usize, end: usize) -> (r: Option<usize>)
    requires
        end <= h.len(),
    ensures
        r matches Some(k) ==> find_in(h@, n@, from as int, end as int) == Some(k as int),
        r is None ==> find_in(h@, n@, from as int, end as int) is None,
{
    let mut i = from;
    while i <= end && n.len() <= end - i
        invariant
            from <= i,
            end <= h.len(),
            find_in(h@, n@, i as int, end as int) == find_in(h@, n@, from as int, end as int),
        decreases end + 1 - i,
    {
        if bytes_match_at(h, n, i) {
            return Some(i);
        }
        proof {
            if n@.len() == 0 {
                assert(h@.subrange(i as int, i as int) =~= n@);
            }
        }
        i += 1;
    }
    None
}

/// First occurrence of `n` in `h[from..end]` of a character vector.
pub fn find_chars_in(h: &Vec<char>, n: &Vec<char>, from: usize, end: usize) -> (r: Option<usize>)
    requires
        end <= h.len(),
    ensures
        r matches Some(k) ==> find_in(h@, n@, from as int, end as int) == Some(k as int),
        r is None ==> find_in(h@, n@, from as int, end as int) is None,
{
    let mut i = from;
    while i <= end && n.len() <= end - i
        invariant
            from <= i,
            end <= h.len(),
            find_in(h@, n@, i as int, end as int) == find_in(h@, n@, from as int, end as int),
        decreases end + 1 - i,
    {
        if chars_match_at(h, n, i) {
            return Some(i);
        }
        proof {
            if n@.len() == 0 {
                assert(h@.subrange(i as int, i as int) =~= n@);
            }
        }
        i += 1;
    }
    None
}

/// Index of the last byte `x` of `b`.
pub fn last_byte_index(b: &Vec<u8>, x: u8) -> (r: Option<usize>)
    ensures
        r matches Some(i) ==> last_byte(b@, x) == i,
        r is None ==> last_byte(b@, x) == -1,
{
    let mut i = b.len();
    assert(b@.take(i as int) =~= b@);
    while i > 0
        invariant
            i <= b.len(),
            last_byte(b@.take(i as int), x) == last_byte(b@, x),
        decreases i,
    {
        assert(b@.take(i as int).drop_last() =~= b@.take(i - 1));
        if b[i - 1] == x {
            return Some(i - 1);
        }
        i -= 1;
    }
    None
}

// ------------------------------------------------------------------
// ASCII case in UTF-8 bytes

/// A byte with an ASCII capital letter turned into the small one.
pub open spec fn byte_lower(b: u8) -> u8 {
    if 65 <= b <= 90 {
        (b + 32) as u8
    } else {
        b
    }
}

pub open spec fn bytes_lower(s: Seq<u8>) -> Seq<u8> {
    Seq::new(s.len(), |i: int| byte_lower(s[i]))
}

proof fn lemma_bytes_lower_concat(a: Seq<u8>, b: Seq<u8>)
    ensures
        bytes_lower(a + b) == bytes_lower(a) + bytes_lower(b),
{
    assert(bytes_lower(a + b) =~= bytes_lower(a) + bytes_lower(b));
}

proof fn lemma_high_bytes(x: u32)
    by (bit_vector)
    ensures
        (0xC0 | ((x >> 6) & 0x1F) as u8) >= 0x80,
        (0xE0 | ((x >> 12) & 0x0F) as u8) >= 0x80,
        (0xF0 | ((x >> 18) & 0x7) as u8) >= 0x80,
        (0x80 | (x & 0x3F) as u8) >= 0x80,
        (0x80 | ((x >> 6) & 0x3F) as u8) >= 0x80,
        (0x80 | ((x >> 12) & 0x3F) as u8) >= 0x80,
{
}

proof fn lemma_low_byte(x: u32)
    by (bit_vector)
    requires
        x <= 0x7F,
    ensures
        (x & 0x7F) as u8 == x,
{
}

/// Lower-casing an ASCII letter lower-cases its one byte; other characters keep their bytes.
proof fn lemma_encode_scalar_lower(c: char)
    ensures
        encode_scalar(ascii_lower_char(c) as u32) == bytes_lower(encode_scalar(c as u32)),
{
    let v = c as u32;
    if v <= 0x7F {
        let w = ascii_lower_char(c) as u32;
        assert(w <= 0x7F);
        lemma_low_byte(v);
        lemma_low_byte(w);
        assert(encode_scalar(w) =~= bytes_lower(encode_scalar(v)));
    } else {
        assert(ascii_lower_char(c) == c);
        lemma_high_bytes(v);
        assert(encode_scalar(v) =~= bytes_lower(encode_scalar(v)));
    }
}

/// The UTF-8 bytes of ASCII-lower-cased text are those of the text, ASCII-lower-cased.
pub proof fn lemma_encode_ascii_lower(s: Seq<char>)
    ensures
        encode_utf8(ascii_lower(s)) == bytes_lower(encode_utf8(s)),
    decreases s.len(),
{
    if s.len() > 0 {
        lemma_encode_ascii_lower(s.drop_first());
        assert(ascii_lower(s).drop_first() =~= ascii_lower(s.drop_first()));
        lemma_encode_scalar_lower(s[0]);
        lemma_bytes_lower_concat(encode_scalar(s[0] as u32), encode_utf8(s.drop_first()));
    } else {
        assert(bytes_lower(encode_utf8(s)) =~= Seq::<u8>::empty());
    }
}

/// Decoding ASCII-lower-cased UTF-8 gives the decoded text, ASCII-lower-cased.
pub proof fn lemma_decode_bytes_lower(b: Seq<u8>)
    requires
        valid_utf8(b),
    ensures
        valid_utf8(bytes_lower(b)),
        decode_utf8(bytes_lower(b)) == ascii_lower(decode_utf8(b)),
{
    let t = decode_utf8(b);
    assert(encode_utf8(t) == b);
    lemma_encode_ascii_lower(t);
    assert(decode_utf8(encode_utf8(ascii_lower(t))) == ascii_lower(t));
}

/// ASCII case does not move the last byte with a given non-letter value.
pub proof fn lemma_last_byte_lower(b: Seq<u8>, x: u8)
    requires
        !(65 <= x <= 90),
        !(97 <= x <= 122),
    ensures
        last_byte(bytes_lower(b), x) == last_byte(b, x),
    decreases b.len(),
{
    if b.len() > 0 {
        assert(bytes_lower(b).drop_last() =~= bytes_lower(b.drop_last()));
        lemma_last_byte_lower(b.drop_last(), x);
    }
}

} // verus!
