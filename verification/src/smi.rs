//! SAMI (`.smi`) subtitles to WebVTT, including Korean SMI files that separate cues by the next
//! `<SYNC>` alone, without `</SYNC>`. Tags are found case-insensitively in the lower-cased text
//! and cut out of the original by byte position, as `str` indexing does.
use vstd::prelude::*;
use vstd::string::*;
use vstd::utf8::*;
use crate::bytes::{find_bytes_in, find_in, is_cut, lemma_find_in, str_bytes, str_slice};
use crate::subtitle::{text_result, vtt_time, ms_to_vtt, CUE_ARROW, VTT_HEADER, VTT_MAGIC};
use crate::text::{
    chars_eq, extend_chars, extend_str, is_digit, join, join_chars, lines, lines_chars,
    parse_u64, parse_u64_chars, replace_all, replace_chars, str_chars, string_from_chars,
    sub_chars, to_lowercase, trim, trim_chars, trim_start, trim_start_chars, unicode_lowercase,
};

verus! {

broadcast use vstd::utf8::group_utf8_lib;

pub const MSG_NO_SMI_CUES: &'static str = "no SMI cues found";

// ------------------------------------------------------------------
// cue text

/// The characters outside `<...>` tags, and whether the text ends inside a tag.
pub open spec fn html_scan(s: Seq<char>) -> (Seq<char>, bool)
    decreases s.len(),
{
    if s.len() == 0 {
        (Seq::<char>::empty(), false)
    } else {
        let (o, t) = html_scan(s.drop_last());
        let c = s.last();
        if c == '<' {
            (o, true)
        } else if c == '>' {
            (o, false)
        } else if !t {
            (o.push(c), t)
        } else {
            (o, t)
        }
    }
}

/// Drops everything between `<` and the next `>` (the brackets included).
pub fn strip_html_tags(input: &str) -> (r: String)
    ensures
        r@ == html_scan(input@).0,
{
    let s = str_chars(input);
    let mut out: Vec<char> = Vec::new();
    let mut in_tag = false;
    let mut i: usize = 0;
    while i < s.len()
        invariant
            i <= s.len(),
            (out@, in_tag) == html_scan(s@.take(i as int)),
        decreases s.len() - i,
    {
        let c = s[i];
        assert(s@.take(i + 1).drop_last() =~= s@.take(i as int));
        if c == '<' {
            in_tag = true;
        } else if c == '>' {
            in_tag = false;
        } else if !in_tag {
            out.push(c);
        }
        i += 1;
    }
    assert(s@.take(s.len() as int) =~= s@);
    string_from_chars(&out)
}

/// Line breaks and paragraphs as newlines, non-breaking spaces as spaces.
pub open spec fn smi_markup(s: Seq<char>) -> Seq<char> {
    let a = replace_all(s, "<br>"@, "\n"@);
    let b = replace_all(a, "<BR>"@, "\n"@);
    let c = replace_all(b, "<br/>"@, "\n"@);
    let d = replace_all(c, "<BR/>"@, "\n"@);
    let e = replace_all(d, "<p>"@, ""@);
    let f = replace_all(e, "</p>"@, "\n"@);
    let g = replace_all(f, "<P>"@, ""@);
    let h = replace_all(g, "</P>"@, "\n"@);
    let i = replace_all(h, "&nbsp;"@, " "@);
    replace_all(i, "&#160;"@, " "@)
}

/// Trimmed lines that are neither empty nor a lone no-break space.
pub open spec fn keep_text_lines(ls: Seq<Seq<char>>) -> Seq<Seq<char>>
    decreases ls.len(),
{
    if ls.len() == 0 {
        ls
    } else {
        let p = keep_text_lines(ls.drop_last());
        let t = trim(ls.last());
        if t.len() > 0 && t != seq!['\u{a0}'] {
            p.push(t)
        } else {
            p
        }
    }
}

/// The text of one SAMI cue body.
#[verifier::opaque]
pub open spec fn smi_text(raw: Seq<char>) -> Seq<char> {
    join(keep_text_lines(lines(html_scan(smi_markup(raw)).0)), seq!['\n'])
}

fn replace_str(s: &Vec<char>, from: &str, to: &str) -> (r: Vec<char>)
    requires
        from@.len() > 0,
    ensures
        r@ == replace_all(s@, from@, to@),
{
    let f = str_chars(from);
    let t = str_chars(to);
    replace_chars(s, &f, &t)
}

/// The text of a SAMI cue body: markup to plain lines, tags dropped, blank lines dropped.
pub fn smi_body_to_text(raw: &str) -> (r: String)
    ensures
        r@ == smi_text(raw@),
{
    proof {
        reveal_strlit("<br>");
        reveal_strlit("<BR>");
        reveal_strlit("<br/>");
        reveal_strlit("<BR/>");
        reveal_strlit("<p>");
        reveal_strlit("</p>");
        reveal_strlit("<P>");
        reveal_strlit("</P>");
        reveal_strlit("&nbsp;");
        reveal_strlit("&#160;");
    }
    let s0 = str_chars(raw);
    let s1 = replace_str(&s0, "<br>", "\n");
    let s2 = replace_str(&s1, "<BR>", "\n");
    let s3 = replace_str(&s2, "<br/>", "\n");
    let s4 = replace_str(&s3, "<BR/>", "\n");
    let s5 = replace_str(&s4, "<p>", "");
    let s6 = replace_str(&s5, "</p>", "\n");
    let s7 = replace_str(&s6, "<P>", "");
    let s8 = replace_str(&s7, "</P>", "\n");
    let s9 = replace_str(&s8, "&nbsp;", " ");
    let s10 = replace_str(&s9, "&#160;", " ");
    let joined = string_from_chars(&s10);
    let stripped = strip_html_tags(joined.as_str());
    let sc = str_chars(stripped.as_str());
    let all = lines_chars(&sc);
    let ghost lv = lines(sc@);
    let mut kept: Vec<Vec<char>> = Vec::new();
    let mut i: usize = 0;
    assert(lv.take(0) =~= Seq::<Seq<char>>::empty());
    while i < all.len()
        invariant
            i <= all.len(),
            all@.len() == lv.len(),
            forall|k: int| 0 <= k < all@.len() ==> #[trigger] all@[k]@ == lv[k],
            kept@.map_values(|p: Vec<char>| p@) == keep_text_lines(lv.take(i as int)),
        decreases all.len() - i,
    {
        let ghost before = kept@.map_values(|p: Vec<char>| p@);
        assert(lv.take(i + 1).drop_last() =~= lv.take(i as int));
        let t = trim_chars(&all[i]);
        if t.len() > 0 && !(t.len() == 1 && t[0] == '\u{a0}') {
            proof {
                assert(t@ != seq!['\u{a0}']) by {
                    if t@ == seq!['\u{a0}'] {
                        assert(t@[0] == '\u{a0}');
                    }
                }
            }
            let ghost tv = t@;
            kept.push(t);
            assert(kept@.map_values(|p: Vec<char>| p@) =~= before.push(tv));
        } else {
            proof {
                if t@.len() > 0 {
                    assert(t@ =~= seq!['\u{a0}']);
                }
            }
        }
        i += 1;
    }
    assert(lv.take(all.len() as int) =~= lv);
    let nl = vec!['\n'];
    assert(nl@ =~= seq!['\n']);
    let text = join_chars(&kept, &nl);
    proof { reveal(smi_text); }
    string_from_chars(&text)
}

// ------------------------------------------------------------------
// start times

/// `start`, as bytes.
pub open spec fn start_key() -> Seq<u8> {
    seq![115u8, 116, 97, 114, 116]
}

/// The byte position after the first `start` in the lower-cased tag.
pub open spec fn start_key_end(tag: Seq<char>) -> Option<int> {
    let l = encode_utf8(unicode_lowercase(tag));
    match find_in(l, start_key(), 0, l.len() as int) {
        Some(i) => Some(i + 5),
        None => None,
    }
}

/// Cutting the tag at that position would panic: lower-casing moved it off a character boundary
/// of the tag, or past its end.
pub open spec fn smi_start_panics(tag: Seq<char>) -> bool {
    match start_key_end(tag) {
        Some(j) => !(j <= encode_utf8(tag).len() && is_char_boundary(encode_utf8(tag), j)),
        None => false,
    }
}

/// The leading ASCII digits.
pub open spec fn digit_prefix(s: Seq<char>) -> Seq<char>
    decreases s.len(),
{
    if s.len() > 0 && is_digit(s[0]) {
        seq![s[0]] + digit_prefix(s.drop_first())
    } else {
        Seq::<char>::empty()
    }
}

/// The `Start=` value of a `<SYNC ...>` tag: after the first `start` (any case), optional
/// spaces, `=`, optional spaces, then the leading digits as a `u64`.
pub open spec fn smi_start_value(tag: Seq<char>) -> Option<u64> {
    match start_key_end(tag) {
        None => None,
        Some(j) => {
            let b = encode_utf8(tag);
            let rest = trim_start(decode_utf8(b.subrange(j, b.len() as int)));
            if rest.len() > 0 && rest[0] == '=' {
                parse_u64(digit_prefix(trim(rest.drop_first())))
            } else {
                None
            }
        },
    }
}

fn digit_prefix_chars(s: &Vec<char>) -> (r: Vec<char>)
    ensures
        r@ == digit_prefix(s@),
{
    let mut i: usize = 0;
    assert(s@.skip(0) =~= s@);
    assert(s@.take(0) + digit_prefix(s@.skip(0)) =~= digit_prefix(s@));
    while i < s.len() && crate::text::char_is_digit(s[i])
        invariant
            i <= s.len(),
            s@.take(i as int) + digit_prefix(s@.skip(i as int)) == digit_prefix(s@),
        decreases s.len() - i,
    {
        assert(s@.skip(i as int).drop_first() =~= s@.skip(i + 1));
        assert(s@.take(i + 1) =~= s@.take(i as int) + seq![s@[i as int]]);
        i += 1;
    }
    assert(s@.take(i as int) + Seq::<char>::empty() =~= s@.take(i as int));
    sub_chars(s, 0, i)
}

fn start_key_end_exec(tag: &str) -> (r: Option<usize>)
    ensures
        r matches Some(j) ==> start_key_end(tag@) == Some(j as int),
        r is None ==> start_key_end(tag@) is None,
{
    let lower = to_lowercase(tag);
    let lb = str_bytes(lower.as_str());
    let key: Vec<u8> = vec![115u8, 116, 97, 114, 116];
    assert(key@ =~= start_key());
    match find_bytes_in(&lb, &key, 0, lb.len()) {
        Some(i) => {
            proof { lemma_find_in(lb@, key@, 0, lb@.len() as int); }
            Some(i + 5)
        },
        None => None,
    }
}

fn smi_start_would_panic(tag: &str) -> (r: bool)
    ensures
        r == smi_start_panics(tag@),
{
    match start_key_end_exec(tag) {
        Some(j) => {
            let tb = str_bytes(tag);
            !is_cut(&tb, j)
        },
        None => false,
    }
}

/// The `Start` time of a `<SYNC ...>` tag, in milliseconds.
pub fn parse_smi_start(tag: &str) -> (r: Option<u64>)
    requires
        !smi_start_panics(tag@),
    ensures
        r == smi_start_value(tag@),
{
    match start_key_end_exec(tag) {
        None => None,
        Some(j) => {
            let tb = str_bytes(tag);
            let rest_s = str_slice(tag, j, tb.len());
            let rest_c = str_chars(rest_s);
            let rest = trim_start_chars(&rest_c);
            if rest.len() > 0 && rest[0] == '=' {
                let after = sub_chars(&rest, 1, rest.len());
                assert(after@ =~= rest@.drop_first());
                let t = trim_chars(&after);
                let d = digit_prefix_chars(&t);
                parse_u64_chars(&d)
            } else {
                None
            }
        },
    }
}

// ------------------------------------------------------------------
// cues

/// `<sync`, as bytes.
pub open spec fn sync_open() -> Seq<u8> {
    seq![60u8, 115, 121, 110, 99]
}

/// `</body>`, as bytes.
pub open spec fn body_close() -> Seq<u8> {
    seq![60u8, 47, 98, 111, 100, 121, 62]
}

/// Where cues end: the first `</body>` of the lower-cased text, else the end of the text.
pub open spec fn smi_body_end(b: Seq<u8>, l: Seq<u8>) -> int {
    match find_in(l, body_close(), 0, l.len() as int) {
        Some(i) => i,
        None => b.len() as int,
    }
}

/// The cues from byte `pos` on, as (byte position where the cue body starts, start time), or
/// `None` where a cut would panic. `b` is the text, `l` the lower-cased text. The next `<sync`
/// before `body_end` is looked for in `l`; its tag runs to the next `>` of `b`; a tag without
/// `>` or without a readable start time is passed over.
#[verifier::opaque]
pub open spec fn smi_scan(b: Seq<u8>, l: Seq<u8>, body_end: int, pos: int) -> Option<Seq<(int, u64)>>
    decreases body_end - pos,
{
    if pos >= body_end {
        Some(Seq::<(int, u64)>::empty())
    } else if !(0 <= pos && body_end <= l.len() && is_char_boundary(l, pos) && is_char_boundary(l, body_end)) {
        None
    } else {
        match find_in(l, sync_open(), pos, body_end) {
            None => Some(Seq::<(int, u64)>::empty()),
            Some(abs) => {
                proof { lemma_find_in(l, sync_open(), pos, body_end); }
                if !(abs <= b.len() && is_char_boundary(b, abs)) {
                    None
                } else {
                    match find_in(b, seq![62u8], abs, b.len() as int) {
                        None => smi_scan(b, l, body_end, abs + 5),
                        Some(gt) => {
                            proof { lemma_find_in(b, seq![62u8], abs, b.len() as int); }
                            if !is_char_boundary(b, gt + 1) {
                                None
                            } else {
                                let tag = decode_utf8(b.subrange(abs, gt + 1));
                                if smi_start_panics(tag) {
                                    None
                                } else {
                                    match smi_start_value(tag) {
                                        None => smi_scan(b, l, body_end, abs + 5),
                                        Some(ms) => if gt + 1 >= body_end {
                                            Some(seq![(gt + 1, ms)])
                                        } else {
                                            match smi_scan(b, l, body_end, gt + 1) {
                                                None => None,
                                                Some(rest) => Some(seq![(gt + 1, ms)] + rest),
                                            }
                                        },
                                    }
                                }
                            }
                        },
                    }
                }
            },
        }
    }
}

/// Where the body of cue `i` ends: one byte before the next cue's body, or `body_end`; never
/// past the text.
pub open spec fn smi_limit(b: Seq<u8>, syncs: Seq<(int, u64)>, body_end: int, i: int) -> int {
    let lim = if i + 1 < syncs.len() {
        if syncs[i + 1].0 >= 1 {
            syncs[i + 1].0 - 1
        } else {
            0
        }
    } else {
        body_end
    };
    if lim < b.len() {
        lim
    } else {
        b.len() as int
    }
}

pub open spec fn smi_raw(b: Seq<u8>, syncs: Seq<(int, u64)>, body_end: int, i: int) -> Seq<char> {
    decode_utf8(b.subrange(syncs[i].0, smi_limit(b, syncs, body_end, i)))
}

/// A cue ends where the next one starts, or three seconds after its start.
pub open spec fn smi_end_ms(syncs: Seq<(int, u64)>, i: int) -> int {
    if i + 1 < syncs.len() {
        syncs[i + 1].1 as int
    } else {
        syncs[i].1 + 3000
    }
}

/// Cue `i` can be cut out of the text, and its end time fits where it is needed.
#[verifier::opaque]
pub open spec fn smi_cue_ok(b: Seq<u8>, syncs: Seq<(int, u64)>, body_end: int, i: int) -> bool {
    let s = syncs[i].0;
    let e = smi_limit(b, syncs, body_end, i);
    &&& 0 <= s <= e
    &&& is_char_boundary(b, s)
    &&& is_char_boundary(b, e)
    &&& smi_text(smi_raw(b, syncs, body_end, i)).len() > 0 ==> smi_end_ms(syncs, i) <= u64::MAX
}

/// The WebVTT cue for SAMI cue `i` (empty when its text is).
#[verifier::opaque]
pub open spec fn smi_cue(b: Seq<u8>, syncs: Seq<(int, u64)>, body_end: int, i: int) -> Seq<char> {
    let t = smi_text(smi_raw(b, syncs, body_end, i));
    if t.len() == 0 {
        Seq::<char>::empty()
    } else {
        vtt_time(syncs[i].1) + CUE_ARROW@ + vtt_time(smi_end_ms(syncs, i) as u64) + seq!['\n'] + t
            + seq!['\n', '\n']
    }
}

pub open spec fn smi_cues(b: Seq<u8>, syncs: Seq<(int, u64)>, body_end: int, k: int) -> Seq<char>
    decreases k,
{
    if k <= 0 {
        Seq::<char>::empty()
    } else {
        smi_cues(b, syncs, body_end, k - 1) + smi_cue(b, syncs, body_end, k - 1)
    }
}

/// SAMI to WebVTT, or `None` where the conversion would panic.
pub open spec fn smi_conversion(content: Seq<char>) -> Option<Result<Seq<char>, Seq<char>>> {
    let b = encode_utf8(content);
    let l = encode_utf8(unicode_lowercase(content));
    let be = smi_body_end(b, l);
    match smi_scan(b, l, be, 0) {
        None => None,
        Some(syncs) => if syncs.len() == 0 {
            Some(Err(MSG_NO_SMI_CUES@))
        } else if !(forall|i: int| 0 <= i < syncs.len() ==> #[trigger] smi_cue_ok(b, syncs, be, i)) {
            None
        } else {
            let out = VTT_HEADER@ + smi_cues(b, syncs, be, syncs.len() as int);
            if trim(out) == VTT_MAGIC@ {
                Some(Err(MSG_NO_SMI_CUES@))
            } else {
                Some(Ok(out))
            }
        },
    }
}

pub open spec fn syncs_view(v: Seq<(usize, u64)>) -> Seq<(int, u64)> {
    v.map_values(|p: (usize, u64)| (p.0 as int, p.1))
}

pub open spec fn prepend_syncs(acc: Seq<(int, u64)>, o: Option<Seq<(int, u64)>>) -> Option<Seq<(int, u64)>> {
    match o {
        None => None,
        Some(r) => Some(acc + r),
    }
}

fn smi_scan_exec(content: &str, b: &Vec<u8>, l: &Vec<u8>, body_end: usize) -> (r: Option<Vec<(usize, u64)>>)
    requires
        b@ == content.spec_bytes(),
        valid_utf8(b@),
        valid_utf8(l@),
    ensures
        r is None ==> smi_scan(b@, l@, body_end as int, 0) is None,
        r matches Some(v) ==> smi_scan(b@, l@, body_end as int, 0) == Some(syncs_view(v@)),
{
    proof { reveal(smi_scan); }
    let sync_key: Vec<u8> = vec![60u8, 115, 121, 110, 99];
    let gt_key: Vec<u8> = vec![62u8];
    assert(sync_key@ =~= sync_open());
    assert(gt_key@ =~= seq![62u8]);
    let mut acc: Vec<(usize, u64)> = Vec::new();
    let mut pos: usize = 0;
    let ghost be = body_end as int;
    assert(syncs_view(acc@) + Seq::<(int, u64)>::empty() =~= Seq::<(int, u64)>::empty());
    proof {
        match smi_scan(b@, l@, be, 0) {
            Some(r) => {
                assert(syncs_view(acc@) + r =~= r);
            },
            None => {},
        }
    }
    while pos < body_end
        invariant
            b@ == content.spec_bytes(),
            valid_utf8(b@),
            valid_utf8(l@),
            be == body_end as int,
            sync_key@ == sync_open(),
            gt_key@ == seq![62u8],
            smi_scan(b@, l@, be, 0) == prepend_syncs(syncs_view(acc@), smi_scan(b@, l@, be, pos as int)),
        decreases body_end - (if pos < body_end { pos } else { body_end }),
    {
        proof { reveal(smi_scan); }
        if !(body_end <= l.len() && is_cut(l, pos) && is_cut(l, body_end)) {
            return None;
        }
        match find_bytes_in(l, &sync_key, pos, body_end) {
            None => {
                assert(syncs_view(acc@) + Seq::<(int, u64)>::empty() =~= syncs_view(acc@));
                return Some(acc);
            },
            Some(abs) => {
                proof { lemma_find_in(l@, sync_key@, pos as int, be); }
                if !is_cut(b, abs) {
                    return None;
                }
                match find_bytes_in(b, &gt_key, abs, b.len()) {
                    None => {
                        pos = abs + 5;
                    },
                    Some(gt) => {
                        proof { lemma_find_in(b@, gt_key@, abs as int, b@.len() as int); }
                        if !is_cut(b, gt + 1) {
                            return None;
                        }
                        let tag = str_slice(content, abs, gt + 1);
                        if smi_start_would_panic(tag) {
                            return None;
                        }
                        match parse_smi_start(tag) {
                            None => {
                                pos = abs + 5;
                            },
                            Some(ms) => {
                                let ghost before = syncs_view(acc@);
                                acc.push((gt + 1, ms));
                                proof {
                                    assert(syncs_view(acc@) =~= before.push((gt + 1, ms)));
                                    match smi_scan(b@, l@, be, gt + 1) {
                                        Some(r) => {
                                            assert(before + (seq![((gt + 1) as int, ms)] + r) =~= before.push(((gt + 1) as int, ms)) + r);
                                            if gt + 1 >= be {
                                                assert(before + seq![((gt + 1) as int, ms)] =~= before.push(((gt + 1) as int, ms)) + Seq::<(int, u64)>::empty());
                                            }
                                        },
                                        None => {},
                                    }
                                }
                                pos = gt + 1;
                            },
                        }
                    },
                }
            },
        }
    }
    proof {
        assert(syncs_view(acc@) + Seq::<(int, u64)>::empty() =~= syncs_view(acc@));
    }
    Some(acc)
}


#[verifier::rlimit(40)]
fn smi_render_cue(content: &str, b: &Vec<u8>, syncs: &Vec<(usize, u64)>, body_end: usize, i: usize) -> (r: Option<Vec<char>>)
    requires
        b@ == content.spec_bytes(),
        valid_utf8(b@),
        i < syncs.len(),
    ensures
        r is None <==> !smi_cue_ok(b@, syncs_view(syncs@), body_end as int, i as int),
        r matches Some(c) ==> c@ == smi_cue(b@, syncs_view(syncs@), body_end as int, i as int),
{
    proof {
        reveal(smi_cue_ok);
        reveal(smi_cue);
    }
    let ghost sv = syncs_view(syncs@);
    let (start, start_ms) = syncs[i];
    assert(sv[i as int] == (start as int, start_ms));
    let lim0: usize = if i + 1 < syncs.len() {
        let nx = syncs[i + 1].0;
        assert(sv[i + 1].0 == nx as int);
        if nx >= 1 {
            nx - 1
        } else {
            0
        }
    } else {
        body_end
    };
    let lim = if lim0 < b.len() {
        lim0
    } else {
        b.len()
    };
    assert(lim as int == smi_limit(b@, sv, body_end as int, i as int));
    if !(start <= lim && is_cut(b, start) && is_cut(b, lim)) {
        return None;
    }
    let raw = str_slice(content, start, lim);
    let text = smi_body_to_text(raw);
    assert(text@ == smi_text(smi_raw(b@, sv, body_end as int, i as int)));
    if text.as_str().is_empty() {
        return Some(Vec::new());
    }
    let end_ms: u64 = if i + 1 < syncs.len() {
        assert(sv[i + 1].1 == syncs@[i + 1].1);
        syncs[i + 1].1
    } else {
        match start_ms.checked_add(3000) {
            Some(x) => x,
            None => {
                return None;
            },
        }
    };
    let a = ms_to_vtt(start_ms);
    let e = ms_to_vtt(end_ms);
    let mut cue: Vec<char> = Vec::new();
    extend_str(&mut cue, a.as_str());
    extend_str(&mut cue, CUE_ARROW);
    extend_str(&mut cue, e.as_str());
    cue.push('\n');
    extend_str(&mut cue, text.as_str());
    cue.push('\n');
    cue.push('\n');
    assert(cue@ =~= smi_cue(b@, sv, body_end as int, i as int));
    Some(cue)
}

fn smi_convert(content: &str) -> (r: Option<Result<String, String>>)
    ensures
        r is None <==> smi_conversion(content@) is None,
        r matches Some(x) ==> Some(text_result(x)) == smi_conversion(content@),
{
    let b = str_bytes(content);
    let lower = to_lowercase(content);
    let l = str_bytes(lower.as_str());
    let close: Vec<u8> = vec![60u8, 47, 98, 111, 100, 121, 62];
    assert(close@ =~= body_close());
    let body_end = match find_bytes_in(&l, &close, 0, l.len()) {
        Some(i) => i,
        None => b.len(),
    };
    let ghost be = body_end as int;
    assert(be == smi_body_end(b@, l@));
    let syncs = match smi_scan_exec(content, &b, &l, body_end) {
        None => {
            return None;
        },
        Some(v) => v,
    };
    let ghost sv = syncs_view(syncs@);
    assert(l@ == encode_utf8(unicode_lowercase(content@)));
    assert(b@ == encode_utf8(content@));
    assert(smi_scan(b@, l@, be, 0) == Some(sv));
    if syncs.len() == 0 {
        return Some(Err(String::from_str(MSG_NO_SMI_CUES)));
    }
    let mut cues: Vec<char> = Vec::new();
    let mut i: usize = 0;
    while i < syncs.len()
        invariant
            i <= syncs.len(),
            b@ == content.spec_bytes(),
            valid_utf8(b@),
            sv == syncs_view(syncs@),
            be == body_end as int,
            l@ == encode_utf8(unicode_lowercase(content@)),
            be == smi_body_end(b@, l@),
            smi_scan(b@, l@, be, 0) == Some(sv),
            cues@ == smi_cues(b@, sv, be, i as int),
            forall|j: int| 0 <= j < i ==> #[trigger] smi_cue_ok(b@, sv, be, j),
        decreases syncs.len() - i,
    {
        match smi_render_cue(content, &b, &syncs, body_end, i) {
            None => {
                assert(!smi_cue_ok(b@, sv, be, i as int));
                assert(!(forall|j: int| 0 <= j < sv.len() ==> #[trigger] smi_cue_ok(b@, sv, be, j)));
                return None;
            },
            Some(c) => {
                extend_chars(&mut cues, &c);
            },
        }
        i += 1;
    }
    let mut out: Vec<char> = Vec::new();
    extend_str(&mut out, VTT_HEADER);
    extend_chars(&mut out, &cues);
    let t = trim_chars(&out);
    let magic = str_chars(VTT_MAGIC);
    if chars_eq(&t, &magic) {
        Some(Err(String::from_str(MSG_NO_SMI_CUES)))
    } else {
        Some(Ok(string_from_chars(&out)))
    }
}

/// Converts SAMI text to WebVTT. Each `<SYNC Start=..>` opens a cue whose body runs to the next
/// one (or `</body>`); a cue ends when the next starts, the last one three seconds after its
/// start; cues without text are left out.
pub fn smi_to_vtt(content: &str) -> (r: Result<String, String>)
    requires
        smi_conversion(content@) is Some,
    ensures
        Some(text_result(r)) == smi_conversion(content@),
{
    match smi_convert(content) {
        Some(x) => x,
        None => {
            proof { assert(false); }
            Err(String::new())
        },
    }
}

/// Whether `smi_to_vtt` completes on `content` (rather than panicking on a cut that is not on a
/// character boundary, or on an end time that overflows).
pub fn smi_conversion_completes(content: &str) -> (r: bool)
    ensures
        r == smi_conversion(content@) is Some,
{
    smi_convert(content).is_some()
}

} // verus!
