//! Subtitle files next to videos: which names belong together, how subtitle bytes are decoded,
//! and the conversion of SubRip, SubStation Alpha and WebVTT text to WebVTT.
use vstd::prelude::*;
use vstd::string::*;
use vstd::utf8::*;
use crate::bytes::{
    bytes_lower, lemma_decode_bytes_lower, lemma_encode_ascii_lower, lemma_last_byte_lower,
    find_chars_in, find_in, lemma_find_in, last_byte, last_byte_index, lemma_ascii_byte_boundary, lemma_last_byte, str_bytes, str_slice,
};
use crate::errors::{ErrView, NasError};
use crate::smi::{smi_conversion, smi_conversion_completes, smi_to_vtt};
use crate::text::{
    contains, dec_digits, extend_chars, extend_str, join, join_chars, lemma_split_nonempty, lines,
    lines_chars, parse_u64, parse_u64_chars, push_padded, replace_all, replace_chars,
    split_char, split_chars, starts_with, starts_with_chars, str_chars, str_eq,
    string_from_chars, to_lowercase, trim, trim_chars, unicode_lowercase, zero_pad, ascii_lower,
    is_ws, lemma_trim_nonempty,
};

verus! {

broadcast use vstd::utf8::group_utf8_lib;

// ------------------------------------------------------------------
// names

/// The bytes before the last `.` (all of them when there is none): `rsplit_once('.')`'s stem.
pub open spec fn stem_bytes(b: Seq<u8>) -> Seq<u8> {
    let i = last_byte(b, 46u8);
    if i < 0 {
        b
    } else {
        b.take(i)
    }
}

/// The bytes after the last `.` (all of them when there is none): `rsplit('.')`'s first piece.
pub open spec fn ext_bytes(b: Seq<u8>) -> Seq<u8> {
    let i = last_byte(b, 46u8);
    if i < 0 {
        b
    } else {
        b.skip(i + 1)
    }
}

/// A file name without its last extension.
pub open spec fn stem_of(name: Seq<char>) -> Seq<char> {
    decode_utf8(stem_bytes(encode_utf8(name)))
}

/// The text after the last `.` of a file name (the whole name when it has none).
pub open spec fn last_ext_of(name: Seq<char>) -> Seq<char> {
    decode_utf8(ext_bytes(encode_utf8(name)))
}

/// The subtitle formats that are recognised, by lower-case extension.
pub open spec fn is_subtitle_ext(e: Seq<char>) -> bool {
    e == "vtt"@ || e == "srt"@ || e == "smi"@ || e == "ass"@ || e == "ssa"@
}

/// Changing the ASCII case of a name changes its stem and last extension in the same way: the
/// last `.` is where it was.
pub proof fn lemma_name_parts_ascii_lower(x: Seq<char>)
    ensures
        stem_of(ascii_lower(x)) == ascii_lower(stem_of(x)),
        last_ext_of(ascii_lower(x)) == ascii_lower(last_ext_of(x)),
{
    let b = encode_utf8(x);
    lemma_encode_ascii_lower(x);
    lemma_last_byte_lower(b, 46u8);
    lemma_last_byte(b, 46u8);
    let i = last_byte(b, 46u8);
    if i < 0 {
        lemma_decode_bytes_lower(b);
    } else {
        lemma_ascii_byte_boundary(b, i);
        assert(bytes_lower(b).take(i) =~= bytes_lower(b.take(i)));
        assert(bytes_lower(b).skip(i + 1) =~= bytes_lower(b.skip(i + 1)));
        assert(b.take(i) =~= b.subrange(0, i));
        assert(b.skip(i + 1) =~= b.subrange(i + 1, b.len() as int));
        valid_utf8_split(b, i);
        valid_utf8_split(b, i + 1);
        lemma_decode_bytes_lower(b.take(i));
        lemma_decode_bytes_lower(b.skip(i + 1));
    }
}

/// `name` without its last extension (`movie.ko.srt` → `movie.ko`).
pub fn file_stem(name: &str) -> (r: &str)
    ensures
        r.spec_bytes() == stem_bytes(name.spec_bytes()),
        r@ == stem_of(name@),
{
    let b = str_bytes(name);
    proof { lemma_last_byte(b@, 46u8); }
    match last_byte_index(&b, 46u8) {
        Some(i) => {
            proof { lemma_ascii_byte_boundary(b@, i as int); }
            str_slice(name, 0, i)
        },
        None => {
            assert(b@.subrange(0, b@.len() as int) =~= b@);
            str_slice(name, 0, b.len())
        },
    }
}

fn last_ext(name: &str) -> (r: &str)
    ensures
        r@ == last_ext_of(name@),
{
    let b = str_bytes(name);
    proof { lemma_last_byte(b@, 46u8); }
    match last_byte_index(&b, 46u8) {
        Some(i) => {
            assert(i < b.len());
            proof { lemma_ascii_byte_boundary(b@, i as int); }
            str_slice(name, i + 1, b.len())
        },
        None => {
            assert(b@.subrange(0, b@.len() as int) =~= b@);
            str_slice(name, 0, b.len())
        },
    }
}

/// The recognised subtitle format named by an already lower-cased extension.
pub fn subtitle_ext_from_lowered(ext: &str) -> (r: Option<&'static str>)
    ensures
        r is Some <==> is_subtitle_ext(ext@),
        r matches Some(x) ==> x@ == ext@,
{
    if str_eq(ext, "vtt") {
        Some("vtt")
    } else if str_eq(ext, "srt") {
        Some("srt")
    } else if str_eq(ext, "smi") {
        Some("smi")
    } else if str_eq(ext, "ass") {
        Some("ass")
    } else if str_eq(ext, "ssa") {
        Some("ssa")
    } else {
        None
    }
}

/// The subtitle format of a file name: its last extension, lower-cased, if it is one of
/// `vtt`, `srt`, `smi`, `ass`, `ssa`.
/// Changing the ASCII case of the name does not change the answer.
pub fn subtitle_extension(name: &str) -> (r: Option<&'static str>)
    ensures
        r is Some <==> is_subtitle_ext(unicode_lowercase(last_ext_of(name@))),
        r matches Some(x) ==> x@ == unicode_lowercase(last_ext_of(name@)),
        unicode_lowercase(last_ext_of(name@)) == unicode_lowercase(last_ext_of(ascii_lower(name@))),
{
    let ext = last_ext(name);
    let lowered = to_lowercase(ext);
    proof {
        lemma_name_parts_ascii_lower(name@);
    }
    subtitle_ext_from_lowered(lowered.as_str())
}

/// Whether a subtitle stem belongs to a video stem, both lower-cased: equal, or the video stem
/// followed by `.` and more (a language tag such as `movie.ko`).
pub open spec fn stems_match(video_base: Seq<char>, sub_stem: Seq<char>) -> bool {
    sub_stem == video_base || starts_with(sub_stem, video_base.push('.'))
}

/// `stems_match` on lower-cased stems.
pub fn subtitle_stem_matches(video_base: &str, sub_stem: &str) -> (r: bool)
    ensures
        r == stems_match(video_base@, sub_stem@),
{
    if str_eq(sub_stem, video_base) {
        return true;
    }
    let mut prefix = crate::text::str_chars(video_base);
    prefix.push('.');
    let s = crate::text::str_chars(sub_stem);
    crate::text::starts_with_chars(&s, &prefix)
}

/// A subtitle's name belongs to a video's: a subtitle extension, and lower-cased stems that
/// match.
pub open spec fn subtitle_matches_spec(video_name: Seq<char>, subtitle_name: Seq<char>) -> bool {
    is_subtitle_ext(unicode_lowercase(last_ext_of(subtitle_name))) && stems_match(
        unicode_lowercase(stem_of(video_name)),
        unicode_lowercase(stem_of(subtitle_name)),
    )
}

/// Whether `subtitle_name` is a subtitle of `video_name` in the same folder (`movie.mp4` ↔
/// `movie.smi`, `movie.ko.srt`), ignoring case: the answer is the same for the names with
/// their ASCII letters lower-cased, so changing the case of ASCII letters in either name never
/// changes it.
pub fn matches_video_subtitle(video_name: &str, subtitle_name: &str) -> (r: bool)
    ensures
        r == subtitle_matches_spec(video_name@, subtitle_name@),
        r == subtitle_matches_spec(ascii_lower(video_name@), ascii_lower(subtitle_name@)),
{
    proof {
        lemma_name_parts_ascii_lower(video_name@);
        lemma_name_parts_ascii_lower(subtitle_name@);
    }
    if subtitle_extension(subtitle_name).is_none() {
        return false;
    }
    let video_base = to_lowercase(file_stem(video_name));
    let sub_stem = to_lowercase(file_stem(subtitle_name));
    subtitle_stem_matches(video_base.as_str(), sub_stem.as_str())
}

/// The label a subtitle track is shown with: its file name without the last extension.
pub fn subtitle_label(name: &str) -> (r: String)
    ensures
        r@ == stem_of(name@),
{
    String::from_str(file_stem(name))
}


// ------------------------------------------------------------------
// decoding

pub const MSG_UNSUPPORTED_ENCODING: &'static str = "지원하지 않는 자막 인코딩입니다.";

pub const MSG_UTF8_DECODE: &'static str = "UTF-8 decode: ";

/// The text of the error that `String::from_utf8` reports for bytes that are not UTF-8.
pub uninterp spec fn utf8_error_text(bytes: Seq<u8>) -> Seq<char>;

/// What `encoding_rs::UTF_16LE.decode` returns as text.
pub uninterp spec fn utf16le_decode(bytes: Seq<u8>) -> Seq<char>;

/// What `encoding_rs::UTF_16BE.decode` returns as text.
pub uninterp spec fn utf16be_decode(bytes: Seq<u8>) -> Seq<char>;

/// What `encoding_rs::EUC_KR.decode` returns: the text, and whether malformed sequences were
/// replaced.
pub uninterp spec fn euc_kr_decode(bytes: Seq<u8>) -> (Seq<char>, bool);

/// std `String::from_utf8` on a copy of the bytes: `Ok` exactly for valid UTF-8, holding the
/// decoded text; otherwise the `Display` text of the error.
#[verifier::external_body]
pub(crate) fn utf8_to_string(bytes: &[u8]) -> (r: Result<String, String>)
    ensures
        r is Ok <==> valid_utf8(bytes@),
        r matches Ok(s) ==> s@ == decode_utf8(bytes@),
        r matches Err(e) ==> e@ == utf8_error_text(bytes@),
{
    String::from_utf8(bytes.to_vec()).map_err(|e| e.to_string())
}

/// encoding_rs `UTF_16LE.decode`: BOM sniffing (a leading UTF-8 or UTF-16 BOM switches to that
/// encoding and is dropped), then decoding with malformed sequences replaced by U+FFFD. It
/// panics when the size of its output buffer overflows `usize`, which the bound on the length
/// rules out.
#[verifier::external_body]
fn decode_utf16le(bytes: &[u8]) -> (r: String)
    requires
        bytes@.len() < usize::MAX / 4,
    ensures
        r@ == utf16le_decode(bytes@),
{
    encoding_rs::UTF_16LE.decode(bytes).0.into_owned()
}

/// encoding_rs `UTF_16BE.decode`, as `decode_utf16le` with big-endian code units.
#[verifier::external_body]
fn decode_utf16be(bytes: &[u8]) -> (r: String)
    requires
        bytes@.len() < usize::MAX / 4,
    ensures
        r@ == utf16be_decode(bytes@),
{
    encoding_rs::UTF_16BE.decode(bytes).0.into_owned()
}

/// encoding_rs `EUC_KR.decode` (the WHATWG EUC-KR decoder, which covers CP949): the text and
/// whether malformed sequences were replaced by U+FFFD. BOM sniffing as in `decode_utf16le`.
#[verifier::external_body]
fn decode_euc_kr(bytes: &[u8]) -> (r: (String, bool))
    requires
        bytes@.len() < usize::MAX / 4,
    ensures
        (r.0@, r.1) == euc_kr_decode(bytes@),
{
    let (s, _, had_errors) = encoding_rs::EUC_KR.decode(bytes);
    (s.into_owned(), had_errors)
}

/// How subtitle bytes are read as text: a UTF-8 BOM means UTF-8 (an error when the rest is not
/// UTF-8), a UTF-16 BOM means UTF-16 of that byte order, then plain UTF-8, and otherwise
/// EUC-KR/CP949, which must decode without malformed sequences.
pub open spec fn decode_subtitle_spec(raw: Seq<u8>) -> Result<Seq<char>, Seq<char>> {
    if raw.len() >= 3 && raw[0] == 0xEFu8 && raw[1] == 0xBBu8 && raw[2] == 0xBFu8 {
        let rest = raw.skip(3);
        if valid_utf8(rest) {
            Ok(decode_utf8(rest))
        } else {
            Err(MSG_UTF8_DECODE@ + utf8_error_text(rest))
        }
    } else if raw.len() >= 2 && raw[0] == 0xFFu8 && raw[1] == 0xFEu8 {
        Ok(utf16le_decode(raw.skip(2)))
    } else if raw.len() >= 2 && raw[0] == 0xFEu8 && raw[1] == 0xFFu8 {
        Ok(utf16be_decode(raw.skip(2)))
    } else if valid_utf8(raw) {
        Ok(decode_utf8(raw))
    } else if euc_kr_decode(raw).1 {
        Err(MSG_UNSUPPORTED_ENCODING@)
    } else {
        Ok(euc_kr_decode(raw).0)
    }
}

/// A `Result` of texts, by their characters.
pub open spec fn text_result(r: Result<String, String>) -> Result<Seq<char>, Seq<char>> {
    match r {
        Ok(s) => Ok(s@),
        Err(e) => Err(e@),
    }
}

/// Decodes subtitle file bytes to text (UTF-8 or UTF-16 with BOM, UTF-8, EUC-KR/CP949).
pub fn decode_subtitle_bytes(raw: &[u8]) -> (r: Result<String, String>)
    requires
        raw@.len() < usize::MAX / 4,
    ensures
        text_result(r) == decode_subtitle_spec(raw@),
{
    let v = vstd::slice::slice_to_vec(raw);
    let n = v.len();
    if n >= 3 && v[0] == 0xEF && v[1] == 0xBB && v[2] == 0xBF {
        let rest = crate::text::sub_bytes(&v, 3, n);
        assert(rest@ =~= raw@.skip(3));
        return match utf8_to_string(rest.as_slice()) {
            Ok(s) => Ok(s),
            Err(e) => {
                let mut msg: Vec<char> = Vec::new();
                crate::text::extend_str(&mut msg, MSG_UTF8_DECODE);
                crate::text::extend_str(&mut msg, e.as_str());
                Err(crate::text::string_from_chars(&msg))
            },
        };
    }
    if n >= 2 && v[0] == 0xFF && v[1] == 0xFE {
        let rest = crate::text::sub_bytes(&v, 2, n);
        assert(rest@ =~= raw@.skip(2));
        return Ok(decode_utf16le(rest.as_slice()));
    }
    if n >= 2 && v[0] == 0xFE && v[1] == 0xFF {
        let rest = crate::text::sub_bytes(&v, 2, n);
        assert(rest@ =~= raw@.skip(2));
        return Ok(decode_utf16be(rest.as_slice()));
    }
    if let Ok(s) = utf8_to_string(raw) {
        return Ok(s);
    }
    let (decoded, had_errors) = decode_euc_kr(raw);
    if had_errors {
        return Err(String::from_str(MSG_UNSUPPORTED_ENCODING));
    }
    Ok(decoded)
}

// ------------------------------------------------------------------
// cue times

/// `HH:MM:SS.mmm` for a time in milliseconds (hours not limited to two digits).
pub open spec fn vtt_time(ms: u64) -> Seq<char> {
    let secs = ms / 1000;
    zero_pad(dec_digits((secs / 3600) as nat), 2) + seq![':'] + zero_pad(
        dec_digits(((secs % 3600) / 60) as nat),
        2,
    ) + seq![':'] + zero_pad(dec_digits((secs % 60) as nat), 2) + seq!['.'] + zero_pad(
        dec_digits((ms % 1000) as nat),
        3,
    )
}

/// A WebVTT cue time for `ms` milliseconds.
pub fn ms_to_vtt(ms: u64) -> (r: String)
    ensures
        r@ == vtt_time(ms),
{
    let secs = ms / 1000;
    let mut out: Vec<char> = Vec::new();
    push_padded(&mut out, secs / 3600, 2);
    out.push(':');
    push_padded(&mut out, (secs % 3600) / 60, 2);
    out.push(':');
    push_padded(&mut out, secs % 60, 2);
    out.push('.');
    push_padded(&mut out, ms % 1000, 3);
    assert(out@ =~= vtt_time(ms));
    string_from_chars(&out)
}

// ------------------------------------------------------------------
// SubStation Alpha

pub const MSG_INVALID_ASS_TIME: &'static str = "invalid ASS time: ";

pub const MSG_NO_ASS_DIALOGUE: &'static str = "no ASS/SSA dialogue lines found";

pub const ASS_DIALOGUE: &'static str = "Dialogue:";

pub const VTT_MAGIC: &'static str = "WEBVTT";

pub const VTT_HEADER: &'static str = "WEBVTT\n\n";

pub const CUE_ARROW: &'static str = " --> ";

/// Hours, minutes, seconds and centiseconds of an ASS time `H:MM:SS.cc`; a missing or
/// unreadable fraction counts as zero.
pub open spec fn ass_time_fields(t: Seq<char>) -> Option<(u64, u64, u64, u64)> {
    let p = split_char(t, ':');
    if p.len() != 3 {
        None
    } else {
        let sp = split_char(p[2], '.');
        match (parse_u64(p[0]), parse_u64(p[1]), parse_u64(sp[0])) {
            (Some(h), Some(m), Some(s)) => Some(
                (
                    h,
                    m,
                    s,
                    if sp.len() > 1 {
                        match parse_u64(sp[1]) {
                            Some(c) => c,
                            None => 0u64,
                        }
                    } else {
                        0u64
                    },
                ),
            ),
            _ => None,
        }
    }
}

pub open spec fn ass_total_ms(f: (u64, u64, u64, u64)) -> int {
    f.0 * 3_600_000 + f.1 * 60_000 + f.2 * 1000 + f.3 * 10
}

/// An ASS time whose millisecond total does not fit in `u64`.
pub open spec fn ass_time_overflows(t: Seq<char>) -> bool {
    match ass_time_fields(t) {
        Some(f) => ass_total_ms(f) > u64::MAX,
        None => false,
    }
}

/// An ASS time as a WebVTT time, or the error for an unreadable one.
pub open spec fn ass_time_result(t: Seq<char>) -> Result<Seq<char>, Seq<char>> {
    match ass_time_fields(t) {
        Some(f) => Ok(vtt_time(ass_total_ms(f) as u64)),
        None => Err(MSG_INVALID_ASS_TIME@ + t),
    }
}

fn parse_piece(v: &Vec<Vec<char>>, i: usize) -> (r: Option<u64>)
    requires
        i < v.len(),
    ensures
        r == parse_u64(v@[i as int]@),
{
    parse_u64_chars(&v[i])
}

fn ass_time_checked(t: &str) -> (r: Option<Result<String, String>>)
    ensures
        r is None <==> ass_time_overflows(t@),
        r matches Some(x) ==> text_result(x) == ass_time_result(t@),
{
    let tc = str_chars(t);
    let pieces = split_chars(&tc, ':');
    let mut msg: Vec<char> = Vec::new();
    extend_str(&mut msg, MSG_INVALID_ASS_TIME);
    extend_str(&mut msg, t);
    if pieces.len() != 3 {
        return Some(Err(string_from_chars(&msg)));
    }
    let sec_parts = split_chars(&pieces[2], '.');
    proof { lemma_split_nonempty(pieces@[2]@, '.'); }
    let h = parse_piece(&pieces, 0);
    let m = parse_piece(&pieces, 1);
    let s = parse_piece(&sec_parts, 0);
    let (hours, minutes, seconds) = match (h, m, s) {
        (Some(a), Some(b), Some(c)) => (a, b, c),
        _ => {
            return Some(Err(string_from_chars(&msg)));
        },
    };
    let centis: u64 = if sec_parts.len() > 1 {
        match parse_piece(&sec_parts, 1) {
            Some(c) => c,
            None => 0,
        }
    } else {
        0
    };
    let ghost f = (hours, minutes, seconds, centis);
    assert(ass_time_fields(t@) == Some(f));
    let a = match hours.checked_mul(3_600_000) {
        Some(x) => x,
        None => {
            return None;
        },
    };
    let b = match minutes.checked_mul(60_000) {
        Some(x) => x,
        None => {
            return None;
        },
    };
    let c = match seconds.checked_mul(1000) {
        Some(x) => x,
        None => {
            return None;
        },
    };
    let d = match centis.checked_mul(10) {
        Some(x) => x,
        None => {
            return None;
        },
    };
    let ab = match a.checked_add(b) {
        Some(x) => x,
        None => {
            return None;
        },
    };
    let abc = match ab.checked_add(c) {
        Some(x) => x,
        None => {
            return None;
        },
    };
    let total = match abc.checked_add(d) {
        Some(x) => x,
        None => {
            return None;
        },
    };
    Some(Ok(ms_to_vtt(total)))
}

/// An ASS/SSA time (`H:MM:SS.cc`) as a WebVTT time (`HH:MM:SS.mmm`).
pub fn ass_time_to_vtt(t: &str) -> (r: Result<String, String>)
    requires
        !ass_time_overflows(t@),
    ensures
        text_result(r) == ass_time_result(t@),
{
    match ass_time_checked(t) {
        Some(x) => x,
        None => {
            proof { assert(false); }
            Err(String::new())
        },
    }
}

/// The characters `strip_ass_tags` keeps, and whether it ends inside `{...}`: override blocks
/// `{...}` are dropped, and so is every backslash outside them.
pub open spec fn ass_scan(s: Seq<char>) -> (Seq<char>, bool)
    decreases s.len(),
{
    if s.len() == 0 {
        (Seq::<char>::empty(), false)
    } else {
        let (o, t) = ass_scan(s.drop_last());
        let c = s.last();
        if c == '{' {
            (o, true)
        } else if c == '}' {
            (o, false)
        } else if !t && c != '\\' {
            (o.push(c), t)
        } else {
            (o, t)
        }
    }
}

/// Dialogue text without override tags and backslashes, `\N` and `\n` as line breaks, trimmed.
pub open spec fn strip_ass_spec(s: Seq<char>) -> Seq<char> {
    trim(
        replace_all(
            replace_all(ass_scan(s).0, seq!['\\', 'N'], seq!['\n']),
            seq!['\\', 'n'],
            seq!['\n'],
        ),
    )
}

pub fn strip_ass_tags(text: &str) -> (r: String)
    ensures
        r@ == strip_ass_spec(text@),
{
    let s = str_chars(text);
    let mut out: Vec<char> = Vec::new();
    let mut in_tag = false;
    let mut i: usize = 0;
    while i < s.len()
        invariant
            i <= s.len(),
            (out@, in_tag) == ass_scan(s@.take(i as int)),
        decreases s.len() - i,
    {
        let c = s[i];
        assert(s@.take(i + 1).drop_last() =~= s@.take(i as int));
        if c == '{' {
            in_tag = true;
        } else if c == '}' {
            in_tag = false;
        } else if !in_tag && c != '\\' {
            out.push(c);
        }
        i += 1;
    }
    assert(s@.take(s.len() as int) =~= s@);
    let pat_upper = vec!['\\', 'N'];
    let pat_lower = vec!['\\', 'n'];
    let newline = vec!['\n'];
    assert(pat_upper@ =~= seq!['\\', 'N']);
    assert(pat_lower@ =~= seq!['\\', 'n']);
    assert(newline@ =~= seq!['\n']);
    let r1 = replace_chars(&out, &pat_upper, &newline);
    let r2 = replace_chars(&r1, &pat_lower, &newline);
    let t = trim_chars(&r2);
    string_from_chars(&t)
}

/// The fields of an ASS event line split as `splitn(10, ',')`, when there are ten.
pub open spec fn ass_fields(t: Seq<char>) -> Option<Seq<Seq<char>>> {
    let p = split_char(t, ',');
    if p.len() < 10 {
        None
    } else {
        Some(p.take(9).push(join(p.skip(9), seq![','])))
    }
}

/// What one line of an ASS file contributes: `Some(Ok(Some(cue)))` for a dialogue cue,
/// `Some(Ok(None))` for a line that is skipped, `Some(Err(..))` for an unreadable time, and
/// `None` where a time overflows.
pub open spec fn ass_line_spec(line: Seq<char>) -> Option<Result<Option<Seq<char>>, Seq<char>>> {
    let t = trim(line);
    if !starts_with(t, ASS_DIALOGUE@) {
        Some(Ok(None))
    } else {
        match ass_fields(t) {
            None => Some(Ok(None)),
            Some(f) => {
                let st = trim(f[1]);
                let en = trim(f[2]);
                if ass_time_overflows(st) {
                    None
                } else {
                    match ass_time_result(st) {
                        Err(e) => Some(Err(e)),
                        Ok(a) => if ass_time_overflows(en) {
                            None
                        } else {
                            match ass_time_result(en) {
                                Err(e) => Some(Err(e)),
                                Ok(b) => {
                                    let text = strip_ass_spec(f[9]);
                                    if text.len() == 0 {
                                        Some(Ok(None))
                                    } else {
                                        Some(
                                            Ok(
                                                Some(
                                                    a + CUE_ARROW@ + b + seq!['\n'] + text + seq![
                                                        '\n',
                                                        '\n',
                                                    ],
                                                ),
                                            ),
                                        )
                                    }
                                },
                            }
                        },
                    }
                }
            },
        }
    }
}

/// Accumulated cues and their count, an error, or `None` where the conversion would overflow.
pub open spec fn ass_step(
    acc: Option<Result<(Seq<char>, nat), Seq<char>>>,
    line: Seq<char>,
) -> Option<Result<(Seq<char>, nat), Seq<char>>> {
    match acc {
        Some(Ok((out, n))) => match ass_line_spec(line) {
            None => None,
            Some(Err(e)) => Some(Err(e)),
            Some(Ok(None)) => acc,
            Some(Ok(Some(c))) => Some(Ok((out + c, n + 1))),
        },
        _ => acc,
    }
}

pub open spec fn ass_fold(ls: Seq<Seq<char>>) -> Option<Result<(Seq<char>, nat), Seq<char>>>
    decreases ls.len(),
{
    if ls.len() == 0 {
        Some(Ok((Seq::<char>::empty(), 0nat)))
    } else {
        ass_step(ass_fold(ls.drop_last()), ls.last())
    }
}

/// ASS/SSA to WebVTT: one cue per `Dialogue:` line with ten fields and non-empty text; the
/// first unreadable time is the error; `None` where a time overflows.
pub open spec fn ass_conversion(content: Seq<char>) -> Option<Result<Seq<char>, Seq<char>>> {
    match ass_fold(lines(content)) {
        None => None,
        Some(Err(e)) => Some(Err(e)),
        Some(Ok((cues, n))) => if n == 0 {
            Some(Err(MSG_NO_ASS_DIALOGUE@))
        } else {
            Some(Ok(VTT_HEADER@ + cues))
        },
    }
}

proof fn lemma_ass_fold_stuck(ls: Seq<Seq<char>>, k: int)
    requires
        0 <= k <= ls.len(),
        !(ass_fold(ls.take(k)) matches Some(Ok(_))),
    ensures
        ass_fold(ls) == ass_fold(ls.take(k)),
    decreases ls.len() - k,
{
    if ls.len() == k {
        assert(ls.take(k) =~= ls);
    } else {
        assert(ls.drop_last().take(k) =~= ls.take(k));
        lemma_ass_fold_stuck(ls.drop_last(), k);
    }
}

fn ass_line(line: &Vec<char>) -> (r: Option<Result<Option<Vec<char>>, String>>)
    ensures
        r is None <==> ass_line_spec(line@) is None,
        r matches Some(Err(e)) ==> ass_line_spec(line@) == Some(Err::<Option<Seq<char>>, Seq<char>>(e@)),
        r matches Some(Ok(None)) ==> ass_line_spec(line@) == Some(Ok::<Option<Seq<char>>, Seq<char>>(None)),
        r matches Some(Ok(Some(c))) ==> ass_line_spec(line@) == Some(Ok::<Option<Seq<char>>, Seq<char>>(Some(c@))),
{
    let dialogue = str_chars(ASS_DIALOGUE);
    let t = trim_chars(line);
    if !starts_with_chars(&t, &dialogue) {
        return Some(Ok(None));
    }
    let p = split_chars(&t, ',');
    if p.len() < 10 {
        return Some(Ok(None));
    }
    let ghost pv = split_char(t@, ',');
    let ghost fv = pv.take(9).push(join(pv.skip(9), seq![',']));
    assert(p@[1]@ == fv[1] && p@[2]@ == fv[2]);
    let st_c = trim_chars(&p[1]);
    let en_c = trim_chars(&p[2]);
    let st_s = string_from_chars(&st_c);
    let en_s = string_from_chars(&en_c);
    let a = match ass_time_checked(st_s.as_str()) {
        None => {
            return None;
        },
        Some(Err(e)) => {
            return Some(Err(e));
        },
        Some(Ok(x)) => x,
    };
    let b = match ass_time_checked(en_s.as_str()) {
        None => {
            return None;
        },
        Some(Err(e)) => {
            return Some(Err(e));
        },
        Some(Ok(x)) => x,
    };
    let mut tail: Vec<Vec<char>> = Vec::new();
    let mut k: usize = 9;
    while k < p.len()
        invariant
            9 <= k <= p.len(),
            tail@.len() == k - 9,
            forall|j: int| 0 <= j < tail@.len() ==> #[trigger] tail@[j]@ == p@[j + 9]@,
        decreases p.len() - k,
    {
        let piece = crate::text::sub_chars(&p[k], 0, p[k].len());
        assert(piece@ =~= p@[k as int]@);
        tail.push(piece);
        k += 1;
    }
    proof {
        assert(tail@.map_values(|q: Vec<char>| q@) =~= pv.skip(9));
    }
    let comma = vec![','];
    assert(comma@ =~= seq![',']);
    let rest = join_chars(&tail, &comma);
    assert(rest@ == fv[9]);
    let rest_s = string_from_chars(&rest);
    let text = strip_ass_tags(rest_s.as_str());
    if text.as_str().is_empty() {
        return Some(Ok(None));
    }
    let mut cue: Vec<char> = Vec::new();
    extend_str(&mut cue, a.as_str());
    extend_str(&mut cue, CUE_ARROW);
    extend_str(&mut cue, b.as_str());
    cue.push('\n');
    extend_str(&mut cue, text.as_str());
    cue.push('\n');
    cue.push('\n');
    assert(cue@ =~= a@ + CUE_ARROW@ + b@ + seq!['\n'] + text@ + seq!['\n', '\n']);
    Some(Ok(Some(cue)))
}

fn ass_convert(content: &str) -> (r: Option<Result<String, String>>)
    ensures
        r is None <==> ass_conversion(content@) is None,
        r matches Some(x) ==> Some(text_result(x)) == ass_conversion(content@),
{
    let chars = str_chars(content);
    let ls = lines_chars(&chars);
    let ghost lv = lines(content@);
    let mut out: Vec<char> = Vec::new();
    let mut count: usize = 0;
    let mut i: usize = 0;
    assert(lv.take(0) =~= Seq::<Seq<char>>::empty());
    while i < ls.len()
        invariant
            i <= ls.len(),
            ls@.len() == lv.len(),
            forall|k: int| 0 <= k < ls@.len() ==> #[trigger] ls@[k]@ == lv[k],
            lv == lines(content@),
            count <= i,
            ass_fold(lv.take(i as int)) == Some(Ok::<(Seq<char>, nat), Seq<char>>((out@, count as nat))),
        decreases ls.len() - i,
    {
        proof {
            assert(lv.take(i + 1).drop_last() =~= lv.take(i as int));
            assert(lv.take(i + 1).last() == ls@[i as int]@);
        }
        match ass_line(&ls[i]) {
            None => {
                proof { lemma_ass_fold_stuck(lv, i + 1); }
                return None;
            },
            Some(Err(e)) => {
                proof { lemma_ass_fold_stuck(lv, i + 1); }
                return Some(Err(e));
            },
            Some(Ok(None)) => {},
            Some(Ok(Some(c))) => {
                extend_chars(&mut out, &c);
                count += 1;
            },
        }
        i += 1;
    }
    assert(lv.take(ls.len() as int) =~= lv);
    if count == 0 {
        return Some(Err(String::from_str(MSG_NO_ASS_DIALOGUE)));
    }
    let mut full: Vec<char> = Vec::new();
    extend_str(&mut full, VTT_HEADER);
    extend_chars(&mut full, &out);
    Some(Ok(string_from_chars(&full)))
}

/// Converts SubStation Alpha (ASS/SSA) dialogue to WebVTT.
pub fn ass_to_vtt(content: &str) -> (r: Result<String, String>)
    requires
        ass_conversion(content@) is Some,
    ensures
        Some(text_result(r)) == ass_conversion(content@),
{
    match ass_convert(content) {
        Some(x) => x,
        None => {
            proof { assert(false); }
            Err(String::new())
        },
    }
}


// ------------------------------------------------------------------
// WebVTT and SubRip

pub const MSG_NO_SRT_CUES: &'static str = "no valid SRT cues";

/// Leading byte-order marks removed (`trim_start_matches('\u{feff}')`).
pub open spec fn drop_boms(s: Seq<char>) -> Seq<char>
    decreases s.len(),
{
    if s.len() > 0 && s[0] == '\u{feff}' {
        drop_boms(s.drop_first())
    } else {
        s
    }
}

/// WebVTT text as served: without leading BOMs, with the `WEBVTT` header added when missing.
pub open spec fn normalize_vtt_spec(s: Seq<char>) -> Seq<char> {
    let t = drop_boms(s);
    if starts_with(t, VTT_MAGIC@) {
        t
    } else {
        VTT_HEADER@ + t
    }
}

pub fn normalize_vtt(content: &str) -> (r: String)
    ensures
        r@ == normalize_vtt_spec(content@),
{
    let c = str_chars(content);
    let mut i: usize = 0;
    assert(c@.subrange(0, c.len() as int) =~= c@);
    while i < c.len() && c[i] == '\u{feff}'
        invariant
            i <= c.len(),
            drop_boms(c@.subrange(i as int, c.len() as int)) == drop_boms(c@),
        decreases c.len() - i,
    {
        assert(c@.subrange(i as int, c.len() as int).drop_first() =~= c@.subrange(i + 1, c.len() as int));
        i += 1;
    }
    let t = crate::text::sub_chars(&c, i, c.len());
    let magic = str_chars(VTT_MAGIC);
    if starts_with_chars(&t, &magic) {
        string_from_chars(&t)
    } else {
        let mut out: Vec<char> = Vec::new();
        extend_str(&mut out, VTT_HEADER);
        extend_chars(&mut out, &t);
        string_from_chars(&out)
    }
}

/// `str::split` with a non-empty pattern, from position `start` on.
pub open spec fn split_from(s: Seq<char>, sep: Seq<char>, start: int) -> Seq<Seq<char>>
    decreases s.len() - start,
{
    if sep.len() == 0 || start < 0 || start > s.len() {
        seq![s.subrange(start, s.len() as int)]
    } else {
        match find_in(s, sep, start, s.len() as int) {
            None => seq![s.subrange(start, s.len() as int)],
            Some(i) => {
                proof { lemma_find_in(s, sep, start, s.len() as int); }
                seq![s.subrange(start, i)] + split_from(s, sep, i + sep.len())
            },
        }
    }
}

pub fn split_on_chars(s: &Vec<char>, sep: &Vec<char>) -> (r: Vec<Vec<char>>)
    requires
        sep.len() > 0,
    ensures
        r@.map_values(|p: Vec<char>| p@) == split_from(s@, sep@, 0),
{
    let mut pieces: Vec<Vec<char>> = Vec::new();
    let mut start: usize = 0;
    assert(pieces@.map_values(|p: Vec<char>| p@) + split_from(s@, sep@, 0) =~= split_from(s@, sep@, 0));
    loop
        invariant_except_break
            start <= s.len(),
            sep.len() > 0,
            pieces@.map_values(|p: Vec<char>| p@) + split_from(s@, sep@, start as int) == split_from(s@, sep@, 0),
        ensures
            pieces@.map_values(|p: Vec<char>| p@) == split_from(s@, sep@, 0),
        decreases s.len() - start,
    {
        let ghost before = pieces@.map_values(|p: Vec<char>| p@);
        match find_chars_in(s, sep, start, s.len()) {
            None => {
                let piece = crate::text::sub_chars(s, start, s.len());
                pieces.push(piece);
                assert(pieces@.map_values(|p: Vec<char>| p@) =~= before.push(piece@));
                assert(before.push(piece@) =~= before + split_from(s@, sep@, start as int));
                break;
            },
            Some(i) => {
                proof { lemma_find_in(s@, sep@, start as int, s.len() as int); }
                let piece = crate::text::sub_chars(s, start, i);
                pieces.push(piece);
                assert(pieces@.map_values(|p: Vec<char>| p@) =~= before.push(piece@));
                assert(before + split_from(s@, sep@, start as int) =~= before.push(piece@) + split_from(s@, sep@, i + sep@.len()));
                start = i + sep.len();
            },
        }
    }
    pieces
}

/// Lines that are not blank (`filter(|l| !l.trim().is_empty())`).
pub open spec fn keep_nonblank(ls: Seq<Seq<char>>) -> Seq<Seq<char>>
    decreases ls.len(),
{
    if ls.len() == 0 {
        ls
    } else {
        let p = keep_nonblank(ls.drop_last());
        if trim(ls.last()).len() > 0 {
            p.push(ls.last())
        } else {
            p
        }
    }
}

pub open spec fn arrow_mark() -> Seq<char> {
    seq!['-', '-', '>']
}

/// The cue that one SubRip block gives (empty when the block is skipped): at least two
/// non-blank lines, a timing line containing `-->` first or second, the lines after it as
/// text, which must not be blank; the timing's `,` become `.`.
pub open spec fn srt_cue(block: Seq<char>) -> Seq<char> {
    let ls = keep_nonblank(lines(block));
    if ls.len() < 2 {
        Seq::<char>::empty()
    } else {
        let first = contains(ls[0], arrow_mark());
        if !first && !contains(ls[1], arrow_mark()) {
            Seq::<char>::empty()
        } else {
            let time_line = if first {
                ls[0]
            } else {
                ls[1]
            };
            let text = join(
                ls.skip(
                    if first {
                        1
                    } else {
                        2
                    },
                ),
                seq!['\n'],
            );
            if trim(text).len() == 0 {
                Seq::<char>::empty()
            } else {
                replace_all(time_line, seq![','], seq!['.']) + seq!['\n'] + text + seq!['\n', '\n']
            }
        }
    }
}

proof fn lemma_keep_nonblank_nonblank(ls: Seq<Seq<char>>)
    ensures
        forall|k: int| 0 <= k < keep_nonblank(ls).len() ==> trim(#[trigger] keep_nonblank(ls)[k]).len() > 0,
    decreases ls.len(),
{
    if ls.len() > 0 {
        lemma_keep_nonblank_nonblank(ls.drop_last());
        let p = keep_nonblank(ls.drop_last());
        assert forall|k: int| 0 <= k < keep_nonblank(ls).len() implies trim(#[trigger] keep_nonblank(ls)[k]).len() > 0 by {
            if k < p.len() {
                assert(keep_nonblank(ls)[k] == p[k]);
            }
        }
    }
}

/// Joined parts begin with the first part.
proof fn lemma_join_starts_with_first(parts: Seq<Seq<char>>, sep: Seq<char>)
    requires
        parts.len() >= 1,
    ensures
        join(parts, sep).len() >= parts[0].len(),
        forall|i: int| 0 <= i < parts[0].len() ==> #[trigger] join(parts, sep)[i] == parts[0][i],
    decreases parts.len(),
{
    if parts.len() > 1 {
        lemma_join_starts_with_first(parts.drop_last(), sep);
        assert(parts.drop_last()[0] == parts[0]);
    }
}

/// Text after a non-blank first line is not blank.
proof fn lemma_join_nonblank(parts: Seq<Seq<char>>, sep: Seq<char>)
    requires
        parts.len() >= 1,
        trim(parts[0]).len() > 0,
    ensures
        trim(join(parts, sep)).len() > 0,
{
    lemma_trim_nonempty(parts[0]);
    let i = choose|i: int| 0 <= i < parts[0].len() && !is_ws(#[trigger] parts[0][i]);
    lemma_join_starts_with_first(parts, sep);
    assert(join(parts, sep)[i] == parts[0][i]);
    lemma_trim_nonempty(join(parts, sep));
}

/// An SRT block whose timing line comes first (no cue number) keeps every text line: its cue
/// is the timing (`,` made `.`), then all the following non-blank lines joined by newlines.
/// A block with a cue number first and the timing second keeps every line after the timing,
/// provided there is one.
pub proof fn lemma_srt_cue_keeps_all_text(block: Seq<char>)
    ensures
        keep_nonblank(lines(block)).len() >= 2 && contains(keep_nonblank(lines(block))[0], arrow_mark())
            ==> srt_cue(block) == replace_all(keep_nonblank(lines(block))[0], seq![','], seq!['.'])
            + seq!['\n'] + join(keep_nonblank(lines(block)).skip(1), seq!['\n']) + seq!['\n', '\n'],
        keep_nonblank(lines(block)).len() >= 3 && !contains(keep_nonblank(lines(block))[0], arrow_mark())
            && contains(keep_nonblank(lines(block))[1], arrow_mark()) ==> srt_cue(block) == replace_all(
            keep_nonblank(lines(block))[1],
            seq![','],
            seq!['.'],
        ) + seq!['\n'] + join(keep_nonblank(lines(block)).skip(2), seq!['\n']) + seq!['\n', '\n'],
{
    let ls = keep_nonblank(lines(block));
    lemma_keep_nonblank_nonblank(lines(block));
    if ls.len() >= 2 {
        assert(ls.skip(1)[0] == ls[1]);
        lemma_join_nonblank(ls.skip(1), seq!['\n']);
    }
    if ls.len() >= 3 {
        assert(ls.skip(2)[0] == ls[2]);
        lemma_join_nonblank(ls.skip(2), seq!['\n']);
    }
}

pub open spec fn srt_cues(blocks: Seq<Seq<char>>) -> Seq<char>
    decreases blocks.len(),
{
    if blocks.len() == 0 {
        Seq::<char>::empty()
    } else {
        srt_cues(blocks.drop_last()) + srt_cue(blocks.last())
    }
}

/// Line breaks as `\n` only.
pub open spec fn unix_newlines(s: Seq<char>) -> Seq<char> {
    replace_all(replace_all(s, seq!['\r', '\n'], seq!['\n']), seq!['\r'], seq!['\n'])
}

/// SubRip to WebVTT: the blocks between blank lines, each converted by `srt_cue`; an error
/// when no cue comes out.
pub open spec fn srt_conversion(content: Seq<char>) -> Result<Seq<char>, Seq<char>> {
    let out = VTT_HEADER@ + srt_cues(split_from(unix_newlines(content), seq!['\n', '\n'], 0));
    if trim(out) == VTT_MAGIC@ {
        Err(MSG_NO_SRT_CUES@)
    } else {
        Ok(out)
    }
}

fn srt_block_cue(block: &Vec<char>) -> (r: Vec<char>)
    ensures
        r@ == srt_cue(block@),
{
    let all = lines_chars(block);
    let ghost lv = lines(block@);
    let mut ls: Vec<Vec<char>> = Vec::new();
    let mut i: usize = 0;
    assert(lv.take(0) =~= Seq::<Seq<char>>::empty());
    while i < all.len()
        invariant
            i <= all.len(),
            all@.len() == lv.len(),
            forall|k: int| 0 <= k < all@.len() ==> #[trigger] all@[k]@ == lv[k],
            ls@.map_values(|p: Vec<char>| p@) == keep_nonblank(lv.take(i as int)),
        decreases all.len() - i,
    {
        let ghost before = ls@.map_values(|p: Vec<char>| p@);
        assert(lv.take(i + 1).drop_last() =~= lv.take(i as int));
        let t = trim_chars(&all[i]);
        if t.len() > 0 {
            let l = crate::text::sub_chars(&all[i], 0, all[i].len());
            assert(l@ =~= lv[i as int]);
            ls.push(l);
            assert(ls@.map_values(|p: Vec<char>| p@) =~= before.push(lv[i as int]));
        }
        i += 1;
    }
    assert(lv.take(all.len() as int) =~= lv);
    let ghost kv = ls@.map_values(|p: Vec<char>| p@);
    let empty: Vec<char> = Vec::new();
    if ls.len() < 2 {
        return empty;
    }
    let arrow = vec!['-', '-', '>'];
    assert(arrow@ =~= arrow_mark());
    assert(ls@[0]@ == kv[0] && ls@[1]@ == kv[1]);
    let first = crate::text::contains_chars(&ls[0], &arrow);
    if !first && !crate::text::contains_chars(&ls[1], &arrow) {
        return empty;
    }
    let ts: usize = if first { 1 } else { 2 };
    let mut tail: Vec<Vec<char>> = Vec::new();
    let mut k: usize = ts;
    while k < ls.len()
        invariant
            ts <= k <= ls.len(),
            tail@.len() == k - ts,
            forall|j: int| 0 <= j < tail@.len() ==> #[trigger] tail@[j]@ == ls@[j + ts]@,
        decreases ls.len() - k,
    {
        let piece = crate::text::sub_chars(&ls[k], 0, ls[k].len());
        assert(piece@ =~= ls@[k as int]@);
        tail.push(piece);
        k += 1;
    }
    assert(tail@.map_values(|p: Vec<char>| p@) =~= kv.skip(ts as int));
    let nl = vec!['\n'];
    assert(nl@ =~= seq!['\n']);
    let text = join_chars(&tail, &nl);
    let tt = trim_chars(&text);
    if tt.len() == 0 {
        return empty;
    }
    let comma = vec![','];
    let dot = vec!['.'];
    assert(comma@ =~= seq![',']);
    assert(dot@ =~= seq!['.']);
    let timing = if first {
        replace_chars(&ls[0], &comma, &dot)
    } else {
        replace_chars(&ls[1], &comma, &dot)
    };
    let mut out = timing;
    out.push('\n');
    extend_chars(&mut out, &text);
    out.push('\n');
    out.push('\n');
    out
}

/// Converts SubRip (SRT) text to WebVTT.
pub fn srt_to_vtt(content: &str) -> (r: Result<String, String>)
    ensures
        text_result(r) == srt_conversion(content@),
{
    let c = str_chars(content);
    let crlf = vec!['\r', '\n'];
    let cr = vec!['\r'];
    let lf = vec!['\n'];
    let blank = vec!['\n', '\n'];
    assert(crlf@ =~= seq!['\r', '\n']);
    assert(cr@ =~= seq!['\r']);
    assert(lf@ =~= seq!['\n']);
    assert(blank@ =~= seq!['\n', '\n']);
    let n1 = replace_chars(&c, &crlf, &lf);
    let norm = replace_chars(&n1, &cr, &lf);
    let blocks = split_on_chars(&norm, &blank);
    let ghost bv = blocks@.map_values(|p: Vec<char>| p@);
    let mut cues: Vec<char> = Vec::new();
    let mut i: usize = 0;
    assert(bv.take(0) =~= Seq::<Seq<char>>::empty());
    while i < blocks.len()
        invariant
            i <= blocks.len(),
            bv == blocks@.map_values(|p: Vec<char>| p@),
            cues@ == srt_cues(bv.take(i as int)),
        decreases blocks.len() - i,
    {
        assert(bv.take(i + 1).drop_last() =~= bv.take(i as int));
        let cue = srt_block_cue(&blocks[i]);
        extend_chars(&mut cues, &cue);
        i += 1;
    }
    assert(bv.take(blocks.len() as int) =~= bv);
    let mut out: Vec<char> = Vec::new();
    extend_str(&mut out, VTT_HEADER);
    extend_chars(&mut out, &cues);
    let t = trim_chars(&out);
    let magic = str_chars(VTT_MAGIC);
    if crate::text::chars_eq(&t, &magic) {
        Err(String::from_str(MSG_NO_SRT_CUES))
    } else {
        Ok(string_from_chars(&out))
    }
}


// ------------------------------------------------------------------
// conversion by format

pub const MSG_UNSUPPORTED_FORMAT: &'static str = "unsupported subtitle format: ";

/// Subtitle text of the format named by `ext` as WebVTT; `None` where the conversion would panic.
pub open spec fn to_vtt_spec(content: Seq<char>, ext: Seq<char>) -> Option<Result<Seq<char>, Seq<char>>> {
    if ext == "vtt"@ {
        Some(Ok(normalize_vtt_spec(content)))
    } else if ext == "srt"@ {
        Some(srt_conversion(content))
    } else if ext == "smi"@ {
        smi_conversion(content)
    } else if ext == "ass"@ || ext == "ssa"@ {
        ass_conversion(content)
    } else {
        Some(Err(MSG_UNSUPPORTED_FORMAT@ + ext))
    }
}

/// Converts subtitle text of format `ext` (`vtt`, `srt`, `smi`, `ass`, `ssa`) to WebVTT.
pub fn to_vtt(content: &str, ext: &str) -> (r: Result<String, String>)
    requires
        to_vtt_spec(content@, ext@) is Some,
    ensures
        Some(text_result(r)) == to_vtt_spec(content@, ext@),
{
    if str_eq(ext, "vtt") {
        Ok(normalize_vtt(content))
    } else if str_eq(ext, "srt") {
        srt_to_vtt(content)
    } else if str_eq(ext, "smi") {
        smi_to_vtt(content)
    } else if str_eq(ext, "ass") || str_eq(ext, "ssa") {
        ass_to_vtt(content)
    } else {
        let mut msg: Vec<char> = Vec::new();
        extend_str(&mut msg, MSG_UNSUPPORTED_FORMAT);
        extend_str(&mut msg, ext);
        Err(string_from_chars(&msg))
    }
}

proof fn lemma_format_names_distinct()
    ensures
        "vtt"@ != "srt"@,
        "vtt"@ != "smi"@,
        "vtt"@ != "ass"@,
        "vtt"@ != "ssa"@,
        "srt"@ != "smi"@,
        "srt"@ != "ass"@,
        "srt"@ != "ssa"@,
        "smi"@ != "ass"@,
        "smi"@ != "ssa"@,
{
    reveal_strlit("vtt");
    reveal_strlit("srt");
    reveal_strlit("smi");
    reveal_strlit("ass");
    reveal_strlit("ssa");
    assert("vtt"@[0] != "srt"@[0]);
    assert("vtt"@[0] != "smi"@[0]);
    assert("vtt"@[0] != "ass"@[0]);
    assert("vtt"@[0] != "ssa"@[0]);
    assert("srt"@[1] != "smi"@[1]);
    assert("srt"@[0] != "ass"@[0]);
    assert("srt"@[1] != "ssa"@[1]);
    assert("smi"@[0] != "ass"@[0]);
    assert("smi"@[1] != "ssa"@[1]);
}

/// Whether `to_vtt` completes on this text and format.
pub fn to_vtt_completes(content: &str, ext: &str) -> (r: bool)
    ensures
        r == to_vtt_spec(content@, ext@) is Some,
{
    proof { lemma_format_names_distinct(); }
    if str_eq(ext, "smi") {
        smi_conversion_completes(content)
    } else if str_eq(ext, "ass") || str_eq(ext, "ssa") {
        ass_convert(content).is_some()
    } else {
        true
    }
}

/// A subtitle file's bytes as WebVTT: decoded, then converted; decoding and conversion errors
/// are bad requests. `None` where the conversion would panic.
pub open spec fn subtitle_file_vtt(raw: Seq<u8>, ext: Seq<char>) -> Option<Result<Seq<char>, ErrView>> {
    match decode_subtitle_spec(raw) {
        Err(e) => Some(Err(ErrView::BadRequest(e))),
        Ok(text) => match to_vtt_spec(text, ext) {
            None => None,
            Some(Ok(v)) => Some(Ok(v)),
            Some(Err(e)) => Some(Err(ErrView::BadRequest(e))),
        },
    }
}

/// Decodes subtitle file bytes and converts them to WebVTT; `None` where the conversion would
/// panic.
pub fn subtitle_file_to_vtt(raw: &[u8], ext: &str) -> (r: Option<Result<String, NasError>>)
    requires
        raw@.len() < usize::MAX / 4,
    ensures
        r matches Some(x) ==> Some(match x { Ok(v) => Ok(v@), Err(e) => Err(e@) }) == subtitle_file_vtt(raw@, ext@),
        r is None <==> subtitle_file_vtt(raw@, ext@) is None,
{
    let text = match decode_subtitle_bytes(raw) {
        Ok(t) => t,
        Err(e) => {
            return Some(Err(NasError::BadRequest(e)));
        },
    };
    if !to_vtt_completes(text.as_str(), ext) {
        return None;
    }
    match to_vtt(text.as_str(), ext) {
        Ok(v) => Some(Ok(v)),
        Err(e) => Some(Err(NasError::BadRequest(e))),
    }
}


// ------------------------------------------------------------------
// laws

proof fn lemma_header_starts_with_magic(t: Seq<char>)
    ensures
        starts_with(VTT_HEADER@ + t, VTT_MAGIC@),
        (VTT_HEADER@ + t).len() > 0 && (VTT_HEADER@ + t)[0] == 'W',
{
    reveal_strlit("WEBVTT");
    reveal_strlit("WEBVTT\n\n");
    assert((VTT_HEADER@ + t).subrange(0, 6) =~= VTT_MAGIC@);
}

/// Every WebVTT text that a conversion produces starts with `WEBVTT`.
pub proof fn lemma_converted_starts_with_webvtt(content: Seq<char>, ext: Seq<char>, out: Seq<char>)
    requires
        to_vtt_spec(content, ext) == Some(Ok::<Seq<char>, Seq<char>>(out)),
    ensures
        starts_with(out, VTT_MAGIC@),
{
    let t = drop_boms(content);
    lemma_header_starts_with_magic(t);
    if ext != "vtt"@ && ext != "srt"@ && ext != "smi"@ {
        match ass_fold(lines(content)) {
            Some(Ok((cues, n))) => lemma_header_starts_with_magic(cues),
            _ => {},
        }
    } else if ext == "srt"@ {
        lemma_header_starts_with_magic(srt_cues(split_from(unix_newlines(content), seq!['\n', '\n'], 0)));
    } else if ext == "smi"@ {
        let b = encode_utf8(content);
        let l = encode_utf8(unicode_lowercase(content));
        let be = crate::smi::smi_body_end(b, l);
        match crate::smi::smi_scan(b, l, be, 0) {
            Some(syncs) => lemma_header_starts_with_magic(crate::smi::smi_cues(b, syncs, be, syncs.len() as int)),
            None => {},
        }
    }
}

/// Normalising WebVTT text twice gives what normalising once gives.
pub proof fn lemma_normalize_vtt_idempotent(s: Seq<char>)
    ensures
        normalize_vtt_spec(normalize_vtt_spec(s)) == normalize_vtt_spec(s),
{
    let t = drop_boms(s);
    let r = normalize_vtt_spec(s);
    reveal_strlit("WEBVTT");
    if starts_with(t, VTT_MAGIC@) {
        assert(t.subrange(0, 6) == VTT_MAGIC@);
        assert(t[0] == t.subrange(0, 6)[0]);
        assert(t[0] == 'W');
    } else {
        lemma_header_starts_with_magic(t);
    }
    assert(r.len() > 0 && r[0] == 'W') by {
        if starts_with(t, VTT_MAGIC@) {
            assert(r == t);
        }
    }
    assert(drop_boms(r) == r);
    if starts_with(t, VTT_MAGIC@) {
    } else {
        lemma_header_starts_with_magic(t);
    }
}

} // verus!
