//! HTTP byte ranges for streaming files.
use vstd::prelude::*;
use crate::bytes::{find_chars_in, find_in, lemma_find_in};
use vstd::string::*;
use crate::models::opt_view;
use crate::text::{
    all_digits, is_digit, lemma_dec_digits, lemma_parse_dec_digits, dec_digits, extend_str, parse_u64, parse_u64_chars, push_decimal, starts_with, starts_with_chars, str_chars,
    string_from_chars, sub_chars,
};

verus! {

pub open spec fn bytes_unit() -> Seq<char> {
    seq!['b', 'y', 't', 'e', 's', '=']
}

/// The range spec after `bytes=` and its first `-`: the text before and after that `-`.
pub open spec fn range_parts(range: Seq<char>) -> Option<(Seq<char>, Seq<char>)> {
    if !starts_with(range, bytes_unit()) {
        None
    } else {
        let spec = range.skip(6);
        match find_in(spec, seq!['-'], 0, spec.len() as int) {
            None => None,
            Some(i) => Some((spec.take(i), spec.skip(i + 1))),
        }
    }
}

/// An open range (`bytes=N-`) of an empty file, whose last byte would be computed as `0 - 1`.
pub open spec fn range_underflows(range: Option<Seq<char>>, file_size: u64) -> bool {
    match range {
        None => false,
        Some(r) => match range_parts(r) {
            None => false,
            Some((s, e)) => s.len() > 0 && parse_u64(s) is Some && e.len() == 0 && file_size == 0,
        },
    }
}

/// The inclusive byte range that a `Range` header asks for: `bytes=S-E`, `bytes=S-` (to the end)
/// or `bytes=-N` (the last N bytes); `None` when absent, malformed or not satisfiable.
pub open spec fn range_spec(range: Option<Seq<char>>, file_size: u64) -> Option<(u64, u64)> {
    match range {
        None => None,
        Some(r) => match range_parts(r) {
            None => None,
            Some((s, e)) => if s.len() == 0 {
                match parse_u64(e) {
                    None => None,
                    Some(n) => if n == 0 || n > file_size {
                        None
                    } else {
                        Some(((file_size - n) as u64, (file_size - 1) as u64))
                    },
                }
            } else {
                match parse_u64(s) {
                    None => None,
                    Some(start) => {
                        let end = if e.len() == 0 {
                            Some((file_size - 1) as u64)
                        } else {
                            parse_u64(e)
                        };
                        match end {
                            None => None,
                            Some(end) => if start > end || end >= file_size {
                                None
                            } else {
                                Some((start, end))
                            },
                        }
                    },
                }
            },
        },
    }
}

/// The first `-` at or after `from` in digits, a `-` and more text is that `-`.
proof fn lemma_find_dash(a: Seq<char>, b: Seq<char>, from: int)
    requires
        all_digits(a),
        0 <= from <= a.len(),
    ensures
        find_in(a + seq!['-'] + b, seq!['-'], from, (a + seq!['-'] + b).len() as int) == Some(a.len() as int),
    decreases a.len() - from,
{
    let h = a + seq!['-'] + b;
    if from < a.len() {
        assert(is_digit(a[from]));
        assert(h[from] == a[from]);
        if h.subrange(from, from + 1) == seq!['-'] {
            assert(h.subrange(from, from + 1)[0] == h[from]);
        }
        lemma_find_dash(a, b, from + 1);
    } else {
        assert(h.subrange(from, from + 1) =~= seq!['-']);
    }
}

/// A range with explicit ends inside the file is served as asked: for every `start <= end <
/// file_size`, `bytes=<start>-<end>` gives `(start, end)`, the file's last byte included.
pub proof fn lemma_explicit_range_served(start: u64, end: u64, file_size: u64)
    requires
        start <= end < file_size,
    ensures
        range_spec(
            Some(bytes_unit() + dec_digits(start as nat) + seq!['-'] + dec_digits(end as nat)),
            file_size,
        ) == Some((start, end)),
        !range_underflows(
            Some(bytes_unit() + dec_digits(start as nat) + seq!['-'] + dec_digits(end as nat)),
            file_size,
        ),
{
    let a = dec_digits(start as nat);
    let b = dec_digits(end as nat);
    let r = bytes_unit() + a + seq!['-'] + b;
    lemma_dec_digits(start as nat);
    lemma_dec_digits(end as nat);
    lemma_parse_dec_digits(start);
    lemma_parse_dec_digits(end);
    assert(r.subrange(0, 6) =~= bytes_unit());
    let spec = r.skip(6);
    assert(spec =~= a + seq!['-'] + b);
    lemma_find_dash(a, b, 0);
    assert(spec.take(a.len() as int) =~= a);
    assert(spec.skip(a.len() as int + 1) =~= b);
}

/// An explicit range that is reversed or reaches past the file (`start > end` or `end >=
/// file_size`) is not served: the whole file is sent instead.
pub proof fn lemma_explicit_range_refused(start: u64, end: u64, file_size: u64)
    requires
        start > end || end >= file_size,
    ensures
        range_spec(
            Some(bytes_unit() + dec_digits(start as nat) + seq!['-'] + dec_digits(end as nat)),
            file_size,
        ) is None,
{
    let a = dec_digits(start as nat);
    let b = dec_digits(end as nat);
    let r = bytes_unit() + a + seq!['-'] + b;
    lemma_dec_digits(start as nat);
    lemma_dec_digits(end as nat);
    lemma_parse_dec_digits(start);
    lemma_parse_dec_digits(end);
    assert(r.subrange(0, 6) =~= bytes_unit());
    let spec = r.skip(6);
    assert(spec =~= a + seq!['-'] + b);
    lemma_find_dash(a, b, 0);
    assert(spec.take(a.len() as int) =~= a);
    assert(spec.skip(a.len() as int + 1) =~= b);
}

/// A suffix range (`bytes=-<n>`) of 1 to `file_size` bytes is served as the file's last `n`
/// bytes.
pub proof fn lemma_suffix_range_served(n: u64, file_size: u64)
    requires
        1 <= n <= file_size,
    ensures
        range_spec(Some(bytes_unit() + seq!['-'] + dec_digits(n as nat)), file_size) == Some(
            ((file_size - n) as u64, (file_size - 1) as u64),
        ),
{
    let b = dec_digits(n as nat);
    let r = bytes_unit() + seq!['-'] + b;
    lemma_parse_dec_digits(n);
    assert(r.subrange(0, 6) =~= bytes_unit());
    let spec = r.skip(6);
    assert(spec =~= Seq::<char>::empty() + seq!['-'] + b);
    lemma_find_dash(Seq::<char>::empty(), b, 0);
    assert(spec.take(0) =~= Seq::<char>::empty());
    assert(spec.skip(1) =~= b);
}

/// A range to the end (`bytes=<start>-`) of a non-empty file starting inside it is served from
/// `start` to the last byte.
pub proof fn lemma_open_range_served(start: u64, file_size: u64)
    requires
        start < file_size,
    ensures
        range_spec(Some(bytes_unit() + dec_digits(start as nat) + seq!['-']), file_size) == Some(
            (start, (file_size - 1) as u64),
        ),
{
    let a = dec_digits(start as nat);
    let r = bytes_unit() + a + seq!['-'];
    lemma_dec_digits(start as nat);
    lemma_parse_dec_digits(start);
    assert(r.subrange(0, 6) =~= bytes_unit());
    let spec = r.skip(6);
    assert(spec =~= a + seq!['-'] + Seq::<char>::empty());
    lemma_find_dash(a, Seq::<char>::empty(), 0);
    assert(spec.take(a.len() as int) =~= a);
    assert(spec.skip(a.len() as int + 1) =~= Seq::<char>::empty());
}

/// Parses an HTTP `Range` header into an inclusive `(start, end)` byte range of a file of
/// `file_size` bytes.
pub fn parse_range_header(range: Option<&str>, file_size: u64) -> (r: Option<(u64, u64)>)
    requires
        !range_underflows(
            match range {
                Some(s) => Some(s@),
                None => None,
            },
            file_size,
        ),
    ensures
        r == range_spec(
            match range {
                Some(s) => Some(s@),
                None => None,
            },
            file_size,
        ),
        r matches Some((s, e)) ==> s <= e < file_size,
{
    let range = match range {
        Some(x) => x,
        None => {
            return None;
        },
    };
    let rc = str_chars(range);
    let unit = vec!['b', 'y', 't', 'e', 's', '='];
    assert(unit@ =~= bytes_unit());
    if !starts_with_chars(&rc, &unit) {
        return None;
    }
    let spec = sub_chars(&rc, 6, rc.len());
    assert(spec@ =~= rc@.skip(6));
    let dash = vec!['-'];
    assert(dash@ =~= seq!['-']);
    let i = match find_chars_in(&spec, &dash, 0, spec.len()) {
        None => {
            return None;
        },
        Some(i) => i,
    };
    proof { lemma_find_in(spec@, dash@, 0, spec@.len() as int); }
    let start_s = sub_chars(&spec, 0, i);
    let end_s = sub_chars(&spec, i + 1, spec.len());
    assert(start_s@ =~= spec@.take(i as int));
    assert(end_s@ =~= spec@.skip(i + 1));
    if start_s.len() == 0 {
        let suffix = match parse_u64_chars(&end_s) {
            None => {
                return None;
            },
            Some(n) => n,
        };
        if suffix == 0 || suffix > file_size {
            return None;
        }
        return Some((file_size - suffix, file_size - 1));
    }
    let start = match parse_u64_chars(&start_s) {
        None => {
            return None;
        },
        Some(n) => n,
    };
    let end = if end_s.len() == 0 {
        file_size - 1
    } else {
        match parse_u64_chars(&end_s) {
            None => {
                return None;
            },
            Some(n) => n,
        }
    };
    if start > end || end >= file_size {
        return None;
    }
    Some((start, end))
}

// ------------------------------------------------------------------
// the response

pub const DISPOSITION_INLINE: &'static str = "inline; filename=\"";

pub const DISPOSITION_ATTACHMENT: &'static str = "attachment; filename=\"";

/// `Content-Disposition` of a served file: shown in the browser (`inline`) or saved.
pub open spec fn disposition_spec(filename: Seq<char>, inline: bool) -> Seq<char> {
    (if inline { DISPOSITION_INLINE@ } else { DISPOSITION_ATTACHMENT@ }) + filename + seq!['"']
}

pub fn content_disposition(filename: &str, inline: bool) -> (r: String)
    ensures
        r@ == disposition_spec(filename@, inline),
{
    let mut out: Vec<char> = Vec::new();
    if inline {
        extend_str(&mut out, DISPOSITION_INLINE);
    } else {
        extend_str(&mut out, DISPOSITION_ATTACHMENT);
    }
    extend_str(&mut out, filename);
    out.push('"');
    string_from_chars(&out)
}

/// `Content-Range` of a partial response: `bytes start-end/size`.
pub open spec fn content_range_spec(start: u64, end: u64, size: u64) -> Seq<char> {
    seq!['b', 'y', 't', 'e', 's', ' '] + dec_digits(start as nat) + seq!['-'] + dec_digits(end as nat)
        + seq!['/'] + dec_digits(size as nat)
}

/// How a file is served: the status, where reading starts and how many bytes are sent, its
/// disposition, and the range header of a partial response.
pub struct StreamPlan {
    pub status: u16,
    pub start: u64,
    pub length: u64,
    pub disposition: String,
    pub content_range: Option<String>,
}

/// A whole file is served with 200; a satisfiable byte range with 206 and its bytes only.
pub fn stream_plan(file_size: u64, filename: &str, inline: bool, range: Option<(u64, u64)>) -> (r: StreamPlan)
    requires
        range matches Some((s, e)) ==> s <= e < file_size,
    ensures
        r.disposition@ == disposition_spec(filename@, inline),
        match range {
            Some((s, e)) => r.status == 206 && r.start == s && r.length == e - s + 1 && opt_view(r.content_range)
                == Some(content_range_spec(s, e, file_size)),
            None => r.status == 200 && r.start == 0 && r.length == file_size && r.content_range is None,
        },
{
    let disposition = content_disposition(filename, inline);
    match range {
        Some((start, end)) => {
            let mut cr: Vec<char> = Vec::new();
            extend_str(&mut cr, "bytes ");
            proof { reveal_strlit("bytes "); }
            assert(cr@ =~= seq!['b', 'y', 't', 'e', 's', ' ']);
            push_decimal(&mut cr, start);
            cr.push('-');
            push_decimal(&mut cr, end);
            cr.push('/');
            push_decimal(&mut cr, file_size);
            StreamPlan {
                status: 206,
                start,
                length: end - start + 1,
                disposition,
                content_range: Some(string_from_chars(&cr)),
            }
        },
        None => StreamPlan { status: 200, start: 0, length: file_size, disposition, content_range: None },
    }
}

} // verus!
