//! WebDAV paths as crew file trees: `/<crew id>/<folder>/.../<name>`, percent-decoded, with the
//! segment normalisation Windows clients need, and the walks that resolve a path one folder
//! lookup at a time (the lookups themselves are the caller's).
use vstd::prelude::*;
use vstd::string::*;
use vstd::utf8::*;
use unicode_normalization::UnicodeNormalization;
use crate::models::{FolderMetadata, ObjectMetadata};
use crate::text::{
    extend_str, join, join_chars, split_char, split_chars, str_chars, str_eq, string_from_chars,
    sub_chars, lemma_split_nonempty,
};

verus! {

broadcast use vstd::utf8::group_utf8_lib;

pub const MSG_CREW_ID_REQUIRED: &'static str = "WebDAV 경로에 Crew ID가 필요합니다.";

pub const MSG_NO_CREW_ROOT: &'static str = "Crew 루트 폴더가 없습니다.";

pub const MSG_CREW_ROOT_NOT_FOUND: &'static str = "Crew 루트 폴더를 찾을 수 없습니다.";

pub const MSG_PATH_NOT_FOUND: &'static str = "경로를 찾을 수 없습니다: ";

pub const MSG_PARENT_NOT_FOUND: &'static str = "상위 경로를 찾을 수 없습니다: ";

pub const MSG_NO_FILES_AT_CREW_ROOT: &'static str = "Crew 루트에는 파일을 직접 만들 수 없습니다.";

pub const MSG_FOLDER_NOT_FOUND: &'static str = "폴더를 찾을 수 없습니다: ";

pub const MSG_CROSS_CREW_MOVE: &'static str = "Crew 간 이동은 지원하지 않습니다.";

pub const MSG_SOURCE_NOT_FOUND: &'static str = "원본 항목을 찾을 수 없습니다.";

/// A WebDAV path split into its crew and the segments inside the crew.
#[derive(Debug, Clone)]
pub struct ParsedCrewPath {
    pub crew_id: String,
    pub inner_segments: Vec<String>,
}

/// What a WebDAV path names.
#[derive(Debug, Clone)]
pub enum VfsNode {
    Folder(FolderMetadata),
    File(ObjectMetadata),
}

// ------------------------------------------------------------------
// decoding and normalisation

pub open spec fn hex_val(b: u8) -> Option<u8> {
    if 48 <= b <= 57 {
        Some((b - 48) as u8)
    } else if 65 <= b <= 70 {
        Some((b - 55) as u8)
    } else if 97 <= b <= 102 {
        Some((b - 87) as u8)
    } else {
        None
    }
}

/// `%XX` with two hex digits becomes that byte; a `%` not followed by two hex digits stays, and
/// so does `+`.
pub open spec fn percent_decode(b: Seq<u8>) -> Seq<u8>
    decreases b.len(),
{
    if b.len() == 0 {
        b
    } else if b[0] != 37u8 {
        seq![b[0]] + percent_decode(b.drop_first())
    } else if b.len() < 3 {
        b
    } else {
        match (hex_val(b[1]), hex_val(b[2])) {
            (Some(h), Some(l)) => seq![(h * 16 + l) as u8] + percent_decode(b.skip(3)),
            (Some(_), None) => seq![37u8, b[1]] + percent_decode(b.skip(2)),
            _ => seq![37u8] + percent_decode(b.skip(1)),
        }
    }
}

/// Percent-decoded text, when the decoded bytes are UTF-8.
pub open spec fn url_decode_spec(s: Seq<char>) -> Option<Seq<char>> {
    let d = percent_decode(encode_utf8(s));
    if valid_utf8(d) {
        Some(decode_utf8(d))
    } else {
        None
    }
}

/// urlencoding 2.1 `decode`: percent-decodes the UTF-8 bytes of `s` as `percent_decode` says
/// (text without `%` comes back as it is) and then reads them as UTF-8, failing where they are
/// not.
#[verifier::external_body]
fn url_decode(s: &str) -> (r: Option<String>)
    ensures
        r is Some <==> url_decode_spec(s@) is Some,
        r matches Some(x) ==> url_decode_spec(s@) == Some(x@),
{
    urlencoding::decode(s).ok().map(|c| c.into_owned())
}

/// What Unicode Normalization Form C (canonical composition) makes of the text.
pub uninterp spec fn nfc(s: Seq<char>) -> Seq<char>;

/// unicode-normalization 0.1 `nfc().collect::<String>()`: the text in Normalization Form C.
#[verifier::external_body]
fn nfc_string(s: &str) -> (r: String)
    ensures
        r@ == nfc(s@),
{
    s.nfc().collect::<String>()
}

/// Trailing spaces and dots removed (Windows drops them from names).
pub open spec fn trim_end_space_dot(s: Seq<char>) -> Seq<char>
    decreases s.len(),
{
    if s.len() > 0 && (s.last() == ' ' || s.last() == '.') {
        trim_end_space_dot(s.drop_last())
    } else {
        s
    }
}

pub open spec fn normalize_segment_spec(s: Seq<char>) -> Seq<char> {
    nfc(trim_end_space_dot(s))
}

/// A path segment as Windows WebDAV clients mean it: trailing spaces and dots dropped, NFC.
pub fn normalize_segment(segment: &str) -> (r: String)
    ensures
        r@ == normalize_segment_spec(segment@),
{
    let c = str_chars(segment);
    let mut j = c.len();
    assert(c@.subrange(0, j as int) =~= c@);
    while j > 0 && (c[j - 1] == ' ' || c[j - 1] == '.')
        invariant
            j <= c.len(),
            trim_end_space_dot(c@.subrange(0, j as int)) == trim_end_space_dot(c@),
        decreases j,
    {
        assert(c@.subrange(0, j as int).drop_last() =~= c@.subrange(0, j - 1));
        j -= 1;
    }
    let t = sub_chars(&c, 0, j);
    let ts = string_from_chars(&t);
    nfc_string(ts.as_str())
}

/// The pieces that are not empty.
pub open spec fn nonempty_pieces(ps: Seq<Seq<char>>) -> Seq<Seq<char>>
    decreases ps.len(),
{
    if ps.len() == 0 {
        ps
    } else {
        let p = nonempty_pieces(ps.drop_last());
        if ps.last().len() > 0 {
            p.push(ps.last())
        } else {
            p
        }
    }
}

/// The segments of a WebDAV path: percent-decoded (the path as given when that fails), split
/// at `/`, empty pieces dropped, each one normalised.
pub open spec fn crew_path_segments(path: Seq<char>) -> Seq<Seq<char>> {
    let d = match url_decode_spec(path) {
        Some(x) => x,
        None => path,
    };
    nonempty_pieces(split_char(d, '/')).map_values(|p: Seq<char>| normalize_segment_spec(p))
}

pub open spec fn strings_view(v: Seq<String>) -> Seq<Seq<char>> {
    v.map_values(|s: String| s@)
}

/// Splits a WebDAV path into the crew id (its first segment) and the segments below it.
pub fn parse_crew_path(path: &str) -> (r: Result<ParsedCrewPath, String>)
    ensures
        r matches Ok(p) ==> crew_path_segments(path@).len() > 0 && p.crew_id@ == crew_path_segments(
            path@,
        )[0] && strings_view(p.inner_segments@) == crew_path_segments(path@).skip(1),
        r matches Err(e) ==> crew_path_segments(path@).len() == 0 && e@ == MSG_CREW_ID_REQUIRED@,
{
    let decoded = match url_decode(path) {
        Some(d) => d,
        None => String::from_str(path),
    };
    let dc = str_chars(decoded.as_str());
    let pieces = split_chars(&dc, '/');
    let ghost pv = split_char(dc@, '/');
    let mut segs: Vec<String> = Vec::new();
    let mut i: usize = 0;
    assert(pv.take(0) =~= Seq::<Seq<char>>::empty());
    while i < pieces.len()
        invariant
            i <= pieces.len(),
            pieces@.len() == pv.len(),
            forall|k: int| 0 <= k < pieces@.len() ==> #[trigger] pieces@[k]@ == pv[k],
            strings_view(segs@) == nonempty_pieces(pv.take(i as int)).map_values(
                |p: Seq<char>| normalize_segment_spec(p),
            ),
        decreases pieces.len() - i,
    {
        let ghost before = strings_view(segs@);
        assert(pv.take(i + 1).drop_last() =~= pv.take(i as int));
        if pieces[i].len() > 0 {
            let ps = string_from_chars(&pieces[i]);
            let n = normalize_segment(ps.as_str());
            segs.push(n);
            assert(strings_view(segs@) =~= before.push(normalize_segment_spec(pv[i as int])));
            assert(nonempty_pieces(pv.take(i + 1)).map_values(|p: Seq<char>| normalize_segment_spec(p))
                =~= nonempty_pieces(pv.take(i as int)).map_values(|p: Seq<char>| normalize_segment_spec(p)).push(
                normalize_segment_spec(pv[i as int]),
            ));
        }
        i += 1;
    }
    assert(pv.take(pieces.len() as int) =~= pv);
    if segs.len() == 0 {
        return Err(String::from_str(MSG_CREW_ID_REQUIRED));
    }
    let crew_id = segs[0].clone();
    let mut inner: Vec<String> = Vec::new();
    let mut k: usize = 1;
    while k < segs.len()
        invariant
            1 <= k <= segs.len(),
            strings_view(inner@) == strings_view(segs@).subrange(1, k as int),
        decreases segs.len() - k,
    {
        let ghost before = strings_view(inner@);
        let s = segs[k].clone();
        assert(s@ == segs@[k as int]@);
        inner.push(s);
        assert(strings_view(inner@) =~= before.push(segs@[k as int]@));
        assert(strings_view(segs@).subrange(1, k + 1) =~= strings_view(segs@).subrange(1, k as int).push(segs@[k as int]@));
        k += 1;
    }
    Ok(ParsedCrewPath { crew_id, inner_segments: inner })
}

/// The names under which a child is looked up: as given, then normalised.
pub fn child_name_candidates(name: &str) -> (r: (String, String))
    ensures
        r.0@ == name@,
        r.1@ == normalize_segment_spec(name@),
{
    (String::from_str(name), normalize_segment(name))
}

// ------------------------------------------------------------------
// walks

/// Resolving a path to what it names: the next lookup, or the outcome.
pub enum ResolveStep {
    /// Look up the crew's root folder by id.
    LookupRoot(String),
    /// Look up segment `index` as a folder under `parent_id`.
    LookupFolder { index: usize, parent_id: Option<String> },
    /// Look up segment `index` as a file in `parent_id`.
    LookupFile { index: usize, parent_id: Option<String> },
    Done(Option<VfsNode>),
    Fail(String),
}

/// Where resolving a path begins, given the crew's root folder id: the root itself, or the
/// first segment under it.
pub fn resolve_start(parsed: &ParsedCrewPath, root_id: &str) -> (r: ResolveStep)
    ensures
        parsed.inner_segments.len() == 0 ==> (r matches ResolveStep::LookupRoot(id) && id@ == root_id@),
        parsed.inner_segments.len() > 0 ==> (r matches ResolveStep::LookupFolder {
            index,
            parent_id: Some(p),
        } && index == 0 && p@ == root_id@),
{
    if parsed.inner_segments.len() == 0 {
        ResolveStep::LookupRoot(String::from_str(root_id))
    } else {
        ResolveStep::LookupFolder { index: 0, parent_id: Some(String::from_str(root_id)) }
    }
}

/// After the root lookup: the root folder, or the error that it is missing.
pub fn resolve_after_root(found: Option<FolderMetadata>) -> (r: ResolveStep)
    ensures
        found matches Some(f) ==> (r matches ResolveStep::Done(Some(VfsNode::Folder(g))) && g == f),
        found is None ==> (r matches ResolveStep::Fail(m) && m@ == MSG_CREW_ROOT_NOT_FOUND@),
{
    match found {
        Some(f) => ResolveStep::Done(Some(VfsNode::Folder(f))),
        None => ResolveStep::Fail(String::from_str(MSG_CREW_ROOT_NOT_FOUND)),
    }
}


/// After looking up segment `index` as a folder under `parent_id`: the folder when it is the
/// last segment, the next segment under it otherwise; when there is no such folder, the last
/// segment is looked up as a file and any other segment means the path names nothing.
pub fn resolve_after_folder(
    parsed: &ParsedCrewPath,
    index: usize,
    parent_id: Option<String>,
    found: Option<FolderMetadata>,
) -> (r: ResolveStep)
    requires
        index < parsed.inner_segments.len(),
    ensures
        ({
            let last = index + 1 == parsed.inner_segments.len();
            match found {
                Some(f) => if last {
                    r matches ResolveStep::Done(Some(VfsNode::Folder(g))) && g == f
                } else {
                    r matches ResolveStep::LookupFolder { index: i, parent_id: Some(id) } && i
                        == index + 1 && id@ == f.id@
                },
                None => if last {
                    r matches ResolveStep::LookupFile { index: i, parent_id: p } && i == index
                        && p == parent_id
                } else {
                    r matches ResolveStep::Done(None)
                },
            }
        }),
{
    let last = index + 1 == parsed.inner_segments.len();
    match found {
        Some(f) => {
            if last {
                ResolveStep::Done(Some(VfsNode::Folder(f)))
            } else {
                let id = f.id.clone();
                ResolveStep::LookupFolder { index: index + 1, parent_id: Some(id) }
            }
        },
        None => {
            if last {
                ResolveStep::LookupFile { index, parent_id }
            } else {
                ResolveStep::Done(None)
            }
        },
    }
}

/// After looking up the last segment as a file: that file, or nothing.
pub fn resolve_after_file(found: Option<ObjectMetadata>) -> (r: ResolveStep)
    ensures
        found matches Some(f) ==> (r matches ResolveStep::Done(Some(VfsNode::File(g))) && g == f),
        found is None ==> r matches ResolveStep::Done(None),
{
    match found {
        Some(f) => ResolveStep::Done(Some(VfsNode::File(f))),
        None => ResolveStep::Done(None),
    }
}

/// Finding the id of the folder a path names: the next lookup, or the outcome.
pub enum FolderWalk {
    Lookup { index: usize, parent_id: Option<String> },
    Done(Option<String>),
    Fail(String),
}

/// Where the folder walk begins: an error when the crew has no root folder, the root when the
/// path is the crew itself, else the first segment under the root.
pub fn folder_walk_start(parsed: &ParsedCrewPath, root_id: Option<String>) -> (r: FolderWalk)
    ensures
        root_id is None ==> (r matches FolderWalk::Fail(m) && m@ == MSG_NO_CREW_ROOT@),
        root_id matches Some(root) ==> (if parsed.inner_segments.len() == 0 {
            r matches FolderWalk::Done(Some(id)) && id@ == root@
        } else {
            r matches FolderWalk::Lookup { index, parent_id: Some(p) } && index == 0 && p@ == root@
        }),
{
    match root_id {
        None => FolderWalk::Fail(String::from_str(MSG_NO_CREW_ROOT)),
        Some(root) => {
            if parsed.inner_segments.len() == 0 {
                FolderWalk::Done(Some(root))
            } else {
                FolderWalk::Lookup { index: 0, parent_id: Some(root) }
            }
        },
    }
}

/// After looking up segment `index` as a folder: the last segment's folder id, or the next
/// segment under the folder; a missing last segment means no folder, a missing inner one is an
/// error naming it.
pub fn folder_walk_after(parsed: &ParsedCrewPath, index: usize, found: Option<FolderMetadata>) -> (r: FolderWalk)
    requires
        index < parsed.inner_segments.len(),
    ensures
        ({
            let last = index + 1 == parsed.inner_segments.len();
            match found {
                Some(f) => if last {
                    r matches FolderWalk::Done(Some(id)) && id@ == f.id@
                } else {
                    r matches FolderWalk::Lookup { index: i, parent_id: Some(id) } && i == index + 1
                        && id@ == f.id@
                },
                None => if last {
                    r matches FolderWalk::Done(None)
                } else {
                    r matches FolderWalk::Fail(m) && m@ == MSG_PATH_NOT_FOUND@
                        + parsed.inner_segments@[index as int]@
                },
            }
        }),
{
    let last = index + 1 == parsed.inner_segments.len();
    match found {
        Some(f) => {
            let id = f.id.clone();
            if last {
                FolderWalk::Done(Some(id))
            } else {
                FolderWalk::Lookup { index: index + 1, parent_id: Some(id) }
            }
        },
        None => {
            if last {
                FolderWalk::Done(None)
            } else {
                let mut m: Vec<char> = Vec::new();
                extend_str(&mut m, MSG_PATH_NOT_FOUND);
                extend_str(&mut m, parsed.inner_segments[index].as_str());
                FolderWalk::Fail(string_from_chars(&m))
            }
        },
    }
}

/// Finding the folder that a new entry goes into, and the entry's name: the next lookup, or the
/// outcome.
pub enum ParentWalk {
    Lookup { index: usize, parent_id: Option<String> },
    Done { parent_id: Option<String>, name: String },
    Fail(String),
}

/// A path to a new entry must name something inside the crew, not the crew itself.
pub fn parent_walk_precheck(parsed: &ParsedCrewPath) -> (r: Result<(), String>)
    ensures
        r is Ok <==> parsed.inner_segments.len() > 0,
        r matches Err(m) ==> m@ == MSG_NO_FILES_AT_CREW_ROOT@,
{
    if parsed.inner_segments.len() == 0 {
        Err(String::from_str(MSG_NO_FILES_AT_CREW_ROOT))
    } else {
        Ok(())
    }
}

/// Where the parent walk begins: the last segment is the name; its parent is the root when
/// there is no other segment, else the walk looks up the first segment under the root.
pub fn parent_walk_start(parsed: &ParsedCrewPath, root_id: &str) -> (r: ParentWalk)
    requires
        parsed.inner_segments.len() > 0,
    ensures
        ({
            let n = parsed.inner_segments.len();
            if n == 1 {
                r matches ParentWalk::Done { parent_id: Some(p), name } && p@ == root_id@ && name@
                    == parsed.inner_segments@[0]@
            } else {
                r matches ParentWalk::Lookup { index, parent_id: Some(p) } && index == 0 && p@
                    == root_id@
            }
        }),
{
    if parsed.inner_segments.len() == 1 {
        ParentWalk::Done {
            parent_id: Some(String::from_str(root_id)),
            name: parsed.inner_segments[0].clone(),
        }
    } else {
        ParentWalk::Lookup { index: 0, parent_id: Some(String::from_str(root_id)) }
    }
}

/// After looking up parent segment `index` (every segment but the last is a parent): the next
/// parent segment under the folder found, or, after the last parent, the folder and the name;
/// a missing parent is an error naming it.
pub fn parent_walk_after(parsed: &ParsedCrewPath, index: usize, found: Option<FolderMetadata>) -> (r: ParentWalk)
    requires
        index + 1 < parsed.inner_segments.len(),
    ensures
        ({
            let n = parsed.inner_segments.len();
            match found {
                Some(f) => if index + 2 < n {
                    r matches ParentWalk::Lookup { index: i, parent_id: Some(p) } && i == index + 1
                        && p@ == f.id@
                } else {
                    r matches ParentWalk::Done { parent_id: Some(p), name } && p@ == f.id@ && name@
                        == parsed.inner_segments@[n - 1]@
                },
                None => r matches ParentWalk::Fail(m) && m@ == MSG_PARENT_NOT_FOUND@
                    + parsed.inner_segments@[index as int]@,
            }
        }),
{
    let n = parsed.inner_segments.len();
    match found {
        Some(f) => {
            let id = f.id.clone();
            if index + 2 < n {
                ParentWalk::Lookup { index: index + 1, parent_id: Some(id) }
            } else {
                ParentWalk::Done { parent_id: Some(id), name: parsed.inner_segments[n - 1].clone() }
            }
        },
        None => {
            let mut m: Vec<char> = Vec::new();
            extend_str(&mut m, MSG_PARENT_NOT_FOUND);
            extend_str(&mut m, parsed.inner_segments[index].as_str());
            ParentWalk::Fail(string_from_chars(&m))
        },
    }
}

/// A WebDAV move stays within one crew.
pub fn rename_path_precheck(from: &ParsedCrewPath, to: &ParsedCrewPath) -> (r: Result<(), String>)
    ensures
        r is Ok <==> from.crew_id@ == to.crew_id@,
        r matches Err(m) ==> m@ == MSG_CROSS_CREW_MOVE@,
{
    if str_eq(from.crew_id.as_str(), to.crew_id.as_str()) {
        Ok(())
    } else {
        Err(String::from_str(MSG_CROSS_CREW_MOVE))
    }
}

/// The entry to move must exist.
pub fn rename_source(node: Option<VfsNode>) -> (r: Result<VfsNode, String>)
    ensures
        node matches Some(n) ==> (r matches Ok(m) && m == n),
        node is None ==> (r matches Err(m) && m@ == MSG_SOURCE_NOT_FOUND@),
{
    match node {
        Some(n) => Ok(n),
        None => Err(String::from_str(MSG_SOURCE_NOT_FOUND)),
    }
}

/// The folder whose contents a directory listing shows, or the error naming the path.
pub fn listing_folder(parsed: &ParsedCrewPath, folder_id: Option<String>) -> (r: Result<String, String>)
    ensures
        folder_id matches Some(id) ==> (r matches Ok(x) && x@ == id@),
        folder_id is None ==> (r matches Err(m) && m@ == MSG_FOLDER_NOT_FOUND@ + join(
            strings_view(parsed.inner_segments@),
            seq!['/'],
        )),
{
    match folder_id {
        Some(id) => Ok(id),
        None => {
            let mut parts: Vec<Vec<char>> = Vec::new();
            let mut i: usize = 0;
            while i < parsed.inner_segments.len()
                invariant
                    i <= parsed.inner_segments.len(),
                    parts@.map_values(|p: Vec<char>| p@) == strings_view(parsed.inner_segments@).take(i as int),
                decreases parsed.inner_segments.len() - i,
            {
                let c = str_chars(parsed.inner_segments[i].as_str());
                let ghost before = parts@.map_values(|p: Vec<char>| p@);
                parts.push(c);
                assert(parts@.map_values(|p: Vec<char>| p@) =~= before.push(parsed.inner_segments@[i as int]@));
                assert(strings_view(parsed.inner_segments@).take(i + 1) =~= strings_view(parsed.inner_segments@).take(i as int).push(parsed.inner_segments@[i as int]@));
                i += 1;
            }
            assert(strings_view(parsed.inner_segments@).take(i as int) =~= strings_view(parsed.inner_segments@));
            let slash = vec!['/'];
            assert(slash@ =~= seq!['/']);
            let joined = join_chars(&parts, &slash);
            let mut m: Vec<char> = Vec::new();
            extend_str(&mut m, MSG_FOLDER_NOT_FOUND);
            crate::text::extend_chars(&mut m, &joined);
            Err(string_from_chars(&m))
        },
    }
}

} // verus!
