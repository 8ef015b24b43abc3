//! The file and folder operations' own rules: how new entries are named and recorded, what a
//! rename may do, what a listing, search or download hands out. The repository lookups between
//! these steps are the caller's.
use vstd::prelude::*;
use vstd::string::*;
use vstd::utf8::*;
use std::path::Path;
use crate::access::FolderAccess;
use crate::bytes::str_bytes;
use crate::errors::{ErrView, NasError};
use crate::models::{opt_view, FolderMetadata, ListItem, ObjectMetadata, SubtitleTrackInfo};
use crate::subtitle::{is_subtitle_ext, last_ext_of, matches_video_subtitle, stem_of, stems_match, subtitle_label};
use crate::text::{
    dec_digits, extend_str, join, join_chars, push_decimal, split_char, split_chars, str_chars, str_eq,
    string_from_chars, to_lowercase, trim, trim_chars, unicode_lowercase, lemma_split_nonempty,
};

verus! {

broadcast use vstd::utf8::group_utf8_lib;

pub const DEFAULT_FOLDER_NAME: &'static str = "새 폴더";

pub const MSG_FOLDER_EXISTS: &'static str = "같은 이름의 폴더가 이미 있습니다.";

pub const MSG_FILE_EXISTS: &'static str = "같은 이름의 파일이 이미 있습니다.";

pub const MSG_ROOT_FOLDER_FIXED: &'static str = "Crew 루트 폴더는 이동하거나 이름을 바꿀 수 없습니다.";

pub const MSG_EMPTY_FOLDER_NAME: &'static str = "폴더 이름이 비어 있습니다.";

pub const MSG_EMPTY_FILE_NAME: &'static str = "파일 이름이 비어 있습니다.";

pub const MSG_SHORT_QUERY: &'static str = "검색어는 2자 이상이어야 합니다.";

pub const MSG_NOT_SUBTITLE: &'static str = "자막 파일이 아닙니다.";

pub const MSG_SUBTITLE_TOO_LARGE: &'static str = "자막 파일이 너무 큽니다.";

/// Largest subtitle file converted: 10 MiB.
pub const MAX_SUBTITLE_BYTES: u64 = 10_485_760;

pub const OCTET_STREAM: &'static str = "application/octet-stream";

/// Where search results outside any folder are shown to be.
pub const HOME_PATH: &'static str = "Home";

/// Search results at most.
pub const SEARCH_LIMIT: i64 = 100;

// ------------------------------------------------------------------
// naming new entries

/// What std's `Path::file_stem` gives for this text (`None` when there is no file name).
pub uninterp spec fn path_file_stem(name: Seq<char>) -> Option<Seq<char>>;

/// What std's `Path::extension` gives for this text.
pub uninterp spec fn path_extension(name: Seq<char>) -> Option<Seq<char>>;

/// What mime_guess makes of a file name: the first guessed type, `application/octet-stream`
/// when there is none.
pub uninterp spec fn guessed_mime(name: Seq<char>) -> Seq<char>;

/// std `Path::new(name).file_stem()` as text.
#[verifier::external_body]
fn std_file_stem(name: &str) -> (r: Option<String>)
    ensures
        opt_view(r) == path_file_stem(name@),
{
    Path::new(name).file_stem().and_then(|s| s.to_str()).map(|s| s.to_string())
}

/// std `Path::new(name).extension()` as text.
#[verifier::external_body]
fn std_extension(name: &str) -> (r: Option<String>)
    ensures
        opt_view(r) == path_extension(name@),
{
    Path::new(name).extension().and_then(|s| s.to_str()).map(|s| s.to_string())
}

/// mime_guess 2 `from_path(name).first_or_octet_stream().to_string()`.
#[verifier::external_body]
fn mime_for_name(name: &str) -> (r: String)
    ensures
        r@ == guessed_mime(name@),
{
    mime_guess::from_path(name).first_or_octet_stream().to_string()
}

/// The type mime_guess gives a file name.
pub fn mime_of(name: &str) -> (r: String)
    ensures
        r@ == guessed_mime(name@),
{
    mime_for_name(name)
}

/// ` (n)`.
pub open spec fn counter_suffix(n: nat) -> Seq<char> {
    seq![' ', '('] + dec_digits(n) + seq![')']
}

/// The name tried on attempt `attempt` for an upload: the client's name first, then
/// `stem (n).ext`.
pub open spec fn upload_name_spec(client: Seq<char>, stem: Seq<char>, ext: Option<Seq<char>>, attempt: nat) -> Seq<char> {
    if attempt == 0 {
        client
    } else {
        stem + counter_suffix(attempt) + match ext {
            Some(e) => seq!['.'] + e,
            None => Seq::<char>::empty(),
        }
    }
}

/// Attempt `attempt`'s name from the client's name and its stem and extension.
pub fn upload_name_from_parts(client: &str, stem: &str, ext: Option<&str>, attempt: u64) -> (r: String)
    ensures
        r@ == upload_name_spec(
            client@,
            stem@,
            match ext {
                Some(e) => Some(e@),
                None => None,
            },
            attempt as nat,
        ),
{
    if attempt == 0 {
        return String::from_str(client);
    }
    let mut out: Vec<char> = Vec::new();
    extend_str(&mut out, stem);
    out.push(' ');
    out.push('(');
    push_decimal(&mut out, attempt);
    out.push(')');
    match ext {
        Some(e) => {
            out.push('.');
            extend_str(&mut out, e);
        },
        None => {},
    }
    assert(out@ =~= upload_name_spec(
        client@,
        stem@,
        match ext {
            Some(e) => Some(e@),
            None => None,
        },
        attempt as nat,
    ));
    string_from_chars(&out)
}

/// The stem the numbered names of an upload use (empty when the name has none).
pub open spec fn upload_stem(client: Seq<char>) -> Seq<char> {
    match path_file_stem(client) {
        Some(s) => s,
        None => Seq::<char>::empty(),
    }
}

/// The name tried on attempt `attempt` for an upload of `client_filename`.
pub fn upload_name(client_filename: &str, attempt: u64) -> (r: String)
    ensures
        r@ == upload_name_spec(client_filename@, upload_stem(client_filename@), path_extension(client_filename@), attempt as nat),
{
    let stem = match std_file_stem(client_filename) {
        Some(s) => s,
        None => String::new(),
    };
    let ext = std_extension(client_filename);
    match ext {
        Some(e) => upload_name_from_parts(client_filename, stem.as_str(), Some(e.as_str()), attempt),
        None => upload_name_from_parts(client_filename, stem.as_str(), None, attempt),
    }
}

/// The metadata recorded for an upload stored under `id`.
pub fn new_upload_metadata(
    id: String,
    folder_id: Option<String>,
    name: String,
    size: u64,
    client_filename: &str,
    checksum: String,
    now: String,
) -> (r: ObjectMetadata)
    ensures
        r.id == id,
        r.folder_id == folder_id,
        r.name == name,
        r.size == size,
        opt_view(r.file_type) == Some(guessed_mime(client_filename@)),
        r.checksum == Some(checksum),
        r.version == 1,
        !r.is_deleted,
        r.created_at == now,
        r.updated_at == now,
{
    let mime = mime_for_name(client_filename);
    let updated = now.clone();
    ObjectMetadata {
        id,
        folder_id,
        name,
        size,
        file_type: Some(mime),
        checksum: Some(checksum),
        version: 1,
        is_deleted: false,
        created_at: now,
        updated_at: updated,
    }
}

/// The name a new folder asks for: the given one trimmed, or `새 폴더` when absent or blank.
pub open spec fn folder_target_spec(name: Option<Seq<char>>) -> Seq<char> {
    let t = trim(
        match name {
            Some(n) => n,
            None => DEFAULT_FOLDER_NAME@,
        },
    );
    if t.len() == 0 {
        DEFAULT_FOLDER_NAME@
    } else {
        t
    }
}

pub fn folder_target_name(name: Option<&str>) -> (r: String)
    ensures
        r@ == folder_target_spec(
            match name {
                Some(n) => Some(n@),
                None => None,
            },
        ),
{
    let given = match name {
        Some(n) => n,
        None => DEFAULT_FOLDER_NAME,
    };
    let c = str_chars(given);
    let t = trim_chars(&c);
    if t.len() == 0 {
        String::from_str(DEFAULT_FOLDER_NAME)
    } else {
        string_from_chars(&t)
    }
}

/// The folder name tried on attempt `attempt`: the name, then `name (n)`.
pub open spec fn folder_name_spec(target: Seq<char>, attempt: nat) -> Seq<char> {
    if attempt == 0 {
        target
    } else {
        target + counter_suffix(attempt)
    }
}

pub fn folder_name_candidate(target: &str, attempt: u64) -> (r: String)
    ensures
        r@ == folder_name_spec(target@, attempt as nat),
{
    if attempt == 0 {
        return String::from_str(target);
    }
    let mut out: Vec<char> = Vec::new();
    extend_str(&mut out, target);
    out.push(' ');
    out.push('(');
    push_decimal(&mut out, attempt);
    out.push(')');
    assert(out@ =~= folder_name_spec(target@, attempt as nat));
    string_from_chars(&out)
}

/// The search for a free name: check the next candidate, use one, or give up.
pub enum NameSearch {
    Check { attempt: u64, name: String },
    Use(String),
    Fail(NasError),
}

/// After learning whether candidate `attempt` of a new folder's name is taken: a free name is
/// used; a taken one is an error unless numbered names are allowed, in which case the next is
/// checked.
pub fn folder_name_next(target: &str, dedupe: bool, attempt: u64, taken: bool) -> (r: NameSearch)
    requires
        attempt < u64::MAX,
    ensures
        !taken ==> (r matches NameSearch::Use(n) && n@ == folder_name_spec(target@, attempt as nat)),
        taken && !dedupe ==> (r matches NameSearch::Fail(e) && e@ == ErrView::BadRequest(MSG_FOLDER_EXISTS@)),
        taken && dedupe ==> (r matches NameSearch::Check { attempt: a, name: n } && a == attempt + 1
            && n@ == folder_name_spec(target@, (attempt + 1) as nat)),
{
    if !taken {
        NameSearch::Use(folder_name_candidate(target, attempt))
    } else if !dedupe {
        NameSearch::Fail(NasError::BadRequest(String::from_str(MSG_FOLDER_EXISTS)))
    } else {
        NameSearch::Check { attempt: attempt + 1, name: folder_name_candidate(target, attempt + 1) }
    }
}

/// After learning whether upload name `attempt` is taken: use it if free, else check the next.
pub fn upload_name_next(client_filename: &str, attempt: u64, taken: bool) -> (r: NameSearch)
    requires
        attempt < u64::MAX,
    ensures
        !taken ==> (r matches NameSearch::Use(n) && n@ == upload_name_spec(
            client_filename@,
            upload_stem(client_filename@),
            path_extension(client_filename@),
            attempt as nat,
        )),
        taken ==> (r matches NameSearch::Check { attempt: a, name: n } && a == attempt + 1 && n@
            == upload_name_spec(
            client_filename@,
            upload_stem(client_filename@),
            path_extension(client_filename@),
            (attempt + 1) as nat,
        )),
{
    if !taken {
        NameSearch::Use(upload_name(client_filename, attempt))
    } else {
        NameSearch::Check { attempt: attempt + 1, name: upload_name(client_filename, attempt + 1) }
    }
}

/// Where a new folder's crew comes from.
pub enum CrewSource {
    Given(String),
    ParentFolder(String),
    NoCrew,
}

/// A new folder belongs to the crew it is created for, else to its parent folder's crew, else
/// to none.
pub fn new_folder_crew_source(explicit_crew_id: Option<&str>, parent_id: Option<&str>) -> (r: CrewSource)
    ensures
        explicit_crew_id matches Some(c) ==> (r matches CrewSource::Given(x) && x@ == c@),
        explicit_crew_id is None ==> (parent_id matches Some(p) ==> (r matches CrewSource::ParentFolder(
            x,
        ) && x@ == p@)),
        explicit_crew_id is None && parent_id is None ==> r matches CrewSource::NoCrew,
{
    match explicit_crew_id {
        Some(c) => CrewSource::Given(String::from_str(c)),
        None => match parent_id {
            Some(p) => CrewSource::ParentFolder(String::from_str(p)),
            None => CrewSource::NoCrew,
        },
    }
}

/// The crew of the parent folder that was looked up, if it was found.
pub fn parent_folder_crew(parent: Option<FolderMetadata>) -> (r: Option<String>)
    ensures
        r == match parent {
            Some(f) => f.crew_id,
            None => None,
        },
{
    match parent {
        Some(f) => f.crew_id,
        None => None,
    }
}

/// The record of a new folder.
pub fn new_folder_record(
    id: String,
    parent_id: Option<&str>,
    crew_id: Option<String>,
    name: String,
    now: String,
) -> (r: FolderMetadata)
    ensures
        r.id == id,
        opt_view(r.parent_id) == match parent_id {
            Some(p) => Some(p@),
            None => None,
        },
        r.crew_id == crew_id,
        r.name == name,
        r.created_at == now,
        r.updated_at == now,
{
    let parent = match parent_id {
        Some(p) => Some(String::from_str(p)),
        None => None,
    };
    let updated = now.clone();
    FolderMetadata { id, parent_id: parent, crew_id, name, created_at: now, updated_at: updated }
}

// ------------------------------------------------------------------
// what the repository reads and writes

/// A file record as stored: the size and version columns are 64-bit, the deleted flag an
/// integer.
pub fn file_record(
    id: String,
    folder_id: Option<String>,
    name: String,
    size: i64,
    file_type: Option<String>,
    checksum: Option<String>,
    version: i64,
    is_deleted: i64,
    created_at: String,
    updated_at: String,
) -> (r: ObjectMetadata)
    ensures
        r.id == id,
        r.folder_id == folder_id,
        r.name == name,
        r.size == size as u64,
        r.file_type == file_type,
        r.checksum == checksum,
        r.version == version as i32,
        r.is_deleted == (is_deleted != 0),
        r.created_at == created_at,
        r.updated_at == updated_at,
{
    ObjectMetadata {
        id,
        folder_id,
        name,
        size: size as u64,
        file_type,
        checksum,
        version: version as i32,
        is_deleted: is_deleted != 0,
        created_at,
        updated_at,
    }
}

/// `it` lists folder `f`.
pub open spec fn lists_folder(it: ListItem, f: FolderMetadata) -> bool {
    &&& it.id@ == f.id@
    &&& it.name@ == f.name@
    &&& it.is_dir
    &&& it.size == 0
    &&& it.created_at@ == f.created_at@
    &&& it.file_type is None
    &&& it.has_children is None
    &&& it.preview_url is None
    &&& it.path is None
}

/// `it` lists file `f`.
pub open spec fn lists_file(it: ListItem, f: ObjectMetadata) -> bool {
    &&& it.id@ == f.id@
    &&& it.name@ == f.name@
    &&& !it.is_dir
    &&& it.size == f.size
    &&& it.created_at@ == f.created_at@
    &&& opt_view(it.file_type) == opt_view(f.file_type)
    &&& it.has_children is None
    &&& it.preview_url is None
    &&& it.path is None
}

/// A folder's listing: its folders first, then its files, each in the order given.
pub fn merge_list_items(folders: &Vec<FolderMetadata>, files: &Vec<ObjectMetadata>) -> (r: Vec<ListItem>)
    requires
        folders.len() + files.len() <= usize::MAX,
    ensures
        r@.len() == folders@.len() + files@.len(),
        forall|i: int| 0 <= i < folders@.len() ==> lists_folder(#[trigger] r@[i], folders@[i]),
        forall|j: int| 0 <= j < files@.len() ==> lists_file(#[trigger] r@[folders@.len() + j], files@[j]),
{
    let mut items: Vec<ListItem> = Vec::new();
    let mut i: usize = 0;
    while i < folders.len()
        invariant
            i <= folders.len(),
            items@.len() == i,
            forall|k: int| 0 <= k < i ==> lists_folder(#[trigger] items@[k], folders@[k]),
        decreases folders.len() - i,
    {
        items.push(ListItem::from_folder(&folders[i]));
        i += 1;
    }
    let mut j: usize = 0;
    while j < files.len()
        invariant
            j <= files.len(),
            items@.len() == folders@.len() + j,
            forall|k: int| 0 <= k < folders@.len() ==> lists_folder(#[trigger] items@[k], folders@[k]),
            forall|k: int| 0 <= k < j ==> lists_file(#[trigger] items@[folders@.len() + k], files@[k]),
        decreases files.len() - j,
    {
        items.push(ListItem::from_file(&files[j]));
        j += 1;
    }
    items
}

/// `query` for SQL `LIKE`, with `%` and `_` escaped by `\` so that they match themselves.
pub open spec fn like_escape(q: Seq<char>) -> Seq<char>
    decreases q.len(),
{
    if q.len() == 0 {
        q
    } else {
        let c = q.last();
        like_escape(q.drop_last()) + if c == '%' || c == '_' {
            seq!['\\', c]
        } else {
            seq![c]
        }
    }
}

/// The `LIKE` pattern of names that contain `query`.
pub fn name_search_pattern(query: &str) -> (r: String)
    ensures
        r@ == seq!['%'] + like_escape(query@) + seq!['%'],
{
    let q = str_chars(query);
    let mut out: Vec<char> = Vec::new();
    out.push('%');
    let mut i: usize = 0;
    assert(q@.take(0) =~= Seq::<char>::empty());
    while i < q.len()
        invariant
            i <= q.len(),
            out@ == seq!['%'] + like_escape(q@.take(i as int)),
        decreases q.len() - i,
    {
        let c = q[i];
        assert(q@.take(i + 1).drop_last() =~= q@.take(i as int));
        if c == '%' || c == '_' {
            out.push('\\');
        }
        out.push(c);
        assert(out@ =~= seq!['%'] + like_escape(q@.take(i + 1)));
        i += 1;
    }
    assert(q@.take(q.len() as int) =~= q@);
    out.push('%');
    string_from_chars(&out)
}

pub const PATH_SEPARATOR: &'static str = " / ";

/// A folder's path as shown with search results: its ancestors' names from the top, joined by
/// ` / `; `/` when there are none.
pub fn folder_path_text(names: &Vec<String>) -> (r: String)
    ensures
        r@ == (if names@.len() == 0 {
            "/"@
        } else {
            join(names@.map_values(|s: String| s@), PATH_SEPARATOR@)
        }),
{
    if names.len() == 0 {
        return String::from_str("/");
    }
    let mut parts: Vec<Vec<char>> = Vec::new();
    let mut i: usize = 0;
    while i < names.len()
        invariant
            i <= names.len(),
            parts@.map_values(|p: Vec<char>| p@) == names@.map_values(|s: String| s@).take(i as int),
        decreases names.len() - i,
    {
        let c = str_chars(names[i].as_str());
        let ghost before = parts@.map_values(|p: Vec<char>| p@);
        parts.push(c);
        assert(parts@.map_values(|p: Vec<char>| p@) =~= before.push(names@[i as int]@));
        assert(names@.map_values(|s: String| s@).take(i + 1) =~= names@.map_values(|s: String| s@).take(
            i as int,
        ).push(names@[i as int]@));
        i += 1;
    }
    assert(names@.map_values(|s: String| s@).take(i as int) =~= names@.map_values(|s: String| s@));
    let sep = str_chars(PATH_SEPARATOR);
    let joined = join_chars(&parts, &sep);
    string_from_chars(&joined)
}

/// `name` is a subtitle file of video `video` (see `matches_video_subtitle`).
pub open spec fn is_subtitle_of(video: Seq<char>, name: Seq<char>) -> bool {
    is_subtitle_ext(unicode_lowercase(last_ext_of(name))) && stems_match(
        unicode_lowercase(stem_of(video)),
        unicode_lowercase(stem_of(name)),
    )
}

/// The files among `files` that are subtitles of the video, in their order.
pub open spec fn subtitle_siblings_spec(video: Seq<char>, files: Seq<ObjectMetadata>) -> Seq<ObjectMetadata>
    decreases files.len(),
{
    if files.len() == 0 {
        files
    } else {
        let p = subtitle_siblings_spec(video, files.drop_last());
        if is_subtitle_of(video, files.last().name@) {
            p.push(files.last())
        } else {
            p
        }
    }
}

/// The subtitle files of a video among the files of its folder.
pub fn subtitle_siblings(video_name: &str, files: Vec<ObjectMetadata>) -> (r: Vec<ObjectMetadata>)
    ensures
        r@ == subtitle_siblings_spec(video_name@, files@),
{
    let ghost all = files@;
    let total = files.len();
    let mut rest = files;
    let mut out: Vec<ObjectMetadata> = Vec::new();
    let mut i: usize = 0;
    assert(all.take(0) =~= Seq::<ObjectMetadata>::empty());
    assert(all.skip(0) =~= all);
    while rest.len() > 0
        invariant
            i + rest@.len() == all.len(),
            all.len() == total,
            rest@ == all.skip(i as int),
            out@ == subtitle_siblings_spec(video_name@, all.take(i as int)),
        decreases rest.len(),
    {
        assert(all.take(i + 1).drop_last() =~= all.take(i as int));
        let f = rest.remove(0);
        assert(f == all[i as int]);
        assert(rest@ =~= all.skip(i + 1));
        if matches_video_subtitle(video_name, f.name.as_str()) {
            out.push(f);
        }
        i += 1;
    }
    assert(all.take(i as int) =~= all);
    out
}

// ------------------------------------------------------------------
// renaming and moving

/// A crew's root folder stays where it is and keeps its name.
pub fn rename_folder_precheck(folder: &FolderMetadata) -> (r: Result<(), NasError>)
    ensures
        folder.parent_id is None <==> r is Err,
        r matches Err(e) ==> e@ == ErrView::Forbidden(MSG_ROOT_FOLDER_FIXED@),
{
    if folder.parent_id.is_none() {
        Err(NasError::Forbidden(String::from_str(MSG_ROOT_FOLDER_FIXED)))
    } else {
        Ok(())
    }
}

/// A new name, trimmed; a blank one is refused.
pub fn clean_new_name(new_name: &str, is_folder: bool) -> (r: Result<String, NasError>)
    ensures
        trim(new_name@).len() > 0 ==> (r matches Ok(n) && n@ == trim(new_name@)),
        trim(new_name@).len() == 0 ==> (r matches Err(e) && e@ == ErrView::BadRequest(
            if is_folder {
                MSG_EMPTY_FOLDER_NAME@
            } else {
                MSG_EMPTY_FILE_NAME@
            },
        )),
{
    let c = str_chars(new_name);
    let t = trim_chars(&c);
    if t.len() == 0 {
        if is_folder {
            Err(NasError::BadRequest(String::from_str(MSG_EMPTY_FOLDER_NAME)))
        } else {
            Err(NasError::BadRequest(String::from_str(MSG_EMPTY_FILE_NAME)))
        }
    } else {
        Ok(string_from_chars(&t))
    }
}

/// A rename needs a free name unless the entry keeps both its place and its name.
pub fn location_changes(old_parent: &Option<String>, old_name: &str, new_parent: Option<&str>, new_name: &str) -> (r: bool)
    ensures
        r == (opt_view(*old_parent) != match new_parent {
            Some(p) => Some(p@),
            None => None,
        } || old_name@ != new_name@),
{
    let same_parent = match (old_parent, new_parent) {
        (Some(a), Some(b)) => str_eq(a.as_str(), b),
        (None, None) => true,
        _ => false,
    };
    !same_parent || !str_eq(old_name, new_name)
}

/// No two entries under one parent share a name: a folder of that name is reported first, then
/// a file.
pub fn sibling_conflict(folder_taken: bool, file_taken: bool) -> (r: Result<(), NasError>)
    ensures
        folder_taken ==> (r matches Err(e) && e@ == ErrView::BadRequest(MSG_FOLDER_EXISTS@)),
        !folder_taken && file_taken ==> (r matches Err(e) && e@ == ErrView::BadRequest(MSG_FILE_EXISTS@)),
        !folder_taken && !file_taken ==> r is Ok,
{
    if folder_taken {
        Err(NasError::BadRequest(String::from_str(MSG_FOLDER_EXISTS)))
    } else if file_taken {
        Err(NasError::BadRequest(String::from_str(MSG_FILE_EXISTS)))
    } else {
        Ok(())
    }
}

/// A partial update keeps the current name where none is given.
pub fn patch_name(new_name: Option<&str>, current: &str) -> (r: String)
    ensures
        r@ == match new_name {
            Some(n) => n@,
            None => current@,
        },
{
    match new_name {
        Some(n) => String::from_str(n),
        None => String::from_str(current),
    }
}

/// A partial update keeps the current parent where none is given (`Some(None)` moves to the
/// top).
pub fn patch_parent(new_parent: Option<Option<&str>>, current: &Option<String>) -> (r: Option<String>)
    ensures
        opt_view(r) == match new_parent {
            Some(Some(p)) => Some(p@),
            Some(None) => None,
            None => opt_view(*current),
        },
{
    match new_parent {
        Some(Some(p)) => Some(String::from_str(p)),
        Some(None) => None,
        None => match current {
            Some(c) => Some(c.clone()),
            None => None,
        },
    }
}

// ------------------------------------------------------------------
// reading

/// Content is handed out only under access that grants it; otherwise the file does not exist
/// for the caller.
pub fn content_access(a: FolderAccess) -> (r: Result<(), NasError>)
    ensures
        (a == FolderAccess::GuestMetaOnly || a == FolderAccess::Denied) ==> (r matches Err(e) && e@
            == ErrView::DataNotFound),
        !(a == FolderAccess::GuestMetaOnly || a == FolderAccess::Denied) ==> r is Ok,
{
    match a {
        FolderAccess::GuestMetaOnly | FolderAccess::Denied => Err(NasError::DataNotFound),
        _ => Ok(()),
    }
}

/// The content type a download is served with.
pub fn content_type_or_default(file_type: Option<String>) -> (r: String)
    ensures
        r@ == match file_type {
            Some(t) => t@,
            None => OCTET_STREAM@,
        },
{
    match file_type {
        Some(t) => t,
        None => String::from_str(OCTET_STREAM),
    }
}

/// What a folder listing returns under an access: guests of a public crew see an empty
/// listing, denied users nothing at all, others the folder's items.
pub enum ListingOutcome {
    Empty,
    NotFound,
    Items,
}

pub fn listing_outcome(a: FolderAccess) -> (r: ListingOutcome)
    ensures
        a == FolderAccess::GuestMetaOnly ==> r matches ListingOutcome::Empty,
        a == FolderAccess::Denied ==> r matches ListingOutcome::NotFound,
        !(a == FolderAccess::GuestMetaOnly || a == FolderAccess::Denied) ==> r matches ListingOutcome::Items,
{
    match a {
        FolderAccess::GuestMetaOnly => ListingOutcome::Empty,
        FolderAccess::Denied => ListingOutcome::NotFound,
        _ => ListingOutcome::Items,
    }
}

/// A search query, trimmed; under two bytes of UTF-8 it is refused.
pub fn search_query(query: &str) -> (r: Result<String, NasError>)
    ensures
        encode_utf8(trim(query@)).len() >= 2 ==> (r matches Ok(q) && q@ == trim(query@)),
        encode_utf8(trim(query@)).len() < 2 ==> (r matches Err(e) && e@ == ErrView::BadRequest(MSG_SHORT_QUERY@)),
{
    let c = str_chars(query);
    let t = trim_chars(&c);
    let ts = string_from_chars(&t);
    let b = str_bytes(ts.as_str());
    if b.len() < 2 {
        Err(NasError::BadRequest(String::from_str(MSG_SHORT_QUERY)))
    } else {
        Ok(ts)
    }
}

/// The extensions whose files can be previewed in the browser (images and videos), lower-case.
pub open spec fn is_previewable_ext(e: Seq<char>) -> bool {
    e == "jpg"@ || e == "jpeg"@ || e == "png"@ || e == "gif"@ || e == "webp"@ || e == "svg"@
        || e == "mp4"@ || e == "mkv"@ || e == "webm"@ || e == "mov"@ || e == "m4v"@ || e == "avi"@
}

pub fn previewable_ext(lowered: &str) -> (r: bool)
    ensures
        r == is_previewable_ext(lowered@),
{
    str_eq(lowered, "jpg") || str_eq(lowered, "jpeg") || str_eq(lowered, "png") || str_eq(lowered, "gif")
        || str_eq(lowered, "webp") || str_eq(lowered, "svg") || str_eq(lowered, "mp4") || str_eq(
        lowered,
        "mkv",
    ) || str_eq(lowered, "webm") || str_eq(lowered, "mov") || str_eq(lowered, "m4v") || str_eq(
        lowered,
        "avi",
    )
}

/// A name whose text after its last `.` (all of it when there is none), lower-cased, is a
/// previewable extension.
pub open spec fn is_previewable_name_spec(name: Seq<char>) -> bool {
    is_previewable_ext(unicode_lowercase(split_char(name, '.').last()))
}

pub fn is_previewable_name(name: &str) -> (r: bool)
    ensures
        r == is_previewable_name_spec(name@),
{
    let c = str_chars(name);
    let parts = split_chars(&c, '.');
    proof { lemma_split_nonempty(name@, '.'); }
    let last = string_from_chars(&parts[parts.len() - 1]);
    let lowered = to_lowercase(last.as_str());
    previewable_ext(lowered.as_str())
}

/// The common image and video formats are exactly the ones previewed: a name is previewable
/// when, and only when, its lower-cased last extension is `jpg`, `jpeg`, `png`, `gif`, `webp`,
/// `svg`, `mp4`, `mkv`, `webm`, `mov`, `m4v` or `avi`.
pub proof fn lemma_media_names_previewable(name: Seq<char>)
    ensures
        is_previewable_name_spec(name) <==> {
            let e = unicode_lowercase(split_char(name, '.').last());
            ||| e == seq!['j', 'p', 'g']
            ||| e == seq!['j', 'p', 'e', 'g']
            ||| e == seq!['p', 'n', 'g']
            ||| e == seq!['g', 'i', 'f']
            ||| e == seq!['w', 'e', 'b', 'p']
            ||| e == seq!['s', 'v', 'g']
            ||| e == seq!['m', 'p', '4']
            ||| e == seq!['m', 'k', 'v']
            ||| e == seq!['w', 'e', 'b', 'm']
            ||| e == seq!['m', 'o', 'v']
            ||| e == seq!['m', '4', 'v']
            ||| e == seq!['a', 'v', 'i']
        },
{
    reveal_strlit("jpg");
    reveal_strlit("jpeg");
    reveal_strlit("png");
    reveal_strlit("gif");
    reveal_strlit("webp");
    reveal_strlit("svg");
    reveal_strlit("mp4");
    reveal_strlit("mkv");
    reveal_strlit("webm");
    reveal_strlit("mov");
    reveal_strlit("m4v");
    reveal_strlit("avi");
    let e = unicode_lowercase(split_char(name, '.').last());
    assert("jpg"@ =~= seq!['j', 'p', 'g']);
    assert("jpeg"@ =~= seq!['j', 'p', 'e', 'g']);
    assert("png"@ =~= seq!['p', 'n', 'g']);
    assert("gif"@ =~= seq!['g', 'i', 'f']);
    assert("webp"@ =~= seq!['w', 'e', 'b', 'p']);
    assert("svg"@ =~= seq!['s', 'v', 'g']);
    assert("mp4"@ =~= seq!['m', 'p', '4']);
    assert("mkv"@ =~= seq!['m', 'k', 'v']);
    assert("webm"@ =~= seq!['w', 'e', 'b', 'm']);
    assert("mov"@ =~= seq!['m', 'o', 'v']);
    assert("m4v"@ =~= seq!['m', '4', 'v']);
    assert("avi"@ =~= seq!['a', 'v', 'i']);
}

pub const PREVIEW_URL_HEAD: &'static str = "/api/files/";

pub const PREVIEW_URL_TAIL: &'static str = "/stream?inline=true";

/// The in-browser preview URL of a file.
pub open spec fn preview_url_spec(id: Seq<char>) -> Seq<char> {
    PREVIEW_URL_HEAD@ + id + PREVIEW_URL_TAIL@
}

/// Gives a previewable file its preview URL; folders and other files keep theirs.
pub fn enrich_preview_url(item: &mut ListItem)
    ensures
        final(item).id == old(item).id,
        final(item).name == old(item).name,
        final(item).is_dir == old(item).is_dir,
        final(item).size == old(item).size,
        final(item).created_at == old(item).created_at,
        final(item).file_type == old(item).file_type,
        final(item).has_children == old(item).has_children,
        final(item).path == old(item).path,
        !old(item).is_dir && is_previewable_name_spec(old(item).name@) ==> opt_view(final(item).preview_url)
            == Some(preview_url_spec(old(item).id@)),
        !(!old(item).is_dir && is_previewable_name_spec(old(item).name@)) ==> final(item).preview_url
            == old(item).preview_url,
{
    if !item.is_dir && is_previewable_name(item.name.as_str()) {
        let mut u: Vec<char> = Vec::new();
        extend_str(&mut u, PREVIEW_URL_HEAD);
        extend_str(&mut u, item.id.as_str());
        extend_str(&mut u, PREVIEW_URL_TAIL);
        item.preview_url = Some(string_from_chars(&u));
    }
}

/// The folder path a search result is shown with: its folder's display path where it is in a
/// folder (none when that lookup failed), `Home` otherwise.
pub fn search_result_path(folder_id: &Option<String>, display_path: Option<String>) -> (r: Option<String>)
    ensures
        folder_id is Some ==> r == display_path,
        folder_id is None ==> opt_view(r) == Some(HOME_PATH@),
{
    match folder_id {
        Some(_) => display_path,
        None => Some(String::from_str(HOME_PATH)),
    }
}

/// A search result: the file with its path, and its preview URL where it has one.
pub fn search_item(meta: &ObjectMetadata, path: Option<String>) -> (r: ListItem)
    ensures
        r.id@ == meta.id@,
        r.name@ == meta.name@,
        !r.is_dir,
        r.size == meta.size,
        opt_view(r.path) == opt_view(path),
        is_previewable_name_spec(meta.name@) ==> opt_view(r.preview_url) == Some(preview_url_spec(meta.id@)),
        !is_previewable_name_spec(meta.name@) ==> r.preview_url is None,
{
    let mut item = ListItem::from_file_with_path(meta, path);
    enrich_preview_url(&mut item);
    item
}

pub const VTT_URL_TAIL: &'static str = "/as-vtt";

/// A subtitle track of a video: its file, its label, and where its WebVTT form is served.
pub fn subtitle_track(id: &str, name: &str) -> (r: SubtitleTrackInfo)
    ensures
        r.id@ == id@,
        r.name@ == name@,
        r.label@ == stem_of(name@),
        r.vtt_url@ == PREVIEW_URL_HEAD@ + id@ + VTT_URL_TAIL@,
{
    let mut u: Vec<char> = Vec::new();
    extend_str(&mut u, PREVIEW_URL_HEAD);
    extend_str(&mut u, id);
    extend_str(&mut u, VTT_URL_TAIL);
    SubtitleTrackInfo {
        id: String::from_str(id),
        name: String::from_str(name),
        label: subtitle_label(name),
        vtt_url: string_from_chars(&u),
    }
}

/// A file converted to WebVTT must be a subtitle.
pub fn subtitle_format(ext: Option<&'static str>) -> (r: Result<&'static str, NasError>)
    ensures
        ext matches Some(e) ==> r == Ok::<&'static str, NasError>(e),
        ext is None ==> (r matches Err(e) && e@ == ErrView::BadRequest(MSG_NOT_SUBTITLE@)),
{
    match ext {
        Some(e) => Ok(e),
        None => Err(NasError::BadRequest(String::from_str(MSG_NOT_SUBTITLE))),
    }
}

/// Subtitle files over 10 MiB are not converted.
pub fn subtitle_size_check(size: u64) -> (r: Result<(), NasError>)
    ensures
        size > MAX_SUBTITLE_BYTES ==> (r matches Err(e) && e@ == ErrView::BadRequest(MSG_SUBTITLE_TOO_LARGE@)),
        size <= MAX_SUBTITLE_BYTES ==> r is Ok,
{
    if size > MAX_SUBTITLE_BYTES {
        Err(NasError::BadRequest(String::from_str(MSG_SUBTITLE_TOO_LARGE)))
    } else {
        Ok(())
    }
}

} // verus!
