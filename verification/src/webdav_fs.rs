//! The WebDAV file system over crew trees: what each WebDAV operation decides, and the metadata
//! and directory entries it reports. Storage and repository calls are the caller's.
use vstd::prelude::*;
use vstd::string::*;
use vstd::utf8::*;
use crate::auth::{parse_rfc3339, rfc3339_instant};
use crate::bytes::str_bytes;
use crate::models::{opt_view, FolderMetadata, ObjectMetadata};
use crate::text::{contains, contains_chars, extend_str, split_char, split_chars, str_chars, string_from_chars};
use crate::webdav_vfs::{nonempty_pieces, VfsNode};

verus! {

/// The failures a WebDAV operation reports.
#[derive(Debug, Clone, Copy, PartialEq, Eq, Structural)]
pub enum DavFsError {
    NotFound,
    Forbidden,
    GeneralFailure,
}

/// What WebDAV properties describe: the server root, an entry, or a crew's mount root, whose
/// length is the disk space in use (clients show it as used quota).
#[derive(Debug, Clone)]
pub enum NasWebDavMetaData {
    Root,
    Node(VfsNode),
    MountRoot { node: VfsNode, disk_used: u64 },
}

impl NasWebDavMetaData {
    pub open spec fn node_spec(&self) -> Option<VfsNode> {
        match self {
            NasWebDavMetaData::Node(n) => Some(*n),
            NasWebDavMetaData::MountRoot { node, .. } => Some(*node),
            NasWebDavMetaData::Root => None,
        }
    }

    /// The entry described, if any.
    pub fn vfs_node(&self) -> (r: Option<&VfsNode>)
        ensures
            match r {
                Some(n) => self.node_spec() == Some(*n),
                None => self.node_spec() is None,
            },
    {
        match self {
            NasWebDavMetaData::Node(n) => Some(n),
            NasWebDavMetaData::MountRoot { node, .. } => Some(node),
            NasWebDavMetaData::Root => None,
        }
    }

    /// Length: a file's size, the disk space in use for a mount root, 0 otherwise.
    pub fn len(&self) -> (r: u64)
        ensures
            r == match self {
                NasWebDavMetaData::Root => 0,
                NasWebDavMetaData::MountRoot { disk_used, .. } => *disk_used,
                NasWebDavMetaData::Node(VfsNode::Folder(_)) => 0,
                NasWebDavMetaData::Node(VfsNode::File(f)) => f.size,
            },
    {
        match self {
            NasWebDavMetaData::Root => 0,
            NasWebDavMetaData::MountRoot { disk_used, .. } => *disk_used,
            NasWebDavMetaData::Node(VfsNode::Folder(_)) => 0,
            NasWebDavMetaData::Node(VfsNode::File(f)) => f.size,
        }
    }

    /// The root and folders are directories.
    pub fn is_dir(&self) -> (r: bool)
        ensures
            r == !(self.node_spec() matches Some(VfsNode::File(_))),
    {
        match self.vfs_node() {
            None => true,
            Some(VfsNode::Folder(_)) => true,
            Some(VfsNode::File(_)) => false,
        }
    }

    /// Only files are files.
    pub fn is_file(&self) -> (r: bool)
        ensures
            r == (self.node_spec() matches Some(VfsNode::File(_))),
    {
        match self.vfs_node() {
            Some(VfsNode::File(_)) => true,
            _ => false,
        }
    }

    /// The entity tag: a file's checksum, or its id when it has none; `folder-` and the id for a
    /// folder; none for the root.
    pub fn etag(&self) -> (r: Option<String>)
        ensures
            match self.node_spec() {
                Some(VfsNode::File(f)) => opt_view(r) == Some(
                    match f.checksum {
                        Some(c) => c@,
                        None => f.id@,
                    },
                ),
                Some(VfsNode::Folder(f)) => opt_view(r) == Some(FOLDER_ETAG_PREFIX@ + f.id@),
                None => r is None,
            },
    {
        match self.vfs_node() {
            Some(VfsNode::File(f)) => match &f.checksum {
                Some(c) => Some(c.clone()),
                None => Some(f.id.clone()),
            },
            Some(VfsNode::Folder(f)) => {
                let mut e: Vec<char> = Vec::new();
                extend_str(&mut e, FOLDER_ETAG_PREFIX);
                extend_str(&mut e, f.id.as_str());
                Some(string_from_chars(&e))
            },
            None => None,
        }
    }
}

pub const FOLDER_ETAG_PREFIX: &'static str = "folder-";

/// A path that names only a crew (`/crew-id/`): its mount root. The server root `/` is none.
pub open spec fn is_mount_root_spec(path: Seq<char>) -> bool {
    nonempty_pieces(split_char(path, '/')).len() == 1
}

pub fn is_webdav_mount_root(path: &str) -> (r: bool)
    ensures
        r == is_mount_root_spec(path@),
{
    let c = str_chars(path);
    let pieces = split_chars(&c, '/');
    let ghost pv = split_char(c@, '/');
    let mut count: usize = 0;
    let mut i: usize = 0;
    assert(pv.take(0) =~= Seq::<Seq<char>>::empty());
    while i < pieces.len()
        invariant
            i <= pieces.len(),
            pieces@.len() == pv.len(),
            forall|k: int| 0 <= k < pieces@.len() ==> #[trigger] pieces@[k]@ == pv[k],
            count == nonempty_pieces(pv.take(i as int)).len(),
            count <= i,
        decreases pieces.len() - i,
    {
        assert(pv.take(i + 1).drop_last() =~= pv.take(i as int));
        if pieces[i].len() > 0 {
            count += 1;
        }
        i += 1;
    }
    assert(pv.take(pieces.len() as int) =~= pv);
    count == 1
}

/// An entry of a directory listing.
#[derive(Debug)]
pub struct NasWebDavDirEntry {
    pub node: VfsNode,
}

impl NasWebDavDirEntry {
    /// The entry's name as UTF-8 bytes.
    pub fn name(&self) -> (r: Vec<u8>)
        ensures
            r@ == match self.node {
                VfsNode::Folder(f) => encode_utf8(f.name@),
                VfsNode::File(f) => encode_utf8(f.name@),
            },
    {
        match &self.node {
            VfsNode::Folder(f) => str_bytes(f.name.as_str()),
            VfsNode::File(f) => str_bytes(f.name.as_str()),
        }
    }
}


// ------------------------------------------------------------------
// operations

/// The server root is not listed or described: WebDAV mounts start at a crew.
pub fn is_server_root(path: &str) -> (r: bool)
    ensures
        r == (path@ == "/"@ || path@.len() == 0),
{
    path.is_empty() || crate::text::str_eq(path, "/")
}

/// Quota as WebDAV reports it: the space in use and the total.
pub fn quota(total: u64, available: u64) -> (r: (u64, Option<u64>))
    ensures
        r.0 == (if total >= available { (total - available) as u64 } else { 0 }),
        r.1 == Some(total),
{
    let used = if total >= available { total - available } else { 0 };
    (used, Some(total))
}

/// The properties for a resolved path: a mount root reports the disk space in use as its
/// length.
pub fn metadata_for(path: &str, resolved: Result<Option<VfsNode>, String>, disk_used: u64) -> (r: Result<NasWebDavMetaData, DavFsError>)
    ensures
        match resolved {
            Ok(Some(n)) => if is_mount_root_spec(path@) {
                r matches Ok(NasWebDavMetaData::MountRoot { node, disk_used: d }) && node == n && d == disk_used
            } else {
                r matches Ok(NasWebDavMetaData::Node(node)) && node == n
            },
            Ok(None) => r matches Err(DavFsError::NotFound),
            Err(_) => r matches Err(DavFsError::GeneralFailure),
        },
{
    match resolved {
        Ok(Some(node)) => {
            if is_webdav_mount_root(path) {
                Ok(NasWebDavMetaData::MountRoot { node, disk_used })
            } else {
                Ok(NasWebDavMetaData::Node(node))
            }
        },
        Ok(None) => Err(DavFsError::NotFound),
        Err(_) => Err(DavFsError::GeneralFailure),
    }
}

/// Opening a path: an existing file for reading or (with `write`) for overwriting; a new file
/// when nothing is there and `create` is asked; nothing otherwise (folders included).
pub enum OpenPlan {
    Read(ObjectMetadata),
    Overwrite(ObjectMetadata),
    Create,
    NotFound,
}

pub fn open_plan(resolved: Result<Option<VfsNode>, String>, write: bool, create: bool) -> (r: OpenPlan)
    ensures
        match resolved {
            Ok(Some(VfsNode::File(f))) => if write {
                r matches OpenPlan::Overwrite(g) && g == f
            } else {
                r matches OpenPlan::Read(g) && g == f
            },
            Ok(None) => if create {
                r matches OpenPlan::Create
            } else {
                r matches OpenPlan::NotFound
            },
            _ => r matches OpenPlan::NotFound,
        },
{
    match resolved {
        Ok(Some(VfsNode::File(f))) => {
            if write {
                OpenPlan::Overwrite(f)
            } else {
                OpenPlan::Read(f)
            }
        },
        Ok(None) => {
            if create {
                OpenPlan::Create
            } else {
                OpenPlan::NotFound
            }
        },
        _ => OpenPlan::NotFound,
    }
}

/// The record of a file created by a WebDAV upload before its content arrives: empty, typed by
/// its name.
pub fn initial_upload_metadata(id: String, folder_id: Option<String>, name: String, now: String) -> (r: ObjectMetadata)
    ensures
        r.id == id,
        r.folder_id == folder_id,
        r.name == name,
        r.size == 0,
        opt_view(r.file_type) == Some(crate::files::guessed_mime(name@)),
        r.checksum is None,
        r.version == 1,
        !r.is_deleted,
        r.created_at == now,
        r.updated_at == now,
{
    let mut m = crate::files::new_upload_metadata(id, folder_id, name, 0, "", String::new(), now);
    let mime = crate::files::mime_of(m.name.as_str());
    m.file_type = Some(mime);
    m.checksum = None;
    m
}

/// The creation time kept when an upload finishes: the stored one when there is a non-empty
/// one, else the one the upload started with, else now.
pub open spec fn kept_created_at(stored: Option<Seq<char>>, started: Seq<char>, now: Seq<char>) -> Seq<char> {
    match stored {
        Some(s) => if s.len() > 0 {
            s
        } else if started.len() > 0 {
            started
        } else {
            now
        },
        None => if started.len() > 0 {
            started
        } else {
            now
        },
    }
}

/// The record of a file once its WebDAV upload is flushed: its final size and type, the kept
/// creation time, updated now, no checksum.
pub fn flushed_metadata(meta: &ObjectMetadata, final_size: u64, stored_created_at: Option<String>, now: String) -> (r: ObjectMetadata)
    ensures
        r.id == meta.id,
        opt_view(r.folder_id) == opt_view(meta.folder_id),
        r.name == meta.name,
        r.size == final_size,
        opt_view(r.file_type) == Some(crate::files::guessed_mime(meta.name@)),
        r.created_at@ == kept_created_at(opt_view(stored_created_at), meta.created_at@, now@),
        r.updated_at == now,
        r.checksum is None,
        r.version == 1,
        !r.is_deleted,
{
    let created = match stored_created_at {
        Some(s) => {
            if s.as_str().is_empty() {
                if meta.created_at.as_str().is_empty() {
                    now.clone()
                } else {
                    meta.created_at.clone()
                }
            } else {
                s
            }
        },
        None => {
            if meta.created_at.as_str().is_empty() {
                now.clone()
            } else {
                meta.created_at.clone()
            }
        },
    };
    ObjectMetadata {
        id: meta.id.clone(),
        folder_id: crate::models::clone_opt(&meta.folder_id),
        name: meta.name.clone(),
        size: final_size,
        file_type: Some(crate::files::mime_of(meta.name.as_str())),
        checksum: None,
        version: 1,
        is_deleted: false,
        created_at: created,
        updated_at: now,
    }
}

/// Largest read handed out at once: 64 KiB.
pub const MAX_READ_CHUNK: usize = 65_536;

pub fn read_chunk_len(count: usize) -> (r: usize)
    ensures
        r == (if count < MAX_READ_CHUNK { count } else { MAX_READ_CHUNK }),
{
    if count < MAX_READ_CHUNK {
        count
    } else {
        MAX_READ_CHUNK
    }
}

/// Deleting: a file by `DELETE` on a file, a folder by `DELETE` on a folder; the other kind is
/// forbidden, a missing path not found.
pub enum RemovePlan {
    Delete(String),
    Forbidden,
    NotFound,
}

pub fn remove_plan(resolved: Result<Option<VfsNode>, String>, want_dir: bool) -> (r: RemovePlan)
    ensures
        match resolved {
            Ok(Some(VfsNode::File(f))) => if want_dir {
                r matches RemovePlan::Forbidden
            } else {
                r matches RemovePlan::Delete(id) && id@ == f.id@
            },
            Ok(Some(VfsNode::Folder(f))) => if want_dir {
                r matches RemovePlan::Delete(id) && id@ == f.id@
            } else {
                r matches RemovePlan::Forbidden
            },
            _ => r matches RemovePlan::NotFound,
        },
{
    match resolved {
        Ok(Some(VfsNode::File(f))) => {
            if want_dir {
                RemovePlan::Forbidden
            } else {
                RemovePlan::Delete(f.id)
            }
        },
        Ok(Some(VfsNode::Folder(f))) => {
            if want_dir {
                RemovePlan::Delete(f.id)
            } else {
                RemovePlan::Forbidden
            }
        },
        _ => RemovePlan::NotFound,
    }
}

// ------------------------------------------------------------------
// times

/// What chrono reads from this text as a `DateTime<Utc>` (`str::parse`), as seconds since the
/// epoch and nanoseconds.
pub uninterp spec fn utc_datetime_instant(s: Seq<char>) -> Option<(i64, u32)>;

/// chrono 0.4 `s.parse::<DateTime<Utc>>()`, as `timestamp()` and `timestamp_subsec_nanos()`;
/// `None` where chrono does not read the text as a date and time.
#[verifier::external_body]
fn parse_utc_datetime(s: &str) -> (r: Option<(i64, u32)>)
    ensures
        r == utc_datetime_instant(s@),
{
    s.parse::<chrono::DateTime<chrono::Utc>>().ok().map(|d| (d.timestamp(), d.timestamp_subsec_nanos()))
}

/// A stored time as WebDAV reports it: now for an empty text, the instant of an RFC 3339 text or
/// else of a text chrono reads as a UTC date and time, or unreadable.
#[derive(Debug, Clone, Copy, PartialEq, Eq, Structural)]
pub enum EntryTime {
    Now,
    At(i64, u32),
    Unreadable,
}

pub open spec fn entry_time_spec(s: Seq<char>) -> EntryTime {
    if s.len() == 0 {
        EntryTime::Now
    } else {
        match rfc3339_instant(s) {
            Some((a, b)) => EntryTime::At(a, b),
            None => match utc_datetime_instant(s) {
                Some((a, b)) => EntryTime::At(a, b),
                None => EntryTime::Unreadable,
            },
        }
    }
}

pub fn entry_time(s: &str) -> (r: EntryTime)
    ensures
        r == entry_time_spec(s@),
{
    if s.is_empty() {
        return EntryTime::Now;
    }
    match parse_rfc3339(s) {
        Some((a, b)) => EntryTime::At(a, b),
        None => match parse_utc_datetime(s) {
            Some((a, b)) => EntryTime::At(a, b),
            None => EntryTime::Unreadable,
        },
    }
}

impl NasWebDavMetaData {
    /// Last modified: the entry's update time; now for the server root.
    pub fn modified_time(&self) -> (r: EntryTime)
        ensures
            r == match self.node_spec() {
                None => EntryTime::Now,
                Some(VfsNode::Folder(f)) => entry_time_spec(f.updated_at@),
                Some(VfsNode::File(f)) => entry_time_spec(f.updated_at@),
            },
    {
        match self.vfs_node() {
            None => EntryTime::Now,
            Some(VfsNode::Folder(f)) => entry_time(f.updated_at.as_str()),
            Some(VfsNode::File(f)) => entry_time(f.updated_at.as_str()),
        }
    }

    /// Created: the entry's creation time, its update time where that is unreadable; now for
    /// the server root.
    pub fn created_time(&self) -> (r: EntryTime)
        ensures
            r == match self.node_spec() {
                None => EntryTime::Now,
                Some(VfsNode::Folder(f)) => if entry_time_spec(f.created_at@) == EntryTime::Unreadable {
                    entry_time_spec(f.updated_at@)
                } else {
                    entry_time_spec(f.created_at@)
                },
                Some(VfsNode::File(f)) => if entry_time_spec(f.created_at@) == EntryTime::Unreadable {
                    entry_time_spec(f.updated_at@)
                } else {
                    entry_time_spec(f.created_at@)
                },
            },
    {
        let (c, u) = match self.vfs_node() {
            None => {
                return EntryTime::Now;
            },
            Some(VfsNode::Folder(f)) => (f.created_at.as_str(), f.updated_at.as_str()),
            Some(VfsNode::File(f)) => (f.created_at.as_str(), f.updated_at.as_str()),
        };
        let t = entry_time(c);
        if t == EntryTime::Unreadable {
            entry_time(u)
        } else {
            t
        }
    }
}

/// A failed move is reported as not found when its message says something was not found.
pub fn rename_failure(message: &str) -> (r: DavFsError)
    ensures
        r == (if contains(message@, "찾을 수 없"@) {
            DavFsError::NotFound
        } else {
            DavFsError::GeneralFailure
        }),
{
    let m = str_chars(message);
    let k = str_chars("찾을 수 없");
    if contains_chars(&m, &k) {
        DavFsError::NotFound
    } else {
        DavFsError::GeneralFailure
    }
}

} // verus!
