//! Where file content lives on disk (sharded by id), and which disk's capacity counts.
use vstd::prelude::*;
use vstd::string::*;
use vstd::utf8::*;
use std::path::Path;
use crate::bytes::{is_cut, str_bytes, str_slice};

verus! {

broadcast use vstd::utf8::group_utf8_lib;

/// Content files under one base directory.
pub struct DiskStorage {
    pub base_path: String,
}

impl DiskStorage {
    pub fn new(path: &str) -> (r: Self)
        ensures
            r.base_path@ == path@,
    {
        DiskStorage { base_path: String::from_str(path) }
    }
}

/// An id of at least four bytes whose second or fourth byte boundary falls inside a character:
/// cutting its shard names out of it would panic.
pub open spec fn shard_cut_panics(id: Seq<char>) -> bool {
    let b = encode_utf8(id);
    b.len() >= 4 && !(is_char_boundary(b, 2) && is_char_boundary(b, 4))
}

/// The path components of a file's content below the base directory: ids of four bytes or more
/// go two levels down, by their first and second pair of bytes (`ab/cd/abcdef...`).
pub open spec fn shard_components(id: Seq<char>) -> Seq<Seq<char>> {
    let b = encode_utf8(id);
    if b.len() >= 4 {
        seq![decode_utf8(b.subrange(0, 2)), decode_utf8(b.subrange(2, 4)), id]
    } else {
        seq![id]
    }
}

pub fn physical_path_components(id: &str) -> (r: Vec<String>)
    requires
        !shard_cut_panics(id@),
    ensures
        r@.map_values(|s: String| s@) == shard_components(id@),
{
    let b = str_bytes(id);
    let mut out: Vec<String> = Vec::new();
    if b.len() >= 4 {
        let s1 = str_slice(id, 0, 2);
        let s2 = str_slice(id, 2, 4);
        out.push(String::from_str(s1));
        out.push(String::from_str(s2));
    }
    out.push(String::from_str(id));
    assert(out@.map_values(|s: String| s@) =~= shard_components(id@));
    out
}

/// Whether an id can be sharded without cutting a character.
pub fn shard_cut_ok(id: &str) -> (r: bool)
    ensures
        r == !shard_cut_panics(id@),
{
    let b = str_bytes(id);
    b.len() < 4 || (is_cut(&b, 2) && is_cut(&b, 4))
}

/// What std's `Path::starts_with` says: `base`'s components are a prefix of `path`'s.
pub uninterp spec fn path_starts_with(path: Seq<char>, base: Seq<char>) -> bool;

/// std `Path::new(path).starts_with(base)` (component-wise prefix).
#[verifier::external_body]
fn std_path_starts_with(path: &str, base: &str) -> (r: bool)
    ensures
        r == path_starts_with(path@, base@),
{
    Path::new(path).starts_with(base)
}

/// A mounted disk: its mount point, total and available bytes.
pub struct DiskInfo {
    pub mount_point: String,
    pub total: u64,
    pub available: u64,
}

/// The disk whose mount point contains the storage path, the longest such mount point (by
/// bytes) winning and a later disk winning a tie: its index among `disks[..k]`, or none.
pub open spec fn best_disk(target: Seq<char>, disks: Seq<DiskInfo>, k: int) -> Option<(int, nat)>
    decreases k,
{
    if k <= 0 {
        None
    } else {
        let prev = best_disk(target, disks, k - 1);
        let d = disks[k - 1];
        let len = encode_utf8(d.mount_point@).len();
        let max_len: nat = match prev {
            Some((_, m)) => m,
            None => 0,
        };
        if path_starts_with(target, d.mount_point@) && len >= max_len {
            Some((k - 1, len))
        } else {
            prev
        }
    }
}

/// Total and available bytes of the disk the storage path is on, `(0, 0)` when none is found.
pub fn capacity_of(target: &str, disks: &Vec<DiskInfo>) -> (r: (u64, u64))
    ensures
        r == match best_disk(target@, disks@, disks@.len() as int) {
            Some((i, _)) => (disks@[i].total, disks@[i].available),
            None => (0u64, 0u64),
        },
{
    let mut best: Option<usize> = None;
    let mut max_len: usize = 0;
    let mut i: usize = 0;
    while i < disks.len()
        invariant
            i <= disks.len(),
            match best_disk(target@, disks@, i as int) {
                Some((j, m)) => 0 <= j < i && best == Some(j as usize) && max_len as nat == m,
                None => best is None && max_len == 0,
            },
        decreases disks.len() - i,
    {
        let mb = str_bytes(disks[i].mount_point.as_str());
        if std_path_starts_with(target, disks[i].mount_point.as_str()) && mb.len() >= max_len {
            best = Some(i);
            max_len = mb.len();
        }
        i += 1;
    }
    match best {
        Some(j) => (disks[j].total, disks[j].available),
        None => (0, 0),
    }
}

} // verus!
