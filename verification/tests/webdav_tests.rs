use my_nas::models::{FolderMetadata, ObjectMetadata};
use my_nas::storage::{capacity_of, physical_path_components, shard_cut_ok, DiskInfo, DiskStorage};
use my_nas::webdav_fs::{
    entry_time, flushed_metadata, initial_upload_metadata, EntryTime, is_server_root, is_webdav_mount_root, metadata_for,
    open_plan, quota, read_chunk_len, remove_plan, rename_failure, DavFsError, NasWebDavDirEntry,
    NasWebDavMetaData, OpenPlan, RemovePlan,
};
use my_nas::webdav_vfs::{
    child_name_candidates, folder_walk_after, folder_walk_start, listing_folder, normalize_segment,
    parent_walk_after, parent_walk_precheck, parent_walk_start, parse_crew_path, rename_path_precheck,
    rename_source, resolve_after_file, resolve_after_folder, resolve_after_root, resolve_start,
    FolderWalk, ParentWalk, ParsedCrewPath, ResolveStep, VfsNode,
};

fn folder(id: &str, name: &str) -> FolderMetadata {
    FolderMetadata {
        id: id.to_string(),
        parent_id: Some("root".to_string()),
        crew_id: Some("c1".to_string()),
        name: name.to_string(),
        created_at: "2024-01-01T00:00:00Z".to_string(),
        updated_at: "2024-01-01T00:00:00Z".to_string(),
    }
}

fn file(id: &str, name: &str, size: u64, checksum: Option<&str>) -> ObjectMetadata {
    ObjectMetadata {
        id: id.to_string(),
        folder_id: Some("f1".to_string()),
        name: name.to_string(),
        size,
        file_type: None,
        checksum: checksum.map(|c| c.to_string()),
        version: 1,
        is_deleted: false,
        created_at: "2024-01-01T00:00:00Z".to_string(),
        updated_at: "2024-01-01T00:00:00Z".to_string(),
    }
}

fn parsed(crew: &str, segs: &[&str]) -> ParsedCrewPath {
    ParsedCrewPath { crew_id: crew.to_string(), inner_segments: segs.iter().map(|s| s.to_string()).collect() }
}

#[test]
fn crew_paths_are_split_and_decoded() {
    let p = parse_crew_path("/c1/docs/report.txt").unwrap();
    assert_eq!(p.crew_id, "c1");
    assert_eq!(p.inner_segments, vec!["docs".to_string(), "report.txt".to_string()]);

    let p = parse_crew_path("//c1///a//").unwrap();
    assert_eq!(p.crew_id, "c1");
    assert_eq!(p.inner_segments, vec!["a".to_string()]);

    let p = parse_crew_path("/c1/%ED%95%9C%EA%B8%80/my%20file.txt").unwrap();
    assert_eq!(p.inner_segments, vec!["한글".to_string(), "my file.txt".to_string()]);

    // bytes that are not UTF-8 leave the path as it was given
    let p = parse_crew_path("/c1/%FF").unwrap();
    assert_eq!(p.inner_segments, vec!["%FF".to_string()]);

    assert_eq!(parse_crew_path("/").unwrap_err(), "WebDAV 경로에 Crew ID가 필요합니다.");
    assert_eq!(parse_crew_path("").unwrap_err(), "WebDAV 경로에 Crew ID가 필요합니다.");
}

#[test]
fn segments_are_normalized_for_windows_clients() {
    assert_eq!(normalize_segment("name. . "), "name");
    assert_eq!(normalize_segment("..."), "");
    assert_eq!(normalize_segment("a.b"), "a.b");
    // decomposed Hangul comes back composed
    assert_eq!(normalize_segment("\u{1112}\u{1161}\u{11AB}"), "\u{D55C}");
    let p = parse_crew_path("/c1/folder. /x").unwrap();
    assert_eq!(p.inner_segments, vec!["folder".to_string(), "x".to_string()]);
    let (raw, norm) = child_name_candidates("e\u{301}. ");
    assert_eq!(raw, "e\u{301}. ");
    assert_eq!(norm, "\u{e9}");
}

#[test]
fn resolving_walks_folder_by_folder() {
    let p = parsed("c1", &["a", "b.txt"]);
    match resolve_start(&p, "root") {
        ResolveStep::LookupFolder { index, parent_id } => {
            assert_eq!(index, 0);
            assert_eq!(parent_id.as_deref(), Some("root"));
        }
        _ => panic!("expected a folder lookup"),
    }
    match resolve_after_folder(&p, 0, Some("root".to_string()), Some(folder("fa", "a"))) {
        ResolveStep::LookupFolder { index, parent_id } => {
            assert_eq!(index, 1);
            assert_eq!(parent_id.as_deref(), Some("fa"));
        }
        _ => panic!("expected the next folder lookup"),
    }
    match resolve_after_folder(&p, 1, Some("fa".to_string()), None) {
        ResolveStep::LookupFile { index, parent_id } => {
            assert_eq!(index, 1);
            assert_eq!(parent_id.as_deref(), Some("fa"));
        }
        _ => panic!("expected a file lookup"),
    }
    match resolve_after_file(Some(file("x", "b.txt", 3, None))) {
        ResolveStep::Done(Some(VfsNode::File(f))) => assert_eq!(f.id, "x"),
        _ => panic!("expected the file"),
    }
    assert!(matches!(resolve_after_file(None), ResolveStep::Done(None)));
    assert!(matches!(resolve_after_folder(&p, 0, None, None), ResolveStep::Done(None)));
    match resolve_after_folder(&p, 1, None, Some(folder("fb", "b.txt"))) {
        ResolveStep::Done(Some(VfsNode::Folder(f))) => assert_eq!(f.id, "fb"),
        _ => panic!("expected the folder"),
    }

    let root_only = parsed("c1", &[]);
    match resolve_start(&root_only, "root") {
        ResolveStep::LookupRoot(id) => assert_eq!(id, "root"),
        _ => panic!("expected the root lookup"),
    }
    match resolve_after_root(None) {
        ResolveStep::Fail(m) => assert_eq!(m, "Crew 루트 폴더를 찾을 수 없습니다."),
        _ => panic!("expected a failure"),
    }
    assert!(matches!(resolve_after_root(Some(folder("root", "c1"))), ResolveStep::Done(Some(VfsNode::Folder(_)))));
}

#[test]
fn folder_and_parent_walks() {
    let p = parsed("c1", &["a", "b"]);
    match folder_walk_start(&p, None) {
        FolderWalk::Fail(m) => assert_eq!(m, "Crew 루트 폴더가 없습니다."),
        _ => panic!("expected a failure"),
    }
    match folder_walk_start(&parsed("c1", &[]), Some("root".to_string())) {
        FolderWalk::Done(Some(id)) => assert_eq!(id, "root"),
        _ => panic!("expected the root"),
    }
    match folder_walk_after(&p, 0, None) {
        FolderWalk::Fail(m) => assert_eq!(m, "경로를 찾을 수 없습니다: a"),
        _ => panic!("expected a failure"),
    }
    assert!(matches!(folder_walk_after(&p, 1, None), FolderWalk::Done(None)));
    match folder_walk_after(&p, 1, Some(folder("fb", "b"))) {
        FolderWalk::Done(Some(id)) => assert_eq!(id, "fb"),
        _ => panic!("expected the folder id"),
    }

    assert_eq!(parent_walk_precheck(&parsed("c1", &[])).unwrap_err(), "Crew 루트에는 파일을 직접 만들 수 없습니다.");
    assert!(parent_walk_precheck(&p).is_ok());
    match parent_walk_start(&parsed("c1", &["new.txt"]), "root") {
        ParentWalk::Done { parent_id, name } => {
            assert_eq!(parent_id.as_deref(), Some("root"));
            assert_eq!(name, "new.txt");
        }
        _ => panic!("expected the parent"),
    }
    match parent_walk_after(&p, 0, Some(folder("fa", "a"))) {
        ParentWalk::Done { parent_id, name } => {
            assert_eq!(parent_id.as_deref(), Some("fa"));
            assert_eq!(name, "b");
        }
        _ => panic!("expected the parent"),
    }
    match parent_walk_after(&p, 0, None) {
        ParentWalk::Fail(m) => assert_eq!(m, "상위 경로를 찾을 수 없습니다: a"),
        _ => panic!("expected a failure"),
    }
}

#[test]
fn moves_and_listings() {
    assert!(rename_path_precheck(&parsed("c1", &["a"]), &parsed("c1", &["b"])).is_ok());
    assert_eq!(
        rename_path_precheck(&parsed("c1", &["a"]), &parsed("c2", &["a"])).unwrap_err(),
        "Crew 간 이동은 지원하지 않습니다."
    );
    assert_eq!(rename_source(None).unwrap_err(), "원본 항목을 찾을 수 없습니다.");
    assert_eq!(listing_folder(&parsed("c1", &["a", "b"]), None).unwrap_err(), "폴더를 찾을 수 없습니다: a/b");
    assert_eq!(listing_folder(&parsed("c1", &[]), Some("root".to_string())).unwrap(), "root");
}

#[test]
fn webdav_metadata_and_plans() {
    assert!(!is_webdav_mount_root("/"));
    assert!(!is_webdav_mount_root(""));
    assert!(is_webdav_mount_root("/c1"));
    assert!(is_webdav_mount_root("/c1/"));
    assert!(!is_webdav_mount_root("/c1/a"));
    assert!(is_server_root("/"));
    assert!(is_server_root(""));
    assert!(!is_server_root("/c1"));
    assert_eq!(quota(100, 30), (70, Some(100)));
    assert_eq!(quota(10, 30), (0, Some(10)));
    assert_eq!(read_chunk_len(10), 10);
    assert_eq!(read_chunk_len(1_000_000), 65_536);

    let m = metadata_for("/c1", Ok(Some(VfsNode::Folder(folder("root", "c1")))), 500).unwrap();
    assert!(m.is_dir());
    assert_eq!(m.len(), 500);
    assert_eq!(m.etag().as_deref(), Some("folder-root"));
    let m = metadata_for("/c1/a.txt", Ok(Some(VfsNode::File(file("x", "a.txt", 42, Some("abc"))))), 500).unwrap();
    assert!(m.is_file());
    assert_eq!(m.len(), 42);
    assert_eq!(m.etag().as_deref(), Some("abc"));
    let m = NasWebDavMetaData::Node(VfsNode::File(file("x", "a.txt", 42, None)));
    assert_eq!(m.etag().as_deref(), Some("x"));
    assert_eq!(NasWebDavMetaData::Root.etag(), None);
    assert!(NasWebDavMetaData::Root.is_dir());
    assert_eq!(metadata_for("/c1/a", Ok(None), 0).unwrap_err(), DavFsError::NotFound);
    assert_eq!(metadata_for("/c1/a", Err("boom".to_string()), 0).unwrap_err(), DavFsError::GeneralFailure);

    assert!(matches!(open_plan(Ok(Some(VfsNode::File(file("x", "a", 1, None)))), false, false), OpenPlan::Read(_)));
    assert!(matches!(open_plan(Ok(Some(VfsNode::File(file("x", "a", 1, None)))), true, false), OpenPlan::Overwrite(_)));
    assert!(matches!(open_plan(Ok(None), true, true), OpenPlan::Create));
    assert!(matches!(open_plan(Ok(None), true, false), OpenPlan::NotFound));
    assert!(matches!(open_plan(Ok(Some(VfsNode::Folder(folder("f", "f")))), false, false), OpenPlan::NotFound));

    match remove_plan(Ok(Some(VfsNode::File(file("x", "a", 1, None)))), false) {
        RemovePlan::Delete(id) => assert_eq!(id, "x"),
        _ => panic!("expected a delete"),
    }
    assert!(matches!(remove_plan(Ok(Some(VfsNode::File(file("x", "a", 1, None)))), true), RemovePlan::Forbidden));
    assert!(matches!(remove_plan(Ok(Some(VfsNode::Folder(folder("f", "f")))), false), RemovePlan::Forbidden));
    assert!(matches!(remove_plan(Ok(None), true), RemovePlan::NotFound));

    assert_eq!(rename_failure("원본 항목을 찾을 수 없습니다."), DavFsError::NotFound);
    assert_eq!(rename_failure("disk full"), DavFsError::GeneralFailure);

    let entry = NasWebDavDirEntry { node: VfsNode::Folder(folder("f", "사진")) };
    assert_eq!(entry.name(), "사진".as_bytes().to_vec());
}

#[test]
fn uploads_record_their_metadata() {
    let m = initial_upload_metadata("id1".to_string(), Some("f1".to_string()), "movie.mp4".to_string(), "T0".to_string());
    assert_eq!(m.size, 0);
    assert_eq!(m.file_type.as_deref(), Some("video/mp4"));
    assert_eq!(m.checksum, None);
    assert_eq!(m.created_at, "T0");

    let done = flushed_metadata(&m, 1234, Some("T-1".to_string()), "T1".to_string());
    assert_eq!(done.size, 1234);
    assert_eq!(done.created_at, "T-1");
    assert_eq!(done.updated_at, "T1");
    let done = flushed_metadata(&m, 5, Some(String::new()), "T1".to_string());
    assert_eq!(done.created_at, "T0");
    let done = flushed_metadata(&m, 5, None, "T1".to_string());
    assert_eq!(done.created_at, "T0");
    let mut fresh = m.clone();
    fresh.created_at = String::new();
    let done = flushed_metadata(&fresh, 5, None, "T1".to_string());
    assert_eq!(done.created_at, "T1");
}

#[test]
fn content_paths_are_sharded() {
    assert_eq!(DiskStorage::new("/data").base_path, "/data");
    assert_eq!(
        physical_path_components("abcdef"),
        vec!["ab".to_string(), "cd".to_string(), "abcdef".to_string()]
    );
    assert_eq!(physical_path_components("abc"), vec!["abc".to_string()]);
    assert!(shard_cut_ok("abcd"));
    assert!(shard_cut_ok("한"));
    assert!(!shard_cut_ok("한글"));
}

#[test]
fn capacity_comes_from_the_longest_matching_mount() {
    let disks = vec![
        DiskInfo { mount_point: "/".to_string(), total: 100, available: 50 },
        DiskInfo { mount_point: "/data".to_string(), total: 1000, available: 10 },
        DiskInfo { mount_point: "/other".to_string(), total: 7, available: 7 },
    ];
    assert_eq!(capacity_of("/data/nas", &disks), (1000, 10));
    assert_eq!(capacity_of("/home/x", &disks), (100, 50));
    // components, not text: /database is not under /data
    assert_eq!(capacity_of("/database", &disks), (100, 50));
    assert_eq!(capacity_of("relative", &disks), (0, 0));
}

#[test]
fn stored_times_as_webdav_reports_them() {
    assert_eq!(entry_time(""), EntryTime::Now);
    assert_eq!(entry_time("2024-01-01T00:00:00Z"), EntryTime::At(1_704_067_200, 0));
    assert_eq!(entry_time("2024-01-01T09:00:00.5+09:00"), EntryTime::At(1_704_067_200, 500_000_000));
    assert_eq!(entry_time("2024-01-01 09:00:00 +09:00"), EntryTime::At(1_704_067_200, 0));
    assert_eq!(entry_time("yesterday"), EntryTime::Unreadable);

    let mut f = folder("f", "f");
    f.created_at = "bad".to_string();
    f.updated_at = "2024-01-01T00:00:00Z".to_string();
    let m = NasWebDavMetaData::Node(VfsNode::Folder(f));
    assert_eq!(m.created_time(), EntryTime::At(1_704_067_200, 0));
    assert_eq!(m.modified_time(), EntryTime::At(1_704_067_200, 0));
    assert_eq!(NasWebDavMetaData::Root.modified_time(), EntryTime::Now);
    assert_eq!(NasWebDavMetaData::Root.created_time(), EntryTime::Now);
}
