use my_nas::errors::NasError;
use my_nas::files::{file_record, folder_path_text, merge_list_items, name_search_pattern, subtitle_siblings};
use my_nas::models::{FolderMetadata, ObjectMetadata, Role};
use my_nas::requests::{InviteCrewMemberRequest, Invitee};
use my_nas::stream::{content_disposition, stream_plan};
use my_nas::web::upload_size_hint;

fn file(id: &str, name: &str) -> ObjectMetadata {
    file_record(
        id.to_string(),
        Some("f".to_string()),
        name.to_string(),
        10,
        Some("text/plain".to_string()),
        None,
        1,
        0,
        "c".to_string(),
        "u".to_string(),
    )
}

#[test]
fn stored_rows_become_records() {
    let f = file_record("a".into(), None, "x".into(), -1, None, Some("h".into()), (1i64 << 32) + 7, 2, "c".into(), "u".into());
    assert_eq!(f.size, u64::MAX);
    assert_eq!(f.version, 7);
    assert!(f.is_deleted);
    assert_eq!(f.checksum.as_deref(), Some("h"));
    let g = file("b", "y");
    assert!(!g.is_deleted);
    assert_eq!(g.size, 10);
}

#[test]
fn listings_put_folders_first() {
    let folders = vec![FolderMetadata {
        id: "d".into(),
        parent_id: None,
        crew_id: None,
        name: "docs".into(),
        created_at: "t".into(),
        updated_at: "t".into(),
    }];
    let files = vec![file("a", "a.txt"), file("b", "b.txt")];
    let items = merge_list_items(&folders, &files);
    assert_eq!(items.len(), 3);
    assert!(items[0].is_dir);
    assert_eq!(items[0].name, "docs");
    assert_eq!(items[0].size, 0);
    assert!(!items[1].is_dir);
    assert_eq!(items[1].id, "a");
    assert_eq!(items[2].file_type.as_deref(), Some("text/plain"));
    assert_eq!(items[2].preview_url, None);
}

#[test]
fn search_patterns_and_paths() {
    assert_eq!(name_search_pattern("report"), "%report%");
    assert_eq!(name_search_pattern("50%_off"), "%50\\%\\_off%");
    assert_eq!(name_search_pattern("a\\b"), "%a\\b%");
    assert_eq!(folder_path_text(&vec![]), "/");
    assert_eq!(folder_path_text(&vec!["Crew".to_string()]), "Crew");
    assert_eq!(
        folder_path_text(&vec!["Crew".to_string(), "사진".to_string(), "2024".to_string()]),
        "Crew / 사진 / 2024"
    );
}

#[test]
fn subtitles_next_to_a_video() {
    let files = vec![
        file("1", "Movie.mp4"),
        file("2", "movie.SRT"),
        file("3", "movie.ko.smi"),
        file("4", "other.srt"),
        file("5", "movie.txt"),
        file("6", "movies.vtt"),
    ];
    let subs = subtitle_siblings("Movie.mp4", files);
    let ids: Vec<&str> = subs.iter().map(|f| f.id.as_str()).collect();
    assert_eq!(ids, vec!["2", "3"]);
}

#[test]
fn streamed_files_are_described() {
    assert_eq!(content_disposition("a b.mp4", true), "inline; filename=\"a b.mp4\"");
    assert_eq!(content_disposition("x.zip", false), "attachment; filename=\"x.zip\"");

    let whole = stream_plan(1000, "v.mp4", false, None);
    assert_eq!((whole.status, whole.start, whole.length), (200, 0, 1000));
    assert_eq!(whole.content_range, None);
    assert_eq!(whole.disposition, "attachment; filename=\"v.mp4\"");

    let part = stream_plan(1000, "v.mp4", true, Some((100, 199)));
    assert_eq!((part.status, part.start, part.length), (206, 100, 100));
    assert_eq!(part.content_range.as_deref(), Some("bytes 100-199/1000"));
    assert_eq!(part.disposition, "inline; filename=\"v.mp4\"");
}

#[test]
fn announced_upload_sizes() {
    assert_eq!(upload_size_hint(Some("1234")), 1234);
    assert_eq!(upload_size_hint(Some("+12")), 12);
    assert_eq!(upload_size_hint(Some("12a")), 0);
    assert_eq!(upload_size_hint(Some("")), 0);
    assert_eq!(upload_size_hint(None), 0);
}

#[test]
fn invitations_name_a_user() {
    let req = |id: Option<i64>, name: Option<&str>, role: Option<u8>| InviteCrewMemberRequest {
        target_user_id: id,
        username: name.map(|s| s.to_string()),
        role,
    };
    assert!(matches!(req(Some(3), Some("bob"), None).invitee(), Ok(Invitee::ByName(n)) if n == "bob"));
    assert!(matches!(req(Some(3), Some("  "), None).invitee(), Ok(Invitee::ById(3))));
    assert!(matches!(req(Some(3), None, None).invitee(), Ok(Invitee::ById(3))));
    match req(None, Some(" "), None).invitee() {
        Err(NasError::BadRequest(m)) => assert_eq!(m, "초대할 사용자(아이디 또는 user_id)를 지정해주세요."),
        _ => panic!("expected a refusal"),
    }
    assert_eq!(req(None, None, None).invited_role(), Role::Member);
    assert_eq!(req(None, None, Some(1)).invited_role(), Role::Manager);
    assert_eq!(req(None, None, Some(3)).invited_role(), Role::Guest);
    assert_eq!(req(None, None, Some(9)).invited_role(), Role::Member);
}
