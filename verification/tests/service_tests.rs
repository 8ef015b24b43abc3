use my_nas::access::{grants_content, next_access_step, AccessFacts, AccessLookup, AccessQuery, AccessStep, FolderAccess};
use my_nas::auth::{
    app_password_owner, app_password_precheck, current_password_check, hash_failure, login_check,
    new_password_check, session_info, session_times_at, session_times_now, session_verdict, validate_registration,
    SessionVerdict, TokenCache,
};
use my_nas::crew::{ban_precheck, delete_walk_start, initial_membership, DeleteWalk};
use my_nas::crew_views::{deletable_crew, discoverable_crews, guest_view_is_global, guest_view_plan, home_crews, GuestViewPlan};
use my_nas::crypto::{app_key, generate_token, hash_password, hash_token, session_key, verify_password};
use my_nas::errors::NasError;
use my_nas::ids::timestamp_now;
use my_nas::files::{
    clean_new_name, content_access, content_type_or_default, enrich_preview_url, folder_name_candidate,
    folder_name_next, folder_target_name, is_previewable_name, listing_outcome, location_changes,
    new_folder_crew_source, new_upload_metadata, patch_name, patch_parent, rename_folder_precheck,
    search_query, search_result_path, sibling_conflict, subtitle_format, subtitle_size_check,
    subtitle_track, upload_name, upload_name_next, CrewSource, ListingOutcome, NameSearch,
};
use my_nas::models::{Crew, CrewMembership, CrewVisibility, FolderMetadata, ListItem, ObjectMetadata, Status, User};
use my_nas::rate_limit::LoginRateLimiter;
use my_nas::trash::{
    crew_scope_matches, purge_target, restore_container, restore_container_check, trash_file_check,
    trash_folder_check, trash_scope_check, TrashPurgeTarget,
};

fn crew(id: &str, root: Option<&str>, visibility: CrewVisibility) -> Crew {
    Crew {
        id: id.to_string(),
        name: format!("crew {id}"),
        parent_id: None,
        depth: 0,
        visibility,
        max_sub_crew_depth: 3,
        root_folder_id: root.map(|r| r.to_string()),
        created_at: String::new(),
    }
}

fn folder(id: &str, parent: Option<&str>, crew_id: Option<&str>) -> FolderMetadata {
    FolderMetadata {
        id: id.to_string(),
        parent_id: parent.map(|p| p.to_string()),
        crew_id: crew_id.map(|c| c.to_string()),
        name: format!("folder {id}"),
        created_at: String::new(),
        updated_at: String::new(),
    }
}

fn file(id: &str, name: &str, deleted: bool) -> ObjectMetadata {
    ObjectMetadata {
        id: id.to_string(),
        folder_id: Some("f".to_string()),
        name: name.to_string(),
        size: 10,
        file_type: None,
        checksum: None,
        version: 1,
        is_deleted: deleted,
        created_at: String::new(),
        updated_at: String::new(),
    }
}

#[test]
fn upload_names_count_up() {
    assert_eq!(upload_name("movie.mp4", 0), "movie.mp4");
    assert_eq!(upload_name("movie.mp4", 2), "movie (2).mp4");
    assert_eq!(upload_name("archive.tar.gz", 1), "archive.tar (1).gz");
    assert_eq!(upload_name("README", 3), "README (3)");
    assert_eq!(upload_name(".bashrc", 1), ".bashrc (1)");
    assert!(matches!(upload_name_next("a.txt", 0, false), NameSearch::Use(n) if n == "a.txt"));
    assert!(matches!(upload_name_next("a.txt", 0, true), NameSearch::Check { attempt: 1, name } if name == "a (1).txt"));
}

#[test]
fn folder_names() {
    assert_eq!(folder_target_name(None), "새 폴더");
    assert_eq!(folder_target_name(Some("   ")), "새 폴더");
    assert_eq!(folder_target_name(Some(" Docs ")), "Docs");
    assert_eq!(folder_name_candidate("Docs", 0), "Docs");
    assert_eq!(folder_name_candidate("Docs", 2), "Docs (2)");
    match folder_name_next("Docs", false, 0, true) {
        NameSearch::Fail(NasError::BadRequest(m)) => assert_eq!(m, "같은 이름의 폴더가 이미 있습니다."),
        _ => panic!("conflict expected"),
    }
    assert!(matches!(folder_name_next("Docs", true, 1, true), NameSearch::Check { attempt: 2, name } if name == "Docs (2)"));
    assert!(matches!(new_folder_crew_source(Some("c"), Some("p")), CrewSource::Given(c) if c == "c"));
    assert!(matches!(new_folder_crew_source(None, Some("p")), CrewSource::ParentFolder(p) if p == "p"));
    assert!(matches!(new_folder_crew_source(None, None), CrewSource::NoCrew));
}

#[test]
fn upload_metadata_is_typed_by_name() {
    let m = new_upload_metadata("id".into(), None, "a.png".into(), 5, "a.png", "sum".into(), "now".into());
    assert_eq!(m.file_type.as_deref(), Some("image/png"));
    assert_eq!(m.version, 1);
    assert_eq!(m.checksum.as_deref(), Some("sum"));
    let u = new_upload_metadata("id".into(), None, "x".into(), 5, "x.unknownext", "s".into(), "n".into());
    assert_eq!(u.file_type.as_deref(), Some("application/octet-stream"));
}

#[test]
fn rename_rules() {
    assert!(matches!(rename_folder_precheck(&folder("r", None, Some("c"))), Err(NasError::Forbidden(_))));
    assert!(rename_folder_precheck(&folder("a", Some("r"), Some("c"))).is_ok());
    assert!(matches!(clean_new_name("  ", true), Err(NasError::BadRequest(m)) if m == "폴더 이름이 비어 있습니다."));
    assert!(matches!(clean_new_name("", false), Err(NasError::BadRequest(m)) if m == "파일 이름이 비어 있습니다."));
    assert_eq!(clean_new_name(" b.txt ", false).unwrap(), "b.txt");
    assert!(!location_changes(&Some("p".into()), "a", Some("p"), "a"));
    assert!(location_changes(&Some("p".into()), "a", None, "a"));
    assert!(location_changes(&None, "a", None, "b"));
    assert!(matches!(sibling_conflict(true, true), Err(NasError::BadRequest(m)) if m == "같은 이름의 폴더가 이미 있습니다."));
    assert!(matches!(sibling_conflict(false, true), Err(NasError::BadRequest(m)) if m == "같은 이름의 파일이 이미 있습니다."));
    assert!(sibling_conflict(false, false).is_ok());
    assert_eq!(patch_name(None, "old"), "old");
    assert_eq!(patch_name(Some("new"), "old"), "new");
    assert_eq!(patch_parent(None, &Some("p".into())), Some("p".to_string()));
    assert_eq!(patch_parent(Some(None), &Some("p".into())), None);
    assert_eq!(patch_parent(Some(Some("q")), &None), Some("q".to_string()));
}

#[test]
fn reading_rules() {
    assert!(matches!(content_access(FolderAccess::GuestMetaOnly), Err(NasError::DataNotFound)));
    assert!(content_access(FolderAccess::Read).is_ok());
    assert!(!grants_content(FolderAccess::Denied));
    assert_eq!(content_type_or_default(None), "application/octet-stream");
    assert!(matches!(listing_outcome(FolderAccess::GuestMetaOnly), ListingOutcome::Empty));
    assert!(matches!(listing_outcome(FolderAccess::Denied), ListingOutcome::NotFound));
    assert!(matches!(listing_outcome(FolderAccess::Write), ListingOutcome::Items));
    assert!(matches!(search_query(" a "), Err(NasError::BadRequest(m)) if m == "검색어는 2자 이상이어야 합니다."));
    assert_eq!(search_query(" 한 ").unwrap(), "한");
    assert_eq!(search_query("ab").unwrap(), "ab");
    assert_eq!(search_result_path(&None, None), Some("Home".to_string()));
    assert_eq!(search_result_path(&Some("f".into()), None), None);
    assert!(is_previewable_name("PIC.JPG"));
    assert!(is_previewable_name("mp4"));
    assert!(!is_previewable_name("doc.pdf"));
    let mut item = ListItem::from_file(&file("id9", "clip.MKV", false));
    enrich_preview_url(&mut item);
    assert_eq!(item.preview_url.as_deref(), Some("/api/files/id9/stream?inline=true"));
    let mut dir = ListItem::from_folder(&folder("d.mp4", None, None));
    enrich_preview_url(&mut dir);
    assert_eq!(dir.preview_url, None);
    let t = subtitle_track("id1", "movie.ko.srt");
    assert_eq!(t.label, "movie.ko");
    assert_eq!(t.vtt_url, "/api/files/id1/as-vtt");
    assert!(matches!(subtitle_format(None), Err(NasError::BadRequest(m)) if m == "자막 파일이 아닙니다."));
    assert!(matches!(subtitle_size_check(10_485_761), Err(NasError::BadRequest(m)) if m == "자막 파일이 너무 큽니다."));
    assert!(subtitle_size_check(10_485_760).is_ok());
}

#[test]
fn trash_rules() {
    assert!(crew_scope_matches(&None, &None));
    assert!(!crew_scope_matches(&Some("a".into()), &None));
    assert!(matches!(trash_scope_check(&Some("a".into()), &Some("b".into())), Err(NasError::Forbidden(m)) if m == "이 위치의 휴지통 항목이 아닙니다."));
    assert!(matches!(trash_folder_check(&None), Err(NasError::DataNotFound)));
    assert!(matches!(trash_folder_check(&Some(folder("r", None, Some("c")))), Err(NasError::Forbidden(_))));
    assert!(trash_folder_check(&Some(folder("x", Some("r"), Some("c")))).is_ok());
    assert!(matches!(trash_file_check(&Some(file("f1", "a", false))), Err(NasError::BadRequest(m)) if m == "휴지통에 없는 항목입니다."));
    assert!(trash_file_check(&Some(file("f1", "a", true))).is_ok());
    assert_eq!(restore_container(&Some(folder("x", Some("p"), None)), &None, true).unwrap(), Some("p".to_string()));
    assert!(matches!(restore_container(&None, &None, false), Err(NasError::DataNotFound)));
    assert!(matches!(restore_container_check(false, true), Err(NasError::BadRequest(m)) if m.starts_with("상위 폴더가 삭제되어")));
    assert!(matches!(purge_target("x", true), TrashPurgeTarget::FolderTree(i) if i == "x"));
}

#[test]
fn passwords_and_sessions() {
    let h = hash_password("secret-pass").unwrap();
    assert!(verify_password("secret-pass", &h));
    assert!(!verify_password("wrong-pass", &h));
    assert!(!verify_password("secret-pass", "not a phc string"));
    let user = User { id: 4, username: "bob".into(), password_hash: h.clone(), created_at: String::new() };
    assert_eq!(login_check(Some(user.clone()), "secret-pass").unwrap(), (4, "bob".to_string()));
    assert!(matches!(login_check(Some(user), "nope"), Err(NasError::Forbidden(m)) if m == "아이디 또는 비밀번호가 올바르지 않습니다."));
    assert!(matches!(login_check(None, "x"), Err(NasError::Forbidden(_))));
    assert!(current_password_check("secret-pass", &h).is_ok());
    assert!(matches!(current_password_check("x", &h), Err(NasError::Forbidden(m)) if m == "현재 비밀번호가 올바르지 않습니다."));
    assert!(matches!(validate_registration("  ", "longenough"), Err(NasError::BadRequest(m)) if m == "아이디를 입력해주세요."));
    assert!(matches!(validate_registration("bob", "short"), Err(NasError::BadRequest(m)) if m == "비밀번호는 8자 이상이어야 합니다."));
    assert_eq!(validate_registration(" bob ", "한글한").unwrap(), "bob");
    assert!(matches!(new_password_check("1234567"), Err(NasError::BadRequest(_))));
    assert!(new_password_check("12345678").is_ok());
    assert!(matches!(hash_failure("oops"), NasError::Internal(m) if m == "비밀번호 해싱 실패: oops"));
    assert!(matches!(app_password_precheck(Some(Status::Pending)), Err(NasError::Forbidden(m)) if m == "가입 승인 대기 중입니다."));
    assert!(app_password_precheck(Some(Status::Active)).is_ok());
    assert!(app_password_precheck(None).is_ok());
    let owner = User { id: 7, username: "a".into(), password_hash: String::new(), created_at: String::new() };
    assert_eq!(app_password_owner(7, Some(owner.clone())), Some(7));
    assert_eq!(app_password_owner(8, Some(owner)), None);
    assert!(session_info("h1", None, "c".into(), "e".into(), "h1").is_current);
    assert!(!session_info("h1", None, "c".into(), "e".into(), "h2").is_current);
}

#[test]
fn session_expiry() {
    let now = (1_700_000_000i64, 0u32);
    assert!(matches!(session_verdict(Some((5, "2030-01-01T00:00:00+00:00".into())), now), SessionVerdict::Valid(5)));
    assert!(matches!(session_verdict(Some((5, "2020-01-01T00:00:00Z".into())), now), SessionVerdict::Expired));
    assert!(matches!(session_verdict(Some((5, "garbage".into())), now), SessionVerdict::Expired));
    assert!(matches!(session_verdict(None, now), SessionVerdict::Unknown));
    let (created, expires) = session_times_at(now).unwrap();
    assert_eq!(created, "2023-11-14T22:13:20+00:00");
    assert_eq!(expires, "2023-11-28T22:13:20+00:00");
    assert!(matches!(session_verdict(Some((1, expires.clone())), (now.0 + 1_209_599, 999_999_999)), SessionVerdict::Valid(1)));
    assert!(matches!(session_verdict(Some((1, expires)), (now.0 + 1_209_600, 0)), SessionVerdict::Expired));
}

#[test]
fn tokens() {
    let t = generate_token();
    assert_eq!(t.len(), 43);
    assert!(t.chars().all(|c| c.is_ascii_alphanumeric() || c == '-' || c == '_'));
    assert_eq!(hash_token("abc"), blake3::hash(b"abc").to_hex().to_string());
    assert_eq!(hash_token("abc").len(), 64);
    assert_eq!(session_key("h"), "s:h");
    assert_eq!(app_key("h"), "a:h");
}

#[test]
fn token_cache_remembers_for_a_minute() {
    let mut cache = TokenCache::new();
    assert_eq!(cache.get_at("s:abc", 0), None);
    cache.put_at("s:abc", 7, 100);
    assert_eq!(cache.get_at("s:abc", 100 + 59_999_999_999), Some(7));
    assert_eq!(cache.get_at("a:abc", 100), None);
    assert_eq!(cache.get_at("s:abc", 100 + 60_000_000_000), None);
    assert_eq!(cache.get_at("s:abc", 100), None);
    cache.put_at("a:x", 3, 0);
    cache.remove("a:x");
    assert_eq!(cache.get_at("a:x", 0), None);
    cache.put("s:now", 11);
    assert_eq!(cache.get("s:now"), Some(11));
}

#[test]
fn five_failures_lock_a_client_out() {
    let mut limiter = LoginRateLimiter::new();
    for t in 0..5u64 {
        assert!(limiter.check_at("ip", t).is_ok());
        limiter.record_failure_at("ip", t);
    }
    match limiter.check_at("ip", 4) {
        Err(NasError::Forbidden(m)) => assert_eq!(m, "로그인 시도가 너무 많습니다. 900초 후 다시 시도하세요."),
        _ => panic!("lockout expected"),
    }
    match limiter.check_at("ip", 4 + 899_500_000_000) {
        Err(NasError::Forbidden(m)) => assert_eq!(m, "로그인 시도가 너무 많습니다. 1초 후 다시 시도하세요."),
        _ => panic!("lockout expected"),
    }
    assert!(limiter.check_at("other", 5).is_ok());
    assert!(limiter.check_at("ip", 4 + 900_000_000_000).is_ok());
    assert!(limiter.check_at("ip", 4 + 900_000_000_001).is_ok());
}

#[test]
fn success_clears_failures() {
    let mut limiter = LoginRateLimiter::new();
    for t in 0..4u64 {
        limiter.record_failure_at("ip", t);
    }
    assert!(limiter.check_at("ip", 10).is_ok());
    limiter.record_success("ip");
    limiter.record_failure_at("ip", 11);
    assert!(limiter.check_at("ip", 12).is_ok());
    limiter.record_failure("x");
    assert!(limiter.check("x").is_ok());
}

#[test]
fn failures_outside_the_window_start_over() {
    let mut limiter = LoginRateLimiter::new();
    for t in 0..4u64 {
        limiter.record_failure_at("ip", t);
    }
    limiter.record_failure_at("ip", 900_000_000_004);
    assert!(limiter.check_at("ip", 900_000_000_005).is_ok());
}

#[test]
fn crew_listings() {
    let public = vec![
        crew("b", Some("rb"), CrewVisibility::Public),
        crew("a", Some("ra"), CrewVisibility::Public),
        crew("c", None, CrewVisibility::Public),
    ];
    let mine = vec![crew("b", Some("rb"), CrewVisibility::Public), crew("global-root-uuid", Some("g"), CrewVisibility::Public), crew("d", Some("rd"), CrewVisibility::Private)];
    let home = home_crews(public, Some(mine));
    let ids: Vec<(String, bool)> = home.iter().map(|e| (e.id.clone(), e.is_member)).collect();
    assert_eq!(ids, vec![("a".to_string(), false), ("b".to_string(), true), ("d".to_string(), true)]);
    let home_out = home_crews(vec![crew("z", Some("r"), CrewVisibility::Public), crew("y", Some("r"), CrewVisibility::Public)], None);
    assert_eq!(home_out.iter().map(|e| e.id.clone()).collect::<Vec<_>>(), vec!["y".to_string(), "z".to_string()]);
    let disc = discoverable_crews(
        vec![crew("a", Some("r"), CrewVisibility::Public), crew("b", Some("r"), CrewVisibility::Public)],
        &vec![crew("b", None, CrewVisibility::Public)],
    );
    assert_eq!(disc.iter().map(|c| c.id.clone()).collect::<Vec<_>>(), vec!["a".to_string()]);
    assert!(guest_view_is_global("global-root-uuid"));
    let private = crew("p", Some("r"), CrewVisibility::Private);
    assert!(matches!(guest_view_plan(&private, &None), GuestViewPlan::Hidden));
    let active = CrewMembership { user_id: 1, crew_id: "p".into(), role: 2, status: 1 };
    assert!(matches!(guest_view_plan(&private, &Some(active)), GuestViewPlan::WithRootName));
    let pending = CrewMembership { user_id: 1, crew_id: "p".into(), role: 2, status: 0 };
    assert!(matches!(guest_view_plan(&private, &Some(pending)), GuestViewPlan::Hidden));
    assert!(deletable_crew(crew("q", None, CrewVisibility::Public), true).is_direct_owner);
}

#[test]
fn crew_rules() {
    assert_eq!(initial_membership(0), (0, 1));
    assert_eq!(initial_membership(5), (2, 0));
    assert!(matches!(ban_precheck(1, 1), Err(NasError::BadRequest(m)) if m == "자기 자신을 차단할 수 없습니다."));
    assert!(ban_precheck(1, 2).is_ok());
    assert!(matches!(delete_walk_start("global-root-uuid"), DeleteWalk::Done(Err(NasError::Forbidden(_)))));
    assert!(matches!(delete_walk_start("c1"), DeleteWalk::CheckOwner(c) if c == "c1"));
}

#[test]
fn folder_access_walk() {
    let q = AccessQuery { user_id: None, folder_id: None, need_write: false };
    assert!(matches!(next_access_step(&q, &AccessFacts::new()), AccessStep::Done(Ok(FolderAccess::Open))));
    let q2 = AccessQuery { user_id: None, folder_id: Some("f".into()), need_write: false };
    assert!(matches!(next_access_step(&q2, &AccessFacts::new()), AccessStep::Lookup(AccessLookup::Folder(f)) if f == "f"));
    let q3 = AccessQuery { user_id: Some(3), folder_id: Some("f".into()), need_write: true };
    assert!(matches!(next_access_step(&q3, &AccessFacts::new()), AccessStep::Lookup(AccessLookup::GlobalMembership(3))));
}

#[test]
fn current_times_read_back() {
    let stamp = timestamp_now();
    let parsed = chrono::DateTime::parse_from_rfc3339(&stamp).unwrap();
    assert!(parsed.timestamp() > 1_700_000_000);
    assert!(stamp.ends_with("+00:00"));
    let (created, expires) = session_times_now().unwrap();
    let c = chrono::DateTime::parse_from_rfc3339(&created).unwrap();
    let e = chrono::DateTime::parse_from_rfc3339(&expires).unwrap();
    assert_eq!(e.timestamp() - c.timestamp(), 1_209_600);
    assert_eq!(e.timestamp_subsec_nanos(), c.timestamp_subsec_nanos());
    assert!(matches!(session_verdict(Some((3, expires)), (c.timestamp(), c.timestamp_subsec_nanos())), SessionVerdict::Valid(3)));
}

#[test]
fn hashing_accepts_ordinary_passwords() {
    for p in ["", "x", "비밀번호-길다", "secret-pass"] {
        let h = hash_password(p).unwrap();
        assert!(h.starts_with("$argon2id$v=19$m=19456,t=2,p=1$"));
        assert!(verify_password(p, &h));
        assert!(!verify_password("other", &h));
    }
}

#[test]
fn token_hash_is_lower_hex() {
    let h = hash_token("session-token");
    assert_eq!(h.len(), 64);
    assert!(h.chars().all(|c| c.is_ascii_digit() || ('a'..='f').contains(&c)));
    assert_eq!(h, hash_token("session-token"));
    assert!(!verify_password("x", ""));
    assert!(!verify_password("x", "argon2id$v=19"));
}

#[test]
fn keyed_store_forgets_keys() {
    let mut store: my_nas::keyed::KeyedStore<u32> = my_nas::keyed::KeyedStore::new();
    store.put("a", Some(1));
    store.put("b", Some(2));
    store.put("a", Some(3));
    assert_eq!(store.get("a"), Some(3));
    store.remove("a");
    assert_eq!(store.get("a"), None);
    assert_eq!(store.get("b"), Some(2));
    store.put("b", None);
    assert_eq!(store.get("b"), None);
    store.put("a", Some(4));
    assert_eq!(store.get("a"), Some(4));
}

#[test]
fn stored_hash_costs_are_capped() {
    let h = hash_password("secret-pass").unwrap();
    assert!(my_nas::crypto::phc_costs_within_caps(&h));
    assert!(my_nas::crypto::phc_costs_within_caps("$argon2id$v=19$m=65536,t=3,p=4$c2FsdHNhbHQ$aGFzaGhhc2hoYXNo"));
    assert!(!my_nas::crypto::phc_costs_within_caps("$argon2id$v=19$m=19456,t=2,p=536870912$c2FsdHNhbHQ$aGFzaGhhc2hoYXNo"));
    assert!(!my_nas::crypto::phc_costs_within_caps("$argon2id$v=19$m=19456,t=4294967295,p=1$c2FsdHNhbHQ$aGFzaGhhc2hoYXNo"));
    assert!(!my_nas::crypto::phc_costs_within_caps("$argon2id$v=19$m=4000000,t=2,p=1$c2FsdHNhbHQ$aGFzaGhhc2hoYXNo"));
    assert!(!verify_password("secret-pass", "$argon2id$v=19$m=19456,t=2,p=536870912$c2FsdHNhbHQ$aGFzaGhhc2hoYXNo"));
    assert!(!verify_password("secret-pass", "$argon2id$v=19$m=19456,t=4294967295,p=1$c2FsdHNhbHQ$aGFzaGhhc2hoYXNo"));
}

#[test]
fn fresh_ids_are_v4_uuids() {
    for _ in 0..20 {
        let id = my_nas::ids::fresh_id();
        assert_eq!(id.len(), 36);
        for (i, c) in id.chars().enumerate() {
            if [8, 13, 18, 23].contains(&i) {
                assert_eq!(c, '-');
            } else {
                assert!(c.is_ascii_digit() || ('a'..='f').contains(&c));
            }
        }
        assert_eq!(id.as_bytes()[14], b'4');
        assert!(matches!(id.as_bytes()[19], b'8' | b'9' | b'a' | b'b'));
        assert!(my_nas::storage::shard_cut_ok(&id));
    }
}

#[test]
fn late_fifth_failure_restarts_the_count() {
    let mut limiter = LoginRateLimiter::new();
    let minute: u64 = 60_000_000_000;
    for t in [0, minute, 2 * minute, 3 * minute] {
        limiter.record_failure_at("ip", t);
    }
    assert!(limiter.check_at("ip", 3 * minute).is_ok());
    limiter.record_failure_at("ip", 16 * minute);
    assert!(limiter.check_at("ip", 16 * minute).is_ok());
    assert!(limiter.check_at("ip", 20 * minute).is_ok());
}
