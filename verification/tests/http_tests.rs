use my_nas::errors::{error_response, NasError, RepoError, StorageError};
use my_nas::models::{CrewVisibility, Role, Status};
use my_nas::proxy::{
    alt_svc_value, body_error_status, body_over_limit, external_port, has_body, proxy_local_port,
    skip_request_header, skip_response_header, upstream_port, upstream_url,
};
use my_nas::rate_limit::client_ip_from_headers;
use my_nas::requests::{requested_location, AuditLogQuery, EmptyTrashResponse, FirstSt};
use my_nas::stream::parse_range_header;
use my_nas::web::{
    asset_path_from_uri, audit_page_size, cookie_from_headers, default_audit_limit, parse_bool_query,
    parse_visibility, register_error, register_message, require_user, session_cookie,
    session_label, sessions_revoked_message, webdav_public_base, UserId, SESSION_MAX_AGE_SECS,
};
use my_nas::webdav_auth::parse_basic_auth;
use base64::Engine;

#[test]
fn range_headers_are_parsed() {
    assert_eq!(parse_range_header(Some("bytes=0-99"), 1000), Some((0, 99)));
    assert_eq!(parse_range_header(Some("bytes=500-"), 1000), Some((500, 999)));
    assert_eq!(parse_range_header(Some("bytes=-100"), 1000), Some((900, 999)));
    assert_eq!(parse_range_header(Some("bytes=+5-+6"), 1000), Some((5, 6)));
    assert_eq!(parse_range_header(Some("bytes=-0"), 1000), None);
    assert_eq!(parse_range_header(Some("bytes=-1001"), 1000), None);
    assert_eq!(parse_range_header(Some("bytes=5-2"), 1000), None);
    assert_eq!(parse_range_header(Some("bytes=0-1000"), 1000), None);
    assert_eq!(parse_range_header(Some("items=0-1"), 1000), None);
    assert_eq!(parse_range_header(Some("bytes=5"), 1000), None);
    assert_eq!(parse_range_header(None, 1000), None);
}

#[test]
fn basic_credentials_are_parsed() {
    let enc = base64::engine::general_purpose::STANDARD.encode("alice:pw:x");
    assert_eq!(
        parse_basic_auth(&format!("Basic {enc}")),
        Some(("alice".to_string(), "pw:x".to_string()))
    );
    assert_eq!(parse_basic_auth(&format!("Basic  {enc} ")), Some(("alice".to_string(), "pw:x".to_string())));
    let no_colon = base64::engine::general_purpose::STANDARD.encode("alice");
    assert_eq!(parse_basic_auth(&format!("Basic {no_colon}")), None);
    assert_eq!(parse_basic_auth("Bearer abc"), None);
    assert_eq!(parse_basic_auth("Basic !!!"), None);
    let not_utf8 = base64::engine::general_purpose::STANDARD.encode([0xFFu8, b':', b'a']);
    assert_eq!(parse_basic_auth(&format!("Basic {not_utf8}")), None);
}

#[test]
fn session_cookie_text() {
    assert_eq!(
        session_cookie("tok", SESSION_MAX_AGE_SECS),
        "nas_session=tok; HttpOnly; Secure; SameSite=Lax; Path=/; Max-Age=1209600"
    );
    assert_eq!(
        session_cookie("", 0),
        "nas_session=; HttpOnly; Secure; SameSite=Lax; Path=/; Max-Age=0"
    );
    assert!(session_cookie("t", -5).ends_with("Max-Age=-5"));
}

#[test]
fn cookies_are_found_by_name() {
    assert_eq!(
        cookie_from_headers(Some("a=1; nas_session = xyz ; b=2"), "nas_session"),
        Some("xyz".to_string())
    );
    assert_eq!(cookie_from_headers(Some("a=1; b"), "nas_session"), None);
    assert_eq!(cookie_from_headers(None, "nas_session"), None);
    assert_eq!(cookie_from_headers(Some("x=a=b"), "x"), Some("a=b".to_string()));
}

#[test]
fn inline_flag_values() {
    assert_eq!(parse_bool_query("TRUE"), Ok(true));
    assert_eq!(parse_bool_query("1"), Ok(true));
    assert_eq!(parse_bool_query("off"), Ok(false));
    assert_eq!(parse_bool_query("MAYBE"), Err("invalid boolean for inline: maybe".to_string()));
}

#[test]
fn visibility_values() {
    assert!(matches!(parse_visibility(None), Ok(CrewVisibility::Public)));
    assert!(matches!(parse_visibility(Some("PRIVATE")), Ok(CrewVisibility::Private)));
    match parse_visibility(Some("secret")) {
        Err(NasError::BadRequest(m)) => assert_eq!(m, "알 수 없는 visibility: secret"),
        _ => panic!("bad request expected"),
    }
}

#[test]
fn webdav_base_urls() {
    assert_eq!(webdav_public_base(Some("https://x/dav///"), None, None), "https://x/dav");
    assert_eq!(webdav_public_base(None, Some("localhost:3000"), None), "http://localhost:3000/webdav");
    assert_eq!(webdav_public_base(None, Some("127.0.0.1:8080"), None), "http://127.0.0.1:8080/webdav");
    assert_eq!(webdav_public_base(None, Some("nas.example.com"), None), "https://nas.example.com/webdav");
    assert_eq!(webdav_public_base(None, Some("h"), Some("http")), "http://h/webdav");
    assert_eq!(webdav_public_base(None, None, None), "http://localhost:3000/webdav");
}

#[test]
fn asset_paths() {
    assert_eq!(asset_path_from_uri("/NAS/app/x.js"), "app/x.js");
    assert_eq!(asset_path_from_uri("/NAS"), "index.html");
    assert_eq!(asset_path_from_uri("/"), "index.html");
    assert_eq!(asset_path_from_uri("//NAS//a"), "a");
    assert_eq!(asset_path_from_uri("/favicon.png"), "favicon.png");
    assert_eq!(asset_path_from_uri("/NASA"), "NASA");
}

#[test]
fn registration_answers() {
    match register_error(NasError::Internal("UNIQUE constraint failed: users.username".into())) {
        NasError::BadRequest(m) => assert_eq!(m, "이미 사용 중인 아이디입니다."),
        _ => panic!("bad request expected"),
    }
    assert!(matches!(register_error(NasError::Internal("disk".into())), NasError::Internal(m) if m == "disk"));
    assert!(matches!(register_error(NasError::DataNotFound), NasError::DataNotFound));
    assert_eq!(
        register_message(Some(Status::Pending.as_u8())),
        "가입 신청이 접수되었습니다. 글로벌 크루 관리자의 승인 후 이용할 수 있습니다."
    );
    assert_eq!(register_message(Some(Status::Active.as_u8())), "회원가입이 완료되었습니다.");
    assert_eq!(register_message(None), "회원가입이 완료되었습니다.");
}

#[test]
fn small_http_answers() {
    assert_eq!(session_label(Some(&"x".repeat(200))).unwrap().chars().count(), 120);
    assert_eq!(session_label(Some("agent")), Some("agent".to_string()));
    assert_eq!(session_label(None), None);
    assert_eq!(sessions_revoked_message(3), "다른 기기 세션 3개를 종료했습니다.");
    assert_eq!(require_user(UserId(None)).err(), Some(401));
    assert_eq!(require_user(UserId(Some(9))).unwrap().0, 9);
    assert_eq!(default_audit_limit(), 100);
    assert_eq!(audit_page_size(100), 100);
    assert_eq!(audit_page_size(0), 1);
    assert_eq!(audit_page_size(-5), 1);
    assert_eq!(audit_page_size(10_000), 500);
    assert_eq!(AuditLogQuery::with_default_limit().limit, 100);
    let e = EmptyTrashResponse::emptied();
    assert_eq!(e.message, "휴지통을 성공적으로 비웠습니다.");
    assert!(e.success);
    assert_eq!(FirstSt::hello(), "hello");
    assert_eq!(requested_location(false, &Some("f".to_string())), None);
    assert_eq!(requested_location(true, &None), Some(None));
}

#[test]
fn error_responses() {
    assert_eq!(error_response(&NasError::DataNotFound), (404, "요청한 리소스를 찾을 수 없습니다.".to_string()));
    assert_eq!(error_response(&NasError::BadRequest("x".into())), (400, "x".to_string()));
    assert_eq!(error_response(&NasError::Forbidden("no".into())), (403, "no".to_string()));
    assert_eq!(
        error_response(&NasError::Storage(StorageError::NotFound)),
        (404, "파일 또는 폴더가 존재하지 않습니다.".to_string())
    );
    assert_eq!(
        error_response(&NasError::Repo(RepoError::PermissionDenied)),
        (403, "접근 권한이 없습니다.".to_string())
    );
    assert_eq!(error_response(&NasError::Internal("boom".into())), (500, "서버 내부 오류가 발생했습니다.".to_string()));
}

#[test]
fn client_addresses() {
    assert_eq!(client_ip_from_headers(Some(" 1.2.3.4 , 5.6.7.8"), Some("9.9.9.9")), "1.2.3.4");
    assert_eq!(client_ip_from_headers(None, Some(" 9.9.9.9 ")), "9.9.9.9");
    assert_eq!(client_ip_from_headers(Some(" , x"), None), "unknown");
    assert_eq!(client_ip_from_headers(None, None), "unknown");
}

#[test]
fn proxy_rules() {
    assert_eq!(upstream_port(48482, Some("5173")), 5173);
    assert_eq!(upstream_port(48482, Some("x")), 3000);
    assert_eq!(upstream_port(48482, Some("70000")), 3000);
    assert_eq!(upstream_port(48482, None), 3000);
    assert_eq!(upstream_port(48481, Some("5173")), 3000);
    assert_eq!(proxy_local_port(None), 48482);
    assert_eq!(external_port(48481), 48484);
    assert_eq!(external_port(48482), 48483);
    assert_eq!(external_port(443), 443);
    assert_eq!(alt_svc_value(48484), "h3=\":48484\"; ma=43200");
    assert!(skip_request_header("Host"));
    assert!(skip_request_header("X-USER-ID"));
    assert!(!skip_request_header("accept"));
    assert!(skip_response_header("Keep-Alive"));
    assert!(!skip_response_header("host"));
    assert_eq!(upstream_url(3000, None), "http://127.0.0.1:3000/");
    assert_eq!(upstream_url(5173, Some("/a?b=1")), "http://127.0.0.1:5173/a?b=1");
    assert!(!has_body("GET"));
    assert!(!has_body("HEAD"));
    assert!(has_body("POST"));
    assert!(body_over_limit(67_108_864, 1));
    assert!(!body_over_limit(67_108_863, 1));
    assert_eq!(body_error_status("http3 request body too large"), 413);
    assert_eq!(body_error_status("stream reset"), 400);
}

#[test]
fn roles_and_statuses() {
    assert_eq!(Role::from_u8(2), Some(Role::Member));
    assert_eq!(Role::from_u8(4), None);
    assert_eq!(Role::Guest.as_u8(), 3);
    assert!(Role::Manager.can_write());
    assert!(!Role::Guest.can_read());
    assert_eq!(Status::from_u8(3), Some(Status::Banned));
    assert_eq!(CrewVisibility::from_i32(1), CrewVisibility::Private);
    assert_eq!(CrewVisibility::from_i32(7), CrewVisibility::Public);
    assert_eq!(CrewVisibility::Private.as_i32(), 1);
}
