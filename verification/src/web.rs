//! What the HTTP layer decides on its own: the session cookie, request values it reads, the
//! messages it answers with.
use vstd::prelude::*;
use vstd::string::*;
use crate::bytes::{find_chars_in, find_in, lemma_find_in};
use crate::errors::{ErrView, NasError};
use crate::models::{status_code, CrewVisibility, Status};
use crate::text::{
    ascii_lower, ascii_lower_chars, chars_eq, contains, contains_chars, dec_digits, extend_chars,
    extend_str, lemma_split_nonempty, parse_u64, parse_u64_chars, push_decimal, split_char, split_chars, starts_with,
    starts_with_chars, str_chars, str_eq, string_from_chars, sub_chars, to_lowercase, trim,
    trim_chars, unicode_lowercase,
};

verus! {

/// Name of the session cookie.
pub const SESSION_COOKIE: &'static str = "nas_session";

/// How long a session cookie lives: 14 days, in seconds.
pub const SESSION_MAX_AGE_SECS: i64 = 1_209_600;

pub const COOKIE_ATTRIBUTES: &'static str = "; HttpOnly; Secure; SameSite=Lax; Path=/; Max-Age=";

/// A signed decimal numeral.
pub open spec fn int_digits(v: int) -> Seq<char> {
    if v < 0 {
        seq!['-'] + dec_digits((-v) as nat)
    } else {
        dec_digits(v as nat)
    }
}

pub fn push_i64(out: &mut Vec<char>, v: i64)
    ensures
        final(out)@ == old(out)@ + int_digits(v as int),
{
    if v < 0 {
        out.push('-');
        let m: u64 = if v == i64::MIN {
            9_223_372_036_854_775_808u64
        } else {
            (-v) as u64
        };
        assert(m == -(v as int));
        push_decimal(out, m);
    } else {
        push_decimal(out, v as u64);
    }
}

/// The `Set-Cookie` value of a session: HttpOnly, Secure, SameSite=Lax, for the whole site.
pub open spec fn session_cookie_spec(token: Seq<char>, max_age: int) -> Seq<char> {
    SESSION_COOKIE@ + seq!['='] + token + COOKIE_ATTRIBUTES@ + int_digits(max_age)
}

pub fn session_cookie(token: &str, max_age: i64) -> (r: String)
    ensures
        r@ == session_cookie_spec(token@, max_age as int),
{
    let mut out: Vec<char> = Vec::new();
    extend_str(&mut out, SESSION_COOKIE);
    out.push('=');
    extend_str(&mut out, token);
    extend_str(&mut out, COOKIE_ATTRIBUTES);
    push_i64(&mut out, max_age);
    assert(out@ =~= session_cookie_spec(token@, max_age as int));
    string_from_chars(&out)
}

/// The value of the first cookie called `name` in a `Cookie` header: the `;`-separated pairs,
/// trimmed, split at their first `=`, compared by the trimmed key; the value trimmed.
pub open spec fn cookie_in(pairs: Seq<Seq<char>>, name: Seq<char>) -> Option<Seq<char>>
    decreases pairs.len(),
{
    if pairs.len() == 0 {
        None
    } else {
        let pair = trim(pairs[0]);
        match find_in(pair, seq!['='], 0, pair.len() as int) {
            Some(i) => if trim(pair.take(i)) == name {
                Some(trim(pair.skip(i + 1)))
            } else {
                cookie_in(pairs.drop_first(), name)
            },
            None => cookie_in(pairs.drop_first(), name),
        }
    }
}

/// The value of cookie `name` in the request's `Cookie` header, if it has one.
pub fn cookie_from_headers(cookie_header: Option<&str>, name: &str) -> (r: Option<String>)
    ensures
        match cookie_header {
            None => r is None,
            Some(h) => match cookie_in(split_char(h@, ';'), name@) {
                None => r is None,
                Some(v) => r matches Some(x) && x@ == v,
            },
        },
{
    let h = match cookie_header {
        None => {
            return None;
        },
        Some(h) => h,
    };
    let hc = str_chars(h);
    let pairs = split_chars(&hc, ';');
    let ghost pv = split_char(hc@, ';');
    let nc = str_chars(name);
    let eq = vec!['='];
    assert(eq@ =~= seq!['=']);
    let mut i: usize = 0;
    assert(pv.skip(0) =~= pv);
    while i < pairs.len()
        invariant
            i <= pairs.len(),
            pairs@.len() == pv.len(),
            forall|k: int| 0 <= k < pairs@.len() ==> #[trigger] pairs@[k]@ == pv[k],
            nc@ == name@,
            eq@ == seq!['='],
            cookie_header == Some(h),
            pv == split_char(h@, ';'),
            cookie_in(pv.skip(i as int), name@) == cookie_in(pv, name@),
        decreases pairs.len() - i,
    {
        assert(pv.skip(i as int)[0] == pv[i as int]);
        assert(pv.skip(i as int).drop_first() =~= pv.skip(i + 1));
        let pair = trim_chars(&pairs[i]);
        assert(pair@ == trim(pv[i as int]));
        match find_chars_in(&pair, &eq, 0, pair.len()) {
            Some(k) => {
                proof { lemma_find_in(pair@, eq@, 0, pair@.len() as int); }
                let key = sub_chars(&pair, 0, k);
                let kt = trim_chars(&key);
                assert(key@ =~= pair@.take(k as int));
                if chars_eq(&kt, &nc) {
                    let v = sub_chars(&pair, k + 1, pair.len());
                    assert(v@ =~= pair@.skip(k + 1));
                    let vt = trim_chars(&v);
                    assert(kt@ == name@);
                    assert(cookie_in(pv.skip(i as int), name@) == Some(trim(pair@.skip(k + 1))));
                    return Some(string_from_chars(&vt));
                }
            },
            None => {},
        }
        i += 1;
    }
    assert(pv.skip(i as int) =~= Seq::<Seq<char>>::empty());
    None
}

/// Who made a request: the user of a valid session cookie, if any.
#[derive(Debug, Clone, Copy)]
pub struct UserId(pub Option<i64>);

/// A request that must come from a signed-in user.
#[derive(Debug, Clone, Copy)]
pub struct RequiredUserId(pub i64);

/// HTTP status of a request that needs a signed-in user and has none.
pub const STATUS_UNAUTHORIZED: u16 = 401;

/// The signed-in user, or 401.
pub fn require_user(u: UserId) -> (r: Result<RequiredUserId, u16>)
    ensures
        u.0 matches Some(id) ==> (r matches Ok(x) && x.0 == id),
        u.0 is None ==> r == Err::<RequiredUserId, u16>(STATUS_UNAUTHORIZED),
{
    match u.0 {
        Some(id) => Ok(RequiredUserId(id)),
        None => Err(STATUS_UNAUTHORIZED),
    }
}

/// `WWW-Authenticate` value of a WebDAV 401.
pub const WEBDAV_AUTH_CHALLENGE: &'static str = "Basic realm=\"NAS WebDAV\", charset=\"UTF-8\"";

/// Default number of audit entries listed.
pub fn default_audit_limit() -> (r: i32)
    ensures
        r == 100,
{
    100
}

/// The size an upload announces (`Content-Length`, else `X-File-Size`): its value as a
/// number, 0 when absent or not a number.
pub fn upload_size_hint(value: Option<&str>) -> (r: u64)
    ensures
        r == match value {
            Some(v) => match parse_u64(v@) {
                Some(n) => n,
                None => 0,
            },
            None => 0,
        },
{
    match value {
        Some(v) => {
            let c = str_chars(v);
            match parse_u64_chars(&c) {
                Some(n) => n,
                None => 0,
            }
        },
        None => 0,
    }
}

/// How many audit entries a listing returns for a requested limit: between 1 and 500.
pub fn audit_page_size(limit: i32) -> (r: i32)
    ensures
        r == (if limit < 1 { 1 } else if limit > 500 { 500 } else { limit }),
{
    if limit < 1 {
        1
    } else if limit > 500 {
        500
    } else {
        limit
    }
}

pub const MSG_INVALID_BOOL: &'static str = "invalid boolean for inline: ";

/// A boolean query value, ignoring ASCII case: `1`, `true`, `yes`, `on` or `0`, `false`, `no`,
/// `off`; anything else is an error naming the lower-cased value.
pub open spec fn bool_query_spec(s: Seq<char>) -> Result<bool, Seq<char>> {
    let l = ascii_lower(s);
    if l == "1"@ || l == "true"@ || l == "yes"@ || l == "on"@ {
        Ok(true)
    } else if l == "0"@ || l == "false"@ || l == "no"@ || l == "off"@ {
        Ok(false)
    } else {
        Err(MSG_INVALID_BOOL@ + l)
    }
}

fn chars_is(v: &Vec<char>, lit: &str) -> (r: bool)
    ensures
        r == (v@ == lit@),
{
    let l = str_chars(lit);
    chars_eq(v, &l)
}

/// Reads the `inline` query flag.
pub fn parse_bool_query(s: &str) -> (r: Result<bool, String>)
    ensures
        match bool_query_spec(s@) {
            Ok(b) => r == Ok::<bool, String>(b),
            Err(m) => r matches Err(x) && x@ == m,
        },
{
    let c = str_chars(s);
    let l = ascii_lower_chars(&c);
    if chars_is(&l, "1") || chars_is(&l, "true") || chars_is(&l, "yes") || chars_is(&l, "on") {
        Ok(true)
    } else if chars_is(&l, "0") || chars_is(&l, "false") || chars_is(&l, "no") || chars_is(&l, "off") {
        Ok(false)
    } else {
        let mut m: Vec<char> = Vec::new();
        extend_str(&mut m, MSG_INVALID_BOOL);
        extend_chars(&mut m, &l);
        Err(string_from_chars(&m))
    }
}

pub const MSG_UNKNOWN_VISIBILITY: &'static str = "알 수 없는 visibility: ";

/// A crew visibility named in lower case: `private`, `public`, or an error naming it.
pub open spec fn visibility_spec(lowered: Seq<char>) -> Result<CrewVisibility, ErrView> {
    if lowered == "private"@ {
        Ok(CrewVisibility::Private)
    } else if lowered == "public"@ {
        Ok(CrewVisibility::Public)
    } else {
        Err(ErrView::BadRequest(MSG_UNKNOWN_VISIBILITY@ + lowered))
    }
}

/// The visibility named by an already lower-cased value.
pub fn visibility_from_lowered(lowered: &str) -> (r: Result<CrewVisibility, NasError>)
    ensures
        match visibility_spec(lowered@) {
            Ok(v) => r matches Ok(x) && x == v,
            Err(e) => r matches Err(x) && x@ == e,
        },
{
    if str_eq(lowered, "private") {
        Ok(CrewVisibility::Private)
    } else if str_eq(lowered, "public") {
        Ok(CrewVisibility::Public)
    } else {
        let mut m: Vec<char> = Vec::new();
        extend_str(&mut m, MSG_UNKNOWN_VISIBILITY);
        extend_str(&mut m, lowered);
        Err(NasError::BadRequest(string_from_chars(&m)))
    }
}

/// A crew visibility from a request: `public` when absent, otherwise its lower-cased value.
pub fn parse_visibility(raw: Option<&str>) -> (r: Result<CrewVisibility, NasError>)
    ensures
        match visibility_spec(
            unicode_lowercase(
                match raw {
                    Some(s) => s@,
                    None => "public"@,
                },
            ),
        ) {
            Ok(v) => r matches Ok(x) && x == v,
            Err(e) => r matches Err(x) && x@ == e,
        },
{
    let given = match raw {
        Some(s) => s,
        None => "public",
    };
    let lowered = to_lowercase(given);
    visibility_from_lowered(lowered.as_str())
}

/// Where WebDAV clients mount from: the configured base without trailing `/`, else the
/// request's host (`localhost:3000` when absent) with the forwarded scheme, or `http` for a
/// local host and `https` otherwise, and `/webdav`.
pub open spec fn webdav_public_base_spec(
    configured: Option<Seq<char>>,
    host: Option<Seq<char>>,
    proto: Option<Seq<char>>,
) -> Seq<char> {
    match configured {
        Some(b) => trim_end_slashes(b),
        None => {
            let h = match host {
                Some(h) => h,
                None => "localhost:3000"@,
            };
            let scheme = match proto {
                Some(p) => p,
                None => if starts_with(h, "localhost"@) || starts_with(h, "127.0.0.1"@) {
                    "http"@
                } else {
                    "https"@
                },
            };
            scheme + "://"@ + h + "/webdav"@
        },
    }
}

pub open spec fn trim_end_slashes(s: Seq<char>) -> Seq<char>
    decreases s.len(),
{
    if s.len() > 0 && s.last() == '/' {
        trim_end_slashes(s.drop_last())
    } else {
        s
    }
}

/// The WebDAV base URL from the configured base (`WEBDAV_PUBLIC_BASE`) and the request's
/// `Host` and `X-Forwarded-Proto` values.
pub fn webdav_public_base(configured: Option<&str>, host: Option<&str>, proto: Option<&str>) -> (r: String)
    ensures
        r@ == webdav_public_base_spec(
            match configured { Some(s) => Some(s@), None => None },
            match host { Some(s) => Some(s@), None => None },
            match proto { Some(s) => Some(s@), None => None },
        ),
{
    if let Some(b) = configured {
        let c = str_chars(b);
        let mut j = c.len();
        assert(c@.subrange(0, j as int) =~= c@);
        while j > 0 && c[j - 1] == '/'
            invariant
                j <= c.len(),
                trim_end_slashes(c@.subrange(0, j as int)) == trim_end_slashes(c@),
            decreases j,
        {
            assert(c@.subrange(0, j as int).drop_last() =~= c@.subrange(0, j - 1));
            j -= 1;
        }
        let t = sub_chars(&c, 0, j);
        return string_from_chars(&t);
    }
    let h = match host {
        Some(h) => h,
        None => "localhost:3000",
    };
    let hc = str_chars(h);
    let scheme: &str = match proto {
        Some(p) => p,
        None => {
            let lh = str_chars("localhost");
            let lo = str_chars("127.0.0.1");
            if starts_with_chars(&hc, &lh) || starts_with_chars(&hc, &lo) {
                "http"
            } else {
                "https"
            }
        },
    };
    let mut out: Vec<char> = Vec::new();
    extend_str(&mut out, scheme);
    extend_str(&mut out, "://");
    extend_chars(&mut out, &hc);
    extend_str(&mut out, "/webdav");
    string_from_chars(&out)
}

/// The embedded web asset a URI path asks for: leading `/` dropped, then a leading `NAS/` (or a
/// bare `NAS`), then leading `/` again; `index.html` when nothing is left.
pub open spec fn asset_path_spec(path: Seq<char>) -> Seq<char> {
    let p = trim_start_slashes(path);
    let q = if starts_with(p, "NAS/"@) {
        p.skip(4)
    } else if p == "NAS"@ {
        Seq::<char>::empty()
    } else {
        p
    };
    let r = trim_start_slashes(q);
    if r.len() == 0 {
        "index.html"@
    } else {
        r
    }
}

pub open spec fn trim_start_slashes(s: Seq<char>) -> Seq<char>
    decreases s.len(),
{
    if s.len() > 0 && s[0] == '/' {
        trim_start_slashes(s.drop_first())
    } else {
        s
    }
}

fn trim_start_slashes_chars(c: &Vec<char>) -> (r: Vec<char>)
    ensures
        r@ == trim_start_slashes(c@),
{
    let mut i: usize = 0;
    assert(c@.subrange(0, c.len() as int) =~= c@);
    while i < c.len() && c[i] == '/'
        invariant
            i <= c.len(),
            trim_start_slashes(c@.subrange(i as int, c.len() as int)) == trim_start_slashes(c@),
        decreases c.len() - i,
    {
        assert(c@.subrange(i as int, c.len() as int).drop_first() =~= c@.subrange(i + 1, c.len() as int));
        i += 1;
    }
    sub_chars(c, i, c.len())
}

/// The asset path for a request URI's path.
pub fn asset_path_from_uri(path: &str) -> (r: String)
    ensures
        r@ == asset_path_spec(path@),
{
    proof {
        reveal_strlit("NAS/");
        reveal_strlit("NAS");
    }
    let c = str_chars(path);
    let p = trim_start_slashes_chars(&c);
    let nas_slash = str_chars("NAS/");
    let nas = str_chars("NAS");
    let q = if starts_with_chars(&p, &nas_slash) {
        let x = sub_chars(&p, 4, p.len());
        assert(x@ =~= p@.skip(4));
        x
    } else if chars_eq(&p, &nas) {
        Vec::new()
    } else {
        p
    };
    let r = trim_start_slashes_chars(&q);
    if r.len() == 0 {
        String::from_str("index.html")
    } else {
        string_from_chars(&r)
    }
}

pub const MSG_USERNAME_TAKEN: &'static str = "이미 사용 중인 아이디입니다.";

pub const MSG_REGISTER_PENDING: &'static str = "가입 신청이 접수되었습니다. 글로벌 크루 관리자의 승인 후 이용할 수 있습니다.";

pub const MSG_REGISTER_DONE: &'static str = "회원가입이 완료되었습니다.";

/// How a failed registration is answered: a uniqueness violation of the database is a taken
/// user name; anything else is passed on.
pub open spec fn register_error_spec(e: ErrView) -> ErrView {
    match e {
        ErrView::Internal(m) => if contains(m, "UNIQUE"@) {
            ErrView::BadRequest(MSG_USERNAME_TAKEN@)
        } else {
            e
        },
        _ => e,
    }
}

pub fn register_error(e: NasError) -> (r: NasError)
    ensures
        r@ == register_error_spec(e@),
{
    match e {
        NasError::Internal(m) => {
            let mc = str_chars(m.as_str());
            let u = str_chars("UNIQUE");
            if contains_chars(&mc, &u) {
                NasError::BadRequest(String::from_str(MSG_USERNAME_TAKEN))
            } else {
                NasError::Internal(m)
            }
        },
        other => other,
    }
}

/// The message after registering: pending approval when the new user's global membership is
/// pending, done otherwise.
pub fn register_message(global_status: Option<u8>) -> (r: &'static str)
    ensures
        r@ == (if global_status == Some(status_code(Status::Pending)) {
            MSG_REGISTER_PENDING@
        } else {
            MSG_REGISTER_DONE@
        }),
{
    if global_status == Some(Status::Pending.as_u8()) {
        MSG_REGISTER_PENDING
    } else {
        MSG_REGISTER_DONE
    }
}

/// The label a new session gets: the first 120 characters of the `User-Agent`.
pub fn session_label(user_agent: Option<&str>) -> (r: Option<String>)
    ensures
        match user_agent {
            None => r is None,
            Some(ua) => r matches Some(x) && x@ == ua@.take(if ua@.len() < 120 { ua@.len() as int } else { 120 }),
        },
{
    match user_agent {
        None => None,
        Some(ua) => {
            let c = str_chars(ua);
            let n = if c.len() < 120 { c.len() } else { 120 };
            let t = sub_chars(&c, 0, n);
            assert(t@ =~= ua@.take(n as int));
            Some(string_from_chars(&t))
        },
    }
}

pub const MSG_SESSIONS_REVOKED_HEAD: &'static str = "다른 기기 세션 ";

pub const MSG_SESSIONS_REVOKED_TAIL: &'static str = "개를 종료했습니다.";

/// The message after ending the user's other sessions.
pub fn sessions_revoked_message(revoked: u64) -> (r: String)
    ensures
        r@ == MSG_SESSIONS_REVOKED_HEAD@ + dec_digits(revoked as nat) + MSG_SESSIONS_REVOKED_TAIL@,
{
    let mut m: Vec<char> = Vec::new();
    extend_str(&mut m, MSG_SESSIONS_REVOKED_HEAD);
    push_decimal(&mut m, revoked);
    extend_str(&mut m, MSG_SESSIONS_REVOKED_TAIL);
    string_from_chars(&m)
}

} // verus!
