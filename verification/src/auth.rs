//! Sign-in, sessions and app passwords: the checks, the session lifetime and the short-lived
//! cache of verified tokens.
use vstd::prelude::*;
use vstd::string::*;
use vstd::utf8::*;
use crate::bytes::str_bytes;
use crate::crypto::{password_verifies, verify_password};
use crate::errors::{ErrView, NasError};
use crate::keyed::KeyedStore;
use crate::models::{opt_view, SessionInfo, Status, User};
use crate::rate_limit::{instant_now, nanos_since};
use crate::text::{extend_str, str_chars, str_eq, string_from_chars, trim, trim_chars};

verus! {

broadcast use vstd::utf8::group_utf8_lib;

/// How long a web session lasts: 14 days, in seconds.
pub const SESSION_TTL_SECS: i64 = 1_209_600;

/// How long a verified token is remembered: 60 seconds, in nanoseconds.
pub const TOKEN_CACHE_TTL_NANOS: u64 = 60_000_000_000;

pub const MSG_BAD_CREDENTIALS: &'static str = "아이디 또는 비밀번호가 올바르지 않습니다.";

pub const MSG_APPROVAL_PENDING: &'static str = "가입 승인 대기 중입니다.";

pub const MSG_ENTER_USERNAME: &'static str = "아이디를 입력해주세요.";

pub const MSG_PASSWORD_TOO_SHORT: &'static str = "비밀번호는 8자 이상이어야 합니다.";

pub const MSG_NEW_PASSWORD_TOO_SHORT: &'static str = "새 비밀번호는 8자 이상이어야 합니다.";

pub const MSG_WRONG_CURRENT_PASSWORD: &'static str = "현재 비밀번호가 올바르지 않습니다.";

pub const MSG_HASH_FAILED: &'static str = "비밀번호 해싱 실패: ";

pub const MSG_NO_SESSION: &'static str = "세션이 없습니다.";

// ------------------------------------------------------------------
// passwords

/// Signing in: an unknown user and a wrong password get the same refusal.
pub fn login_check(user: Option<User>, password: &str) -> (r: Result<(i64, String), NasError>)
    ensures
        match user {
            None => r matches Err(e) && e@ == ErrView::Forbidden(MSG_BAD_CREDENTIALS@),
            Some(u) => if password_verifies(password@, u.password_hash@) {
                r matches Ok((id, name)) && id == u.id && name == u.username
            } else {
                r matches Err(e) && e@ == ErrView::Forbidden(MSG_BAD_CREDENTIALS@)
            },
        },
{
    match user {
        None => Err(NasError::Forbidden(String::from_str(MSG_BAD_CREDENTIALS))),
        Some(u) => {
            if !verify_password(password, u.password_hash.as_str()) {
                return Err(NasError::Forbidden(String::from_str(MSG_BAD_CREDENTIALS)));
            }
            Ok((u.id, u.username))
        },
    }
}

/// A new account: the user name trimmed and not blank, a password of at least 8 bytes.
pub fn validate_registration(username: &str, password: &str) -> (r: Result<String, NasError>)
    ensures
        trim(username@).len() == 0 ==> (r matches Err(e) && e@ == ErrView::BadRequest(MSG_ENTER_USERNAME@)),
        trim(username@).len() > 0 && encode_utf8(password@).len() < 8 ==> (r matches Err(e) && e@
            == ErrView::BadRequest(MSG_PASSWORD_TOO_SHORT@)),
        trim(username@).len() > 0 && encode_utf8(password@).len() >= 8 ==> (r matches Ok(n) && n@
            == trim(username@)),
{
    let c = str_chars(username);
    let t = trim_chars(&c);
    if t.len() == 0 {
        return Err(NasError::BadRequest(String::from_str(MSG_ENTER_USERNAME)));
    }
    let pb = str_bytes(password);
    if pb.len() < 8 {
        return Err(NasError::BadRequest(String::from_str(MSG_PASSWORD_TOO_SHORT)));
    }
    Ok(string_from_chars(&t))
}

/// A password change needs a new password of at least 8 bytes.
pub fn new_password_check(new_password: &str) -> (r: Result<(), NasError>)
    ensures
        encode_utf8(new_password@).len() < 8 ==> (r matches Err(e) && e@ == ErrView::BadRequest(
            MSG_NEW_PASSWORD_TOO_SHORT@,
        )),
        encode_utf8(new_password@).len() >= 8 ==> r is Ok,
{
    let pb = str_bytes(new_password);
    if pb.len() < 8 {
        Err(NasError::BadRequest(String::from_str(MSG_NEW_PASSWORD_TOO_SHORT)))
    } else {
        Ok(())
    }
}

/// A password change needs the current password.
pub fn current_password_check(current_password: &str, stored_hash: &str) -> (r: Result<(), NasError>)
    ensures
        password_verifies(current_password@, stored_hash@) ==> r is Ok,
        !password_verifies(current_password@, stored_hash@) ==> (r matches Err(e) && e@ == ErrView::Forbidden(
            MSG_WRONG_CURRENT_PASSWORD@,
        )),
{
    if verify_password(current_password, stored_hash) {
        Ok(())
    } else {
        Err(NasError::Forbidden(String::from_str(MSG_WRONG_CURRENT_PASSWORD)))
    }
}

/// A hashing failure is an internal error carrying its cause.
pub fn hash_failure(cause: &str) -> (r: NasError)
    ensures
        r@ == ErrView::Internal(MSG_HASH_FAILED@ + cause@),
{
    let mut m: Vec<char> = Vec::new();
    extend_str(&mut m, MSG_HASH_FAILED);
    extend_str(&mut m, cause);
    NasError::Internal(string_from_chars(&m))
}

/// App passwords are issued only to users whose global membership, if any, is active.
pub fn app_password_precheck(global_status: Option<Status>) -> (r: Result<(), NasError>)
    ensures
        global_status matches Some(s) && s != Status::Active ==> (r matches Err(e) && e@ == ErrView::Forbidden(
            MSG_APPROVAL_PENDING@,
        )),
        !(global_status matches Some(s) && s != Status::Active) ==> r is Ok,
{
    match global_status {
        Some(s) => {
            if !s.is_active() {
                Err(NasError::Forbidden(String::from_str(MSG_APPROVAL_PENDING)))
            } else {
                Ok(())
            }
        },
        None => Ok(()),
    }
}

/// An app password counts only with the user name of its owner.
pub fn app_password_owner(token_user_id: i64, named_user: Option<User>) -> (r: Option<i64>)
    ensures
        r == (match named_user {
            Some(u) => if u.id == token_user_id {
                Some(token_user_id)
            } else {
                None
            },
            None => None,
        }),
{
    match named_user {
        Some(u) => {
            if u.id == token_user_id {
                Some(token_user_id)
            } else {
                None
            }
        },
        None => None,
    }
}

/// A session as listed to its user; the one whose token hash is the current one is marked.
pub fn session_info(
    token_hash: &str,
    label: Option<String>,
    created_at: String,
    expires_at: String,
    current_hash: &str,
) -> (r: SessionInfo)
    ensures
        r.label == label,
        r.created_at == created_at,
        r.expires_at == expires_at,
        r.is_current == (token_hash@ == current_hash@),
{
    SessionInfo { label, created_at, expires_at, is_current: str_eq(token_hash, current_hash) }
}

// ------------------------------------------------------------------
// session times

/// What chrono's `DateTime::parse_from_rfc3339` reads from this text, as the UTC instant
/// (seconds since the epoch, nanoseconds).
pub uninterp spec fn rfc3339_instant(s: Seq<char>) -> Option<(i64, u32)>;

/// What chrono's `to_rfc3339` writes for the UTC instant, where chrono can represent it.
pub uninterp spec fn rfc3339_of(secs: i64, nanos: u32) -> Option<Seq<char>>;

/// chrono 0.4 `DateTime::parse_from_rfc3339(s)`: the instant as `timestamp()` and
/// `timestamp_subsec_nanos()`, or `None` where the text is not RFC 3339.
#[verifier::external_body]
pub(crate) fn parse_rfc3339(s: &str) -> (r: Option<(i64, u32)>)
    ensures
        r == rfc3339_instant(s@),
{
    chrono::DateTime::parse_from_rfc3339(s).ok().map(|d| (d.timestamp(), d.timestamp_subsec_nanos()))
}

/// The first second of the year 10000: before it, and from the epoch on, `to_rfc3339` writes the
/// year with four digits, which is all that `parse_from_rfc3339` reads.
pub open spec fn four_digit_years_end() -> int {
    253_402_300_800
}

/// chrono 0.4 `DateTime::from_timestamp(secs, nanos)` then `to_rfc3339()`; `None` where chrono
/// cannot represent the instant. For an instant from the epoch to the end of the year 9999 and
/// fewer than a billion nanoseconds, reading the text back with `parse_from_rfc3339` gives the
/// instant again (all fractional digits are written, the year with four digits). Later years are
/// written with a sign and more digits, which the parser refuses; nothing is stated of them.
#[verifier::external_body]
pub(crate) fn format_rfc3339(secs: i64, nanos: u32) -> (r: Option<String>)
    ensures
        opt_view(r) == rfc3339_of(secs, nanos),
        0 <= secs < four_digit_years_end() && nanos < 1_000_000_000 ==> (r matches Some(s)
            ==> rfc3339_instant(s@) == Some((secs, nanos))),
{
    chrono::DateTime::from_timestamp(secs, nanos).map(|d| d.to_rfc3339())
}

/// chrono 0.4 `Utc::now()`, as `timestamp()` and `timestamp_subsec_nanos()`. It comes from the
/// system clock: at or after the epoch (it panics otherwise), with fewer than a billion
/// nanoseconds, and it is built by `DateTime::from_timestamp(secs, nanos).unwrap()`, so chrono
/// can represent it (it panics otherwise). Which instant it is, is the clock's.
#[verifier::external_body]
pub(crate) fn utc_now() -> (r: (i64, u32))
    ensures
        0 <= r.0 < 10_000_000_000_000,
        r.1 < 1_000_000_000,
        rfc3339_of(r.0, r.1) is Some,
{
    let now = chrono::Utc::now();
    (now.timestamp(), now.timestamp_subsec_nanos())
}

/// `a` is not later than `b`.
pub open spec fn instant_le(a: (i64, u32), b: (i64, u32)) -> bool {
    a.0 < b.0 || (a.0 == b.0 && a.1 <= b.1)
}

/// A stored session's fate at `now`, given its owner and expiry text as stored.
pub enum SessionVerdict {
    /// No such session.
    Unknown,
    /// Expired (or an unreadable expiry): it is deleted and does not count.
    Expired,
    Valid(i64),
}

/// The verdict on a session: valid while its expiry is later than `now`.
pub open spec fn session_verdict_spec(found: Option<(i64, Seq<char>)>, now: (i64, u32)) -> Option<Option<i64>> {
    match found {
        None => None,
        Some((uid, exp)) => match rfc3339_instant(exp) {
            Some(e) => if instant_le(e, now) {
                Some(None)
            } else {
                Some(Some(uid))
            },
            None => Some(None),
        },
    }
}

pub open spec fn found_view(found: Option<(i64, String)>) -> Option<(i64, Seq<char>)> {
    match found {
        Some((u, e)) => Some((u, e@)),
        None => None,
    }
}

pub open spec fn verdict_view(r: SessionVerdict) -> Option<Option<i64>> {
    match r {
        SessionVerdict::Unknown => None,
        SessionVerdict::Expired => Some(None),
        SessionVerdict::Valid(u) => Some(Some(u)),
    }
}

pub fn session_verdict(found: Option<(i64, String)>, now: (i64, u32)) -> (r: SessionVerdict)
    ensures
        session_verdict_spec(found_view(found), now) == verdict_view(r),
{
    match found {
        None => SessionVerdict::Unknown,
        Some((uid, exp)) => match parse_rfc3339(exp.as_str()) {
            Some(e) => {
                if e.0 < now.0 || (e.0 == now.0 && e.1 <= now.1) {
                    SessionVerdict::Expired
                } else {
                    SessionVerdict::Valid(uid)
                }
            },
            None => SessionVerdict::Expired,
        },
    }
}

/// `session_verdict` at the current time.
pub fn session_verdict_now(found: Option<(i64, String)>) -> (r: SessionVerdict)
    ensures
        exists|now: (i64, u32)| #[trigger] session_verdict_spec(found_view(found), now) == verdict_view(r),
{
    let now = utc_now();
    session_verdict(found, now)
}

/// The creation and expiry texts of a session made at `now`, 14 days apart; `None` where chrono
/// cannot represent one of the two instants.
pub open spec fn session_times_spec(now: (i64, u32)) -> Option<(Seq<char>, Seq<char>)> {
    match (rfc3339_of(now.0, now.1), rfc3339_of((now.0 + SESSION_TTL_SECS) as i64, now.1)) {
        (Some(c), Some(e)) => Some((c, e)),
        _ => None,
    }
}

pub open spec fn times_view(r: Option<(String, String)>) -> Option<(Seq<char>, Seq<char>)> {
    match r {
        Some((c, e)) => Some((c@, e@)),
        None => None,
    }
}

/// The creation and expiry times written for a session made at `now`, 14 days apart; `None`
/// where chrono cannot represent them.
pub fn session_times_at(now: (i64, u32)) -> (r: Option<(String, String)>)
    requires
        0 <= now.0 < 10_000_000_000_000,
    ensures
        times_view(r) == session_times_spec(now),
        now.0 + SESSION_TTL_SECS < four_digit_years_end() && now.1 < 1_000_000_000 ==> (r matches Some(
            (c, e),
        ) ==> rfc3339_instant(e@) == Some(((now.0 + SESSION_TTL_SECS) as i64, now.1))),
{
    let created = match format_rfc3339(now.0, now.1) {
        Some(c) => c,
        None => {
            return None;
        },
    };
    let expires = match format_rfc3339(now.0 + SESSION_TTL_SECS, now.1) {
        Some(e) => e,
        None => {
            return None;
        },
    };
    Some((created, expires))
}

/// The times of a session made now: those of `session_times_at` for the clock's instant, which
/// chrono can represent; so `None` comes only where the expiry 14 days later is beyond chrono's
/// range.
pub fn session_times_now() -> (r: Option<(String, String)>)
    ensures
        exists|now: (i64, u32)|
            #![trigger session_times_spec(now)]
            0 <= now.0 < 10_000_000_000_000 && now.1 < 1_000_000_000 && rfc3339_of(now.0, now.1) is Some
                && times_view(r) == session_times_spec(now) && (now.0 + SESSION_TTL_SECS
                < four_digit_years_end() ==> (r matches Some((c, e)) ==> rfc3339_instant(e@) == Some(
                ((now.0 + SESSION_TTL_SECS) as i64, now.1),
            ))),
{
    let now = utc_now();
    let r = session_times_at(now);
    assert(times_view(r) == session_times_spec(now));
    r
}

/// A session made at `now` counts at every instant before its 14 days are over.
pub proof fn lemma_new_session_valid_until_expiry(uid: i64, now: (i64, u32), expires: Seq<char>, t: (i64, u32))
    requires
        0 <= now.0 < 10_000_000_000_000,
        rfc3339_instant(expires) == Some(((now.0 + SESSION_TTL_SECS) as i64, now.1)),
        !instant_le(((now.0 + SESSION_TTL_SECS) as i64, now.1), t),
    ensures
        session_verdict_spec(Some((uid, expires)), t) == Some(Some(uid)),
{
}

/// A session counts no more once its expiry has come.
pub proof fn lemma_session_expires(uid: i64, expires: Seq<char>, e: (i64, u32), t: (i64, u32))
    requires
        rfc3339_instant(expires) == Some(e),
        instant_le(e, t),
    ensures
        session_verdict_spec(Some((uid, expires)), t) == Some(None::<i64>),
{
}

// ------------------------------------------------------------------
// the token cache

/// A cached verification at `at` still counts at `now` while less than the cache's lifetime has
/// passed (an earlier `now` counts as no time passed).
pub open spec fn cache_fresh(at: u64, now: u64) -> bool {
    now <= at || now - at < TOKEN_CACHE_TTL_NANOS
}

/// A lookup at `now`: the cached user while fresh; a stale record is dropped.
pub open spec fn cache_lookup(e: Option<(i64, u64)>, now: u64) -> (Option<i64>, Option<(i64, u64)>) {
    match e {
        Some((uid, at)) => if cache_fresh(at, now) {
            (Some(uid), e)
        } else {
            (None, None)
        },
        None => (None, None),
    }
}

/// Which tokens were verified recently, and for whom, keyed by `s:` or `a:` and the token hash.
pub struct TokenCache {
    origin: std::time::Instant,
    store: KeyedStore<(i64, u64)>,
}

impl TokenCache {
    /// The user cached under `k` and when, if any.
    pub closed spec fn entry_of(self, k: Seq<char>) -> Option<(i64, u64)> {
        self.store.entry_of(k)
    }

    pub fn new() -> (r: Self)
        ensures
            forall|k: Seq<char>| r.entry_of(k) is None,
    {
        TokenCache { origin: instant_now(), store: KeyedStore::new() }
    }

    /// Looks `key` up at `now` (see `cache_lookup`); other keys stay.
    pub fn get_at(&mut self, key: &str, now: u64) -> (r: Option<i64>)
        ensures
            (r, final(self).entry_of(key@)) == cache_lookup(old(self).entry_of(key@), now),
            forall|k: Seq<char>| k != key@ ==> final(self).entry_of(k) == old(self).entry_of(k),
    {
        match self.store.get(key) {
            Some((uid, at)) => {
                if now <= at || now - at < TOKEN_CACHE_TTL_NANOS {
                    Some(uid)
                } else {
                    self.store.remove(key);
                    None
                }
            },
            None => {
                None
            },
        }
    }

    /// Remembers that `key` was verified for `user_id` at `now`; other keys stay.
    pub fn put_at(&mut self, key: &str, user_id: i64, now: u64)
        ensures
            final(self).entry_of(key@) == Some((user_id, now)),
            forall|k: Seq<char>| k != key@ ==> final(self).entry_of(k) == old(self).entry_of(k),
    {
        self.store.put(key, Some((user_id, now)));
    }

    /// Forgets `key`; other keys stay.
    pub fn remove(&mut self, key: &str)
        ensures
            final(self).entry_of(key@) is None,
            forall|k: Seq<char>| k != key@ ==> final(self).entry_of(k) == old(self).entry_of(k),
    {
        self.store.remove(key);
    }

    /// `get_at` at the current reading of the monotonic clock.
    pub fn get(&mut self, key: &str) -> (r: Option<i64>)
        ensures
            exists|now: u64| (r, final(self).entry_of(key@)) == cache_lookup(old(self).entry_of(key@), now),
            forall|k: Seq<char>| k != key@ ==> final(self).entry_of(k) == old(self).entry_of(k),
    {
        let now = nanos_since(&self.origin);
        self.get_at(key, now)
    }

    /// `put_at` at the current reading of the monotonic clock.
    pub fn put(&mut self, key: &str, user_id: i64)
        ensures
            exists|now: u64| final(self).entry_of(key@) == Some((user_id, now)),
            forall|k: Seq<char>| k != key@ ==> final(self).entry_of(k) == old(self).entry_of(k),
    {
        let now = nanos_since(&self.origin);
        self.put_at(key, user_id, now);
    }
}

/// What was cached is found again, for the same user, until the cache's lifetime has passed.
pub proof fn lemma_cache_read_after_write(uid: i64, at: u64, now: u64)
    requires
        now < at + TOKEN_CACHE_TTL_NANOS,
    ensures
        cache_lookup(Some((uid, at)), now).0 == Some(uid),
{
}

/// After the cache's lifetime a cached token is verified afresh.
pub proof fn lemma_cache_entry_expires(uid: i64, at: u64, now: u64)
    requires
        now >= at + TOKEN_CACHE_TTL_NANOS,
    ensures
        cache_lookup(Some((uid, at)), now) == (None::<i64>, None::<(i64, u64)>),
{
}

} // verus!
