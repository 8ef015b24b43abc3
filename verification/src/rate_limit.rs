//! Per-client limit on authentication attempts: too many failures within a window lock the
//! client out for a while. Time is the monotonic clock, counted in nanoseconds since the
//! limiter was made.
use vstd::prelude::*;
use vstd::string::*;
use crate::errors::{ErrView, NasError};
use crate::keyed::KeyedStore;
use crate::text::{
    dec_digits, extend_str, lemma_split_nonempty, push_decimal, split_char, split_chars,
    str_chars, str_eq, string_from_chars, trim, trim_chars,
};

verus! {

broadcast use vstd::string::group_string_axioms;

/// Failures within one window that lock a client out.
pub const MAX_FAILURES: u32 = 5;

/// How long a lockout lasts: 15 minutes, in nanoseconds.
pub const LOCKOUT_NANOS: u64 = 900_000_000_000;

/// How long failures keep counting: 15 minutes, in nanoseconds.
pub const WINDOW_NANOS: u64 = 900_000_000_000;

pub const MSG_LOCKOUT_HEAD: &'static str = "로그인 시도가 너무 많습니다. ";

pub const MSG_LOCKOUT_TAIL: &'static str = "초 후 다시 시도하세요.";

#[verifier::external_type_specification]
#[verifier::external_body]
pub struct ExInstant(std::time::Instant);

/// std `Instant::now`: the monotonic clock's current reading. Nothing is stated of it.
#[verifier::external_body]
pub(crate) fn instant_now() -> (r: std::time::Instant) {
    std::time::Instant::now()
}

/// std `Instant::elapsed` on `origin`, in whole nanoseconds: how long ago `origin` was read.
/// The value is the clock's; nothing is stated of it.
#[verifier::external_body]
pub(crate) fn nanos_since(origin: &std::time::Instant) -> (r: u64) {
    origin.elapsed().as_nanos() as u64
}

/// What the limiter remembers of one client.
#[derive(Clone, Copy, Debug)]
pub struct Entry {
    pub failures: u32,
    pub window_start: u64,
    pub locked_until: Option<u64>,
}

/// A client with no failures whose window starts at `now`.
pub open spec fn fresh_entry(now: u64) -> Entry {
    Entry { failures: 0, window_start: now, locked_until: None }
}

/// More than a window has passed since the window started (an earlier `now` counts as none).
pub open spec fn window_expired(e: Entry, now: u64) -> bool {
    now > e.window_start && now - e.window_start > WINDOW_NANOS
}

/// Whole seconds left of a lockout, at least one.
pub open spec fn lockout_secs(until: u64, now: u64) -> u64 {
    let d = (until - now) / 1_000_000_000;
    if d < 1 {
        1
    } else {
        d as u64
    }
}

pub open spec fn lockout_end(now: u64) -> u64 {
    if now + LOCKOUT_NANOS > u64::MAX {
        u64::MAX
    } else {
        (now + LOCKOUT_NANOS) as u64
    }
}

/// A check at `now` of a client whose record is `e`: the seconds left if it is refused, and
/// the record afterwards. A client seen for the first time gets a fresh record; an expired
/// lockout or an expired window starts over.
pub open spec fn check_step(e: Option<Entry>, now: u64) -> (Option<u64>, Entry) {
    let cur = match e {
        Some(x) => x,
        None => fresh_entry(now),
    };
    match cur.locked_until {
        Some(until) => if now < until {
            (Some(lockout_secs(until, now)), cur)
        } else {
            (None, fresh_entry(now))
        },
        None => if window_expired(cur, now) {
            (None, fresh_entry(now))
        } else {
            (None, cur)
        },
    }
}

/// The record after a failure at `now`: the window restarts if it expired, the count goes up
/// by one (it stays at `u32::MAX` there), and reaching `MAX_FAILURES` locks the client until
/// `LOCKOUT_NANOS` after `now`.
pub open spec fn failure_step(e: Option<Entry>, now: u64) -> Entry {
    let cur = match e {
        Some(x) => x,
        None => fresh_entry(now),
    };
    let base = if window_expired(cur, now) {
        Entry { failures: 0, window_start: now, locked_until: cur.locked_until }
    } else {
        cur
    };
    let f: u32 = if base.failures == u32::MAX {
        u32::MAX
    } else {
        (base.failures + 1) as u32
    };
    Entry {
        failures: f,
        window_start: base.window_start,
        locked_until: if f >= MAX_FAILURES {
            Some(lockout_end(now))
        } else {
            base.locked_until
        },
    }
}

/// The message a locked-out client gets.
pub open spec fn lockout_message(secs: u64) -> Seq<char> {
    MSG_LOCKOUT_HEAD@ + dec_digits(secs as nat) + MSG_LOCKOUT_TAIL@
}

/// The records after failures at the given times, in order.
pub open spec fn after_failures(e: Option<Entry>, times: Seq<u64>) -> Option<Entry>
    decreases times.len(),
{
    if times.len() == 0 {
        e
    } else {
        Some(failure_step(after_failures(e, times.drop_last()), times.last()))
    }
}

/// In-memory attempt limiter keyed by client (an IP address).
pub struct LoginRateLimiter {
    origin: std::time::Instant,
    store: KeyedStore<Entry>,
}

impl LoginRateLimiter {
    /// The record kept for client `k`, if any.
    pub closed spec fn entry_of(self, k: Seq<char>) -> Option<Entry> {
        self.store.entry_of(k)
    }

    /// A limiter that remembers no client.
    pub fn new() -> (r: Self)
        ensures
            forall|k: Seq<char>| r.entry_of(k) is None,
    {
        LoginRateLimiter { origin: instant_now(), store: KeyedStore::new() }
    }

    fn get(&self, key: &str) -> (r: Option<Entry>)
        ensures
            r == self.entry_of(key@),
    {
        self.store.get(key)
    }

    fn put(&mut self, key: &str, v: Option<Entry>)
        ensures
            final(self).entry_of(key@) == v,
            forall|k: Seq<char>| k != key@ ==> final(self).entry_of(k) == old(self).entry_of(k),
            final(self).origin == old(self).origin,
    {
        self.store.put(key, v);
    }

    /// Whether the client may try to authenticate at `now`; refused while it is locked out.
    /// The client's record becomes the one that `check_step` gives; other clients' stay.
    pub fn check_at(&mut self, key: &str, now: u64) -> (r: Result<(), NasError>)
        ensures
            check_post(old(self).entry_of(key@), final(self).entry_of(key@), now, r),
            forall|k: Seq<char>| k != key@ ==> final(self).entry_of(k) == old(self).entry_of(k),
    {
        let cur = match self.get(key) {
            Some(e) => e,
            None => Entry { failures: 0, window_start: now, locked_until: None },
        };
        match cur.locked_until {
            Some(until) => {
                if now < until {
                    let d = (until - now) / 1_000_000_000;
                    let secs = if d < 1 { 1 } else { d };
                    self.put(key, Some(cur));
                    let mut msg: Vec<char> = Vec::new();
                    extend_str(&mut msg, MSG_LOCKOUT_HEAD);
                    push_decimal(&mut msg, secs);
                    extend_str(&mut msg, MSG_LOCKOUT_TAIL);
                    assert(msg@ == lockout_message(secs));
                    return Err(NasError::Forbidden(string_from_chars(&msg)));
                }
                self.put(key, Some(Entry { failures: 0, window_start: now, locked_until: None }));
            },
            None => {
                if now > cur.window_start && now - cur.window_start > WINDOW_NANOS {
                    self.put(key, Some(Entry { failures: 0, window_start: now, locked_until: None }));
                } else {
                    self.put(key, Some(cur));
                }
            },
        }
        Ok(())
    }

    /// `check_at` at the current reading of the monotonic clock.
    pub fn check(&mut self, key: &str) -> (r: Result<(), NasError>)
        ensures
            exists|now: u64| check_post(old(self).entry_of(key@), final(self).entry_of(key@), now, r),
            forall|k: Seq<char>| k != key@ ==> final(self).entry_of(k) == old(self).entry_of(k),
    {
        let now = nanos_since(&self.origin);
        self.check_at(key, now)
    }

    /// Counts a failed attempt of the client at `now` (see `failure_step`); other clients' records
    /// stay.
    pub fn record_failure_at(&mut self, key: &str, now: u64)
        ensures
            final(self).entry_of(key@) == Some(failure_step(old(self).entry_of(key@), now)),
            forall|k: Seq<char>| k != key@ ==> final(self).entry_of(k) == old(self).entry_of(k),
    {
        let cur = match self.get(key) {
            Some(e) => e,
            None => Entry { failures: 0, window_start: now, locked_until: None },
        };
        let base = if now > cur.window_start && now - cur.window_start > WINDOW_NANOS {
            Entry { failures: 0, window_start: now, locked_until: cur.locked_until }
        } else {
            cur
        };
        let f: u32 = if base.failures == u32::MAX { u32::MAX } else { base.failures + 1 };
        let locked = if f >= MAX_FAILURES {
            let end = if now > u64::MAX - LOCKOUT_NANOS { u64::MAX } else { now + LOCKOUT_NANOS };
            Some(end)
        } else {
            base.locked_until
        };
        self.put(key, Some(Entry { failures: f, window_start: base.window_start, locked_until: locked }));
    }

    /// `record_failure_at` at the current reading of the monotonic clock.
    pub fn record_failure(&mut self, key: &str)
        ensures
            exists|now: u64| final(self).entry_of(key@) == Some(failure_step(old(self).entry_of(key@), now)),
            forall|k: Seq<char>| k != key@ ==> final(self).entry_of(k) == old(self).entry_of(k),
    {
        let now = nanos_since(&self.origin);
        self.record_failure_at(key, now);
    }

    /// Forgets the client after a successful attempt; other clients' records stay.
    pub fn record_success(&mut self, key: &str)
        ensures
            final(self).entry_of(key@) is None,
            forall|k: Seq<char>| k != key@ ==> final(self).entry_of(k) == old(self).entry_of(k),
    {
        self.store.remove(key);
    }
}

/// What a check does: `r` is the refusal (with its message) or acceptance that `check_step`
/// gives for the record `before`, and `after` is the record it leaves.
pub open spec fn check_post(before: Option<Entry>, after: Option<Entry>, now: u64, r: Result<(), NasError>) -> bool {
    let (refused, e) = check_step(before, now);
    &&& after == Some(e)
    &&& match refused {
        Some(secs) => r matches Err(err) && err@ == ErrView::Forbidden(lockout_message(secs)),
        None => r is Ok,
    }
}

// ------------------------------------------------------------------
// laws

/// A client seen for the first time, or forgotten after a success, is let through and starts
/// a fresh record.
pub proof fn lemma_unknown_client_accepted(now: u64)
    ensures
        check_step(None, now) == (None::<u64>, fresh_entry(now)),
{
}

/// Checks do not disturb an unlocked client whose window is still open.
pub proof fn lemma_check_keeps_open_window(e: Entry, now: u64)
    requires
        e.locked_until is None,
        !window_expired(e, now),
    ensures
        check_step(Some(e), now) == (None::<u64>, e),
{
}

/// A lockout ends: from its end on the client is let through with a fresh record.
pub proof fn lemma_lockout_expires(e: Entry, now: u64)
    requires
        e.locked_until matches Some(until) && until <= now,
    ensures
        check_step(Some(e), now) == (None::<u64>, fresh_entry(now)),
{
}

/// A failure that brings the count to `MAX_FAILURES` locks the client out: every check from
/// then until the lockout ends is refused, with at least one second left.
pub proof fn lemma_failure_at_limit_locks(e: Option<Entry>, t: u64, later: u64)
    requires
        failure_step(e, t).failures >= MAX_FAILURES,
        t <= later < lockout_end(t),
    ensures
        check_step(Some(failure_step(e, t)), later).0 matches Some(secs) && secs >= 1,
{
}

proof fn lemma_failures_count(times: Seq<u64>, k: int)
    requires
        1 <= k <= times.len() <= MAX_FAILURES,
        forall|i: int, j: int| 0 <= i <= j < times.len() ==> times[i] <= times[j],
        times.last() - times[0] <= WINDOW_NANOS,
    ensures
        after_failures(None, times.take(k)) == Some(Entry {
            failures: k as u32,
            window_start: times[0],
            locked_until: if k >= MAX_FAILURES { Some(lockout_end(times[k - 1])) } else { None },
        }),
    decreases k,
{
    assert(times.take(k).drop_last() =~= times.take(k - 1));
    assert(times.take(k).last() == times[k - 1]);
    if k > 1 {
        lemma_failures_count(times, k - 1);
        assert(times[0] <= times[k - 1] <= times.last());
    } else {
        assert(times.take(0) =~= Seq::<u64>::empty());
    }
}

/// `MAX_FAILURES` failures of a client with no record, at non-decreasing times within one
/// window, lock it out: a check at any time from the last failure until the lockout ends is
/// refused.
pub proof fn lemma_consecutive_failures_lock(times: Seq<u64>, later: u64)
    requires
        times.len() == MAX_FAILURES,
        forall|i: int, j: int| 0 <= i <= j < times.len() ==> times[i] <= times[j],
        times.last() - times[0] <= WINDOW_NANOS,
        times.last() <= later < lockout_end(times.last()),
    ensures
        check_step(after_failures(None, times), later).0 is Some,
{
    lemma_failures_count(times, times.len() as int);
    assert(times.take(times.len() as int) =~= times);
}

/// Fewer than `MAX_FAILURES` failures of a client with no record, within one window, never
/// lock it out: a check within the window is let through.
pub proof fn lemma_below_limit_accepted(times: Seq<u64>, later: u64)
    requires
        1 <= times.len() < MAX_FAILURES,
        forall|i: int, j: int| 0 <= i <= j < times.len() ==> times[i] <= times[j],
        times.last() <= later,
        later - times[0] <= WINDOW_NANOS,
    ensures
        check_step(after_failures(None, times), later).0 is None,
{
    lemma_failures_count(times, times.len() as int);
    assert(times.take(times.len() as int) =~= times);
}

/// A failure more than a window after the window began starts the count over: an unlocked
/// client's count restarts at 1 in a new window, and it is let through at that time.
pub proof fn lemma_failure_after_window_restarts(e: Entry, now: u64)
    requires
        e.locked_until is None,
        window_expired(e, now),
    ensures
        failure_step(Some(e), now) == (Entry { failures: 1, window_start: now, locked_until: None }),
        check_step(Some(failure_step(Some(e), now)), now).0 is None,
{
}

/// From a clean start, four failures within one window and a fifth more than a window after
/// the first: the count restarts at 1 with the fifth, and the client is let through.
pub proof fn lemma_late_failure_does_not_lock(times: Seq<u64>)
    requires
        times.len() == MAX_FAILURES,
        forall|i: int, j: int| 0 <= i <= j < times.len() ==> times[i] <= times[j],
        times[MAX_FAILURES - 2] - times[0] <= WINDOW_NANOS,
        times.last() - times[0] > WINDOW_NANOS,
    ensures
        after_failures(None, times) == Some(Entry { failures: 1, window_start: times.last(), locked_until: None }),
        check_step(after_failures(None, times), times.last()).0 is None,
{
    let first = times.drop_last();
    assert(first.last() == times[MAX_FAILURES - 2]);
    lemma_failures_count(first, first.len() as int);
    assert(first.take(first.len() as int) =~= first);
    lemma_failure_after_window_restarts(
        Entry { failures: (MAX_FAILURES - 1) as u32, window_start: times[0], locked_until: None },
        times.last(),
    );
}

// ------------------------------------------------------------------
// client address

/// The client address a request came from, behind a proxy: the first entry of
/// `X-Forwarded-For`, trimmed, if not blank; else `X-Real-IP`, trimmed, if not blank; else
/// `unknown`.
pub open spec fn client_ip_spec(xff: Option<Seq<char>>, xri: Option<Seq<char>>) -> Seq<char> {
    let a = match xff {
        Some(s) => trim(split_char(s, ',')[0]),
        None => Seq::<char>::empty(),
    };
    let b = match xri {
        Some(s) => trim(s),
        None => Seq::<char>::empty(),
    };
    if a.len() > 0 {
        a
    } else if b.len() > 0 {
        b
    } else {
        "unknown"@
    }
}

/// The client address from the `X-Forwarded-For` and `X-Real-IP` header values, where present
/// and readable as text.
pub fn client_ip_from_headers(xff: Option<&str>, xri: Option<&str>) -> (r: String)
    ensures
        r@ == client_ip_spec(
            match xff { Some(s) => Some(s@), None => None },
            match xri { Some(s) => Some(s@), None => None },
        ),
{
    if let Some(x) = xff {
        let chars = str_chars(x);
        let parts = split_chars(&chars, ',');
        proof { lemma_split_nonempty(x@, ','); }
        let ip = trim_chars(&parts[0]);
        if ip.len() > 0 {
            return string_from_chars(&ip);
        }
    }
    if let Some(x) = xri {
        let chars = str_chars(x);
        let ip = trim_chars(&chars);
        if ip.len() > 0 {
            return string_from_chars(&ip);
        }
    }
    String::from_str("unknown")
}

} // verus!
