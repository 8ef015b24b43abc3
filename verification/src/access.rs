//! Folder access control: which member may see, read or write a folder.
//!
//! Resolving access needs up to four lookups (the user's global-crew membership, the
//! folder, its crew and the user's membership in it), each made only when the previous
//! facts call for it. [`next_access_step`] is the decision: from the facts gathered so
//! far it either names the next lookup or gives the final answer.
use vstd::prelude::*;
use vstd::string::*;
use crate::errors::{forbidden, internal, res_view, ErrView, NasError};
use crate::models::{
    opt_view, role_can_read, role_can_write, role_from_code, status_from_code, Crew,
    CrewMembership, CrewVisibility, FolderMetadata, Role, Status, GLOBAL_ROOT_CREW_ID,
};
use crate::text::{opt_str_eq, str_eq};

verus! {

pub const MSG_BANNED: &'static str = "차단된 멤버입니다.";
pub const MSG_PENDING_APPROVAL: &'static str = "가입 승인 대기 중입니다.";
pub const MSG_UNKNOWN_STATUS: &'static str = "알 수 없는 멤버 상태입니다.";
pub const MSG_UNKNOWN_ROLE: &'static str = "알 수 없는 멤버 역할입니다.";
pub const MSG_NO_WRITE: &'static str = "쓰기 권한이 없습니다.";
pub const MSG_NO_READ: &'static str = "읽기 권한이 없습니다.";
pub const MSG_NOT_MEMBER: &'static str = "Crew 멤버가 아닙니다.";
pub const MSG_ACTIVE_ONLY: &'static str = "활성 멤버만 수행할 수 있습니다.";
pub const MSG_NO_PERMISSION: &'static str = "권한이 없습니다.";

#[derive(Debug, Clone, Copy, PartialEq, Eq, Structural)]
pub enum FolderAccess {
    Open,
    Read,
    Write,
    GuestMetaOnly,
    Denied,
}

/// Whose access to which folder is asked, and for writing or for reading.
pub struct AccessQuery {
    pub user_id: Option<i64>,
    pub folder_id: Option<String>,
    pub need_write: bool,
}

/// Answers of the lookups made so far (`None`: not looked up yet).
pub struct AccessFacts {
    pub global_membership: Option<Option<CrewMembership>>,
    pub folder: Option<Option<FolderMetadata>>,
    pub crew: Option<Option<Crew>>,
    pub membership: Option<Option<CrewMembership>>,
}

impl AccessFacts {
    pub fn new() -> (r: Self)
        ensures
            r.global_membership is None,
            r.folder is None,
            r.crew is None,
            r.membership is None,
    {
        AccessFacts { global_membership: None, folder: None, crew: None, membership: None }
    }
}

pub enum AccessLookup {
    /// The user's membership in the global root crew.
    GlobalMembership(i64),
    /// The (active) folder with this id.
    Folder(String),
    /// The crew with this id.
    Crew(String),
    /// The user's membership in this crew.
    Membership(i64, String),
}

pub enum AccessStep {
    Lookup(AccessLookup),
    Done(Result<FolderAccess, NasError>),
}

pub enum LookupView {
    GlobalMembership(i64),
    Folder(Seq<char>),
    Crew(Seq<char>),
    Membership(i64, Seq<char>),
}

pub enum AccessStepView {
    Lookup(LookupView),
    Done(Result<FolderAccess, ErrView>),
}

impl View for AccessStep {
    type V = AccessStepView;

    open spec fn view(&self) -> AccessStepView {
        match self {
            AccessStep::Lookup(AccessLookup::GlobalMembership(u)) => AccessStepView::Lookup(
                LookupView::GlobalMembership(*u),
            ),
            AccessStep::Lookup(AccessLookup::Folder(f)) => AccessStepView::Lookup(
                LookupView::Folder(f@),
            ),
            AccessStep::Lookup(AccessLookup::Crew(c)) => AccessStepView::Lookup(
                LookupView::Crew(c@),
            ),
            AccessStep::Lookup(AccessLookup::Membership(u, c)) => AccessStepView::Lookup(
                LookupView::Membership(*u, c@),
            ),
            AccessStep::Done(r) => AccessStepView::Done(res_view(*r)),
        }
    }
}

/// The global-crew gate: banned and not-yet-approved members are refused everywhere.
/// A membership with an unknown status code counts as no membership.
pub open spec fn global_gate(m: Option<CrewMembership>) -> Option<ErrView> {
    match m {
        Some(mm) => match status_from_code(mm.status) {
            Some(Status::Banned) => Some(ErrView::Forbidden(MSG_BANNED@)),
            Some(st) => if st != Status::Active {
                Some(ErrView::Forbidden(MSG_PENDING_APPROVAL@))
            } else {
                None
            },
            None => None,
        },
        None => None,
    }
}

pub open spec fn is_crew_root_folder(crew: Crew, fid: Seq<char>) -> bool {
    opt_view(crew.root_folder_id) == Some(fid)
}

pub open spec fn is_public_root(crew: Crew, fid: Seq<char>) -> bool {
    crew.visibility == CrewVisibility::Public && is_crew_root_folder(crew, fid)
}

/// Someone who is not a member: only a public crew's root folder shows its metadata.
pub open spec fn outsider_access(crew: Crew, fid: Seq<char>) -> Result<FolderAccess, ErrView> {
    if is_public_root(crew, fid) {
        Ok(FolderAccess::GuestMetaOnly)
    } else {
        Err(ErrView::DataNotFound)
    }
}

/// A member of the folder's crew.
pub open spec fn member_access(crew: Crew, fid: Seq<char>, m: CrewMembership, need_write: bool) -> Result<FolderAccess, ErrView> {
    match status_from_code(m.status) {
        None => Err(ErrView::Internal(MSG_UNKNOWN_STATUS@)),
        Some(Status::Banned) => Err(ErrView::Forbidden(MSG_BANNED@)),
        Some(st) => if st != Status::Active {
            if is_public_root(crew, fid) && m.role == 3 {
                Ok(FolderAccess::GuestMetaOnly)
            } else {
                Err(ErrView::DataNotFound)
            }
        } else {
            match role_from_code(m.role) {
                None => Err(ErrView::Internal(MSG_UNKNOWN_ROLE@)),
                Some(role) => if need_write {
                    if role_can_write(role) {
                        Ok(FolderAccess::Write)
                    } else {
                        Err(ErrView::Forbidden(MSG_NO_WRITE@))
                    }
                } else if role_can_read(role) {
                    Ok(FolderAccess::Read)
                } else if role == Role::Guest && is_crew_root_folder(crew, fid) {
                    Ok(FolderAccess::GuestMetaOnly)
                } else {
                    Err(ErrView::Forbidden(MSG_NO_READ@))
                },
            }
        },
    }
}

/// The access policy, as the next step from the facts gathered so far.
pub open spec fn access_step_spec(q: AccessQuery, f: AccessFacts) -> AccessStepView {
    if q.user_id is Some && f.global_membership is None {
        AccessStepView::Lookup(LookupView::GlobalMembership(q.user_id->0))
    } else if q.user_id is Some && global_gate(f.global_membership->0) is Some {
        AccessStepView::Done(Err(global_gate(f.global_membership->0)->0))
    } else {
        match q.folder_id {
            None => AccessStepView::Done(Ok(FolderAccess::Open)),
            Some(fid) => match f.folder {
                None => AccessStepView::Lookup(LookupView::Folder(fid@)),
                Some(None) => AccessStepView::Done(Err(ErrView::DataNotFound)),
                Some(Some(folder)) => match folder.crew_id {
                    None => AccessStepView::Done(Ok(FolderAccess::Open)),
                    Some(cid) => if cid@ == GLOBAL_ROOT_CREW_ID@ {
                        AccessStepView::Done(
                            Ok(if q.need_write { FolderAccess::Write } else { FolderAccess::Read }),
                        )
                    } else {
                        match f.crew {
                            None => AccessStepView::Lookup(LookupView::Crew(cid@)),
                            Some(None) => AccessStepView::Done(Err(ErrView::DataNotFound)),
                            Some(Some(crew)) => match q.user_id {
                                None => AccessStepView::Done(outsider_access(crew, fid@)),
                                Some(uid) => match f.membership {
                                    None => AccessStepView::Lookup(LookupView::Membership(uid, cid@)),
                                    Some(None) => AccessStepView::Done(outsider_access(crew, fid@)),
                                    Some(Some(m)) => AccessStepView::Done(
                                        member_access(crew, fid@, m, q.need_write),
                                    ),
                                },
                            },
                        }
                    },
                },
            },
        }
    }
}

fn global_gate_exec(m: &Option<CrewMembership>) -> (r: Option<NasError>)
    ensures
        r matches Some(e) ==> global_gate(*m) == Some(e@),
        r is None ==> global_gate(*m) is None,
{
    match m {
        Some(mm) => match Status::from_u8(mm.status) {
            Some(Status::Banned) => Some(forbidden(MSG_BANNED)),
            Some(st) => if !st.is_active() {
                Some(forbidden(MSG_PENDING_APPROVAL))
            } else {
                None
            },
            None => None,
        },
        None => None,
    }
}

fn outsider_access_exec(crew: &Crew, fid: &str) -> (r: Result<FolderAccess, NasError>)
    ensures
        res_view(r) == outsider_access(*crew, fid@),
{
    if crew.visibility == CrewVisibility::Public && opt_str_eq(&crew.root_folder_id, fid) {
        Ok(FolderAccess::GuestMetaOnly)
    } else {
        Err(NasError::DataNotFound)
    }
}

fn member_access_exec(crew: &Crew, fid: &str, m: &CrewMembership, need_write: bool) -> (r: Result<FolderAccess, NasError>)
    ensures
        res_view(r) == member_access(*crew, fid@, *m, need_write),
{
    let status = match Status::from_u8(m.status) {
        Some(s) => s,
        None => {
            return Err(internal(MSG_UNKNOWN_STATUS));
        },
    };
    if status == Status::Banned {
        return Err(forbidden(MSG_BANNED));
    }
    if !status.is_active() {
        if crew.visibility == CrewVisibility::Public && opt_str_eq(&crew.root_folder_id, fid)
            && m.role == 3 {
            return Ok(FolderAccess::GuestMetaOnly);
        }
        return Err(NasError::DataNotFound);
    }
    let role = match Role::from_u8(m.role) {
        Some(r) => r,
        None => {
            return Err(internal(MSG_UNKNOWN_ROLE));
        },
    };
    if need_write {
        if role.can_write() {
            Ok(FolderAccess::Write)
        } else {
            Err(forbidden(MSG_NO_WRITE))
        }
    } else if role.can_read() {
        Ok(FolderAccess::Read)
    } else if role == Role::Guest && opt_str_eq(&crew.root_folder_id, fid) {
        Ok(FolderAccess::GuestMetaOnly)
    } else {
        Err(forbidden(MSG_NO_READ))
    }
}

/// The next step of resolving folder access: the next lookup to make, or the answer.
pub fn next_access_step(q: &AccessQuery, f: &AccessFacts) -> (r: AccessStep)
    ensures
        r@ == access_step_spec(*q, *f),
{
    if let Some(uid) = q.user_id {
        match &f.global_membership {
            None => {
                return AccessStep::Lookup(AccessLookup::GlobalMembership(uid));
            },
            Some(m) => {
                if let Some(e) = global_gate_exec(m) {
                    return AccessStep::Done(Err(e));
                }
            },
        }
    }
    let fid = match &q.folder_id {
        None => {
            return AccessStep::Done(Ok(FolderAccess::Open));
        },
        Some(fid) => fid,
    };
    let folder = match &f.folder {
        None => {
            return AccessStep::Lookup(AccessLookup::Folder(fid.clone()));
        },
        Some(None) => {
            return AccessStep::Done(Err(NasError::DataNotFound));
        },
        Some(Some(folder)) => folder,
    };
    let cid = match &folder.crew_id {
        None => {
            return AccessStep::Done(Ok(FolderAccess::Open));
        },
        Some(c) => c,
    };
    if str_eq(cid.as_str(), GLOBAL_ROOT_CREW_ID) {
        return AccessStep::Done(
            Ok(if q.need_write { FolderAccess::Write } else { FolderAccess::Read }),
        );
    }
    let crew = match &f.crew {
        None => {
            return AccessStep::Lookup(AccessLookup::Crew(cid.clone()));
        },
        Some(None) => {
            return AccessStep::Done(Err(NasError::DataNotFound));
        },
        Some(Some(crew)) => crew,
    };
    match q.user_id {
        None => AccessStep::Done(outsider_access_exec(crew, fid.as_str())),
        Some(uid) => match &f.membership {
            None => AccessStep::Lookup(AccessLookup::Membership(uid, cid.clone())),
            Some(None) => AccessStep::Done(outsider_access_exec(crew, fid.as_str())),
            Some(Some(m)) => AccessStep::Done(member_access_exec(crew, fid.as_str(), m, q.need_write)),
        },
    }
}

/// What the UI shows: (may read, may write), from the two resolutions.
pub fn describe_folder_access(read: &Result<FolderAccess, NasError>, write: &Result<FolderAccess, NasError>) -> (r: (bool, bool))
    ensures
        r.0 == (read matches Ok(a) && (a == FolderAccess::Open || a == FolderAccess::Read || a == FolderAccess::Write)),
        r.1 == (write matches Ok(a) && (a == FolderAccess::Open || a == FolderAccess::Write)),
{
    let can_read = match read {
        Ok(FolderAccess::Open) | Ok(FolderAccess::Read) | Ok(FolderAccess::Write) => true,
        _ => false,
    };
    let can_write = match write {
        Ok(FolderAccess::Open) | Ok(FolderAccess::Write) => true,
        _ => false,
    };
    (can_read, can_write)
}

/// Whether file content may be handed out under this access (download, zip, search,
/// subtitles): guests that only see metadata, and denied users, get nothing.
pub fn grants_content(a: FolderAccess) -> (r: bool)
    ensures
        r == (a != FolderAccess::GuestMetaOnly && a != FolderAccess::Denied),
{
    match a {
        FolderAccess::GuestMetaOnly | FolderAccess::Denied => false,
        _ => true,
    }
}

// ------------------------------------------------------------------
// laws

pub open spec fn with_need(q: AccessQuery, need_write: bool) -> AccessQuery {
    AccessQuery { user_id: q.user_id, folder_id: q.folder_id, need_write }
}

/// Whoever may write a folder may also read it: on the same facts, a successful write
/// resolution implies that the read resolution succeeds with content access.
pub proof fn lemma_write_implies_read(q: AccessQuery, f: AccessFacts)
    requires
        access_step_spec(with_need(q, true), f) matches AccessStepView::Done(Ok(a))
            && (a == FolderAccess::Open || a == FolderAccess::Write),
    ensures
        access_step_spec(with_need(q, false), f) matches AccessStepView::Done(Ok(b))
            && (b == FolderAccess::Open || b == FolderAccess::Read || b == FolderAccess::Write),
{
}

/// Which lookups are made does not depend on whether writing is asked for.
pub proof fn lemma_lookups_independent_of_need(q: AccessQuery, f: AccessFacts)
    ensures
        access_step_spec(with_need(q, true), f) is Lookup <==> access_step_spec(with_need(q, false), f) is Lookup,
        access_step_spec(with_need(q, true), f) is Lookup ==> access_step_spec(with_need(q, true), f) == access_step_spec(with_need(q, false), f),
{
}

/// A user banned from the global crew is refused every folder.
pub proof fn lemma_global_ban_refuses(q: AccessQuery, f: AccessFacts, m: CrewMembership)
    requires
        q.user_id is Some,
        f.global_membership == Some(Some(m)),
        m.status == 3,
    ensures
        access_step_spec(q, f) == AccessStepView::Done(Err(ErrView::Forbidden(MSG_BANNED@))),
{
}

/// A signed-out visitor never reads or writes a folder of a crew other than the global
/// root: at most the metadata of a public crew's root folder is shown.
pub proof fn lemma_anonymous_at_most_guest(q: AccessQuery, f: AccessFacts)
    requires
        q.user_id is None,
        q.folder_id is Some,
        f.folder matches Some(Some(folder)) && folder.crew_id matches Some(cid) && cid@ != GLOBAL_ROOT_CREW_ID@,
        access_step_spec(q, f) matches AccessStepView::Done(Ok(a)),
    ensures
        access_step_spec(q, f) == AccessStepView::Done(Ok(FolderAccess::GuestMetaOnly)),
{
}

/// Only Owners and Managers of a crew get write access to its folders.
pub proof fn lemma_write_needs_owner_or_manager(q: AccessQuery, f: AccessFacts)
    requires
        q.need_write,
        f.folder matches Some(Some(folder)) && folder.crew_id matches Some(cid) && cid@ != GLOBAL_ROOT_CREW_ID@,
        access_step_spec(q, f) == AccessStepView::Done(Ok(FolderAccess::Write)),
    ensures
        f.membership matches Some(Some(m)) && m.status == 1 && (m.role == 0 || m.role == 1),
{
}

/// An active Owner, Manager or Member (role codes 0, 1, 2; status 1) of a crew reads every
/// folder of it: the crew's root folder and any other folder alike get `Read`.
pub proof fn lemma_active_readers_read(q: AccessQuery, f: AccessFacts, m: CrewMembership)
    requires
        q.user_id is Some,
        q.folder_id is Some,
        !q.need_write,
        f.global_membership matches Some(g) && (g is None || g->0.status == 1),
        f.folder matches Some(Some(folder)) && folder.crew_id is Some,
        f.crew matches Some(Some(crew)),
        f.membership == Some(Some(m)),
        m.status == 1,
        m.role <= 2,
    ensures
        access_step_spec(q, f) == AccessStepView::Done(Ok(FolderAccess::Read)),
{
}

/// What an active member of a crew gets for one of its folders, by role code, whichever folder
/// it is: reading gives `Read` to Owners, Managers and Members (codes 0-2); writing gives `Write`
/// to Owners and Managers (codes 0, 1) and is refused to Members and Guests (codes 2, 3); a
/// Guest reading sees only the root folder's metadata and is refused every other folder.
pub proof fn lemma_active_member_access(crew: Crew, fid: Seq<char>, m: CrewMembership)
    requires
        m.status == 1,
        m.role <= 3,
    ensures
        m.role <= 2 ==> member_access(crew, fid, m, false) == Ok::<FolderAccess, ErrView>(FolderAccess::Read),
        m.role <= 1 ==> member_access(crew, fid, m, true) == Ok::<FolderAccess, ErrView>(FolderAccess::Write),
        m.role >= 2 ==> member_access(crew, fid, m, true) == Err::<FolderAccess, ErrView>(
            ErrView::Forbidden(MSG_NO_WRITE@),
        ),
        m.role == 3 && opt_view(crew.root_folder_id) == Some(fid) ==> member_access(crew, fid, m, false)
            == Ok::<FolderAccess, ErrView>(FolderAccess::GuestMetaOnly),
        m.role == 3 && opt_view(crew.root_folder_id) != Some(fid) ==> member_access(crew, fid, m, false)
            == Err::<FolderAccess, ErrView>(ErrView::Forbidden(MSG_NO_READ@)),
{
}

} // verus!
