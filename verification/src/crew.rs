//! Crew management rules: roles required for each action, invitations, approvals, bans,
//! crew creation and settings, and the walk that decides who may delete a crew.
use vstd::prelude::*;
use vstd::string::*;
use crate::errors::{bad_request, forbidden, internal, res_view, ErrView, NasError};
use crate::ids::{fresh_id, timestamp_now};
use crate::models::{
    opt_view, role_code, role_from_code, status_from_code, Crew, CrewMembership,
    CrewVisibility, FolderMetadata, ManageableCrew, Role, Status, WebDavMountInfo,
    DEFAULT_MAX_SUB_CREW_DEPTH, GLOBAL_ROOT_CREW_ID,
};
use crate::access::{MSG_ACTIVE_ONLY, MSG_NOT_MEMBER, MSG_NO_PERMISSION, MSG_UNKNOWN_ROLE, MSG_UNKNOWN_STATUS};
use crate::text::{extend_chars, extend_str, str_chars, str_eq, string_from_chars};

verus! {

pub const MSG_WEBDAV_GLOBAL: &'static str = "글로벌 루트 Crew는 WebDAV 마운트 대상이 아닙니다.";
pub const MSG_NO_ROOT_FOLDER: &'static str = "Crew 루트 폴더가 설정되지 않았습니다.";
pub const MSG_NO_MORE_SUB_CREWS: &'static str = "이 Crew는 더 이상 하위 Crew를 만들 수 없습니다.";
pub const MSG_GLOBAL_VISIBILITY: &'static str = "글로벌 루트 Crew의 공개 범위는 변경할 수 없습니다.";
pub const MSG_NO_SUCH_USER: &'static str = "해당 아이디의 사용자를 찾을 수 없습니다.";
pub const MSG_JOIN_GLOBAL: &'static str = "글로벌 루트 Crew는 가입 신청이 필요 없습니다.";
pub const MSG_JOIN_PRIVATE: &'static str = "비공개 Crew는 가입 신청할 수 없습니다. 초대를 받아야 합니다.";
pub const MSG_ALREADY_APPLIED: &'static str = "이미 신청했거나 멤버입니다.";
pub const MSG_INVITE_GLOBAL: &'static str = "글로벌 루트 Crew에는 초대할 수 없습니다.";
pub const MSG_INVITE_GUEST_PUBLIC: &'static str = "공개 Crew 초대 시 Guest 역할은 사용할 수 없습니다.";
pub const MSG_ALREADY_ACTIVE: &'static str = "이미 활성 멤버입니다.";
pub const MSG_CANNOT_APPROVE: &'static str = "승인할 수 없는 멤버 상태입니다.";
pub const MSG_BAN_SELF: &'static str = "자기 자신을 차단할 수 없습니다.";
pub const MSG_BAN_OWNER: &'static str = "Owner는 차단할 수 없습니다.";
pub const MSG_BAN_MANAGER: &'static str = "Manager는 다른 Manager를 차단할 수 없습니다.";
pub const MSG_DELETE_GLOBAL: &'static str = "글로벌 루트 Crew는 삭제할 수 없습니다.";
pub const MSG_DELETE_NOT_OWNER: &'static str = "해당 Crew 또는 상위 Crew의 Owner만 삭제할 수 있습니다.";

/// A looked-up record, or `DataNotFound`.
pub fn found<T>(o: Option<T>) -> (r: Result<T, NasError>)
    ensures
        o matches Some(v) ==> r == Ok::<T, NasError>(v),
        o is None ==> (r matches Err(e) && e@ == ErrView::DataNotFound),
{
    match o {
        Some(v) => Ok(v),
        None => Err(NasError::DataNotFound),
    }
}

// ------------------------------------------------------------------
// roles

/// The role test an action requires of an active member.
#[derive(Debug, Clone, Copy, PartialEq, Eq, Structural)]
pub enum RoleCheck {
    AnyRole,
    OwnerOnly,
    ManageMembers,
    ManageSettings,
    CreateSubCrew,
}

pub open spec fn check_holds(c: RoleCheck, r: Role) -> bool {
    match c {
        RoleCheck::AnyRole => true,
        RoleCheck::OwnerOnly => r == Role::Owner,
        RoleCheck::ManageMembers => r == Role::Owner || r == Role::Manager,
        RoleCheck::ManageSettings => r == Role::Owner,
        RoleCheck::CreateSubCrew => r == Role::Owner || r == Role::Manager,
    }
}

pub open spec fn require_role_spec(m: Option<CrewMembership>, c: RoleCheck) -> Result<Role, ErrView> {
    match m {
        None => Err(ErrView::Forbidden(MSG_NOT_MEMBER@)),
        Some(mm) => match status_from_code(mm.status) {
            None => Err(ErrView::Internal(MSG_UNKNOWN_STATUS@)),
            Some(st) => if st != Status::Active {
                Err(ErrView::Forbidden(MSG_ACTIVE_ONLY@))
            } else {
                match role_from_code(mm.role) {
                    None => Err(ErrView::Internal(MSG_UNKNOWN_ROLE@)),
                    Some(r) => if check_holds(c, r) {
                        Ok(r)
                    } else {
                        Err(ErrView::Forbidden(MSG_NO_PERMISSION@))
                    },
                }
            },
        },
    }
}

/// Which memberships pass each role test, by stored codes: only an active member (status 1)
/// with a known role passes any; member management and sub-crew creation are for Owners and
/// Managers (role codes 0, 1), settings and owner-only actions for Owners (code 0); Members
/// (code 2) and Guests (code 3) pass only the test that any role passes. A passing test gives
/// the member's own role.
pub proof fn lemma_role_checks(m: Option<CrewMembership>, c: RoleCheck)
    ensures
        require_role_spec(m, c) is Ok <==> (m matches Some(mm) && mm.status == 1 && mm.role <= 3 && match c {
            RoleCheck::AnyRole => true,
            RoleCheck::OwnerOnly => mm.role == 0,
            RoleCheck::ManageMembers => mm.role == 0 || mm.role == 1,
            RoleCheck::ManageSettings => mm.role == 0,
            RoleCheck::CreateSubCrew => mm.role == 0 || mm.role == 1,
        }),
        require_role_spec(m, c) matches Ok(r) ==> (m matches Some(mm) && role_from_code(mm.role) == Some(r)),
        c == RoleCheck::ManageMembers ==> (require_role_spec(m, c) matches Ok(r) ==> r == Role::Owner || r
            == Role::Manager),
        (m matches Some(mm) && mm.status == 1 && mm.role >= 2 && mm.role <= 3) && c != RoleCheck::AnyRole
            ==> require_role_spec(m, c) == Err::<Role, ErrView>(ErrView::Forbidden(MSG_NO_PERMISSION@)),
{
}

/// The actor's role in a crew, given the actor's membership there, if the role passes the
/// test; the refusal otherwise.
pub fn require_crew_role(m: &Option<CrewMembership>, check: RoleCheck) -> (r: Result<Role, NasError>)
    ensures
        res_view(r) == require_role_spec(*m, check),
{
    let mm = match m {
        None => {
            return Err(forbidden(MSG_NOT_MEMBER));
        },
        Some(mm) => mm,
    };
    let status = match Status::from_u8(mm.status) {
        None => {
            return Err(internal(MSG_UNKNOWN_STATUS));
        },
        Some(s) => s,
    };
    if !status.is_active() {
        return Err(forbidden(MSG_ACTIVE_ONLY));
    }
    let role = match Role::from_u8(mm.role) {
        None => {
            return Err(internal(MSG_UNKNOWN_ROLE));
        },
        Some(r) => r,
    };
    let ok = match check {
        RoleCheck::AnyRole => true,
        RoleCheck::OwnerOnly => role == Role::Owner,
        RoleCheck::ManageMembers => role.can_manage_members(),
        RoleCheck::ManageSettings => role.can_manage_crew_settings(),
        RoleCheck::CreateSubCrew => role.can_create_sub_crew(),
    };
    if ok {
        Ok(role)
    } else {
        Err(forbidden(MSG_NO_PERMISSION))
    }
}

pub open spec fn active_owner_spec(m: Option<CrewMembership>) -> Result<bool, ErrView> {
    match m {
        None => Ok(false),
        Some(mm) => match status_from_code(mm.status) {
            None => Err(ErrView::Internal(MSG_UNKNOWN_STATUS@)),
            Some(st) => if st != Status::Active {
                Ok(false)
            } else {
                match role_from_code(mm.role) {
                    None => Err(ErrView::Internal(MSG_UNKNOWN_ROLE@)),
                    Some(r) => Ok(r == Role::Owner),
                }
            },
        },
    }
}

/// Whether a membership is that of an active Owner.
pub fn is_active_crew_owner(m: &Option<CrewMembership>) -> (r: Result<bool, NasError>)
    ensures
        res_view(r) == active_owner_spec(*m),
{
    let mm = match m {
        None => {
            return Ok(false);
        },
        Some(mm) => mm,
    };
    let status = match Status::from_u8(mm.status) {
        None => {
            return Err(internal(MSG_UNKNOWN_STATUS));
        },
        Some(s) => s,
    };
    if !status.is_active() {
        return Ok(false);
    }
    match Role::from_u8(mm.role) {
        None => Err(internal(MSG_UNKNOWN_ROLE)),
        Some(r) => Ok(r == Role::Owner),
    }
}

/// The status of a global-crew membership (an unknown status code reads as none).
pub fn global_membership_status(m: &Option<CrewMembership>) -> (r: Option<Status>)
    ensures
        r == (match *m {
            Some(mm) => status_from_code(mm.status),
            None => None,
        }),
{
    match m {
        Some(mm) => Status::from_u8(mm.status),
        None => None,
    }
}

/// The role and status codes a new member of a crew gets: the first member owns the crew
/// and is active; everyone after is a Member awaiting approval.
pub fn initial_membership(member_count: i64) -> (r: (u8, u8))
    ensures
        member_count == 0 ==> r == (role_code(Role::Owner), status_code_active()),
        member_count != 0 ==> r == (role_code(Role::Member), status_code_pending()),
{
    if member_count == 0 {
        (Role::Owner.as_u8(), Status::Active.as_u8())
    } else {
        (Role::Member.as_u8(), Status::Pending.as_u8())
    }
}

pub open spec fn status_code_active() -> u8 {
    1
}

pub open spec fn status_code_pending() -> u8 {
    0
}

// ------------------------------------------------------------------
// WebDAV mounts

/// Only the global root crew is refused before any lookup.
pub fn webdav_crew_precheck(crew_id: &str) -> (r: Result<(), NasError>)
    ensures
        crew_id@ == GLOBAL_ROOT_CREW_ID@ ==> (r matches Err(e) && e@ == ErrView::Forbidden(MSG_WEBDAV_GLOBAL@)),
        crew_id@ != GLOBAL_ROOT_CREW_ID@ ==> r is Ok,
{
    if str_eq(crew_id, GLOBAL_ROOT_CREW_ID) {
        Err(forbidden(MSG_WEBDAV_GLOBAL))
    } else {
        Ok(())
    }
}

/// A crew can be mounted once it exists and has a root folder.
pub fn webdav_crew_ready(crew: Option<Crew>) -> (r: Result<Crew, NasError>)
    ensures
        crew is None ==> (r matches Err(e) && e@ == ErrView::DataNotFound),
        crew matches Some(c) && c.root_folder_id is None ==> (r matches Err(e) && e@ == ErrView::BadRequest(MSG_NO_ROOT_FOLDER@)),
        crew matches Some(c) ==> (c.root_folder_id is Some ==> r == Ok::<Crew, NasError>(c)),
{
    match crew {
        None => Err(NasError::DataNotFound),
        Some(c) => if c.root_folder_id.is_none() {
            Err(bad_request(MSG_NO_ROOT_FOLDER))
        } else {
            Ok(c)
        },
    }
}

/// `s.trim_end_matches('/')`.
pub open spec fn trim_trailing_slashes(s: Seq<char>) -> Seq<char>
    decreases s.len(),
{
    if s.len() > 0 && s.last() == '/' {
        trim_trailing_slashes(s.drop_last())
    } else {
        s
    }
}

pub fn trim_trailing_slashes_chars(s: &Vec<char>) -> (r: Vec<char>)
    ensures
        r@ == trim_trailing_slashes(s@),
{
    let mut j = s.len();
    assert(s@.subrange(0, s.len() as int) =~= s@);
    while j > 0 && s[j - 1] == '/'
        invariant
            j <= s.len(),
            trim_trailing_slashes(s@.subrange(0, j as int)) == trim_trailing_slashes(s@),
        decreases j,
    {
        assert(s@.subrange(0, j as int).drop_last() =~= s@.subrange(0, j - 1));
        j -= 1;
    }
    crate::text::sub_chars(s, 0, j)
}

pub open spec fn mount_path_spec(base: Seq<char>, crew_id: Seq<char>) -> Seq<char> {
    trim_trailing_slashes(base) + seq!['/'] + crew_id + seq!['/']
}

/// The WebDAV mounts of the crews a user owns: `<base>/<crew id>/`.
pub fn webdav_mounts(crews: Vec<Crew>, webdav_base: &str) -> (r: Vec<WebDavMountInfo>)
    ensures
        r@.len() == crews@.len(),
        forall|i: int| 0 <= i < r@.len() ==> {
            &&& (#[trigger] r@[i]).crew_id@ == crews@[i].id@
            &&& r@[i].crew_name@ == crews@[i].name@
            &&& r@[i].mount_path@ == mount_path_spec(webdav_base@, crews@[i].id@)
        },
{
    let base_chars = str_chars(webdav_base);
    let base = trim_trailing_slashes_chars(&base_chars);
    let mut out: Vec<WebDavMountInfo> = Vec::new();
    let mut i: usize = 0;
    while i < crews.len()
        invariant
            i <= crews.len(),
            base@ == trim_trailing_slashes(webdav_base@),
            out@.len() == i,
            forall|k: int| 0 <= k < i ==> {
                &&& (#[trigger] out@[k]).crew_id@ == crews@[k].id@
                &&& out@[k].crew_name@ == crews@[k].name@
                &&& out@[k].mount_path@ == mount_path_spec(webdav_base@, crews@[k].id@)
            },
        decreases crews.len() - i,
    {
        let c = &crews[i];
        let mut p: Vec<char> = Vec::new();
        extend_chars(&mut p, &base);
        p.push('/');
        extend_str(&mut p, c.id.as_str());
        p.push('/');
        assert(p@ =~= mount_path_spec(webdav_base@, crews@[i as int].id@));
        out.push(WebDavMountInfo {
            crew_id: c.id.clone(),
            crew_name: c.name.clone(),
            mount_path: string_from_chars(&p),
        });
        i += 1;
    }
    out
}

// ------------------------------------------------------------------
// creating crews and changing their settings

/// Top-level crews (under the global root) may be created by any active member; deeper
/// ones by Owners and Managers of the parent.
pub fn create_crew_role_check(parent_crew_id: &str) -> (r: RoleCheck)
    ensures
        r == (if parent_crew_id@ == GLOBAL_ROOT_CREW_ID@ { RoleCheck::AnyRole } else { RoleCheck::CreateSubCrew }),
{
    if str_eq(parent_crew_id, GLOBAL_ROOT_CREW_ID) {
        RoleCheck::AnyRole
    } else {
        RoleCheck::CreateSubCrew
    }
}

pub open spec fn clamp_spec(v: int, lo: int, hi: int) -> int {
    if v < lo {
        lo
    } else if v > hi {
        hi
    } else {
        v
    }
}

/// The sub-crew depth budget of a new child crew: the requested budget (default 3),
/// clamped to `0..=parent budget - 1`; refused when the parent has no budget left.
pub fn child_max_depth(parent: &Crew, requested: Option<i32>) -> (r: Result<i32, NasError>)
    ensures
        parent.max_sub_crew_depth < 1 ==> (r matches Err(e) && e@ == ErrView::BadRequest(MSG_NO_MORE_SUB_CREWS@)),
        parent.max_sub_crew_depth >= 1 ==> (r matches Ok(v) && v == clamp_spec(
            (match requested { Some(x) => x as int, None => DEFAULT_MAX_SUB_CREW_DEPTH as int }),
            0,
            parent.max_sub_crew_depth - 1,
        )),
{
    if parent.max_sub_crew_depth < 1 {
        return Err(bad_request(MSG_NO_MORE_SUB_CREWS));
    }
    let want = match requested {
        Some(x) => x,
        None => DEFAULT_MAX_SUB_CREW_DEPTH,
    };
    let hi = parent.max_sub_crew_depth - 1;
    let v = if want < 0 {
        0
    } else if want > hi {
        hi
    } else {
        want
    };
    Ok(v)
}

/// The records of a new crew: its root folder (named like the crew) and the crew row,
/// with fresh ids and the current time.
pub fn new_crew_records(
    parent_crew_id: &str,
    parent: &Crew,
    name: &str,
    visibility: CrewVisibility,
    child_max: i32,
) -> (r: (FolderMetadata, Crew))
    requires
        parent.depth < i32::MAX,
    ensures
        r.1.id@.len() == 36,
        r.0.id@.len() == 36,
        r.0.parent_id is None,
        opt_view(r.0.crew_id) == Some(r.1.id@),
        r.0.name@ == name@,
        r.0.created_at@ == r.0.updated_at@,
        r.0.created_at@ == r.1.created_at@,
        r.1.name@ == name@,
        opt_view(r.1.parent_id) == Some(parent_crew_id@),
        r.1.depth == parent.depth + 1,
        r.1.visibility == visibility,
        r.1.max_sub_crew_depth == child_max,
        opt_view(r.1.root_folder_id) == Some(r.0.id@),
{
    let crew_id = fresh_id();
    let now = timestamp_now();
    let root_folder_id = fresh_id();
    let folder = FolderMetadata {
        id: root_folder_id.clone(),
        parent_id: None,
        crew_id: Some(crew_id.clone()),
        name: String::from_str(name),
        created_at: now.clone(),
        updated_at: now.clone(),
    };
    let crew = Crew {
        id: crew_id,
        name: String::from_str(name),
        parent_id: Some(String::from_str(parent_crew_id)),
        depth: parent.depth + 1,
        visibility,
        max_sub_crew_depth: child_max,
        root_folder_id: Some(root_folder_id),
        created_at: now,
    };
    (folder, crew)
}

/// What a settings change writes: the new depth budget, the new visibility, and how far
/// every descendant crew's budget shifts.
#[derive(Debug)]
pub struct SettingsPlan {
    pub new_max: i32,
    pub new_visibility: CrewVisibility,
    pub delta: i32,
}

pub open spec fn changes_global_visibility(crew_id: Seq<char>, requested: Option<CrewVisibility>, current: CrewVisibility) -> bool {
    crew_id == GLOBAL_ROOT_CREW_ID@ && (match requested {
        Some(v) => v != current,
        None => false,
    })
}

pub open spec fn new_max_spec(crew: Crew, requested: Option<i32>) -> int {
    let v = match requested {
        Some(x) => x as int,
        None => crew.max_sub_crew_depth as int,
    };
    if v < 0 {
        0
    } else {
        v
    }
}

/// Settings change: the budget never goes below 0; the global root crew's visibility cannot
/// change (asking for its current value is allowed); descendants shift by the difference.
pub fn settings_plan(crew: &Crew, crew_id: &str, max_sub_crew_depth: Option<i32>, visibility: Option<CrewVisibility>) -> (r: Result<SettingsPlan, NasError>)
    requires
        i32::MIN <= new_max_spec(*crew, max_sub_crew_depth) - crew.max_sub_crew_depth <= i32::MAX,
    ensures
        changes_global_visibility(crew_id@, visibility, crew.visibility) ==> (r matches Err(e) && e@ == ErrView::BadRequest(MSG_GLOBAL_VISIBILITY@)),
        !changes_global_visibility(crew_id@, visibility, crew.visibility) ==> (r matches Ok(p) && {
            &&& p.new_max == new_max_spec(*crew, max_sub_crew_depth)
            &&& p.new_visibility == (if crew_id@ == GLOBAL_ROOT_CREW_ID@ { crew.visibility } else {
                match visibility { Some(v) => v, None => crew.visibility }
            })
            &&& p.delta == p.new_max - crew.max_sub_crew_depth
        }),
{
    let is_global = str_eq(crew_id, GLOBAL_ROOT_CREW_ID);
    if is_global {
        if let Some(v) = visibility {
            if v != crew.visibility {
                return Err(bad_request(MSG_GLOBAL_VISIBILITY));
            }
        }
    }
    let want = match max_sub_crew_depth {
        Some(x) => x,
        None => crew.max_sub_crew_depth,
    };
    let new_max = if want < 0 { 0 } else { want };
    let new_visibility = if is_global {
        crew.visibility
    } else {
        match visibility {
            Some(v) => v,
            None => crew.visibility,
        }
    };
    let delta = new_max - crew.max_sub_crew_depth;
    Ok(SettingsPlan { new_max, new_visibility, delta })
}

/// Whether the settings change's budget difference fits an `i32` (what `settings_plan` needs):
/// it does not only when a stored budget far below zero meets a large new one.
pub fn settings_delta_fits(crew: &Crew, max_sub_crew_depth: Option<i32>) -> (r: bool)
    ensures
        r == (i32::MIN <= new_max_spec(*crew, max_sub_crew_depth) - crew.max_sub_crew_depth <= i32::MAX),
{
    let want: i64 = match max_sub_crew_depth {
        Some(x) => x as i64,
        None => crew.max_sub_crew_depth as i64,
    };
    let new_max: i64 = if want < 0 { 0 } else { want };
    let delta: i64 = new_max - crew.max_sub_crew_depth as i64;
    i32::MIN as i64 <= delta && delta <= i32::MAX as i64
}

/// A descendant's budget after the parent's changed by `delta`: `MAX(0, budget + delta)`.
pub open spec fn shifted_spec(budget: int, delta: int) -> int {
    if budget + delta < 0 {
        0
    } else {
        budget + delta
    }
}

pub fn shifted_depth(budget: i32, delta: i32) -> (r: i32)
    requires
        i32::MIN <= budget + delta <= i32::MAX,
    ensures
        r == shifted_spec(budget as int, delta as int),
{
    let v = budget + delta;
    if v < 0 { 0 } else { v }
}

/// A settings change keeps the depth budget's gap between the crew and each descendant: the
/// descendants shift by the crew's change, unless a descendant's budget stops at 0.
pub proof fn lemma_settings_keep_budget_gaps(crew: Crew, requested: Option<i32>, descendant_budget: int)
    requires
        descendant_budget + (new_max_spec(crew, requested) - crew.max_sub_crew_depth) >= 0,
    ensures
        new_max_spec(crew, requested) - shifted_spec(
            descendant_budget,
            new_max_spec(crew, requested) - crew.max_sub_crew_depth,
        ) == crew.max_sub_crew_depth - descendant_budget,
{
}

/// Crews the user manages, with the user's role code.
pub fn manageable_crews(rows: Vec<(Crew, u8)>) -> (r: Vec<ManageableCrew>)
    ensures
        r@.len() == rows@.len(),
        forall|i: int| 0 <= i < r@.len() ==> {
            &&& (#[trigger] r@[i]).id == rows@[i].0.id
            &&& r@[i].name == rows@[i].0.name
            &&& r@[i].visibility == rows@[i].0.visibility
            &&& r@[i].root_folder_id == rows@[i].0.root_folder_id
            &&& r@[i].max_sub_crew_depth == rows@[i].0.max_sub_crew_depth
            &&& r@[i].my_role == rows@[i].1
        },
{
    let mut rows = rows;
    let ghost orig = rows@;
    let mut out: Vec<ManageableCrew> = Vec::new();
    while rows.len() > 0
        invariant
            out@.len() + rows@.len() == orig.len(),
            rows@ == orig.subrange(out@.len() as int, orig.len() as int),
            forall|i: int| 0 <= i < out@.len() ==> {
                &&& (#[trigger] out@[i]).id == orig[i].0.id
                &&& out@[i].name == orig[i].0.name
                &&& out@[i].visibility == orig[i].0.visibility
                &&& out@[i].root_folder_id == orig[i].0.root_folder_id
                &&& out@[i].max_sub_crew_depth == orig[i].0.max_sub_crew_depth
                &&& out@[i].my_role == orig[i].1
            },
        decreases rows.len(),
    {
        let (c, my_role) = rows.remove(0);
        assert(orig[out@.len() as int] == (c, my_role));
        out.push(ManageableCrew {
            id: c.id,
            name: c.name,
            visibility: c.visibility,
            root_folder_id: c.root_folder_id,
            max_sub_crew_depth: c.max_sub_crew_depth,
            my_role,
        });
        assert(rows@ =~= orig.subrange(out@.len() as int, orig.len() as int));
    }
    out
}

// ------------------------------------------------------------------
// membership changes

/// A write to the memberships table, with role and status codes.
#[derive(Debug, Clone, Copy, PartialEq, Eq, Structural)]
pub enum MembershipWrite {
    Add(u8, u8),
    Update(u8, u8),
}

pub fn join_request_precheck(crew_id: &str) -> (r: Result<(), NasError>)
    ensures
        crew_id@ == GLOBAL_ROOT_CREW_ID@ ==> (r matches Err(e) && e@ == ErrView::BadRequest(MSG_JOIN_GLOBAL@)),
        crew_id@ != GLOBAL_ROOT_CREW_ID@ ==> r is Ok,
{
    if str_eq(crew_id, GLOBAL_ROOT_CREW_ID) {
        Err(bad_request(MSG_JOIN_GLOBAL))
    } else {
        Ok(())
    }
}

/// Only public crews take join requests.
pub fn join_request_crew_check(crew: &Option<Crew>) -> (r: Result<(), NasError>)
    ensures
        crew is None ==> (r matches Err(e) && e@ == ErrView::DataNotFound),
        crew matches Some(c) && c.visibility != CrewVisibility::Public ==> (r matches Err(e) && e@ == ErrView::Forbidden(MSG_JOIN_PRIVATE@)),
        crew matches Some(c) && c.visibility == CrewVisibility::Public ==> r is Ok,
{
    match crew {
        None => Err(NasError::DataNotFound),
        Some(c) => if c.visibility != CrewVisibility::Public {
            Err(forbidden(MSG_JOIN_PRIVATE))
        } else {
            Ok(())
        },
    }
}

/// A join request adds a pending Guest, unless the user already has a membership row.
pub fn join_request_plan(existing: &Option<CrewMembership>) -> (r: Result<MembershipWrite, NasError>)
    ensures
        existing is Some ==> (r matches Err(e) && e@ == ErrView::BadRequest(MSG_ALREADY_APPLIED@)),
        existing is None ==> r == Ok::<MembershipWrite, NasError>(MembershipWrite::Add(role_code(Role::Guest), 0)),
{
    if existing.is_some() {
        Err(bad_request(MSG_ALREADY_APPLIED))
    } else {
        Ok(MembershipWrite::Add(Role::Guest.as_u8(), Status::Pending.as_u8()))
    }
}

pub fn invite_precheck(crew_id: &str) -> (r: Result<(), NasError>)
    ensures
        crew_id@ == GLOBAL_ROOT_CREW_ID@ ==> (r matches Err(e) && e@ == ErrView::BadRequest(MSG_INVITE_GLOBAL@)),
        crew_id@ != GLOBAL_ROOT_CREW_ID@ ==> r is Ok,
{
    if str_eq(crew_id, GLOBAL_ROOT_CREW_ID) {
        Err(bad_request(MSG_INVITE_GLOBAL))
    } else {
        Ok(())
    }
}

pub open spec fn invited_role(role: Role) -> Role {
    if role == Role::Guest { Role::Member } else { role }
}

/// An invitation: a public crew cannot invite a Guest; a Guest role becomes Member;
/// an active member cannot be invited again; an existing row is updated, otherwise added,
/// in both cases with status Invited.
pub fn invite_plan(crew: &Crew, role: Role, existing: &Option<CrewMembership>) -> (r: Result<MembershipWrite, NasError>)
    ensures
        (crew.visibility == CrewVisibility::Public && role == Role::Guest) ==> (r matches Err(e) && e@ == ErrView::BadRequest(MSG_INVITE_GUEST_PUBLIC@)),
        !(crew.visibility == CrewVisibility::Public && role == Role::Guest) ==> (match *existing {
            Some(m) => if status_from_code(m.status) == Some(Status::Active) {
                r matches Err(e) && e@ == ErrView::BadRequest(MSG_ALREADY_ACTIVE@)
            } else {
                r == Ok::<MembershipWrite, NasError>(MembershipWrite::Update(role_code(invited_role(role)), 2))
            },
            None => r == Ok::<MembershipWrite, NasError>(MembershipWrite::Add(role_code(invited_role(role)), 2)),
        }),
{
    if crew.visibility == CrewVisibility::Public && role == Role::Guest {
        return Err(bad_request(MSG_INVITE_GUEST_PUBLIC));
    }
    let member_role = match role {
        Role::Guest => Role::Member,
        other => other,
    };
    match existing {
        Some(m) => {
            let active = match Status::from_u8(m.status) {
                Some(s) => s.is_active(),
                None => false,
            };
            if active {
                Err(bad_request(MSG_ALREADY_ACTIVE))
            } else {
                Ok(MembershipWrite::Update(member_role.as_u8(), Status::Invited.as_u8()))
            }
        },
        None => Ok(MembershipWrite::Add(member_role.as_u8(), Status::Invited.as_u8())),
    }
}

/// The user an invitation by user name goes to.
pub fn invite_target(user: &Option<crate::models::User>) -> (r: Result<i64, NasError>)
    ensures
        user matches Some(u) ==> r == Ok::<i64, NasError>(u.id),
        user is None ==> (r matches Err(e) && e@ == ErrView::BadRequest(MSG_NO_SUCH_USER@)),
{
    match user {
        Some(u) => Ok(u.id),
        None => Err(bad_request(MSG_NO_SUCH_USER)),
    }
}

/// Approval: a pending applicant becomes an active Member; an invited user keeps the
/// invited role; any other status cannot be approved.
pub fn approve_plan(m: &Option<CrewMembership>) -> (r: Result<(u8, u8), NasError>)
    ensures
        m is None ==> (r matches Err(e) && e@ == ErrView::DataNotFound),
        m matches Some(mm) ==> (match status_from_code(mm.status) {
            None => r matches Err(e) && e@ == ErrView::Internal(MSG_UNKNOWN_STATUS@),
            Some(Status::Pending) => r == Ok::<(u8, u8), NasError>((role_code(Role::Member), 1)),
            Some(Status::Invited) => r == Ok::<(u8, u8), NasError>((mm.role, 1)),
            Some(_) => r matches Err(e) && e@ == ErrView::BadRequest(MSG_CANNOT_APPROVE@),
        }),
{
    let mm = match m {
        None => {
            return Err(NasError::DataNotFound);
        },
        Some(mm) => mm,
    };
    let status = match Status::from_u8(mm.status) {
        None => {
            return Err(internal(MSG_UNKNOWN_STATUS));
        },
        Some(s) => s,
    };
    let new_role = match status {
        Status::Pending => Role::Member.as_u8(),
        Status::Invited => mm.role,
        _ => {
            return Err(bad_request(MSG_CANNOT_APPROVE));
        },
    };
    Ok((new_role, Status::Active.as_u8()))
}

pub fn ban_precheck(actor_id: i64, target_user_id: i64) -> (r: Result<(), NasError>)
    ensures
        actor_id == target_user_id ==> (r matches Err(e) && e@ == ErrView::BadRequest(MSG_BAN_SELF@)),
        actor_id != target_user_id ==> r is Ok,
{
    if target_user_id == actor_id {
        Err(bad_request(MSG_BAN_SELF))
    } else {
        Ok(())
    }
}

/// A ban keeps the target's role and sets status Banned. Owners cannot be banned, and a
/// Manager cannot ban another Manager.
pub fn ban_plan(actor_role: Role, m: &Option<CrewMembership>) -> (r: Result<(u8, u8), NasError>)
    ensures
        m is None ==> (r matches Err(e) && e@ == ErrView::DataNotFound),
        m matches Some(mm) ==> (match role_from_code(mm.role) {
            None => r matches Err(e) && e@ == ErrView::Internal(MSG_UNKNOWN_ROLE@),
            Some(Role::Owner) => r matches Err(e) && e@ == ErrView::Forbidden(MSG_BAN_OWNER@),
            Some(t) => if actor_role == Role::Manager && t == Role::Manager {
                r matches Err(e) && e@ == ErrView::Forbidden(MSG_BAN_MANAGER@)
            } else {
                r == Ok::<(u8, u8), NasError>((mm.role, 3))
            },
        }),
{
    let mm = match m {
        None => {
            return Err(NasError::DataNotFound);
        },
        Some(mm) => mm,
    };
    let target_role = match Role::from_u8(mm.role) {
        None => {
            return Err(internal(MSG_UNKNOWN_ROLE));
        },
        Some(r) => r,
    };
    if target_role == Role::Owner {
        return Err(forbidden(MSG_BAN_OWNER));
    }
    if actor_role == Role::Manager && target_role == Role::Manager {
        return Err(forbidden(MSG_BAN_MANAGER));
    }
    Ok((mm.role, Status::Banned.as_u8()))
}

// ------------------------------------------------------------------
// deleting crews: the walk up the parent chain

/// The next thing the delete-authority walk needs, or its answer.
pub enum DeleteWalk {
    /// Is the actor an active Owner of this crew? (look up the membership)
    CheckOwner(String),
    /// Load this crew to go on to its parent.
    LoadCrew(String),
    Done(Result<(), NasError>),
}

pub enum DeleteWalkView {
    CheckOwner(Seq<char>),
    LoadCrew(Seq<char>),
    Done(Result<(), ErrView>),
}

impl View for DeleteWalk {
    type V = DeleteWalkView;

    open spec fn view(&self) -> DeleteWalkView {
        match self {
            DeleteWalk::CheckOwner(c) => DeleteWalkView::CheckOwner(c@),
            DeleteWalk::LoadCrew(c) => DeleteWalkView::LoadCrew(c@),
            DeleteWalk::Done(r) => DeleteWalkView::Done(res_view(*r)),
        }
    }
}

/// The global root crew can never be deleted; any other walk starts at the crew itself.
pub fn delete_walk_start(crew_id: &str) -> (r: DeleteWalk)
    ensures
        crew_id@ == GLOBAL_ROOT_CREW_ID@ ==> r@ == DeleteWalkView::Done(Err(ErrView::Forbidden(MSG_DELETE_GLOBAL@))),
        crew_id@ != GLOBAL_ROOT_CREW_ID@ ==> r@ == DeleteWalkView::CheckOwner(crew_id@),
{
    if str_eq(crew_id, GLOBAL_ROOT_CREW_ID) {
        DeleteWalk::Done(Err(forbidden(MSG_DELETE_GLOBAL)))
    } else {
        DeleteWalk::CheckOwner(String::from_str(crew_id))
    }
}

/// After the owner check of `current`: an active Owner is authorized; otherwise the walk
/// loads `current` to find its parent.
pub fn delete_walk_after_owner_check(current: &str, membership: &Option<CrewMembership>) -> (r: DeleteWalk)
    ensures
        r@ == (match active_owner_spec(*membership) {
            Err(e) => DeleteWalkView::Done(Err(e)),
            Ok(true) => DeleteWalkView::Done(Ok(())),
            Ok(false) => DeleteWalkView::LoadCrew(current@),
        }),
{
    match is_active_crew_owner(membership) {
        Err(e) => DeleteWalk::Done(Err(e)),
        Ok(true) => DeleteWalk::Done(Ok(())),
        Ok(false) => DeleteWalk::LoadCrew(String::from_str(current)),
    }
}

/// After loading a crew: continue with its parent, or refuse at the top of the chain.
pub fn delete_walk_after_crew(crew: &Option<Crew>) -> (r: DeleteWalk)
    ensures
        r@ == (match *crew {
            None => DeleteWalkView::Done(Err(ErrView::DataNotFound)),
            Some(c) => match c.parent_id {
                Some(p) => DeleteWalkView::CheckOwner(p@),
                None => DeleteWalkView::Done(Err(ErrView::Forbidden(MSG_DELETE_NOT_OWNER@))),
            },
        }),
{
    match crew {
        None => DeleteWalk::Done(Err(NasError::DataNotFound)),
        Some(c) => match &c.parent_id {
            Some(p) => DeleteWalk::CheckOwner(p.clone()),
            None => DeleteWalk::Done(Err(forbidden(MSG_DELETE_NOT_OWNER))),
        },
    }
}

/// The delete-authority walk over a crew hierarchy: `parents` maps each crew to its parent,
/// `owned` is the set of crews the actor is an active Owner of. Starting from `c`, with at
/// most `fuel` steps up, is some crew on the chain owned?
pub open spec fn owns_on_chain(parents: Map<Seq<char>, Option<Seq<char>>>, owned: Set<Seq<char>>, c: Seq<char>, fuel: nat) -> bool
    decreases fuel,
{
    if owned.contains(c) {
        true
    } else if fuel == 0 || !parents.contains_key(c) {
        false
    } else {
        match parents[c] {
            Some(p) => owns_on_chain(parents, owned, p, (fuel - 1) as nat),
            None => false,
        }
    }
}

/// The walk of the three step functions over a hierarchy, `fuel` crews deep.
pub open spec fn walk_outcome(parents: Map<Seq<char>, Option<Seq<char>>>, owned: Set<Seq<char>>, c: Seq<char>, fuel: nat) -> Result<(), ErrView>
    decreases fuel,
{
    if owned.contains(c) {
        Ok(())
    } else if !parents.contains_key(c) {
        Err(ErrView::DataNotFound)
    } else {
        match parents[c] {
            None => Err(ErrView::Forbidden(MSG_DELETE_NOT_OWNER@)),
            Some(p) => if fuel == 0 {
                Err(ErrView::Forbidden(MSG_DELETE_NOT_OWNER@))
            } else {
                walk_outcome(parents, owned, p, (fuel - 1) as nat)
            },
        }
    }
}

/// Deleting is allowed exactly when the actor actively owns the crew or one of its
/// ancestors (on a hierarchy where every crew on the chain exists).
pub proof fn lemma_delete_authority(parents: Map<Seq<char>, Option<Seq<char>>>, owned: Set<Seq<char>>, c: Seq<char>, fuel: nat)
    ensures
        walk_outcome(parents, owned, c, fuel) is Ok <==> owns_on_chain(parents, owned, c, fuel),
    decreases fuel,
{
    if !owned.contains(c) && parents.contains_key(c) && fuel > 0 {
        if let Some(p) = parents[c] {
            lemma_delete_authority(parents, owned, p, (fuel - 1) as nat);
        }
    }
}

} // verus!
