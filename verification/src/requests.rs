//! The bodies and query parameters of the HTTP API, and the small answers built from them.
use vstd::prelude::*;
use vstd::string::*;
use crate::errors::{ErrView, NasError};
use crate::models::{role_from_code, GreetingService, Role};
use crate::text::{str_chars, trim, trim_chars};

verus! {

pub struct ListParams {
    pub folder_id: Option<String>,
}

pub struct CreateFolderRequest {
    pub name: String,
    pub parent_id: Option<String>,
}

pub struct EmptyTrashResponse {
    pub message: String,
    pub success: bool,
}

pub const MSG_TRASH_EMPTIED: &'static str = "휴지통을 성공적으로 비웠습니다.";

impl EmptyTrashResponse {
    /// The answer to emptying the trash.
    pub fn emptied() -> (r: Self)
        ensures
            r.message@ == MSG_TRASH_EMPTIED@,
            r.success,
    {
        EmptyTrashResponse { message: String::from_str(MSG_TRASH_EMPTIED), success: true }
    }
}

pub struct RegisterRequest {
    pub username: String,
    pub password: String,
}

pub struct LoginRequest {
    pub username: String,
    pub password: String,
}

pub struct StreamParams {
    /// Serve for viewing in the browser rather than as an attachment.
    pub inline: bool,
}

pub struct CreateAppPasswordRequest {
    pub label: Option<String>,
}

pub struct CreateCrewRequest {
    pub parent_crew_id: String,
    pub name: String,
    pub visibility: Option<String>,
    pub max_sub_crew_depth: Option<i32>,
}

pub struct UpdateCrewSettingsRequest {
    pub max_sub_crew_depth: Option<i32>,
    pub visibility: Option<String>,
}

pub struct InviteCrewMemberRequest {
    pub target_user_id: Option<i64>,
    pub username: Option<String>,
    pub role: Option<u8>,
}

/// Who an invitation names: a user name, or a user id.
pub enum Invitee {
    ByName(String),
    ById(i64),
}

/// A user name that is there and not blank.
pub open spec fn names_user(u: Option<String>) -> bool {
    u matches Some(x) && trim(x@).len() > 0
}

pub const MSG_NO_INVITEE: &'static str = "초대할 사용자(아이디 또는 user_id)를 지정해주세요.";

impl InviteCrewMemberRequest {
    /// The role asked for: the requested code when it names a role, Member otherwise.
    pub fn invited_role(&self) -> (r: Role)
        ensures
            r == match self.role {
                Some(c) => match role_from_code(c) {
                    Some(x) => x,
                    None => Role::Member,
                },
                None => Role::Member,
            },
    {
        match self.role {
            Some(c) => match Role::from_u8(c) {
                Some(x) => x,
                None => Role::Member,
            },
            None => Role::Member,
        }
    }

    /// A user name that is not blank wins over a user id; one of them is needed.
    pub fn invitee(&self) -> (r: Result<Invitee, NasError>)
        ensures
            names_user(self.username) ==> (r matches Ok(Invitee::ByName(n)) && Some(n@) == crate::models::opt_view(
                self.username,
            )),
            !names_user(self.username) ==> match self.target_user_id {
                Some(id) => r matches Ok(Invitee::ById(x)) && x == id,
                None => r matches Err(e) && e@ == ErrView::BadRequest(MSG_NO_INVITEE@),
            },
    {
        if let Some(u) = &self.username {
            let c = str_chars(u.as_str());
            let t = trim_chars(&c);
            if t.len() > 0 {
                return Ok(Invitee::ByName(u.clone()));
            }
        }
        match self.target_user_id {
            Some(id) => Ok(Invitee::ById(id)),
            None => Err(NasError::BadRequest(String::from_str(MSG_NO_INVITEE))),
        }
    }
}

pub struct ApproveMemberRequest {
    pub target_user_id: i64,
}

/// A rename of a file; the folder changes only when `update_folder_id` is set (then `None`
/// moves it to the top).
pub struct RenameFileRequest {
    pub name: Option<String>,
    pub folder_id: Option<String>,
    pub update_folder_id: bool,
}

/// A rename of a folder; the parent changes only when `update_parent_id` is set.
pub struct RenameFolderRequest {
    pub name: Option<String>,
    pub parent_id: Option<String>,
    pub update_parent_id: bool,
}

/// The new location a rename asks for: none when the location is not to change, else the
/// given one.
pub fn requested_location(update: bool, location: &Option<String>) -> (r: Option<Option<String>>)
    ensures
        !update ==> r is None,
        update ==> (r matches Some(l) && crate::models::opt_view(l) == crate::models::opt_view(*location)),
{
    if update {
        Some(crate::models::clone_opt(location))
    } else {
        None
    }
}

pub struct SearchParams {
    pub q: String,
}

pub struct TrashItemRequest {
    pub id: String,
    pub is_dir: bool,
    pub folder_id: Option<String>,
}

pub struct ChangePasswordRequest {
    pub current_password: String,
    pub new_password: String,
}

pub struct BanMemberRequest {
    pub target_user_id: i64,
}

pub struct AuditLogQuery {
    pub limit: i32,
}

impl AuditLogQuery {
    /// The query when no limit is given.
    pub fn with_default_limit() -> (r: Self)
        ensures
            r.limit == 100,
    {
        AuditLogQuery { limit: crate::web::default_audit_limit() }
    }
}

/// The greeting endpoint.
pub struct FirstSt;

impl FirstSt {
    /// The greeting's message.
    pub fn hello() -> (r: String)
        ensures
            r@ == "hello"@,
    {
        GreetingService::say_hello().message
    }
}

} // verus!
