//! Domain models: files, folders, crews, memberships and their roles.
use vstd::prelude::*;
use vstd::string::*;

verus! {

pub const GLOBAL_ROOT_CREW_ID: &'static str = "global-root-uuid";

pub const DEFAULT_MAX_SUB_CREW_DEPTH: i32 = 3;

#[derive(Debug, Clone)]
pub struct AuditLogEntry {
    pub id: i64,
    pub user_id: Option<i64>,
    pub username: Option<String>,
    pub action: String,
    pub target_type: Option<String>,
    pub target_id: Option<String>,
    pub detail: Option<String>,
    pub ip_address: Option<String>,
    pub created_at: String,
}

#[derive(Debug, Clone)]
pub struct FolderMetadata {
    pub id: String,
    pub parent_id: Option<String>,
    pub crew_id: Option<String>,
    pub name: String,
    pub created_at: String,
    pub updated_at: String,
}

impl FolderMetadata {
    /// A crew's root folder: it has no parent and belongs to a crew.
    pub fn is_crew_root(&self) -> (r: bool)
        ensures
            r == (self.parent_id is None && self.crew_id is Some),
    {
        self.parent_id.is_none() && self.crew_id.is_some()
    }
}

#[derive(Debug, Clone, Default)]
pub struct ObjectMetadata {
    pub id: String,
    pub folder_id: Option<String>,
    pub name: String,
    pub size: u64,
    pub file_type: Option<String>,
    pub checksum: Option<String>,
    pub version: i32,
    pub is_deleted: bool,
    pub created_at: String,
    pub updated_at: String,
}

#[derive(Debug)]
pub struct ListItem {
    pub id: String,
    pub name: String,
    pub is_dir: bool,
    pub size: u64,
    pub created_at: String,
    pub file_type: Option<String>,
    pub has_children: Option<bool>,
    pub preview_url: Option<String>,
    /// Folder path shown with search results (`Crew / folder / sub`).
    pub path: Option<String>,
}

/// The view of an optional string.
pub open spec fn opt_view(o: Option<String>) -> Option<Seq<char>> {
    match o {
        Some(s) => Some(s@),
        None => None,
    }
}

pub fn clone_opt(o: &Option<String>) -> (r: Option<String>)
    ensures
        opt_view(r) == opt_view(*o),
{
    match o {
        Some(s) => Some(s.clone()),
        None => None,
    }
}

impl ListItem {
    pub fn from_folder(folder: &FolderMetadata) -> (r: Self)
        ensures
            r.id@ == folder.id@,
            r.name@ == folder.name@,
            r.is_dir,
            r.size == 0,
            r.created_at@ == folder.created_at@,
            r.file_type is None,
            r.has_children is None,
            r.preview_url is None,
            r.path is None,
    {
        ListItem {
            id: folder.id.clone(),
            name: folder.name.clone(),
            is_dir: true,
            size: 0,
            created_at: folder.created_at.clone(),
            file_type: None,
            has_children: None,
            preview_url: None,
            path: None,
        }
    }

    pub fn from_file(file: &ObjectMetadata) -> (r: Self)
        ensures
            r.id@ == file.id@,
            r.name@ == file.name@,
            !r.is_dir,
            r.size == file.size,
            r.created_at@ == file.created_at@,
            opt_view(r.file_type) == opt_view(file.file_type),
            r.has_children is None,
            r.preview_url is None,
            r.path is None,
    {
        ListItem {
            id: file.id.clone(),
            name: file.name.clone(),
            is_dir: false,
            size: file.size,
            created_at: file.created_at.clone(),
            file_type: clone_opt(&file.file_type),
            has_children: None,
            preview_url: None,
            path: None,
        }
    }

    pub fn from_file_with_path(file: &ObjectMetadata, path: Option<String>) -> (r: Self)
        ensures
            r.id@ == file.id@,
            r.name@ == file.name@,
            !r.is_dir,
            r.size == file.size,
            r.created_at@ == file.created_at@,
            opt_view(r.file_type) == opt_view(file.file_type),
            r.has_children is None,
            r.preview_url is None,
            opt_view(r.path) == opt_view(path),
    {
        ListItem {
            id: file.id.clone(),
            name: file.name.clone(),
            is_dir: false,
            size: file.size,
            created_at: file.created_at.clone(),
            file_type: clone_opt(&file.file_type),
            has_children: None,
            preview_url: None,
            path,
        }
    }
}

#[derive(Debug)]
pub struct SessionInfo {
    pub label: Option<String>,
    pub created_at: String,
    pub expires_at: String,
    pub is_current: bool,
}

#[derive(Debug)]
pub struct SubtitleTrackInfo {
    pub id: String,
    pub name: String,
    pub label: String,
    /// WebVTT URL (relative) for a browser `<track>`.
    pub vtt_url: String,
}

/// A member's role in a crew; stored as 0..=3.
#[derive(Debug, Clone, Copy, PartialEq, Eq, Structural)]
pub enum Role {
    Owner,
    Manager,
    Member,
    Guest,
}

pub open spec fn role_code(r: Role) -> u8 {
    match r {
        Role::Owner => 0,
        Role::Manager => 1,
        Role::Member => 2,
        Role::Guest => 3,
    }
}

pub open spec fn role_from_code(v: u8) -> Option<Role> {
    if v == 0 {
        Some(Role::Owner)
    } else if v == 1 {
        Some(Role::Manager)
    } else if v == 2 {
        Some(Role::Member)
    } else if v == 3 {
        Some(Role::Guest)
    } else {
        None
    }
}

impl Role {
    pub fn from_u8(v: u8) -> (r: Option<Self>)
        ensures
            r == role_from_code(v),
    {
        match v {
            0 => Some(Role::Owner),
            1 => Some(Role::Manager),
            2 => Some(Role::Member),
            3 => Some(Role::Guest),
            _ => None,
        }
    }

    /// The stored code of the role (`role as u8`).
    pub fn as_u8(self) -> (r: u8)
        ensures
            r == role_code(self),
    {
        match self {
            Role::Owner => 0,
            Role::Manager => 1,
            Role::Member => 2,
            Role::Guest => 3,
        }
    }

    pub fn can_write(self) -> (r: bool)
        ensures
            r == (self == Role::Owner || self == Role::Manager),
    {
        matches!(self, Role::Owner | Role::Manager)
    }

    pub fn can_read(self) -> (r: bool)
        ensures
            r == (self == Role::Owner || self == Role::Manager || self == Role::Member),
    {
        matches!(self, Role::Owner | Role::Manager | Role::Member)
    }

    pub fn can_manage_members(self) -> (r: bool)
        ensures
            r == (self == Role::Owner || self == Role::Manager),
    {
        matches!(self, Role::Owner | Role::Manager)
    }

    pub fn can_manage_crew_settings(self) -> (r: bool)
        ensures
            r == (self == Role::Owner),
    {
        matches!(self, Role::Owner)
    }

    pub fn can_create_sub_crew(self) -> (r: bool)
        ensures
            r == (self == Role::Owner || self == Role::Manager),
    {
        matches!(self, Role::Owner | Role::Manager)
    }
}

/// A membership's status; stored as 0..=3.
#[derive(Debug, Clone, Copy, PartialEq, Eq, Structural)]
pub enum Status {
    Pending,
    Active,
    Invited,
    Banned,
}

pub open spec fn status_code(s: Status) -> u8 {
    match s {
        Status::Pending => 0,
        Status::Active => 1,
        Status::Invited => 2,
        Status::Banned => 3,
    }
}

pub open spec fn status_from_code(v: u8) -> Option<Status> {
    if v == 0 {
        Some(Status::Pending)
    } else if v == 1 {
        Some(Status::Active)
    } else if v == 2 {
        Some(Status::Invited)
    } else if v == 3 {
        Some(Status::Banned)
    } else {
        None
    }
}

impl Status {
    pub fn from_u8(v: u8) -> (r: Option<Self>)
        ensures
            r == status_from_code(v),
    {
        match v {
            0 => Some(Status::Pending),
            1 => Some(Status::Active),
            2 => Some(Status::Invited),
            3 => Some(Status::Banned),
            _ => None,
        }
    }

    /// The stored code of the status (`status as u8`).
    pub fn as_u8(self) -> (r: u8)
        ensures
            r == status_code(self),
    {
        match self {
            Status::Pending => 0,
            Status::Active => 1,
            Status::Invited => 2,
            Status::Banned => 3,
        }
    }

    pub fn is_active(self) -> (r: bool)
        ensures
            r == (self == Status::Active),
    {
        self == Status::Active
    }
}

/// Public: non-members may see the crew and its top folder's metadata.
/// Private: only members know the crew exists.
#[derive(Debug, Clone, Copy, PartialEq, Eq, Structural)]
pub enum CrewVisibility {
    Public,
    Private,
}

pub open spec fn visibility_code(v: CrewVisibility) -> i32 {
    match v {
        CrewVisibility::Public => 0,
        CrewVisibility::Private => 1,
    }
}

impl CrewVisibility {
    pub fn from_i32(v: i32) -> (r: Self)
        ensures
            r == (if v == 1 { CrewVisibility::Private } else { CrewVisibility::Public }),
    {
        match v {
            1 => CrewVisibility::Private,
            _ => CrewVisibility::Public,
        }
    }

    pub fn as_i32(self) -> (r: i32)
        ensures
            r == visibility_code(self),
    {
        match self {
            CrewVisibility::Public => 0,
            CrewVisibility::Private => 1,
        }
    }
}

#[derive(Debug, Clone)]
pub struct User {
    pub id: i64,
    pub username: String,
    pub password_hash: String,
    pub created_at: String,
}

#[derive(Debug, Clone)]
pub struct Crew {
    pub id: String,
    pub name: String,
    pub parent_id: Option<String>,
    pub depth: i32,
    pub visibility: CrewVisibility,
    pub max_sub_crew_depth: i32,
    pub root_folder_id: Option<String>,
    pub created_at: String,
}

#[derive(Debug, Clone)]
pub struct CrewMembership {
    pub user_id: i64,
    pub crew_id: String,
    pub role: u8,
    pub status: u8,
}

/// App password metadata (the plain token is shown once, when issued).
#[derive(Debug)]
pub struct AppPasswordInfo {
    pub id: String,
    pub label: Option<String>,
    pub created_at: String,
    pub last_used_at: Option<String>,
}

#[derive(Debug)]
pub struct WebDavMountInfo {
    pub crew_id: String,
    pub crew_name: String,
    pub mount_path: String,
}

/// Member management view; role and status are the stored codes.
#[derive(Debug)]
pub struct CrewMemberView {
    pub user_id: i64,
    pub username: String,
    pub role: u8,
    pub status: u8,
}

/// A crew the current user manages (Owner/Manager); `my_role` is that user's role code.
#[derive(Debug)]
pub struct ManageableCrew {
    pub id: String,
    pub name: String,
    pub visibility: CrewVisibility,
    pub root_folder_id: Option<String>,
    pub max_sub_crew_depth: i32,
    pub my_role: u8,
}

/// A crew the user may delete (direct Owner, or Owner of an ancestor crew).
#[derive(Debug)]
pub struct DeletableCrew {
    pub id: String,
    pub name: String,
    pub visibility: CrewVisibility,
    pub parent_id: Option<String>,
    /// True when the user owns this crew itself, false when only an ancestor.
    pub is_direct_owner: bool,
}

/// A crew listed on the home screen next to files and folders.
#[derive(Debug)]
pub struct CrewListEntry {
    pub id: String,
    pub name: String,
    pub visibility: CrewVisibility,
    pub root_folder_id: Option<String>,
    /// Whether the current user is an active member (false when signed out).
    pub is_member: bool,
}

#[derive(Debug)]
pub struct CrewGuestView {
    pub id: String,
    pub name: String,
    pub visibility: CrewVisibility,
    pub root_folder_id: Option<String>,
    pub root_folder_name: Option<String>,
}

pub struct Greeting {
    pub message: String,
}

pub struct GreetingService;

impl GreetingService {
    pub fn say_hello() -> (r: Greeting)
        ensures
            r.message@ == "hello"@,
    {
        Greeting { message: String::from_str("hello") }
    }
}

// ------------------------------------------------------------------
// laws of the stored codes and of the role hierarchy

/// Every role's stored code reads back as that role, and only codes 0..=3 name a role.
pub proof fn lemma_role_code_roundtrip(r: Role, v: u8)
    ensures
        role_from_code(role_code(r)) == Some(r),
        role_from_code(v) is Some <==> v < 4,
        role_from_code(v) matches Some(x) ==> role_code(x) == v,
{
}

/// Every status's stored code reads back as that status, and only codes 0..=3 name a status.
pub proof fn lemma_status_code_roundtrip(s: Status, v: u8)
    ensures
        status_from_code(status_code(s)) == Some(s),
        status_from_code(v) is Some <==> v < 4,
        status_from_code(v) matches Some(x) ==> status_code(x) == v,
{
}

/// A visibility's stored code reads back as that visibility.
pub proof fn lemma_visibility_roundtrip(v: CrewVisibility)
    ensures
        (if visibility_code(v) == 1 { CrewVisibility::Private } else { CrewVisibility::Public }) == v,
{
}

pub open spec fn role_can_write(r: Role) -> bool {
    r == Role::Owner || r == Role::Manager
}

pub open spec fn role_can_read(r: Role) -> bool {
    r == Role::Owner || r == Role::Manager || r == Role::Member
}

/// Roles form a hierarchy: whoever may write may read; whoever may change settings may
/// manage members; a guest may neither read nor write.
pub proof fn lemma_role_hierarchy(r: Role)
    ensures
        role_can_write(r) ==> role_can_read(r),
        r == Role::Owner ==> role_can_write(r),
        !role_can_read(Role::Guest),
        !role_can_write(Role::Member),
{
}

} // verus!
