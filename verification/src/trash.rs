//! The trash: which items a trash view may restore or purge, and when a restore is possible.
use vstd::prelude::*;
use vstd::string::*;
use crate::errors::{ErrView, NasError};
use crate::models::{opt_view, FolderMetadata, ObjectMetadata};
use crate::text::str_eq;

verus! {

pub const MSG_NOT_IN_THIS_TRASH: &'static str = "이 위치의 휴지통 항목이 아닙니다.";

pub const MSG_CREW_ROOT_FORBIDDEN: &'static str = "Crew 루트 폴더에는 이 작업을 할 수 없습니다.";

pub const MSG_NOT_IN_TRASH: &'static str = "휴지통에 없는 항목입니다.";

pub const MSG_PARENT_DELETED: &'static str = "상위 폴더가 삭제되어 있어 복구할 수 없습니다. 상위 폴더를 먼저 복구하세요.";

pub const MSG_FOLDER_OF_FILE_DELETED: &'static str = "파일이 속한 폴더가 삭제되어 있어 복구할 수 없습니다.";

/// What a purge removes for good.
pub enum TrashPurgeTarget {
    /// Everything in the trash of a crew (or of the top level).
    CrewScope(Option<String>),
    /// One deleted file.
    File(String),
    /// A deleted folder and everything under it.
    FolderTree(String),
}

/// The same crew, or both outside any crew.
pub fn crew_scope_matches(expected: &Option<String>, actual: &Option<String>) -> (r: bool)
    ensures
        r == (opt_view(*expected) == opt_view(*actual)),
{
    match (expected, actual) {
        (Some(a), Some(b)) => str_eq(a.as_str(), b.as_str()),
        (None, None) => true,
        _ => false,
    }
}

/// A trash view acts only on items of its own crew.
pub fn trash_scope_check(scope_crew: &Option<String>, item_crew: &Option<String>) -> (r: Result<(), NasError>)
    ensures
        opt_view(*scope_crew) == opt_view(*item_crew) ==> r is Ok,
        opt_view(*scope_crew) != opt_view(*item_crew) ==> (r matches Err(e) && e@ == ErrView::Forbidden(
            MSG_NOT_IN_THIS_TRASH@,
        )),
{
    if crew_scope_matches(scope_crew, item_crew) {
        Ok(())
    } else {
        Err(NasError::Forbidden(String::from_str(MSG_NOT_IN_THIS_TRASH)))
    }
}

/// A folder acted on in the trash must exist and not be a crew's root.
pub fn trash_folder_check(folder: &Option<FolderMetadata>) -> (r: Result<(), NasError>)
    ensures
        folder is None ==> (r matches Err(e) && e@ == ErrView::DataNotFound),
        folder matches Some(f) && f.parent_id is None && f.crew_id is Some ==> (r matches Err(e) && e@
            == ErrView::Forbidden(MSG_CREW_ROOT_FORBIDDEN@)),
        folder matches Some(f) && !(f.parent_id is None && f.crew_id is Some) ==> r is Ok,
{
    match folder {
        None => Err(NasError::DataNotFound),
        Some(f) => {
            if f.is_crew_root() {
                Err(NasError::Forbidden(String::from_str(MSG_CREW_ROOT_FORBIDDEN)))
            } else {
                Ok(())
            }
        },
    }
}

/// A file acted on in the trash must exist and be deleted.
pub fn trash_file_check(file: &Option<ObjectMetadata>) -> (r: Result<(), NasError>)
    ensures
        file is None ==> (r matches Err(e) && e@ == ErrView::DataNotFound),
        file matches Some(f) && !f.is_deleted ==> (r matches Err(e) && e@ == ErrView::BadRequest(
            MSG_NOT_IN_TRASH@,
        )),
        file matches Some(f) && f.is_deleted ==> r is Ok,
{
    match file {
        None => Err(NasError::DataNotFound),
        Some(f) => {
            if !f.is_deleted {
                Err(NasError::BadRequest(String::from_str(MSG_NOT_IN_TRASH)))
            } else {
                Ok(())
            }
        },
    }
}

/// Restoring needs the item itself; then the folder it goes back into, if any, must not be
/// deleted. The result is that folder's id, to be looked up among live folders.
pub fn restore_container(folder: &Option<FolderMetadata>, file: &Option<ObjectMetadata>, is_dir: bool) -> (r: Result<Option<String>, NasError>)
    ensures
        is_dir ==> match folder {
            None => r matches Err(e) && e@ == ErrView::DataNotFound,
            Some(f) => r matches Ok(p) && opt_view(p) == opt_view(f.parent_id),
        },
        !is_dir ==> match file {
            None => r matches Err(e) && e@ == ErrView::DataNotFound,
            Some(f) => r matches Ok(p) && opt_view(p) == opt_view(f.folder_id),
        },
{
    if is_dir {
        match folder {
            None => Err(NasError::DataNotFound),
            Some(f) => Ok(crate::models::clone_opt(&f.parent_id)),
        }
    } else {
        match file {
            None => Err(NasError::DataNotFound),
            Some(f) => Ok(crate::models::clone_opt(&f.folder_id)),
        }
    }
}

/// The folder an item goes back into must be live.
pub fn restore_container_check(container_live: bool, is_dir: bool) -> (r: Result<(), NasError>)
    ensures
        container_live ==> r is Ok,
        !container_live ==> (r matches Err(e) && e@ == ErrView::BadRequest(
            if is_dir {
                MSG_PARENT_DELETED@
            } else {
                MSG_FOLDER_OF_FILE_DELETED@
            },
        )),
{
    if container_live {
        Ok(())
    } else if is_dir {
        Err(NasError::BadRequest(String::from_str(MSG_PARENT_DELETED)))
    } else {
        Err(NasError::BadRequest(String::from_str(MSG_FOLDER_OF_FILE_DELETED)))
    }
}

/// What purging one trash item removes: a folder with its tree, or a file.
pub fn purge_target(id: &str, is_dir: bool) -> (r: TrashPurgeTarget)
    ensures
        is_dir ==> (r matches TrashPurgeTarget::FolderTree(x) && x@ == id@),
        !is_dir ==> (r matches TrashPurgeTarget::File(x) && x@ == id@),
{
    if is_dir {
        TrashPurgeTarget::FolderTree(String::from_str(id))
    } else {
        TrashPurgeTarget::File(String::from_str(id))
    }
}

} // verus!
