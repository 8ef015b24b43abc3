//! Error types of the library. Outside error values (I/O, database) are carried as their text.
use vstd::prelude::*;
use vstd::string::*;

verus! {

#[derive(Debug)]
pub enum StorageError {
    NotFound,
    PermissionDenied,
    Io(String),
    Network(String),
}

#[derive(Debug)]
pub enum RepoError {
    NotFound,
    PermissionDenied,
    Io(String),
    Sqlx(String),
}

#[derive(Debug)]
pub enum NasError {
    Storage(StorageError),
    Repo(RepoError),
    DataNotFound,
    Io(String),
    BadRequest(String),
    Forbidden(String),
    Sqlx(String),
    Zip(String),
    Internal(String),
}

/// The mathematical content of an error: its variant and message.
pub enum ErrView {
    StorageNotFound,
    StoragePermissionDenied,
    StorageIo(Seq<char>),
    StorageNetwork(Seq<char>),
    RepoNotFound,
    RepoPermissionDenied,
    RepoIo(Seq<char>),
    RepoSqlx(Seq<char>),
    DataNotFound,
    Io(Seq<char>),
    BadRequest(Seq<char>),
    Forbidden(Seq<char>),
    Sqlx(Seq<char>),
    Zip(Seq<char>),
    Internal(Seq<char>),
}

impl View for NasError {
    type V = ErrView;

    open spec fn view(&self) -> ErrView {
        match self {
            NasError::Storage(StorageError::NotFound) => ErrView::StorageNotFound,
            NasError::Storage(StorageError::PermissionDenied) => ErrView::StoragePermissionDenied,
            NasError::Storage(StorageError::Io(m)) => ErrView::StorageIo(m@),
            NasError::Storage(StorageError::Network(m)) => ErrView::StorageNetwork(m@),
            NasError::Repo(RepoError::NotFound) => ErrView::RepoNotFound,
            NasError::Repo(RepoError::PermissionDenied) => ErrView::RepoPermissionDenied,
            NasError::Repo(RepoError::Io(m)) => ErrView::RepoIo(m@),
            NasError::Repo(RepoError::Sqlx(m)) => ErrView::RepoSqlx(m@),
            NasError::DataNotFound => ErrView::DataNotFound,
            NasError::Io(m) => ErrView::Io(m@),
            NasError::BadRequest(m) => ErrView::BadRequest(m@),
            NasError::Forbidden(m) => ErrView::Forbidden(m@),
            NasError::Sqlx(m) => ErrView::Sqlx(m@),
            NasError::Zip(m) => ErrView::Zip(m@),
            NasError::Internal(m) => ErrView::Internal(m@),
        }
    }
}

/// The view of a result whose success value carries no text.
pub open spec fn res_view<T>(r: Result<T, NasError>) -> Result<T, ErrView> {
    match r {
        Ok(v) => Ok(v),
        Err(e) => Err(e@),
    }
}

pub fn bad_request(msg: &str) -> (e: NasError)
    ensures
        e@ == ErrView::BadRequest(msg@),
{
    NasError::BadRequest(String::from_str(msg))
}

pub fn forbidden(msg: &str) -> (e: NasError)
    ensures
        e@ == ErrView::Forbidden(msg@),
{
    NasError::Forbidden(String::from_str(msg))
}

pub fn internal(msg: &str) -> (e: NasError)
    ensures
        e@ == ErrView::Internal(msg@),
{
    NasError::Internal(String::from_str(msg))
}

/// HTTP status and client message that an error is answered with.
pub open spec fn error_response_spec(e: ErrView) -> (u16, Seq<char>) {
    match e {
        ErrView::DataNotFound => (404, MSG_RESOURCE_NOT_FOUND@),
        ErrView::BadRequest(m) => (400, m),
        ErrView::Forbidden(m) => (403, m),
        ErrView::StorageNotFound | ErrView::RepoNotFound => (404, MSG_ENTRY_NOT_FOUND@),
        ErrView::StoragePermissionDenied | ErrView::RepoPermissionDenied => (403, MSG_NO_ACCESS@),
        _ => (500, MSG_SERVER_ERROR@),
    }
}

pub const MSG_RESOURCE_NOT_FOUND: &'static str = "요청한 리소스를 찾을 수 없습니다.";
pub const MSG_ENTRY_NOT_FOUND: &'static str = "파일 또는 폴더가 존재하지 않습니다.";
pub const MSG_NO_ACCESS: &'static str = "접근 권한이 없습니다.";
pub const MSG_SERVER_ERROR: &'static str = "서버 내부 오류가 발생했습니다.";

/// Status code and message of the JSON error body for an API error.
pub fn error_response(e: &NasError) -> (r: (u16, String))
    ensures
        (r.0, r.1@) == error_response_spec(e@),
{
    match e {
        NasError::DataNotFound => (404, String::from_str(MSG_RESOURCE_NOT_FOUND)),
        NasError::BadRequest(m) => (400, m.clone()),
        NasError::Forbidden(m) => (403, m.clone()),
        NasError::Storage(StorageError::NotFound) | NasError::Repo(RepoError::NotFound) => (
            404,
            String::from_str(MSG_ENTRY_NOT_FOUND),
        ),
        NasError::Storage(StorageError::PermissionDenied) | NasError::Repo(
            RepoError::PermissionDenied,
        ) => (403, String::from_str(MSG_NO_ACCESS)),
        _ => (500, String::from_str(MSG_SERVER_ERROR)),
    }
}

} // verus!
