//! Crew-based small team NAS: the verified core of access control,
//! subtitle conversion, request parsing and naming rules.
pub mod text;
pub mod errors;
pub mod models;
pub mod access;
pub mod ids;
pub mod crew;
pub mod crew_views;
pub mod crypto;
pub mod rate_limit;
pub mod bytes;
pub mod keyed;
pub mod subtitle;
pub mod smi;
pub mod stream;
pub mod webdav_auth;
pub mod webdav_vfs;
pub mod webdav_fs;
pub mod storage;
pub mod proxy;
pub mod requests;
pub mod web;
pub mod files;
pub mod auth;
pub mod trash;
