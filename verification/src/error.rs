//! Unified error type.

use vstd::prelude::*;

verus! {

/// Error codes used across the FFI boundary; each has a stable integer,
/// given by [`ErrorCode::as_i32`].
#[derive(Debug, Clone, Copy, PartialEq, Eq, Structural)]
pub enum ErrorCode {
    Unknown,
    NotFound,
    AlreadyExists,
    InvalidConfig,
    Workspace,
    WorkDir,
    Permission,
    Llm,
    Skill,
    Io,
    SessionStopped,
    FastMind,
    Json,
}

/// The stable integer of each error code.
pub open spec fn code_number(c: ErrorCode) -> i32 {
    match c {
        ErrorCode::Unknown => 1,
        ErrorCode::NotFound => 2,
        ErrorCode::AlreadyExists => 3,
        ErrorCode::InvalidConfig => 4,
        ErrorCode::Workspace => 5,
        ErrorCode::WorkDir => 6,
        ErrorCode::Permission => 7,
        ErrorCode::Llm => 8,
        ErrorCode::Skill => 9,
        ErrorCode::Io => 10,
        ErrorCode::SessionStopped => 11,
        ErrorCode::FastMind => 12,
        ErrorCode::Json => 13,
    }
}

impl ErrorCode {
    /// The stable integer of this code (1 for `Unknown` up to 13 for `Json`).
    pub fn as_i32(self) -> (r: i32)
        ensures
            r == code_number(self),
    {
        match self {
            ErrorCode::Unknown => 1,
            ErrorCode::NotFound => 2,
            ErrorCode::AlreadyExists => 3,
            ErrorCode::InvalidConfig => 4,
            ErrorCode::Workspace => 5,
            ErrorCode::WorkDir => 6,
            ErrorCode::Permission => 7,
            ErrorCode::Llm => 8,
            ErrorCode::Skill => 9,
            ErrorCode::Io => 10,
            ErrorCode::SessionStopped => 11,
            ErrorCode::FastMind => 12,
            ErrorCode::Json => 13,
        }
    }
}

/// The crate-wide error type. Every variant carries its human-readable
/// message; for I/O, JSON and graph-engine failures that is the message of
/// the underlying error.
#[derive(Debug, Clone)]
pub enum Error {
    NotFound(String),
    AlreadyExists(String),
    InvalidConfig(String),
    Workspace(String),
    WorkDir(String),
    Permission(String),
    Llm(String),
    Skill(String),
    Io(String),
    SessionStopped(String),
    FastMind(String),
    Json(String),
}

/// The code of each error variant.
pub open spec fn code_of(e: Error) -> ErrorCode {
    match e {
        Error::NotFound(_) => ErrorCode::NotFound,
        Error::AlreadyExists(_) => ErrorCode::AlreadyExists,
        Error::InvalidConfig(_) => ErrorCode::InvalidConfig,
        Error::Workspace(_) => ErrorCode::Workspace,
        Error::WorkDir(_) => ErrorCode::WorkDir,
        Error::Permission(_) => ErrorCode::Permission,
        Error::Llm(_) => ErrorCode::Llm,
        Error::Skill(_) => ErrorCode::Skill,
        Error::Io(_) => ErrorCode::Io,
        Error::SessionStopped(_) => ErrorCode::SessionStopped,
        Error::FastMind(_) => ErrorCode::FastMind,
        Error::Json(_) => ErrorCode::Json,
    }
}

/// The message each error variant carries.
pub open spec fn message_of(e: Error) -> Seq<char> {
    match e {
        Error::NotFound(m) => m@,
        Error::AlreadyExists(m) => m@,
        Error::InvalidConfig(m) => m@,
        Error::Workspace(m) => m@,
        Error::WorkDir(m) => m@,
        Error::Permission(m) => m@,
        Error::Llm(m) => m@,
        Error::Skill(m) => m@,
        Error::Io(m) => m@,
        Error::SessionStopped(m) => m@,
        Error::FastMind(m) => m@,
        Error::Json(m) => m@,
    }
}

impl Error {
    /// Stable code for FFI / error-string mapping.
    pub fn code(&self) -> (r: ErrorCode)
        ensures
            r == code_of(*self),
    {
        match self {
            Error::NotFound(_) => ErrorCode::NotFound,
            Error::AlreadyExists(_) => ErrorCode::AlreadyExists,
            Error::InvalidConfig(_) => ErrorCode::InvalidConfig,
            Error::Workspace(_) => ErrorCode::Workspace,
            Error::WorkDir(_) => ErrorCode::WorkDir,
            Error::Permission(_) => ErrorCode::Permission,
            Error::Llm(_) => ErrorCode::Llm,
            Error::Skill(_) => ErrorCode::Skill,
            Error::Io(_) => ErrorCode::Io,
            Error::SessionStopped(_) => ErrorCode::SessionStopped,
            Error::FastMind(_) => ErrorCode::FastMind,
            Error::Json(_) => ErrorCode::Json,
        }
    }

    /// The human-readable message (what the error displays as).
    pub fn message(&self) -> (r: String)
        ensures
            r@ == message_of(*self),
    {
        match self {
            Error::NotFound(m) => m.clone(),
            Error::AlreadyExists(m) => m.clone(),
            Error::InvalidConfig(m) => m.clone(),
            Error::Workspace(m) => m.clone(),
            Error::WorkDir(m) => m.clone(),
            Error::Permission(m) => m.clone(),
            Error::Llm(m) => m.clone(),
            Error::Skill(m) => m.clone(),
            Error::Io(m) => m.clone(),
            Error::SessionStopped(m) => m.clone(),
            Error::FastMind(m) => m.clone(),
            Error::Json(m) => m.clone(),
        }
    }
}

/// Error codes are distinct across the FFI boundary: two codes share an
/// integer only when they are the same code, and every integer lies in
/// `1..=13`.
pub proof fn law_error_codes_distinct(a: ErrorCode, b: ErrorCode)
    ensures
        code_number(a) == code_number(b) <==> a == b,
        1 <= code_number(a) <= 13,
{
}

/// Every error maps to a code other than `Unknown`.
pub proof fn law_error_code_known(e: Error)
    ensures
        code_of(e) != ErrorCode::Unknown,
{
}

} // verus!
