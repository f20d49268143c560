//! Domain and repository failures, and the payload the console shows.

use vstd::prelude::*;

use crate::text::{concat2, owned};

verus! {

/// Domain/repository failure. The shell maps it to [`AppErrorDto`].
#[derive(Debug)]
pub enum AppError {
    NotFound,
    Busy,
    LastProfile,
    UnknownContentLanguage,
    MonitorMissing,
    Invariant(String),
    Io(String),
    Db(String),
    UnreadablePub,
    CatalogNotFound,
    Network(String),
    Cancelled,
    ClockNotArmed,
    ClockNotRunning,
}

/// Stable machine code of an error.
pub open spec fn code_of(e: AppError) -> Seq<char> {
    match e {
        AppError::NotFound => "NotFound"@,
        AppError::Busy => "Busy"@,
        AppError::LastProfile => "LastProfile"@,
        AppError::UnknownContentLanguage => "UnknownContentLanguage"@,
        AppError::MonitorMissing => "MonitorMissing"@,
        AppError::Invariant(_) => "Invariant"@,
        AppError::Io(_) => "Io"@,
        AppError::Db(_) => "Db"@,
        AppError::UnreadablePub => "UnreadablePub"@,
        AppError::CatalogNotFound => "CatalogNotFound"@,
        AppError::Network(_) => "Network"@,
        AppError::Cancelled => "Cancelled"@,
        AppError::ClockNotArmed => "ClockNotArmed"@,
        AppError::ClockNotRunning => "ClockNotRunning"@,
    }
}

/// Human-readable text of an error.
pub open spec fn message_of(e: AppError) -> Seq<char> {
    match e {
        AppError::NotFound => "not found"@,
        AppError::Busy => "busy"@,
        AppError::LastProfile => "cannot delete the last profile"@,
        AppError::UnknownContentLanguage => "unknown content language"@,
        AppError::MonitorMissing => "monitor missing"@,
        AppError::Invariant(m) => "invariant: "@ + m@,
        AppError::Io(m) => "io: "@ + m@,
        AppError::Db(m) => "db: "@ + m@,
        AppError::UnreadablePub => "unreadable publication"@,
        AppError::CatalogNotFound => "catalog entry not found"@,
        AppError::Network(m) => "network: "@ + m@,
        AppError::Cancelled => "cancelled"@,
        AppError::ClockNotArmed => "clock is not armed"@,
        AppError::ClockNotRunning => "clock is not running"@,
    }
}

/// An `Invariant` error whose text is `m`.
pub open spec fn is_invariant(e: AppError) -> bool {
    e is Invariant
}

impl AppError {
    /// Builds an `Invariant` error from a message.
    pub fn rule(m: &str) -> (e: AppError)
        ensures
            e is Invariant,
            e->Invariant_0@ == m@,
    {
        AppError::Invariant(owned(m))
    }

    /// Stable machine code for logs and the console toast. Never includes user paths.
    pub fn code(&self) -> (c: &'static str)
        ensures
            c@ == code_of(*self),
    {
        match self {
            AppError::NotFound => "NotFound",
            AppError::Busy => "Busy",
            AppError::LastProfile => "LastProfile",
            AppError::UnknownContentLanguage => "UnknownContentLanguage",
            AppError::MonitorMissing => "MonitorMissing",
            AppError::Invariant(_) => "Invariant",
            AppError::Io(_) => "Io",
            AppError::Db(_) => "Db",
            AppError::UnreadablePub => "UnreadablePub",
            AppError::CatalogNotFound => "CatalogNotFound",
            AppError::Network(_) => "Network",
            AppError::Cancelled => "Cancelled",
            AppError::ClockNotArmed => "ClockNotArmed",
            AppError::ClockNotRunning => "ClockNotRunning",
        }
    }

    /// Human-readable text (what the error displays as).
    pub fn message(&self) -> (m: String)
        ensures
            m@ == message_of(*self),
    {
        match self {
            AppError::NotFound => owned("not found"),
            AppError::Busy => owned("busy"),
            AppError::LastProfile => owned("cannot delete the last profile"),
            AppError::UnknownContentLanguage => owned("unknown content language"),
            AppError::MonitorMissing => owned("monitor missing"),
            AppError::Invariant(m) => concat2("invariant: ", m.as_str()),
            AppError::Io(m) => concat2("io: ", m.as_str()),
            AppError::Db(m) => concat2("db: ", m.as_str()),
            AppError::UnreadablePub => owned("unreadable publication"),
            AppError::CatalogNotFound => owned("catalog entry not found"),
            AppError::Network(m) => concat2("network: ", m.as_str()),
            AppError::Cancelled => owned("cancelled"),
            AppError::ClockNotArmed => owned("clock is not armed"),
            AppError::ClockNotRunning => owned("clock is not running"),
        }
    }
}

/// IPC error payload. The console shows it; the audience surface is not closed.
#[derive(Debug, Clone)]
pub struct AppErrorDto {
    pub code: String,
    pub message: String,
    pub rev: u64,
}

impl AppErrorDto {
    /// Payload for an error: its code, its message, and revision 0.
    pub fn from(err: AppError) -> (d: AppErrorDto)
        ensures
            d.code@ == code_of(err),
            d.message@ == message_of(err),
            d.rev == 0,
    {
        let code = owned(err.code());
        let message = err.message();
        AppErrorDto { code, message, rev: 0 }
    }
}

} // verus!
