//! The failure taxonomy of the engine.
//!
//! Every operation that can fail reports one of these kinds; policy
//! failures (`ConfigMissing`, `PathEscape`, `ForbiddenHost`) are always
//! surfaced with their stable kind, never silently downgraded.

use vstd::prelude::*;

verus! {

#[derive(Clone, Copy, PartialEq, Eq, Structural, Debug)]
pub enum ErrorKind {
    /// Unknown session id.
    SessionNotFound,
    /// Tool name not present in the registry.
    UnknownTool,
    /// Required argument missing or malformed.
    BadArgs,
    /// Operation needs a `project_root` but none is set.
    ConfigMissing,
    /// Path resolves outside the project root.
    PathEscape,
    /// URL host not on the session allowlist.
    ForbiddenHost,
    /// Filesystem source does not exist.
    NotFound,
    /// Outbound fetch or model call failed.
    UpstreamFailure,
    /// Database I/O failed.
    StorageFailure,
}

impl ErrorKind {
    /// The HTTP status a transport adapter reports for this kind.
    pub fn http_status(&self) -> (r: u16)
        ensures
            r == match *self {
                ErrorKind::SessionNotFound => 404u16,
                ErrorKind::UnknownTool => 400u16,
                ErrorKind::BadArgs => 400u16,
                ErrorKind::ConfigMissing => 400u16,
                ErrorKind::PathEscape => 400u16,
                ErrorKind::ForbiddenHost => 403u16,
                ErrorKind::NotFound => 404u16,
                ErrorKind::UpstreamFailure => 502u16,
                ErrorKind::StorageFailure => 500u16,
            },
    {
        match *self {
            ErrorKind::SessionNotFound => 404,
            ErrorKind::UnknownTool => 400,
            ErrorKind::BadArgs => 400,
            ErrorKind::ConfigMissing => 400,
            ErrorKind::PathEscape => 400,
            ErrorKind::ForbiddenHost => 403,
            ErrorKind::NotFound => 404,
            ErrorKind::UpstreamFailure => 502,
            ErrorKind::StorageFailure => 500,
        }
    }

    /// A short stable label for logs and wire responses.
    pub fn label(&self) -> (r: &'static str)
        ensures
            r@ == self.spec_label(),
    {
        match *self {
            ErrorKind::SessionNotFound => "session not found",
            ErrorKind::UnknownTool => "unknown tool",
            ErrorKind::BadArgs => "bad arguments",
            ErrorKind::ConfigMissing => "no project_root",
            ErrorKind::PathEscape => "path outside root",
            ErrorKind::ForbiddenHost => "forbidden host",
            ErrorKind::NotFound => "not found",
            ErrorKind::UpstreamFailure => "upstream failure",
            ErrorKind::StorageFailure => "storage failure",
        }
    }

    pub open spec fn spec_label(&self) -> Seq<char> {
        match *self {
            ErrorKind::SessionNotFound => "session not found"@,
            ErrorKind::UnknownTool => "unknown tool"@,
            ErrorKind::BadArgs => "bad arguments"@,
            ErrorKind::ConfigMissing => "no project_root"@,
            ErrorKind::PathEscape => "path outside root"@,
            ErrorKind::ForbiddenHost => "forbidden host"@,
            ErrorKind::NotFound => "not found"@,
            ErrorKind::UpstreamFailure => "upstream failure"@,
            ErrorKind::StorageFailure => "storage failure"@,
        }
    }
}

} // verus!
