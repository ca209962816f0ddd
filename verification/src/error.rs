//! What can go wrong.

use vstd::prelude::*;

use crate::text;
use crate::text::{decimal_text, joined, joined3};

verus! {

/// Every failure that the runtime reports.
#[derive(Debug, PartialEq, Eq)]
pub enum Error {
    Io(String),
    Database(String),
    StorageUnavailable(String),
    Json(String),
    Config(String),
    WorkspaceNotFound(String),
    ExecutionNotFound(String),
    AgentSessionNotFound(String),
    OutsideWorkspace { path: String, workspace: String },
    InvalidRequest(String),
    Protocol(String),
    DaemonUnavailable(String),
    DaemonDraining,
    ProtocolVersionMismatch { client: u32, daemon: u32 },
    DaemonUpgradeRequired { daemon_pid: u32, capability: String },
    Timeout,
    AlreadyTerminal(String),
    PermissionDenied(String),
}

/// What an `Error` holds.
#[verifier::ext_equal]
pub enum ErrorView {
    Io(Seq<char>),
    Database(Seq<char>),
    StorageUnavailable(Seq<char>),
    Json(Seq<char>),
    Config(Seq<char>),
    WorkspaceNotFound(Seq<char>),
    ExecutionNotFound(Seq<char>),
    AgentSessionNotFound(Seq<char>),
    OutsideWorkspace { path: Seq<char>, workspace: Seq<char> },
    InvalidRequest(Seq<char>),
    Protocol(Seq<char>),
    DaemonUnavailable(Seq<char>),
    DaemonDraining,
    ProtocolVersionMismatch { client: u32, daemon: u32 },
    DaemonUpgradeRequired { daemon_pid: u32, capability: Seq<char> },
    Timeout,
    AlreadyTerminal(Seq<char>),
    PermissionDenied(Seq<char>),
}

impl View for Error {
    type V = ErrorView;

    open spec fn view(&self) -> ErrorView {
        match *self {
            Error::Io(value) => ErrorView::Io(value@),
            Error::Database(value) => ErrorView::Database(value@),
            Error::StorageUnavailable(value) => ErrorView::StorageUnavailable(value@),
            Error::Json(value) => ErrorView::Json(value@),
            Error::Config(value) => ErrorView::Config(value@),
            Error::WorkspaceNotFound(value) => ErrorView::WorkspaceNotFound(value@),
            Error::ExecutionNotFound(value) => ErrorView::ExecutionNotFound(value@),
            Error::AgentSessionNotFound(value) => ErrorView::AgentSessionNotFound(value@),
            Error::OutsideWorkspace { path, workspace } => ErrorView::OutsideWorkspace {
                path: path@,
                workspace: workspace@,
            },
            Error::InvalidRequest(value) => ErrorView::InvalidRequest(value@),
            Error::Protocol(value) => ErrorView::Protocol(value@),
            Error::DaemonUnavailable(value) => ErrorView::DaemonUnavailable(value@),
            Error::DaemonDraining => ErrorView::DaemonDraining,
            Error::ProtocolVersionMismatch {
                client,
                daemon,
            } => ErrorView::ProtocolVersionMismatch {
                client,
                daemon,
            },
            Error::DaemonUpgradeRequired {
                daemon_pid,
                capability,
            } => ErrorView::DaemonUpgradeRequired {
                daemon_pid,
                capability: capability@,
            },
            Error::Timeout => ErrorView::Timeout,
            Error::AlreadyTerminal(value) => ErrorView::AlreadyTerminal(value@),
            Error::PermissionDenied(value) => ErrorView::PermissionDenied(value@),
        }
    }
}

impl Clone for Error {
    fn clone(&self) -> (copy: Self)
        ensures
            copy@ == self@,
    {
        match self {
            Error::Io(value) => Error::Io(value.clone()),
            Error::Database(value) => Error::Database(value.clone()),
            Error::StorageUnavailable(value) => Error::StorageUnavailable(value.clone()),
            Error::Json(value) => Error::Json(value.clone()),
            Error::Config(value) => Error::Config(value.clone()),
            Error::WorkspaceNotFound(value) => Error::WorkspaceNotFound(value.clone()),
            Error::ExecutionNotFound(value) => Error::ExecutionNotFound(value.clone()),
            Error::AgentSessionNotFound(value) => Error::AgentSessionNotFound(value.clone()),
            Error::OutsideWorkspace { path, workspace } => Error::OutsideWorkspace {
                path: path.clone(),
                workspace: workspace.clone(),
            },
            Error::InvalidRequest(value) => Error::InvalidRequest(value.clone()),
            Error::Protocol(value) => Error::Protocol(value.clone()),
            Error::DaemonUnavailable(value) => Error::DaemonUnavailable(value.clone()),
            Error::DaemonDraining => Error::DaemonDraining,
            Error::ProtocolVersionMismatch { client, daemon } => Error::ProtocolVersionMismatch {
                client: *client,
                daemon: *daemon,
            },
            Error::DaemonUpgradeRequired {
                daemon_pid,
                capability,
            } => Error::DaemonUpgradeRequired {
                daemon_pid: *daemon_pid,
                capability: capability.clone(),
            },
            Error::Timeout => Error::Timeout,
            Error::AlreadyTerminal(value) => Error::AlreadyTerminal(value.clone()),
            Error::PermissionDenied(value) => Error::PermissionDenied(value.clone()),
        }
    }
}

/// The quoted form of a path: what `std::path::Path` shows of it under `{:?}`.
pub uninterp spec fn quoted_path(path: Seq<char>) -> Seq<char>;

/// Writes a path under `{:?}`, through `Debug` of `std::path::Path`: a function
/// of the path's characters alone.
#[verifier::external_body]
pub(crate) fn quote_path(path: &str) -> (text: String)
    ensures
        text@ == quoted_path(path@),
{
    format!("{:?}", std::path::Path::new(path))
}

/// The text that a failure is reported with.
pub open spec fn error_message(error: ErrorView) -> Seq<char> {
    match error {
        ErrorView::Io(detail) => "I/O error: "@ + detail,
        ErrorView::Database(detail) => "database error: "@ + detail,
        ErrorView::StorageUnavailable(detail) => "storage unavailable: "@ + detail,
        ErrorView::Json(detail) => "serialization error: "@ + detail,
        ErrorView::Config(detail) => "configuration error: "@ + detail,
        ErrorView::WorkspaceNotFound(id) => "workspace not found: "@ + id,
        ErrorView::ExecutionNotFound(id) => "execution not found: "@ + id,
        ErrorView::AgentSessionNotFound(id) => "agent session not found: "@ + id,
        ErrorView::OutsideWorkspace { path, workspace } => "path "@ + quoted_path(path)
            + " is outside workspace "@ + quoted_path(workspace),
        ErrorView::InvalidRequest(detail) => "invalid request: "@ + detail,
        ErrorView::Protocol(detail) => "protocol error: "@ + detail,
        ErrorView::DaemonUnavailable(path) => "daemon is unavailable at "@ + quoted_path(path),
        ErrorView::DaemonDraining => "daemon is draining and cannot accept new executions"@,
        ErrorView::ProtocolVersionMismatch { client, daemon } => "client protocol version "@
            + text::decimal(client as nat) + " does not match daemon protocol version "@
            + text::decimal(daemon as nat),
        ErrorView::DaemonUpgradeRequired { daemon_pid, capability } => "daemon "@
            + text::decimal(daemon_pid as nat) + " must be upgraded to support "@ + capability,
        ErrorView::Timeout => "operation timed out"@,
        ErrorView::AlreadyTerminal(id) => "execution is already terminal: "@ + id,
        ErrorView::PermissionDenied(detail) => "permission denied: "@ + detail,
    }
}

impl Error {
    /// The text that this failure is reported with.
    pub fn message(&self) -> (text: String)
        ensures
            text@ == error_message(self@),
    {
        match self {
            Error::Io(detail) => joined("I/O error: ", detail.as_str()),
            Error::Database(detail) => joined("database error: ", detail.as_str()),
            Error::StorageUnavailable(detail) => joined("storage unavailable: ", detail.as_str()),
            Error::Json(detail) => joined("serialization error: ", detail.as_str()),
            Error::Config(detail) => joined("configuration error: ", detail.as_str()),
            Error::WorkspaceNotFound(id) => joined("workspace not found: ", id.as_str()),
            Error::ExecutionNotFound(id) => joined("execution not found: ", id.as_str()),
            Error::AgentSessionNotFound(id) => joined("agent session not found: ", id.as_str()),
            Error::OutsideWorkspace { path, workspace } => {
                let mut text = joined3(
                    "path ",
                    quote_path(path.as_str()).as_str(),
                    " is outside workspace ",
                );
                text.append(quote_path(workspace.as_str()).as_str());
                text
            },
            Error::InvalidRequest(detail) => joined("invalid request: ", detail.as_str()),
            Error::Protocol(detail) => joined("protocol error: ", detail.as_str()),
            Error::DaemonUnavailable(path) => joined(
                "daemon is unavailable at ",
                quote_path(path.as_str()).as_str(),
            ),
            Error::DaemonDraining =>
                "daemon is draining and cannot accept new executions".to_owned(),
            Error::ProtocolVersionMismatch { client, daemon } => {
                let mut text = joined3(
                    "client protocol version ",
                    decimal_text(*client as u64).as_str(),
                    " does not match daemon protocol version ",
                );
                text.append(decimal_text(*daemon as u64).as_str());
                text
            },
            Error::DaemonUpgradeRequired { daemon_pid, capability } => {
                let mut text = joined3(
                    "daemon ",
                    decimal_text(*daemon_pid as u64).as_str(),
                    " must be upgraded to support ",
                );
                text.append(capability.as_str());
                text
            },
            Error::Timeout => "operation timed out".to_owned(),
            Error::AlreadyTerminal(id) => joined("execution is already terminal: ", id.as_str()),
            Error::PermissionDenied(detail) => joined("permission denied: ", detail.as_str()),
        }
    }
}

/// The view of a result: the value is looked at through `of`.
pub open spec fn outcome_view<T, V>(result: Result<T, Error>, of: spec_fn(T) -> V) -> Result<V, ErrorView> {
    match result {
        Ok(value) => Ok(of(value)),
        Err(error) => Err(error@),
    }
}

/// The view of a result whose value has a view of its own.
pub open spec fn viewed<T: View>(result: Result<T, Error>) -> Result<T::V, ErrorView> {
    match result {
        Ok(value) => Ok(value@),
        Err(error) => Err(error@),
    }
}

/// A refusal of a request.
pub open spec fn refused(reason: Seq<char>) -> ErrorView {
    ErrorView::InvalidRequest(reason)
}

} // verus!
