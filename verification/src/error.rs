//! The error type of the profile switcher.

use vstd::prelude::*;

use crate::paths::{render, FsPath, PartView};
use crate::text::{debug_quoted, octal, push_octal, push_str, quote_debug};

verus! {

/// `std::io::Error`, carried as the source of I/O failures.
#[verifier::external_type_specification]
#[verifier::external_body]
pub struct ExIoError(std::io::Error);

/// Every way an operation of the switcher can fail.
#[derive(Debug)]
#[allow(inconsistent_fields)]
pub enum AppError {
    HomeDirectoryUnavailable,
    LocalAppDataUnavailable,
    InvalidProfileName { name: String, reason: &'static str },
    ProfileExists(String),
    ProfileMissing(String),
    UnsafeProfile { path: FsPath, reason: String },
    InsecurePermissions { path: FsPath, kind: &'static str, expected: u32 },
    InvalidMarker { name: String, reason: String },
    UnsafeCredentialConfig { name: String, reason: String },
    CodexNotFound,
    RecursiveCodexExecutable,
    RemovalCancelled,
    NonInteractiveConfirmation,
    Io { context: String, source: std::io::Error },
}

/// The result type of the switcher's operations.
pub type Result<T> = core::result::Result<T, AppError>;

/// `e` is an `UnsafeProfile` error about the path `path` for the reason `reason`.
pub open spec fn is_unsafe_profile(e: AppError, path: Seq<PartView>, reason: Seq<char>) -> bool {
    e matches AppError::UnsafeProfile { path: p, reason: r } && p@ == path && r@ == reason
}

/// `e` is an `Io` error whose context reads `context`.
pub open spec fn is_io_error(e: AppError, context: Seq<char>) -> bool {
    e matches AppError::Io { context: c, .. } && c@ == context
}

/// `std::io::Error`'s `Display` text, the operating system's description of
/// the failure; nothing is claimed of it.
#[verifier::external_body]
pub(crate) fn io_error_text(error: &std::io::Error) -> String {
    error.to_string()
}

/// The text shown for each error other than an I/O failure.
pub open spec fn message_of(e: AppError) -> Seq<char> {
    match e {
        AppError::HomeDirectoryUnavailable =>
            "could not determine the current user's home directory; pass --root PATH"@,
        AppError::LocalAppDataUnavailable => "could not determine LOCALAPPDATA; pass --root PATH"@,
        AppError::InvalidProfileName { name, reason } => "profile name "@ + debug_quoted(name@)
            + " is invalid: "@ + reason@,
        AppError::ProfileExists(name) => "profile "@ + debug_quoted(name@) + " already exists"@,
        AppError::ProfileMissing(name) => "profile "@ + debug_quoted(name@) + " does not exist"@,
        AppError::UnsafeProfile { path, reason } => "refusing unsafe profile at "@ + render(path@)
            + ": "@ + reason@,
        AppError::InsecurePermissions { path, kind, expected } => render(path@)
            + " has insecure permissions for "@ + kind@ + "; expected mode "@ + octal(
            expected as nat,
        ),
        AppError::InvalidMarker { name, reason } => "profile "@ + debug_quoted(name@)
            + " has invalid ownership metadata: "@ + reason@,
        AppError::UnsafeCredentialConfig { name, reason } => "profile "@ + debug_quoted(name@)
            + " does not enforce file-backed Codex credentials: "@ + reason@,
        AppError::CodexNotFound =>
            "Codex CLI was not found; install `codex` or pass --codex-bin PATH"@,
        AppError::RecursiveCodexExecutable =>
            "the resolved Codex executable is this profile switcher; pass --codex-bin PATH to the real Codex CLI"@,
        AppError::RemovalCancelled => "removal was cancelled"@,
        AppError::NonInteractiveConfirmation =>
            "refusing to prompt on non-interactive stdin; rerun with --yes"@,
        AppError::Io { context, .. } => context@ + ": "@,
    }
}

/// `m` is the message of `e`: exactly its text, or for an I/O failure its
/// context and `": "` followed by the system's description.
pub open spec fn describes(m: Seq<char>, e: AppError) -> bool {
    match e {
        AppError::Io { .. } => m.len() >= message_of(e).len() && m.take(message_of(e).len() as int)
            == message_of(e),
        _ => m == message_of(e),
    }
}

impl AppError {
    /// The error's message. For an I/O failure it is the context, `": "` and
    /// the operating system's description of the failure.
    pub fn message(&self) -> (m: String)
        ensures
            describes(m@, *self),
    {
        let mut m = String::new();
        match self {
            AppError::HomeDirectoryUnavailable => {
                push_str(&mut m, "could not determine the current user's home directory; pass --root PATH");
            },
            AppError::LocalAppDataUnavailable => {
                push_str(&mut m, "could not determine LOCALAPPDATA; pass --root PATH");
            },
            AppError::InvalidProfileName { name, reason } => {
                push_str(&mut m, "profile name ");
                push_str(&mut m, quote_debug(name.as_str()).as_str());
                push_str(&mut m, " is invalid: ");
                push_str(&mut m, reason);
            },
            AppError::ProfileExists(name) => {
                push_str(&mut m, "profile ");
                push_str(&mut m, quote_debug(name.as_str()).as_str());
                push_str(&mut m, " already exists");
            },
            AppError::ProfileMissing(name) => {
                push_str(&mut m, "profile ");
                push_str(&mut m, quote_debug(name.as_str()).as_str());
                push_str(&mut m, " does not exist");
            },
            AppError::UnsafeProfile { path, reason } => {
                push_str(&mut m, "refusing unsafe profile at ");
                push_str(&mut m, path.display().as_str());
                push_str(&mut m, ": ");
                push_str(&mut m, reason.as_str());
            },
            AppError::InsecurePermissions { path, kind, expected } => {
                push_str(&mut m, path.display().as_str());
                push_str(&mut m, " has insecure permissions for ");
                push_str(&mut m, kind);
                push_str(&mut m, "; expected mode ");
                push_octal(&mut m, *expected);
            },
            AppError::InvalidMarker { name, reason } => {
                push_str(&mut m, "profile ");
                push_str(&mut m, quote_debug(name.as_str()).as_str());
                push_str(&mut m, " has invalid ownership metadata: ");
                push_str(&mut m, reason.as_str());
            },
            AppError::UnsafeCredentialConfig { name, reason } => {
                push_str(&mut m, "profile ");
                push_str(&mut m, quote_debug(name.as_str()).as_str());
                push_str(&mut m, " does not enforce file-backed Codex credentials: ");
                push_str(&mut m, reason.as_str());
            },
            AppError::CodexNotFound => {
                push_str(&mut m, "Codex CLI was not found; install `codex` or pass --codex-bin PATH");
            },
            AppError::RecursiveCodexExecutable => {
                push_str(
                    &mut m,
                    "the resolved Codex executable is this profile switcher; pass --codex-bin PATH to the real Codex CLI",
                );
            },
            AppError::RemovalCancelled => {
                push_str(&mut m, "removal was cancelled");
            },
            AppError::NonInteractiveConfirmation => {
                push_str(&mut m, "refusing to prompt on non-interactive stdin; rerun with --yes");
            },
            AppError::Io { context, source } => {
                push_str(&mut m, context.as_str());
                push_str(&mut m, ": ");
                let ghost head = m@;
                push_str(&mut m, io_error_text(source).as_str());
                assert(m@.take(head.len() as int) =~= head);
            },
        }
        m
    }

    /// An I/O failure with a description of what was being attempted.
    pub fn io(context: String, source: std::io::Error) -> (e: AppError)
        ensures
            e == (AppError::Io { context, source }),
    {
        AppError::Io { context, source }
    }
}

} // verus!
