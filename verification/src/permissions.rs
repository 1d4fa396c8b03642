//! Unix permission checks: profiles must be private to their owner.

use vstd::prelude::*;

use crate::error::{AppError, Result};
use crate::paths::{render, FsPath, PartView};
use crate::text::push_str;

verus! {

/// The mode of profile directories and of the storage root.
pub const DIRECTORY_MODE: u32 = 0o700;

/// The mode of the files this tool writes.
pub const FILE_MODE: u32 = 0o600;

/// What `fs::symlink_metadata` reports of a path.
#[derive(Debug, Clone, Copy)]
pub struct Metadata {
    pub is_symlink: bool,
    pub is_dir: bool,
    pub is_file: bool,
    /// The permission bits and file type bits (`PermissionsExt::mode`).
    pub mode: u32,
}

/// The context of a failure to inspect `path`.
pub open spec fn inspect_context(path: Seq<PartView>) -> Seq<char> {
    "could not inspect "@ + render(path)
}

pub fn inspect_context_text(path: &FsPath) -> (s: String)
    ensures
        s@ == inspect_context(path@),
{
    let mut s = String::new();
    push_str(&mut s, "could not inspect ");
    push_str(&mut s, path.display().as_str());
    s
}

/// `e` is an I/O error with context `context` and source `source`.
pub open spec fn is_io_failure(e: AppError, context: Seq<char>, source: std::io::Error) -> bool {
    e matches AppError::Io { context: c, source: s } && c@ == context && s == source
}

/// The permission bits of `m` are exactly `expected`; off Unix, where there
/// are no such bits, this always holds.
pub open spec fn mode_is(m: Metadata, expected: u32, unix: bool) -> bool {
    !unix || (m.mode & 0o777) == expected
}

/// The outcome of `private_mode` for `path` once its metadata was read (or
/// failed to be read): whether the permission bits are exactly `expected`.
/// Off Unix nothing is inspected and the answer is yes.
pub open spec fn private_mode_result(
    path: Seq<PartView>,
    observed: core::result::Result<Metadata, std::io::Error>,
    expected: u32,
    unix: bool,
    r: Result<bool>,
) -> bool {
    if !unix {
        r == Ok::<bool, AppError>(true)
    } else {
        match observed {
            Err(error) => r matches Err(e) && is_io_failure(e, inspect_context(path), error),
            Ok(m) => r == Ok::<bool, AppError>((m.mode & 0o777) == expected),
        }
    }
}

/// Whether the permission bits of `path` are exactly `expected`, judged on
/// what `fs::symlink_metadata(path)` returned; always so off Unix.
pub fn private_mode(
    path: &FsPath,
    observed: core::result::Result<Metadata, std::io::Error>,
    expected: u32,
    unix: bool,
) -> (r: Result<bool>)
    ensures
        private_mode_result(path@, observed, expected, unix, r),
{
    if !unix {
        return Ok(true);
    }
    match observed {
        Err(error) => Err(AppError::io(inspect_context_text(path), error)),
        Ok(m) => Ok((m.mode & 0o777) == expected),
    }
}

/// The outcome of `ensure_private_mode`: an `InsecurePermissions` error
/// naming `kind` when the bits differ from `expected`; off Unix it passes.
pub open spec fn ensure_private_mode_result(
    path: Seq<PartView>,
    observed: core::result::Result<Metadata, std::io::Error>,
    expected: u32,
    kind: &'static str,
    unix: bool,
    r: Result<()>,
) -> bool {
    if !unix {
        r is Ok
    } else {
        match observed {
            Err(error) => r matches Err(e) && is_io_failure(e, inspect_context(path), error),
            Ok(m) => if (m.mode & 0o777) == expected {
                r is Ok
            } else {
                r matches Err(AppError::InsecurePermissions { path: p, kind: k, expected: x }) && p@
                    == path && k == kind && x == expected
            },
        }
    }
}

/// Insists that the permission bits of `path` are exactly `expected`.
pub fn ensure_private_mode(
    path: &FsPath,
    observed: core::result::Result<Metadata, std::io::Error>,
    expected: u32,
    kind: &'static str,
    unix: bool,
) -> (r: Result<()>)
    ensures
        ensure_private_mode_result(path@, observed, expected, kind, unix, r),
{
    if private_mode(path, observed, expected, unix)? {
        Ok(())
    } else {
        Err(AppError::InsecurePermissions { path: path.copy(), kind, expected })
    }
}

} // verus!

verus! {

/// A filesystem operation that makes or secures a private file or
/// directory.
#[derive(Debug, Clone, Copy)]
pub enum Action {
    /// Creating a directory or a new file.
    Create,
    /// Setting its permission bits.
    Harden,
    /// Writing a file's contents.
    Write,
    /// Flushing a file to disk.
    Sync,
}

/// The context of a failure of `action` on `path`.
pub open spec fn action_context(action: Action, path: Seq<PartView>) -> Seq<char> {
    (match action {
        Action::Create => "could not create "@,
        Action::Harden => "could not set private permissions on "@,
        Action::Write => "could not write "@,
        Action::Sync => "could not sync "@,
    }) + render(path)
}

/// The error for a failure of `action` on `path` with source `error`.
pub fn action_failure(action: Action, path: &FsPath, error: std::io::Error) -> (e: AppError)
    ensures
        is_io_failure(e, action_context(action, path@), error),
{
    let mut context = String::new();
    match action {
        Action::Create => push_str(&mut context, "could not create "),
        Action::Harden => push_str(&mut context, "could not set private permissions on "),
        Action::Write => push_str(&mut context, "could not write "),
        Action::Sync => push_str(&mut context, "could not sync "),
    }
    push_str(&mut context, path.display().as_str());
    AppError::io(context, error)
}

} // verus!
