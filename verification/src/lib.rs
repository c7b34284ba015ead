//! Non-destructive file overlays: a synthetic read-only filesystem serves one
//! virtual file per patch record, whose byte stream is the target file's
//! on-disk bytes composed with a user-supplied blob (prepended, appended, or
//! substituted).  A supervisor publishes each virtual file over its real path
//! with detached bind mounts and tears everything down on exit.
//!
//! This crate holds the verified core: the virtual byte-stream algebra, the
//! synthetic directory (entry naming, attributes, uniqueness), the mount-table
//! bookkeeping behind cleanup, and the decision logic of the supervisor and
//! publisher roles.  Process plumbing (spawning, signals, the FUSE session,
//! syscalls that mutate the host) lives outside the library.

use vstd::prelude::*;

pub mod bytes;
pub mod cli;
pub mod configs;
pub mod daemon;
pub mod dirs;
pub mod extensions;
pub mod fuse;
pub mod hash;
pub mod mount;

verus! {

/// File-type field of a Unix `st_mode` word.
pub const MODE_TYPE_MASK: u32 = 0o170000;

/// Regular-file value of the file-type field.  Testing the bit alone would
/// also accept sockets and symlinks, whose type values contain it; the
/// whole field must compare equal.
pub const MODE_REGULAR: u32 = 0o100000;

/// Set-user-id bit of a Unix `st_mode` word.
pub const MODE_SETUID: u32 = 0o4000;

/// Group-write bit of a Unix `st_mode` word.
pub const MODE_GROUP_WRITE: u32 = 0o20;

/// Other-write bit of a Unix `st_mode` word.
pub const MODE_OTHER_WRITE: u32 = 0o2;

/// Why the preflight check refused to run the binary.
#[derive(Clone, Copy, Debug, PartialEq, Eq, Structural)]
pub enum PreflightError {
    /// `/proc/self/exe` is not a regular file.
    NotRegular,
    /// The set-user-id bit is missing.
    NotSetuid,
    /// The binary is writable by group or other.
    LooseMode,
    /// The binary is not owned by uid 0.
    NotRootOwned,
}

impl PreflightError {
    /// Human-readable description, shown before refusing to run.
    pub fn message(&self) -> (r: &'static str)
        ensures
            r@ == self.message_spec(),
    {
        match self {
            PreflightError::NotRegular => "incorrect file type",
            PreflightError::NotSetuid => "fpatch must be SUID file to run",
            PreflightError::LooseMode => "incorrect file permission",
            PreflightError::NotRootOwned => "file owner must be root",
        }
    }

    pub open spec fn message_spec(&self) -> Seq<char> {
        match self {
            PreflightError::NotRegular => "incorrect file type"@,
            PreflightError::NotSetuid => "fpatch must be SUID file to run"@,
            PreflightError::LooseMode => "incorrect file permission"@,
            PreflightError::NotRootOwned => "file owner must be root"@,
        }
    }
}

/// Decides whether a binary with the given `st_mode` word and owner uid may
/// run as the privileged helper: it must be a regular file, SUID, not
/// writable by group or other, and owned by root.  The checks apply in that
/// order and the first violation is reported.
pub fn check_permissions(mode: u32, uid: u32) -> (r: Result<(), PreflightError>)
    ensures
        r == check_permissions_spec(mode, uid),
        r is Ok <==> mode & MODE_TYPE_MASK == MODE_REGULAR && mode & MODE_SETUID != 0 && mode & (
        MODE_GROUP_WRITE | MODE_OTHER_WRITE) == 0 && uid == 0,
{
    if mode & MODE_TYPE_MASK != MODE_REGULAR {
        Err(PreflightError::NotRegular)
    } else if mode & MODE_SETUID == 0 {
        Err(PreflightError::NotSetuid)
    } else if mode & (MODE_GROUP_WRITE | MODE_OTHER_WRITE) != 0 {
        Err(PreflightError::LooseMode)
    } else if uid != 0 {
        Err(PreflightError::NotRootOwned)
    } else {
        Ok(())
    }
}

/// The preflight decision as a value: which error, if any, a given mode word
/// and owner uid produce.
pub open spec fn check_permissions_spec(mode: u32, uid: u32) -> Result<(), PreflightError> {
    if mode & MODE_TYPE_MASK != MODE_REGULAR {
        Err(PreflightError::NotRegular)
    } else if mode & MODE_SETUID == 0 {
        Err(PreflightError::NotSetuid)
    } else if mode & (MODE_GROUP_WRITE | MODE_OTHER_WRITE) != 0 {
        Err(PreflightError::LooseMode)
    } else if uid != 0 {
        Err(PreflightError::NotRootOwned)
    } else {
        Ok(())
    }
}

} // verus!
