//! The failure taxonomy of the library: every operation that can fail
//! reports one of these stable categories, so callers can branch on the
//! class of a failure rather than on message text.

use vstd::prelude::*;

verus! {

/// The failure classes surfaced by cache, context, executor and release
/// operations. Each operation's contract states exactly which class it
/// reports on which inputs.
#[derive(Clone, Copy, Debug, PartialEq, Eq, Structural)]
pub enum PkgError {
    /// The requested package name is absent from the index.
    NotFound,
    /// The index or a manifest exists but cannot be parsed, or a manifest
    /// owed by an index entry is missing from the mirror.
    CorruptIndex,
    /// Registry synchronization failed, or the mirror was never synchronized.
    SyncError,
    /// A search pattern could not be compiled as a regular expression.
    InvalidPattern,
    /// The target host was unreachable.
    ConnectionError,
    /// The target host rejected the credentials.
    AuthenticationError,
    /// A per-operation deadline elapsed.
    TimeoutError,
    /// No release asset matches the target platform.
    AssetNotFound,
    /// A fetched asset's digest differs from the declared checksum.
    ChecksumMismatch,
    /// A command run on the target exited with a non-zero status.
    CommandFailed,
    /// The package has no installed-package record in the current context.
    NotInstalled,
}

} // verus!
