//! The failures that an upgrade can end in.

use vstd::prelude::*;

verus! {

/// Why extraction of a downloaded archive did not yield an executable.
#[derive(Clone, Copy, Debug, PartialEq, Eq, Structural)]
pub enum ExtractionFailure {
    /// The archive's extension has no extraction strategy.
    UnsupportedArchive,
    /// The extraction process ended with a failure status.
    ProcessFailed,
    /// The extraction process ended well but left no executable behind.
    ExecutableMissing,
}

/// Why an extracted executable was not accepted.
#[derive(Clone, Copy, Debug, PartialEq, Eq, Structural)]
pub enum VerificationFailure {
    /// What the executable printed is not UTF-8.
    NotUtf8,
    /// The executable ended with a failure status.
    ExitFailure,
    /// The executable reported something other than the expected version.
    Mismatch,
}

/// A step of the replacement of the active executable.
#[derive(Clone, Copy, Debug, PartialEq, Eq, Structural)]
pub enum ReplaceStep {
    /// Rename the active executable to its `.old` sibling.
    RenameAside,
    /// Delete the active executable.
    RemoveActive,
    /// Copy the new executable to the active path.
    CopyNew,
}

/// The failure that ends an upgrade.
#[derive(Clone, Copy, Debug, PartialEq, Eq, Structural)]
pub enum UpgradeError {
    /// The requested version is not a semantic version.
    InvalidVersion,
    /// A request did not reach the server or got no answer.
    Network,
    /// The release page names no version.
    NotFound,
    /// The server has no archive of the requested release for this platform.
    VersionNotFound,
    /// The server refused the download with this status code.
    DownloadFailed(u16),
    /// The archive could not be unpacked.
    Extraction(ExtractionFailure),
    /// The unpacked executable did not report the expected version.
    Verification(VerificationFailure),
    /// The file system or a child process could not be used.
    Io,
    /// The file system refused this step of the replacement; the steps before
    /// it have taken effect.
    Replace(ReplaceStep),
    /// The address of the archive is not a valid URL.
    InvalidUrl,
    /// The pattern that finds the version on the release page did not compile.
    InvalidPattern,
    /// An event was reported that the pipeline was not waiting for.
    UnexpectedEvent,
}

} // verus!
