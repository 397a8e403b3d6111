//! What differs between the supported hosts: the archive that is published
//! for each, how it is unpacked, and how a running executable is replaced.

use crate::error::{ExtractionFailure, ReplaceStep, UpgradeError};
use crate::text::{extension, extension_of, last_index_of, str_equal};
use vstd::prelude::*;

verus! {

/// A supported host.
#[derive(Clone, Copy, Debug, PartialEq, Eq, Structural)]
pub enum Platform {
    Windows,
    MacOs,
    Linux,
}

/// How an archive is turned into an executable.
#[derive(Clone, Copy, Debug, PartialEq, Eq, Structural)]
pub enum ExtractStrategy {
    /// The archive is piped through `gunzip`, whose output is the executable.
    GunzipPipe,
    /// The archive is written to disk and expanded by PowerShell.
    PowershellExpand,
    /// The archive is written to disk and expanded by `unzip`.
    Unzip,
}

/// How the active executable gives way to a new one.
#[derive(Clone, Copy, Debug, PartialEq, Eq, Structural)]
pub enum ReplaceStrategy {
    /// The active executable is renamed aside first: the host does not allow
    /// a running executable to be deleted or overwritten.
    RenameAside,
    /// The active executable is deleted first.
    DeleteFirst,
}

/// The name of the archive published for `platform`.
pub open spec fn archive_name_of(platform: Platform) -> Seq<char> {
    match platform {
        Platform::Windows => "deno-x86_64-pc-windows-msvc.zip"@,
        Platform::MacOs => "deno-x86_64-apple-darwin.zip"@,
        Platform::Linux => "deno-x86_64-unknown-linux-gnu.zip"@,
    }
}

/// The file name of the executable on `platform`.
pub open spec fn executable_name_of(platform: Platform) -> Seq<char> {
    match platform {
        Platform::Windows => "deno.exe"@,
        _ => "deno"@,
    }
}

/// The environment variable that names the user's home directory.
pub open spec fn home_variable_of(platform: Platform) -> Seq<char> {
    match platform {
        Platform::Windows => "USERPROFILE"@,
        _ => "HOME"@,
    }
}

/// The strategy for an archive with extension `ext` on `platform`, if there
/// is one: `gz` is piped through `gunzip`; `zip` is expanded by PowerShell on
/// Windows and by `unzip` elsewhere.
pub open spec fn strategy_of(platform: Platform, ext: Option<Seq<char>>) -> Option<
    ExtractStrategy,
> {
    match ext {
        Some(e) => if e == "gz"@ {
            Some(ExtractStrategy::GunzipPipe)
        } else if e == "zip"@ {
            if platform == Platform::Windows {
                Some(ExtractStrategy::PowershellExpand)
            } else {
                Some(ExtractStrategy::Unzip)
            }
        } else {
            None
        },
        None => None,
    }
}

/// The strategy by which `platform` replaces the active executable.
pub open spec fn replace_strategy_of(platform: Platform) -> ReplaceStrategy {
    if platform == Platform::Windows {
        ReplaceStrategy::RenameAside
    } else {
        ReplaceStrategy::DeleteFirst
    }
}

/// The strategy by which `platform` unpacks an archive named `archive_name`.
/// An extension without a strategy is an error.
pub fn extract_strategy_for(platform: Platform, archive_name: &str) -> (r: Result<
    ExtractStrategy,
    UpgradeError,
>)
    ensures
        match strategy_of(platform, extension_of(archive_name@)) {
            Some(s) => r == Ok::<ExtractStrategy, UpgradeError>(s),
            None => r == Err::<ExtractStrategy, UpgradeError>(
                UpgradeError::Extraction(ExtractionFailure::UnsupportedArchive),
            ),
        },
{
    let unsupported = Err(UpgradeError::Extraction(ExtractionFailure::UnsupportedArchive));
    match extension(archive_name) {
        Some(ext) => {
            if str_equal(ext.as_str(), "gz") {
                Ok(ExtractStrategy::GunzipPipe)
            } else if str_equal(ext.as_str(), "zip") {
                match platform {
                    Platform::Windows => Ok(ExtractStrategy::PowershellExpand),
                    _ => Ok(ExtractStrategy::Unzip),
                }
            } else {
                unsupported
            }
        },
        None => unsupported,
    }
}

/// Every published archive is a zip archive.
pub proof fn lemma_archives_are_zip(platform: Platform)
    ensures
        extension_of(archive_name_of(platform)) == Some("zip"@),
{
    reveal_strlit("deno-x86_64-pc-windows-msvc.zip");
    reveal_strlit("deno-x86_64-apple-darwin.zip");
    reveal_strlit("deno-x86_64-unknown-linux-gnu.zip");
    reveal_strlit("zip");
    reveal_with_fuel(last_index_of, 5);
    let name = archive_name_of(platform);
    let n = name.len() as int;
    assert(name[n - 4] == '.');
    assert(last_index_of(name, '.') == n - 4);
    assert(name.skip(n - 3) =~= "zip"@);
}

impl Platform {
    /// The name of the archive published for this platform.
    pub fn archive_name(self) -> (r: &'static str)
        ensures
            r@ == archive_name_of(self),
    {
        match self {
            Platform::Windows => "deno-x86_64-pc-windows-msvc.zip",
            Platform::MacOs => "deno-x86_64-apple-darwin.zip",
            Platform::Linux => "deno-x86_64-unknown-linux-gnu.zip",
        }
    }

    /// The file name of the executable on this platform.
    pub fn executable_name(self) -> (r: &'static str)
        ensures
            r@ == executable_name_of(self),
    {
        match self {
            Platform::Windows => "deno.exe",
            _ => "deno",
        }
    }

    /// The environment variable that names the user's home directory.
    pub fn home_variable(self) -> (r: &'static str)
        ensures
            r@ == home_variable_of(self),
    {
        match self {
            Platform::Windows => "USERPROFILE",
            _ => "HOME",
        }
    }

    /// How this platform unpacks the archive published for it.
    pub fn extract_strategy(self) -> (r: ExtractStrategy)
        ensures
            Some(r) == strategy_of(self, extension_of(archive_name_of(self))),
            r == if self == Platform::Windows {
                ExtractStrategy::PowershellExpand
            } else {
                ExtractStrategy::Unzip
            },
    {
        proof {
            lemma_archives_are_zip(self);
            reveal_strlit("zip");
            reveal_strlit("gz");
            assert("zip"@.len() != "gz"@.len());
        }
        match self {
            Platform::Windows => ExtractStrategy::PowershellExpand,
            _ => ExtractStrategy::Unzip,
        }
    }

    /// How this platform replaces the active executable.
    pub fn replace_strategy(self) -> (r: ReplaceStrategy)
        ensures
            r == replace_strategy_of(self),
    {
        match self {
            Platform::Windows => ReplaceStrategy::RenameAside,
            _ => ReplaceStrategy::DeleteFirst,
        }
    }
}

/// The extension that the active executable gets in place of its own when it
/// is renamed aside.
pub const ASIDE_EXTENSION: &'static str = "old.exe";

/// The file-system steps of a replacement, in the order in which they are
/// taken. The new executable is copied, not moved: its version directory
/// keeps its own copy.
pub open spec fn replace_steps_of(strategy: ReplaceStrategy) -> Seq<ReplaceStep> {
    match strategy {
        ReplaceStrategy::RenameAside => seq![ReplaceStep::RenameAside, ReplaceStep::CopyNew],
        ReplaceStrategy::DeleteFirst => seq![ReplaceStep::RemoveActive, ReplaceStep::CopyNew],
    }
}

/// The file-system steps by which the new executable takes the place of the
/// active one.
pub fn replace_exe(strategy: ReplaceStrategy) -> (r: Vec<ReplaceStep>)
    ensures
        r@ == replace_steps_of(strategy),
{
    let mut steps: Vec<ReplaceStep> = Vec::new();
    match strategy {
        ReplaceStrategy::RenameAside => steps.push(ReplaceStep::RenameAside),
        ReplaceStrategy::DeleteFirst => steps.push(ReplaceStep::RemoveActive),
    }
    steps.push(ReplaceStep::CopyNew);
    assert(steps@ =~= replace_steps_of(strategy));
    steps
}

} // verus!
