//! Turning a downloaded archive into an executable inside the directory of
//! its version: what has to be run, and when its outcome counts as success.

use crate::canonical::{canonical, lemma_text_determines_version};
use crate::error::{ExtractionFailure, UpgradeError};
use crate::platform::{executable_name_of, ExtractStrategy, Platform};
use crate::version::{version_text, Version, VersionView};
use vstd::prelude::*;

verus! {

/// The file, inside the directory of the version, that a zip archive is
/// written to before it is expanded.
pub const ARCHIVE_FILE: &'static str = "deno.zip";

/// The PowerShell command that expands a zip archive into a directory.
pub const EXPAND_SCRIPT: &'static str =
    "& {
            param($Path, $DestinationPath)
            trap { $host.ui.WriteErrorLine($_.Exception); exit 1 }
            Add-Type -AssemblyName System.IO.Compression.FileSystem
            [System.IO.Compression.ZipFile]::ExtractToDirectory(
              $Path,
              $DestinationPath
            );
          }";

/// One argument of the extraction process.
#[derive(Debug, PartialEq, Eq)]
pub enum Argument {
    /// This text.
    Literal(String),
    /// The path of the archive file.
    ArchivePath,
    /// The path of the archive file between single quotes.
    QuotedArchivePath,
    /// The path of the directory of the version between single quotes.
    QuotedDirectory,
}

/// What an [`Argument`] stands for.
#[verifier::ext_equal]
pub enum ArgumentView {
    Literal(Seq<char>),
    ArchivePath,
    QuotedArchivePath,
    QuotedDirectory,
}

impl View for Argument {
    type V = ArgumentView;

    open spec fn view(&self) -> ArgumentView {
        match self {
            Argument::Literal(s) => ArgumentView::Literal(s@),
            Argument::ArchivePath => ArgumentView::ArchivePath,
            Argument::QuotedArchivePath => ArgumentView::QuotedArchivePath,
            Argument::QuotedDirectory => ArgumentView::QuotedDirectory,
        }
    }
}

/// What has to be done to unpack an archive. All names are relative: the
/// directory to the cache root, the files to the directory.
#[derive(Debug, PartialEq, Eq)]
pub struct UnpackPlan {
    /// The strategy that the plan carries out.
    pub strategy: ExtractStrategy,
    /// The directory of the version, to be created if it is missing.
    pub directory: String,
    /// The executable that the extraction must leave in the directory.
    pub executable: String,
    /// The file that the archive is written to before the process starts.
    /// Where there is none, the archive is fed to the standard input of the
    /// process and its standard output is the executable.
    pub archive_file: Option<String>,
    /// The program to run.
    pub program: String,
    /// Its arguments.
    pub arguments: Vec<Argument>,
    /// Whether the process runs with the directory of the version as its
    /// working directory.
    pub in_directory: bool,
}

/// What an [`UnpackPlan`] stands for.
#[verifier::ext_equal]
pub struct UnpackPlanView {
    pub strategy: ExtractStrategy,
    pub directory: Seq<char>,
    pub executable: Seq<char>,
    pub archive_file: Option<Seq<char>>,
    pub program: Seq<char>,
    pub arguments: Seq<ArgumentView>,
    pub in_directory: bool,
}

/// The arguments of a list, each taken by its view.
pub open spec fn arguments_view(arguments: Seq<Argument>) -> Seq<ArgumentView> {
    arguments.map_values(|a: Argument| a@)
}

impl View for UnpackPlan {
    type V = UnpackPlanView;

    open spec fn view(&self) -> UnpackPlanView {
        UnpackPlanView {
            strategy: self.strategy,
            directory: self.directory@,
            executable: self.executable@,
            archive_file: match self.archive_file {
                Some(f) => Some(f@),
                None => None,
            },
            program: self.program@,
            arguments: arguments_view(self.arguments@),
            in_directory: self.in_directory,
        }
    }
}

/// Where the executable of a version is: the directory of the version,
/// relative to the cache root, and the file inside it.
#[derive(Debug, PartialEq, Eq)]
pub struct Location {
    pub directory: String,
    pub file: String,
}

/// What a [`Location`] stands for.
#[verifier::ext_equal]
pub struct LocationView {
    pub directory: Seq<char>,
    pub file: Seq<char>,
}

impl View for Location {
    type V = LocationView;

    open spec fn view(&self) -> LocationView {
        LocationView { directory: self.directory@, file: self.file@ }
    }
}

/// Where the executable of `version` is on `platform`.
pub open spec fn location_of(version: VersionView, platform: Platform) -> LocationView {
    LocationView { directory: version_text(version), file: executable_name_of(platform) }
}

/// Every canonical version has a directory of its own: two of them that are
/// unpacked into the same directory are the same version.
pub proof fn lemma_directory_of_its_own(a: VersionView, b: VersionView, platform: Platform)
    requires
        canonical(a),
        canonical(b),
        location_of(a, platform).directory == location_of(b, platform).directory,
    ensures
        a == b,
        location_of(a, platform) == location_of(b, platform),
{
    lemma_text_determines_version(a, b);
}

/// Where the executable of `version` is on `platform`.
pub fn locate(version: &Version, platform: Platform) -> (r: Location)
    ensures
        r@ == location_of(version@, platform),
{
    Location { directory: version.to_string(), file: platform.executable_name().to_owned() }
}

/// The program that carries out `strategy`.
pub open spec fn program_of(strategy: ExtractStrategy) -> Seq<char> {
    match strategy {
        ExtractStrategy::GunzipPipe => "gunzip"@,
        ExtractStrategy::PowershellExpand => "powershell.exe"@,
        ExtractStrategy::Unzip => "unzip"@,
    }
}

/// The arguments with which the program of `strategy` is run.
pub open spec fn arguments_of(strategy: ExtractStrategy) -> Seq<ArgumentView> {
    match strategy {
        ExtractStrategy::GunzipPipe => seq![ArgumentView::Literal("-c"@)],
        ExtractStrategy::PowershellExpand => seq![
            ArgumentView::Literal("-NoLogo"@),
            ArgumentView::Literal("-NoProfile"@),
            ArgumentView::Literal("-NonInteractive"@),
            ArgumentView::Literal("-Command"@),
            ArgumentView::Literal(EXPAND_SCRIPT@),
            ArgumentView::Literal("-Path"@),
            ArgumentView::QuotedArchivePath,
            ArgumentView::Literal("-DestinationPath"@),
            ArgumentView::QuotedDirectory,
        ],
        ExtractStrategy::Unzip => seq![ArgumentView::ArchivePath],
    }
}

/// The plan by which `strategy` unpacks the archive of `version` on
/// `platform`. The directory is named by the text of the version.
#[verifier::opaque]
pub open spec fn unpack_plan_of(
    strategy: ExtractStrategy,
    version: VersionView,
    platform: Platform,
) -> UnpackPlanView {
    UnpackPlanView {
        strategy,
        directory: version_text(version),
        executable: executable_name_of(platform),
        archive_file: if strategy == ExtractStrategy::GunzipPipe {
            None
        } else {
            Some(ARCHIVE_FILE@)
        },
        program: program_of(strategy),
        arguments: arguments_of(strategy),
        in_directory: strategy == ExtractStrategy::Unzip,
    }
}

/// An argument that is the text `s`.
fn literal(s: &str) -> (r: Argument)
    ensures
        r@ == ArgumentView::Literal(s@),
{
    Argument::Literal(s.to_owned())
}

/// The arguments with which the program of `strategy` is run.
fn arguments_for(strategy: ExtractStrategy) -> (r: Vec<Argument>)
    ensures
        arguments_view(r@) == arguments_of(strategy),
{
    let mut arguments: Vec<Argument> = Vec::new();
    match strategy {
        ExtractStrategy::GunzipPipe => {
            arguments.push(literal("-c"));
        },
        ExtractStrategy::PowershellExpand => {
            arguments.push(literal("-NoLogo"));
            arguments.push(literal("-NoProfile"));
            arguments.push(literal("-NonInteractive"));
            arguments.push(literal("-Command"));
            arguments.push(literal(EXPAND_SCRIPT));
            arguments.push(literal("-Path"));
            arguments.push(Argument::QuotedArchivePath);
            arguments.push(literal("-DestinationPath"));
            arguments.push(Argument::QuotedDirectory);
        },
        ExtractStrategy::Unzip => {
            arguments.push(Argument::ArchivePath);
        },
    }
    assert(arguments_view(arguments@) =~= arguments_of(strategy));
    arguments
}

/// The plan by which `strategy` unpacks the archive of `version` on
/// `platform`.
pub fn plan_unpack(strategy: ExtractStrategy, version: &Version, platform: Platform) -> (r:
    UnpackPlan)
    ensures
        r@ == unpack_plan_of(strategy, version@, platform),
{
    proof {
        reveal(unpack_plan_of);
    }
    let program = match strategy {
        ExtractStrategy::GunzipPipe => "gunzip",
        ExtractStrategy::PowershellExpand => "powershell.exe",
        ExtractStrategy::Unzip => "unzip",
    };
    let archive_file = match strategy {
        ExtractStrategy::GunzipPipe => None,
        _ => Some(ARCHIVE_FILE.to_owned()),
    };
    let in_directory = match strategy {
        ExtractStrategy::Unzip => true,
        _ => false,
    };
    UnpackPlan {
        strategy,
        directory: version.to_string(),
        executable: platform.executable_name().to_owned(),
        archive_file,
        program: program.to_owned(),
        arguments: arguments_for(strategy),
        in_directory,
    }
}

/// The plan by which `platform` unpacks the archive published for it.
pub fn unpack(version: &Version, platform: Platform) -> (r: UnpackPlan)
    ensures
        r@ == unpack_plan_of(
            if platform == Platform::Windows {
                ExtractStrategy::PowershellExpand
            } else {
                ExtractStrategy::Unzip
            },
            version@,
            platform,
        ),
{
    plan_unpack(platform.extract_strategy(), version, platform)
}

/// What the outcome of an extraction amounts to: success where the process
/// ended well and the executable is there, else the failure that came first.
pub open spec fn unpacked_of(exit_success: bool, executable_exists: bool) -> Result<
    (),
    UpgradeError,
> {
    if !exit_success {
        Err(UpgradeError::Extraction(ExtractionFailure::ProcessFailed))
    } else if !executable_exists {
        Err(UpgradeError::Extraction(ExtractionFailure::ExecutableMissing))
    } else {
        Ok(())
    }
}

/// Judges the outcome of an extraction: whether the process ended with
/// success, and whether the executable exists afterwards.
pub fn unpacked(exit_success: bool, executable_exists: bool) -> (r: Result<(), UpgradeError>)
    ensures
        r == unpacked_of(exit_success, executable_exists),
{
    if !exit_success {
        Err(UpgradeError::Extraction(ExtractionFailure::ProcessFailed))
    } else if !executable_exists {
        Err(UpgradeError::Extraction(ExtractionFailure::ExecutableMissing))
    } else {
        Ok(())
    }
}

} // verus!
