//! The upgrade pipeline: decide the target version, stop early where it is
//! already there, else fetch, unpack, verify and, unless this is a dry run,
//! replace.
//!
//! The pipeline does no work of its own. Each step names the next action
//! for the caller to carry out; the caller reports what came of it as an
//! event, which decides the step after.

use crate::error::{ReplaceStep, UpgradeError};
use crate::fetch::{
    address, address_of, compose_url_to_exec, download_outcome_of, download_package,
    download_text,
};
use crate::integrity::{check_exe, check_of};
use crate::platform::{replace_strategy_of, ExtractStrategy, Platform, ReplaceStrategy};
use crate::release::{get_latest_version, latest_version_of, LATEST_RELEASE_PAGE};
use crate::unpack::{
    locate, location_of, unpack, unpack_plan_of, unpacked, unpacked_of, Location, LocationView,
    UnpackPlan, UnpackPlanView,
};
use crate::version::{parse, read_of, version_ge, Version, VersionView};
use vstd::prelude::*;

verus! {

/// What the pipeline is waiting for.
#[derive(Clone, Copy, Debug, PartialEq, Eq, Structural)]
pub enum Stage {
    /// The body of the release page.
    ResolvingLatest,
    /// The server's answer to the request for the archive.
    Fetching,
    /// The body of that answer.
    Downloading,
    /// The outcome of the extraction.
    Unpacking,
    /// The permissions of the active executable to be given to the new one.
    CopyingPermissions,
    /// The new executable's answer to a version query.
    Verifying,
    /// The replacement of the active executable.
    Replacing,
    /// Nothing: the upgrade has ended well.
    Finished,
    /// Nothing: the upgrade has failed.
    Failed,
}

/// How an upgrade ended well.
#[derive(Clone, Copy, Debug, PartialEq, Eq, Structural)]
pub enum Outcome {
    /// The requested version is the installed one.
    AlreadyInstalled,
    /// The installed version is the newest release, or newer.
    AlreadyLatest,
    /// A dry run: the new executable was verified and left where it is.
    Verified,
    /// The new executable is the active one.
    Upgraded,
}

/// A stage boundary that the pipeline has passed.
#[derive(Clone, Copy, Debug, PartialEq, Eq, Structural)]
pub enum Status {
    FetchStarted,
    FetchSucceeded,
    ExtractionSucceeded,
    VerificationSucceeded,
    ReplacementSucceeded,
}

/// What the caller reports back.
#[derive(Debug, PartialEq, Eq)]
pub enum Event {
    /// The release page was fetched; this is its body.
    PageFetched(String),
    /// The server answered the request for the archive with this status.
    ArchiveFetched(u16),
    /// The body of the answer was read in full; these are its bytes.
    ArchiveRead(Vec<u8>),
    /// The extraction process has ended.
    Unpacked { exit_success: bool, executable_exists: bool },
    /// The new executable has the permissions of the active one.
    PermissionsCopied,
    /// The new executable has answered the version query.
    VersionReported { exit_success: bool, output: Vec<u8> },
    /// The new executable is at the active path.
    Replaced,
    /// A step of the replacement failed.
    ReplaceFailed(ReplaceStep),
    /// A request got no answer, or the answer broke off.
    TransportFailed,
    /// The file system or a child process could not be used.
    IoFailed,
}

/// What an [`Event`] stands for.
#[verifier::ext_equal]
pub enum EventView {
    PageFetched(Seq<char>),
    ArchiveFetched(u16),
    ArchiveRead(Seq<u8>),
    Unpacked { exit_success: bool, executable_exists: bool },
    PermissionsCopied,
    VersionReported { exit_success: bool, output: Seq<u8> },
    Replaced,
    ReplaceFailed(ReplaceStep),
    TransportFailed,
    IoFailed,
}

impl View for Event {
    type V = EventView;

    open spec fn view(&self) -> EventView {
        match self {
            Event::PageFetched(body) => EventView::PageFetched(body@),
            Event::ArchiveFetched(status) => EventView::ArchiveFetched(*status),
            Event::ArchiveRead(bytes) => EventView::ArchiveRead(bytes@),
            Event::Unpacked { exit_success, executable_exists } => EventView::Unpacked {
                exit_success: *exit_success,
                executable_exists: *executable_exists,
            },
            Event::PermissionsCopied => EventView::PermissionsCopied,
            Event::VersionReported { exit_success, output } => EventView::VersionReported {
                exit_success: *exit_success,
                output: output@,
            },
            Event::Replaced => EventView::Replaced,
            Event::ReplaceFailed(step) => EventView::ReplaceFailed(*step),
            Event::TransportFailed => EventView::TransportFailed,
            Event::IoFailed => EventView::IoFailed,
        }
    }
}

/// What the caller has to do next.
#[derive(Debug, PartialEq, Eq)]
pub enum Action {
    /// Request the release page at this address and report its body.
    FetchLatest { url: String },
    /// Request the archive at this address and report the status of the
    /// answer.
    FetchArchive { url: String },
    /// Read the body of the answer in full and report its bytes.
    ReadArchive,
    /// Carry out the plan on the archive, and report how the process ended
    /// and whether the executable exists.
    Unpack { plan: UnpackPlan, archive: Vec<u8> },
    /// Give the new executable the permissions of the active one.
    CopyPermissions { new: Location },
    /// Run the new executable with the version flag and report how the
    /// process ended and what it wrote to its standard output.
    Verify { new: Location },
    /// Put the new executable in the place of the active one.
    Replace { strategy: ReplaceStrategy, new: Location },
    /// Nothing more: the upgrade has ended well.
    Finish(Outcome),
    /// Nothing more: the upgrade has failed.
    Abort(UpgradeError),
}

/// What an [`Action`] stands for.
#[verifier::ext_equal]
pub enum ActionView {
    FetchLatest { url: Seq<char> },
    FetchArchive { url: Seq<char> },
    ReadArchive,
    Unpack { plan: UnpackPlanView, archive: Seq<u8> },
    CopyPermissions { new: LocationView },
    Verify { new: LocationView },
    Replace { strategy: ReplaceStrategy, new: LocationView },
    Finish(Outcome),
    Abort(UpgradeError),
}

impl View for Action {
    type V = ActionView;

    open spec fn view(&self) -> ActionView {
        match self {
            Action::FetchLatest { url } => ActionView::FetchLatest { url: url@ },
            Action::FetchArchive { url } => ActionView::FetchArchive { url: url@ },
            Action::ReadArchive => ActionView::ReadArchive,
            Action::Unpack { plan, archive } => ActionView::Unpack {
                plan: plan@,
                archive: archive@,
            },
            Action::CopyPermissions { new } => ActionView::CopyPermissions { new: new@ },
            Action::Verify { new } => ActionView::Verify { new: new@ },
            Action::Replace { strategy, new } => ActionView::Replace {
                strategy: *strategy,
                new: new@,
            },
            Action::Finish(outcome) => ActionView::Finish(*outcome),
            Action::Abort(error) => ActionView::Abort(*error),
        }
    }
}

/// The state of an upgrade.
#[derive(Debug)]
pub struct UpgradePipeline {
    /// What the pipeline is waiting for.
    pub stage: Stage,
    /// Whether the upgrade stops after verification.
    pub dry_run: bool,
    /// Whether the upgrade goes ahead although the target is installed.
    pub force: bool,
    /// The host.
    pub platform: Platform,
    /// The installed version.
    pub current: Version,
    /// The version to install, once it is decided.
    pub target: Option<Version>,
}

/// What an [`UpgradePipeline`] stands for.
#[verifier::ext_equal]
pub struct PipelineView {
    pub stage: Stage,
    pub dry_run: bool,
    pub force: bool,
    pub platform: Platform,
    pub current: VersionView,
    pub target: Option<VersionView>,
}

impl View for UpgradePipeline {
    type V = PipelineView;

    open spec fn view(&self) -> PipelineView {
        PipelineView {
            stage: self.stage,
            dry_run: self.dry_run,
            force: self.force,
            platform: self.platform,
            current: self.current@,
            target: match self.target {
                Some(v) => Some(v@),
                None => None,
            },
        }
    }
}

/// One step of the pipeline: its state afterwards, the stage boundary that
/// it passed, if any, and the action that it asks for.
#[derive(Debug)]
pub struct Step {
    pub pipeline: UpgradePipeline,
    pub status: Option<Status>,
    pub action: Action,
}

/// What a [`Step`] stands for.
#[verifier::ext_equal]
pub struct StepView {
    pub pipeline: PipelineView,
    pub status: Option<Status>,
    pub action: ActionView,
}

impl View for Step {
    type V = StepView;

    open spec fn view(&self) -> StepView {
        StepView { pipeline: self.pipeline@, status: self.status, action: self.action@ }
    }
}

/// The pipeline `p` at another stage.
pub open spec fn at_stage(p: PipelineView, stage: Stage) -> PipelineView {
    PipelineView { stage, ..p }
}

/// The step that ends the upgrade with `error`.
pub open spec fn halt_of(p: PipelineView, error: UpgradeError) -> StepView {
    StepView { pipeline: at_stage(p, Stage::Failed), status: None, action: ActionView::Abort(error) }
}

/// The step that ends the upgrade well.
pub open spec fn finish_of(p: PipelineView, status: Option<Status>, outcome: Outcome) -> StepView {
    StepView { pipeline: at_stage(p, Stage::Finished), status, action: ActionView::Finish(outcome) }
}

/// The step that moves on to `stage`.
pub open spec fn advance_of(
    p: PipelineView,
    stage: Stage,
    status: Option<Status>,
    action: ActionView,
) -> StepView {
    StepView { pipeline: at_stage(p, stage), status, action }
}

/// The step that settles on `target` and asks for its archive.
pub open spec fn begin_fetch_of(p: PipelineView, target: VersionView) -> StepView {
    match address_of(download_text(target, p.platform)) {
        Ok(url) => StepView {
            pipeline: PipelineView { stage: Stage::Fetching, target: Some(target), ..p },
            status: Some(Status::FetchStarted),
            action: ActionView::FetchArchive { url },
        },
        Err(e) => halt_of(p, e),
    }
}

/// The pipeline before its first step.
pub open spec fn initial_of(dry_run: bool, force: bool, current: VersionView, platform: Platform) ->
    PipelineView {
    PipelineView { stage: Stage::ResolvingLatest, dry_run, force, platform, current, target: None }
}

/// The first step of an upgrade.
///
/// With a requested version: a text that is no version ends the upgrade; the
/// installed version, unless `force` is set, ends it well without any
/// request; every other version is fetched. Without one, the release page is
/// asked for.
pub open spec fn start_of(
    dry_run: bool,
    force: bool,
    requested: Option<Seq<char>>,
    current: VersionView,
    platform: Platform,
) -> StepView {
    let p = initial_of(dry_run, force, current, platform);
    match requested {
        Some(text) => match read_of(text) {
            Some(v) => if !force && current == v {
                finish_of(p, None, Outcome::AlreadyInstalled)
            } else {
                begin_fetch_of(p, v)
            },
            None => halt_of(p, UpgradeError::InvalidVersion),
        },
        None => match address_of(LATEST_RELEASE_PAGE@) {
            Ok(url) => advance_of(p, Stage::ResolvingLatest, None, ActionView::FetchLatest { url }),
            Err(e) => halt_of(p, e),
        },
    }
}

/// The strategy by which `platform` unpacks the archive published for it.
pub open spec fn platform_strategy_of(platform: Platform) -> ExtractStrategy {
    if platform == Platform::Windows {
        ExtractStrategy::PowershellExpand
    } else {
        ExtractStrategy::Unzip
    }
}

/// The step that the pipeline `p` takes on `event`.
///
/// Every stage takes the events that answer its action. A failure among them
/// ends the upgrade with the matching error, and so does an event that the
/// stage was not waiting for. Once the upgrade has ended, the pipeline stays
/// as it is and answers every event with `Abort(UnexpectedEvent)`.
#[verifier::opaque]
pub open spec fn step_of(p: PipelineView, event: EventView) -> StepView {
    match p.stage {
        Stage::ResolvingLatest => match event {
            EventView::PageFetched(body) => match latest_version_of(body) {
                Ok(latest) => if !p.force && version_ge(p.current, latest) {
                    finish_of(p, None, Outcome::AlreadyLatest)
                } else {
                    begin_fetch_of(p, latest)
                },
                Err(e) => halt_of(p, e),
            },
            EventView::TransportFailed => halt_of(p, UpgradeError::Network),
            _ => halt_of(p, UpgradeError::UnexpectedEvent),
        },
        Stage::Fetching => match event {
            EventView::ArchiveFetched(status) => match download_outcome_of(status) {
                Ok(_) => advance_of(p, Stage::Downloading, None, ActionView::ReadArchive),
                Err(e) => halt_of(p, e),
            },
            EventView::TransportFailed => halt_of(p, UpgradeError::Network),
            _ => halt_of(p, UpgradeError::UnexpectedEvent),
        },
        Stage::Downloading => match (event, p.target) {
            (EventView::ArchiveRead(archive), Some(target)) => advance_of(
                p,
                Stage::Unpacking,
                Some(Status::FetchSucceeded),
                ActionView::Unpack {
                    plan: unpack_plan_of(platform_strategy_of(p.platform), target, p.platform),
                    archive,
                },
            ),
            (EventView::TransportFailed, _) => halt_of(p, UpgradeError::Network),
            _ => halt_of(p, UpgradeError::UnexpectedEvent),
        },
        Stage::Unpacking => match (event, p.target) {
            (EventView::Unpacked { exit_success, executable_exists }, Some(target)) => match unpacked_of(
                exit_success,
                executable_exists,
            ) {
                Ok(_) => advance_of(
                    p,
                    Stage::CopyingPermissions,
                    Some(Status::ExtractionSucceeded),
                    ActionView::CopyPermissions { new: location_of(target, p.platform) },
                ),
                Err(e) => halt_of(p, e),
            },
            (EventView::IoFailed, _) => halt_of(p, UpgradeError::Io),
            _ => halt_of(p, UpgradeError::UnexpectedEvent),
        },
        Stage::CopyingPermissions => match (event, p.target) {
            (EventView::PermissionsCopied, Some(target)) => advance_of(
                p,
                Stage::Verifying,
                None,
                ActionView::Verify { new: location_of(target, p.platform) },
            ),
            (EventView::IoFailed, _) => halt_of(p, UpgradeError::Io),
            _ => halt_of(p, UpgradeError::UnexpectedEvent),
        },
        Stage::Verifying => match (event, p.target) {
            (EventView::VersionReported { exit_success, output }, Some(target)) => match check_of(
                exit_success,
                output,
                target,
            ) {
                Ok(_) => if p.dry_run {
                    finish_of(p, Some(Status::VerificationSucceeded), Outcome::Verified)
                } else {
                    advance_of(
                        p,
                        Stage::Replacing,
                        Some(Status::VerificationSucceeded),
                        ActionView::Replace {
                            strategy: replace_strategy_of(p.platform),
                            new: location_of(target, p.platform),
                        },
                    )
                },
                Err(e) => halt_of(p, e),
            },
            (EventView::IoFailed, _) => halt_of(p, UpgradeError::Io),
            _ => halt_of(p, UpgradeError::UnexpectedEvent),
        },
        Stage::Replacing => match event {
            EventView::Replaced => finish_of(
                p,
                Some(Status::ReplacementSucceeded),
                Outcome::Upgraded,
            ),
            EventView::ReplaceFailed(step) => halt_of(p, UpgradeError::Replace(step)),
            EventView::IoFailed => halt_of(p, UpgradeError::Io),
            _ => halt_of(p, UpgradeError::UnexpectedEvent),
        },
        Stage::Finished | Stage::Failed => StepView {
            pipeline: p,
            status: None,
            action: ActionView::Abort(UpgradeError::UnexpectedEvent),
        },
    }
}

impl UpgradePipeline {
    /// Ends the upgrade with `error`.
    fn halt(self, error: UpgradeError) -> (r: Step)
        ensures
            r@ == halt_of(self@, error),
    {
        Step {
            pipeline: UpgradePipeline {
                stage: Stage::Failed,
                dry_run: self.dry_run,
                force: self.force,
                platform: self.platform,
                current: self.current,
                target: self.target,
            },
            status: None,
            action: Action::Abort(error),
        }
    }

    /// Ends the upgrade well.
    fn finish(self, status: Option<Status>, outcome: Outcome) -> (r: Step)
        ensures
            r@ == finish_of(self@, status, outcome),
    {
        Step {
            pipeline: UpgradePipeline {
                stage: Stage::Finished,
                dry_run: self.dry_run,
                force: self.force,
                platform: self.platform,
                current: self.current,
                target: self.target,
            },
            status,
            action: Action::Finish(outcome),
        }
    }

    /// Moves on to `stage`.
    fn advance(self, stage: Stage, status: Option<Status>, action: Action) -> (r: Step)
        ensures
            r@ == advance_of(self@, stage, status, action@),
    {
        Step {
            pipeline: UpgradePipeline {
                stage,
                dry_run: self.dry_run,
                force: self.force,
                platform: self.platform,
                current: self.current,
                target: self.target,
            },
            status,
            action,
        }
    }

    /// Settles on `target` and asks for its archive.
    fn begin_fetch(self, target: Version) -> (r: Step)
        ensures
            r@ == begin_fetch_of(self@, target@),
    {
        match compose_url_to_exec(&target, self.platform) {
            Ok(url) => Step {
                pipeline: UpgradePipeline {
                    stage: Stage::Fetching,
                    dry_run: self.dry_run,
                    force: self.force,
                    platform: self.platform,
                    current: self.current,
                    target: Some(target),
                },
                status: Some(Status::FetchStarted),
                action: Action::FetchArchive { url },
            },
            Err(e) => self.halt(e),
        }
    }

    /// Takes the step that `event` calls for.
    pub fn step(self, event: Event) -> (r: Step)
        ensures
            r@ == step_of(self@, event@),
    {
        proof {
            reveal(step_of);
        }
        match self.stage {
            Stage::ResolvingLatest => match event {
                Event::PageFetched(body) => match get_latest_version(body.as_str()) {
                    Ok(latest) => {
                        if !self.force && self.current.is_at_least(&latest) {
                            self.finish(None, Outcome::AlreadyLatest)
                        } else {
                            self.begin_fetch(latest)
                        }
                    },
                    Err(e) => self.halt(e),
                },
                Event::TransportFailed => self.halt(UpgradeError::Network),
                _ => self.halt(UpgradeError::UnexpectedEvent),
            },
            Stage::Fetching => match event {
                Event::ArchiveFetched(status) => match download_package(status) {
                    Ok(_) => self.advance(Stage::Downloading, None, Action::ReadArchive),
                    Err(e) => self.halt(e),
                },
                Event::TransportFailed => self.halt(UpgradeError::Network),
                _ => self.halt(UpgradeError::UnexpectedEvent),
            },
            Stage::Downloading => match event {
                Event::ArchiveRead(archive) => match &self.target {
                    Some(target) => {
                        let plan = unpack(target, self.platform);
                        self.advance(
                            Stage::Unpacking,
                            Some(Status::FetchSucceeded),
                            Action::Unpack { plan, archive },
                        )
                    },
                    None => self.halt(UpgradeError::UnexpectedEvent),
                },
                Event::TransportFailed => self.halt(UpgradeError::Network),
                _ => self.halt(UpgradeError::UnexpectedEvent),
            },
            Stage::Unpacking => match event {
                Event::Unpacked { exit_success, executable_exists } => match &self.target {
                    Some(target) => match unpacked(exit_success, executable_exists) {
                        Ok(_) => {
                            let new = locate(target, self.platform);
                            self.advance(
                                Stage::CopyingPermissions,
                                Some(Status::ExtractionSucceeded),
                                Action::CopyPermissions { new },
                            )
                        },
                        Err(e) => self.halt(e),
                    },
                    None => self.halt(UpgradeError::UnexpectedEvent),
                },
                Event::IoFailed => self.halt(UpgradeError::Io),
                _ => self.halt(UpgradeError::UnexpectedEvent),
            },
            Stage::CopyingPermissions => match event {
                Event::PermissionsCopied => match &self.target {
                    Some(target) => {
                        let new = locate(target, self.platform);
                        self.advance(Stage::Verifying, None, Action::Verify { new })
                    },
                    None => self.halt(UpgradeError::UnexpectedEvent),
                },
                Event::IoFailed => self.halt(UpgradeError::Io),
                _ => self.halt(UpgradeError::UnexpectedEvent),
            },
            Stage::Verifying => match event {
                Event::VersionReported { exit_success, output } => match &self.target {
                    Some(target) => match check_exe(exit_success, output, target) {
                        Ok(_) => {
                            if self.dry_run {
                                self.finish(
                                    Some(Status::VerificationSucceeded),
                                    Outcome::Verified,
                                )
                            } else {
                                let strategy = self.platform.replace_strategy();
                                let new = locate(target, self.platform);
                                self.advance(
                                    Stage::Replacing,
                                    Some(Status::VerificationSucceeded),
                                    Action::Replace { strategy, new },
                                )
                            }
                        },
                        Err(e) => self.halt(e),
                    },
                    None => self.halt(UpgradeError::UnexpectedEvent),
                },
                Event::IoFailed => self.halt(UpgradeError::Io),
                _ => self.halt(UpgradeError::UnexpectedEvent),
            },
            Stage::Replacing => match event {
                Event::Replaced => self.finish(
                    Some(Status::ReplacementSucceeded),
                    Outcome::Upgraded,
                ),
                Event::ReplaceFailed(step) => self.halt(UpgradeError::Replace(step)),
                Event::IoFailed => self.halt(UpgradeError::Io),
                _ => self.halt(UpgradeError::UnexpectedEvent),
            },
            Stage::Finished | Stage::Failed => Step {
                pipeline: self,
                status: None,
                action: Action::Abort(UpgradeError::UnexpectedEvent),
            },
        }
    }
}

/// The text of a requested version, if one was given.
pub open spec fn requested_view(requested: Option<String>) -> Option<Seq<char>> {
    match requested {
        Some(text) => Some(text@),
        None => None,
    }
}

/// Takes the first step of an upgrade from the installed version `current`
/// on `platform`: to the version that `version` names or, without one, to
/// the newest release.
pub fn upgrade_command(
    dry_run: bool,
    force: bool,
    version: Option<String>,
    current: Version,
    platform: Platform,
) -> (r: Step)
    ensures
        r@ == start_of(dry_run, force, requested_view(version), current@, platform),
{
    let pipeline = UpgradePipeline {
        stage: Stage::ResolvingLatest,
        dry_run,
        force,
        platform,
        current,
        target: None,
    };
    match version {
        Some(text) => match parse(text.as_str()) {
            Ok(v) => {
                if !force && pipeline.current == v {
                    pipeline.finish(None, Outcome::AlreadyInstalled)
                } else {
                    pipeline.begin_fetch(v)
                }
            },
            Err(e) => pipeline.halt(e),
        },
        None => match address(LATEST_RELEASE_PAGE) {
            Ok(url) => pipeline.advance(
                Stage::ResolvingLatest,
                None,
                Action::FetchLatest { url },
            ),
            Err(e) => pipeline.halt(e),
        },
    }
}

} // verus!
