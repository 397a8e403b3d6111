//! Whole runs of the upgrade pipeline, and what holds of every one of them:
//! how often the network is used, and when the archive is unpacked or the
//! active executable replaced.

use crate::error::UpgradeError;
use crate::fetch::{address_of, download_outcome_of, download_text};
use crate::integrity::check_of;
use crate::platform::Platform;
use crate::release::{latest_version_of, LATEST_RELEASE_PAGE};
use crate::upgrade::{
    start_of, step_of, ActionView, EventView, Outcome, PipelineView, Stage, StepView,
};
use crate::unpack::{location_of, unpack_plan_of};
use crate::version::{read_of, version_lt, version_text, VersionView};
use vstd::prelude::*;

verus! {

/// The kind of an action, whatever it carries.
#[derive(Clone, Copy, Debug, PartialEq, Eq, Structural)]
pub enum ActionKind {
    FetchLatest,
    FetchArchive,
    ReadArchive,
    Unpack,
    CopyPermissions,
    Verify,
    Replace,
    Finish,
    Abort,
}

/// The kind of `action`.
pub open spec fn kind_of(action: ActionView) -> ActionKind {
    match action {
        ActionView::FetchLatest { .. } => ActionKind::FetchLatest,
        ActionView::FetchArchive { .. } => ActionKind::FetchArchive,
        ActionView::ReadArchive => ActionKind::ReadArchive,
        ActionView::Unpack { .. } => ActionKind::Unpack,
        ActionView::CopyPermissions { .. } => ActionKind::CopyPermissions,
        ActionView::Verify { .. } => ActionKind::Verify,
        ActionView::Replace { .. } => ActionKind::Replace,
        ActionView::Finish(_) => ActionKind::Finish,
        ActionView::Abort(_) => ActionKind::Abort,
    }
}

/// The actions that the pipeline `p` asks for while it is fed `events`, one
/// after the other.
pub open spec fn actions_of(p: PipelineView, events: Seq<EventView>) -> Seq<ActionView>
    decreases events.len(),
{
    if events.len() == 0 {
        Seq::empty()
    } else {
        let s = step_of(p, events[0]);
        seq![s.action] + actions_of(s.pipeline, events.drop_first())
    }
}

/// The actions of a whole run: that of the first step, then those that the
/// events call for.
pub open spec fn run_of(first: StepView, events: Seq<EventView>) -> Seq<ActionView> {
    seq![first.action] + actions_of(first.pipeline, events)
}

/// How many of `actions` are of kind `kind`.
pub open spec fn occurrences(actions: Seq<ActionView>, kind: ActionKind) -> nat
    decreases actions.len(),
{
    if actions.len() == 0 {
        0
    } else {
        let rest = occurrences(actions.drop_first(), kind);
        if kind_of(actions[0]) == kind {
            rest + 1
        } else {
            rest
        }
    }
}

/// Whether the upgrade has ended.
pub open spec fn ended(stage: Stage) -> bool {
    stage == Stage::Finished || stage == Stage::Failed
}

/// The occurrences in a run are those of its first action and those of the
/// rest.
pub proof fn lemma_occurrences_of_run(first: StepView, events: Seq<EventView>, kind: ActionKind)
    ensures
        occurrences(run_of(first, events), kind) == occurrences(
            actions_of(first.pipeline, events),
            kind,
        ) + if kind_of(first.action) == kind {
            1nat
        } else {
            0nat
        },
{
    let run = run_of(first, events);
    assert(run.drop_first() =~= actions_of(first.pipeline, events));
}

/// The occurrences after a step are those of its action and those of the
/// rest.
pub proof fn lemma_occurrences_unfold(p: PipelineView, events: Seq<EventView>, kind: ActionKind)
    requires
        events.len() > 0,
    ensures
        occurrences(actions_of(p, events), kind) == occurrences(
            actions_of(step_of(p, events[0]).pipeline, events.drop_first()),
            kind,
        ) + if kind_of(step_of(p, events[0]).action) == kind {
            1nat
        } else {
            0nat
        },
{
    let s = step_of(p, events[0]);
    let actions = actions_of(p, events);
    assert(actions.drop_first() =~= actions_of(s.pipeline, events.drop_first()));
}

/// Once the upgrade has ended, the pipeline asks for nothing more: every
/// further action is an `Abort`.
pub proof fn lemma_ended_is_quiet(p: PipelineView, events: Seq<EventView>, kind: ActionKind)
    requires
        ended(p.stage),
        kind != ActionKind::Abort,
    ensures
        occurrences(actions_of(p, events), kind) == 0,
    decreases events.len(),
{
    reveal(step_of);
    if events.len() > 0 {
        lemma_occurrences_unfold(p, events, kind);
        lemma_ended_is_quiet(step_of(p, events[0]).pipeline, events.drop_first(), kind);
    }
}

/// The release page is never asked for after the first step.
pub proof fn lemma_no_later_page_fetch(p: PipelineView, events: Seq<EventView>)
    ensures
        occurrences(actions_of(p, events), ActionKind::FetchLatest) == 0,
    decreases events.len(),
{
    reveal(step_of);
    if events.len() > 0 {
        lemma_occurrences_unfold(p, events, ActionKind::FetchLatest);
        lemma_no_later_page_fetch(step_of(p, events[0]).pipeline, events.drop_first());
    }
}

/// After the first step the archive is asked for at most once, and only
/// while the pipeline still waits for the release page.
pub proof fn lemma_at_most_one_archive_fetch(p: PipelineView, events: Seq<EventView>)
    ensures
        occurrences(actions_of(p, events), ActionKind::FetchArchive) <= 1,
        p.stage != Stage::ResolvingLatest ==> occurrences(
            actions_of(p, events),
            ActionKind::FetchArchive,
        ) == 0,
    decreases events.len(),
{
    reveal(step_of);
    if events.len() > 0 {
        lemma_occurrences_unfold(p, events, ActionKind::FetchArchive);
        lemma_at_most_one_archive_fetch(step_of(p, events[0]).pipeline, events.drop_first());
    }
}

/// The archive is unpacked at most once, and never once the pipeline is past
/// fetching it.
pub proof fn lemma_at_most_one_unpack(p: PipelineView, events: Seq<EventView>)
    ensures
        occurrences(actions_of(p, events), ActionKind::Unpack) <= 1,
        p.stage != Stage::ResolvingLatest && p.stage != Stage::Fetching && p.stage
            != Stage::Downloading ==> occurrences(actions_of(p, events), ActionKind::Unpack) == 0,
    decreases events.len(),
{
    reveal(step_of);
    if events.len() > 0 {
        lemma_occurrences_unfold(p, events, ActionKind::Unpack);
        lemma_at_most_one_unpack(step_of(p, events[0]).pipeline, events.drop_first());
    }
}

/// A dry run never asks for the active executable to be replaced, whatever
/// is reported to it.
pub proof fn lemma_dry_run_never_replaces(p: PipelineView, events: Seq<EventView>)
    requires
        p.dry_run,
    ensures
        occurrences(actions_of(p, events), ActionKind::Replace) == 0,
    decreases events.len(),
{
    reveal(step_of);
    if events.len() > 0 {
        lemma_occurrences_unfold(p, events, ActionKind::Replace);
        lemma_dry_run_never_replaces(step_of(p, events[0]).pipeline, events.drop_first());
    }
}

/// No run of a dry run asks for the active executable to be replaced,
/// whatever is requested and whatever is reported: the replacement is the
/// one action that touches the active executable.
pub proof fn lemma_dry_run_leaves_active_executable(
    force: bool,
    requested: Option<Seq<char>>,
    current: VersionView,
    platform: Platform,
    events: Seq<EventView>,
)
    ensures
        occurrences(
            run_of(start_of(true, force, requested, current, platform), events),
            ActionKind::Replace,
        ) == 0,
{
    let first = start_of(true, force, requested, current, platform);
    lemma_occurrences_of_run(first, events, ActionKind::Replace);
    lemma_dry_run_never_replaces(first.pipeline, events);
}

/// Where the requested version is the installed one and `force` is not set,
/// the upgrade ends well with its first step and no run of it ever uses the
/// network.
pub proof fn lemma_installed_version_needs_no_network(
    dry_run: bool,
    requested: Seq<char>,
    current: VersionView,
    platform: Platform,
    events: Seq<EventView>,
)
    requires
        read_of(requested) == Some(current),
    ensures
        ({
            let first = start_of(dry_run, false, Some(requested), current, platform);
            let run = run_of(first, events);
            &&& first.action == ActionView::Finish(Outcome::AlreadyInstalled)
            &&& first.pipeline.stage == Stage::Finished
            &&& occurrences(run, ActionKind::FetchLatest) == 0
            &&& occurrences(run, ActionKind::FetchArchive) == 0
        }),
{
    reveal(step_of);
    let first = start_of(dry_run, false, Some(requested), current, platform);
    lemma_occurrences_of_run(first, events, ActionKind::FetchLatest);
    lemma_occurrences_of_run(first, events, ActionKind::FetchArchive);
    lemma_ended_is_quiet(first.pipeline, events, ActionKind::FetchLatest);
    lemma_ended_is_quiet(first.pipeline, events, ActionKind::FetchArchive);
}

/// Where a version is requested that is not the installed one, or `force`
/// is set, every run asks for the archive exactly once, with its first
/// step, and never for the release page. (Were the address of the archive no
/// URL, the upgrade would end there, without any request.)
pub proof fn lemma_requested_version_is_fetched_once(
    dry_run: bool,
    force: bool,
    requested: Seq<char>,
    current: VersionView,
    platform: Platform,
    events: Seq<EventView>,
)
    requires
        read_of(requested) is Some,
        force || read_of(requested) != Some(current),
    ensures
        ({
            let target = read_of(requested)->0;
            let first = start_of(dry_run, force, Some(requested), current, platform);
            let run = run_of(first, events);
            let reachable = address_of(download_text(target, platform)) is Ok;
            &&& occurrences(run, ActionKind::FetchLatest) == 0
            &&& occurrences(run, ActionKind::FetchArchive) == if reachable {
                1nat
            } else {
                0nat
            }
            &&& reachable ==> first.action == ActionView::FetchArchive {
                url: download_text(target, platform),
            }
        }),
{
    reveal(step_of);
    let first = start_of(dry_run, force, Some(requested), current, platform);
    lemma_occurrences_of_run(first, events, ActionKind::FetchLatest);
    lemma_occurrences_of_run(first, events, ActionKind::FetchArchive);
    lemma_no_later_page_fetch(first.pipeline, events);
    lemma_at_most_one_archive_fetch(first.pipeline, events);
}

/// Where no version is requested, every run asks for the release page
/// exactly once, with its first step, and for the archive at most once.
/// The pipeline then waits for the page. (Were the address of the page no
/// URL, the upgrade would end there, without any request.)
pub proof fn lemma_latest_is_looked_up_once(
    dry_run: bool,
    force: bool,
    current: VersionView,
    platform: Platform,
    events: Seq<EventView>,
)
    ensures
        ({
            let first = start_of(dry_run, force, None, current, platform);
            let run = run_of(first, events);
            let reachable = address_of(LATEST_RELEASE_PAGE@) is Ok;
            &&& occurrences(run, ActionKind::FetchLatest) == if reachable {
                1nat
            } else {
                0nat
            }
            &&& occurrences(run, ActionKind::FetchArchive) <= 1
            &&& !reachable ==> occurrences(run, ActionKind::FetchArchive) == 0
            &&& reachable ==> first.pipeline.stage == Stage::ResolvingLatest && first.action
                == ActionView::FetchLatest { url: LATEST_RELEASE_PAGE@ }
        }),
{
    reveal(step_of);
    let first = start_of(dry_run, force, None, current, platform);
    lemma_occurrences_of_run(first, events, ActionKind::FetchLatest);
    lemma_occurrences_of_run(first, events, ActionKind::FetchArchive);
    lemma_no_later_page_fetch(first.pipeline, events);
    lemma_at_most_one_archive_fetch(first.pipeline, events);
}

/// Where the pipeline waits for the release page and the page names a
/// release that is newer than the installed version, or `force` is set, the
/// step that takes the page asks for the archive of that release, and no
/// run asks for it again, nor for the page. (Were the address of the archive
/// no URL, the upgrade would end there, without a request.)
pub proof fn lemma_newer_release_is_fetched_once(
    p: PipelineView,
    body: Seq<char>,
    events: Seq<EventView>,
)
    requires
        p.stage == Stage::ResolvingLatest,
        latest_version_of(body) is Ok,
        p.force || version_lt(p.current, latest_version_of(body)->Ok_0),
    ensures
        ({
            let latest = latest_version_of(body)->Ok_0;
            let step = step_of(p, EventView::PageFetched(body));
            let run = run_of(step, events);
            let reachable = address_of(download_text(latest, p.platform)) is Ok;
            &&& occurrences(run, ActionKind::FetchLatest) == 0
            &&& occurrences(run, ActionKind::FetchArchive) == if reachable {
                1nat
            } else {
                0nat
            }
            &&& reachable ==> step.action == ActionView::FetchArchive {
                url: download_text(latest, p.platform),
            } && step.pipeline.target == Some(latest)
        }),
{
    reveal(step_of);
    let step = step_of(p, EventView::PageFetched(body));
    lemma_occurrences_of_run(step, events, ActionKind::FetchLatest);
    lemma_occurrences_of_run(step, events, ActionKind::FetchArchive);
    lemma_no_later_page_fetch(step.pipeline, events);
    lemma_at_most_one_archive_fetch(step.pipeline, events);
}

/// Where the pipeline waits for the release page and the page names nothing
/// newer than the installed version, without `force` the upgrade ends well
/// on the page, and no run asks for an archive.
pub proof fn lemma_latest_installed_fetches_no_archive(
    p: PipelineView,
    body: Seq<char>,
    events: Seq<EventView>,
)
    requires
        p.stage == Stage::ResolvingLatest,
        !p.force,
        latest_version_of(body) is Ok,
        !version_lt(p.current, latest_version_of(body)->Ok_0),
    ensures
        ({
            let step = step_of(p, EventView::PageFetched(body));
            let run = run_of(step, events);
            &&& step.action == ActionView::Finish(Outcome::AlreadyLatest)
            &&& occurrences(run, ActionKind::FetchLatest) == 0
            &&& occurrences(run, ActionKind::FetchArchive) == 0
        }),
{
    reveal(step_of);
    let step = step_of(p, EventView::PageFetched(body));
    lemma_occurrences_of_run(step, events, ActionKind::FetchLatest);
    lemma_occurrences_of_run(step, events, ActionKind::FetchArchive);
    lemma_ended_is_quiet(step.pipeline, events, ActionKind::FetchLatest);
    lemma_ended_is_quiet(step.pipeline, events, ActionKind::FetchArchive);
}

/// An archive that the server does not have is never read nor unpacked:
/// the status 404 ends the upgrade with `VersionNotFound`, and nothing that
/// is reported afterwards leads to an extraction.
pub proof fn lemma_missing_archive_is_never_unpacked(p: PipelineView, events: Seq<EventView>)
    requires
        p.stage == Stage::Fetching,
    ensures
        ({
            let first = step_of(p, EventView::ArchiveFetched(404));
            &&& first.action == ActionView::Abort(UpgradeError::VersionNotFound)
            &&& first.pipeline.stage == Stage::Failed
            &&& occurrences(run_of(first, events), ActionKind::ReadArchive) == 0
            &&& occurrences(run_of(first, events), ActionKind::Unpack) == 0
        }),
{
    reveal(step_of);
    let first = step_of(p, EventView::ArchiveFetched(404));
    lemma_occurrences_of_run(first, events, ActionKind::ReadArchive);
    lemma_occurrences_of_run(first, events, ActionKind::Unpack);
    lemma_ended_is_quiet(first.pipeline, events, ActionKind::ReadArchive);
    lemma_ended_is_quiet(first.pipeline, events, ActionKind::Unpack);
}

/// The body of an answer is read only where its status is no error.
pub proof fn lemma_read_follows_successful_fetch(p: PipelineView, event: EventView)
    requires
        kind_of(step_of(p, event).action) == ActionKind::ReadArchive,
    ensures
        p.stage == Stage::Fetching,
        event is ArchiveFetched,
        download_outcome_of(event->ArchiveFetched_0) is Ok,
        event->ArchiveFetched_0 != 404,
        step_of(p, event).pipeline.stage == Stage::Downloading,
{
    reveal(step_of);
}

/// What is unpacked is the body that was read, in full, and the pipeline
/// waits for a body only after [`lemma_read_follows_successful_fetch`].
pub proof fn lemma_unpack_follows_download(p: PipelineView, event: EventView)
    requires
        kind_of(step_of(p, event).action) == ActionKind::Unpack,
    ensures
        p.stage == Stage::Downloading,
        p.target is Some,
        event is ArchiveRead,
        step_of(p, event).action->Unpack_archive == event->ArchiveRead_0,
        step_of(p, event).action->Unpack_plan.directory == version_text(p.target->0),
{
    reveal(step_of);
    reveal(unpack_plan_of);
}

/// The pipeline comes to wait for the body of an answer only by the step
/// that asks for it.
pub proof fn lemma_downloading_follows_read(p: PipelineView, event: EventView)
    requires
        p.stage != Stage::Downloading,
        step_of(p, event).pipeline.stage == Stage::Downloading,
    ensures
        kind_of(step_of(p, event).action) == ActionKind::ReadArchive,
{
    reveal(step_of);
}

/// The active executable is replaced only by an executable that has just
/// reported exactly the target version, and never in a dry run.
pub proof fn lemma_replace_follows_verification(p: PipelineView, event: EventView)
    requires
        kind_of(step_of(p, event).action) == ActionKind::Replace,
    ensures
        !p.dry_run,
        p.stage == Stage::Verifying,
        p.target is Some,
        event is VersionReported,
        check_of(
            event->VersionReported_exit_success,
            event->VersionReported_output,
            p.target->0,
        ) is Ok,
        step_of(p, event).pipeline.target == p.target,
        step_of(p, event).action->Replace_new == location_of(p.target->0, p.platform),
{
    reveal(step_of);
}

/// The upgrade reports `Upgraded` only on the news that the replacement has
/// taken place, and `Verified` only in a dry run.
pub proof fn lemma_outcomes(p: PipelineView, event: EventView)
    ensures
        step_of(p, event).action == ActionView::Finish(Outcome::Upgraded) ==> p.stage
            == Stage::Replacing && event == EventView::Replaced,
        step_of(p, event).action == ActionView::Finish(Outcome::Verified) ==> p.stage
            == Stage::Verifying && p.dry_run,
{
    reveal(step_of);
}

} // verus!
