//! The history of a run of the upgrade pipeline: the stage boundaries that
//! it reports on its way, and what lies behind a run that ends well.

use crate::error::UpgradeError;
use crate::fetch::download_text;
use crate::integrity::check_of;
use crate::platform::{replace_strategy_of, Platform};
use crate::runs::{actions_of, ended, run_of};
use crate::unpack::location_of;
use crate::upgrade::{
    start_of, step_of, ActionView, EventView, Outcome, PipelineView, Stage, Status, StepView,
};
use crate::version::VersionView;
use vstd::prelude::*;

verus! {

/// The pipeline after it has been fed `events`, one after the other.
pub open spec fn pipeline_after(p: PipelineView, events: Seq<EventView>) -> PipelineView
    decreases events.len(),
{
    if events.len() == 0 {
        p
    } else {
        step_of(pipeline_after(p, events.drop_last()), events.last()).pipeline
    }
}

/// The last step that the pipeline `p` takes while it is fed `events`.
pub open spec fn last_step(p: PipelineView, events: Seq<EventView>) -> StepView
    recommends
        events.len() > 0,
{
    step_of(pipeline_after(p, events.drop_last()), events.last())
}

/// The stage boundary that a step reports, as a sequence.
pub open spec fn told(status: Option<Status>) -> Seq<Status> {
    match status {
        Some(status) => seq![status],
        None => Seq::empty(),
    }
}

/// The stage boundaries that the pipeline `p` reports while it is fed
/// `events`, one after the other.
pub open spec fn statuses_of(p: PipelineView, events: Seq<EventView>) -> Seq<Status>
    decreases events.len(),
{
    if events.len() == 0 {
        Seq::empty()
    } else {
        let s = step_of(p, events[0]);
        told(s.status) + statuses_of(s.pipeline, events.drop_first())
    }
}

/// The stage boundaries of a whole run: that of the first step, if any,
/// then those that the events call for.
pub open spec fn run_statuses_of(first: StepView, events: Seq<EventView>) -> Seq<Status> {
    told(first.status) + statuses_of(first.pipeline, events)
}

/// The stage boundaries of an upgrade that stops after verification.
pub open spec fn verified_statuses() -> Seq<Status> {
    seq![
        Status::FetchStarted,
        Status::FetchSucceeded,
        Status::ExtractionSucceeded,
        Status::VerificationSucceeded,
    ]
}

/// The stage boundaries of an upgrade that replaces the active executable.
pub open spec fn upgraded_statuses() -> Seq<Status> {
    seq![
        Status::FetchStarted,
        Status::FetchSucceeded,
        Status::ExtractionSucceeded,
        Status::VerificationSucceeded,
        Status::ReplacementSucceeded,
    ]
}

/// The stage boundaries that lie behind a pipeline at `stage`.
pub open spec fn passed(stage: Stage) -> Seq<Status> {
    match stage {
        Stage::ResolvingLatest => Seq::empty(),
        Stage::Fetching | Stage::Downloading => seq![Status::FetchStarted],
        Stage::Unpacking => seq![Status::FetchStarted, Status::FetchSucceeded],
        Stage::CopyingPermissions | Stage::Verifying => seq![
            Status::FetchStarted,
            Status::FetchSucceeded,
            Status::ExtractionSucceeded,
        ],
        _ => verified_statuses(),
    }
}

/// Each step that goes on reports the stage boundary that it passes, if it
/// passes one; the steps that end the upgrade well report the last.
proof fn lemma_step_passes_boundary(p: PipelineView, event: EventView)
    ensures
        ({
            let s = step_of(p, event);
            &&& !ended(s.pipeline.stage) ==> passed(p.stage) + told(s.status) == passed(
                s.pipeline.stage,
            )
            &&& s.action == ActionView::Finish(Outcome::Verified) ==> passed(p.stage) + told(
                s.status,
            ) == verified_statuses()
            &&& s.action == ActionView::Finish(Outcome::Upgraded) ==> passed(p.stage) + told(
                s.status,
            ) == upgraded_statuses()
        }),
{
    reveal(step_of);
    let s = step_of(p, event);
    if !ended(s.pipeline.stage) {
        assert(passed(p.stage) + told(s.status) =~= passed(s.pipeline.stage));
    }
    if s.action == ActionView::Finish(Outcome::Verified) {
        assert(passed(p.stage) + told(s.status) =~= verified_statuses());
    }
    if s.action == ActionView::Finish(Outcome::Upgraded) {
        assert(passed(p.stage) + told(s.status) =~= upgraded_statuses());
    }
}

/// Feeding the events from the front or from the back comes to the same
/// pipeline.
pub proof fn lemma_pipeline_after_unfold(p: PipelineView, events: Seq<EventView>)
    requires
        events.len() > 0,
    ensures
        pipeline_after(p, events) == pipeline_after(
            step_of(p, events[0]).pipeline,
            events.drop_first(),
        ),
    decreases events.len(),
{
    let q = step_of(p, events[0]).pipeline;
    let front = events.drop_last();
    let back = events.drop_first();
    if events.len() == 1 {
        assert(front.len() == 0);
        assert(back.len() == 0);
        assert(pipeline_after(p, front) == p);
        assert(pipeline_after(q, back) == q);
        assert(events.last() == events[0]);
    } else {
        lemma_pipeline_after_unfold(p, front);
        assert(front[0] == events[0]);
        assert(front.drop_first() =~= back.drop_last());
        assert(back.last() == events.last());
        assert(back.len() > 0);
        assert(pipeline_after(q, back) == step_of(
            pipeline_after(q, back.drop_last()),
            back.last(),
        ).pipeline);
    }
}

/// Once the upgrade has ended, it stays ended.
pub proof fn lemma_ended_stays_ended(p: PipelineView, events: Seq<EventView>)
    requires
        ended(p.stage),
    ensures
        pipeline_after(p, events) == p,
    decreases events.len(),
{
    reveal(step_of);
    if events.len() > 0 {
        lemma_ended_stays_ended(p, events.drop_last());
    }
}

/// A run that ends `Upgraded` has reported every stage boundary that still
/// lay ahead of the pipeline, once and in order; a run that ends `Verified`
/// every one but the replacement.
proof fn lemma_statuses_complete(p: PipelineView, events: Seq<EventView>)
    requires
        events.len() > 0,
    ensures
        last_step(p, events).action == ActionView::Finish(Outcome::Upgraded) ==> passed(p.stage)
            + statuses_of(p, events) == upgraded_statuses(),
        last_step(p, events).action == ActionView::Finish(Outcome::Verified) ==> passed(p.stage)
            + statuses_of(p, events) == verified_statuses(),
    decreases events.len(),
{
    reveal(step_of);
    let s = step_of(p, events[0]);
    let rest = events.drop_first();
    let behind = passed(p.stage);
    lemma_step_passes_boundary(p, events[0]);
    if events.len() == 1 {
        assert(events.drop_last() =~= Seq::<EventView>::empty());
        assert(events.last() == events[0]);
        assert(last_step(p, events) == s);
        assert(statuses_of(s.pipeline, rest) =~= Seq::<Status>::empty());
        assert(behind + statuses_of(p, events) =~= behind + told(s.status));
    } else {
        assert(rest.drop_last() =~= events.drop_last().drop_first());
        assert(rest.last() == events.last());
        assert(events.drop_last()[0] == events[0]);
        lemma_pipeline_after_unfold(p, events.drop_last());
        assert(last_step(s.pipeline, rest) == last_step(p, events));
        if ended(s.pipeline.stage) {
            lemma_ended_stays_ended(s.pipeline, rest.drop_last());
            assert(last_step(s.pipeline, rest).action == ActionView::Abort(
                UpgradeError::UnexpectedEvent,
            ));
        } else {
            lemma_statuses_complete(s.pipeline, rest);
            let later = statuses_of(s.pipeline, rest);
            assert(behind + statuses_of(p, events) =~= (behind + told(s.status)) + later);
        }
    }
}

/// A run that ends `Upgraded` has reported, once and in this order, that the
/// fetch started and succeeded and that the extraction, the verification and
/// the replacement succeeded. A run that ends `Verified` has reported the
/// same but for the replacement.
pub proof fn lemma_finished_run_reports_every_stage(
    dry_run: bool,
    force: bool,
    requested: Option<Seq<char>>,
    current: VersionView,
    platform: Platform,
    events: Seq<EventView>,
)
    requires
        events.len() > 0,
    ensures
        ({
            let first = start_of(dry_run, force, requested, current, platform);
            let last = last_step(first.pipeline, events).action;
            let statuses = run_statuses_of(first, events);
            &&& last == ActionView::Finish(Outcome::Upgraded) ==> statuses == upgraded_statuses()
            &&& last == ActionView::Finish(Outcome::Verified) ==> statuses == verified_statuses()
        }),
{
    reveal(step_of);
    let first = start_of(dry_run, force, requested, current, platform);
    let last = last_step(first.pipeline, events).action;
    if ended(first.pipeline.stage) {
        lemma_ended_stays_ended(first.pipeline, events.drop_last());
    } else {
        lemma_statuses_complete(first.pipeline, events);
        assert(told(first.status) =~= passed(first.pipeline.stage));
    }
}

/// A run that ends `Upgraded` ends on the news of the replacement, and the
/// step before asked for it: it took the answer of the new executable
/// to the version query, found it to name exactly the target version, and
/// asked for the executable of that version to be put in the place of the
/// active one. Such a run is no dry run.
pub proof fn lemma_upgraded_run_installed_the_verified_target(
    dry_run: bool,
    force: bool,
    requested: Option<Seq<char>>,
    current: VersionView,
    platform: Platform,
    events: Seq<EventView>,
)
    requires
        events.len() > 0,
        last_step(start_of(dry_run, force, requested, current, platform).pipeline, events).action
            == ActionView::Finish(Outcome::Upgraded),
    ensures
        ({
            let first = start_of(dry_run, force, requested, current, platform);
            let earlier = events.drop_last();
            let verifying = pipeline_after(first.pipeline, earlier.drop_last());
            let report = earlier.last();
            &&& !dry_run
            &&& events.len() >= 2
            &&& events.last() == EventView::Replaced
            &&& verifying.stage == Stage::Verifying
            &&& verifying.target is Some
            &&& report is VersionReported
            &&& check_of(
                report->VersionReported_exit_success,
                report->VersionReported_output,
                verifying.target->0,
            ) is Ok
            &&& last_step(first.pipeline, earlier).action == ActionView::Replace {
                strategy: replace_strategy_of(platform),
                new: location_of(verifying.target->0, platform),
            }
        }),
{
    reveal(step_of);
    let first = start_of(dry_run, force, requested, current, platform);
    let earlier = events.drop_last();
    let replacing = pipeline_after(first.pipeline, earlier);
    assert(replacing.stage == Stage::Replacing);
    lemma_settings_are_kept(first.pipeline, earlier.drop_last());
}

/// No run changes the flags, the platform or the installed version.
pub proof fn lemma_settings_are_kept(p: PipelineView, events: Seq<EventView>)
    ensures
        ({
            let q = pipeline_after(p, events);
            &&& q.dry_run == p.dry_run
            &&& q.force == p.force
            &&& q.platform == p.platform
            &&& q.current == p.current
        }),
    decreases events.len(),
{
    reveal(step_of);
    if events.len() > 0 {
        lemma_settings_are_kept(p, events.drop_last());
    }
}

/// The target, once it is settled, stays what it is.
pub proof fn lemma_target_is_kept(p: PipelineView, events: Seq<EventView>)
    requires
        p.stage != Stage::ResolvingLatest,
    ensures
        pipeline_after(p, events).target == p.target,
        pipeline_after(p, events).stage != Stage::ResolvingLatest,
    decreases events.len(),
{
    reveal(step_of);
    if events.len() > 0 {
        lemma_target_is_kept(p, events.drop_last());
    }
}

/// In a run that ends `Upgraded`, the version that was verified and put in
/// the place of the active executable is the version whose archive the run
/// asked for.
pub proof fn lemma_upgraded_run_fetched_its_target(
    dry_run: bool,
    force: bool,
    requested: Option<Seq<char>>,
    current: VersionView,
    platform: Platform,
    events: Seq<EventView>,
)
    requires
        events.len() > 0,
        last_step(start_of(dry_run, force, requested, current, platform).pipeline, events).action
            == ActionView::Finish(Outcome::Upgraded),
    ensures
        ({
            let first = start_of(dry_run, force, requested, current, platform);
            let target = pipeline_after(first.pipeline, events.drop_last()).target;
            &&& target is Some
            &&& run_of(first, events).contains(
                ActionView::FetchArchive { url: download_text(target->0, platform) },
            )
        }),
{
    reveal(step_of);
    let first = start_of(dry_run, force, requested, current, platform);
    let run = run_of(first, events);
    let earlier = events.drop_last();
    let last = pipeline_after(first.pipeline, earlier);
    assert(last.stage == Stage::Replacing);
    if ended(first.pipeline.stage) {
        lemma_ended_stays_ended(first.pipeline, earlier);
    } else if first.pipeline.stage == Stage::Fetching {
        lemma_target_is_kept(first.pipeline, earlier);
        assert(run[0] == first.action);
    } else {
        assert(earlier.len() > 0);
        let second = step_of(first.pipeline, events[0]);
        assert(earlier[0] == events[0]);
        lemma_pipeline_after_unfold(first.pipeline, earlier);
        let rest = earlier.drop_first();
        if ended(second.pipeline.stage) {
            lemma_ended_stays_ended(second.pipeline, rest);
        } else {
            lemma_target_is_kept(second.pipeline, rest);
            assert(actions_of(first.pipeline, events)[0] == second.action);
            assert(run[1] == second.action);
        }
    }
}

} // verus!
