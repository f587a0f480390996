//! Whole runs of a deployment: what holds of every series of outcomes that a
//! driver may report. Until the publishing plan is handed out nothing touches
//! the site, and the publishing plan is handed out only after the archive was
//! fetched, unpacked and normalised without a failure.

use crate::pipeline::{
    begun, lemma_staging_is_no_site, staging_text, step, tarball_url_text, ActionView,
    EventView, JobRunView, Stage,
};
use crate::plan::{hoist_ops, publish_ops, wrapper_of};
use crate::queue::DeploymentView;
use crate::status::is_success;
use crate::tree::spares;
use vstd::prelude::*;

verus! {

/// Whether an action neither reads nor writes at or below the entry `name`
/// of the directory that holds the sites. Listing and probing only read, so
/// they count as sparing every entry.
pub open spec fn action_spares(action: ActionView, name: Seq<char>) -> bool {
    match action {
        ActionView::Clear { path } => path.len() > 0 && path[0] != name,
        ActionView::Unpack { into } => into.len() > 0 && into[0] != name,
        ActionView::Apply { plan } => forall|i: int|
            0 <= i < plan.len() ==> spares(#[trigger] plan[i], name),
        _ => true,
    }
}

/// The state of a deployment after the outcomes `events`, reported one after
/// the other.
pub open spec fn state_after(start: JobRunView, events: Seq<EventView>) -> JobRunView
    decreases events.len(),
{
    if events.len() == 0 {
        start
    } else {
        step(state_after(start, events.drop_last()), events.last()).0
    }
}

/// The action that the last of the outcomes `events` is answered with.
pub open spec fn action_after(start: JobRunView, events: Seq<EventView>) -> ActionView
    recommends
        events.len() > 0,
{
    step(state_after(start, events.drop_last()), events.last()).1
}

/// How many actions of a deployment that has not failed have had the outcome
/// that lets it go on; -1 for a deployment that has failed.
pub open spec fn progress(stage: Stage) -> int {
    match stage {
        Stage::Clearing => 0,
        Stage::Fetching => 1,
        Stage::Unpacking => 2,
        Stage::ListingTop => 3,
        Stage::ListingWrapper => 4,
        Stage::Hoisting => 5,
        Stage::Probing => 6,
        Stage::Publishing { had_site } => 7,
        Stage::Finished(Ok(_)) => 8,
        _ => -1,
    }
}

/// Whether `event` is the outcome that lets a deployment go on from its
/// action number `position`: the staging directory was cleared, the archive
/// was answered with a success, it was unpacked, the staging directory holds
/// one directory, that directory was listed, its content was lifted, the
/// site's place was probed, the content was published.
pub open spec fn lets_go_on(position: int, event: EventView) -> bool {
    if position == 0 || position == 2 || position == 5 || position == 7 {
        event is Done
    } else if position == 1 {
        event matches EventView::Status(status) && is_success(status)
    } else if position == 3 {
        event matches EventView::Entries { names, kinds } && wrapper_of(names, kinds) is Ok
    } else if position == 4 {
        event is Entries
    } else if position == 6 {
        event is Exists
    } else {
        true
    }
}

/// One step keeps the request and the site's name.
pub proof fn lemma_step_keeps_request(run: JobRunView, event: EventView)
    ensures
        step(run, event).0.site == run.site,
        step(run, event).0.job == run.job,
{
}

/// The action of one step spares the site unless the step hands out the
/// publishing plan.
pub proof fn lemma_step_spares_site(run: JobRunView, event: EventView)
    requires
        run.site != staging_text(),
    ensures
        action_spares(step(run, event).1, run.site) || step(run, event).0.stage is Publishing,
{
}

/// The site's name and the request stay what they were at the start.
pub proof fn lemma_run_keeps_site(start: JobRunView, events: Seq<EventView>)
    ensures
        state_after(start, events).site == start.site,
        state_after(start, events).job == start.job,
    decreases events.len(),
{
    if events.len() > 0 {
        lemma_run_keeps_site(start, events.drop_last());
        lemma_step_keeps_request(state_after(start, events.drop_last()), events.last());
    }
}

/// Whatever the driver reports, every action of a deployment spares the
/// site, except the publishing plan.
pub proof fn lemma_site_untouched_before_publishing(
    job: DeploymentView,
    root_domain: Seq<char>,
    events: Seq<EventView>,
)
    requires
        events.len() > 0,
    ensures
        action_spares(action_after(begun(job, root_domain), events), begun(job, root_domain).site)
            || state_after(begun(job, root_domain), events).stage is Publishing,
{
    let start = begun(job, root_domain);
    lemma_staging_is_no_site(job.domain, root_domain);
    lemma_run_keeps_site(start, events.drop_last());
    lemma_step_spares_site(state_after(start, events.drop_last()), events.last());
}

/// A deployment that has not failed has seen, for each of its actions so
/// far, the outcome that lets it go on, and nothing else.
pub proof fn lemma_progress_needs_success(
    job: DeploymentView,
    root_domain: Seq<char>,
    events: Seq<EventView>,
)
    ensures
        progress(state_after(begun(job, root_domain), events).stage) >= 0 ==> {
            &&& events.len() >= progress(state_after(begun(job, root_domain), events).stage)
            &&& forall|i: int|
                0 <= i < progress(state_after(begun(job, root_domain), events).stage)
                    ==> lets_go_on(i, #[trigger] events[i])
        },
        0 <= progress(state_after(begun(job, root_domain), events).stage) < 8 ==> events.len()
            == progress(state_after(begun(job, root_domain), events).stage),
    decreases events.len(),
{
    if events.len() > 0 {
        let before = events.drop_last();
        lemma_progress_needs_success(job, root_domain, before);
        let earlier = state_after(begun(job, root_domain), before);
        let now = state_after(begun(job, root_domain), events);
        assert(now == step(earlier, events.last()).0);
        if progress(now.stage) >= 0 {
            assert(progress(earlier.stage) >= 0);
            assert forall|i: int| 0 <= i < progress(now.stage) implies lets_go_on(
                i,
                #[trigger] events[i],
            ) by {
                if i < before.len() {
                    assert(events[i] == before[i]);
                }
            }
        }
    }
}

/// Abort safety: where the archive cannot be unpacked (its stream is corrupt,
/// or writing its files fails), the deployment never hands out the
/// publishing plan and never ends in success, and each of its actions spares
/// the site: the site stays exactly as it was. The third outcome of a run is
/// that of the unpacking.
pub proof fn lemma_failed_unpacking_spares_site(
    job: DeploymentView,
    root_domain: Seq<char>,
    events: Seq<EventView>,
    n: int,
)
    requires
        events.len() > 2,
        !(events[2] is Done),
        0 < n <= events.len(),
    ensures
        !(state_after(begun(job, root_domain), events.take(n)).stage is Publishing),
        state_after(begun(job, root_domain), events.take(n)).stage != Stage::Finished(Ok(())),
        action_spares(
            action_after(begun(job, root_domain), events.take(n)),
            begun(job, root_domain).site,
        ),
{
    let seen = events.take(n);
    lemma_progress_needs_success(job, root_domain, seen);
    let reached = progress(state_after(begun(job, root_domain), seen).stage);
    if reached >= 3 {
        assert(seen[2] == events[2]);
        assert(lets_go_on(2, seen[2]));
    }
    lemma_site_untouched_before_publishing(job, root_domain, seen);
}

/// The run of a deployment in which nothing fails: the staging directory is
/// cleared, the archive is fetched with the request's credential and
/// unpacked, the staging directory and then its only directory are listed,
/// the listed children are lifted, the site's place is probed, and the
/// staged content is published with the plan that fits what the probe
/// found. No other action is handed out on the way.
pub proof fn lemma_run_without_failure(
    job: DeploymentView,
    root_domain: Seq<char>,
    status: u16,
    wrapper: Seq<char>,
    children: Seq<Seq<char>>,
    kinds: Seq<bool>,
    had_site: bool,
)
    requires
        is_success(status),
    ensures
        ({
            let site = begun(job, root_domain).site;
            let s0 = begun(job, root_domain);
            let (s1, a1) = step(s0, EventView::Done);
            let (s2, a2) = step(s1, EventView::Status(status));
            let (s3, a3) = step(s2, EventView::Done);
            let (s4, a4) = step(
                s3,
                EventView::Entries { names: seq![wrapper], kinds: seq![true] },
            );
            let (s5, a5) = step(s4, EventView::Entries { names: children, kinds });
            let (s6, a6) = step(s5, EventView::Done);
            let (s7, a7) = step(s6, EventView::Exists(had_site));
            let (s8, a8) = step(s7, EventView::Done);
            &&& a1 == ActionView::Fetch {
                url: tarball_url_text(job.full_name, job.commit_id),
                bearer: job.token,
            }
            &&& a2 == ActionView::Unpack { into: seq![staging_text()] }
            &&& a3 == ActionView::List { path: seq![staging_text()] }
            &&& a4 == ActionView::List { path: seq![staging_text(), wrapper] }
            &&& a5 == ActionView::Apply { plan: hoist_ops(staging_text(), wrapper, children) }
            &&& a6 == ActionView::Probe { path: seq![site] }
            &&& a7 == ActionView::Apply { plan: publish_ops(staging_text(), site, had_site) }
            &&& a8 == ActionView::Finish { result: Ok(()) }
            &&& s8.stage == Stage::Finished(Ok(()))
        }),
{
    assert(wrapper_of(seq![wrapper], seq![true]) == Ok::<Seq<char>, crate::plan::LayoutError>(
        wrapper,
    ));
}

} // verus!
