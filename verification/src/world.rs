//! Deployments in the world: runs of a deployment together with the
//! directory tree that its driver works on. A run is faithful where every
//! outcome that the driver reports is what its action has done to the tree.
//! Of faithful runs it is proved that a deployment which fails before
//! publishing leaves the site exactly as it was, and that a deployment which
//! succeeds leaves the site with exactly the content of the archive.

use crate::effects::{
    deployed, lemma_hoisting_flattens, lemma_hoisting_stops_at_own_name,
    lemma_publish_replaces_whole, lemma_redeployment_changes_nothing, publish_ops_for, published,
    with_entry,
};
use crate::pipeline::{
    begun, clear_staging, lemma_staging_is_no_site, staging_text, step, ActionView, EventView,
    JobRunView,
};
use crate::plan::wrapper_of;
use crate::queue::DeploymentView;
use crate::runs::{
    action_after, action_spares, lemma_progress_needs_success, lemma_run_keeps_site,
    lemma_site_untouched_before_publishing, lets_go_on, progress, state_after,
};
use crate::tree::{
    applied_all, lemma_node_at_second, lemma_node_at_top, lemma_spared_by_plan, node_at, spares,
    top_entry, FsOpView, Node,
};
use vstd::prelude::*;

verus! {

/// The entries of a directory; a file has none.
pub open spec fn entries_of(node: Node) -> Map<Seq<char>, Node> {
    match node {
        Node::Directory(entries) => entries,
        Node::File(_) => Map::empty(),
    }
}

/// Whether two trees are directories that differ at most in their entry
/// `name`.
pub open spec fn same_but(a: Node, b: Node, name: Seq<char>) -> bool {
    a is Directory && b is Directory && entries_of(a).remove(name) =~= entries_of(b).remove(name)
}

/// Whether a listing names exactly the entries of a directory, each once
/// and with its kind.
pub open spec fn lists_entries(
    names: Seq<Seq<char>>,
    kinds: Seq<bool>,
    entries: Map<Seq<char>, Node>,
) -> bool {
    &&& names.no_duplicates()
    &&& names.to_set() =~= entries.dom()
    &&& kinds.len() == names.len()
    &&& forall|i: int| 0 <= i < names.len() ==> #[trigger] kinds[i] == (entries[names[i]] is Directory)
}

/// Whether `after` is the tree that a plan leaves when its operation number
/// `completed` fails: the operations before it were carried out, and the
/// failing one changed nothing, but that a removal of a tree may have removed
/// part of what lies below its entry of the root.
pub open spec fn stopped_at(before: Node, plan: Seq<FsOpView>, completed: nat, after: Node) -> bool {
    completed < plan.len() && match applied_all(before, plan.take(completed as int)) {
        Some(reached) => after == reached || (plan[completed as int] matches FsOpView::RemoveTree {
            path,
        } && path.len() > 0 && same_but(reached, after, path[0])),
        None => false,
    }
}

/// Whether an outcome is what its action has done to the tree: `before` is
/// the tree when the action was taken up and `after` the tree when its
/// outcome was reported.
pub open spec fn fits(before: Node, action: ActionView, event: EventView, after: Node) -> bool {
    match action {
        ActionView::Clear { path } => path.len() > 0 && same_but(before, after, path[0]) && (event
            is Done ==> top_entry(after, path[0]) is None),
        ActionView::Fetch { url, bearer } => after == before,
        ActionView::Unpack { into } => into.len() > 0 && same_but(before, after, into[0]) && (event
            is Done ==> top_entry(after, into[0]) is Some),
        ActionView::List { path } => after == before && (event matches EventView::Entries {
            names,
            kinds,
        } ==> (node_at(before, path) matches Some(Node::Directory(entries)) && lists_entries(
            names,
            kinds,
            entries,
        ))),
        ActionView::Apply { plan } => match event {
            EventView::Done => applied_all(before, plan) == Some(after),
            EventView::Stopped { completed } => stopped_at(before, plan, completed, after),
            _ => false,
        },
        ActionView::Probe { path } => after == before && (event matches EventView::Exists(exists)
            ==> exists == (node_at(before, path) is Some)),
        ActionView::Finish { result } => after == before,
    }
}

/// The action whose outcome is awaited when the outcomes `seen` have been
/// reported.
pub open spec fn pending_action(start: JobRunView, seen: Seq<EventView>) -> ActionView {
    if seen.len() == 0 {
        clear_staging()
    } else {
        action_after(start, seen)
    }
}

/// Whether a run is faithful: `worlds` holds the tree before the first
/// action and after each outcome, and each outcome fits its action.
pub open spec fn faithful(start: JobRunView, events: Seq<EventView>, worlds: Seq<Node>) -> bool {
    &&& worlds.len() == events.len() + 1
    &&& worlds[0] is Directory
    &&& forall|i: int|
        0 <= i < events.len() ==> fits(
            worlds[i],
            pending_action(start, events.take(i)),
            #[trigger] events[i],
            worlds[i + 1],
        )
}

/// The state after one more outcome is the step from the state before it,
/// and the action that answers it is the action of that step.
pub proof fn lemma_next_state(start: JobRunView, events: Seq<EventView>, seen: int)
    requires
        0 <= seen < events.len(),
    ensures
        state_after(start, events.take(seen + 1)) == step(
            state_after(start, events.take(seen)),
            events[seen],
        ).0,
        pending_action(start, events.take(seen + 1)) == step(
            state_after(start, events.take(seen)),
            events[seen],
        ).1,
{
    let longer = events.take(seen + 1);
    assert(longer.drop_last() =~= events.take(seen));
    assert(longer.last() == events[seen]);
}

/// An outcome that fits an action which spares an entry of the root leaves
/// that entry as it was.
pub proof fn lemma_fitting_outcome_spares(
    before: Node,
    action: ActionView,
    event: EventView,
    after: Node,
    name: Seq<char>,
)
    requires
        fits(before, action, event, after),
        action_spares(action, name),
    ensures
        top_entry(after, name) == top_entry(before, name),
{
    match action {
        ActionView::Clear { path } => {
            assert(entries_of(before).remove(path[0]).contains_key(name) == entries_of(
                after,
            ).remove(path[0]).contains_key(name));
            assert(entries_of(before).remove(path[0])[name] == entries_of(after).remove(
                path[0],
            )[name]);
        },
        ActionView::Unpack { into } => {
            assert(entries_of(before).remove(into[0]).contains_key(name) == entries_of(
                after,
            ).remove(into[0]).contains_key(name));
            assert(entries_of(before).remove(into[0])[name] == entries_of(after).remove(
                into[0],
            )[name]);
        },
        ActionView::Apply { plan } => {
            match event {
                EventView::Done => {
                    lemma_spared_by_plan(before, plan, name);
                    lemma_node_at_top(before, name);
                    lemma_node_at_top(after, name);
                },
                EventView::Stopped { completed } => {
                    let done = plan.take(completed as int);
                    let reached = applied_all(before, done)->0;
                    assert forall|i: int| 0 <= i < done.len() implies spares(
                        #[trigger] done[i],
                        name,
                    ) by {
                        assert(done[i] == plan[i]);
                    }
                    lemma_spared_by_plan(before, done, name);
                    lemma_node_at_top(before, name);
                    lemma_node_at_top(reached, name);
                    if after != reached {
                        let failing = plan[completed as int];
                        assert(spares(failing, name));
                        match failing {
                            FsOpView::RemoveTree { path } => {
                                assert(entries_of(reached).remove(path[0]).contains_key(name)
                                    == entries_of(after).remove(path[0]).contains_key(name));
                                assert(entries_of(reached).remove(path[0])[name] == entries_of(
                                    after,
                                ).remove(path[0])[name]);
                            },
                            _ => {},
                        }
                    }
                },
                _ => {},
            }
        },
        _ => {},
    }
}

/// Abort safety in the world: as long as the publishing plan has not been
/// carried out, the site is exactly as it was when the deployment was taken
/// up, whatever has failed on the way.
pub proof fn lemma_site_kept_until_publishing(
    job: DeploymentView,
    root_domain: Seq<char>,
    events: Seq<EventView>,
    worlds: Seq<Node>,
    reached: int,
)
    requires
        faithful(begun(job, root_domain), events, worlds),
        0 <= reached <= events.len(),
        forall|i: int|
            0 <= i < reached ==> !(#[trigger] state_after(
                begun(job, root_domain),
                events.take(i),
            ).stage is Publishing),
    ensures
        top_entry(worlds[reached], begun(job, root_domain).site) == top_entry(
            worlds[0],
            begun(job, root_domain).site,
        ),
    decreases reached,
{
    if reached > 0 {
        let start = begun(job, root_domain);
        let site = start.site;
        let seen = reached - 1;
        lemma_site_kept_until_publishing(job, root_domain, events, worlds, seen);
        let action = pending_action(start, events.take(seen));
        assert(fits(worlds[seen], action, events[seen], worlds[seen + 1]));
        assert(!(state_after(start, events.take(seen)).stage is Publishing));
        lemma_staging_is_no_site(job.domain, root_domain);
        if seen > 0 {
            lemma_site_untouched_before_publishing(job, root_domain, events.take(seen));
        } else {
            assert(seq![staging_text()][0] == staging_text());
        }
        assert(action_spares(action, site));
        lemma_fitting_outcome_spares(worlds[seen], action, events[seen], worlds[seen + 1], site);
    }
}

/// Abort safety for an archive that cannot be unpacked: in a faithful run
/// whose unpacking fails, be it for a corrupt stream or for a file that
/// cannot be written, the site is at every moment exactly as it was.
pub proof fn lemma_failed_unpacking_keeps_site(
    job: DeploymentView,
    root_domain: Seq<char>,
    events: Seq<EventView>,
    worlds: Seq<Node>,
    reached: int,
)
    requires
        faithful(begun(job, root_domain), events, worlds),
        events.len() > 2,
        !(events[2] is Done),
        0 <= reached <= events.len(),
    ensures
        top_entry(worlds[reached], begun(job, root_domain).site) == top_entry(
            worlds[0],
            begun(job, root_domain).site,
        ),
{
    assert forall|i: int| 0 <= i < reached implies !(#[trigger] state_after(
        begun(job, root_domain),
        events.take(i),
    ).stage is Publishing) by {
        let seen = events.take(i);
        lemma_progress_needs_success(job, root_domain, seen);
        if state_after(begun(job, root_domain), seen).stage is Publishing {
            assert(progress(state_after(begun(job, root_domain), seen).stage) == 7);
            assert(seen[2] == events[2]);
            assert(lets_go_on(2, seen[2]));
        }
    }
    lemma_site_kept_until_publishing(job, root_domain, events, worlds, reached);
}

/// What the only directory of the staging directory holds.
pub open spec fn wrapped_content(world: Node, wrapper: Seq<char>) -> Map<Seq<char>, Node> {
    match node_at(world, seq![staging_text(), wrapper]) {
        Some(node) => entries_of(node),
        None => Map::empty(),
    }
}

/// The name of the first entry of a listing.
pub open spec fn first_listed(event: EventView) -> Seq<char> {
    match event {
        EventView::Entries { names, kinds } => names[0],
        _ => Seq::empty(),
    }
}

/// Normalisation and publication in the world: in a faithful run in which
/// nothing fails, the site holds in the end exactly what the archive held
/// inside its top-level directory, at the top of the site and with nothing
/// in between; the staging directory is gone and every other entry beside
/// the site is as it was at the start. The tree after the third outcome is
/// the one that the archive was unpacked into, and the fourth outcome lists
/// its top-level directory.
pub proof fn lemma_success_installs_archive(
    job: DeploymentView,
    root_domain: Seq<char>,
    events: Seq<EventView>,
    worlds: Seq<Node>,
)
    requires
        faithful(begun(job, root_domain), events, worlds),
        events.len() == 8,
        forall|i: int| 0 <= i < 8 ==> lets_go_on(i, #[trigger] events[i]),
    ensures
        worlds[8] == deployed(
            worlds[0],
            staging_text(),
            begun(job, root_domain).site,
            wrapped_content(worlds[3], first_listed(events[3])),
        ),
        top_entry(worlds[8], begun(job, root_domain).site) == Some(
            Node::Directory(wrapped_content(worlds[3], first_listed(events[3]))),
        ),
        top_entry(worlds[8], staging_text()) is None,
{
    let start = begun(job, root_domain);
    let site = start.site;
    let staging = staging_text();
    lemma_staging_is_no_site(job.domain, root_domain);
    assert(events.take(0).len() == 0);
    lemma_next_state(start, events, 0);
    lemma_next_state(start, events, 1);
    lemma_next_state(start, events, 2);
    lemma_next_state(start, events, 3);
    lemma_next_state(start, events, 4);
    lemma_next_state(start, events, 5);
    lemma_next_state(start, events, 6);
    assert(lets_go_on(0, events[0]));
    assert(lets_go_on(1, events[1]));
    assert(lets_go_on(2, events[2]));
    assert(lets_go_on(3, events[3]));
    assert(lets_go_on(4, events[4]));
    assert(lets_go_on(5, events[5]));
    assert(lets_go_on(6, events[6]));
    assert(lets_go_on(7, events[7]));
    let one = seq![staging];
    assert(one[0] == staging);

    // Clearing, fetching and unpacking change the staging directory alone.
    assert(fits(worlds[0], pending_action(start, events.take(0)), events[0], worlds[1]));
    assert(fits(worlds[1], pending_action(start, events.take(1)), events[1], worlds[2]));
    assert(fits(worlds[2], pending_action(start, events.take(2)), events[2], worlds[3]));
    assert(same_but(worlds[0], worlds[1], staging));
    assert(worlds[2] == worlds[1]);
    assert(same_but(worlds[2], worlds[3], staging));

    // The staging directory holds the wrapping directory and nothing else.
    assert(fits(worlds[3], pending_action(start, events.take(3)), events[3], worlds[4]));
    let wrapper = first_listed(events[3]);
    lemma_node_at_top(worlds[3], staging);
    let top = entries_of(top_entry(worlds[3], staging)->0);
    match events[3] {
        EventView::Entries { names, kinds } => {
            assert(wrapper_of(names, kinds) is Ok);
            assert(names.len() == 1 && kinds[0]);
            assert(names.to_set().contains(names[0]));
            assert(top[wrapper] is Directory);
            assert forall|name: Seq<char>| top.contains_key(name) implies name == wrapper by {
                assert(names.to_set().contains(name));
            }
        },
        _ => {},
    }
    let inner = entries_of(top[wrapper]);
    assert(top =~= Map::<Seq<char>, Node>::empty().insert(wrapper, Node::Directory(inner)));
    lemma_node_at_second(worlds[3], staging, wrapper);
    assert(wrapped_content(worlds[3], wrapper) == inner);
    assert(state_after(start, events.take(4)).wrapper == wrapper);

    // Its children are listed and lifted.
    assert(fits(worlds[4], pending_action(start, events.take(4)), events[4], worlds[5]));
    assert(fits(worlds[5], pending_action(start, events.take(5)), events[5], worlds[6]));
    match events[4] {
        EventView::Entries { names, kinds } => {
            assert(lists_entries(names, kinds, inner));
            if inner.contains_key(wrapper) {
                lemma_hoisting_stops_at_own_name(worlds[5], staging, wrapper, names, inner);
            }
            lemma_hoisting_flattens(worlds[5], staging, wrapper, names, inner);
        },
        _ => {},
    }
    let flat = with_entry(worlds[3], staging, Node::Directory(inner));
    assert(worlds[6] == flat);

    // The staged content takes the site's place.
    assert(fits(worlds[6], pending_action(start, events.take(6)), events[6], worlds[7]));
    assert(fits(worlds[7], pending_action(start, events.take(7)), events[7], worlds[8]));
    lemma_node_at_top(flat, site);
    lemma_node_at_top(flat, staging);
    let plan = publish_ops_for(flat, staging, site);
    lemma_publish_replaces_whole(flat, staging, site, plan.len() as int);
    assert(plan.take(plan.len() as int) =~= plan);
    assert(worlds[8] == published(flat, staging, site));
    let content = Node::Directory(inner);
    assert(entries_of(worlds[3]).insert(staging, content).remove(staging).insert(site, content)
        =~= entries_of(worlds[0]).insert(staging, content).remove(staging).insert(
        site,
        content,
    )) by {
        assert(entries_of(worlds[0]).remove(staging) =~= entries_of(worlds[3]).remove(staging));
        assert(entries_of(worlds[3]).insert(staging, content).remove(staging) =~= entries_of(
            worlds[3],
        ).remove(staging));
        assert(entries_of(worlds[0]).insert(staging, content).remove(staging) =~= entries_of(
            worlds[0],
        ).remove(staging));
    }
}

/// Idempotence in the world: where two faithful runs without failure, one
/// after the other, deploy archives of the same content to the same site,
/// the second leaves the whole tree, and with it the site, exactly as the
/// first left it.
pub proof fn lemma_second_deployment_changes_nothing(
    job: DeploymentView,
    root_domain: Seq<char>,
    first_events: Seq<EventView>,
    first_worlds: Seq<Node>,
    second_events: Seq<EventView>,
    second_worlds: Seq<Node>,
)
    requires
        faithful(begun(job, root_domain), first_events, first_worlds),
        faithful(begun(job, root_domain), second_events, second_worlds),
        first_events.len() == 8,
        second_events.len() == 8,
        forall|i: int| 0 <= i < 8 ==> lets_go_on(i, #[trigger] first_events[i]),
        forall|i: int| 0 <= i < 8 ==> lets_go_on(i, #[trigger] second_events[i]),
        second_worlds[0] == first_worlds[8],
        wrapped_content(second_worlds[3], first_listed(second_events[3])) == wrapped_content(
            first_worlds[3],
            first_listed(first_events[3]),
        ),
    ensures
        second_worlds[8] == first_worlds[8],
{
    lemma_staging_is_no_site(job.domain, root_domain);
    lemma_success_installs_archive(job, root_domain, first_events, first_worlds);
    lemma_success_installs_archive(job, root_domain, second_events, second_worlds);
    lemma_redeployment_changes_nothing(
        first_worlds[0],
        staging_text(),
        begun(job, root_domain).site,
        wrapped_content(first_worlds[3], first_listed(first_events[3])),
    );
}

} // verus!
