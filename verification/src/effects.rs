//! What the plans of a deployment do to the directory tree: proofs over the
//! model that the content of an archive ends up at the top of the site, that
//! a site is replaced as a whole, and that deploying the same content again
//! changes nothing.

use crate::plan::{hoist_ops, hoist_renames, publish_ops};
use crate::tree::{
    applied, applied_all, lemma_node_at_second, lemma_node_at_top, node_at, placed, top_entry,
    FsOpView, Node,
};
use vstd::prelude::*;

verus! {

/// The entries of the staging directory while the children named in `moved`
/// have been lifted out of the wrapping directory and the others have not.
pub open spec fn partly_hoisted(
    top: Map<Seq<char>, Node>,
    wrapper: Seq<char>,
    inner: Map<Seq<char>, Node>,
    moved: Seq<Seq<char>>,
) -> Map<Seq<char>, Node> {
    Map::new(
        |name: Seq<char>| top.contains_key(name) || moved.contains(name),
        |name: Seq<char>|
            if name == wrapper {
                Node::Directory(inner.remove_keys(moved.to_set()))
            } else if moved.contains(name) {
                inner[name]
            } else {
                top[name]
            },
    )
}

/// The tree that is `root` but for one entry of its top level.
pub open spec fn with_entry(root: Node, name: Seq<char>, entry: Node) -> Node {
    match root {
        Node::Directory(entries) => Node::Directory(entries.insert(name, entry)),
        Node::File(_) => root,
    }
}

/// Running a plan that is made of two parts is running the first part and
/// then the second.
pub proof fn lemma_applied_parts(root: Node, first: Seq<FsOpView>, second: Seq<FsOpView>)
    ensures
        applied_all(root, first + second) == match applied_all(root, first) {
            Some(between) => applied_all(between, second),
            None => None,
        },
    decreases first.len(),
{
    if first.len() == 0 {
        assert(first + second =~= second);
    } else {
        assert((first + second)[0] == first[0]);
        assert((first + second).drop_first() =~= first.drop_first() + second);
        match applied(root, first[0]) {
            Some(next) => {
                lemma_applied_parts(next, first.drop_first(), second);
            },
            None => {},
        }
    }
}

/// One rename lifts one child out of the wrapping directory.
proof fn lemma_hoist_one(
    root: Node,
    staging: Seq<char>,
    wrapper: Seq<char>,
    child: Seq<char>,
    top: Map<Seq<char>, Node>,
    inner: Map<Seq<char>, Node>,
)
    requires
        node_at(root, seq![staging]) == Some(Node::Directory(top)),
        top.contains_key(wrapper),
        top[wrapper] == Node::Directory(inner),
        inner.contains_key(child),
        !top.contains_key(child),
    ensures
        applied(
            root,
            FsOpView::Rename { from: seq![staging, wrapper, child], to: seq![staging, child] },
        ) == Some(
            with_entry(
                root,
                staging,
                Node::Directory(
                    top.insert(wrapper, Node::Directory(inner.remove(child))).insert(
                        child,
                        inner[child],
                    ),
                ),
            ),
        ),
{
    let from = seq![staging, wrapper, child];
    let to = seq![staging, child];
    let single = seq![staging];
    assert(single.drop_first() =~= Seq::<Seq<char>>::empty());
    assert(from.drop_first() =~= seq![wrapper, child]);
    assert(seq![wrapper, child].drop_first() =~= seq![child]);
    assert(seq![child].drop_first() =~= Seq::<Seq<char>>::empty());
    assert(to.drop_first() =~= seq![child]);
    lemma_node_at_top(root, staging);
    match root {
        Node::File(_) => {
            assert(false);
        },
        Node::Directory(entries) => {
            assert(entries.contains_key(staging));
            assert(entries[staging] == Node::Directory(top));
            reveal_with_fuel(node_at, 4);
            reveal_with_fuel(placed, 4);
            assert(node_at(root, from) == Some(inner[child]));
            assert(node_at(root, to) is None);
            assert(!from.is_prefix_of(to));
            let top_without = top.insert(wrapper, Node::Directory(inner.remove(child)));
            let without = Node::Directory(entries.insert(staging, Node::Directory(top_without)));
            assert(placed(root, from, None) == Some(without));
            let top_after = top_without.insert(child, inner[child]);
            assert(entries.insert(staging, Node::Directory(top_without)).insert(
                staging,
                Node::Directory(top_after),
            ) =~= entries.insert(staging, Node::Directory(top_after)));
            assert(placed(without, to, Some(inner[child])) == Some(
                Node::Directory(entries.insert(staging, Node::Directory(top_after))),
            ));
        },
    }
}

/// The renames of a hoisting plan lift the listed children out of the
/// wrapping directory, whatever else the staging directory holds.
proof fn lemma_hoist_renames(
    root: Node,
    staging: Seq<char>,
    wrapper: Seq<char>,
    children: Seq<Seq<char>>,
    top: Map<Seq<char>, Node>,
    inner: Map<Seq<char>, Node>,
)
    requires
        node_at(root, seq![staging]) == Some(Node::Directory(top)),
        top.contains_key(wrapper),
        top[wrapper] == Node::Directory(inner),
        children.no_duplicates(),
        forall|i: int| 0 <= i < children.len() ==> inner.contains_key(#[trigger] children[i]),
        forall|i: int| 0 <= i < children.len() ==> !top.contains_key(#[trigger] children[i]),
    ensures
        applied_all(root, hoist_renames(staging, wrapper, children)) == Some(
            with_entry(
                root,
                staging,
                Node::Directory(partly_hoisted(top, wrapper, inner, children)),
            ),
        ),
    decreases children.len(),
{
    let one = seq![staging];
    lemma_node_at_top(root, staging);
    let entries = match root {
        Node::Directory(entries) => entries,
        Node::File(_) => Map::empty(),
    };
    assert(root == Node::Directory(entries));
    assert(entries.contains_key(staging) && entries[staging] == Node::Directory(top));
    let plan = hoist_renames(staging, wrapper, children);
    if children.len() == 0 {
        assert(inner.remove_keys(children.to_set()) =~= inner);
        assert(partly_hoisted(top, wrapper, inner, children) =~= top);
        assert(entries.insert(staging, Node::Directory(top)) =~= entries);
    } else {
        let child = children[0];
        let rest = children.drop_first();
        lemma_hoist_one(root, staging, wrapper, child, top, inner);
        let inner_next = inner.remove(child);
        let top_next = top.insert(wrapper, Node::Directory(inner_next)).insert(child, inner[child]);
        let root_next = with_entry(root, staging, Node::Directory(top_next));
        assert(applied(root, plan[0]) == Some(root_next));
        assert(plan.drop_first() =~= hoist_renames(staging, wrapper, rest));
        lemma_node_at_top(root_next, staging);
        assert(node_at(root_next, one) == Some(Node::Directory(top_next)));
        assert forall|i: int| 0 <= i < rest.len() implies inner_next.contains_key(
            #[trigger] rest[i],
        ) && !top_next.contains_key(rest[i]) by {
            assert(rest[i] == children[i + 1]);
            assert(children[i + 1] != children[0]);
        }
        assert(rest.no_duplicates()) by {
            assert forall|i: int, j: int|
                0 <= i < rest.len() && 0 <= j < rest.len() && i != j implies rest[i]
                != rest[j] by {
                assert(rest[i] == children[i + 1]);
                assert(rest[j] == children[j + 1]);
            }
        }
        lemma_hoist_renames(root_next, staging, wrapper, rest, top_next, inner_next);
        let last = partly_hoisted(top_next, wrapper, inner_next, rest);
        let wanted = partly_hoisted(top, wrapper, inner, children);
        assert forall|name: Seq<char>| children.contains(name) <==> (name == child
            || rest.contains(name)) by {
            if children.contains(name) {
                let i = choose|i: int| 0 <= i < children.len() && children[i] == name;
                if i > 0 {
                    assert(rest[i - 1] == name);
                }
            }
            if rest.contains(name) {
                let i = choose|i: int| 0 <= i < rest.len() && rest[i] == name;
                assert(children[i + 1] == name);
            }
        }
        assert(!rest.contains(child)) by {
            if rest.contains(child) {
                let i = choose|i: int| 0 <= i < rest.len() && rest[i] == child;
                assert(children[i + 1] == children[0]);
            }
        }
        assert(inner_next.remove_keys(rest.to_set()) =~= inner.remove_keys(children.to_set()));
        assert(last =~= wanted);
        assert(entries.insert(staging, Node::Directory(top_next)).insert(
            staging,
            Node::Directory(last),
        ) =~= entries.insert(staging, Node::Directory(wanted)));
    }
}

/// Normalisation: where the staging directory holds one directory and
/// nothing else, and that directory has no child of its own name, the
/// hoisting plan made from a listing of its children succeeds, and the
/// staging directory then holds exactly what the wrapping directory held:
/// every child with all below it, and no wrapping directory. Nothing outside
/// the staging directory changes.
pub proof fn lemma_hoisting_flattens(
    root: Node,
    staging: Seq<char>,
    wrapper: Seq<char>,
    children: Seq<Seq<char>>,
    inner: Map<Seq<char>, Node>,
)
    requires
        node_at(root, seq![staging]) == Some(
            Node::Directory(Map::<Seq<char>, Node>::empty().insert(wrapper, Node::Directory(inner))),
        ),
        children.no_duplicates(),
        children.to_set() == inner.dom(),
        !inner.contains_key(wrapper),
    ensures
        applied_all(root, hoist_ops(staging, wrapper, children)) == Some(
            with_entry(root, staging, Node::Directory(inner)),
        ),
        node_at(with_entry(root, staging, Node::Directory(inner)), seq![staging]) == Some(
            Node::Directory(inner),
        ),
{
    lemma_node_at_top(root, staging);
    lemma_node_at_top(with_entry(root, staging, Node::Directory(inner)), staging);
    let top = Map::<Seq<char>, Node>::empty().insert(wrapper, Node::Directory(inner));
    let entries = match root {
        Node::Directory(entries) => entries,
        Node::File(_) => Map::empty(),
    };
    assert(root == Node::Directory(entries));
    assert(entries.contains_key(staging) && entries[staging] == Node::Directory(top));
    assert forall|i: int| 0 <= i < children.len() implies inner.contains_key(
        #[trigger] children[i],
    ) && !top.contains_key(children[i]) by {
        assert(children.to_set().contains(children[i]));
    }
    lemma_hoist_renames(root, staging, wrapper, children, top, inner);
    let lifted = partly_hoisted(top, wrapper, inner, children);
    let between = with_entry(root, staging, Node::Directory(lifted));
    let removal = FsOpView::RemoveDir { path: seq![staging, wrapper] };
    let path = seq![staging, wrapper];
    assert(path.drop_first() =~= seq![wrapper]);
    assert(seq![wrapper].drop_first() =~= Seq::<Seq<char>>::empty());
    reveal_with_fuel(node_at, 3);
    reveal_with_fuel(placed, 3);
    assert(lifted.contains_key(wrapper));
    assert(inner.remove_keys(children.to_set()) =~= Map::<Seq<char>, Node>::empty());
    assert(lifted[wrapper] == Node::Directory(inner.remove_keys(children.to_set())));
    assert(node_at(between, path) == Some(lifted[wrapper]));
    assert(lifted.remove(wrapper) =~= inner) by {
        assert forall|name: Seq<char>| inner.contains_key(name) implies children.contains(
            name,
        ) by {
            assert(children.to_set().contains(name));
        }
    }
    assert(entries.insert(staging, Node::Directory(lifted)).insert(
        staging,
        Node::Directory(lifted.remove(wrapper)),
    ) =~= entries.insert(staging, Node::Directory(inner)));
    assert(applied(between, removal) == Some(with_entry(root, staging, Node::Directory(inner))));
    let after = with_entry(root, staging, Node::Directory(inner));
    assert(applied_all(after, Seq::<FsOpView>::empty()) == Some(after));
    assert(seq![removal].drop_first() =~= Seq::<FsOpView>::empty());
    assert(applied_all(between, seq![removal]) == Some(after));
    assert(hoist_ops(staging, wrapper, children) =~= hoist_renames(staging, wrapper, children)
        + seq![removal]);
    lemma_applied_parts(root, hoist_renames(staging, wrapper, children), seq![removal]);
}

/// Where the wrapping directory holds a child of its own name, the hoisting
/// plan fails: that child cannot be lifted to where the wrapping directory
/// still stands.
pub proof fn lemma_hoisting_stops_at_own_name(
    root: Node,
    staging: Seq<char>,
    wrapper: Seq<char>,
    children: Seq<Seq<char>>,
    inner: Map<Seq<char>, Node>,
)
    requires
        node_at(root, seq![staging]) == Some(
            Node::Directory(Map::<Seq<char>, Node>::empty().insert(wrapper, Node::Directory(inner))),
        ),
        children.no_duplicates(),
        children.to_set() == inner.dom(),
        inner.contains_key(wrapper),
    ensures
        applied_all(root, hoist_ops(staging, wrapper, children)) is None,
{
    let top = Map::<Seq<char>, Node>::empty().insert(wrapper, Node::Directory(inner));
    assert(children.to_set().contains(wrapper));
    let at = choose|i: int| 0 <= i < children.len() && children[i] == wrapper;
    let lifted = children.take(at);
    let left = children.skip(at);
    let removal = FsOpView::RemoveDir { path: seq![staging, wrapper] };
    let rest = hoist_renames(staging, wrapper, left).push(removal);
    assert(hoist_ops(staging, wrapper, children) =~= hoist_renames(staging, wrapper, lifted)
        + rest);
    assert forall|i: int| 0 <= i < lifted.len() implies inner.contains_key(
        #[trigger] lifted[i],
    ) && !top.contains_key(lifted[i]) by {
        assert(lifted[i] == children[i]);
        assert(children.to_set().contains(children[i]));
        assert(children[i] != children[at]);
    }
    assert(lifted.no_duplicates()) by {
        assert forall|i: int, j: int|
            0 <= i < lifted.len() && 0 <= j < lifted.len() && i != j implies lifted[i]
            != lifted[j] by {
            assert(lifted[i] == children[i]);
            assert(lifted[j] == children[j]);
        }
    }
    lemma_hoist_renames(root, staging, wrapper, lifted, top, inner);
    let between = with_entry(
        root,
        staging,
        Node::Directory(partly_hoisted(top, wrapper, inner, lifted)),
    );
    lemma_node_at_top(root, staging);
    lemma_node_at_top(between, staging);
    lemma_node_at_second(between, staging, wrapper);
    assert(partly_hoisted(top, wrapper, inner, lifted).contains_key(wrapper));
    assert(node_at(between, seq![staging, wrapper]) is Some);
    assert(rest[0] == FsOpView::Rename {
        from: seq![staging, wrapper, wrapper],
        to: seq![staging, wrapper],
    }) by {
        assert(left[0] == children[at]);
    }
    assert(applied(between, rest[0]) is None);
    assert(applied_all(between, rest) is None);
    lemma_applied_parts(root, hoist_renames(staging, wrapper, lifted), rest);
}

/// The tree after the staged content took the place of the site: the site's
/// name leads to what the staging directory held, the staging directory is
/// gone, and every other entry is as before.
pub open spec fn published(root: Node, staging: Seq<char>, site: Seq<char>) -> Node {
    match root {
        Node::Directory(entries) => Node::Directory(
            entries.remove(staging).insert(site, entries[staging]),
        ),
        Node::File(_) => root,
    }
}

/// The publishing plan made for a tree: it removes the site first exactly
/// where the tree has one.
pub open spec fn publish_ops_for(root: Node, staging: Seq<char>, site: Seq<char>) -> Seq<
    FsOpView,
> {
    publish_ops(staging, site, top_entry(root, site) is Some)
}

/// Atomicity of publishing: the plan succeeds, and whoever looks at the
/// site's name between two of its operations finds the old site whole (before
/// the first operation), nothing (after the old site was removed) or the new
/// content whole (at the end): never entries of both. At the end the tree is
/// `published`.
pub proof fn lemma_publish_replaces_whole(
    root: Node,
    staging: Seq<char>,
    site: Seq<char>,
    done: int,
)
    requires
        staging != site,
        top_entry(root, staging) is Some,
        0 <= done <= publish_ops_for(root, staging, site).len(),
    ensures
        applied_all(root, publish_ops_for(root, staging, site).take(done)) is Some,
        done == 0 ==> applied_all(root, publish_ops_for(root, staging, site).take(done)) == Some(
            root,
        ),
        0 < done < publish_ops_for(root, staging, site).len() ==> top_entry(
            applied_all(root, publish_ops_for(root, staging, site).take(done))->0,
            site,
        ) is None,
        done == publish_ops_for(root, staging, site).len() ==> applied_all(
            root,
            publish_ops_for(root, staging, site).take(done),
        ) == Some(published(root, staging, site)),
        top_entry(published(root, staging, site), site) == top_entry(root, staging),
        top_entry(published(root, staging, site), staging) is None,
{
    let plan = publish_ops_for(root, staging, site);
    let entries = match root {
        Node::Directory(entries) => entries,
        Node::File(_) => Map::empty(),
    };
    assert(root == Node::Directory(entries));
    let from = seq![staging];
    let to = seq![site];
    assert(from.drop_first() =~= Seq::<Seq<char>>::empty());
    assert(to.drop_first() =~= Seq::<Seq<char>>::empty());
    let rename = FsOpView::Rename { from, to };
    let removal = FsOpView::RemoveTree { path: to };
    let cleared = Node::Directory(entries.remove(site));
    lemma_node_at_top(root, staging);
    lemma_node_at_top(root, site);
    lemma_node_at_top(cleared, staging);
    lemma_node_at_top(cleared, site);
    reveal_with_fuel(placed, 2);
    assert(!from.is_prefix_of(to)) by {
        if from.is_prefix_of(to) {
            assert(from[0] == to[0]);
        }
    }
    assert(entries.remove(site).remove(staging).insert(site, entries[staging]) =~= entries.remove(
        staging,
    ).insert(site, entries[staging]));
    assert(applied(cleared, rename) == Some(published(root, staging, site)));
    assert(plan.take(0) =~= Seq::<FsOpView>::empty());
    assert(applied_all(root, plan.take(0)) == Some(root));
    if top_entry(root, site) is Some {
        assert(plan =~= seq![removal, rename]);
        assert(applied(root, removal) == Some(cleared));
        assert(plan.take(1) =~= seq![removal]);
        assert(seq![removal].drop_first() =~= Seq::<FsOpView>::empty());
        assert(applied_all(cleared, Seq::<FsOpView>::empty()) == Some(cleared));
        assert(applied_all(root, seq![removal]) == Some(cleared));
        assert(plan.take(2) =~= plan);
        assert(plan.drop_first() =~= seq![rename]);
        assert(seq![rename].drop_first() =~= Seq::<FsOpView>::empty());
        assert(applied_all(published(root, staging, site), Seq::<FsOpView>::empty()) == Some(
            published(root, staging, site),
        ));
        assert(applied_all(cleared, seq![rename]) == Some(published(root, staging, site)));
        assert(applied_all(root, plan) == Some(published(root, staging, site)));
    } else {
        assert(cleared == root) by {
            assert(entries.remove(site) =~= entries);
        }
        assert(plan =~= seq![rename]);
        assert(plan.take(1) =~= plan);
        assert(seq![rename].drop_first() =~= Seq::<FsOpView>::empty());
        assert(applied_all(published(root, staging, site), Seq::<FsOpView>::empty()) == Some(
            published(root, staging, site),
        ));
        assert(applied_all(root, plan) == Some(published(root, staging, site)));
    }
}

/// The tree after an archive was unpacked into the staging directory: the
/// staging directory holds one directory, `wrapper`, with the entries
/// `inner`.
pub open spec fn unpacked(
    root: Node,
    staging: Seq<char>,
    wrapper: Seq<char>,
    inner: Map<Seq<char>, Node>,
) -> Node {
    with_entry(
        root,
        staging,
        Node::Directory(Map::<Seq<char>, Node>::empty().insert(wrapper, Node::Directory(inner))),
    )
}

/// The tree after a deployment: the site holds the entries `inner`, no
/// staging directory is left, and every other entry is as in `root`.
pub open spec fn deployed(
    root: Node,
    staging: Seq<char>,
    site: Seq<char>,
    inner: Map<Seq<char>, Node>,
) -> Node {
    published(with_entry(root, staging, Node::Directory(inner)), staging, site)
}

/// A whole deployment: after an archive with one top-level directory was
/// unpacked into the staging directory, the hoisting plan followed by the
/// publishing plan succeeds, and the site then holds exactly the entries of
/// that directory at its top, with no level in between. The other sites are
/// as before.
pub proof fn lemma_deployment_installs_content(
    root: Node,
    staging: Seq<char>,
    site: Seq<char>,
    wrapper: Seq<char>,
    children: Seq<Seq<char>>,
    inner: Map<Seq<char>, Node>,
)
    requires
        root is Directory,
        staging != site,
        children.no_duplicates(),
        children.to_set() == inner.dom(),
        !inner.contains_key(wrapper),
    ensures
        applied_all(
            unpacked(root, staging, wrapper, inner),
            hoist_ops(staging, wrapper, children) + publish_ops_for(root, staging, site),
        ) == Some(deployed(root, staging, site, inner)),
        top_entry(deployed(root, staging, site, inner), site) == Some(Node::Directory(inner)),
        top_entry(deployed(root, staging, site, inner), staging) is None,
        forall|other: Seq<char>|
            other != site && other != staging ==> top_entry(
                deployed(root, staging, site, inner),
                other,
            ) == top_entry(root, other),
{
    let start = unpacked(root, staging, wrapper, inner);
    lemma_node_at_top(start, staging);
    lemma_hoisting_flattens(start, staging, wrapper, children, inner);
    let flat = with_entry(root, staging, Node::Directory(inner));
    let entries = match root {
        Node::Directory(entries) => entries,
        Node::File(_) => Map::empty(),
    };
    assert(with_entry(start, staging, Node::Directory(inner)) == flat) by {
        assert(entries.insert(
            staging,
            Node::Directory(
                Map::<Seq<char>, Node>::empty().insert(wrapper, Node::Directory(inner)),
            ),
        ).insert(staging, Node::Directory(inner)) =~= entries.insert(
            staging,
            Node::Directory(inner),
        ));
    }
    assert(top_entry(flat, site) == top_entry(root, site));
    let plan = publish_ops_for(flat, staging, site);
    assert(plan == publish_ops_for(root, staging, site));
    lemma_publish_replaces_whole(flat, staging, site, plan.len() as int);
    assert(plan.take(plan.len() as int) =~= plan);
    lemma_applied_parts(start, hoist_ops(staging, wrapper, children), plan);
}

/// Idempotence: deploying the same content to the same site twice in a row
/// leaves the tree, and with it the site, exactly as the first deployment
/// left it.
pub proof fn lemma_redeployment_changes_nothing(
    root: Node,
    staging: Seq<char>,
    site: Seq<char>,
    inner: Map<Seq<char>, Node>,
)
    requires
        root is Directory,
        staging != site,
    ensures
        deployed(deployed(root, staging, site, inner), staging, site, inner) == deployed(
            root,
            staging,
            site,
            inner,
        ),
{
    let entries = match root {
        Node::Directory(entries) => entries,
        Node::File(_) => Map::empty(),
    };
    let content = Node::Directory(inner);
    let once = entries.insert(staging, content).remove(staging).insert(site, content);
    assert(deployed(root, staging, site, inner) == Node::Directory(once));
    let twice = once.insert(staging, content).remove(staging).insert(site, content);
    assert(twice =~= once);
}

} // verus!
