//! A mathematical model of the directory that holds the sites, and of the
//! file operations that a deployment asks for. The plans that the library
//! hands out are stated, and their effects proved, over this model.

use vstd::prelude::*;

verus! {

/// A file with its bytes, or a directory with its entries by name.
pub enum Node {
    File(Seq<u8>),
    Directory(Map<Seq<char>, Node>),
}

/// An operation on the directory tree. Paths are relative to the directory
/// that holds the sites and list the names from there downwards.
pub enum FsOp {
    /// Moves the entry at `from`, with all below it, to `to`.
    Rename { from: Vec<String>, to: Vec<String> },
    /// Removes the directory at `path`, which must be empty.
    RemoveDir { path: Vec<String> },
    /// Removes the entry at `path` with all below it.
    RemoveTree { path: Vec<String> },
}

/// An operation, with its paths as sequences of names.
pub enum FsOpView {
    Rename { from: Seq<Seq<char>>, to: Seq<Seq<char>> },
    RemoveDir { path: Seq<Seq<char>> },
    RemoveTree { path: Seq<Seq<char>> },
}

/// The names that a path lists.
pub open spec fn path_view(path: Seq<String>) -> Seq<Seq<char>> {
    path.map_values(|name: String| name@)
}

impl View for FsOp {
    type V = FsOpView;

    open spec fn view(&self) -> FsOpView {
        match *self {
            FsOp::Rename { from, to } => FsOpView::Rename {
                from: path_view(from@),
                to: path_view(to@),
            },
            FsOp::RemoveDir { path } => FsOpView::RemoveDir { path: path_view(path@) },
            FsOp::RemoveTree { path } => FsOpView::RemoveTree { path: path_view(path@) },
        }
    }
}

/// The operations of a plan, each as its view.
pub open spec fn plan_view(plan: Seq<FsOp>) -> Seq<FsOpView> {
    plan.map_values(|op: FsOp| op@)
}

/// The entry that `path` leads to from `root`, if there is one.
pub open spec fn node_at(root: Node, path: Seq<Seq<char>>) -> Option<Node>
    decreases path.len(),
{
    if path.len() == 0 {
        Some(root)
    } else {
        match root {
            Node::File(_) => None,
            Node::Directory(entries) => if entries.contains_key(path[0]) {
                node_at(entries[path[0]], path.drop_first())
            } else {
                None
            },
        }
    }
}

/// The tree in which `path` leads to `entry`, or to nothing where `entry` is
/// `None`, and which is otherwise `root`. There is no such tree where `path`
/// is empty or its parent is not a directory of `root`.
pub open spec fn placed(root: Node, path: Seq<Seq<char>>, entry: Option<Node>) -> Option<Node>
    decreases path.len(),
{
    if path.len() == 0 {
        None
    } else {
        match root {
            Node::File(_) => None,
            Node::Directory(entries) => if path.len() == 1 {
                match entry {
                    Some(node) => Some(Node::Directory(entries.insert(path[0], node))),
                    None => Some(Node::Directory(entries.remove(path[0]))),
                }
            } else if entries.contains_key(path[0]) {
                match placed(entries[path[0]], path.drop_first(), entry) {
                    Some(below) => Some(Node::Directory(entries.insert(path[0], below))),
                    None => None,
                }
            } else {
                None
            },
        }
    }
}

/// The tree after an operation that succeeds, `None` where it fails. A
/// rename succeeds where the source exists, nothing stands at the target,
/// the target's parent is a directory and the target does not lie below the
/// source. A directory is removed where it exists and is empty. A tree is
/// removed where it exists.
pub open spec fn applied(root: Node, op: FsOpView) -> Option<Node> {
    match op {
        FsOpView::Rename { from, to } => match node_at(root, from) {
            Some(moved) => if from.len() > 0 && node_at(root, to) is None && !from.is_prefix_of(
                to,
            ) {
                match placed(root, from, None) {
                    Some(without) => placed(without, to, Some(moved)),
                    None => None,
                }
            } else {
                None
            },
            None => None,
        },
        FsOpView::RemoveDir { path } => match node_at(root, path) {
            Some(Node::Directory(entries)) => if path.len() > 0 && entries
                =~= Map::<Seq<char>, Node>::empty() {
                placed(root, path, None)
            } else {
                None
            },
            _ => None,
        },
        FsOpView::RemoveTree { path } => match node_at(root, path) {
            Some(_) => placed(root, path, None),
            None => None,
        },
    }
}

/// The tree after the operations of a plan, one after the other, `None`
/// where one of them fails.
pub open spec fn applied_all(root: Node, plan: Seq<FsOpView>) -> Option<Node>
    decreases plan.len(),
{
    if plan.len() == 0 {
        Some(root)
    } else {
        match applied(root, plan[0]) {
            Some(next) => applied_all(next, plan.drop_first()),
            None => None,
        }
    }
}

/// Whether an operation neither reads nor writes at or below the entry
/// `name` of the root: none of its paths starts with that name.
pub open spec fn spares(op: FsOpView, name: Seq<char>) -> bool {
    match op {
        FsOpView::Rename { from, to } => from.len() > 0 && to.len() > 0 && from[0] != name && to[0]
            != name,
        FsOpView::RemoveDir { path } => path.len() > 0 && path[0] != name,
        FsOpView::RemoveTree { path } => path.len() > 0 && path[0] != name,
    }
}

/// The entry of the root under `name`, if the root is a directory that has
/// one.
pub open spec fn top_entry(root: Node, name: Seq<char>) -> Option<Node> {
    match root {
        Node::Directory(entries) => if entries.contains_key(name) {
            Some(entries[name])
        } else {
            None
        },
        Node::File(_) => None,
    }
}

/// A path of one name leads to the root's entry of that name.
pub proof fn lemma_node_at_top(root: Node, name: Seq<char>)
    ensures
        node_at(root, seq![name]) == top_entry(root, name),
{
    let one = seq![name];
    assert(one.drop_first() =~= Seq::<Seq<char>>::empty());
    assert(one[0] == name);
    reveal_with_fuel(node_at, 2);
}

/// A path of two names leads through the root's entry of the first name to
/// that entry's entry of the second.
pub proof fn lemma_node_at_second(root: Node, first: Seq<char>, second: Seq<char>)
    ensures
        node_at(root, seq![first, second]) == match top_entry(root, first) {
            Some(below) => top_entry(below, second),
            None => None,
        },
{
    let path = seq![first, second];
    assert(path.drop_first() =~= seq![second]);
    assert(path[0] == first);
    match top_entry(root, first) {
        Some(below) => {
            lemma_node_at_top(below, second);
        },
        None => {},
    }
}

/// Placing an entry leaves every other entry of the root as it was.
pub proof fn lemma_placed_elsewhere(
    root: Node,
    path: Seq<Seq<char>>,
    entry: Option<Node>,
    name: Seq<char>,
)
    requires
        path.len() > 0,
        path[0] != name,
        placed(root, path, entry) is Some,
    ensures
        node_at(placed(root, path, entry)->0, seq![name]) == node_at(root, seq![name]),
{
    let one = seq![name];
    assert(one.drop_first() =~= Seq::<Seq<char>>::empty());
    assert(one[0] == name);
    let after = placed(root, path, entry)->0;
    match root {
        Node::File(_) => {},
        Node::Directory(entries) => {
            match after {
                Node::File(_) => {},
                Node::Directory(entries_after) => {
                    assert(entries_after.contains_key(name) == entries.contains_key(name));
                    if entries.contains_key(name) {
                        assert(entries_after[name] == entries[name]);
                        assert(node_at(entries[name], one.drop_first()) == Some(entries[name]));
                    }
                },
            }
        },
    }
}

/// An operation that spares an entry of the root leaves it as it was.
pub proof fn lemma_spared_entry_unchanged(root: Node, op: FsOpView, name: Seq<char>)
    requires
        spares(op, name),
        applied(root, op) is Some,
    ensures
        node_at(applied(root, op)->0, seq![name]) == node_at(root, seq![name]),
{
    match op {
        FsOpView::Rename { from, to } => {
            let without = placed(root, from, None)->0;
            lemma_placed_elsewhere(root, from, None, name);
            lemma_placed_elsewhere(without, to, node_at(root, from), name);
        },
        FsOpView::RemoveDir { path } => {
            lemma_placed_elsewhere(root, path, None, name);
        },
        FsOpView::RemoveTree { path } => {
            lemma_placed_elsewhere(root, path, None, name);
        },
    }
}

/// A plan whose operations all spare an entry of the root leaves it as it
/// was.
pub proof fn lemma_spared_by_plan(root: Node, plan: Seq<FsOpView>, name: Seq<char>)
    requires
        forall|i: int| 0 <= i < plan.len() ==> spares(#[trigger] plan[i], name),
        applied_all(root, plan) is Some,
    ensures
        node_at(applied_all(root, plan)->0, seq![name]) == node_at(root, seq![name]),
    decreases plan.len(),
{
    if plan.len() > 0 {
        let next = applied(root, plan[0])->0;
        lemma_spared_entry_unchanged(root, plan[0], name);
        assert forall|i: int| 0 <= i < plan.drop_first().len() implies spares(
            #[trigger] plan.drop_first()[i],
            name,
        ) by {
            assert(plan.drop_first()[i] == plan[i + 1]);
        }
        lemma_spared_by_plan(next, plan.drop_first(), name);
    }
}

} // verus!
