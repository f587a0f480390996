//! The file operations of a deployment: lifting the content of an unpacked
//! archive out of its wrapping directory, and putting the result in the
//! place of the site that is served.

use crate::tree::{path_view, plan_view, FsOp, FsOpView};
use vstd::prelude::*;

verus! {

/// One entry of a directory listing.
pub struct DirEntry {
    pub name: String,
    pub is_dir: bool,
}

/// What is wrong with the layout of an unpacked archive.
#[derive(Debug, Clone, Copy, PartialEq, Eq, Structural)]
pub enum LayoutError {
    /// The archive held nothing.
    Empty,
    /// The archive held more than one entry at its top level.
    SeveralEntries,
    /// The only entry at the top level is a file.
    NotADirectory,
}

/// The path that lists one name.
pub fn path1(a: &String) -> (path: Vec<String>)
    ensures
        path_view(path@) == seq![a@],
{
    let mut path: Vec<String> = Vec::new();
    path.push(a.clone());
    path
}

/// The path that lists two names.
pub fn path2(a: &String, b: &String) -> (path: Vec<String>)
    ensures
        path_view(path@) == seq![a@, b@],
{
    let mut path: Vec<String> = Vec::new();
    path.push(a.clone());
    path.push(b.clone());
    path
}

/// The path that lists three names.
pub fn path3(a: &String, b: &String, c: &String) -> (path: Vec<String>)
    ensures
        path_view(path@) == seq![a@, b@, c@],
{
    let mut path: Vec<String> = Vec::new();
    path.push(a.clone());
    path.push(b.clone());
    path.push(c.clone());
    path
}

/// The wrapping directory of an unpacked archive, given the listing of the
/// directory that the archive was unpacked into: its only entry, which must
/// be a directory.
pub open spec fn wrapper_of(names: Seq<Seq<char>>, is_dir: Seq<bool>) -> Result<
    Seq<char>,
    LayoutError,
> {
    if names.len() == 0 {
        Err(LayoutError::Empty)
    } else if names.len() > 1 {
        Err(LayoutError::SeveralEntries)
    } else if !is_dir[0] {
        Err(LayoutError::NotADirectory)
    } else {
        Ok(names[0])
    }
}

/// The names of a listing, in its order.
pub open spec fn listed_names(listing: Seq<DirEntry>) -> Seq<Seq<char>> {
    listing.map_values(|entry: DirEntry| entry.name@)
}

/// For each entry of a listing, whether it is a directory.
pub open spec fn listed_kinds(listing: Seq<DirEntry>) -> Seq<bool> {
    listing.map_values(|entry: DirEntry| entry.is_dir)
}

/// Finds the wrapping directory of an unpacked archive in the listing of the
/// directory that it was unpacked into.
pub fn sole_directory(listing: &Vec<DirEntry>) -> (wrapper: Result<String, LayoutError>)
    ensures
        match wrapper {
            Ok(name) => wrapper_of(listed_names(listing@), listed_kinds(listing@)) == Ok::<
                Seq<char>,
                LayoutError,
            >(name@),
            Err(e) => wrapper_of(listed_names(listing@), listed_kinds(listing@)) == Err::<
                Seq<char>,
                LayoutError,
            >(e),
        },
{
    if listing.len() == 0 {
        Err(LayoutError::Empty)
    } else if listing.len() > 1 {
        Err(LayoutError::SeveralEntries)
    } else if !listing[0].is_dir {
        Err(LayoutError::NotADirectory)
    } else {
        Ok(listing[0].name.clone())
    }
}

/// The renames that move each child of `staging/wrapper` up to `staging`.
pub open spec fn hoist_renames(
    staging: Seq<char>,
    wrapper: Seq<char>,
    children: Seq<Seq<char>>,
) -> Seq<FsOpView> {
    Seq::new(
        children.len(),
        |i: int|
            FsOpView::Rename {
                from: seq![staging, wrapper, children[i]],
                to: seq![staging, children[i]],
            },
    )
}

/// The operations that lift the content of the wrapping directory up by one
/// level: one rename for each of its children, in the order of the listing,
/// then the removal of the wrapping directory, which is empty by then.
pub open spec fn hoist_ops(
    staging: Seq<char>,
    wrapper: Seq<char>,
    children: Seq<Seq<char>>,
) -> Seq<FsOpView> {
    hoist_renames(staging, wrapper, children).push(
        FsOpView::RemoveDir { path: seq![staging, wrapper] },
    )
}

/// Plans the lifting of the children of `staging/wrapper` up to `staging`.
pub fn hoist_plan(staging: &String, wrapper: &String, children: &Vec<String>) -> (plan: Vec<FsOp>)
    ensures
        plan_view(plan@) == hoist_ops(staging@, wrapper@, path_view(children@)),
{
    let mut plan: Vec<FsOp> = Vec::new();
    let mut i: usize = 0;
    while i < children.len()
        invariant
            i <= children.len(),
            plan@.len() == i,
            plan_view(plan@) == hoist_renames(
                staging@,
                wrapper@,
                path_view(children@).subrange(0, i as int),
            ),
        decreases children.len() - i,
    {
        let ghost before = plan@;
        let from = path3(staging, wrapper, &children[i]);
        let to = path2(staging, &children[i]);
        plan.push(FsOp::Rename { from, to });
        i = i + 1;
        proof {
            let names = path_view(children@);
            let wanted = hoist_renames(staging@, wrapper@, names.subrange(0, i as int));
            assert forall|j: int| 0 <= j < wanted.len() implies plan_view(plan@)[j]
                == wanted[j] by {
                if j < i - 1 {
                    assert(plan_view(before)[j] == hoist_renames(
                        staging@,
                        wrapper@,
                        names.subrange(0, i - 1),
                    )[j]);
                }
            }
        }
    }
    assert(path_view(children@).subrange(0, i as int) =~= path_view(children@));
    plan.push(FsOp::RemoveDir { path: path2(staging, wrapper) });
    plan
}

/// The operations that put the staged content in the place of the site:
/// where a site is there, it is removed first, whole; then the staging
/// directory is renamed to the site's name.
pub open spec fn publish_ops(staging: Seq<char>, site: Seq<char>, site_exists: bool) -> Seq<
    FsOpView,
> {
    if site_exists {
        seq![
            FsOpView::RemoveTree { path: seq![site] },
            FsOpView::Rename { from: seq![staging], to: seq![site] },
        ]
    } else {
        seq![FsOpView::Rename { from: seq![staging], to: seq![site] }]
    }
}

/// Plans the replacement of the site by the staged content.
pub fn publish_plan(staging: &String, site: &String, site_exists: bool) -> (plan: Vec<FsOp>)
    ensures
        plan_view(plan@) == publish_ops(staging@, site@, site_exists),
{
    let mut plan: Vec<FsOp> = Vec::new();
    if site_exists {
        plan.push(FsOp::RemoveTree { path: path1(site) });
    }
    plan.push(FsOp::Rename { from: path1(staging), to: path1(site) });
    plan
}

} // verus!
