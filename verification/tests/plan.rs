use std::collections::BTreeMap;

use doubleblind_science::plan::{
    hoist_plan, path1, path2, path3, publish_plan, sole_directory, DirEntry, LayoutError,
};
use doubleblind_science::tree::FsOp;

#[derive(Debug, Clone, PartialEq, Eq)]
enum Sim {
    File(Vec<u8>),
    Dir(BTreeMap<String, Sim>),
}

fn sim_dir(entries: Vec<(&str, Sim)>) -> Sim {
    Sim::Dir(entries.into_iter().map(|(name, node)| (name.to_string(), node)).collect())
}

fn sim_file(bytes: &str) -> Sim {
    Sim::File(bytes.as_bytes().to_vec())
}

fn sim_get<'a>(root: &'a Sim, path: &[String]) -> Option<&'a Sim> {
    match path.split_first() {
        None => Some(root),
        Some((first, rest)) => match root {
            Sim::Dir(entries) => entries.get(first).and_then(|node| sim_get(node, rest)),
            Sim::File(_) => None,
        },
    }
}

fn sim_place(root: &mut Sim, path: &[String], entry: Option<Sim>) -> bool {
    match (path.split_first(), root) {
        (Some((first, rest)), Sim::Dir(entries)) => {
            if rest.is_empty() {
                match entry {
                    Some(node) => {
                        entries.insert(first.clone(), node);
                    }
                    None => {
                        entries.remove(first);
                    }
                }
                true
            } else {
                match entries.get_mut(first) {
                    Some(below) => sim_place(below, rest, entry),
                    None => false,
                }
            }
        }
        _ => false,
    }
}

fn sim_apply(root: &mut Sim, op: &FsOp) -> bool {
    match op {
        FsOp::Rename { from, to } => {
            let moved = match sim_get(root, from) {
                Some(node) => node.clone(),
                None => return false,
            };
            if from.is_empty() || sim_get(root, to).is_some() || to.starts_with(from) {
                return false;
            }
            sim_place(root, from, None) && sim_place(root, to, Some(moved))
        }
        FsOp::RemoveDir { path } => match sim_get(root, path) {
            Some(Sim::Dir(entries)) if entries.is_empty() && !path.is_empty() => {
                sim_place(root, path, None)
            }
            _ => false,
        },
        FsOp::RemoveTree { path } => match sim_get(root, path) {
            Some(_) => sim_place(root, path, None),
            None => false,
        },
    }
}

fn sim_apply_all(root: &mut Sim, plan: &[FsOp]) -> bool {
    plan.iter().all(|op| sim_apply(root, op))
}

fn names(list: &[&str]) -> Vec<String> {
    list.iter().map(|name| name.to_string()).collect()
}

fn content() -> Sim {
    sim_dir(vec![
        ("index.html", sim_file("<html></html>")),
        ("README.md", sim_file("# zia")),
        ("assets", sim_dir(vec![("site.css", sim_file("body {}")), ("img", sim_dir(vec![]))])),
    ])
}

fn deploy(root: &mut Sim, wrapper: &str, inner: &Sim, children: &[&str]) -> bool {
    let staging = "staging".to_string();
    let site = "zia.m4rc3l.de".to_string();
    let unpacked = sim_dir(vec![(wrapper, inner.clone())]);
    assert!(sim_place(root, &[staging.clone()], Some(unpacked)));
    let hoist = hoist_plan(&staging, &wrapper.to_string(), &names(children));
    if !sim_apply_all(root, &hoist) {
        return false;
    }
    let exists = sim_get(root, &[site.clone()]).is_some();
    let publish = publish_plan(&staging, &site, exists);
    sim_apply_all(root, &publish)
}

#[test]
fn paths_list_their_names() {
    let a = "a".to_string();
    let b = "b".to_string();
    let c = "c".to_string();
    assert_eq!(path1(&a), names(&["a"]));
    assert_eq!(path2(&a, &b), names(&["a", "b"]));
    assert_eq!(path3(&a, &b, &c), names(&["a", "b", "c"]));
}

#[test]
fn sole_directory_is_the_wrapper() {
    let listing = vec![DirEntry { name: "owner-repo-abc".to_string(), is_dir: true }];
    assert_eq!(sole_directory(&listing), Ok("owner-repo-abc".to_string()));
}

#[test]
fn listing_without_sole_directory_is_refused() {
    assert_eq!(sole_directory(&vec![]), Err(LayoutError::Empty));
    let two = vec![
        DirEntry { name: "a".to_string(), is_dir: true },
        DirEntry { name: "b".to_string(), is_dir: false },
    ];
    assert_eq!(sole_directory(&two), Err(LayoutError::SeveralEntries));
    let one_file = vec![DirEntry { name: "a".to_string(), is_dir: false }];
    assert_eq!(sole_directory(&one_file), Err(LayoutError::NotADirectory));
}

#[test]
fn hoist_plan_renames_each_child_then_removes_the_wrapper() {
    let plan = hoist_plan(&"s".to_string(), &"w".to_string(), &names(&["x", "y"]));
    assert_eq!(plan.len(), 3);
    match &plan[0] {
        FsOp::Rename { from, to } => {
            assert_eq!(from, &names(&["s", "w", "x"]));
            assert_eq!(to, &names(&["s", "x"]));
        }
        _ => panic!("not a rename"),
    }
    match &plan[1] {
        FsOp::Rename { from, to } => {
            assert_eq!(from, &names(&["s", "w", "y"]));
            assert_eq!(to, &names(&["s", "y"]));
        }
        _ => panic!("not a rename"),
    }
    match &plan[2] {
        FsOp::RemoveDir { path } => assert_eq!(path, &names(&["s", "w"])),
        _ => panic!("not a removal"),
    }
}

#[test]
fn publish_plan_removes_only_what_is_there() {
    let staging = "staging".to_string();
    let site = "zia.m4rc3l.de".to_string();
    let fresh = publish_plan(&staging, &site, false);
    assert_eq!(fresh.len(), 1);
    match &fresh[0] {
        FsOp::Rename { from, to } => {
            assert_eq!(from, &names(&["staging"]));
            assert_eq!(to, &names(&["zia.m4rc3l.de"]));
        }
        _ => panic!("not a rename"),
    }
    let replace = publish_plan(&staging, &site, true);
    assert_eq!(replace.len(), 2);
    match &replace[0] {
        FsOp::RemoveTree { path } => assert_eq!(path, &names(&["zia.m4rc3l.de"])),
        _ => panic!("not a removal"),
    }
    assert!(matches!(&replace[1], FsOp::Rename { .. }));
}

#[test]
fn hoisting_puts_the_files_at_the_top() {
    let inner = content();
    let mut root = sim_dir(vec![("staging", sim_dir(vec![("zia-main", inner.clone())]))]);
    let plan = hoist_plan(
        &"staging".to_string(),
        &"zia-main".to_string(),
        &names(&["assets", "README.md", "index.html"]),
    );
    assert!(sim_apply_all(&mut root, &plan));
    assert_eq!(sim_get(&root, &names(&["staging"])), Some(&inner));
    match sim_get(&root, &names(&["staging"])) {
        Some(Sim::Dir(entries)) => {
            assert_eq!(entries.len(), 3);
            assert!(!entries.contains_key("zia-main"));
        }
        _ => panic!("no staging directory"),
    }
}

#[test]
fn hoisting_does_not_depend_on_the_order_of_the_listing() {
    let inner = content();
    let orders: [[&str; 3]; 3] = [
        ["index.html", "README.md", "assets"],
        ["assets", "index.html", "README.md"],
        ["README.md", "assets", "index.html"],
    ];
    for order in orders.iter() {
        let mut root = sim_dir(vec![("staging", sim_dir(vec![("w", inner.clone())]))]);
        let plan = hoist_plan(&"staging".to_string(), &"w".to_string(), &names(order));
        assert!(sim_apply_all(&mut root, &plan));
        assert_eq!(sim_get(&root, &names(&["staging"])), Some(&inner));
    }
}

#[test]
fn child_named_like_the_wrapper_stops_the_plan() {
    let inner = sim_dir(vec![("w", sim_file("x")), ("index.html", sim_file("y"))]);
    let mut root = sim_dir(vec![("staging", sim_dir(vec![("w", inner)]))]);
    let plan = hoist_plan(&"staging".to_string(), &"w".to_string(), &names(&["w", "index.html"]));
    assert!(!sim_apply_all(&mut root, &plan));
}

#[test]
fn deployment_installs_exactly_the_content() {
    let inner = content();
    let other = sim_dir(vec![("index.html", sim_file("other site"))]);
    let mut root = sim_dir(vec![("other.m4rc3l.de", other.clone())]);
    assert!(deploy(&mut root, "zia-main", &inner, &["index.html", "README.md", "assets"]));
    assert_eq!(sim_get(&root, &names(&["zia.m4rc3l.de"])), Some(&inner));
    assert_eq!(sim_get(&root, &names(&["other.m4rc3l.de"])), Some(&other));
    assert_eq!(sim_get(&root, &names(&["staging"])), None);
    assert_eq!(
        sim_get(&root, &names(&["zia.m4rc3l.de", "assets", "site.css"])),
        Some(&sim_file("body {}"))
    );
}

#[test]
fn deploying_twice_gives_identical_content() {
    let inner = content();
    let old = sim_dir(vec![("old.html", sim_file("old"))]);
    let mut root = sim_dir(vec![("zia.m4rc3l.de", old)]);
    assert!(deploy(&mut root, "zia-main", &inner, &["index.html", "README.md", "assets"]));
    let once = root.clone();
    assert!(deploy(&mut root, "zia-main", &inner, &["assets", "README.md", "index.html"]));
    assert_eq!(root, once);
    assert_eq!(sim_get(&root, &names(&["zia.m4rc3l.de"])), Some(&inner));
}

#[test]
fn publishing_never_mixes_old_and_new() {
    let old = sim_dir(vec![("old.html", sim_file("old"))]);
    let new = content();
    let mut root = sim_dir(vec![("zia.m4rc3l.de", old.clone()), ("staging", new.clone())]);
    let site = names(&["zia.m4rc3l.de"]);
    let plan = publish_plan(&"staging".to_string(), &"zia.m4rc3l.de".to_string(), true);
    let mut seen = vec![sim_get(&root, &site).cloned()];
    for op in &plan {
        assert!(sim_apply(&mut root, op));
        seen.push(sim_get(&root, &site).cloned());
    }
    assert_eq!(seen, vec![Some(old), None, Some(new)]);
    assert_eq!(sim_get(&root, &names(&["staging"])), None);
}
