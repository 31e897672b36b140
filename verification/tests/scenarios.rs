use std::collections::BTreeMap;
use std::collections::BTreeSet;

use dupes::action::{mutations, preparation, Mutation};
use dupes::config::{Config, Mode};
use dupes::digest::compute_sha256;
use dupes::engine::{Engine, Observation, Outcome};
use dupes::path::parent_path;

/// A tree held in memory: files with their content, and directories.
struct Tree {
    files: BTreeMap<String, Vec<u8>>,
    directories: BTreeSet<String>,
    unreadable: BTreeSet<String>,
}

fn tree(files: &[(&str, &[u8])]) -> Tree {
    let mut tree = Tree {
        files: BTreeMap::new(),
        directories: BTreeSet::new(),
        unreadable: BTreeSet::new(),
    };
    for (path, content) in files.iter() {
        tree.files.insert(path.to_string(), content.to_vec());
        add_directories(&mut tree, path);
    }
    tree
}

fn add_directories(tree: &mut Tree, path: &str) {
    let mut current = parent_path(path);
    while let Some(directory) = current {
        current = parent_path(&directory);
        tree.directories.insert(directory);
    }
}

fn apply(tree: &mut Tree, mutation: &Mutation) {
    match mutation {
        Mutation::Remove { path } => {
            assert!(tree.files.remove(path).is_some());
        }
        Mutation::CreateDirectory { path } => {
            tree.directories.insert(path.clone());
            add_directories(tree, path);
        }
        Mutation::Move { from, to } => {
            let directory = parent_path(to).unwrap();
            assert!(tree.directories.contains(&directory));
            let content = tree.files.remove(from).unwrap();
            assert!(tree.files.insert(to.clone(), content).is_none());
        }
    }
}

/// Visits the files under `source` in the given order and carries out what
/// the engine decides, as a caller with a disk would.
fn run(tree: &mut Tree, source: &str, target: Option<&str>, mode: Mode, order: &[&str]) {
    let config =
        Config::new(Some(source.to_string()), target.map(|t| t.to_string()), mode).unwrap();
    for mutation in preparation(&config).iter() {
        apply(tree, mutation);
    }
    let mut engine = Engine::new(config);
    for path in order.iter() {
        let observation = if tree.unreadable.contains(*path) {
            Observation::Unreadable
        } else {
            Observation::Digest(compute_sha256(&tree.files[*path]))
        };
        let registered = engine.registry().len();
        let outcome = engine.observe(path, &observation);
        if observation == Observation::Unreadable {
            assert_eq!(outcome, Outcome::Skipped);
            assert_eq!(engine.registry().len(), registered);
        }
        for mutation in mutations(path, &outcome).iter() {
            apply(tree, mutation);
        }
    }
}

fn paths(tree: &Tree) -> Vec<&str> {
    tree.files.keys().map(|path| path.as_str()).collect()
}

fn sample() -> Tree {
    tree(&[("tree/a.txt", b"hello"), ("tree/b/b.txt", b"hello"), ("tree/c.txt", b"world")])
}

#[test]
fn delete_leaves_two_files_when_a_is_visited_first() {
    let mut tree = sample();
    run(&mut tree, "tree", None, Mode::Delete, &["tree/a.txt", "tree/b/b.txt", "tree/c.txt"]);
    assert_eq!(paths(&tree), vec!["tree/a.txt", "tree/c.txt"]);
    assert_eq!(tree.files["tree/a.txt"], b"hello".to_vec());
    assert_eq!(tree.files["tree/c.txt"], b"world".to_vec());
}

#[test]
fn delete_leaves_two_files_when_b_is_visited_first() {
    let mut tree = sample();
    run(&mut tree, "tree", None, Mode::Delete, &["tree/b/b.txt", "tree/c.txt", "tree/a.txt"]);
    assert_eq!(paths(&tree), vec!["tree/b/b.txt", "tree/c.txt"]);
    assert_eq!(tree.files["tree/b/b.txt"], b"hello".to_vec());
    assert_eq!(tree.files["tree/c.txt"], b"world".to_vec());
}

#[test]
fn delete_twice_leaves_the_same_files() {
    let mut tree = sample();
    run(&mut tree, "tree", None, Mode::Delete, &["tree/a.txt", "tree/b/b.txt", "tree/c.txt"]);
    let once: Vec<String> = tree.files.keys().cloned().collect();
    run(&mut tree, "tree", None, Mode::Delete, &["tree/c.txt", "tree/a.txt"]);
    let twice: Vec<String> = tree.files.keys().cloned().collect();
    assert_eq!(once, twice);
}

#[test]
fn relocate_moves_the_second_copy_under_the_target() {
    let mut tree = sample();
    assert!(!tree.directories.contains("out"));
    run(
        &mut tree,
        "tree",
        Some("out"),
        Mode::Relocate,
        &["tree/a.txt", "tree/b/b.txt", "tree/c.txt"],
    );
    assert_eq!(paths(&tree), vec!["out/b/b.txt", "tree/a.txt", "tree/c.txt"]);
    assert_eq!(tree.files["out/b/b.txt"], b"hello".to_vec());
    assert_eq!(tree.files["tree/a.txt"], b"hello".to_vec());
    assert_eq!(tree.files["tree/c.txt"], b"world".to_vec());
    assert!(tree.directories.contains("out"));
    assert!(tree.directories.contains("out/b"));
}

#[test]
fn relocate_moves_the_other_copy_in_the_other_order() {
    let mut tree = sample();
    run(
        &mut tree,
        "tree",
        Some("out"),
        Mode::Relocate,
        &["tree/b/b.txt", "tree/c.txt", "tree/a.txt"],
    );
    assert_eq!(paths(&tree), vec!["out/a.txt", "tree/b/b.txt", "tree/c.txt"]);
    assert!(tree.directories.contains("out"));
}

#[test]
fn relocate_creates_the_target_even_without_duplicates() {
    let mut tree = tree(&[("tree/a.txt", b"one"), ("tree/b.txt", b"two")]);
    run(&mut tree, "tree", Some("out"), Mode::Relocate, &["tree/a.txt", "tree/b.txt"]);
    assert_eq!(paths(&tree), vec!["tree/a.txt", "tree/b.txt"]);
    assert!(tree.directories.contains("out"));
}

#[test]
fn relocate_creates_every_directory_above_the_destination() {
    let mut tree = tree(&[("tree/first", b"same"), ("tree/x/y/z/deep.bin", b"same")]);
    run(
        &mut tree,
        "tree",
        Some("quarantine/today"),
        Mode::Relocate,
        &["tree/first", "tree/x/y/z/deep.bin"],
    );
    assert_eq!(paths(&tree), vec!["quarantine/today/x/y/z/deep.bin", "tree/first"]);
    for directory in [
        "quarantine",
        "quarantine/today",
        "quarantine/today/x",
        "quarantine/today/x/y",
        "quarantine/today/x/y/z",
    ] {
        assert!(tree.directories.contains(directory));
    }
}

#[test]
fn keep_shortest_moves_the_shorter_copy_and_removes_the_rest() {
    let mut tree = tree(&[
        ("tree/b/b.txt", b"hello"),
        ("tree/a.txt", b"hello"),
        ("tree/d/e/f.txt", b"hello"),
        ("tree/c.txt", b"world"),
    ]);
    run(
        &mut tree,
        "tree",
        Some("out"),
        Mode::RelocateKeepShortest,
        &["tree/b/b.txt", "tree/c.txt", "tree/a.txt", "tree/d/e/f.txt"],
    );
    assert_eq!(paths(&tree), vec!["out/a.txt", "tree/b/b.txt", "tree/c.txt"]);
}

#[test]
fn an_unreadable_file_is_left_alone_and_the_run_completes() {
    for mode in [Mode::Delete, Mode::Relocate, Mode::RelocateKeepShortest] {
        let mut tree = tree(&[
            ("tree/a.txt", b"hello"),
            ("tree/bad.bin", b"hello"),
            ("tree/b/b.txt", b"hello"),
            ("tree/c.txt", b"world"),
        ]);
        tree.unreadable.insert("tree/bad.bin".to_string());
        let target = match mode {
            Mode::Delete => None,
            _ => Some("out"),
        };
        run(
            &mut tree,
            "tree",
            target,
            mode,
            &["tree/a.txt", "tree/bad.bin", "tree/b/b.txt", "tree/c.txt"],
        );
        assert!(tree.files.contains_key("tree/bad.bin"));
        assert!(tree.files.contains_key("tree/a.txt"));
        assert!(tree.files.contains_key("tree/c.txt"));
        assert!(!tree.files.contains_key("tree/b/b.txt"));
        assert_eq!(tree.files.contains_key("out/b/b.txt"), mode == Mode::Relocate);
        assert!(!tree.files.contains_key("out/bad.bin"));
    }
}
