use dupes::config::{Config, Mode};
use dupes::digest::compute_sha256;
use dupes::engine::{process_duplicates, Observation, Outcome, Visit};
use dupes::path::join_path;

fn config(mode: Mode) -> Config {
    let target = match mode {
        Mode::Delete => None,
        _ => Some("quarantine".to_string()),
    };
    Config::new(Some("data".to_string()), target, mode).unwrap()
}

fn file(path: &str, content: &[u8]) -> Visit {
    Visit {
        path: path.to_string(),
        observation: Observation::Digest(compute_sha256(content)),
    }
}

fn keeps_file(outcome: &Outcome) -> bool {
    matches!(outcome, Outcome::Ignored | Outcome::Skipped | Outcome::Registered)
}

fn survivors(mode: Mode, visits: &Vec<Visit>) -> Vec<Visit> {
    let report = process_duplicates(config(mode), visits);
    visits
        .iter()
        .zip(report.outcomes.iter())
        .filter(|(_, outcome)| keeps_file(outcome))
        .map(|(visit, _)| visit.clone())
        .collect()
}

fn sample() -> Vec<Visit> {
    vec![
        Visit { path: "data".to_string(), observation: Observation::Directory },
        file("data/reports/2020/summary.txt", b"summary"),
        file("data/s.txt", b"summary"),
        file("data/notes.txt", b"notes"),
        Visit { path: "data/locked".to_string(), observation: Observation::Unreadable },
        file("data/copy/notes.txt", b"notes"),
        file("data/summary-again.txt", b"summary"),
        file("data/unique.bin", &[0, 1, 2, 3]),
    ]
}

#[test]
fn of_two_equal_files_delete_keeps_the_one_visited_first() {
    let one = file("data/one.txt", b"same bytes");
    let two = file("data/two.txt", b"same bytes");
    let forward = process_duplicates(config(Mode::Delete), &vec![one.clone(), two.clone()]);
    assert_eq!(forward.outcomes, vec![Outcome::Registered, Outcome::Deleted]);
    assert_eq!(
        forward.registry.canonical(&compute_sha256(b"same bytes")),
        Some(&"data/one.txt".to_string())
    );
    let backward = process_duplicates(config(Mode::Delete), &vec![two, one]);
    assert_eq!(backward.outcomes, vec![Outcome::Registered, Outcome::Deleted]);
    assert_eq!(
        backward.registry.canonical(&compute_sha256(b"same bytes")),
        Some(&"data/two.txt".to_string())
    );
}

#[test]
fn distinct_contents_are_never_removed_or_moved() {
    let visits = vec![
        file("data/a", b"a"),
        file("data/b", b"b"),
        file("data/c/c", b"c"),
        file("data/d", b""),
    ];
    for mode in [Mode::Delete, Mode::Relocate, Mode::RelocateKeepShortest] {
        let report = process_duplicates(config(mode), &visits);
        assert_eq!(report.outcomes, vec![Outcome::Registered; 4]);
        assert_eq!(report.registry.len(), 4);
        for visit in visits.iter() {
            if let Observation::Digest(digest) = &visit.observation {
                assert_eq!(report.registry.canonical(digest), Some(&visit.path));
            }
        }
    }
}

#[test]
fn a_copy_under_another_name_has_the_same_fingerprint() {
    let content = b"bytes that do not change when the file is copied";
    let first = file("data/report.txt", content);
    let copy = file("elsewhere/renamed.bak", content);
    assert_eq!(first.observation, copy.observation);
}

#[test]
fn relocate_keeps_the_relative_path_of_a_duplicate() {
    let relatives = ["b.txt", "b/b.txt", "x/y/z/deep.bin"];
    for relative in relatives.iter() {
        let visits = vec![
            file("data/first", b"same"),
            file(&join_path("data", relative), b"same"),
        ];
        let report = process_duplicates(config(Mode::Relocate), &visits);
        assert_eq!(
            report.outcomes[1],
            Outcome::Relocated { destination: join_path("quarantine", relative) }
        );
        assert_eq!(
            report.registry.canonical(&compute_sha256(b"same")),
            Some(&"data/first".to_string())
        );
    }
}

#[test]
fn delete_twice_is_delete_once() {
    let first = survivors(Mode::Delete, &sample());
    let paths: Vec<&str> = first.iter().map(|visit| visit.path.as_str()).collect();
    assert_eq!(
        paths,
        vec![
            "data",
            "data/reports/2020/summary.txt",
            "data/notes.txt",
            "data/locked",
            "data/unique.bin",
        ]
    );
    let report = process_duplicates(config(Mode::Delete), &first);
    assert!(report.outcomes.iter().all(|outcome| keeps_file(outcome)));
    let second = survivors(Mode::Delete, &first);
    assert_eq!(second, first);
}

#[test]
fn a_second_run_changes_nothing_under_any_policy() {
    for mode in [Mode::Delete, Mode::Relocate, Mode::RelocateKeepShortest] {
        let first = survivors(mode, &sample());
        let second = survivors(mode, &first);
        assert_eq!(second, first);
    }
}

#[test]
fn what_a_run_leaves_in_place_has_distinct_fingerprints() {
    for mode in [Mode::Delete, Mode::Relocate, Mode::RelocateKeepShortest] {
        let kept = survivors(mode, &sample());
        let digests: Vec<&String> = kept
            .iter()
            .filter_map(|visit| match &visit.observation {
                Observation::Digest(digest) => Some(digest),
                _ => None,
            })
            .collect();
        for i in 0..digests.len() {
            for j in (i + 1)..digests.len() {
                assert_ne!(digests[i], digests[j]);
            }
        }
    }
}

#[test]
fn the_registry_names_only_files_that_were_visited() {
    for mode in [Mode::Delete, Mode::Relocate, Mode::RelocateKeepShortest] {
        let visits = sample();
        let report = process_duplicates(config(mode), &visits);
        assert_eq!(report.registry.len(), 3);
        for visit in visits.iter() {
            if let Observation::Digest(digest) = &visit.observation {
                let canonical = report.registry.canonical(digest).unwrap();
                assert!(visits.iter().any(|other| {
                    &other.path == canonical && other.observation == visit.observation
                }));
            }
        }
    }
}

#[test]
fn a_second_run_in_another_order_changes_nothing() {
    for mode in [Mode::Delete, Mode::Relocate, Mode::RelocateKeepShortest] {
        let mut second = survivors(mode, &sample());
        second.reverse();
        let report = process_duplicates(config(mode), &second);
        assert!(report.outcomes.iter().all(|outcome| keeps_file(outcome)));
        assert_eq!(survivors(mode, &second), second);
        // The same holds where an entry has gone in the meantime.
        second.remove(1);
        let report = process_duplicates(config(mode), &second);
        assert!(report.outcomes.iter().all(|outcome| keeps_file(outcome)));
    }
}

#[test]
fn keep_shortest_ends_with_a_shortest_path() {
    let orders: Vec<Vec<&str>> = vec![
        vec!["data/three/deep/x", "data/two/x", "data/x", "data/y"],
        vec!["data/x", "data/y", "data/two/x", "data/three/deep/x"],
        vec!["data/two/x", "data/three/deep/x", "data/y", "data/x"],
        vec!["data/y", "data/three/deep/x", "data/x", "data/two/x"],
    ];
    for order in orders.iter() {
        let visits: Vec<Visit> = order.iter().map(|path| file(path, b"same")).collect();
        let report = process_duplicates(config(Mode::RelocateKeepShortest), &visits);
        let canonical = report.registry.canonical(&compute_sha256(b"same")).unwrap();
        assert_eq!(canonical.len(), 6);
        for visit in visits.iter() {
            assert!(canonical.len() <= visit.path.len());
        }
        // Of two shortest paths the one visited first is named.
        let first_shortest = order.iter().find(|path| path.len() == 6).unwrap();
        assert_eq!(canonical, first_shortest);
    }
}
