use ergo::copier::{
    deep_copy, default_workers, worker_count, Destination, Found, RootStep, FILE_QUEUE_BOUND,
};
use ergo::producer::{Action, Producer};
use ergo::record::{CopyTask, ErrorRecord, Reach};
use ergo::tree::{Entry, Node};
use ergo::walk::walk_and_create_dirs;

fn dir(depth: usize) -> Entry {
    Entry { depth, node: Node::Directory { created: true } }
}

fn locked(depth: usize) -> Entry {
    Entry { depth, node: Node::Directory { created: false } }
}

fn file(depth: usize) -> Entry {
    Entry { depth, node: Node::File { copied: true } }
}

fn torn(depth: usize) -> Entry {
    Entry { depth, node: Node::File { copied: false } }
}

fn unreadable(depth: usize) -> Entry {
    Entry { depth, node: Node::Unreadable }
}

const FRESH: Destination = Destination { found: Found::Nothing, creatable: true };

fn standing(found: Found) -> Destination {
    Destination { found, creatable: true }
}

#[test]
fn two_files_two_workers() {
    // . / a.txt / sub / sub/b.txt
    let walk = vec![dir(0), file(1), dir(1), file(2)];
    let report = deep_copy(FRESH, &walk, 2);
    assert_eq!(report.workers, 2);
    assert_eq!(report.directories, vec![0, 2]);
    assert_eq!(report.files, vec![1, 3]);
    assert!(report.errors.is_empty());
}

#[test]
fn locked_directory_hides_its_file() {
    // . / locked_dir / locked_dir/secret.txt
    let walk = vec![dir(0), locked(1), file(2)];
    let report = deep_copy(FRESH, &walk, 2);
    assert_eq!(report.directories, vec![0]);
    assert!(report.files.is_empty());
    assert_eq!(report.errors, vec![ErrorRecord::Directory(1)]);
}

#[test]
fn followed_link_is_copied_as_a_file() {
    // . / link, where the link leads to a file outside the tree
    let walk = vec![dir(0), file(1)];
    let report = deep_copy(FRESH, &walk, 1);
    assert_eq!(report.files, vec![1]);
    assert!(report.errors.is_empty());
}

#[test]
fn file_at_destination_root_is_fatal() {
    let walk = vec![dir(0), file(1), dir(1), file(2)];
    let report = deep_copy(standing(Found::NotDirectory), &walk, 4);
    assert_eq!(report.workers, 0);
    assert!(report.directories.is_empty());
    assert!(report.files.is_empty());
    assert_eq!(report.errors, vec![ErrorRecord::Root]);
}

#[test]
fn empty_source_leaves_nothing() {
    let walk: Vec<Entry> = Vec::new();
    let report = deep_copy(FRESH, &walk, 3);
    assert_eq!(report.workers, 3);
    assert!(report.directories.is_empty());
    assert!(report.files.is_empty());
    assert!(report.errors.is_empty());
}

#[test]
fn empty_source_with_its_root_entry() {
    let walk = vec![dir(0)];
    let report = deep_copy(standing(Found::EmptyDirectory), &walk, 1);
    assert_eq!(report.directories, vec![0]);
    assert!(report.files.is_empty());
    assert!(report.errors.is_empty());
}

#[test]
fn destination_policy() {
    assert_eq!(Found::Nothing.prepare(), RootStep::Create);
    assert_eq!(Found::EmptyDirectory.prepare(), RootStep::Keep);
    assert_eq!(Found::OccupiedDirectory.prepare(), RootStep::Refuse);
    assert_eq!(Found::NotDirectory.prepare(), RootStep::Refuse);
    assert!(Destination { found: Found::Nothing, creatable: true }.settle());
    assert!(!Destination { found: Found::Nothing, creatable: false }.settle());
    assert!(Destination { found: Found::EmptyDirectory, creatable: false }.settle());
    assert!(!Destination { found: Found::OccupiedDirectory, creatable: true }.settle());
    assert!(!Destination { found: Found::NotDirectory, creatable: true }.settle());
}

#[test]
fn root_that_cannot_be_made_is_fatal() {
    let walk = vec![dir(0), file(1)];
    let report = deep_copy(Destination { found: Found::Nothing, creatable: false }, &walk, 2);
    assert_eq!(report.workers, 0);
    assert!(report.files.is_empty());
    assert_eq!(report.errors, vec![ErrorRecord::Root]);
}

#[test]
fn occupied_destination_is_fatal() {
    let walk = vec![dir(0), file(1)];
    let report = deep_copy(standing(Found::OccupiedDirectory), &walk, 2);
    assert_eq!(report.workers, 0);
    assert!(report.directories.is_empty());
    assert_eq!(report.errors, vec![ErrorRecord::Root]);
}

#[test]
fn no_worker_asked_for_means_one() {
    assert_eq!(worker_count(0), 1);
    assert_eq!(worker_count(1), 1);
    assert_eq!(worker_count(8), 8);
    assert_eq!(worker_count(usize::MAX), usize::MAX);
    let report = deep_copy(FRESH, &vec![dir(0), file(1)], 0);
    assert_eq!(report.workers, 1);
    assert_eq!(report.files, vec![1]);
}

#[test]
fn default_workers_is_at_least_one() {
    assert!(default_workers() >= 1);
}

#[test]
fn file_queue_is_bounded() {
    assert_eq!(FILE_QUEUE_BOUND, 128);
}

#[test]
fn siblings_of_a_locked_directory_are_copied() {
    // . / a / a/x / a/deep / a/deep/y / b / b/z / c.txt
    let walk = vec![dir(0), locked(1), file(2), dir(2), file(3), dir(1), file(2), file(1)];
    let report = deep_copy(FRESH, &walk, 2);
    assert_eq!(report.directories, vec![0, 5]);
    assert_eq!(report.files, vec![6, 7]);
    assert_eq!(report.errors, vec![ErrorRecord::Directory(1)]);
}

#[test]
fn locked_directory_under_a_locked_directory_is_not_reported() {
    let walk = vec![dir(0), locked(1), locked(2), file(3), unreadable(2), torn(2), file(1)];
    let report = deep_copy(FRESH, &walk, 2);
    assert_eq!(report.directories, vec![0]);
    assert_eq!(report.files, vec![6]);
    assert_eq!(report.errors, vec![ErrorRecord::Directory(1)]);
}

#[test]
fn locked_root_entry_hides_everything() {
    let walk = vec![locked(0), file(1), dir(1), file(2)];
    let report = deep_copy(FRESH, &walk, 2);
    assert!(report.directories.is_empty());
    assert!(report.files.is_empty());
    assert_eq!(report.errors, vec![ErrorRecord::Directory(0)]);
}

#[test]
fn two_locked_siblings_give_two_records() {
    let walk = vec![dir(0), locked(1), file(2), locked(1), file(2), file(1)];
    let plan = walk_and_create_dirs(&walk);
    assert_eq!(plan.directories, vec![0]);
    assert_eq!(plan.tasks, vec![CopyTask { entry: 5 }]);
    assert_eq!(plan.errors, vec![ErrorRecord::Directory(1), ErrorRecord::Directory(3)]);
}

#[test]
fn unreadable_entry_is_reported_and_passed() {
    let walk = vec![dir(0), unreadable(1), file(1), dir(1), unreadable(2), file(2)];
    let plan = walk_and_create_dirs(&walk);
    assert_eq!(plan.directories, vec![0, 3]);
    assert_eq!(plan.tasks, vec![CopyTask { entry: 2 }, CopyTask { entry: 5 }]);
    assert_eq!(plan.errors, vec![ErrorRecord::Walk(1), ErrorRecord::Walk(4)]);
}

#[test]
fn only_unreadable_entries() {
    let walk = vec![dir(0), unreadable(1), unreadable(1), unreadable(1)];
    let report = deep_copy(FRESH, &walk, 2);
    assert!(report.files.is_empty());
    assert_eq!(
        report.errors,
        vec![ErrorRecord::Walk(1), ErrorRecord::Walk(2), ErrorRecord::Walk(3)]
    );
}

#[test]
fn failed_copy_is_reported_and_the_rest_copied() {
    let walk = vec![dir(0), file(1), torn(1), file(1)];
    let report = deep_copy(FRESH, &walk, 2);
    assert_eq!(report.files, vec![1, 3]);
    assert_eq!(report.errors, vec![ErrorRecord::Copy(2)]);
}

#[test]
fn producer_does_not_copy() {
    let walk = vec![dir(0), file(1), torn(1)];
    let plan = walk_and_create_dirs(&walk);
    assert_eq!(plan.tasks, vec![CopyTask { entry: 1 }, CopyTask { entry: 2 }]);
    assert!(plan.errors.is_empty());
}

#[test]
fn every_kind_of_failure_once() {
    let walk = vec![dir(0), unreadable(1), locked(1), file(2), torn(1), file(1)];
    let mut errors = deep_copy(FRESH, &walk, 2).errors;
    errors.sort_by_key(|r| match r {
        ErrorRecord::Root => 0,
        ErrorRecord::Directory(j) | ErrorRecord::Walk(j) | ErrorRecord::Copy(j) => *j + 1,
    });
    assert_eq!(
        errors,
        vec![ErrorRecord::Walk(1), ErrorRecord::Directory(2), ErrorRecord::Copy(4)]
    );
}

#[test]
fn ten_thousand_errors_lose_no_file() {
    let mut walk = vec![dir(0)];
    for _ in 0..10_000 {
        walk.push(unreadable(1));
    }
    walk.push(file(1));
    walk.push(dir(1));
    walk.push(file(2));
    let report = deep_copy(FRESH, &walk, 4);
    assert_eq!(report.errors.len(), 10_000);
    assert_eq!(report.files, vec![10_001, 10_003]);
    assert_eq!(report.directories, vec![0, 10_002]);
}

#[test]
fn file_under_mirrored_ancestors_is_copied() {
    // completeness on a chain four deep
    let walk = vec![dir(0), dir(1), dir(2), dir(3), file(4), locked(1), file(2)];
    let report = deep_copy(FRESH, &walk, 1);
    assert!(report.files.contains(&4));
    assert!(!report.files.contains(&6));
    assert_eq!(report.errors, vec![ErrorRecord::Directory(5)]);
}

#[test]
fn copied_files_and_copy_records_part_the_tasks() {
    let walk = vec![dir(0), file(1), torn(1), dir(1), torn(2), file(2), locked(1), torn(2)];
    let plan = walk_and_create_dirs(&walk);
    let report = deep_copy(FRESH, &walk, 3);
    for task in plan.tasks.iter() {
        let whole = report.files.contains(&task.entry);
        let recorded = report.errors.contains(&ErrorRecord::Copy(task.entry));
        assert_ne!(whole, recorded);
    }
    assert_eq!(report.files.len() + 2, plan.tasks.len());
    assert!(!report.errors.contains(&ErrorRecord::Copy(7)));
}

fn lies_above(walk: &[Entry], i: usize, j: usize) -> bool {
    i < j && j < walk.len() && (i + 1..=j).all(|k| walk[k].depth > walk[i].depth)
}

fn sample_walks() -> Vec<Vec<Entry>> {
    vec![
        vec![],
        vec![dir(0)],
        vec![dir(0), file(1), dir(1), file(2)],
        vec![dir(0), locked(1), file(2), dir(2), file(3), dir(1), file(2), file(1)],
        vec![dir(0), dir(1), locked(2), file(3), file(2), unreadable(2), dir(1), torn(2)],
        vec![locked(0), file(1), dir(1), file(2)],
        vec![dir(0), unreadable(1), locked(1), locked(2), file(3), torn(1), file(1)],
        vec![file(3), dir(1), file(5), locked(0), file(0), file(1), dir(0), file(7)],
    ]
}

#[test]
fn directories_come_before_the_files_in_them() {
    for walk in sample_walks() {
        let plan = walk_and_create_dirs(&walk);
        for task in plan.tasks.iter() {
            for above in 0..walk.len() {
                if lies_above(&walk, above, task.entry) {
                    if let Node::Directory { .. } = walk[above].node {
                        assert!(plan.directories.contains(&above));
                        assert!(above < task.entry);
                    }
                }
            }
        }
    }
}

#[test]
fn nothing_under_a_failed_directory_is_touched() {
    for walk in sample_walks() {
        let report = deep_copy(FRESH, &walk, 2);
        for d in 0..walk.len() {
            if !report.errors.contains(&ErrorRecord::Directory(d)) {
                continue;
            }
            let times = report.errors.iter().filter(|r| **r == ErrorRecord::Directory(d)).count();
            assert_eq!(times, 1);
            for under in 0..walk.len() {
                if lies_above(&walk, d, under) {
                    assert!(!report.directories.contains(&under));
                    assert!(!report.files.contains(&under));
                    assert!(!report.errors.contains(&ErrorRecord::Directory(under)));
                    assert!(!report.errors.contains(&ErrorRecord::Walk(under)));
                    assert!(!report.errors.contains(&ErrorRecord::Copy(under)));
                }
            }
        }
    }
}

#[test]
fn every_entry_is_accounted_for_at_most_once() {
    for walk in sample_walks() {
        let report = deep_copy(FRESH, &walk, 2);
        for j in 0..walk.len() {
            let mut times = 0;
            times += report.directories.iter().filter(|d| **d == j).count();
            times += report.files.iter().filter(|f| **f == j).count();
            times += report.errors.iter().filter(|r| **r == ErrorRecord::Directory(j)).count();
            times += report.errors.iter().filter(|r| **r == ErrorRecord::Walk(j)).count();
            times += report.errors.iter().filter(|r| **r == ErrorRecord::Copy(j)).count();
            assert!(times <= 1);
        }
    }
}

#[test]
fn stepwise_producer_agrees_with_the_pass() {
    for walk in sample_walks() {
        let plan = walk_and_create_dirs(&walk);
        let mut producer = Producer::new();
        let mut directories = Vec::new();
        let mut tasks = Vec::new();
        let mut errors = Vec::new();
        for (place, entry) in walk.iter().enumerate() {
            match producer.visit(entry.depth, entry.node.seen()) {
                Action::Skip => {}
                Action::CreateDirectory => {
                    if entry.node.answer() {
                        directories.push(place);
                    } else {
                        producer.directory_failed(entry.depth);
                        errors.push(ErrorRecord::Directory(place));
                    }
                }
                Action::SendFile => tasks.push(CopyTask { entry: place }),
                Action::ReportError => errors.push(ErrorRecord::Walk(place)),
            }
        }
        assert_eq!(plan.directories, directories);
        assert_eq!(plan.tasks, tasks);
        assert_eq!(plan.errors, errors);
    }
}

#[test]
fn only_the_root_failure_ends_the_copy() {
    assert_eq!(ErrorRecord::Root.reach(), Reach::Operation);
    assert_eq!(ErrorRecord::Directory(3).reach(), Reach::Subtree);
    assert_eq!(ErrorRecord::Walk(3).reach(), Reach::Entry);
    assert_eq!(ErrorRecord::Copy(3).reach(), Reach::File);
}
