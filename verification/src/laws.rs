//! What a finished copy guarantees, proved from the report alone.

use vstd::prelude::*;
use crate::copier::Report;
use crate::record::{ascending, owed, CopyTask, ErrorRecord};
use crate::tree::{copied, encloses, excluded, mirrored, queued, refuses, visited, Entry, Node};
use crate::walk::Plan;

verus! {

/// What lies above what lies above an entry lies above that entry.
pub proof fn lemma_encloses_transitive(walk: Seq<Entry>, i: int, j: int, k: int)
    requires
        encloses(walk, i, j),
        encloses(walk, j, k),
    ensures
        encloses(walk, i, k),
{
    assert(walk[j].depth > walk[i].depth);
    assert forall|m: int| i < m <= k implies (#[trigger] walk[m]).depth > walk[i].depth by {
        if m > j {
            assert(walk[m].depth > walk[j].depth);
        }
    }
}

/// Whatever lies under an entry that the producer passes over is passed
/// over too.
pub proof fn lemma_exclusion_descends(walk: Seq<Entry>, above: int, under: int)
    requires
        encloses(walk, above, under),
        excluded(walk, above),
    ensures
        excluded(walk, under),
{
    let i = choose|i: int| #[trigger] encloses(walk, i, above) && refuses(walk[i]);
    lemma_encloses_transitive(walk, i, above, under);
}

/// The producer leaves a failed directory's subtree alone. Nothing under a
/// directory whose mirror cannot be made is mirrored, handed to the workers
/// or recorded by the producer.
pub proof fn lemma_producer_leaves_subtree(plan: Plan, walk: Seq<Entry>, dir: usize, under: usize)
    requires
        plan.follows(walk),
        refuses(walk[dir as int]),
        encloses(walk, dir as int, under as int),
    ensures
        !plan.directories@.contains(under),
        !plan.tasks@.contains(CopyTask { entry: under }),
        forall|r: ErrorRecord| r.origin() == under ==> !plan.errors@.contains(r),
{
    assert(excluded(walk, under as int));
    assert(!mirrored(walk, under as int));
    assert(!queued(walk, under as int));
    assert forall|r: ErrorRecord| r.origin() == under implies !plan.errors@.contains(r) by {
        assert(!owed(walk, r));
    }
}

/// Directories come first. When a file becomes a task, every directory above
/// it has been mirrored, and was mirrored earlier in the walk: a worker finds
/// the place for its copy ready.
pub proof fn lemma_directories_come_first(plan: Plan, walk: Seq<Entry>, file: usize, above: usize)
    requires
        plan.follows(walk),
        plan.tasks@.contains(CopyTask { entry: file }),
        encloses(walk, above as int, file as int),
        walk[above as int].node is Directory,
    ensures
        plan.directories@.contains(above),
        above < file,
{
    assert(queued(walk, file as int));
    if excluded(walk, above as int) {
        lemma_exclusion_descends(walk, above as int, file as int);
    }
    assert(!refuses(walk[above as int]));
    assert(mirrored(walk, above as int));
}

proof fn lemma_ascending_places_differ(places: Seq<usize>)
    requires
        ascending(places),
    ensures
        places.no_duplicates(),
{
    assert forall|a: int, b: int|
        0 <= a < places.len() && 0 <= b < places.len() && a != b implies places[a]
        != places[b] by {
        if a < b {
            assert(places[a] < places[b]);
        } else {
            assert(places[b] < places[a]);
        }
    }
}

/// Each once. In the report of a finished copy no directory stands twice, no
/// file stands twice, and no failure is recorded twice.
pub proof fn lemma_each_once(report: Report, walk: Seq<Entry>)
    requires
        report.accounts_for(walk),
    ensures
        report.directories@.no_duplicates(),
        report.files@.no_duplicates(),
        report.errors@.no_duplicates(),
{
    lemma_ascending_places_differ(report.directories@);
    lemma_ascending_places_differ(report.files@);
}

/// Completeness. A file whose copy the file system grants, and above which
/// every entry is a directory that was mirrored, stands in the destination
/// when the copy has ended, and no record is held against it.
pub proof fn lemma_completeness(report: Report, walk: Seq<Entry>, file: usize)
    requires
        report.accounts_for(walk),
        file < walk.len(),
        walk[file as int].node == (Node::File { copied: true }),
        forall|i: int| #[trigger]
            encloses(walk, i, file as int) ==> walk[i].node == (Node::Directory { created: true }),
    ensures
        report.files@.contains(file),
        forall|r: ErrorRecord| r.origin() == file ==> !report.errors@.contains(r),
{
    assert(!excluded(walk, file as int));
    assert(copied(walk, file as int));
    assert forall|r: ErrorRecord| r.origin() == file implies !report.errors@.contains(r) by {
        assert(!owed(walk, r));
    }
}

/// Subtree exclusion. Where the producer tried to mirror a directory and
/// failed, nothing under it, at any depth, is mirrored, copied or recorded,
/// and the error stream holds one record for the directory itself, once.
pub proof fn lemma_subtree_exclusion(report: Report, walk: Seq<Entry>, dir: usize, under: usize)
    requires
        report.accounts_for(walk),
        visited(walk, dir as int),
        refuses(walk[dir as int]),
        encloses(walk, dir as int, under as int),
    ensures
        !report.directories@.contains(under),
        !report.files@.contains(under),
        forall|r: ErrorRecord| r.origin() == under ==> !report.errors@.contains(r),
        report.errors@.to_multiset().count(ErrorRecord::Directory(dir)) == 1,
        forall|r: ErrorRecord|
            r.origin() == dir && report.errors@.contains(r) ==> r == ErrorRecord::Directory(dir),
{
    assert(excluded(walk, under as int));
    assert(!mirrored(walk, under as int));
    assert(!copied(walk, under as int));
    assert forall|r: ErrorRecord| r.origin() == under implies !report.errors@.contains(r) by {
        assert(!owed(walk, r));
    }
    assert(owed(walk, ErrorRecord::Directory(dir)));
    assert(report.errors@.contains(ErrorRecord::Directory(dir)));
    report.errors@.to_multiset_ensures();
    report.errors@.lemma_multiset_has_no_duplicates();
    assert forall|r: ErrorRecord| r.origin() == dir && report.errors@.contains(r) implies r
        == ErrorRecord::Directory(dir) by {
        assert(owed(walk, r));
    }
}

/// No partial files. Every file that was handed to a worker either stands
/// whole in the destination with no record against its copy, or is missing
/// from the report's files and has its record on the error stream; and a file
/// that was never handed to a worker is not in the destination.
pub proof fn lemma_no_partial_files(report: Report, walk: Seq<Entry>, file: usize)
    requires
        report.accounts_for(walk),
    ensures
        report.files@.contains(file) ==> queued(walk, file as int) && walk[file as int].node == (
        Node::File { copied: true }),
        queued(walk, file as int) ==> (report.files@.contains(file) <==> !report.errors@.contains(
            ErrorRecord::Copy(file),
        )),
{
    assert(report.files@.contains(file) <==> copied(walk, file as int));
    assert(report.errors@.contains(ErrorRecord::Copy(file)) <==> owed(
        walk,
        ErrorRecord::Copy(file),
    ));
}

/// Unreadable entries cost nothing but their own record. In a walk whose
/// every directory can be mirrored, however many entries cannot be read,
/// every file whose copy the file system grants stands in the destination.
pub proof fn lemma_errors_lose_no_file(report: Report, walk: Seq<Entry>, file: usize)
    requires
        report.accounts_for(walk),
        forall|i: int| 0 <= i < walk.len() ==> !refuses(#[trigger] walk[i]),
        file < walk.len(),
        walk[file as int].node == (Node::File { copied: true }),
    ensures
        report.files@.contains(file),
{
    assert(!excluded(walk, file as int));
    assert(copied(walk, file as int));
}

/// The copy of an empty source. With nothing in the walk, nothing is
/// mirrored, nothing is copied and the error stream is empty.
pub proof fn lemma_empty_source(report: Report, walk: Seq<Entry>)
    requires
        report.accounts_for(walk),
        walk.len() == 0,
    ensures
        report.directories@.len() == 0,
        report.files@.len() == 0,
        report.errors@.len() == 0,
{
    if report.directories@.len() > 0 {
        assert(report.directories@.contains(report.directories@[0]));
    }
    if report.files@.len() > 0 {
        assert(report.files@.contains(report.files@[0]));
    }
    if report.errors@.len() > 0 {
        assert(report.errors@.contains(report.errors@[0]));
        assert(owed(walk, report.errors@[0]));
    }
}

} // verus!
