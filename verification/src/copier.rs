//! The whole copy: the destination root first, then the producer's pass,
//! then the workers' share.

use vstd::prelude::*;
use crate::record::{ascending, owed, records_ascending, tasks_ascending, CopyTask, ErrorRecord};
use crate::tree::{copied, mirrored, queued, Entry};
use crate::walk::{walk_and_create_dirs, Plan};

verus! {

broadcast use vstd::seq_lib::lemma_seq_contains_after_push;

/// The number of files that may wait between the producer and the workers.
/// A producer that finds the queue full waits, so the walk never runs far
/// ahead of the copying.
pub const FILE_QUEUE_BOUND: usize = 128;

/// What stands at the path of the destination root before the copy.
#[derive(Clone, Copy, Debug, PartialEq, Eq, Structural)]
pub enum Found {
    /// Nothing.
    Nothing,
    /// A directory with nothing in it.
    EmptyDirectory,
    /// A directory that holds something already.
    OccupiedDirectory,
    /// Something that is no directory.
    NotDirectory,
}

/// What is done about the destination root.
#[derive(Clone, Copy, Debug, PartialEq, Eq, Structural)]
pub enum RootStep {
    /// Make the directory; the copy goes on only if that succeeds.
    Create,
    /// Take the directory as it stands.
    Keep,
    /// Give up before anything is copied: another tree would be merged into,
    /// or there is no directory to copy into.
    Refuse,
}

impl Found {
    /// The step that the path calls for.
    pub open spec fn step(self) -> RootStep {
        match self {
            Found::Nothing => RootStep::Create,
            Found::EmptyDirectory => RootStep::Keep,
            Found::OccupiedDirectory => RootStep::Refuse,
            Found::NotDirectory => RootStep::Refuse,
        }
    }

    /// Says what to do about the destination root: a missing one is made, an
    /// empty directory is kept, anything else is refused.
    pub fn prepare(&self) -> (step: RootStep)
        ensures
            step == self.step(),
    {
        match self {
            Found::Nothing => RootStep::Create,
            Found::EmptyDirectory => RootStep::Keep,
            Found::OccupiedDirectory => RootStep::Refuse,
            Found::NotDirectory => RootStep::Refuse,
        }
    }
}

/// The destination root as a copy meets it: what stands at its path, and
/// whether the file system lets a directory be made there.
#[derive(Clone, Copy, Debug, PartialEq, Eq, Structural)]
pub struct Destination {
    pub found: Found,
    pub creatable: bool,
}

impl Destination {
    /// The destination root stands ready once its step is taken.
    pub open spec fn ready(self) -> bool {
        match self.found.step() {
            RootStep::Create => self.creatable,
            RootStep::Keep => true,
            RootStep::Refuse => false,
        }
    }

    /// Whether the destination root stands ready once its step is taken.
    pub fn settle(&self) -> (ready: bool)
        ensures
            ready == self.ready(),
    {
        match self.found.prepare() {
            RootStep::Create => self.creatable,
            RootStep::Keep => true,
            RootStep::Refuse => false,
        }
    }
}

/// The number of workers that copy files when `requested` are asked for:
/// as many, but never none, since a copy without a worker would never end.
pub open spec fn workers_for(requested: usize) -> usize {
    if requested == 0 {
        1
    } else {
        requested
    }
}

/// The number of workers to start when `requested` are asked for. Nought is
/// raised to one.
pub fn worker_count(requested: usize) -> (workers: usize)
    ensures
        workers == workers_for(requested),
        workers >= 1,
{
    if requested == 0 {
        1
    } else {
        requested
    }
}

/// Asks `num_cpus::get` for the number of processing cores that this process
/// can use. Nothing is claimed of the answer: it depends on the machine.
#[verifier::external_body]
fn available_cores() -> (cores: usize) {
    num_cpus::get()
}

/// The number of workers to start where the caller names none: one for each
/// core that the machine offers, and at least one.
pub fn default_workers() -> (workers: usize)
    ensures
        workers >= 1,
{
    worker_count(available_cores())
}

/// What a copy leaves behind.
#[derive(Debug)]
pub struct Report {
    /// The number of workers that were started; 0 where the copy ended
    /// before any thread was.
    pub workers: usize,
    /// The directories that were mirrored, in walk order.
    pub directories: Vec<usize>,
    /// The files that stand, whole, in the destination, in walk order.
    pub files: Vec<usize>,
    /// The error stream. Producer and workers write to it side by side, so
    /// only what it holds is fixed, not the order.
    pub errors: Vec<ErrorRecord>,
}

impl Report {
    /// The copy ended at the destination root: one record, no worker,
    /// nothing mirrored and nothing copied.
    pub open spec fn aborted(&self) -> bool {
        &&& self.workers == 0
        &&& self.directories@.len() == 0
        &&& self.files@.len() == 0
        &&& self.errors@ == seq![ErrorRecord::Root]
    }

    /// The report is that of a copy of `walk` that ran to its end: the
    /// directories and files are exactly those that the walk lets through,
    /// each once and in walk order, and the error stream holds exactly the
    /// records owed, each once.
    pub open spec fn accounts_for(&self, walk: Seq<Entry>) -> bool {
        &&& self.workers >= 1
        &&& ascending(self.directories@)
        &&& forall|j: usize| #[trigger]
            self.directories@.contains(j) <==> mirrored(walk, j as int)
        &&& ascending(self.files@)
        &&& forall|j: usize| #[trigger] self.files@.contains(j) <==> copied(walk, j as int)
        &&& self.errors@.no_duplicates()
        &&& forall|r: ErrorRecord| #[trigger] self.errors@.contains(r) <==> owed(walk, r)
    }
}

/// The place in the walk of task number `t`, or a bound above every place
/// when the tasks have run out.
spec fn next_place(tasks: Seq<CopyTask>, t: int) -> int {
    if 0 <= t < tasks.len() {
        tasks[t].entry as int
    } else {
        usize::MAX + 1
    }
}

proof fn lemma_ascending_records_differ(records: Seq<ErrorRecord>)
    requires
        records_ascending(records),
    ensures
        records.no_duplicates(),
{
    assert forall|a: int, b: int|
        0 <= a < records.len() && 0 <= b < records.len() && a != b implies records[a]
        != records[b] by {
        if a < b {
            assert(records[a].origin() < records[b].origin());
        } else {
            assert(records[b].origin() < records[a].origin());
        }
    }
}

/// Copies a described tree and reports what is left behind.
///
/// Where the destination root cannot be made ready the copy ends at once:
/// one record, no worker, nothing mirrored and nothing copied. Otherwise the
/// producer makes its pass, `worker_count(requested)` workers take the tasks,
/// every file whose copy succeeds is in the destination, and every failure
/// is on the error stream exactly once.
pub fn deep_copy(destination: Destination, walk: &Vec<Entry>, requested: usize) -> (report: Report)
    ensures
        !destination.ready() ==> report.aborted(),
        destination.ready() ==> report.workers == workers_for(requested) && report.accounts_for(walk@),
{
    if !destination.settle() {
        let mut errors: Vec<ErrorRecord> = Vec::new();
        errors.push(ErrorRecord::Root);
        assert(errors@ =~= seq![ErrorRecord::Root]);
        return Report { workers: 0, directories: Vec::new(), files: Vec::new(), errors };
    }
    let workers = worker_count(requested);
    let plan = walk_and_create_dirs(walk);
    let Plan { directories, tasks, errors } = plan;
    let mut errors = errors;
    let mut files: Vec<usize> = Vec::new();
    proof {
        lemma_ascending_records_differ(errors@);
        assert forall|r: ErrorRecord| #[trigger]
            errors@.contains(r) <==> owed(walk@, r) && (r.from_producer() || r.origin()
                < next_place(tasks@, 0)) by {
            if let ErrorRecord::Copy(j) = r {
                if owed(walk@, r) {
                    assert(tasks@.contains(CopyTask { entry: j }));
                }
            }
        }
        assert forall|j: usize| #[trigger]
            files@.contains(j) <==> copied(walk@, j as int) && j < next_place(tasks@, 0) by {
            if copied(walk@, j as int) {
                assert(tasks@.contains(CopyTask { entry: j }));
            }
        }
    }
    let mut t: usize = 0;
    while t < tasks.len()
        invariant
            0 <= t <= tasks.len(),
            tasks_ascending(tasks@),
            forall|j: usize| #[trigger]
                tasks@.contains(CopyTask { entry: j }) <==> queued(walk@, j as int),
            ascending(files@),
            forall|f: int| 0 <= f < files.len() ==> (#[trigger] files[f]) < next_place(tasks@, t as int),
            forall|j: usize| #[trigger]
                files@.contains(j) <==> copied(walk@, j as int) && j < next_place(
                    tasks@,
                    t as int,
                ),
            errors@.no_duplicates(),
            forall|r: ErrorRecord| #[trigger]
                errors@.contains(r) <==> owed(walk@, r) && (r.from_producer() || r.origin()
                    < next_place(tasks@, t as int)),
        decreases tasks.len() - t,
    {
        let task = tasks[t];
        let place = task.entry;
        proof {
            assert(tasks@.contains(CopyTask { entry: place })) by {
                assert(tasks@[t as int] == CopyTask { entry: place });
            }
            assert(queued(walk@, place as int));
            assert(place < next_place(tasks@, t + 1));
            assert forall|j: usize|
                place < j < next_place(tasks@, t + 1) implies !#[trigger] queued(
                walk@,
                j as int,
            ) by {
                if queued(walk@, j as int) {
                    assert(tasks@.contains(CopyTask { entry: j }));
                    let u = choose|u: int| 0 <= u < tasks@.len() && tasks@[u] == CopyTask { entry: j };
                    if u <= t {
                        assert(tasks@[u].entry <= tasks@[t as int].entry);
                    } else if u > t + 1 {
                        assert(tasks@[t + 1].entry < tasks@[u].entry);
                    }
                }
            }
        }
        let ghost before = errors@;
        if walk[place].node.answer() {
            files.push(place);
        } else {
            assert(!before.contains(ErrorRecord::Copy(place)));
            errors.push(ErrorRecord::Copy(place));
            assert(errors@.no_duplicates()) by {
                assert forall|a: int, b: int|
                    0 <= a < errors@.len() && 0 <= b < errors@.len() && a != b implies errors@[a]
                    != errors@[b] by {
                    if a < before.len() && b < before.len() {
                        assert(before[a] != before[b]);
                    } else if a < before.len() {
                        assert(before.contains(before[a]));
                    } else {
                        assert(before.contains(before[b]));
                    }
                }
            }
        }
        proof {
            assert forall|j: usize| #[trigger]
                files@.contains(j) <==> copied(walk@, j as int) && j < next_place(
                    tasks@,
                    t + 1,
                ) by {
                if place < j < next_place(tasks@, t + 1) {
                    assert(!queued(walk@, j as int));
                }
            }
            assert forall|r: ErrorRecord| #[trigger]
                errors@.contains(r) <==> owed(walk@, r) && (r.from_producer() || r.origin()
                    < next_place(tasks@, t + 1)) by {
                if let ErrorRecord::Copy(j) = r {
                    if place < j < next_place(tasks@, t + 1) {
                        assert(!queued(walk@, j as int));
                    }
                }
            }
        }
        t += 1;
    }
    Report { workers, directories, files, errors }
}

} // verus!
