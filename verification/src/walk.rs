//! The producer's pass over a whole walk.

use vstd::prelude::*;
use crate::producer::{behind, Action, Producer};
use crate::record::{ascending, owed, records_ascending, tasks_ascending, CopyTask, ErrorRecord};
use crate::tree::{encloses, excluded, mirrored, queued, refuses, Entry};

verus! {

broadcast use vstd::seq_lib::lemma_seq_contains_after_push;

/// The barrier that stands after an entry `e` was met while `barrier` stood.
pub open spec fn barrier_step(barrier: Option<usize>, e: Entry) -> Option<usize> {
    if behind(barrier, e.depth) {
        barrier
    } else if refuses(e) {
        Some(e.depth)
    } else {
        None
    }
}

/// The barrier that stands when the producer comes to entry `k`, having met
/// the entries before it one by one.
pub open spec fn barrier_before(walk: Seq<Entry>, k: int) -> Option<usize>
    decreases k,
{
    if k <= 0 {
        None
    } else {
        barrier_step(barrier_before(walk, k - 1), walk[k - 1])
    }
}

/// Some entry after `i` and before `k` is no deeper than `i`: the subtree of
/// `i` has ended.
spec fn ended(walk: Seq<Entry>, i: int, k: int) -> bool {
    exists|m: int| i < m < k && (#[trigger] walk[m]).depth <= walk[i].depth
}

/// Entry `w` raised the barrier `d` and nothing before `k` has lifted it.
spec fn raised(walk: Seq<Entry>, k: int, d: usize, w: int) -> bool {
    &&& 0 <= w < k
    &&& refuses(walk[w])
    &&& walk[w].depth == d
    &&& !excluded(walk, w)
    &&& forall|m: int| w < m < k ==> (#[trigger] walk[m]).depth > d
}

/// The barrier `b` is the right one for the producer to hold at entry `k`.
spec fn sound(walk: Seq<Entry>, k: int, b: Option<usize>) -> bool {
    &&& b is None ==> forall|i: int|
        0 <= i < k && refuses(#[trigger] walk[i]) ==> ended(walk, i, k)
    &&& b is Some ==> exists|w: int| #[trigger] raised(walk, k, b->0, w)
}

proof fn lemma_sound_decides(walk: Seq<Entry>, k: int, b: Option<usize>)
    requires
        0 <= k < walk.len(),
        sound(walk, k, b),
    ensures
        behind(b, walk[k].depth) <==> excluded(walk, k),
{
    match b {
        Some(d) => {
            let w = choose|w: int| #[trigger] raised(walk, k, d, w);
            if walk[k].depth > d {
                assert(encloses(walk, w, k));
            } else {
                if excluded(walk, k) {
                    let i = choose|i: int| #[trigger] encloses(walk, i, k) && refuses(walk[i]);
                    if i < w {
                        assert(encloses(walk, i, w));
                    } else if i > w {
                        assert(walk[i].depth > d);
                        assert(walk[k].depth > walk[i].depth);
                    } else {
                        assert(walk[k].depth > walk[w].depth);
                    }
                }
            }
        },
        None => {
            if excluded(walk, k) {
                let i = choose|i: int| #[trigger] encloses(walk, i, k) && refuses(walk[i]);
                assert(refuses(walk[i]));
                assert(ended(walk, i, k));
            }
        },
    }
}

proof fn lemma_sound_step(walk: Seq<Entry>, k: int, b: Option<usize>)
    requires
        0 <= k < walk.len(),
        sound(walk, k, b),
    ensures
        sound(walk, k + 1, barrier_step(b, walk[k])),
{
    lemma_sound_decides(walk, k, b);
    if behind(b, walk[k].depth) {
        let d = b->0;
        let w = choose|w: int| #[trigger] raised(walk, k, d, w);
        assert(raised(walk, k + 1, d, w));
    } else if refuses(walk[k]) {
        let after: Option<usize> = Some(walk[k].depth);
        assert(raised(walk, k + 1, after->0, k));
    } else {
        assert forall|i: int| 0 <= i < k + 1 && refuses(#[trigger] walk[i]) implies ended(
            walk,
            i,
            k + 1,
        ) by {
            assert(!encloses(walk, i, k));
            let m = choose|m: int| i < m <= k && !((#[trigger] walk[m]).depth > walk[i].depth);
            assert(i < m < k + 1 && walk[m].depth <= walk[i].depth);
        }
    }
}

proof fn lemma_barrier_sound(walk: Seq<Entry>, k: int)
    requires
        0 <= k <= walk.len(),
    ensures
        sound(walk, k, barrier_before(walk, k)),
    decreases k,
{
    if k > 0 {
        lemma_barrier_sound(walk, k - 1);
        lemma_sound_step(walk, k - 1, barrier_before(walk, k - 1));
    }
}

/// The producer, met with the entries of a walk one by one, passes over
/// exactly those that lie under a directory whose mirror could not be made.
pub proof fn lemma_barrier_marks_excluded(walk: Seq<Entry>, k: int)
    requires
        0 <= k < walk.len(),
    ensures
        behind(barrier_before(walk, k), walk[k].depth) <==> excluded(walk, k),
{
    lemma_barrier_sound(walk, k);
    lemma_sound_decides(walk, k, barrier_before(walk, k));
}

/// What the producer leaves behind: the directories that it mirrored, the
/// files that it handed to the workers, and the failures that it met.
#[derive(Debug)]
pub struct Plan {
    pub directories: Vec<usize>,
    pub tasks: Vec<CopyTask>,
    pub errors: Vec<ErrorRecord>,
}

impl Plan {
    /// The plan is the one that the producer leaves after `walk`: the
    /// directories, tasks and records are exactly those owed for the walk,
    /// each once and in walk order.
    pub open spec fn follows(&self, walk: Seq<Entry>) -> bool {
        &&& ascending(self.directories@)
        &&& forall|j: usize| #[trigger]
            self.directories@.contains(j) <==> mirrored(walk, j as int)
        &&& tasks_ascending(self.tasks@)
        &&& forall|j: usize| #[trigger]
            self.tasks@.contains(CopyTask { entry: j }) <==> queued(walk, j as int)
        &&& records_ascending(self.errors@)
        &&& forall|r: ErrorRecord| #[trigger]
            self.errors@.contains(r) <==> r.from_producer() && owed(walk, r)
    }
}

/// Runs the producer over a walk. Every directory that is not passed over is
/// mirrored at once, so before anything in it is met; where that fails the
/// failure is recorded once and the directory's subtree is passed over. Every
/// file that is not passed over becomes a task. Every unreadable entry that
/// is not passed over is recorded, and the walk goes on.
pub fn walk_and_create_dirs(walk: &Vec<Entry>) -> (plan: Plan)
    ensures
        plan.follows(walk@),
{
    let mut producer = Producer::new();
    let mut directories: Vec<usize> = Vec::new();
    let mut tasks: Vec<CopyTask> = Vec::new();
    let mut errors: Vec<ErrorRecord> = Vec::new();
    let mut k: usize = 0;
    while k < walk.len()
        invariant
            0 <= k <= walk.len(),
            producer.barrier() == barrier_before(walk@, k as int),
            ascending(directories@),
            forall|t: int| 0 <= t < directories.len() ==> directories[t] < k,
            forall|j: usize| #[trigger]
                directories@.contains(j) <==> j < k && mirrored(walk@, j as int),
            tasks_ascending(tasks@),
            forall|t: int| 0 <= t < tasks.len() ==> tasks[t].entry < k,
            forall|j: usize| #[trigger]
                tasks@.contains(CopyTask { entry: j }) <==> j < k && queued(walk@, j as int),
            records_ascending(errors@),
            forall|t: int| 0 <= t < errors.len() ==> (#[trigger] errors[t]).origin() < k,
            forall|r: ErrorRecord| #[trigger]
                errors@.contains(r) <==> r.from_producer() && owed(walk@, r) && r.origin() < k,
        decreases walk.len() - k,
    {
        let entry = walk[k];
        proof {
            lemma_barrier_marks_excluded(walk@, k as int);
            assert(barrier_before(walk@, k + 1) == barrier_step(
                barrier_before(walk@, k as int),
                walk@[k as int],
            ));
        }
        match producer.visit(entry.depth, entry.node.seen()) {
            Action::Skip => {},
            Action::CreateDirectory => {
                if entry.node.answer() {
                    directories.push(k);
                } else {
                    errors.push(ErrorRecord::Directory(k));
                    producer.directory_failed(entry.depth);
                }
            },
            Action::SendFile => {
                tasks.push(CopyTask { entry: k });
            },
            Action::ReportError => {
                errors.push(ErrorRecord::Walk(k));
            },
        }
        k += 1;
    }
    Plan { directories, tasks, errors }
}

} // verus!
