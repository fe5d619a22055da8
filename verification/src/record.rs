//! What the producer hands on: tasks for the workers and records of what
//! failed. Both name an entry by its place in the walk.

use vstd::prelude::*;
use crate::tree::{visited, Entry, Node};

verus! {

/// One file to copy: the entry at place `entry` of the walk, which names
/// both the source file and where its copy belongs under the destination.
#[derive(Clone, Copy, Debug, PartialEq, Eq, Structural)]
pub struct CopyTask {
    pub entry: usize,
}

/// One failure, by the step that met it.
#[derive(Clone, Copy, Debug, PartialEq, Eq, Structural)]
pub enum ErrorRecord {
    /// The destination root could not be made ready. Nothing was copied.
    Root,
    /// The directory at this place could not be mirrored. Its subtree was
    /// left out.
    Directory(usize),
    /// The entry at this place could not be read or classified. It was
    /// left out.
    Walk(usize),
    /// The file at this place could not be copied. It was left out.
    Copy(usize),
}

/// How far a failure reaches: what is given up because of it.
#[derive(Clone, Copy, Debug, PartialEq, Eq, Structural)]
pub enum Reach {
    /// The whole copy: nothing is started.
    Operation,
    /// One directory and everything under it.
    Subtree,
    /// One entry of the walk.
    Entry,
    /// One file.
    File,
}

impl ErrorRecord {
    /// How far the failure reaches.
    pub open spec fn reaches(self) -> Reach {
        match self {
            ErrorRecord::Root => Reach::Operation,
            ErrorRecord::Directory(_) => Reach::Subtree,
            ErrorRecord::Walk(_) => Reach::Entry,
            ErrorRecord::Copy(_) => Reach::File,
        }
    }

    /// Says how far the failure reaches: only a failure at the destination
    /// root ends the copy, every other costs no more than what depends on the
    /// step that failed.
    pub fn reach(&self) -> (reach: Reach)
        ensures
            reach == self.reaches(),
    {
        match self {
            ErrorRecord::Root => Reach::Operation,
            ErrorRecord::Directory(_) => Reach::Subtree,
            ErrorRecord::Walk(_) => Reach::Entry,
            ErrorRecord::Copy(_) => Reach::File,
        }
    }

    /// The place in the walk that the record is about; -1 for the root of the
    /// destination, which is no entry of the walk.
    pub open spec fn origin(self) -> int {
        match self {
            ErrorRecord::Root => -1,
            ErrorRecord::Directory(j) => j as int,
            ErrorRecord::Walk(j) => j as int,
            ErrorRecord::Copy(j) => j as int,
        }
    }

    /// The record comes from the producer, not from a worker.
    pub open spec fn from_producer(self) -> bool {
        self is Directory || self is Walk
    }
}

/// The record `r` is owed for the walk: the entry that it names is acted
/// on, and the step that it names fails there.
pub open spec fn owed(walk: Seq<Entry>, r: ErrorRecord) -> bool {
    match r {
        ErrorRecord::Root => false,
        ErrorRecord::Directory(j) => visited(walk, j as int) && walk[j as int].node == (
        Node::Directory { created: false }),
        ErrorRecord::Walk(j) => visited(walk, j as int) && walk[j as int].node is Unreadable,
        ErrorRecord::Copy(j) => visited(walk, j as int) && walk[j as int].node == (Node::File {
            copied: false,
        }),
    }
}

/// The places rise strictly: walk order, and no place twice.
pub open spec fn ascending(places: Seq<usize>) -> bool {
    forall|a: int, b: int| 0 <= a < b < places.len() ==> places[a] < places[b]
}

/// The tasks come in walk order, and no file twice.
pub open spec fn tasks_ascending(tasks: Seq<CopyTask>) -> bool {
    forall|a: int, b: int| 0 <= a < b < tasks.len() ==> tasks[a].entry < tasks[b].entry
}

/// The records come in walk order, and no entry twice.
pub open spec fn records_ascending(records: Seq<ErrorRecord>) -> bool {
    forall|a: int, b: int|
        0 <= a < b < records.len() ==> (#[trigger] records[a]).origin() < (
        #[trigger] records[b]).origin()
}

} // verus!
