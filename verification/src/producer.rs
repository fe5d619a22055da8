//! The producer's memory between two entries of the walk: the one directory,
//! if any, whose subtree it is passing over.

use vstd::prelude::*;
use crate::tree::Sighting;

verus! {

/// What the producer does with an entry.
#[derive(Clone, Copy, Debug, PartialEq, Eq, Structural)]
pub enum Action {
    /// The entry lies under a directory that could not be mirrored: leave it.
    Skip,
    /// Mirror the directory under the destination now, before anything in it
    /// is looked at.
    CreateDirectory,
    /// Hand the file to the workers.
    SendFile,
    /// Put the walker's error on the error stream and go on.
    ReportError,
}

/// An entry at `depth` lies behind the barrier.
pub open spec fn behind(barrier: Option<usize>, depth: usize) -> bool {
    barrier matches Some(d) && depth > d
}

/// What is done with an entry that is sighted at `depth` while `barrier`
/// stands.
pub open spec fn action_for(barrier: Option<usize>, depth: usize, seen: Sighting) -> Action {
    if behind(barrier, depth) {
        Action::Skip
    } else {
        match seen {
            Sighting::Directory => Action::CreateDirectory,
            Sighting::File => Action::SendFile,
            Sighting::Unreadable => Action::ReportError,
        }
    }
}

/// The state of the producer between two entries.
#[derive(Clone, Copy, Debug)]
pub struct Producer {
    barrier: Option<usize>,
}

impl Producer {
    /// The depth of the directory whose subtree is being passed over, if
    /// there is one.
    pub closed spec fn barrier(&self) -> Option<usize> {
        self.barrier
    }

    /// A producer at the start of a walk: nothing is passed over.
    pub fn new() -> (p: Producer)
        ensures
            p.barrier() is None,
    {
        Producer { barrier: None }
    }

    /// Takes the next entry of the walk and says what to do with it. An entry
    /// behind the barrier is skipped and leaves the barrier standing; any other
    /// entry lifts it.
    pub fn visit(&mut self, depth: usize, seen: Sighting) -> (action: Action)
        ensures
            action == action_for(old(self).barrier(), depth, seen),
            final(self).barrier() == if behind(old(self).barrier(), depth) {
                old(self).barrier()
            } else {
                None
            },
    {
        let skip = match self.barrier {
            Some(d) => depth > d,
            None => false,
        };
        if skip {
            Action::Skip
        } else {
            self.barrier = None;
            match seen {
                Sighting::Directory => Action::CreateDirectory,
                Sighting::File => Action::SendFile,
                Sighting::Unreadable => Action::ReportError,
            }
        }
    }

    /// Records that the directory just visited at `depth` could not be
    /// mirrored: everything under it is passed over from now on.
    pub fn directory_failed(&mut self, depth: usize)
        ensures
            final(self).barrier() == Some(depth),
    {
        self.barrier = Some(depth);
    }
}

} // verus!
