//! The source tree as the producer meets it: a pre-order walk, each entry
//! with its depth below the root and with what the file system answers for it.

use vstd::prelude::*;

verus! {

/// What stands at one place of the walk.
#[derive(Clone, Copy, Debug, PartialEq, Eq, Structural)]
pub enum Node {
    /// A directory. `created` tells whether its mirror under the destination
    /// can be made.
    Directory { created: bool },
    /// A file. `copied` tells whether its bytes reach the destination.
    File { copied: bool },
    /// An entry that the walker could not read or classify.
    Unreadable,
}

/// One entry of a pre-order walk. The root of the walk has depth 0, its
/// children depth 1, and so on.
#[derive(Clone, Copy, Debug, PartialEq, Eq, Structural)]
pub struct Entry {
    pub depth: usize,
    pub node: Node,
}

/// What the walker alone can tell of an entry, before anything is attempted.
#[derive(Clone, Copy, Debug, PartialEq, Eq, Structural)]
pub enum Sighting {
    Directory,
    File,
    Unreadable,
}

impl Sighting {
    /// The sighting that a file type gives without another look at the file
    /// system: a file, a directory, or nothing yet, as for a symbolic link
    /// that has still to be followed.
    pub open spec fn at_a_glance(is_file: bool, is_dir: bool) -> Option<Sighting> {
        if is_file {
            Some(Sighting::File)
        } else if is_dir {
            Some(Sighting::Directory)
        } else {
            None
        }
    }

    /// Classifies an entry by the file type that the walker read with it.
    /// `None` asks the caller to resolve the entry on the file system.
    pub fn from_entry(is_file: bool, is_dir: bool) -> (seen: Option<Sighting>)
        ensures
            seen == Sighting::at_a_glance(is_file, is_dir),
    {
        if is_file {
            Some(Sighting::File)
        } else if is_dir {
            Some(Sighting::Directory)
        } else {
            None
        }
    }
}

impl Node {
    /// The sighting that this node gives rise to.
    pub open spec fn sighting(self) -> Sighting {
        match self {
            Node::Directory { .. } => Sighting::Directory,
            Node::File { .. } => Sighting::File,
            Node::Unreadable => Sighting::Unreadable,
        }
    }

    /// Whether the file system does what is asked for this node.
    pub open spec fn granted(self) -> bool {
        match self {
            Node::Directory { created } => created,
            Node::File { copied } => copied,
            Node::Unreadable => false,
        }
    }

    /// The sighting that this node gives rise to.
    pub fn seen(&self) -> (s: Sighting)
        ensures
            s == self.sighting(),
    {
        match self {
            Node::Directory { .. } => Sighting::Directory,
            Node::File { .. } => Sighting::File,
            Node::Unreadable => Sighting::Unreadable,
        }
    }

    /// Whether the file system does what is asked for this node: a directory
    /// is created, a file is copied. Nothing can be asked of an unreadable
    /// entry.
    pub fn answer(&self) -> (ok: bool)
        ensures
            ok == self.granted(),
    {
        match self {
            Node::Directory { created } => *created,
            Node::File { copied } => *copied,
            Node::Unreadable => false,
        }
    }
}

/// The entry is a directory whose mirror cannot be made.
pub open spec fn refuses(e: Entry) -> bool {
    e.node == (Node::Directory { created: false })
}

/// Entry `i` lies above entry `j` in the tree: every entry after `i`, up to
/// and including `j`, is deeper than `i`.
pub open spec fn encloses(walk: Seq<Entry>, i: int, j: int) -> bool {
    &&& 0 <= i < j < walk.len()
    &&& forall|k: int| i < k <= j ==> (#[trigger] walk[k]).depth > walk[i].depth
}

/// Entry `j` lies under a directory whose mirror cannot be made.
pub open spec fn excluded(walk: Seq<Entry>, j: int) -> bool {
    exists|i: int| #[trigger] encloses(walk, i, j) && refuses(walk[i])
}

/// Entry `j` exists and the producer acts on it.
pub open spec fn visited(walk: Seq<Entry>, j: int) -> bool {
    0 <= j < walk.len() && !excluded(walk, j)
}

/// Entry `j` is a directory that ends up mirrored under the destination.
pub open spec fn mirrored(walk: Seq<Entry>, j: int) -> bool {
    visited(walk, j) && walk[j].node == (Node::Directory { created: true })
}

/// Entry `j` is a file that is handed to the workers.
pub open spec fn queued(walk: Seq<Entry>, j: int) -> bool {
    visited(walk, j) && walk[j].node is File
}

/// Entry `j` is a file that ends up, whole, in the destination.
pub open spec fn copied(walk: Seq<Entry>, j: int) -> bool {
    visited(walk, j) && walk[j].node == (Node::File { copied: true })
}

} // verus!
