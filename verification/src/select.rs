//! Listings narrowed to one kind of entry: only the files, or only the
//! directories, with every failure still handed on.

use vstd::prelude::*;
use crate::tree::Sighting;

verus! {

/// The kind of entry that a narrowed listing lets through.
#[derive(Clone, Copy, Debug, PartialEq, Eq, Structural)]
pub enum Wanted {
    Files,
    Directories,
}

/// What a narrowed listing does with one item of the full one.
#[derive(Clone, Copy, Debug, PartialEq, Eq, Structural)]
pub enum Verdict {
    /// The item is of the wanted kind: hand it out.
    Yield,
    /// The item is of the other kind: go on to the next.
    Pass,
    /// The item could not be read: hand the failure out.
    Fail,
}

/// The verdict on an item that is sighted as `seen`.
pub open spec fn verdict_for(wanted: Wanted, seen: Sighting) -> Verdict {
    match seen {
        Sighting::Unreadable => Verdict::Fail,
        Sighting::File => if wanted is Files {
            Verdict::Yield
        } else {
            Verdict::Pass
        },
        Sighting::Directory => if wanted is Directories {
            Verdict::Yield
        } else {
            Verdict::Pass
        },
    }
}

/// Says what a listing narrowed to `wanted` does with an item.
pub fn sift(wanted: Wanted, seen: Sighting) -> (verdict: Verdict)
    ensures
        verdict == verdict_for(wanted, seen),
{
    match seen {
        Sighting::Unreadable => Verdict::Fail,
        Sighting::File => match wanted {
            Wanted::Files => Verdict::Yield,
            Wanted::Directories => Verdict::Pass,
        },
        Sighting::Directory => match wanted {
            Wanted::Files => Verdict::Pass,
            Wanted::Directories => Verdict::Yield,
        },
    }
}

/// Every item from `from` up to `to` is passed over.
pub open spec fn all_passed(items: Seq<Sighting>, wanted: Wanted, from: int, to: int) -> bool {
    forall|k: int| from <= k < to ==> verdict_for(wanted, #[trigger] items[k]) == Verdict::Pass
}

/// Finds the item that a listing narrowed to `wanted` hands out next when
/// the full listing stands at `from`: the first one, from there on, that is
/// not passed over. `None` says that the listing is exhausted.
pub fn next_match(items: &Vec<Sighting>, from: usize, wanted: Wanted) -> (found: Option<usize>)
    ensures
        match found {
            Some(i) => {
                &&& from <= i < items.len()
                &&& verdict_for(wanted, items[i as int]) != Verdict::Pass
                &&& all_passed(items@, wanted, from as int, i as int)
            },
            None => all_passed(items@, wanted, from as int, items.len() as int),
        },
{
    let mut i: usize = from;
    while i < items.len()
        invariant
            from <= i,
            all_passed(items@, wanted, from as int, i as int),
        decreases items.len() - i,
    {
        match sift(wanted, items[i]) {
            Verdict::Pass => {},
            _ => {
                return Some(i);
            },
        }
        i += 1;
    }
    None
}

} // verus!
