//! Ids for the parts of the user interface.

use vstd::prelude::*;

verus! {

/// The source of ids: it hands out 1, then 2, and so on, so that no two
/// parts that take their id from one source share it.
#[derive(Debug)]
pub struct Uuids {
    next: usize,
}

impl Uuids {
    /// The id that is handed out next.
    pub closed spec fn upcoming(&self) -> usize {
        self.next
    }

    /// A source that starts at 1.
    pub fn new() -> (ids: Self)
        ensures
            ids.upcoming() == 1,
    {
        Uuids { next: 1 }
    }
}

/// The id after a given one: the next integer, and 0 after the largest.
pub open spec fn id_after(id: usize) -> usize {
    if id == usize::MAX {
        0
    } else {
        (id + 1) as usize
    }
}

/// The next unused id of a source.
pub fn next(ids: &mut Uuids) -> (id: usize)
    ensures
        id == old(ids).upcoming(),
        final(ids).upcoming() == id_after(id),
{
    let id = ids.next;
    ids.next = if id == usize::MAX {
        0
    } else {
        id + 1
    };
    id
}

} // verus!
