//! One filesystem entry of a traversal, as plain values.

use vstd::prelude::*;

verus! {

/// What kind of object an entry is, as the walk reported it.
#[derive(Clone, Copy, Debug, PartialEq, Eq, Structural)]
pub enum EntryKind {
    File,
    Dir,
    Other,
}

/// One entry of a walk in pre-order.
///
/// `parent` is the position, in the same listing, of the directory that
/// holds the entry (ignored for the root, at position 0). `len` is the byte
/// length from the entry's metadata, 0 where it could not be read.
pub struct Entry {
    pub path: String,
    pub name: Option<String>,
    pub depth: usize,
    pub parent: usize,
    pub kind: EntryKind,
    pub len: u64,
}

/// The name an entry is shown and linked under: its base name, or its
/// whole path where it has none (such as `.` or `/`).
pub open spec fn label(e: Entry) -> Seq<char> {
    match e.name {
        Some(n) => n@,
        None => e.path@,
    }
}

impl Entry {
    /// See `label`.
    pub fn label(&self) -> (r: String)
        ensures
            r@ == label(*self),
    {
        match &self.name {
            Some(n) => n.clone(),
            None => self.path.clone(),
        }
    }
}

/// A listing as a walk produces it: the root first, at depth 0, and every
/// later entry one level below an earlier entry that it names as parent.
pub open spec fn well_formed(ls: Seq<Entry>) -> bool {
    &&& ls.len() > 0
    &&& ls[0].depth == 0
    &&& forall|i: int|
        0 < i < ls.len() ==> {
            &&& #[trigger] ls[i].parent < i
            &&& ls[i].depth == ls[ls[i].parent as int].depth + 1
        }
}

} // verus!
