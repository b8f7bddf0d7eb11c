//! The entry point and the top level of a layered proximity graph, and how
//! inserting a node moves them.
//!
//! A search starts at the entry point on the top level. A node inserted
//! into an empty graph becomes the entry point; a node whose level is above
//! the current top becomes the entry point and raises the top to its level;
//! any other insertion leaves both as they were.

use vstd::prelude::*;

verus! {

/// Where searches of a layered graph start.
#[derive(Debug, Clone, Copy, PartialEq, Eq, Structural)]
pub struct GraphEntry {
    /// The node searches start from; `None` while the graph is empty.
    pub entry_point: Option<u64>,
    /// The highest level of any node.
    pub max_level: usize,
}

/// `e` after inserting node `id` at `level`.
pub open spec fn entry_after_insert(e: GraphEntry, id: u64, level: usize) -> GraphEntry {
    if e.entry_point is None || level > e.max_level {
        GraphEntry { entry_point: Some(id), max_level: level }
    } else {
        e
    }
}

impl GraphEntry {
    /// The entry of an empty graph.
    pub fn empty() -> (r: Self)
        ensures
            r == (GraphEntry { entry_point: None, max_level: 0 }),
    {
        GraphEntry { entry_point: None, max_level: 0 }
    }

    /// Records the insertion of node `id` at `level`. Returns the node from
    /// which the search for the new node's neighbours starts: the entry point
    /// before the insertion, or `None` when the graph was empty.
    pub fn insert(&mut self, id: u64, level: usize) -> (start: Option<u64>)
        ensures
            *final(self) == entry_after_insert(*old(self), id, level),
            start == old(self).entry_point,
    {
        let start = self.entry_point;
        if start.is_none() || level > self.max_level {
            self.entry_point = Some(id);
            self.max_level = level;
        }
        start
    }
}

/// The position of the first of the highest levels in `levels`, or 0 when
/// there are none: the node a bulk build inserts first, so that it becomes
/// the entry point at once.
pub fn first_highest(levels: &[usize]) -> (r: usize)
    ensures
        levels@.len() == 0 ==> r == 0,
        levels@.len() > 0 ==> {
            &&& r < levels@.len()
            &&& forall|j: int| 0 <= j < levels@.len() ==> levels@[j] <= levels@[r as int]
            &&& forall|j: int| 0 <= j < r ==> levels@[j] < levels@[r as int]
        },
{
    let mut best: usize = 0;
    let mut i: usize = 1;
    while i < levels.len()
        invariant
            levels@.len() > 0 ==> best < i <= levels@.len(),
            levels@.len() == 0 ==> best == 0,
            forall|j: int| 0 <= j < i && j < levels@.len() ==> levels@[j] <= levels@[best as int],
            forall|j: int| 0 <= j < best ==> levels@[j] < levels@[best as int],
        decreases levels@.len() - i,
    {
        if levels[i] > levels[best] {
            best = i;
        }
        i = i + 1;
    }
    best
}

/// An insertion never lowers the top level, the top is at least the new
/// node's level afterwards, and the graph has an entry point; the new node
/// is that entry point exactly when the graph was empty or its level is
/// above the old top.
pub proof fn lemma_insert_raises_top(e: GraphEntry, id: u64, level: usize)
    ensures
        entry_after_insert(e, id, level).max_level >= level,
        e.entry_point is Some ==> entry_after_insert(e, id, level).max_level >= e.max_level,
        entry_after_insert(e, id, level).entry_point is Some,
        (e.entry_point is None || level > e.max_level) ==> entry_after_insert(e, id, level)
            == (GraphEntry { entry_point: Some(id), max_level: level }),
        !(e.entry_point is None || level > e.max_level) ==> entry_after_insert(e, id, level) == e,
{
}

} // verus!
