//! The document model and file-level logic of a photograph colour editor.
//!
//! No GPU, no pixels on screen: the rules about what a valid edit looks like,
//! how undo behaves, which space a name refers to, and how bytes are framed on
//! the way to and from disk.

use vstd::prelude::*;

pub mod decoded;
pub mod document;
pub mod effects;
pub mod geometry;
pub mod history;
pub mod icc;
pub mod pack;
pub mod pins;
pub mod scopes;
pub mod space;
pub mod stack;
pub mod tabs;
pub mod text;
pub mod warp;

use crate::document::Document;
use crate::stack::{lacks_id, RowId};

verus! {

/// Hands out row identifiers that are unique within a document.
///
/// Monotonic and never reused, so a stale reference can be detected as
/// missing rather than silently pointing at a different row.
#[derive(Debug, Clone)]
pub struct RowIdGenerator {
    next: u64,
}

impl Default for RowIdGenerator {
    fn default() -> (g: RowIdGenerator)
        ensures
            g.next_id() == 0,
    {
        RowIdGenerator { next: 0 }
    }
}

impl RowIdGenerator {
    /// The id the next call to [`RowIdGenerator::allocate`] hands out.
    pub closed spec fn next_id(&self) -> u64 {
        self.next
    }

    /// Start after the highest id already present, so ids stay unique when
    /// resuming work on a loaded document.
    pub fn resuming<L, X>(doc: &Document<L, X>) -> (g: Self)
        requires
            forall|i: int| 0 <= i < doc.stack.rows@.len() ==> (#[trigger] doc.stack.rows@[i]).id.0 < u64::MAX,
        ensures
            forall|i: int| 0 <= i < doc.stack.rows@.len() ==> (#[trigger] doc.stack.rows@[i]).id.0 < g.next_id(),
            doc.stack.rows@.len() == 0 ==> g.next_id() == 0,
            doc.stack.rows@.len() > 0 ==> exists|i: int|
                0 <= i < doc.stack.rows@.len() && (#[trigger] doc.stack.rows@[i]).id.0 + 1 == g.next_id(),
    {
        let rows = &doc.stack.rows;
        let mut next: u64 = 0;
        let mut i: usize = 0;
        while i < rows.len()
            invariant
                i <= rows@.len(),
                rows@ == doc.stack.rows@,
                forall|j: int| 0 <= j < rows@.len() ==> (#[trigger] rows@[j]).id.0 < u64::MAX,
                forall|j: int| 0 <= j < i ==> (#[trigger] rows@[j]).id.0 < next,
                i == 0 ==> next == 0,
                i > 0 ==> exists|j: int| 0 <= j < i && (#[trigger] rows@[j]).id.0 + 1 == next,
            decreases rows@.len() - i,
        {
            let candidate = rows[i].id.0 + 1;
            if candidate > next {
                next = candidate;
            }
            i = i + 1;
        }
        RowIdGenerator { next }
    }

    /// Hand out the next unused id.
    pub fn allocate(&mut self) -> (id: RowId)
        requires
            old(self).next_id() < u64::MAX,
        ensures
            id.0 == old(self).next_id(),
            final(self).next_id() == old(self).next_id() + 1,
    {
        let id = RowId(self.next);
        self.next = self.next + 1;
        id
    }
}

/// A generator resumed on a document never hands out an id the document
/// already holds: every id it reaches from where it started is fresh.
pub proof fn lemma_resumed_ids_are_fresh<L, X>(doc: Document<L, X>, start: u64, handed: u64)
    requires
        forall|i: int| 0 <= i < doc.stack.rows@.len() ==> (#[trigger] doc.stack.rows@[i]).id.0 < start,
        start <= handed,
    ensures
        lacks_id(doc.stack.rows@, RowId(handed)),
{
}

/// Ids handed out one after another are all different.
pub proof fn lemma_allocated_ids_are_unique(first: u64, later: u64)
    requires
        first < later,
    ensures
        RowId(first) != RowId(later),
{
}

} // verus!
