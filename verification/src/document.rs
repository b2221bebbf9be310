//! Document generations: one value per parse pass of one opened document.

use vstd::prelude::*;

verus! {

/// Identifies one parse pass. `id` counts opened documents, `reload_id`
/// counts the reparses of the document that is open.
#[derive(Debug, Clone, Copy, PartialEq, Eq, Structural)]
pub struct DocumentId {
    pub id: usize,
    pub reload_id: usize,
}

impl DocumentId {
    /// Whether `other` is a parse pass of the same opened document.
    pub fn is_same_document(&self, other: &DocumentId) -> (same: bool)
        ensures
            same == (self.id == other.id),
    {
        self.id == other.id
    }

    /// The generation of the next document to be opened: its first parse.
    pub fn open(&self) -> (next: DocumentId)
        requires
            self.id < usize::MAX,
        ensures
            next.id == self.id + 1,
            next.reload_id == 0,
    {
        DocumentId { id: self.id + 1, reload_id: 0 }
    }

    /// The generation of the next parse pass of the same document.
    pub fn reload(&self) -> (next: DocumentId)
        requires
            self.reload_id < usize::MAX,
        ensures
            next.id == self.id,
            next.reload_id == self.reload_id + 1,
    {
        DocumentId { id: self.id, reload_id: self.reload_id + 1 }
    }

    /// Whether this is the first parse pass of its document.
    pub fn is_first_load(&self) -> (first: bool)
        ensures
            first == (self.reload_id == 0),
    {
        self.reload_id == 0
    }
}

impl Default for DocumentId {
    fn default() -> (d: DocumentId)
        ensures
            d.id == 0,
            d.reload_id == 0,
    {
        DocumentId { id: 0, reload_id: 0 }
    }
}

} // verus!
