//! The navigator's pointer into the document and its modes.

use vstd::prelude::*;

verus! {

/// Points at one extra of one text line: the unit's id and the extra's
/// position in that line's list.
#[derive(Debug, Clone, Copy, PartialEq, Eq, Structural)]
pub struct CursorPointer {
    pub id: usize,
    pub index: usize,
}

/// An incremental search: the text typed so far, and whether it was
/// confirmed with Enter.
#[derive(Debug, Clone)]
pub struct SearchState {
    pub needle: String,
    pub accepted: bool,
}

impl Default for SearchState {
    fn default() -> (state: SearchState)
        ensures
            state.needle@ == Seq::<char>::empty(),
            !state.accepted,
    {
        SearchState { needle: String::new(), accepted: false }
    }
}

/// The navigator's state.
#[derive(Debug, Clone)]
pub enum Cursor {
    Idle,
    Links(CursorPointer),
    Search(SearchState, Option<CursorPointer>),
}

impl Cursor {
    /// The pointer that the state holds, if any.
    pub open spec fn spec_pointer(&self) -> Option<CursorPointer> {
        match self {
            Cursor::Idle => None,
            Cursor::Links(pointer) => Some(*pointer),
            Cursor::Search(_, pointer) => *pointer,
        }
    }

    /// The pointer that the state holds, if any.
    pub fn pointer(&self) -> (pointer: Option<CursorPointer>)
        ensures
            pointer == self.spec_pointer(),
    {
        match self {
            Cursor::Idle => None,
            Cursor::Links(pointer) => Some(*pointer),
            Cursor::Search(_, pointer) => *pointer,
        }
    }
}

impl Default for Cursor {
    fn default() -> (cursor: Cursor)
        ensures
            cursor is Idle,
    {
        Cursor::Idle
    }
}

} // verus!
