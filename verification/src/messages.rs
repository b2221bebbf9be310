//! What the coordinator and the worker say to each other.

use crate::document::DocumentId;
use crate::widget_sources::{SourceID, WidgetSource};
use vstd::prelude::*;

verus! {

/// A command to the worker.
#[derive(Debug)]
pub enum Cmd {
    /// Parse a text for a generation, at a width.
    Parse(DocumentId, u16, String),
    /// Fetch the image of a unit: generation, unit, width, url, alt text,
    /// title.
    UrlImage(DocumentId, SourceID, u16, String, String, String),
    /// Render a header as images: generation, unit, width, tier, text.
    Header(DocumentId, SourceID, u16, u8, String),
}

/// An event from the worker.
pub enum Event<'a> {
    /// A parse pass begins under a new generation.
    NewDocument(DocumentId),
    /// A parse pass has emitted its last unit; `None` where it emitted none.
    ParseDone(DocumentId, Option<SourceID>),
    /// A unit that is ready to show; never an image.
    Parsed(DocumentId, WidgetSource<'a>),
    /// An image stands at a unit's place: unit, url, alt text, title.
    ParseImage(DocumentId, SourceID, String, String, String),
    /// A header to be rendered as images stands at a unit's place: unit,
    /// tier, text.
    ParseHeader(DocumentId, SourceID, u8, String),
    /// The units that take the place of the run with their id.
    Update(DocumentId, Vec<WidgetSource<'a>>),
    /// The file on disk has changed.
    FileChanged,
}

impl Event<'_> {
    /// The generation that the event belongs to, where it names one that
    /// gates it.
    pub open spec fn gate(&self) -> Option<DocumentId> {
        match self {
            Event::NewDocument(_) => None,
            Event::ParseDone(document_id, _) => Some(*document_id),
            Event::Parsed(document_id, _) => Some(*document_id),
            Event::ParseImage(document_id, _, _, _, _) => Some(*document_id),
            Event::ParseHeader(document_id, _, _, _) => Some(*document_id),
            Event::Update(document_id, _) => Some(*document_id),
            Event::FileChanged => None,
        }
    }
}

} // verus!
