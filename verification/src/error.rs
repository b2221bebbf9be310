//! What can go wrong in the library.

use crate::widget_sources::SourceID;
use ratatui_image::errors::Errors;
use vstd::prelude::*;

verus! {

/// `ratatui_image::errors::Errors`: why an image could not be encoded for
/// the terminal.
#[verifier::external_type_specification]
#[verifier::external_body]
pub struct ExErrors(Errors);

/// Why an image did not become a unit.
#[derive(Debug)]
pub enum Error {
    /// The image of the unit with this id, from this address, is of no
    /// known kind or could not be had.
    UnknownImage(SourceID, String),
    /// The image could not be encoded for the terminal.
    Protocol(Errors),
}

} // verus!
