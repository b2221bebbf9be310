//! The document engine of a markdown viewer for the terminal.
//!
//! A worker parses a markdown text into render units and fetches and encodes
//! its images; a coordinator keeps the units of the open document in an
//! ordered store and shows them. The two talk in commands and events
//! ([`messages`]). The worker's part is in [`markdown`] and [`images`]. The
//! coordinator's state is the [`model::Model`]: the store
//! ([`widget_sources`]), the generation of the open document ([`document`]),
//! which tells the events of a parse pass that was overtaken from those that
//! count, the cursor that walks links and search matches ([`cursor`],
//! [`find`], [`search`]) and the viewport. How events change the state is in
//! [`events`], what keys do to it in [`input`], and where the units stand on
//! the screen in [`layout`].
//!
//! The crate is written in Verus: every function carries a contract, and the
//! contracts are proved. What they rest on without proof are the functions
//! of other crates that the library calls; each of those stands behind a
//! small function of its own whose documentation names it.

pub mod big_text;
pub mod cursor;
pub mod document;
pub mod equality;
pub mod error;
pub mod events;
pub mod find;
pub mod images;
pub mod input;
pub mod layout;
pub mod markdown;
pub mod messages;
pub mod model;
pub mod patterns;
pub mod search;
pub mod seqs;
pub mod setup;
pub mod strings;
pub mod styled;
pub mod widget_sources;
