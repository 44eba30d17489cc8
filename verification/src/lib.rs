//! Verified core of a local-first meeting assistant: transcript echo
//! suppression, calendar (.ics) parsing, search-query preparation and
//! Markdown rendering of meeting artifacts.

pub mod text;
pub mod reconcile;
pub mod search;
pub mod knowledge;
pub mod instants;
pub mod calendar;
pub mod json;
pub mod artifacts;
pub mod diarization;
pub mod ids;
pub mod speakers;
pub mod hooks;
pub mod cli;
pub mod summary;
