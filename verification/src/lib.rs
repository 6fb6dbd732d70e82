//! Finds songs whose transcribed lyrics still hold a hole.
//!
//! The crate is the decision core of a crawler: it walks a paginated song
//! catalog, claims every song at most once, scans the lyric blocks of a song
//! page for the hole marker and renders one output row for each song that has
//! one. Network and file access stay with the caller, which hands the texts it
//! received to the functions here.

pub mod artist;
pub mod catalog;
pub mod coordinator;
pub mod decimal;
pub mod json;
pub mod lyrics;
pub mod output_record;
pub mod paginator;
pub mod registry;
pub mod song;
pub mod text;
pub mod writer;
