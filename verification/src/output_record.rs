//! The row that is written for a song with a hole.

use vstd::prelude::*;

use crate::song::SongView;

verus! {

/// One row of the output: the song's primary artist, its title and its id.
#[derive(Debug, PartialEq, Eq, Hash)]
pub struct OutputRecord {
    pub primary_artist: String,
    pub title: String,
    pub id: usize,
}

/// What an [`OutputRecord`] holds, as mathematical values.
pub struct OutputRecordView {
    pub primary_artist: Seq<char>,
    pub title: Seq<char>,
    pub id: usize,
}

impl View for OutputRecord {
    type V = OutputRecordView;

    open spec fn view(&self) -> OutputRecordView {
        OutputRecordView {
            primary_artist: self.primary_artist@,
            title: self.title@,
            id: self.id,
        }
    }
}

impl Clone for OutputRecord {
    fn clone(&self) -> (copy: OutputRecord)
        ensures
            copy@ == self@,
    {
        OutputRecord {
            primary_artist: self.primary_artist.clone(),
            title: self.title.clone(),
            id: self.id,
        }
    }
}

/// The row that reports `song`: its primary artist's name, its title, its id.
pub open spec fn record_of(song: SongView) -> OutputRecordView {
    OutputRecordView {
        primary_artist: song.primary_artist_name,
        title: song.title,
        id: song.id,
    }
}

impl OutputRecord {
    /// Builds the row that reports `song`.
    pub fn for_song(song: &crate::song::Song) -> (record: OutputRecord)
        ensures
            record@ == record_of(song@),
    {
        OutputRecord {
            primary_artist: song.primary_artist_name.clone(),
            title: song.title.clone(),
            id: song.id,
        }
    }
}

} // verus!
