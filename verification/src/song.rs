//! A song as the catalog lists it.

use vstd::prelude::*;

verus! {

/// One entry of an artist's song list. The `id` identifies the song across
/// all artists: a song that features several artists is listed under each of
/// them with the same `id`.
#[derive(Debug)]
pub struct Song {
    pub id: usize,
    pub api_path: String,
    pub full_title: String,
    pub primary_artist_name: String,
    pub title: String,
    pub url: String,
}

/// What a [`Song`] holds, as mathematical values.
pub struct SongView {
    pub id: usize,
    pub api_path: Seq<char>,
    pub full_title: Seq<char>,
    pub primary_artist_name: Seq<char>,
    pub title: Seq<char>,
    pub url: Seq<char>,
}

impl View for Song {
    type V = SongView;

    open spec fn view(&self) -> SongView {
        SongView {
            id: self.id,
            api_path: self.api_path@,
            full_title: self.full_title@,
            primary_artist_name: self.primary_artist_name@,
            title: self.title@,
            url: self.url@,
        }
    }
}

impl Clone for Song {
    fn clone(&self) -> (copy: Song)
        ensures
            copy@ == self@,
    {
        Song {
            id: self.id,
            api_path: self.api_path.clone(),
            full_title: self.full_title.clone(),
            primary_artist_name: self.primary_artist_name.clone(),
            title: self.title.clone(),
            url: self.url.clone(),
        }
    }
}

/// The views of a list of songs, in the list's order.
pub open spec fn song_views(songs: Seq<Song>) -> Seq<SongView> {
    songs.map_values(|song: Song| song@)
}

} // verus!
