//! The catalog's answers: where to ask for a page, and how to read one.
//!
//! An answer is a JSON object with a member `response`, which holds the list
//! `songs` and the token `next_page`. The token is the number of the page
//! that follows; a token that is `null`, or absent, says that none does.
//! Every other member that is named here must be there: an answer that lacks
//! one is refused, and the run ends with it.

use vstd::prelude::*;
use vstd::string::StringExecFns;

use crate::decimal::{append_decimal, decimal, parse_decimal, parsed_decimal};
use crate::json::{
    json_item_texts, json_items, json_member, json_member_text, json_string, json_string_value,
};
use crate::song::{song_views, Song, SongView};
use crate::text::texts_of;

verus! {

/// The number of songs that is asked for with each page.
pub const PAGE_SIZE: u64 = 50;

/// What is wrong with an answer of the catalog.
#[derive(Debug, Clone, Copy, PartialEq, Eq)]
pub enum SchemaError {
    /// The answer is no JSON object, or it has no member `response`.
    MissingResponse,
    /// The response has no member `songs`.
    MissingSongs,
    /// The member `songs` is no list.
    MalformedSongs,
    /// The song at `index` lacks a field, or holds one of the wrong kind.
    /// It is the first such song of its page.
    MalformedSong { index: usize },
    /// The token `next_page` is neither a page number nor `null`.
    MalformedNextPage,
}

/// The address of one page of an artist's song list.
pub open spec fn page_url_text(artist_id: nat, page: nat) -> Seq<char> {
    "https://api.genius.com/artists/"@ + decimal(artist_id) + "/songs?per_page="@ + decimal(
        PAGE_SIZE as nat,
    ) + "&page="@ + decimal(page)
}

/// Builds the address of page `page` of the song list of artist `artist_id`.
/// The request for it carries the caller's bearer token.
pub fn page_url(artist_id: usize, page: u64) -> (url: String)
    ensures
        url@ == page_url_text(artist_id as nat, page as nat),
{
    let mut url = String::from_str("https://api.genius.com/artists/");
    append_decimal(&mut url, artist_id as u64);
    url.append("/songs?per_page=");
    append_decimal(&mut url, PAGE_SIZE);
    url.append("&page=");
    append_decimal(&mut url, page);
    url
}

/// What a next-page token says. An absent token and `null` both end the
/// walk; a page number continues it; anything else is malformed.
pub open spec fn next_page_of(token: Option<Seq<char>>) -> Result<Option<u64>, SchemaError> {
    match token {
        None => Ok(None),
        Some(text) => if text == "null"@ {
            Ok(None)
        } else {
            match parsed_decimal(text) {
                Some(page) => Ok(Some(page)),
                None => Err(SchemaError::MalformedNextPage),
            }
        },
    }
}

/// The text of an optional token.
pub open spec fn token_text(token: Option<&str>) -> Option<Seq<char>> {
    match token {
        Some(text) => Some(text@),
        None => None,
    }
}

/// Reads the next-page token of an answer, given as compact JSON text, or as
/// `None` where the answer has none.
pub fn read_next_page(token: Option<&str>) -> (next: Result<Option<u64>, SchemaError>)
    ensures
        next == next_page_of(token_text(token)),
        next matches Ok(Some(page)) ==> token_text(token) == Some(decimal(page as nat)),
{
    match token {
        None => Ok(None),
        Some(text) => {
            if String::from_str(text) == String::from_str("null") {
                return Ok(None);
            }
            match parse_decimal(text) {
                Some(page) => Ok(Some(page)),
                None => Err(SchemaError::MalformedNextPage),
            }
        },
    }
}

/// The string member `key` of the JSON object `document`.
pub open spec fn string_member(document: Seq<char>, key: Seq<char>) -> Option<Seq<char>> {
    match json_member_text(document, key) {
        Some(member) => json_string_value(member),
        None => None,
    }
}

/// The id of the song entry `entry`: its member `id`, a number in decimal
/// notation that fits the machine's word.
pub open spec fn id_member(entry: Seq<char>) -> Option<usize> {
    match json_member_text(entry, "id"@) {
        Some(member) => match parsed_decimal(member) {
            Some(id) => if id <= usize::MAX {
                Some(id as usize)
            } else {
                None
            },
            None => None,
        },
        None => None,
    }
}

/// The name of the primary artist of the song entry `entry`: the string
/// member `name` of its member `primary_artist`.
pub open spec fn artist_name_member(entry: Seq<char>) -> Option<Seq<char>> {
    match json_member_text(entry, "primary_artist"@) {
        Some(artist) => string_member(artist, "name"@),
        None => None,
    }
}

/// The song that the entry `entry` of a song list describes; `None` where
/// the entry lacks one of the fields or holds one of the wrong kind.
pub open spec fn song_of(entry: Seq<char>) -> Option<SongView> {
    if id_member(entry) is Some && string_member(entry, "api_path"@) is Some && string_member(
        entry,
        "full_title"@,
    ) is Some && artist_name_member(entry) is Some && string_member(entry, "title"@) is Some
        && string_member(entry, "url"@) is Some {
        Some(
            SongView {
                id: id_member(entry)->0,
                api_path: string_member(entry, "api_path"@)->0,
                full_title: string_member(entry, "full_title"@)->0,
                primary_artist_name: artist_name_member(entry)->0,
                title: string_member(entry, "title"@)->0,
                url: string_member(entry, "url"@)->0,
            },
        )
    } else {
        None
    }
}

/// The position of the first of `entries` that describes no song.
pub open spec fn first_malformed(entries: Seq<Seq<char>>) -> Option<int>
    decreases entries.len(),
{
    if entries.len() == 0 {
        None
    } else {
        match first_malformed(entries.drop_last()) {
            Some(index) => Some(index),
            None => if song_of(entries.last()) is None {
                Some(entries.len() - 1)
            } else {
                None
            },
        }
    }
}

/// The songs that `entries` describe, in order.
pub open spec fn songs_of(entries: Seq<Seq<char>>) -> Seq<SongView> {
    Seq::new(entries.len(), |i: int| song_of(entries[i])->0)
}

/// What decoding the song list `list` yields.
pub open spec fn decoded_songs(list: Seq<char>) -> Result<Seq<SongView>, SchemaError> {
    match json_item_texts(list) {
        None => Err(SchemaError::MalformedSongs),
        Some(entries) => match first_malformed(entries) {
            Some(index) => Err(SchemaError::MalformedSong { index: index as usize }),
            None => Ok(songs_of(entries)),
        },
    }
}

/// What decoding the answer `body` yields. The parts are looked at in this
/// order: the response, the song list and each of its songs, the token.
pub open spec fn decoded_page(body: Seq<char>) -> Result<PageView, SchemaError> {
    match json_member_text(body, "response"@) {
        None => Err(SchemaError::MissingResponse),
        Some(response) => match json_member_text(response, "songs"@) {
            None => Err(SchemaError::MissingSongs),
            Some(list) => match decoded_songs(list) {
                Err(error) => Err(error),
                Ok(songs) => match next_page_of(json_member_text(response, "next_page"@)) {
                    Err(error) => Err(error),
                    Ok(next_page) => Ok(PageView { songs, next_page }),
                },
            },
        },
    }
}

/// One page of an artist's song list, decoded.
#[derive(Debug)]
pub struct CatalogPage {
    /// The songs of this page, in the catalog's order.
    pub songs: Vec<Song>,
    /// The page that follows, if there is one.
    pub next_page: Option<u64>,
}

/// What a [`CatalogPage`] holds, as mathematical values.
pub struct PageView {
    pub songs: Seq<SongView>,
    pub next_page: Option<u64>,
}

impl View for CatalogPage {
    type V = PageView;

    open spec fn view(&self) -> PageView {
        PageView { songs: song_views(self.songs@), next_page: self.next_page }
    }
}

/// Reads the string member `key` of the JSON object `document`.
fn read_string_member(document: &str, key: &str) -> (string: Option<String>)
    ensures
        match string {
            Some(text) => string_member(document@, key@) == Some(text@),
            None => string_member(document@, key@) is None,
        },
{
    match json_member(document, key) {
        Some(member) => json_string(member.as_str()),
        None => None,
    }
}

/// Reads the id of a song entry.
fn read_id_member(entry: &str) -> (id: Option<usize>)
    ensures
        id == id_member(entry@),
{
    let member = match json_member(entry, "id") {
        Some(member) => member,
        None => return None,
    };
    match parse_decimal(member.as_str()) {
        Some(id) => if id <= usize::MAX as u64 {
            Some(id as usize)
        } else {
            None
        },
        None => None,
    }
}

/// Reads the name of the primary artist of a song entry.
fn read_artist_name(entry: &str) -> (name: Option<String>)
    ensures
        match name {
            Some(text) => artist_name_member(entry@) == Some(text@),
            None => artist_name_member(entry@) is None,
        },
{
    match json_member(entry, "primary_artist") {
        Some(artist) => read_string_member(artist.as_str(), "name"),
        None => None,
    }
}

/// Decodes one entry of a song list, given as JSON text. Returns nothing
/// where the entry lacks one of the fields `id`, `api_path`, `full_title`,
/// `primary_artist` with its `name`, `title` and `url`, or holds one of the
/// wrong kind.
pub fn decode_song(entry: &str) -> (decoded: Option<Song>)
    ensures
        match decoded {
            Some(song) => song_of(entry@) == Some(song@),
            None => song_of(entry@) is None,
        },
{
    let id = match read_id_member(entry) {
        Some(id) => id,
        None => return None,
    };
    let api_path = match read_string_member(entry, "api_path") {
        Some(text) => text,
        None => return None,
    };
    let full_title = match read_string_member(entry, "full_title") {
        Some(text) => text,
        None => return None,
    };
    let primary_artist_name = match read_artist_name(entry) {
        Some(text) => text,
        None => return None,
    };
    let title = match read_string_member(entry, "title") {
        Some(text) => text,
        None => return None,
    };
    let url = match read_string_member(entry, "url") {
        Some(text) => text,
        None => return None,
    };
    Some(Song { id, api_path, full_title, primary_artist_name, title, url })
}

/// Decodes the entries of a song list, in order, up to the first that
/// describes no song.
pub fn decode_entries(entries: &Vec<String>) -> (decoded: Result<Vec<Song>, SchemaError>)
    ensures
        match decoded {
            Ok(songs) => first_malformed(texts_of(entries@)) is None && song_views(songs@)
                == songs_of(texts_of(entries@)),
            Err(error) => first_malformed(texts_of(entries@)) matches Some(index) && error == (
            SchemaError::MalformedSong { index: index as usize }),
        },
{
    let mut songs: Vec<Song> = Vec::new();
    let mut index: usize = 0;
    let ghost texts = texts_of(entries@);
    assert(texts.take(0) =~= Seq::empty());
    while index < entries.len()
        invariant
            index <= entries.len(),
            texts == texts_of(entries@),
            first_malformed(texts.take(index as int)) is None,
            songs.len() == index,
            song_views(songs@) == songs_of(texts.take(index as int)),
        decreases entries.len() - index,
    {
        assert(texts.take(index + 1).drop_last() == texts.take(index as int));
        assert(texts.take(index + 1).last() == entries@[index as int]@);
        match decode_song(entries[index].as_str()) {
            Some(song) => {
                let ghost before = songs@;
                songs.push(song);
                assert(song_views(songs@) =~= songs_of(texts.take(index + 1))) by {
                    let longer = songs_of(texts.take(index + 1));
                    assert forall|i: int| 0 <= i < index + 1 implies song_views(songs@)[i]
                        == longer[i] by {
                        if i < index {
                            assert(song_views(before)[i] == songs_of(texts.take(index as int))[i]);
                            assert(texts.take(index as int)[i] == texts.take(index + 1)[i]);
                        } else {
                            assert(texts.take(index + 1)[i] == entries@[index as int]@);
                        }
                    }
                }
            },
            None => {
                proof {
                    lemma_first_malformed_extends(texts, index + 1);
                }
                return Err(SchemaError::MalformedSong { index });
            },
        }
        index += 1;
    }
    assert(texts.take(entries@.len() as int) == texts);
    Ok(songs)
}

/// The first malformed entry of a prefix is the first malformed entry of the
/// whole list.
proof fn lemma_first_malformed_extends(entries: Seq<Seq<char>>, len: int)
    requires
        0 <= len <= entries.len(),
        first_malformed(entries.take(len)) is Some,
    ensures
        first_malformed(entries) == first_malformed(entries.take(len)),
    decreases entries.len(),
{
    if len < entries.len() {
        assert(entries.drop_last().take(len) == entries.take(len));
        lemma_first_malformed_extends(entries.drop_last(), len);
    } else {
        assert(entries.take(len) == entries);
    }
}

/// Decodes a song list, given as JSON text.
///
/// Fails with [`SchemaError::MalformedSongs`] where the text holds no list,
/// and with [`SchemaError::MalformedSong`] at the first entry that describes
/// no song.
pub fn decode_songs(list: &str) -> (decoded: Result<Vec<Song>, SchemaError>)
    ensures
        match decoded {
            Ok(songs) => decoded_songs(list@) == Ok::<_, SchemaError>(song_views(songs@)),
            Err(error) => decoded_songs(list@) == Err::<Seq<SongView>, _>(error),
        },
{
    match json_items(list) {
        Some(entries) => decode_entries(&entries),
        None => Err(SchemaError::MalformedSongs),
    }
}

/// Decodes the answer to a page request.
///
/// Fails where the answer has no `response`, the response has no `songs`,
/// the song list or one of its songs is malformed, or the token is: with the
/// error of the first of these that holds.
pub fn decode_page(body: &str) -> (decoded: Result<CatalogPage, SchemaError>)
    ensures
        match decoded {
            Ok(page) => decoded_page(body@) == Ok::<_, SchemaError>(page@),
            Err(error) => decoded_page(body@) == Err::<PageView, _>(error),
        },
{
    let response = match json_member(body, "response") {
        Some(response) => response,
        None => return Err(SchemaError::MissingResponse),
    };
    let list = match json_member(response.as_str(), "songs") {
        Some(list) => list,
        None => return Err(SchemaError::MissingSongs),
    };
    let songs = match decode_songs(list.as_str()) {
        Ok(songs) => songs,
        Err(error) => return Err(error),
    };
    let token = json_member(response.as_str(), "next_page");
    let next_page = match &token {
        Some(text) => read_next_page(Some(text.as_str())),
        None => read_next_page(None),
    };
    match next_page {
        Ok(next_page) => Ok(CatalogPage { songs, next_page }),
        Err(error) => Err(error),
    }
}

} // verus!
