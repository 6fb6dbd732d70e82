//! Walking an artist's song list, page by page.
//!
//! The catalog hands out an artist's songs in pages. Each answer names the
//! page that follows it, or says that there is none. A [`Paginator`] keeps
//! what has been collected and knows which page to ask for next; the caller
//! sends the requests and hands each answer back. The pages of one artist
//! come one after the other, since each names the next.

use vstd::prelude::*;

use crate::catalog::{
    decode_page, decoded_page, page_url, page_url_text, CatalogPage, PageView, SchemaError,
};
use crate::song::{song_views, Song, SongView};

verus! {

/// The page that every walk starts with.
pub const FIRST_PAGE: u64 = 1;

/// The state of a walk, as mathematical values.
pub struct WalkView {
    /// The artist whose songs are collected.
    pub artist_id: usize,
    /// The songs of the pages accepted so far, in page order.
    pub songs: Seq<SongView>,
    /// The page to ask for next; `None` once the last page has been accepted.
    pub next_page: Option<u64>,
}

/// The state in which the walk for `artist_id` starts: nothing collected,
/// the first page pending.
pub open spec fn walk_start(artist_id: usize) -> WalkView {
    WalkView { artist_id, songs: Seq::empty(), next_page: Some(FIRST_PAGE) }
}

/// The state after `page` has been handed to a walk in state `walk`. While a
/// page is pending, the page's songs are appended and its token becomes the
/// pending page. A walk that has ended takes no further page.
pub open spec fn walk_step(walk: WalkView, page: PageView) -> WalkView {
    if walk.next_page is Some {
        WalkView {
            artist_id: walk.artist_id,
            songs: walk.songs + page.songs,
            next_page: page.next_page,
        }
    } else {
        walk
    }
}

/// The state after `pages` have been handed to a walk in state `walk`, one
/// after the other.
pub open spec fn walk_through(walk: WalkView, pages: Seq<PageView>) -> WalkView
    decreases pages.len(),
{
    if pages.len() == 0 {
        walk
    } else {
        walk_step(walk_through(walk, pages.drop_last()), pages.last())
    }
}

/// The songs of `pages`, joined in page order.
pub open spec fn all_songs(pages: Seq<PageView>) -> Seq<SongView>
    decreases pages.len(),
{
    if pages.len() == 0 {
        Seq::empty()
    } else {
        all_songs(pages.drop_last()) + pages.last().songs
    }
}

/// Whether `pages` is a complete song list: every page but the last names a
/// successor, and the last names none.
pub open spec fn is_complete_listing(pages: Seq<PageView>) -> bool {
    &&& pages.len() >= 1
    &&& forall|i: int| 0 <= i < pages.len() - 1 ==> (#[trigger] pages[i]).next_page is Some
    &&& pages.last().next_page is None
}

/// The page that is asked for at step `k` of a walk through `pages`: the
/// first page, and from then on what the page before named.
pub open spec fn requested_page(pages: Seq<PageView>, k: int) -> Option<u64> {
    if k == 0 {
        Some(FIRST_PAGE)
    } else {
        pages[k - 1].next_page
    }
}

/// A walk through an artist's song list. It starts with the first page
/// pending and ends when an accepted page names no successor.
#[derive(Debug)]
pub struct Paginator {
    artist_id: usize,
    songs: Vec<Song>,
    next_page: Option<u64>,
}

impl View for Paginator {
    type V = WalkView;

    closed spec fn view(&self) -> WalkView {
        WalkView {
            artist_id: self.artist_id,
            songs: song_views(self.songs@),
            next_page: self.next_page,
        }
    }
}

impl Paginator {
    /// Starts the walk through the song list of artist `artist_id`.
    pub fn new(artist_id: usize) -> (walk: Paginator)
        ensures
            walk@ == walk_start(artist_id),
    {
        let walk = Paginator { artist_id, songs: Vec::new(), next_page: Some(FIRST_PAGE) };
        assert(walk@.songs =~= Seq::empty());
        walk
    }

    /// The artist whose songs are collected.
    pub fn artist_id(&self) -> (id: usize)
        ensures
            id == self@.artist_id,
    {
        self.artist_id
    }

    /// The page to ask for next, or `None` if the walk has ended.
    pub fn next_page(&self) -> (page: Option<u64>)
        ensures
            page == self@.next_page,
    {
        self.next_page
    }

    /// The address to fetch next, or `None` if the walk has ended.
    pub fn next_url(&self) -> (url: Option<String>)
        ensures
            match self@.next_page {
                Some(page) => url matches Some(text) && text@ == page_url_text(
                    self@.artist_id as nat,
                    page as nat,
                ),
                None => url is None,
            },
    {
        match self.next_page {
            Some(page) => Some(page_url(self.artist_id, page)),
            None => None,
        }
    }

    /// Whether the last page has been accepted.
    pub fn is_done(&self) -> (done: bool)
        ensures
            done == self@.next_page is None,
    {
        self.next_page.is_none()
    }

    /// The number of songs collected so far.
    pub fn collected(&self) -> (count: usize)
        ensures
            count == self@.songs.len(),
    {
        self.songs.len()
    }

    /// Hands the decoded answer to the pending request to the walk. Returns
    /// whether the page was taken: a walk that has ended takes none.
    pub fn accept(&mut self, page: CatalogPage) -> (taken: bool)
        ensures
            taken == old(self)@.next_page is Some,
            final(self)@ == walk_step(old(self)@, page@),
    {
        if self.next_page.is_none() {
            return false;
        }
        let mut page = page;
        let ghost before = self.songs@;
        let ghost added = page.songs@;
        self.songs.append(&mut page.songs);
        self.next_page = page.next_page;
        assert(song_views(before + added) =~= song_views(before) + song_views(added));
        true
    }

    /// Hands the answer to the pending request to the walk, as the text that
    /// was received. Returns whether the page was taken.
    ///
    /// Fails where the answer cannot be decoded, and then leaves the walk as
    /// it was.
    pub fn accept_body(&mut self, body: &str) -> (taken: Result<bool, SchemaError>)
        ensures
            match decoded_page(body@) {
                Ok(page) => taken == Ok::<_, SchemaError>(old(self)@.next_page is Some)
                    && final(self)@ == walk_step(old(self)@, page),
                Err(error) => taken == Err::<bool, _>(error) && final(self)@ == old(self)@,
            },
    {
        match decode_page(body) {
            Ok(page) => Ok(self.accept(page)),
            Err(error) => Err(error),
        }
    }

    /// Ends the walk and hands out the songs collected, in page order.
    pub fn into_songs(self) -> (songs: Vec<Song>)
        ensures
            song_views(songs@) == self@.songs,
    {
        self.songs
    }
}

/// Handing a complete song list to a fresh walk, page by page, collects
/// exactly the songs of all pages in page order and ends the walk with the
/// last page. Before the last page the walk has not ended, and at every step
/// it asks for the page that the page before named.
pub proof fn lemma_walk_collects_all_pages(artist_id: usize, pages: Seq<PageView>)
    requires
        is_complete_listing(pages),
    ensures
        walk_through(walk_start(artist_id), pages).songs == all_songs(pages),
        walk_through(walk_start(artist_id), pages).next_page is None,
        forall|k: int|
            0 <= k < pages.len() ==> (#[trigger] walk_through(
                walk_start(artist_id),
                pages.take(k),
            )).next_page == requested_page(pages, k) && requested_page(pages, k) is Some,
{
    assert forall|k: int| 0 <= k <= pages.len() implies (#[trigger] walk_through(
        walk_start(artist_id),
        pages.take(k),
    )).songs == all_songs(pages.take(k)) && walk_through(
        walk_start(artist_id),
        pages.take(k),
    ).next_page == requested_page(pages, k) by {
        lemma_walk_prefix(artist_id, pages, k);
    }
    assert(pages.take(pages.len() as int) == pages);
}

/// After the first `k` pages of a complete song list, a fresh walk holds the
/// songs of those pages and asks for the page that the last of them named.
proof fn lemma_walk_prefix(artist_id: usize, pages: Seq<PageView>, k: int)
    requires
        is_complete_listing(pages),
        0 <= k <= pages.len(),
    ensures
        walk_through(walk_start(artist_id), pages.take(k)).songs == all_songs(pages.take(k)),
        walk_through(walk_start(artist_id), pages.take(k)).next_page == requested_page(pages, k),
        walk_through(walk_start(artist_id), pages.take(k)).artist_id == artist_id,
    decreases k,
{
    if k > 0 {
        lemma_walk_prefix(artist_id, pages, k - 1);
        assert(pages.take(k).drop_last() == pages.take(k - 1));
        assert(pages.take(k).last() == pages[k - 1]);
        assert(requested_page(pages, k - 1) is Some);
    }
}

} // verus!
