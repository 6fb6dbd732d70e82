//! Scanning the lyric blocks of a song page for holes.
//!
//! A hole is a stretch of lyrics that the transcriber could not make out. The
//! transcription marks it with a question mark directly followed by a closing
//! square bracket.

use vstd::prelude::*;

use crate::output_record::{record_of, OutputRecord, OutputRecordView};
use crate::song::{Song, SongView};
use crate::text::texts_of;

verus! {

/// The selector of the elements that hold a page's lyrics.
pub const LYRICS_SELECTOR: &'static str = "div[data-lyrics-container=true]";

/// Why a song page could not be scanned.
#[derive(Debug, Clone, Copy, PartialEq, Eq)]
pub enum ScanError {
    /// The page could not be fetched. The caller reports this one: the
    /// library itself fetches nothing.
    Network,
    /// The lyric blocks could not be selected from the page.
    Parse,
}

/// Whether `text` holds the hole marker: a `?` directly followed by a `]`.
pub open spec fn has_hole(text: Seq<char>) -> bool {
    exists|i: int| 0 <= i && i + 1 < text.len() && text[i] == '?' && #[trigger] text[i + 1] == ']'
}

/// Whether the block at `index` is the first block with a hole.
pub open spec fn is_first_hole(blocks: Seq<Seq<char>>, index: int) -> bool {
    &&& 0 <= index < blocks.len()
    &&& has_hole(blocks[index])
    &&& forall|j: int| 0 <= j < index ==> !has_hole(#[trigger] blocks[j])
}

/// Whether any of `blocks` has a hole.
pub open spec fn any_hole(blocks: Seq<Seq<char>>) -> bool {
    exists|i: int| 0 <= i < blocks.len() && has_hole(#[trigger] blocks[i])
}

/// What scanning a song's blocks yields: the song's row where a block has a
/// hole, nothing where none has.
pub open spec fn scan_result(song: SongView, blocks: Seq<Seq<char>>) -> Option<OutputRecordView> {
    if any_hole(blocks) {
        Some(record_of(song))
    } else {
        None
    }
}

/// The views of a scan's outcome.
pub open spec fn found_view(found: Option<OutputRecord>) -> Option<OutputRecordView> {
    match found {
        Some(record) => Some(record@),
        None => None,
    }
}

/// The text of each element of the HTML document `page` that `selector`
/// matches, in document order; `None` where `selector` is no valid selector.
/// The text of an element is that of its descendant text nodes, joined in
/// document order.
pub uninterp spec fn selected_text(page: Seq<char>, selector: Seq<char>) -> Option<Seq<Seq<char>>>;

/// Parses `page` with `scraper::Html::parse_document` and `selector` with
/// `scraper::Selector::parse`, walks the matches of `scraper::Html::select`
/// and joins what `scraper::ElementRef::text` yields for each.
///
/// Trusted: the result is [`selected_text`] of the two arguments, and it is
/// `None` exactly where the selector does not parse. The parser accepts every
/// document, the matches come in document order, and none of these calls
/// depends on anything but its arguments.
#[verifier::external_body]
fn select_text(page: &str, selector: &str) -> (blocks: Option<Vec<String>>)
    ensures
        match blocks {
            Some(found) => selected_text(page@, selector@) == Some(texts_of(found@)),
            None => selected_text(page@, selector@) is None,
        },
{
    let selector = match scraper::Selector::parse(selector) {
        Ok(parsed) => parsed,
        Err(_) => return None,
    };
    let document = scraper::Html::parse_document(page);
    let mut blocks: Vec<String> = Vec::new();
    for element in document.select(&selector) {
        blocks.push(element.text().collect());
    }
    Some(blocks)
}

/// Tells whether `text` holds the hole marker.
pub fn contains_hole(text: &str) -> (found: bool)
    ensures
        found == has_hole(text@),
{
    let mut after_question = false;
    for c in it: text.chars()
        invariant
            it.seq() == text@,
            !has_hole(text@.take(it.index())),
            after_question == (it.index() > 0 && text@[it.index() - 1] == '?'),
    {
        if after_question && c == ']' {
            assert(text@[it.index() - 1] == '?' && text@[it.index() - 1 + 1] == ']');
            return true;
        }
        after_question = c == '?';
        assert(!has_hole(text@.take(it.index() + 1))) by {
            let shorter = text@.take(it.index());
            let longer = text@.take(it.index() + 1);
            if has_hole(longer) {
                let i = choose|i: int|
                    0 <= i && i + 1 < longer.len() && longer[i] == '?' && #[trigger] longer[i + 1]
                        == ']';
                if i + 1 < shorter.len() {
                    assert(shorter[i] == '?' && shorter[i + 1] == ']');
                }
            }
        }
    }
    assert(text@.take(text@.len() as int) == text@);
    false
}

/// Finds the first block with a hole. Blocks behind it are not looked at.
pub fn first_hole_block(blocks: &Vec<String>) -> (found: Option<usize>)
    ensures
        match found {
            Some(index) => is_first_hole(texts_of(blocks@), index as int),
            None => !any_hole(texts_of(blocks@)),
        },
{
    let mut index: usize = 0;
    while index < blocks.len()
        invariant
            index <= blocks.len(),
            forall|j: int| 0 <= j < index ==> !has_hole(#[trigger] texts_of(blocks@)[j]),
        decreases blocks.len() - index,
    {
        if contains_hole(blocks[index].as_str()) {
            return Some(index);
        }
        index += 1;
    }
    None
}

/// Scans the lyric blocks of `song`'s page: returns the song's row if a block
/// has a hole, and nothing otherwise.
pub fn check_blocks(song: &Song, blocks: &Vec<String>) -> (found: Option<OutputRecord>)
    ensures
        found_view(found) == scan_result(song@, texts_of(blocks@)),
{
    match first_hole_block(blocks) {
        Some(_) => Some(OutputRecord::for_song(song)),
        None => None,
    }
}

/// What scanning `page` for the blocks that `selector` matches yields for
/// `song`.
pub open spec fn page_result(song: SongView, page: Seq<char>, selector: Seq<char>) -> Result<
    Option<OutputRecordView>,
    ScanError,
> {
    match selected_text(page, selector) {
        Some(blocks) => Ok(scan_result(song, blocks)),
        None => Err(ScanError::Parse),
    }
}

/// The views of a page scan's outcome.
pub open spec fn outcome_view(outcome: Result<Option<OutputRecord>, ScanError>) -> Result<
    Option<OutputRecordView>,
    ScanError,
> {
    match outcome {
        Ok(found) => Ok(found_view(found)),
        Err(error) => Err(error),
    }
}

/// Scans `page` for `song`, taking as lyric blocks the elements that
/// `selector` matches: returns the song's row if one of them has a hole.
///
/// Fails with [`ScanError::Parse`] exactly where `selector` is no valid
/// selector.
pub fn check_song_with(song: &Song, page: &str, selector: &str) -> (outcome: Result<
    Option<OutputRecord>,
    ScanError,
>)
    ensures
        outcome_view(outcome) == page_result(song@, page@, selector@),
{
    match select_text(page, selector) {
        Some(blocks) => Ok(check_blocks(song, &blocks)),
        None => Err(ScanError::Parse),
    }
}

/// Scans the page of `song`, given as the text that was fetched from the
/// song's `url`: selects the lyric blocks with [`LYRICS_SELECTOR`] and returns
/// the song's row if one of them has a hole.
///
/// Fails with [`ScanError::Parse`] exactly where the blocks cannot be
/// selected.
pub fn check_song(song: &Song, page: &str) -> (outcome: Result<Option<OutputRecord>, ScanError>)
    ensures
        outcome_view(outcome) == page_result(song@, page@, LYRICS_SELECTOR@),
{
    check_song_with(song, page, LYRICS_SELECTOR)
}

} // verus!
