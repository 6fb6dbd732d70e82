use gotta_fill_em_all::catalog::{CatalogPage, SchemaError};
use gotta_fill_em_all::paginator::{Paginator, FIRST_PAGE};
use gotta_fill_em_all::song::Song;

fn song(id: usize) -> Song {
    Song {
        id,
        api_path: format!("/songs/{}", id),
        full_title: format!("Song {} by Somebody", id),
        primary_artist_name: String::from("Somebody"),
        title: format!("Song {}", id),
        url: format!("https://example.org/songs/{}", id),
    }
}

fn page(ids: &[usize], next_page: Option<u64>) -> CatalogPage {
    CatalogPage { songs: ids.iter().map(|id| song(*id)).collect(), next_page }
}

fn ids(songs: &[Song]) -> Vec<usize> {
    songs.iter().map(|song| song.id).collect()
}

#[test]
fn walk_starts_with_the_first_page() {
    let walk = Paginator::new(7);
    assert_eq!(FIRST_PAGE, 1);
    assert_eq!(walk.artist_id(), 7);
    assert_eq!(walk.next_page(), Some(1));
    assert!(!walk.is_done());
    assert_eq!(walk.collected(), 0);
    assert_eq!(
        walk.next_url().unwrap(),
        "https://api.genius.com/artists/7/songs?per_page=50&page=1"
    );
}

#[test]
fn walk_asks_for_the_page_that_was_named() {
    let mut walk = Paginator::new(7);
    assert!(walk.accept(page(&[1, 2], Some(5))));
    assert_eq!(walk.next_page(), Some(5));
    assert_eq!(
        walk.next_url().unwrap(),
        "https://api.genius.com/artists/7/songs?per_page=50&page=5"
    );
    assert_eq!(walk.collected(), 2);
}

#[test]
fn walk_collects_all_pages_in_order() {
    let mut walk = Paginator::new(1);
    let pages = vec![page(&[10, 11], Some(2)), page(&[12], Some(3)), page(&[13, 10], None)];
    let mut requested = Vec::new();
    for answer in pages {
        requested.push(walk.next_page().unwrap());
        assert!(walk.accept(answer));
    }
    assert_eq!(requested, vec![1, 2, 3]);
    assert!(walk.is_done());
    assert_eq!(walk.next_page(), None);
    assert!(walk.next_url().is_none());
    assert_eq!(ids(&walk.into_songs()), vec![10, 11, 12, 13, 10]);
}

#[test]
fn walk_of_one_page() {
    let mut walk = Paginator::new(1);
    assert!(walk.accept(page(&[4], None)));
    assert!(walk.is_done());
    assert_eq!(ids(&walk.into_songs()), vec![4]);
}

#[test]
fn walk_goes_on_past_an_empty_page() {
    let mut walk = Paginator::new(1);
    assert!(walk.accept(page(&[], Some(2))));
    assert!(!walk.is_done());
    assert!(walk.accept(page(&[9], None)));
    assert!(walk.is_done());
    assert_eq!(ids(&walk.into_songs()), vec![9]);
}

#[test]
fn walk_that_has_ended_takes_no_page() {
    let mut walk = Paginator::new(1);
    assert!(walk.accept(page(&[4], None)));
    assert!(!walk.accept(page(&[5], Some(2))));
    assert!(walk.is_done());
    assert_eq!(walk.collected(), 1);
    assert_eq!(ids(&walk.into_songs()), vec![4]);
}

#[test]
fn walk_accepts_answers_as_text() {
    let entry = "{\"id\":10,\"api_path\":\"/songs/10\",\"full_title\":\"T by A\",\
                 \"primary_artist\":{\"name\":\"A\"},\"title\":\"T\",\"url\":\"https://example.org/10\"}";
    let mut walk = Paginator::new(1);
    let first = format!("{{\"response\":{{\"songs\":[{}],\"next_page\":2}}}}", entry);
    assert_eq!(walk.accept_body(&first), Ok(true));
    assert_eq!(walk.next_page(), Some(2));
    let second = format!("{{\"response\":{{\"songs\":[{}],\"next_page\":null}}}}", entry);
    assert_eq!(walk.accept_body(&second), Ok(true));
    assert!(walk.is_done());
    assert_eq!(walk.accept_body(&second), Ok(false));
    assert_eq!(ids(&walk.into_songs()), vec![10, 10]);
}

#[test]
fn walk_is_left_alone_by_a_malformed_answer() {
    let mut walk = Paginator::new(1);
    assert!(walk.accept(page(&[4], Some(2))));
    assert_eq!(walk.accept_body("{\"response\":{}}"), Err(SchemaError::MissingSongs));
    assert_eq!(walk.accept_body("{}"), Err(SchemaError::MissingResponse));
    assert_eq!(walk.next_page(), Some(2));
    assert_eq!(walk.collected(), 1);
}
