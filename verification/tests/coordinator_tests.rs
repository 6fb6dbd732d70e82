use gotta_fill_em_all::coordinator::{dispatch, Coordinator, RunError};
use gotta_fill_em_all::lyrics::ScanError;
use gotta_fill_em_all::output_record::OutputRecord;
use gotta_fill_em_all::registry::SeenSet;
use gotta_fill_em_all::song::Song;
use gotta_fill_em_all::writer::WriteError;

fn song(id: usize) -> Song {
    Song {
        id,
        api_path: format!("/songs/{}", id),
        full_title: format!("Song {} by Somebody", id),
        primary_artist_name: String::from("Somebody"),
        title: format!("Song {}", id),
        url: format!("https://example.org/songs/{}", id),
    }
}

fn songs(ids: &[usize]) -> Vec<Song> {
    ids.iter().map(|id| song(*id)).collect()
}

fn ids(songs: &[Song]) -> Vec<usize> {
    songs.iter().map(|song| song.id).collect()
}

fn row(id: usize) -> OutputRecord {
    OutputRecord {
        primary_artist: String::from("Somebody"),
        title: format!("Song {}", id),
        id,
    }
}

#[test]
fn dispatch_hands_out_every_new_song() {
    let mut seen = SeenSet::new();
    let handed_out = dispatch(&mut seen, &songs(&[3, 1, 2]));
    assert_eq!(ids(&handed_out), vec![3, 1, 2]);
    assert_eq!(seen.len(), 3);
}

#[test]
fn dispatch_hands_out_whole_songs() {
    let mut seen = SeenSet::new();
    let handed_out = dispatch(&mut seen, &songs(&[3]));
    assert_eq!(handed_out[0].title, "Song 3");
    assert_eq!(handed_out[0].url, "https://example.org/songs/3");
    assert_eq!(handed_out[0].primary_artist_name, "Somebody");
    assert_eq!(handed_out[0].full_title, "Song 3 by Somebody");
    assert_eq!(handed_out[0].api_path, "/songs/3");
}

#[test]
fn dispatch_passes_over_a_song_listed_twice() {
    let mut seen = SeenSet::new();
    let handed_out = dispatch(&mut seen, &songs(&[10, 11, 10, 12, 11, 10]));
    assert_eq!(ids(&handed_out), vec![10, 11, 12]);
}

#[test]
fn dispatch_passes_over_a_song_of_an_earlier_artist() {
    let mut seen = SeenSet::new();
    assert_eq!(ids(&dispatch(&mut seen, &songs(&[1, 2, 3]))), vec![1, 2, 3]);
    assert_eq!(ids(&dispatch(&mut seen, &songs(&[3, 4, 1, 5]))), vec![4, 5]);
    assert_eq!(ids(&dispatch(&mut seen, &songs(&[5, 4, 3, 2, 1]))), Vec::<usize>::new());
    assert_eq!(seen.len(), 5);
}

#[test]
fn dispatch_of_two_lists_is_dispatch_of_both_joined() {
    let mut in_turn = SeenSet::new();
    let mut handed_out = ids(&dispatch(&mut in_turn, &songs(&[7, 8, 7])));
    handed_out.extend(ids(&dispatch(&mut in_turn, &songs(&[9, 8, 6]))));
    let mut at_once = SeenSet::new();
    assert_eq!(handed_out, ids(&dispatch(&mut at_once, &songs(&[7, 8, 7, 9, 8, 6]))));
    assert_eq!(in_turn.len(), at_once.len());
}

#[test]
fn dispatch_of_nothing() {
    let mut seen = SeenSet::new();
    assert!(dispatch(&mut seen, &Vec::new()).is_empty());
    assert!(seen.is_empty());
}

#[test]
fn every_id_is_handed_out_at_most_once_in_a_run() {
    let mut run = Coordinator::new();
    let lists = [vec![1, 2, 3, 2], vec![3, 4], vec![], vec![4, 4, 5, 1]];
    let mut all = Vec::new();
    for list in lists.iter() {
        all.extend(ids(&run.dispatch(&songs(list))));
    }
    assert_eq!(all, vec![1, 2, 3, 4, 5]);
    assert_eq!(run.handed_out(), 5);
}

#[test]
fn new_run_has_nothing_under_way() {
    let mut run = Coordinator::new();
    assert_eq!(run.handed_out(), 0);
    assert_eq!(run.finished(), 0);
    assert_eq!(run.failed(), 0);
    assert_eq!(run.outstanding(), 0);
    assert_eq!(run.finish(), Ok(Vec::new()));
}

#[test]
fn run_counts_the_scans() {
    let mut run = Coordinator::new();
    run.dispatch(&songs(&[1, 2, 3]));
    assert_eq!(run.outstanding(), 3);
    assert_eq!(run.complete(Ok(None)), Ok(()));
    assert_eq!(run.complete(Err(ScanError::Network)), Ok(()));
    assert_eq!(run.outstanding(), 1);
    assert_eq!(run.finished(), 2);
    assert_eq!(run.failed(), 1);
    assert_eq!(run.complete(Err(ScanError::Parse)), Ok(()));
    assert_eq!(run.outstanding(), 0);
    assert_eq!(run.failed(), 2);
}

#[test]
fn run_refuses_the_end_of_a_scan_that_was_not_handed_out() {
    let mut run = Coordinator::new();
    assert_eq!(run.complete(Ok(None)), Err(RunError::NoScanOutstanding));
    run.dispatch(&songs(&[1]));
    assert_eq!(run.complete(Ok(Some(row(1)))), Ok(()));
    assert_eq!(run.complete(Ok(Some(row(1)))), Err(RunError::NoScanOutstanding));
    assert_eq!(run.finished(), 1);
    assert_eq!(
        String::from_utf8(run.finish().unwrap()).unwrap(),
        "PrimaryArtist,Title,Id\nSomebody,Song 1,1\n"
    );
}

#[test]
fn barrier_stays_shut_while_a_scan_is_under_way() {
    let mut run = Coordinator::new();
    run.dispatch(&songs(&[1, 2]));
    assert_eq!(run.finish(), Err(RunError::ScansOutstanding));
    run.complete(Ok(Some(row(1)))).unwrap();
    assert_eq!(run.finish(), Err(RunError::ScansOutstanding));
    run.complete(Err(ScanError::Network)).unwrap();
    assert_eq!(
        String::from_utf8(run.finish().unwrap()).unwrap(),
        "PrimaryArtist,Title,Id\nSomebody,Song 1,1\n"
    );
}

#[test]
fn failure_of_one_scan_leaves_the_others_alone() {
    let mut run = Coordinator::new();
    run.dispatch(&songs(&[1, 2, 3]));
    run.complete(Ok(Some(row(3)))).unwrap();
    run.complete(Err(ScanError::Network)).unwrap();
    run.complete(Ok(Some(row(1)))).unwrap();
    assert_eq!(run.failed(), 1);
    assert_eq!(
        String::from_utf8(run.finish().unwrap()).unwrap(),
        "PrimaryArtist,Title,Id\nSomebody,Song 3,3\nSomebody,Song 1,1\n"
    );
}

#[test]
fn output_is_handed_out_once() {
    let mut run = Coordinator::new();
    assert!(run.finish().is_ok());
    assert_eq!(run.finish(), Err(RunError::Write(WriteError::Closed)));
}

#[test]
fn row_that_arrives_after_the_output_is_refused_and_counted() {
    let mut run = Coordinator::new();
    run.finish().unwrap();
    run.dispatch(&songs(&[1, 2]));
    assert_eq!(run.complete(Ok(Some(row(1)))), Err(RunError::Write(WriteError::Closed)));
    assert_eq!(run.finished(), 1);
    assert_eq!(run.complete(Ok(None)), Ok(()));
    assert_eq!(run.outstanding(), 0);
}
