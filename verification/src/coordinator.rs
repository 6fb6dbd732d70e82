//! Handing songs out for scanning, and keeping account of the scans.
//!
//! The artists are taken one after the other. Each song of an artist's list
//! is claimed in the registry; the songs whose claim succeeds are handed out,
//! each to a scan of its own. A song that several artists list is handed out
//! once, with the first of its listings.

use vstd::prelude::*;

use crate::lyrics::{any_hole, outcome_view, scan_result, ScanError};
use crate::output_record::{OutputRecord, OutputRecordView};
use crate::registry::{claim, SeenSet};
use crate::song::{song_views, Song, SongView};
use crate::writer::{
    all_encodable, can_write, csv_record, document, lemma_output_is_whole_rows, refusal,
    row_fields, sink_after, sink_start, sink_through, ResultWriter, SinkView, WriteError,
};

verus! {

/// The set of claimed ids after each of `songs` has been claimed in turn,
/// starting from the set `seen`.
pub open spec fn seen_after(seen: Set<usize>, songs: Seq<SongView>) -> Set<usize>
    decreases songs.len(),
{
    if songs.len() == 0 {
        seen
    } else {
        claim(seen_after(seen, songs.drop_last()), songs.last().id).0
    }
}

/// The songs of `songs` whose claim succeeds when each is claimed in turn,
/// starting from the set `seen`: those that are handed out, in the list's
/// order.
pub open spec fn claimed_songs(seen: Set<usize>, songs: Seq<SongView>) -> Seq<SongView>
    decreases songs.len(),
{
    if songs.len() == 0 {
        Seq::empty()
    } else if claim(seen_after(seen, songs.drop_last()), songs.last().id).1 {
        claimed_songs(seen, songs.drop_last()).push(songs.last())
    } else {
        claimed_songs(seen, songs.drop_last())
    }
}

/// How many of `songs` have the id `id`.
pub open spec fn count_id(songs: Seq<SongView>, id: usize) -> nat
    decreases songs.len(),
{
    if songs.len() == 0 {
        0
    } else if songs.last().id == id {
        count_id(songs.drop_last(), id) + 1
    } else {
        count_id(songs.drop_last(), id)
    }
}

/// Whether one of `songs` has the id `id`.
pub open spec fn lists_id(songs: Seq<SongView>, id: usize) -> bool {
    exists|i: int| 0 <= i < songs.len() && (#[trigger] songs[i]).id == id
}

/// Claims each of `songs` in turn and returns those whose claim succeeded,
/// in the list's order: the songs to scan. A song that was claimed before, or
/// that stands earlier in the list, is passed over.
pub fn dispatch(seen: &mut SeenSet, songs: &Vec<Song>) -> (handed_out: Vec<Song>)
    ensures
        final(seen)@ == seen_after(old(seen)@, song_views(songs@)),
        song_views(handed_out@) == claimed_songs(old(seen)@, song_views(songs@)),
{
    let mut handed_out: Vec<Song> = Vec::new();
    let mut index: usize = 0;
    assert(song_views(songs@).take(0) =~= Seq::empty());
    assert(song_views(handed_out@) =~= Seq::empty());
    while index < songs.len()
        invariant
            index <= songs.len(),
            seen@ == seen_after(old(seen)@, song_views(songs@).take(index as int)),
            song_views(handed_out@) == claimed_songs(
                old(seen)@,
                song_views(songs@).take(index as int),
            ),
        decreases songs.len() - index,
    {
        let ghost listed = song_views(songs@);
        assert(listed.take(index + 1).drop_last() == listed.take(index as int));
        assert(listed.take(index + 1).last() == songs@[index as int]@);
        let song = &songs[index];
        if seen.try_claim(song.id) {
            let ghost before = handed_out@;
            handed_out.push(song.clone());
            assert(song_views(handed_out@) =~= song_views(before).push(song@));
        }
        index += 1;
    }
    assert(song_views(songs@).take(songs@.len() as int) == song_views(songs@));
    handed_out
}

/// Claiming a list of songs claims every id that the list holds and frees
/// none.
pub proof fn lemma_seen_after(seen: Set<usize>, songs: Seq<SongView>)
    ensures
        forall|id: usize|
            #[trigger] seen_after(seen, songs).contains(id) <==> seen.contains(id) || lists_id(
                songs,
                id,
            ),
    decreases songs.len(),
{
    if songs.len() > 0 {
        let front = songs.drop_last();
        lemma_seen_after(seen, front);
        assert forall|id: usize|
            #[trigger] seen_after(seen, songs).contains(id) <==> seen.contains(id) || lists_id(
                songs,
                id,
            ) by {
            lemma_lists_id_step(songs, id);
            assert(seen_after(seen, songs) == seen_after(seen, front).insert(songs.last().id));
            assert(seen_after(seen, front).contains(id) <==> seen.contains(id) || lists_id(
                front,
                id,
            ));
        }
    }
}

/// A list holds an id if its last song has it or the songs before do.
proof fn lemma_lists_id_step(songs: Seq<SongView>, id: usize)
    requires
        songs.len() > 0,
    ensures
        lists_id(songs, id) <==> songs.last().id == id || lists_id(songs.drop_last(), id),
{
    let front = songs.drop_last();
    if lists_id(front, id) {
        let i = choose|i: int| 0 <= i < front.len() && (#[trigger] front[i]).id == id;
        assert(songs[i].id == id);
    }
    if songs.last().id == id {
        assert(songs[songs.len() - 1].id == id);
    }
    if lists_id(songs, id) {
        let i = choose|i: int| 0 <= i < songs.len() && (#[trigger] songs[i]).id == id;
        if i < front.len() {
            assert(front[i].id == id);
        }
    }
}

/// Every id is handed out at most once: exactly once if the list holds it and
/// it had not been claimed before, and not at all otherwise.
pub proof fn lemma_each_id_handed_out_once(seen: Set<usize>, songs: Seq<SongView>, id: usize)
    ensures
        count_id(claimed_songs(seen, songs), id) == if !seen.contains(id) && lists_id(songs, id) {
            1nat
        } else {
            0nat
        },
    decreases songs.len(),
{
    if songs.len() > 0 {
        let front = songs.drop_last();
        let last = songs.last();
        lemma_each_id_handed_out_once(seen, front, id);
        lemma_seen_after(seen, front);
        lemma_lists_id_step(songs, id);
        assert(seen_after(seen, front).contains(id) <==> seen.contains(id) || lists_id(front, id));
        assert(seen_after(seen, front).contains(last.id) <==> seen.contains(last.id) || lists_id(
            front,
            last.id,
        ));
        if claim(seen_after(seen, front), last.id).1 {
            let handed = claimed_songs(seen, front).push(last);
            assert(handed.drop_last() == claimed_songs(seen, front));
            assert(handed.last() == last);
        }
    }
}

/// Handing out two lists one after the other, the second with the registry
/// that the first left behind, is handing out the two lists joined. So what
/// holds of one list holds of a whole run over many artists.
pub proof fn lemma_dispatch_in_turn(seen: Set<usize>, first: Seq<SongView>, second: Seq<SongView>)
    ensures
        seen_after(seen, first + second) == seen_after(seen_after(seen, first), second),
        claimed_songs(seen, first + second) == claimed_songs(seen, first) + claimed_songs(
            seen_after(seen, first),
            second,
        ),
    decreases second.len(),
{
    if second.len() == 0 {
        assert(first + second == first);
        assert(claimed_songs(seen, first) + Seq::<SongView>::empty() == claimed_songs(
            seen,
            first,
        ));
    } else {
        let front = second.drop_last();
        lemma_dispatch_in_turn(seen, first, front);
        assert((first + second).drop_last() == first + front);
        assert((first + second).last() == second.last());
        let between = seen_after(seen, first);
        if claim(seen_after(between, front), second.last().id).1 {
            assert((claimed_songs(seen, first) + claimed_songs(between, front)).push(
                second.last(),
            ) == claimed_songs(seen, first) + claimed_songs(between, front).push(second.last()));
        }
    }
}

/// One finished scan: the song, and the lyric blocks of its page.
pub struct ScanView {
    pub song: SongView,
    pub blocks: Seq<Seq<char>>,
}

/// The rows that `scans` give, in the order in which the scans ended: one
/// for each scan that found a hole.
pub open spec fn rows_of(scans: Seq<ScanView>) -> Seq<OutputRecordView>
    decreases scans.len(),
{
    if scans.len() == 0 {
        Seq::empty()
    } else {
        match scan_result(scans.last().song, scans.last().blocks) {
            Some(row) => rows_of(scans.drop_last()).push(row),
            None => rows_of(scans.drop_last()),
        }
    }
}

/// How many of `rows` have the id `id`.
pub open spec fn count_rows(rows: Seq<OutputRecordView>, id: usize) -> nat
    decreases rows.len(),
{
    if rows.len() == 0 {
        0
    } else if rows.last().id == id {
        count_rows(rows.drop_last(), id) + 1
    } else {
        count_rows(rows.drop_last(), id)
    }
}

/// Whether no two of `scans` are of the same song.
pub open spec fn scans_distinct(scans: Seq<ScanView>) -> bool {
    forall|i: int, j: int|
        0 <= i < j < scans.len() ==> (#[trigger] scans[i]).song.id != (#[trigger] scans[j]).song.id
}

/// Whether one of `scans` is of the song `id` and found a hole.
pub open spec fn found_hole(scans: Seq<ScanView>, id: usize) -> bool {
    exists|i: int|
        0 <= i < scans.len() && (#[trigger] scans[i]).song.id == id && any_hole(scans[i].blocks)
}

/// When every song is scanned at most once, then in whatever order the scans
/// end, the output holds exactly one row for each song with a hole in one of
/// its blocks, and none for any other song.
pub proof fn lemma_one_row_per_song_with_hole(scans: Seq<ScanView>, id: usize)
    requires
        scans_distinct(scans),
    ensures
        count_rows(rows_of(scans), id) == if found_hole(scans, id) {
            1nat
        } else {
            0nat
        },
    decreases scans.len(),
{
    if scans.len() > 0 {
        let front = scans.drop_last();
        let last = scans.last();
        assert(scans_distinct(front)) by {
            assert forall|i: int, j: int| 0 <= i < j < front.len() implies (#[trigger] front[i]).song.id
                != (#[trigger] front[j]).song.id by {
                assert(scans[i].song.id != scans[j].song.id);
            }
        }
        lemma_one_row_per_song_with_hole(front, id);
        if found_hole(front, id) {
            let i = choose|i: int|
                0 <= i < front.len() && (#[trigger] front[i]).song.id == id && any_hole(
                    front[i].blocks,
                );
            assert(scans[i].song.id == id && any_hole(scans[i].blocks));
            assert(scans[i].song.id != scans[scans.len() - 1].song.id);
        }
        if found_hole(scans, id) {
            let i = choose|i: int|
                0 <= i < scans.len() && (#[trigger] scans[i]).song.id == id && any_hole(
                    scans[i].blocks,
                );
            if i < front.len() {
                assert(front[i].song.id == id && any_hole(front[i].blocks));
            }
        }
        if last.song.id == id && any_hole(last.blocks) {
            assert(scans[scans.len() - 1].song.id == id);
        }
        match scan_result(last.song, last.blocks) {
            Some(row) => {
                let rows = rows_of(front).push(row);
                assert(rows.drop_last() == rows_of(front));
                assert(rows.last() == row);
            },
            None => {},
        }
    }
}

/// Why the run's account refused a step.
#[derive(Debug, Clone, Copy, PartialEq, Eq)]
pub enum RunError {
    /// The output was asked for while scans were still under way.
    ScansOutstanding,
    /// The end of a scan was reported when none was under way.
    NoScanOutstanding,
    /// A row could not be written, or the output had been handed out before.
    Write(WriteError),
}

/// The state of a run, as mathematical values.
pub struct RunView {
    /// The ids that have been claimed: one scan was handed out for each.
    pub seen: Set<usize>,
    /// The state of the output.
    pub sink: SinkView,
    /// The number of scans that have ended.
    pub finished: nat,
    /// The number of scans that have ended in a failure.
    pub failed: nat,
}

/// The state in which a run starts.
pub open spec fn run_start() -> RunView {
    RunView { seen: Set::empty(), sink: sink_start(), finished: 0, failed: 0 }
}

/// Whether a run's account adds up: no more scans have ended than were handed
/// out, and no more have failed than have ended.
pub open spec fn is_consistent(run: RunView) -> bool {
    &&& run.seen.finite()
    &&& run.failed <= run.finished <= run.seen.len()
}

/// Whether the end `outcome` of a scan brings a row that the output of `run`
/// cannot take.
pub open spec fn row_refused(run: RunView, outcome: Result<Option<OutputRecordView>, ScanError>)
    -> bool {
    outcome matches Ok(Some(row)) && !can_write(run.sink, row)
}

/// The state of `run` after a scan has ended with `outcome`. The scan is
/// counted, as a failure if it is one; its row, if it found a hole, is
/// written. The failure of one scan changes nothing for the others.
pub open spec fn run_after_scan(run: RunView, outcome: Result<Option<OutputRecordView>, ScanError>)
    -> RunView {
    RunView {
        seen: run.seen,
        sink: match outcome {
            Ok(Some(row)) => if can_write(run.sink, row) {
                sink_after(run.sink, row)
            } else {
                run.sink
            },
            _ => run.sink,
        },
        finished: run.finished + 1,
        failed: if outcome is Err {
            run.failed + 1
        } else {
            run.failed
        },
    }
}

/// The account of a run: which songs have been handed out, how many scans
/// have ended, and what has been written.
#[derive(Debug)]
pub struct Coordinator {
    seen: SeenSet,
    writer: ResultWriter,
    finished: usize,
    failed: usize,
}

impl View for Coordinator {
    type V = RunView;

    closed spec fn view(&self) -> RunView {
        RunView {
            seen: self.seen@,
            sink: self.writer@,
            finished: self.finished as nat,
            failed: self.failed as nat,
        }
    }
}

impl Coordinator {
    /// The account adds up at all times.
    #[verifier::type_invariant]
    spec fn adds_up(self) -> bool {
        is_consistent(self@)
    }

    /// Starts a run: nothing claimed, nothing written.
    pub fn new() -> (run: Coordinator)
        ensures
            run@ == run_start(),
    {
        Coordinator { seen: SeenSet::new(), writer: ResultWriter::new(), finished: 0, failed: 0 }
    }

    /// Claims each song of an artist's list and returns the songs to scan,
    /// as [`dispatch`] does. Each of them is a scan under way until its end
    /// is reported with [`Coordinator::complete`].
    pub fn dispatch(&mut self, songs: &Vec<Song>) -> (handed_out: Vec<Song>)
        ensures
            is_consistent(old(self)@),
            is_consistent(final(self)@),
            final(self)@ == (RunView {
                seen: seen_after(old(self)@.seen, song_views(songs@)),
                ..old(self)@
            }),
            song_views(handed_out@) == claimed_songs(old(self)@.seen, song_views(songs@)),
    {
        proof {
            use_type_invariant(&*self);
        }
        let mut run = Coordinator::new();
        std::mem::swap(self, &mut run);
        let Coordinator { mut seen, writer, finished, failed } = run;
        let handed_out = dispatch(&mut seen, songs);
        proof {
            lemma_seen_after(old(self)@.seen, song_views(songs@));
            assert(old(self)@.seen.subset_of(seen@));
        }
        let _ = seen.len();
        proof {
            vstd::set_lib::lemma_len_subset(old(self)@.seen, seen@);
        }
        *self = Coordinator { seen, writer, finished, failed };
        handed_out
    }

    /// The number of scans that have been handed out.
    pub fn handed_out(&self) -> (count: usize)
        ensures
            count == self@.seen.len(),
    {
        self.seen.len()
    }

    /// The number of scans that have ended.
    pub fn finished(&self) -> (count: usize)
        ensures
            count == self@.finished,
            count <= self@.seen.len(),
    {
        proof {
            use_type_invariant(self);
        }
        self.finished
    }

    /// The number of scans that have ended in a failure.
    pub fn failed(&self) -> (count: usize)
        ensures
            count == self@.failed,
            count <= self@.finished,
    {
        proof {
            use_type_invariant(self);
        }
        self.failed
    }

    /// The number of scans under way.
    pub fn outstanding(&self) -> (count: usize)
        ensures
            count == self@.seen.len() - self@.finished,
    {
        proof {
            use_type_invariant(self);
        }
        self.seen.len() - self.finished
    }

    /// Reports the end of a scan. A row that the scan found is written; a
    /// failure of the scan is counted and otherwise passed over.
    ///
    /// Fails with [`RunError::NoScanOutstanding`], and changes nothing, where
    /// no scan is under way. Fails with [`RunError::Write`] where the scan
    /// has a row and the row cannot be written; the scan is counted all the
    /// same.
    pub fn complete(&mut self, outcome: Result<Option<OutputRecord>, ScanError>) -> (reported:
        Result<(), RunError>)
        ensures
            is_consistent(old(self)@),
            is_consistent(final(self)@),
            old(self)@.finished == old(self)@.seen.len() ==> final(self)@ == old(self)@
                && reported == Err::<(), _>(RunError::NoScanOutstanding),
            old(self)@.finished < old(self)@.seen.len() ==> final(self)@ == run_after_scan(
                old(self)@,
                outcome_view(outcome),
            ) && reported == (if row_refused(old(self)@, outcome_view(outcome)) {
                Err::<(), _>(RunError::Write(refusal(old(self)@.sink)))
            } else {
                Ok(())
            }),
    {
        proof {
            use_type_invariant(&*self);
        }
        if self.finished >= self.seen.len() {
            return Err(RunError::NoScanOutstanding);
        }
        let mut run = Coordinator::new();
        std::mem::swap(self, &mut run);
        let Coordinator { seen, mut writer, finished, failed } = run;
        let (reported, failed) = match outcome {
            Ok(Some(record)) => match writer.write(&record) {
                Ok(()) => (Ok(()), failed),
                Err(error) => (Err(RunError::Write(error)), failed),
            },
            Ok(None) => (Ok(()), failed),
            Err(_) => (Ok(()), failed + 1),
        };
        *self = Coordinator { seen, writer, finished: finished + 1, failed };
        reported
    }

    /// Ends the run and hands out the output. This is the barrier of the
    /// run: it opens only when every scan that was handed out has ended, in
    /// success or in failure.
    ///
    /// Fails with [`RunError::ScansOutstanding`], and changes nothing, while
    /// a scan is under way; fails with [`RunError::Write`] where the output
    /// has been handed out before.
    pub fn finish(&mut self) -> (output: Result<Vec<u8>, RunError>)
        ensures
            is_consistent(final(self)@),
            match output {
                Ok(bytes) => {
                    &&& old(self)@.finished == old(self)@.seen.len()
                    &&& !old(self)@.sink.closed
                    &&& bytes@ == old(self)@.sink.pending
                    &&& final(self)@ == (RunView {
                        sink: SinkView {
                            pending: Seq::empty(),
                            started: old(self)@.sink.started,
                            closed: true,
                        },
                        ..old(self)@
                    })
                },
                Err(error) => {
                    &&& final(self)@ == old(self)@
                    &&& error == if old(self)@.finished < old(self)@.seen.len() {
                        RunError::ScansOutstanding
                    } else {
                        RunError::Write(WriteError::Closed)
                    }
                    &&& old(self)@.finished < old(self)@.seen.len() || old(self)@.sink.closed
                },
            },
    {
        proof {
            use_type_invariant(&*self);
        }
        if self.finished < self.seen.len() {
            return Err(RunError::ScansOutstanding);
        }
        if self.writer.is_closed() {
            return Err(RunError::Write(WriteError::Closed));
        }
        let mut run = Coordinator::new();
        std::mem::swap(self, &mut run);
        let Coordinator { seen, mut writer, finished, failed } = run;
        let flushed = writer.flush();
        *self = Coordinator { seen, writer, finished, failed };
        match flushed {
            Ok(bytes) => Ok(bytes),
            Err(_) => Err(RunError::Write(WriteError::Closed)),
        }
    }
}

/// The state of `run` after `scans` have ended, one after the other, each
/// with what its blocks give.
pub open spec fn run_through(run: RunView, scans: Seq<ScanView>) -> RunView
    decreases scans.len(),
{
    if scans.len() == 0 {
        run
    } else {
        run_after_scan(
            run_through(run, scans.drop_last()),
            Ok(scan_result(scans.last().song, scans.last().blocks)),
        )
    }
}

/// A run that has written nothing yet, and through which `scans` end in
/// whatever order, holds exactly the output for the rows of those scans: the
/// header and one row for each scan that found a hole, or nothing at all if
/// none did. Every scan is counted, none as a failure, and the claims are
/// left as they were.
pub proof fn lemma_run_output(run: RunView, scans: Seq<ScanView>)
    requires
        run.sink == sink_start(),
        all_encodable(rows_of(scans)),
    ensures
        run_through(run, scans).sink == sink_through(sink_start(), rows_of(scans)),
        run_through(run, scans).sink.pending == document(rows_of(scans)),
        run_through(run, scans).finished == run.finished + scans.len(),
        run_through(run, scans).failed == run.failed,
        run_through(run, scans).seen == run.seen,
    decreases scans.len(),
{
    if scans.len() > 0 {
        let front = scans.drop_last();
        let last = scans.last();
        match scan_result(last.song, last.blocks) {
            Some(row) => {
                let rows = rows_of(scans);
                assert(rows.drop_last() == rows_of(front));
                assert(rows.last() == row);
                assert(all_encodable(rows_of(front))) by {
                    assert forall|i: int| 0 <= i < rows_of(front).len() implies csv_record(
                        row_fields(#[trigger] rows_of(front)[i]),
                    ) is Some by {
                        assert(rows_of(front)[i] == rows[i]);
                    }
                }
                lemma_run_output(run, front);
                lemma_output_is_whole_rows(rows);
                assert(rows.take(rows.len() - 1) == rows_of(front));
                assert(can_write(sink_through(sink_start(), rows_of(front)), rows[rows.len() - 1]));
            },
            None => {
                lemma_run_output(run, front);
            },
        }
    }
    lemma_output_is_whole_rows(rows_of(scans));
}

} // verus!
