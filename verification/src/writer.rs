//! The writer of the output rows.
//!
//! Many scans end at about the same time, and each of them may have a row to
//! write. The writer takes one row with each call and appends it whole, so
//! that no row is ever split or mixed with another. It is borrowed
//! exclusively for a call: a caller that shares it does so behind a lock.
//! The rows are kept until [`ResultWriter::flush`] hands them out, once.

use vstd::prelude::*;

use crate::decimal::{decimal, decimal_string};
use crate::output_record::{OutputRecord, OutputRecordView};
use crate::text::texts_of;

verus! {

/// Why a row could not be written.
#[derive(Debug, Clone, Copy, PartialEq, Eq)]
pub enum WriteError {
    /// The row could not be rendered.
    Encode,
    /// The writer has been flushed and takes no further row.
    Closed,
    /// The sink behind the writer failed. The caller reports this one: the
    /// library itself writes to no sink.
    Io,
}

/// The bytes of the CSV record with the fields `fields`, terminator
/// included, as a writer with the default settings renders it as the first
/// record of its output; `None` where it renders none.
pub uninterp spec fn csv_record(fields: Seq<Seq<char>>) -> Option<Seq<u8>>;

/// The error of the `csv` crate, `csv::Error`. Nothing is read from it: a
/// rendering that fails is reported as [`WriteError::Encode`].
#[verifier::external_type_specification]
#[verifier::external_body]
pub struct ExCsvError(csv::Error);

/// Renders one record with a fresh `csv::Writer` over a byte vector:
/// `csv::Writer::from_writer`, `csv::Writer::write_record` and
/// `csv::Writer::into_inner`.
///
/// Trusted: the bytes are [`csv_record`] of the fields' texts, and the call
/// fails exactly where that is `None`. The rendering depends on nothing but
/// the fields.
#[verifier::external_body]
fn encode_record(fields: &Vec<String>) -> (encoded: Result<Vec<u8>, csv::Error>)
    ensures
        match encoded {
            Ok(bytes) => csv_record(texts_of(fields@)) == Some(bytes@),
            Err(_) => csv_record(texts_of(fields@)) is None,
        },
{
    let mut writer = csv::Writer::from_writer(Vec::new());
    writer.write_record(fields)?;
    match writer.into_inner() {
        Ok(bytes) => Ok(bytes),
        Err(error) => Err(csv::Error::from(error.into_error())),
    }
}

/// The fields of the header row.
pub open spec fn header_fields() -> Seq<Seq<char>> {
    seq!["PrimaryArtist"@, "Title"@, "Id"@]
}

/// The fields of the row for `record`: the artist, the title, and the id in
/// decimal notation.
pub open spec fn row_fields(record: OutputRecordView) -> Seq<Seq<char>> {
    seq![record.primary_artist, record.title, decimal(record.id as nat)]
}

/// The state of a writer, as mathematical values.
pub struct SinkView {
    /// The bytes written and not yet handed out.
    pub pending: Seq<u8>,
    /// Whether the header row has been written.
    pub started: bool,
    /// Whether the writer has been flushed.
    pub closed: bool,
}

/// The state of a new writer.
pub open spec fn sink_start() -> SinkView {
    SinkView { pending: Seq::empty(), started: false, closed: false }
}

/// Whether a writer in state `sink` can take `record`: it is open, the
/// record can be rendered, and so can the header if it is still due.
pub open spec fn can_write(sink: SinkView, record: OutputRecordView) -> bool {
    &&& !sink.closed
    &&& csv_record(row_fields(record)) is Some
    &&& !sink.started ==> csv_record(header_fields()) is Some
}

/// The bytes that writing `record` appends: the header row if it is still
/// due, then the record's row.
pub open spec fn written_bytes(sink: SinkView, record: OutputRecordView) -> Seq<u8> {
    if sink.started {
        csv_record(row_fields(record))->0
    } else {
        csv_record(header_fields())->0 + csv_record(row_fields(record))->0
    }
}

/// The state after `record` has been written to a writer in state `sink`
/// that can take it.
pub open spec fn sink_after(sink: SinkView, record: OutputRecordView) -> SinkView {
    SinkView {
        pending: sink.pending + written_bytes(sink, record),
        started: true,
        closed: false,
    }
}

/// The error with which a writer in state `sink` refuses a record that it
/// cannot take.
pub open spec fn refusal(sink: SinkView) -> WriteError {
    if sink.closed {
        WriteError::Closed
    } else {
        WriteError::Encode
    }
}

/// The writer of the output rows.
#[derive(Debug)]
pub struct ResultWriter {
    pending: Vec<u8>,
    started: bool,
    closed: bool,
}

impl View for ResultWriter {
    type V = SinkView;

    closed spec fn view(&self) -> SinkView {
        SinkView { pending: self.pending@, started: self.started, closed: self.closed }
    }
}

impl ResultWriter {
    /// Creates a writer that has written nothing.
    pub fn new() -> (writer: ResultWriter)
        ensures
            writer@ == sink_start(),
    {
        ResultWriter { pending: Vec::new(), started: false, closed: false }
    }

    /// Writes one row. The first row is preceded by the header row. The
    /// bytes are appended in one piece, behind all that was written before.
    ///
    /// Fails, and leaves the writer as it was, where the writer has been
    /// flushed or the row cannot be rendered.
    pub fn write(&mut self, record: &OutputRecord) -> (written: Result<(), WriteError>)
        ensures
            (written is Ok) == can_write(old(self)@, record@),
            match written {
                Ok(_) => final(self)@ == sink_after(old(self)@, record@),
                Err(error) => final(self)@ == old(self)@ && error == refusal(old(self)@),
            },
    {
        if self.closed {
            return Err(WriteError::Closed);
        }
        let mut fields: Vec<String> = Vec::new();
        fields.push(record.primary_artist.clone());
        fields.push(record.title.clone());
        fields.push(decimal_string(record.id as u64));
        assert(texts_of(fields@) =~= row_fields(record@));
        let mut row = match encode_record(&fields) {
            Ok(bytes) => bytes,
            Err(_) => return Err(WriteError::Encode),
        };
        if !self.started {
            let mut header = match encode_header() {
                Ok(bytes) => bytes,
                Err(_) => return Err(WriteError::Encode),
            };
            self.pending.append(&mut header);
        }
        self.pending.append(&mut row);
        self.started = true;
        assert(final(self)@.pending =~= sink_after(old(self)@, record@).pending);
        Ok(())
    }

    /// Whether the header row has been written.
    pub fn has_started(&self) -> (started: bool)
        ensures
            started == self@.started,
    {
        self.started
    }

    /// Whether the writer has been flushed.
    pub fn is_closed(&self) -> (closed: bool)
        ensures
            closed == self@.closed,
    {
        self.closed
    }

    /// Hands out all that was written and closes the writer. It is to be
    /// called once, when no row is outstanding: a second call fails with
    /// [`WriteError::Closed`], as does every write that follows.
    pub fn flush(&mut self) -> (flushed: Result<Vec<u8>, WriteError>)
        ensures
            match flushed {
                Ok(bytes) => !old(self)@.closed && bytes@ == old(self)@.pending && final(self)@
                    == (SinkView {
                    pending: Seq::empty(),
                    started: old(self)@.started,
                    closed: true,
                }),
                Err(error) => old(self)@.closed && error == WriteError::Closed && final(self)@
                    == old(self)@,
            },
    {
        if self.closed {
            return Err(WriteError::Closed);
        }
        let mut bytes: Vec<u8> = Vec::new();
        std::mem::swap(&mut self.pending, &mut bytes);
        self.closed = true;
        Ok(bytes)
    }
}

/// Renders the header row.
fn encode_header() -> (encoded: Result<Vec<u8>, csv::Error>)
    ensures
        match encoded {
            Ok(bytes) => csv_record(header_fields()) == Some(bytes@),
            Err(_) => csv_record(header_fields()) is None,
        },
{
    let mut fields: Vec<String> = Vec::new();
    fields.push("PrimaryArtist".to_string());
    fields.push("Title".to_string());
    fields.push("Id".to_string());
    assert(texts_of(fields@) =~= header_fields());
    encode_record(&fields)
}

/// The state after `records` have been written to a writer in state `sink`,
/// one after the other.
pub open spec fn sink_through(sink: SinkView, records: Seq<OutputRecordView>) -> SinkView
    decreases records.len(),
{
    if records.len() == 0 {
        sink
    } else {
        sink_after(sink_through(sink, records.drop_last()), records.last())
    }
}

/// The rows of `records`, joined in order.
pub open spec fn rows_bytes(records: Seq<OutputRecordView>) -> Seq<u8>
    decreases records.len(),
{
    if records.len() == 0 {
        Seq::empty()
    } else {
        rows_bytes(records.drop_last()) + csv_record(row_fields(records.last()))->0
    }
}

/// The output for `records`: nothing where there is no record, and else the
/// header row followed by one row for each record, in order.
pub open spec fn document(records: Seq<OutputRecordView>) -> Seq<u8> {
    if records.len() == 0 {
        Seq::empty()
    } else {
        csv_record(header_fields())->0 + rows_bytes(records)
    }
}

/// Whether the header and each of `records` can be rendered.
pub open spec fn all_encodable(records: Seq<OutputRecordView>) -> bool {
    &&& csv_record(header_fields()) is Some
    &&& forall|i: int|
        0 <= i < records.len() ==> csv_record(row_fields(#[trigger] records[i])) is Some
}

/// Writing any number of records to a new writer, in whatever order they
/// arrive, leaves exactly the output for them: one header row, then one whole
/// row for each record, in the order of the calls. Every one of the writes
/// succeeds.
pub proof fn lemma_output_is_whole_rows(records: Seq<OutputRecordView>)
    requires
        all_encodable(records),
    ensures
        sink_through(sink_start(), records).pending == document(records),
        sink_through(sink_start(), records).started == (records.len() > 0),
        !sink_through(sink_start(), records).closed,
        forall|k: int|
            0 <= k < records.len() ==> can_write(
                #[trigger] sink_through(sink_start(), records.take(k)),
                records[k],
            ),
    decreases records.len(),
{
    if records.len() > 0 {
        let front = records.drop_last();
        lemma_output_is_whole_rows(front);
        let before = sink_through(sink_start(), front);
        let row = csv_record(row_fields(records.last()))->0;
        if front.len() == 0 {
            assert(rows_bytes(front) == Seq::<u8>::empty());
            assert(rows_bytes(records) == Seq::<u8>::empty() + row);
            assert(rows_bytes(records) == row);
            assert(Seq::<u8>::empty() + (csv_record(header_fields())->0 + row) == document(
                records,
            ));
        } else {
            assert(csv_record(header_fields())->0 + rows_bytes(front) + row == document(records));
        }
        assert forall|k: int| 0 <= k < records.len() implies can_write(
            #[trigger] sink_through(sink_start(), records.take(k)),
            records[k],
        ) by {
            if k < front.len() {
                assert(records.take(k) == front.take(k));
                assert(records[k] == front[k]);
            } else {
                assert(records.take(k) == front);
            }
        }
    }
}

} // verus!
