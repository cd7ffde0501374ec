//! The table of a series as comma-separated text, encoded by the `csv` crate.

use vstd::prelude::*;
use crate::export::{export_rows, header, rows_of};

verus! {

/// A `csv::Writer` of the default configuration that writes into a byte
/// vector of its own. The writer's type is bounded by `std::io::Write`, which
/// Verus does not take in a declaration, so the writer is kept opaque in here.
#[verifier::external_body]
pub struct CsvBuffer {
    writer: csv::Writer<Vec<u8>>,
}

/// `csv::Error`, the error of the encoder; nothing is known of its inside.
#[verifier::external_type_specification]
#[verifier::external_body]
pub struct ExCsvError(csv::Error);

/// The records that were written to a writer, each a sequence of fields.
pub uninterp spec fn written(buffer: CsvBuffer) -> Seq<Seq<Seq<u8>>>;

/// The text that a writer of the default configuration makes of records.
pub uninterp spec fn csv_text(records: Seq<Seq<Seq<u8>>>) -> Seq<u8>;

/// `csv::Writer::from_writer` on an empty byte vector: a writer of the default
/// configuration, to which nothing was written yet.
#[verifier::external_body]
fn new_buffer() -> (buffer: CsvBuffer)
    ensures
        written(buffer) == Seq::<Seq<Seq<u8>>>::empty(),
{
    CsvBuffer { writer: csv::Writer::from_writer(Vec::new()) }
}

/// `csv::Writer::write_record` with a record of two fields. A writer of the
/// default configuration refuses a record only where it has another number of
/// fields than the first record written; writing into a byte vector does not
/// fail. Where the record is taken, the writer comes back with the record as
/// the last of those written; where it is refused, the writer is given up.
#[verifier::external_body]
fn write_row(buffer: CsvBuffer, day: &Vec<u8>, value: &Vec<u8>) -> (out: Result<CsvBuffer, csv::Error>)
    ensures
        out is Ok <==> (written(buffer).len() == 0 || written(buffer)[0].len() == 2),
        out matches Ok(after) ==> written(after) == written(buffer).push(seq![day@, value@]),
{
    let mut buffer = buffer;
    match buffer.writer.write_record([day, value]) {
        Ok(()) => Ok(buffer),
        Err(e) => Err(e),
    }
}

/// `csv::Writer::into_inner`: flushes the writer and hands out the byte
/// vector. Flushing into a byte vector does not fail, so the vector always
/// comes back, and it holds the text of the records written.
#[verifier::external_body]
fn finish_buffer(buffer: CsvBuffer) -> (out: Result<Vec<u8>, csv::Error>)
    ensures
        out is Ok,
        out matches Ok(bytes) ==> bytes@ == csv_text(written(buffer)),
{
    match buffer.writer.into_inner() {
        Ok(bytes) => Ok(bytes),
        Err(e) => Err(csv::Error::from(e.into_error())),
    }
}

/// Why a table could not be rendered.
#[derive(Clone, Copy, Debug, PartialEq, Eq, Structural)]
pub enum ExportError {
    /// The encoder refused a record. The records of a table all have two
    /// fields, so no series leads here.
    Encoding,
}

/// The records of a table: the heading, then the rows of the series.
pub open spec fn table_of(s: Seq<i64>) -> Seq<Seq<Seq<u8>>> {
    seq![seq![seq![68u8, 97u8, 121u8], seq![86u8, 97u8, 108u8, 117u8, 101u8]]] + Seq::new(
        s.len(),
        |i: int| seq![rows_of(s)[i].0, rows_of(s)[i].1],
    )
}

/// Renders a series as comma-separated text: the heading "Day", "Value" and
/// one record for each observation, holding its day and its value with two
/// decimals.
///
/// The records go to the writer in this order. Every record has two fields,
/// so the writer takes them all: the call succeeds for every series, and
/// returns the writer's text of these records.
pub fn export_csv(series: &[i64]) -> (out: Result<Vec<u8>, ExportError>)
    ensures
        out is Ok,
        out matches Ok(bytes) ==> bytes@ == csv_text(table_of(series@)),
{
    let ghost table = table_of(series@);
    let rows = export_rows(series);
    assert(rows@.len() == rows.deep_view().len());
    let head = header();
    assert(table[0] == seq![head.day@, head.value@]);
    let mut buffer = match write_row(new_buffer(), &head.day, &head.value) {
        Ok(after) => after,
        Err(_) => {
            return Err(ExportError::Encoding);
        },
    };
    assert(table.take(1) =~= Seq::<Seq<Seq<u8>>>::empty().push(table[0]));
    let mut i: usize = 0;
    while i < rows.len()
        invariant
            i <= rows@.len(),
            table == table_of(series@),
            rows.deep_view() == rows_of(series@),
            rows@.len() == series@.len(),
            written(buffer) == table.take(i + 1),
        decreases rows@.len() - i,
    {
        assert(rows.deep_view()[i as int] == rows@[i as int].deep_view());
        assert(table[i + 1] == seq![rows@[i as int].day@, rows@[i as int].value@]);
        assert(table.take(i + 1)[0] == table[0]);
        buffer = match write_row(buffer, &rows[i].day, &rows[i].value) {
            Ok(after) => after,
            Err(_) => {
                return Err(ExportError::Encoding);
            },
        };
        assert(table.take(i + 2) =~= table.take(i + 1).push(table[i + 1]));
        i += 1;
    }
    assert(table.take(i + 1) =~= table);
    match finish_buffer(buffer) {
        Ok(bytes) => Ok(bytes),
        Err(_) => Err(ExportError::Encoding),
    }
}

} // verus!
