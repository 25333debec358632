//! The two source readers: UTF-16LE exports and UTF-8 comment files,
//! decoded, parsed as tolerant CSV, and turned into record tables.

use std::io::Read;
use vstd::prelude::*;
use crate::record::{collect_records, outcome_of, row_outcomes, table_of, RowOutcome, RECORD_WIDTH};

verus! {

/// The UTF-8 text that a UTF-16LE byte stream decodes to, or `None` where
/// reading the decoded stream reports an error.
pub uninterp spec fn utf16le_decoding(bytes: Seq<u8>) -> Option<Seq<u8>>;

/// The records of a CSV text after its header line, each as its fields, or
/// `None` where a record could not be read.
pub uninterp spec fn csv_rows(text: Seq<u8>) -> Seq<Option<Seq<Seq<char>>>>;

/// Relies on encoding_rs_io::DecodeReaderBytesBuilder with the explicit
/// encoding encoding_rs::UTF_16LE: the whole stream is reframed as UTF-8,
/// and the outcome depends on the bytes alone.
#[verifier::external_body]
fn decode_utf16le(bytes: &Vec<u8>) -> (r: Option<Vec<u8>>)
    ensures
        r.deep_view() == utf16le_decoding(bytes@),
{
    let mut out = Vec::new();
    let mut rdr = encoding_rs_io::DecodeReaderBytesBuilder::new()
        .encoding(Some(encoding_rs::UTF_16LE))
        .build(bytes.as_slice());
    match rdr.read_to_end(&mut out) {
        Ok(_) => Some(out),
        Err(_) => None,
    }
}

/// Relies on csv::ReaderBuilder with `flexible(true)` and its `records`
/// iterator: the first line is the header, every later record is handed out
/// in order, as its fields or as an error; the outcome depends on the bytes
/// alone.
#[verifier::external_body]
fn parse_csv_rows(text: &Vec<u8>) -> (r: Vec<Option<Vec<String>>>)
    ensures
        r.deep_view() == csv_rows(text@),
{
    let mut rdr = csv::ReaderBuilder::new().flexible(true).from_reader(text.as_slice());
    rdr.records().map(|rec| rec.ok().map(|fields| fields.iter().map(|f| f.to_string()).collect())).collect()
}

/// The record table of a UTF-16LE source.
pub open spec fn utf16le_table(data: Seq<u8>, addr_index: int, comment_index: int) -> Seq<Seq<u8>> {
    match utf16le_decoding(data) {
        Some(text) => table_of(csv_rows(text), addr_index, comment_index),
        None => Seq::empty(),
    }
}

/// The record table of a UTF-8 source.
pub open spec fn utf8_table(data: Seq<u8>, addr_index: int, comment_index: int) -> Seq<Seq<u8>> {
    table_of(csv_rows(data), addr_index, comment_index)
}

/// The records of a UTF-16LE CSV export, given its raw bytes and the
/// zero-based address and comment columns.
pub fn get_screenwroks_comments(data: &Vec<u8>, addr_index: usize, comment_index: usize) -> (r: Vec<
    Vec<u8>,
>)
    ensures
        r.deep_view() == utf16le_table(data@, addr_index as int, comment_index as int),
        forall|k: int| 0 <= k < r.len() ==> #[trigger] r[k]@.len() == RECORD_WIDTH,
{
    match decode_utf16le(data) {
        Some(text) => {
            assert(text.deep_view() =~= text@);
            let rows = parse_csv_rows(&text);
            collect_records(&rows, addr_index, comment_index)
        },
        None => {
            let empty: Vec<Vec<u8>> = Vec::new();
            assert(empty.deep_view() =~= Seq::<Seq<u8>>::empty());
            empty
        },
    }
}

/// The records of a UTF-8 (or ASCII) CSV comment file, given its raw bytes
/// and the zero-based address and comment columns.
pub fn get_toyopuc_comments(data: &Vec<u8>, addr_index: usize, comment_index: usize) -> (r: Vec<
    Vec<u8>,
>)
    ensures
        r.deep_view() == utf8_table(data@, addr_index as int, comment_index as int),
        forall|k: int| 0 <= k < r.len() ==> #[trigger] r[k]@.len() == RECORD_WIDTH,
{
    let rows = parse_csv_rows(data);
    collect_records(&rows, addr_index, comment_index)
}

/// The parsed rows of a UTF-16LE source (none where it cannot be decoded).
pub open spec fn utf16le_rows(data: Seq<u8>) -> Seq<Option<Seq<Seq<char>>>> {
    match utf16le_decoding(data) {
        Some(text) => csv_rows(text),
        None => Seq::empty(),
    }
}

/// What became of each row of a UTF-16LE CSV export, in row order.
pub fn get_screenwroks_outcomes(data: &Vec<u8>, addr_index: usize, comment_index: usize) -> (r: Vec<
    RowOutcome,
>)
    ensures
        r.len() == utf16le_rows(data@).len(),
        forall|i: int|
            0 <= i < r.len() ==> #[trigger] r[i].spec_outcome() == outcome_of(
                utf16le_rows(data@)[i],
                addr_index as int,
                comment_index as int,
            ),
{
    match decode_utf16le(data) {
        Some(text) => {
            assert(text.deep_view() =~= text@);
            let rows = parse_csv_rows(&text);
            row_outcomes(&rows, addr_index, comment_index)
        },
        None => Vec::new(),
    }
}

/// What became of each row of a UTF-8 (or ASCII) CSV comment file, in row
/// order.
pub fn get_toyopuc_outcomes(data: &Vec<u8>, addr_index: usize, comment_index: usize) -> (r: Vec<
    RowOutcome,
>)
    ensures
        r.len() == csv_rows(data@).len(),
        forall|i: int|
            0 <= i < r.len() ==> #[trigger] r[i].spec_outcome() == outcome_of(
                csv_rows(data@)[i],
                addr_index as int,
                comment_index as int,
            ),
{
    let rows = parse_csv_rows(data);
    row_outcomes(&rows, addr_index, comment_index)
}

/// How many comments a source gave, as the report distinguishes them.
#[derive(Debug, Clone, Copy, PartialEq, Eq, Structural)]
pub enum CommentCount {
    NoComments,
    One,
    Many(usize),
}

/// The report class of a count of records.
pub fn comment_count(n: usize) -> (r: CommentCount)
    ensures
        n == 0 ==> r == CommentCount::NoComments,
        n == 1 ==> r == CommentCount::One,
        n > 1 ==> r == CommentCount::Many(n),
{
    if n > 1 {
        CommentCount::Many(n)
    } else if n == 1 {
        CommentCount::One
    } else {
        CommentCount::NoComments
    }
}

} // verus!
