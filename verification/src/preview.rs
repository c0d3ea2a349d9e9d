//! The bounded, ragged-row-tolerant CSV preview: a header row and at most
//! a fixed number of data rows, read through the `csv` crate's tokenizer.

use vstd::prelude::*;

verus! {

/// How many data rows a preview holds at most.
pub const MAX_DATA_ROWS: usize = 10;

/// How many rows a preview holds at most: the header plus the data rows.
pub const MAX_PREVIEW_ROWS: usize = MAX_DATA_ROWS + 1;

/// The preview returned for one file: its size in bytes, its header
/// columns, and the header followed by the sampled data rows.
#[derive(Debug, PartialEq, Eq)]
pub struct CsvPreview {
    pub file_size: u64,
    pub fields: Vec<String>,
    pub lines: Vec<Vec<String>>,
}

impl CsvPreview {
    /// A preview always repeats the header as its first line and never
    /// holds more lines than the header plus the data-row bound.
    pub open spec fn wf(self) -> bool {
        &&& 1 <= self.lines@.len() <= MAX_PREVIEW_ROWS
        &&& self.lines.deep_view()[0] == self.fields.deep_view()
    }
}

/// Why a preview could not be built from the bytes handed in.
#[derive(Debug, PartialEq, Eq)]
pub enum PreviewError {
    /// The input holds no record at all, so there is no header row.
    MissingHeader,
    /// The tokenizer rejected a record; the text is its report.
    Malformed(String),
}

/// What the `csv` crate's tokenizer makes of a byte buffer: the first
/// `limit` records (fewer when the buffer has fewer), each a sequence of
/// fields, under the given field delimiter, with flexible record widths
/// and no header treatment; or the report of the first rejected record
/// among those read.
pub uninterp spec fn csv_prefix(bytes: Seq<u8>, delim: u8, limit: int) -> Result<
    Seq<Seq<Seq<char>>>,
    Seq<char>,
>;

/// The mathematical content of a parse outcome: the rows' characters on
/// success, the report's characters on failure.
pub open spec fn parsed_view(r: Result<Vec<Vec<String>>, String>) -> Result<
    Seq<Seq<Seq<char>>>,
    Seq<char>,
> {
    match r {
        Ok(rows) => Ok(rows.deep_view()),
        Err(e) => Err(e@),
    }
}

/// Relies on `csv::ReaderBuilder` and `csv::Reader::records`: reading
/// from a byte slice with the given field delimiter, flexible record
/// widths and header treatment off, the record iterator yields every
/// record of the buffer in order, so its first `limit` items are the
/// buffer's first `limit` records; a record that cannot be decoded makes
/// the iterator yield the error instead.
#[verifier::external_body]
fn parse_prefix(bytes: &Vec<u8>, delim: u8, limit: usize) -> (r: Result<Vec<Vec<String>>, String>)
    ensures
        parsed_view(r) == csv_prefix(bytes@, delim, limit as int),
        r matches Ok(rows) ==> rows@.len() <= limit,
{
    let mut rdr = csv::ReaderBuilder::new()
        .delimiter(delim)
        .flexible(true)
        .has_headers(false)
        .from_reader(bytes.as_slice());
    let mut rows: Vec<Vec<String>> = Vec::new();
    for rec in rdr.records().take(limit) {
        match rec {
            Ok(r) => rows.push(r.iter().map(|f| f.to_string()).collect()),
            Err(e) => return Err(e.to_string()),
        }
    }
    Ok(rows)
}

/// The rows a preview keeps out of the parsed ones: all of them, up to
/// the header plus the data-row bound.
pub open spec fn spec_preview_rows(rows: Seq<Seq<Seq<char>>>) -> Seq<Seq<Seq<char>>> {
    if rows.len() <= MAX_PREVIEW_ROWS {
        rows
    } else {
        rows.take(MAX_PREVIEW_ROWS as int)
    }
}

/// Copies one row of fields.
fn clone_row(row: &Vec<String>) -> (r: Vec<String>)
    ensures
        r@ == row@,
{
    let r = row.clone();
    proof {
        assert forall|i: int| 0 <= i < row@.len() implies r@[i] == row@[i] by {
            assert(cloned::<String>(row@[i], r@[i]));
        }
        assert(r@ =~= row@);
    }
    r
}

/// Assembles a preview out of the parsed records: the first record is the
/// header, repeated as the first line; at most [`MAX_DATA_ROWS`] further
/// records follow it, in file order and verbatim, whatever their widths;
/// an input with no record at all has no header row and is rejected.
pub fn build_preview(rows: Vec<Vec<String>>, file_size: u64) -> (r: Result<
    CsvPreview,
    PreviewError,
>)
    ensures
        rows@.len() == 0 ==> (r matches Err(e) && e is MissingHeader),
        rows@.len() > 0 ==> (r matches Ok(p) && p.wf() && p.file_size == file_size
            && p.fields.deep_view() == rows.deep_view()[0] && p.lines.deep_view()
            == spec_preview_rows(rows.deep_view())),
{
    if rows.len() == 0 {
        return Err(PreviewError::MissingHeader);
    }
    let ghost orig = rows.deep_view();
    let mut lines = rows;
    lines.truncate(MAX_PREVIEW_ROWS);
    proof {
        assert(lines.deep_view() =~= spec_preview_rows(orig));
    }
    let fields = clone_row(&lines[0]);
    proof {
        assert(fields.deep_view() =~= lines.deep_view()[0]);
    }
    Ok(CsvPreview { file_size, fields, lines })
}

/// Builds the preview of a file's bytes under the given delimiter: the
/// parsed header, at most [`MAX_DATA_ROWS`] data rows after it, and the
/// reported file size. The bytes are tokenized by the `csv` crate; what
/// that tokenizer hands back is kept verbatim, short rows and long rows
/// included, and only its error report or a missing header row makes the
/// preview fail.
pub fn preview_from_bytes(bytes: &Vec<u8>, file_size: u64, delim: u8) -> (r: Result<
    CsvPreview,
    PreviewError,
>)
    ensures
        csv_prefix(bytes@, delim, MAX_PREVIEW_ROWS as int) matches Err(m) ==> (r matches Err(e)
            && e matches PreviewError::Malformed(t) && t@ == m),
        csv_prefix(bytes@, delim, MAX_PREVIEW_ROWS as int) matches Ok(rows) ==> {
            &&& rows.len() == 0 ==> (r matches Err(e) && e is MissingHeader)
            &&& rows.len() > 0 ==> (r matches Ok(p) && p.wf() && p.file_size == file_size
                && p.fields.deep_view() == rows[0] && p.lines.deep_view() == spec_preview_rows(
                rows,
            ))
        },
{
    match parse_prefix(bytes, delim, MAX_PREVIEW_ROWS) {
        Err(msg) => Err(PreviewError::Malformed(msg)),
        Ok(rows) => build_preview(rows, file_size),
    }
}

/// The lines a preview keeps always repeat the header first, and their
/// number is one more than the sampled data rows: all of them when the
/// parse gave fewer than the bound, the bound otherwise.
pub proof fn lemma_preview_line_count(rows: Seq<Seq<Seq<char>>>)
    requires
        rows.len() > 0,
    ensures
        spec_preview_rows(rows)[0] == rows[0],
        spec_preview_rows(rows).len() == 1 + if rows.len() - 1 <= MAX_DATA_ROWS {
            rows.len() - 1
        } else {
            MAX_DATA_ROWS as int
        },
{
}

} // verus!
