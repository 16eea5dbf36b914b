//! The counting side of CSV analysis: which rows were read, which cells
//! are missing in each column, and the warnings for rows that could not be
//! read. The numeric statistics over the parsed cells are floating point
//! and are computed by the caller.

use vstd::prelude::*;
use crate::error::{ErrorKind, ObError, err_of};
use crate::text::{append_text, chars_of, concat, decimal, owned, string_of, trim_chars, trimmed, views_of};

verus! {

/// The counts gathered over the rows of a CSV file.
pub struct CsvTally {
    /// Rows that were read.
    pub row_count: u64,
    /// Per column: read rows whose cell is absent or blank.
    pub missing: Vec<u64>,
    /// One message per row that could not be read.
    pub warnings: Vec<String>,
}

/// A file whose header row names no column cannot be analysed.
pub fn check_headers(headers: &Vec<String>) -> (r: Result<(), ObError>)
    ensures
        r is Ok <==> headers@.len() > 0,
        r matches Err(e) ==> e@ == err_of(ErrorKind::Validation, "CSV has no columns"@),
{
    if headers.len() == 0 {
        Err(ObError::Validation(owned("CSV has no columns")))
    } else {
        Ok(())
    }
}

/// The cell of column `c` is absent from the row or blank once trimmed.
pub open spec fn cell_missing(fields: Seq<String>, c: int) -> bool {
    c >= fields.len() || trimmed(fields[c]@).len() == 0
}

/// The number of rows that were read.
pub open spec fn rows_read(rows: Seq<Result<Vec<String>, String>>) -> nat
    decreases rows.len(),
{
    if rows.len() == 0 {
        0
    } else {
        rows_read(rows.drop_last()) + if rows.last() is Ok {
            1nat
        } else {
            0nat
        }
    }
}

/// The number of read rows whose cell of column `c` is missing.
pub open spec fn missing_in(rows: Seq<Result<Vec<String>, String>>, c: int) -> nat
    decreases rows.len(),
{
    if rows.len() == 0 {
        0
    } else {
        missing_in(rows.drop_last(), c) + if rows.last() matches Ok(f) && cell_missing(f@, c) {
            1nat
        } else {
            0nat
        }
    }
}

/// The warning for the row at `index` (counted from zero, after the header
/// row): the line number in the file, then the reason.
pub open spec fn row_warning(index: nat, reason: Seq<char>) -> Seq<char> {
    "Row "@ + decimal(index + 2) + ": "@ + reason
}

/// The warnings for the rows that could not be read, in order.
pub open spec fn row_warnings(rows: Seq<Result<Vec<String>, String>>) -> Seq<Seq<char>>
    decreases rows.len(),
{
    if rows.len() == 0 {
        Seq::empty()
    } else {
        match rows.last() {
            Ok(_) => row_warnings(rows.drop_last()),
            Err(m) => row_warnings(rows.drop_last()).push(row_warning((rows.len() - 1) as nat, m@)),
        }
    }
}

proof fn lemma_rows_read_bound(rows: Seq<Result<Vec<String>, String>>)
    ensures
        rows_read(rows) <= rows.len(),
    decreases rows.len(),
{
    if rows.len() > 0 {
        lemma_rows_read_bound(rows.drop_last());
    }
}

/// No column has more missing cells than there are rows read, and no more
/// rows are read than there are rows.
pub proof fn law_missing_within_rows(rows: Seq<Result<Vec<String>, String>>, c: int)
    ensures
        missing_in(rows, c) <= rows_read(rows) <= rows.len(),
{
    lemma_missing_bound(rows, c);
    lemma_rows_read_bound(rows);
}

proof fn lemma_missing_bound(rows: Seq<Result<Vec<String>, String>>, c: int)
    ensures
        missing_in(rows, c) <= rows_read(rows),
    decreases rows.len(),
{
    if rows.len() > 0 {
        lemma_missing_bound(rows.drop_last(), c);
    }
}

/// Whether the cell of column `c` is absent or blank.
fn is_missing(fields: &Vec<String>, c: usize) -> (r: bool)
    ensures
        r == cell_missing(fields@, c as int),
{
    if c >= fields.len() {
        true
    } else {
        let t = trim_chars(&chars_of(fields[c].as_str()));
        t.len() == 0
    }
}

/// The warning text for one unreadable row.
fn warning_for(index: usize, reason: &String) -> (r: String)
    requires
        index < usize::MAX - 1,
    ensures
        r@ == row_warning(index as nat, reason@),
{
    let mut out: Vec<char> = Vec::new();
    append_text(&mut out, "Row ");
    let n: u64 = (index + 2) as u64;
    let digits = crate::text::decimal_text(n);
    append_text(&mut out, digits.as_str());
    append_text(&mut out, ": ");
    append_text(&mut out, reason.as_str());
    string_of(&out)
}

/// Counts the rows of a CSV file with `column_count` columns: each row is
/// its cells, or the reason it could not be read.
pub fn tally_rows(column_count: usize, rows: &Vec<Result<Vec<String>, String>>) -> (r: CsvTally)
    requires
        rows@.len() < usize::MAX - 1,
    ensures
        r.row_count == rows_read(rows@),
        r.missing@.len() == column_count,
        forall|c: int| 0 <= c < column_count ==> #[trigger] r.missing@[c] == missing_in(rows@, c),
        crate::text::views_of(r.warnings@) == row_warnings(rows@),
{
    let mut missing: Vec<u64> = Vec::new();
    let mut c: usize = 0;
    while c < column_count
        invariant
            c <= column_count,
            missing@.len() == c,
            forall|j: int| 0 <= j < c ==> #[trigger] missing@[j] == 0,
        decreases column_count - c,
    {
        missing.push(0);
        c = c + 1;
    }
    let mut row_count: u64 = 0;
    let mut warnings: Vec<String> = Vec::new();
    let mut i: usize = 0;
    assert(rows@.subrange(0, 0) =~= Seq::<Result<Vec<String>, String>>::empty());
    assert(crate::text::views_of(warnings@) =~= Seq::<Seq<char>>::empty());
    while i < rows.len()
        invariant
            i <= rows@.len() < usize::MAX - 1,
            row_count == rows_read(rows@.subrange(0, i as int)),
            missing@.len() == column_count,
            forall|j: int| 0 <= j < column_count ==> #[trigger] missing@[j] == missing_in(rows@.subrange(0, i as int), j),
            crate::text::views_of(warnings@) == row_warnings(rows@.subrange(0, i as int)),
        decreases rows.len() - i,
    {
        let ghost before = rows@.subrange(0, i as int);
        let ghost after = rows@.subrange(0, i + 1);
        assert(after.drop_last() =~= before);
        assert(after.last() == rows@[i as int]);
        proof {
            lemma_rows_read_bound(before);
        }
        match &rows[i] {
            Ok(fields) => {
                row_count = row_count + 1;
                let mut c: usize = 0;
                while c < column_count
                    invariant
                        c <= column_count,
                        missing@.len() == column_count,
                        i < rows@.len() < usize::MAX - 1,
                        rows@[i as int] == Ok::<Vec<String>, String>(*fields),
                        before == rows@.subrange(0, i as int),
                        after == rows@.subrange(0, i + 1),
                        after.len() == i + 1,
                        after.drop_last() == before,
                        after.last() == rows@[i as int],
                        rows_read(before) <= i,
                        forall|j: int| 0 <= j < c ==> #[trigger] missing@[j] == missing_in(after, j),
                        forall|j: int| c <= j < column_count ==> #[trigger] missing@[j] == missing_in(before, j),
                    decreases column_count - c,
                {
                    proof {
                        lemma_missing_bound(before, c as int);
                    }
                    assert(missing@[c as int] <= i);
                    if is_missing(fields, c) {
                        missing.set(c, missing[c] + 1);
                    }
                    c = c + 1;
                }
                assert(crate::text::views_of(warnings@) == row_warnings(after));
            },
            Err(reason) => {
                let w = warning_for(i, reason);
                let ghost old_views = crate::text::views_of(warnings@);
                warnings.push(w);
                assert(crate::text::views_of(warnings@) =~= old_views.push(w@));
                assert forall|j: int| 0 <= j < column_count implies #[trigger] missing@[j] == missing_in(after, j) by {}
            },
        }
        i = i + 1;
    }
    assert(rows@.subrange(0, rows@.len() as int) =~= rows@);
    CsvTally { row_count, missing, warnings }
}

/// The cells of a CSV file as read: its header row and each later row,
/// or the reason a row could not be read.
#[derive(Debug)]
pub struct CsvTable {
    pub headers: Vec<String>,
    pub rows: Vec<Result<Vec<String>, String>>,
}

/// The mathematical value of one row as read.
pub open spec fn row_view(r: Result<Vec<String>, String>) -> Result<Seq<Seq<char>>, Seq<char>> {
    match r {
        Ok(cells) => Ok(views_of(cells@)),
        Err(m) => Err(m@),
    }
}

/// The values of the rows as read.
pub open spec fn rows_view(rows: Seq<Result<Vec<String>, String>>) -> Seq<Result<Seq<Seq<char>>, Seq<char>>> {
    rows.map_values(|r: Result<Vec<String>, String>| row_view(r))
}

/// Name of the header row that the `csv` crate reads from a file's bytes
/// (`ReaderBuilder::flexible(true)`, `Reader::headers`), or the text of
/// its failure.
pub uninterp spec fn csv_headers_of(bytes: Seq<u8>) -> Result<Seq<Seq<char>>, Seq<char>>;

/// Name of the rows after the header row that the `csv` crate reads from a
/// file's bytes (`Reader::records`, rows of any length), each with its cells
/// or the text of its failure.
pub uninterp spec fn csv_records_of(bytes: Seq<u8>) -> Seq<Result<Seq<Seq<char>>, Seq<char>>>;

/// The header row of CSV bytes, read with the `csv` crate.
#[verifier::external_body]
fn csv_headers(bytes: &[u8]) -> (r: Result<Vec<String>, String>)
    ensures
        match r {
            Ok(h) => csv_headers_of(bytes@) == Ok::<Seq<Seq<char>>, Seq<char>>(views_of(h@)),
            Err(m) => csv_headers_of(bytes@) == Err::<Seq<Seq<char>>, Seq<char>>(m@),
        },
{
    let mut reader = csv::ReaderBuilder::new().flexible(true).from_reader(bytes);
    match reader.headers() {
        Ok(h) => Ok(h.iter().map(|c| c.to_string()).collect()),
        Err(e) => Err(e.to_string()),
    }
}

/// The rows after the header row of CSV bytes, read with the `csv` crate.
#[verifier::external_body]
fn csv_records(bytes: &[u8]) -> (r: Vec<Result<Vec<String>, String>>)
    ensures
        rows_view(r@) == csv_records_of(bytes@),
{
    csv::ReaderBuilder::new().flexible(true).from_reader(bytes).records()
        .map(|row| match row {
            Ok(record) => Ok(record.iter().map(|c| c.to_string()).collect()),
            Err(e) => Err(e.to_string()),
        })
        .collect()
}

/// Reads the cells of a CSV file's bytes. A header row that cannot be read,
/// or that names no column, refuses the file.
pub fn csv_table(bytes: &[u8]) -> (r: Result<CsvTable, ObError>)
    ensures
        match csv_headers_of(bytes@) {
            Err(m) => r matches Err(e) && e@ == err_of(ErrorKind::Validation, "CSV headers are invalid: "@ + m),
            Ok(h) => if h.len() == 0 {
                r matches Err(e) && e@ == err_of(ErrorKind::Validation, "CSV has no columns"@)
            } else {
                r matches Ok(t) && views_of(t.headers@) == h && rows_view(t.rows@) == csv_records_of(bytes@)
            },
        },
{
    let headers = match csv_headers(bytes) {
        Ok(h) => h,
        Err(m) => {
            return Err(ObError::Validation(concat("CSV headers are invalid: ", m.as_str())));
        },
    };
    match check_headers(&headers) {
        Ok(()) => {},
        Err(e) => {
            return Err(e);
        },
    }
    let rows = csv_records(bytes);
    Ok(CsvTable { headers, rows })
}

} // verus!
