//! Reading a stored table back: the series of one subcarrier over time, and
//! the heatmap of the whole recording.

use vstd::prelude::*;
use crate::csi_packet::{squared_amplitude, squared_amplitude_of};
use crate::decimal::{parse_i32, parse_u64, read_i32, read_u64};
use crate::detect_motion::micros_since;
use crate::heatmap::{normalize, normalized, rows_of};
use crate::text::{chars_of, fields_of, split, split_fields, trim, trimmed, views};

verus! {

/// Why a table could not be read.
#[derive(Debug)]
pub enum LoadError {
    /// The table has no line at all, not even a header.
    EmptyFile,
    /// The table is not well-formed text; the message says where.
    Csv(String),
}

impl LoadError {
    /// What went wrong, in words.
    pub fn message(&self) -> (out: String)
        ensures
            self matches LoadError::EmptyFile ==> out@ == "CSV file is empty"@,
            self matches LoadError::Csv(text) ==> out@ == text@,
    {
        match self {
            LoadError::EmptyFile => {
                let mut out = String::new();
                out.append("CSV file is empty");
                out
            },
            LoadError::Csv(text) => text.clone(),
        }
    }
}

/// One point of the series of a subcarrier.
#[derive(Debug, Clone, Copy, PartialEq, Eq, Structural)]
pub struct SeriesPoint {
    /// Microseconds since the first point of the series.
    pub elapsed_micros: u64,
    /// The in-phase component.
    pub i: i32,
    /// The quadrature component.
    pub q: i32,
}

/// What one row of a table reports of a subcarrier: the timestamp of the
/// row and the two components.
pub struct RowSample {
    pub timestamp: u64,
    pub i: i32,
    pub q: i32,
}

/// The lines of `s`: what stands between line feeds, and after the last one
/// where anything follows it.
pub open spec fn text_lines(s: Seq<char>) -> Seq<Seq<char>> {
    let fields = split(s, '\n');
    if fields.last().len() == 0 {
        fields.drop_last()
    } else {
        fields
    }
}

/// What the row `line` reports of subcarrier `subcarrier`. A row that does
/// not reach the columns of the subcarrier reports nothing, nor does one
/// whose timestamp or components are no numbers.
pub open spec fn row_sample(line: Seq<char>, subcarrier: nat) -> Option<RowSample> {
    let fields = split(trim(line), ',');
    let i_col = 2 + 2 * subcarrier;
    let q_col = 3 + 2 * subcarrier;
    if fields.len() <= q_col {
        None
    } else {
        match (
            parse_u64(trim(fields[0])),
            parse_i32(trim(fields[i_col as int])),
            parse_i32(trim(fields[q_col as int])),
        ) {
            (Some(timestamp), Some(i), Some(q)) => Some(RowSample { timestamp, i, q }),
            _ => None,
        }
    }
}

/// What the rows `lines` report of a subcarrier, in order, the rows that
/// report nothing left out.
pub open spec fn row_samples(lines: Seq<Seq<char>>, subcarrier: nat) -> Seq<RowSample>
    decreases lines.len(),
{
    if lines.len() == 0 {
        Seq::empty()
    } else {
        let head = row_samples(lines.drop_last(), subcarrier);
        match row_sample(lines.last(), subcarrier) {
            Some(sample) => head.push(sample),
            None => head,
        }
    }
}

/// The series that `samples` make: each with the time since the first of
/// them, on the wrapping clock of the radio.
pub open spec fn series_of(samples: Seq<RowSample>) -> Seq<SeriesPoint> {
    Seq::new(
        samples.len(),
        |k: int|
            SeriesPoint {
                elapsed_micros: micros_since(samples[0].timestamp, samples[k].timestamp),
                i: samples[k].i,
                q: samples[k].q,
            },
    )
}

/// The series of subcarrier `subcarrier` in the table `content`: the first
/// line is the header and is passed over; a table without any line has no
/// series.
pub open spec fn amplitude_series(content: Seq<char>, subcarrier: nat) -> Option<Seq<SeriesPoint>> {
    let lines = text_lines(content);
    if lines.len() == 0 {
        None
    } else {
        Some(series_of(row_samples(lines.skip(1), subcarrier)))
    }
}

/// Reads what one row reports of a subcarrier.
fn read_row_sample(line: &[char], subcarrier: usize) -> (out: Option<(u64, i32, i32)>)
    ensures
        match out {
            Some((timestamp, i, q)) => row_sample(line@, subcarrier as nat) == Some(
                RowSample { timestamp, i, q },
            ),
            None => row_sample(line@, subcarrier as nat) is None,
        },
{
    let fields = split_fields(trimmed(line), ',');
    if subcarrier > (usize::MAX - 3) / 2 {
        return None;
    }
    let i_col: usize = 2 + 2 * subcarrier;
    let q_col: usize = 3 + 2 * subcarrier;
    if fields.len() <= q_col {
        return None;
    }
    let timestamp = match read_u64(trimmed(fields[0])) {
        Some(v) => v,
        None => {
            return None;
        },
    };
    let i = match read_i32(trimmed(fields[i_col])) {
        Some(v) => v,
        None => {
            return None;
        },
    };
    let q = match read_i32(trimmed(fields[q_col])) {
        Some(v) => v,
        None => {
            return None;
        },
    };
    Some((timestamp, i, q))
}

/// Reads from the text of a table the series of one subcarrier: for every
/// row that reports it, the time since the first such row and the two
/// components. Fails where the table has no line at all.
pub fn load_csv_amplitude_series(content: &str, subcarrier: usize) -> (out: Result<
    Vec<SeriesPoint>,
    LoadError,
>)
    ensures
        match out {
            Ok(points) => amplitude_series(content@, subcarrier as nat) == Some(points@),
            Err(e) => amplitude_series(content@, subcarrier as nat) is None && e
                matches LoadError::EmptyFile,
        },
{
    let chars = chars_of(content);
    let fields = split_fields(chars.as_slice(), '\n');
    proof {
        crate::text::lemma_split_not_empty(chars@, '\n');
    }
    let count = if fields[fields.len() - 1].len() == 0 {
        fields.len() - 1
    } else {
        fields.len()
    };
    let ghost lines = text_lines(content@);
    if count == 0 {
        return Err(LoadError::EmptyFile);
    }
    let ghost rows = lines.skip(1);
    let mut first: u64 = 0;
    let mut out: Vec<SeriesPoint> = Vec::new();
    let mut k: usize = 1;
    while k < count
        invariant
            1 <= k <= count <= fields.len(),
            lines == views(fields@).take(count as int),
            rows == lines.skip(1),
            out@.len() == row_samples(rows.take(k - 1), subcarrier as nat).len(),
            out@.len() > 0 ==> first == row_samples(rows.take(k - 1), subcarrier as nat)[0].timestamp,
            out@ == series_of(row_samples(rows.take(k - 1), subcarrier as nat)),
        decreases count - k,
    {
        proof {
            let next = rows.take(k as int);
            assert(next.drop_last() =~= rows.take(k - 1));
        }
        match read_row_sample(fields[k], subcarrier) {
            Some((timestamp, i, q)) => {
                if out.len() == 0 {
                    first = timestamp;
                }
                out.push(SeriesPoint { elapsed_micros: timestamp.wrapping_sub(first), i, q });
            },
            None => {},
        }
        k = k + 1;
    }
    assert(rows.take(count - 1) =~= rows);
    Ok(out)
}

/// An error of the `csv` crate.
#[verifier::external_type_specification]
#[verifier::external_body]
pub struct ExCsvError(csv::Error);

/// What the `csv` crate reads as the first record of `content`, the header:
/// its fields, or nothing where it reports an error.
pub uninterp spec fn csv_header_fields(content: Seq<u8>) -> Option<Seq<Seq<char>>>;

/// What the `csv` crate reads as the records of `content` after the header:
/// the fields of each, or nothing where it reports an error for any of
/// them.
pub uninterp spec fn csv_record_fields(content: Seq<u8>) -> Option<Seq<Seq<Seq<char>>>>;

/// What each record of `v` holds.
pub open spec fn records_of(v: Seq<Vec<String>>) -> Seq<Seq<Seq<char>>> {
    Seq::new(v.len(), |r: int| fields_of(v[r]@))
}

/// `csv::Reader::headers`, on a reader over `content` that accepts records
/// of any length: the fields of the first record, or the error that the
/// reader reports.
#[verifier::external_body]
fn read_csv_header(content: &[u8]) -> (out: Result<Vec<String>, csv::Error>)
    ensures
        match out {
            Ok(header) => csv_header_fields(content@) == Some(fields_of(header@)),
            Err(_) => csv_header_fields(content@) is None,
        },
{
    let mut reader = csv::ReaderBuilder::new().flexible(true).from_reader(content);
    Ok(reader.headers()?.iter().map(String::from).collect())
}

/// `csv::Reader::records`, on a reader over `content` that accepts records
/// of any length: the fields of every record after the header, or the first
/// error that the reader reports.
#[verifier::external_body]
fn read_csv_records(content: &[u8]) -> (out: Result<Vec<Vec<String>>, csv::Error>)
    ensures
        match out {
            Ok(records) => csv_record_fields(content@) == Some(records_of(records@)),
            Err(_) => csv_record_fields(content@) is None,
        },
{
    let mut reader = csv::ReaderBuilder::new().flexible(true).from_reader(content);
    reader.records().map(|r| r.map(|record| record.iter().map(String::from).collect())).collect()
}

/// The words in which a `csv::Error` describes itself, as its `Display`
/// writes them. Nothing is claimed of them.
#[verifier::external_body]
fn csv_error_text(error: &csv::Error) -> (out: String) {
    format!("{}", error)
}

/// How many subcarriers a table with `total_cols` columns reports: the
/// columns after the first two, in pairs; where one column is left over,
/// the last pair is not counted either.
pub open spec fn table_subcarriers(total_cols: nat) -> nat {
    if total_cols < 4 {
        0
    } else if (total_cols - 2) % 2 == 0 {
        ((total_cols - 2) / 2) as nat
    } else {
        ((total_cols - 2) / 2 - 1) as nat
    }
}

/// The number that a cell holds, or 0 where it holds none.
pub open spec fn cell_value(cell: Seq<char>) -> i32 {
    match parse_i32(trim(cell)) {
        Some(v) => v,
        None => 0,
    }
}

/// The squared amplitude of each of the first `n` subcarriers of a record.
pub open spec fn record_samples(fields: Seq<Seq<char>>, n: nat) -> Seq<u64> {
    Seq::new(
        n,
        |k: int|
            squared_amplitude(cell_value(fields[2 + 2 * k]), cell_value(fields[3 + 2 * k])) as u64,
    )
}

/// The samples of a table of `n` subcarriers, a row for each record; a
/// record with fewer fields than the table has columns for them is left
/// out.
pub open spec fn table_samples(records: Seq<Seq<Seq<char>>>, n: nat) -> Seq<Seq<u64>>
    decreases records.len(),
{
    if records.len() == 0 {
        Seq::empty()
    } else {
        let head = table_samples(records.drop_last(), n);
        if records.last().len() >= 2 + 2 * n {
            head.push(record_samples(records.last(), n))
        } else {
            head
        }
    }
}

/// The heatmap of a table: empty where the header leaves no room for a
/// subcarrier, else the samples of its records, scaled over the whole
/// table.
pub open spec fn table_heatmap(header: Seq<Seq<char>>, records: Seq<Seq<Seq<char>>>) -> Seq<
    Seq<u8>,
> {
    let n = table_subcarriers(header.len());
    if n == 0 {
        Seq::empty()
    } else {
        normalized(table_samples(records, n))
    }
}

/// The heatmap of the table that the bytes `content` hold, where the `csv`
/// crate can read them. The records are not read where the header leaves no
/// room for a subcarrier.
pub open spec fn csv_heatmap(content: Seq<u8>) -> Option<Seq<Seq<u8>>> {
    match csv_header_fields(content) {
        None => None,
        Some(header) => if table_subcarriers(header.len()) == 0 {
            Some(Seq::empty())
        } else {
            match csv_record_fields(content) {
                None => None,
                Some(records) => Some(table_heatmap(header, records)),
            }
        },
    }
}

/// Reads the number that a cell holds, or 0 where it holds none.
fn read_cell(cell: &String) -> (out: i32)
    ensures
        out == cell_value(cell@),
{
    let chars = chars_of(cell.as_str());
    match read_i32(trimmed(chars.as_slice())) {
        Some(v) => v,
        None => 0,
    }
}

/// Computes how many subcarriers a table with `total_cols` columns reports.
pub fn subcarriers_of_table(total_cols: usize) -> (out: usize)
    ensures
        out == table_subcarriers(total_cols as nat),
        2 + 2 * out <= total_cols || out == 0,
{
    if total_cols < 4 {
        return 0;
    }
    let num_iq_cols = total_cols - 2;
    let mut num_subcarriers = num_iq_cols / 2;
    if num_iq_cols % 2 != 0 {
        num_subcarriers = num_subcarriers - 1;
    }
    num_subcarriers
}

/// Makes the heatmap of a table from its header and its records.
pub fn heatmap_from_table(header: &Vec<String>, records: &Vec<Vec<String>>) -> (out: Vec<Vec<u8>>)
    ensures
        rows_of(out@) == table_heatmap(fields_of(header@), records_of(records@)),
{
    let n = subcarriers_of_table(header.len());
    if n == 0 {
        let out: Vec<Vec<u8>> = Vec::new();
        return out;
    }
    let needed: usize = 2 + 2 * n;
    let ghost table = records_of(records@);
    let mut samples: Vec<Vec<u64>> = Vec::new();
    let mut r: usize = 0;
    while r < records.len()
        invariant
            r <= records.len(),
            n > 0,
            needed == 2 + 2 * n,
            table == records_of(records@),
            rows_of(samples@) == table_samples(table.take(r as int), n as nat),
        decreases records.len() - r,
    {
        let record = &records[r];
        proof {
            let next = table.take(r + 1);
            assert(next.drop_last() =~= table.take(r as int));
        }
        if record.len() >= needed {
            let mut row: Vec<u64> = Vec::new();
            let mut k: usize = 0;
            while k < n
                invariant
                    k <= n,
                    needed == 2 + 2 * n,
                    record@.len() >= needed,
                    row@ == record_samples(fields_of(record@), n as nat).take(k as int),
                decreases n - k,
            {
                let i = read_cell(&record[2 + 2 * k]);
                let q = read_cell(&record[3 + 2 * k]);
                row.push(squared_amplitude_of(i, q));
                k = k + 1;
            }
            assert(row@ =~= record_samples(fields_of(record@), n as nat));
            samples.push(row);
        }
        r = r + 1;
    }
    assert(table.take(records@.len() as int) =~= table);
    normalize(&samples)
}

/// Reads a stored table from its bytes and makes its heatmap. Fails where
/// the `csv` crate cannot read the header, or the records of a table that
/// has room for a subcarrier.
pub fn load_csv_heatmap(content: &[u8]) -> (out: Result<Vec<Vec<u8>>, LoadError>)
    ensures
        match out {
            Ok(grid) => csv_heatmap(content@) == Some(rows_of(grid@)),
            Err(e) => csv_heatmap(content@) is None && e matches LoadError::Csv(_),
        },
{
    let header = match read_csv_header(content) {
        Ok(header) => header,
        Err(e) => {
            return Err(LoadError::Csv(csv_error_text(&e)));
        },
    };
    if subcarriers_of_table(header.len()) == 0 {
        let out: Vec<Vec<u8>> = Vec::new();
        return Ok(out);
    }
    let records = match read_csv_records(content) {
        Ok(records) => records,
        Err(e) => {
            return Err(LoadError::Csv(csv_error_text(&e)));
        },
    };
    Ok(heatmap_from_table(&header, &records))
}

} // verus!
