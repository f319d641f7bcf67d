//! Where recordings are kept, and what is asked of whoever starts one.

use vstd::prelude::*;
use crate::decimal::{parse_u64, read_u64};
use crate::text::{
    chars_of, ends_with, has_suffix, last_index_of, lemma_last_index_of, string_of, trim, trimmed,
};

verus! {

/// The directory that recordings are kept in, with the separator that
/// follows it in a path.
pub open spec fn save_dir() -> Seq<char> {
    "saved_data/"@
}

/// The path of the table of the recording named `base`.
pub open spec fn table_path(base: Seq<char>) -> Seq<char> {
    save_dir() + base + ".csv"@
}

/// The path of the log of the recording named `base`.
pub open spec fn log_path(base: Seq<char>) -> Seq<char> {
    save_dir() + base + ".rrd"@
}

/// Whether a file of this name is a recording: a table or a log.
pub open spec fn is_saved(name: Seq<char>) -> bool {
    ends_with(name, ".csv"@) || ends_with(name, ".rrd"@)
}

/// `name` up to its last dot, or all of it where it has none.
pub open spec fn without_extension(name: Seq<char>) -> Seq<char> {
    let k = last_index_of(name, '.');
    if 0 <= k < name.len() {
        name.take(k)
    } else {
        name
    }
}

/// Why a text is no duration.
#[derive(Debug, Clone, Copy, PartialEq, Eq, Structural)]
pub enum DurationError {
    /// Nothing was typed.
    Empty,
    /// What was typed is no whole number above zero that 64 bits hold.
    NotPositive,
}

/// The duration, in seconds, that `input` asks for.
pub open spec fn duration_of(input: Seq<char>) -> Result<u64, DurationError> {
    if trim(input).len() == 0 {
        Err(DurationError::Empty)
    } else {
        match parse_u64(input) {
            Some(v) => if v > 0 {
                Ok(v)
            } else {
                Err(DurationError::NotPositive)
            },
            None => Err(DurationError::NotPositive),
        }
    }
}

impl DurationError {
    /// What the status line says of the error.
    pub fn message(&self) -> (out: String)
        ensures
            out@ == (match self {
                DurationError::Empty => "Duration cannot be empty."@,
                DurationError::NotPositive => "Duration must be a positive integer."@,
            }),
    {
        let mut out = String::new();
        match self {
            DurationError::Empty => {
                out.append("Duration cannot be empty.");
            },
            DurationError::NotPositive => {
                out.append("Duration must be a positive integer.");
            },
        }
        out
    }
}

/// Reads the duration, in seconds, that was typed.
pub fn parse_duration(input: &str) -> (out: Result<u64, DurationError>)
    ensures
        out == duration_of(input@),
{
    let chars = chars_of(input);
    if trimmed(chars.as_slice()).len() == 0 {
        return Err(DurationError::Empty);
    }
    match read_u64(chars.as_slice()) {
        Some(v) => if v > 0 {
            Ok(v)
        } else {
            Err(DurationError::NotPositive)
        },
        None => Err(DurationError::NotPositive),
    }
}

/// The path of the table of the recording named `base`.
pub fn csv_path(base: &str) -> (out: String)
    ensures
        out@ == table_path(base@),
{
    let mut out = String::new();
    out.append("saved_data/");
    out.append(base);
    out.append(".csv");
    out
}

/// The path of the log of the recording named `base`.
pub fn rrd_path(base: &str) -> (out: String)
    ensures
        out@ == log_path(base@),
{
    let mut out = String::new();
    out.append("saved_data/");
    out.append(base);
    out.append(".rrd");
    out
}

/// Tells whether a file of this name is a recording.
pub fn is_saved_file(name: &str) -> (b: bool)
    ensures
        b == is_saved(name@),
{
    let chars = chars_of(name);
    let csv = chars_of(".csv");
    let rrd = chars_of(".rrd");
    has_suffix(chars.as_slice(), csv.as_slice()) || has_suffix(chars.as_slice(), rrd.as_slice())
}

/// The name of a file without its extension.
pub fn strip_extension(name: &str) -> (out: String)
    ensures
        out@ == without_extension(name@),
{
    let chars = chars_of(name);
    let mut k: usize = chars.len();
    while k > 0 && chars[k - 1] != '.'
        invariant
            k <= chars.len(),
            forall|j: int| k <= j < chars.len() ==> chars@[j] != '.',
        decreases k,
    {
        k = k - 1;
    }
    proof {
        lemma_last_index_of(chars@, '.', k - 1);
    }
    if k == 0 {
        string_of(chars.as_slice())
    } else {
        let head = vstd::slice::slice_subrange(chars.as_slice(), 0, k - 1);
        string_of(head)
    }
}

} // verus!
