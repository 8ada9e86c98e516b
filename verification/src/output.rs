//! What a run reports: one line or object per generated file, a summary, and
//! errors.

use vstd::prelude::*;
use crate::naming::Tag;
use crate::text::{chars_of, decimal, push_char, push_decimal, push_str, string_of};

verus! {

/// How a run reports on stdout.
#[derive(Debug, Clone, Copy, PartialEq, Eq, Structural)]
pub enum OutputMode {
    /// One aligned line per file and a closing count.
    Text,
    /// One pretty-printed summary object.
    Json,
    /// One compact object per file, then the summary object.
    Jsonl,
}

/// One generated file, as reported.
#[derive(Debug)]
pub struct GeneratedFile {
    pub format: String,
    pub requested_size: u64,
    pub requested_size_label: String,
    pub actual_size: u64,
    pub path: String,
    pub tags: Vec<Tag>,
}

/// The summary of a successful run.
#[derive(Debug)]
pub struct RunReport {
    /// Always `summary`.
    pub report_type: String,
    /// Always `true`.
    pub ok: bool,
    pub out_dir: String,
    /// The number of files requested.
    pub planned_count: usize,
    /// The number of files generated.
    pub count: usize,
    pub files: Vec<GeneratedFile>,
}

/// The report of a failed run.
#[derive(Debug)]
pub struct ErrorReport {
    /// Always `error`.
    pub report_type: String,
    /// Always `false`.
    pub ok: bool,
    pub error: String,
}

/// `s` right-aligned in a field of `width` characters.
pub open spec fn pad_left(s: Seq<char>, width: nat) -> Seq<char> {
    Seq::new(if s.len() < width { (width - s.len()) as nat } else { 0 }, |i: int| ' ') + s
}

/// The text line for a generated file:
/// `{format:>7} {label:>10} -> {actual} bytes ({path})`.
pub open spec fn file_line(f: GeneratedFile) -> Seq<char> {
    pad_left(f.format@, 7) + " "@ + pad_left(f.requested_size_label@, 10) + " -> "@ + decimal(
        f.actual_size as nat,
    ) + " bytes ("@ + f.path@ + ")"@
}

/// Appends `t` right-aligned in a field of `width` characters.
fn push_padded(s: &mut String, t: &str, width: usize)
    ensures
        final(s)@ == old(s)@ + pad_left(t@, width as nat),
{
    let n = chars_of(t).len();
    let mut pad: usize = 0;
    let fill: usize = if n < width {
        width - n
    } else {
        0
    };
    assert(n == t@.len());
    while pad < fill
        invariant
            pad <= fill,
            s@ == old(s)@ + Seq::new(pad as nat, |i: int| ' '),
        decreases fill - pad,
    {
        push_char(s, ' ');
        assert(Seq::new((pad + 1) as nat, |i: int| ' ') =~= Seq::new(pad as nat, |i: int| ' ').push(' '));
        pad += 1;
    }
    push_str(s, t);
    assert(s@ =~= old(s)@ + pad_left(t@, width as nat));
}

/// The text line for a generated file.
pub fn file_report_line(file: &GeneratedFile) -> (s: String)
    ensures
        s@ == file_line(*file),
{
    let mut s = String::new();
    push_padded(&mut s, file.format.as_str(), 7);
    push_str(&mut s, " ");
    push_padded(&mut s, file.requested_size_label.as_str(), 10);
    push_str(&mut s, " -> ");
    push_decimal(&mut s, file.actual_size);
    push_str(&mut s, " bytes (");
    push_str(&mut s, file.path.as_str());
    push_str(&mut s, ")");
    assert(s@ =~= file_line(*file));
    s
}

/// The closing text line: `generated {count} file(s)`.
pub fn summary_line(count: usize) -> (s: String)
    ensures
        s@ == "generated "@ + decimal(count as nat) + " file(s)"@,
{
    let mut s = string_of("generated ");
    push_decimal(&mut s, count as u64);
    push_str(&mut s, " file(s)");
    s
}

/// Whether a file report is printed: never when quiet, and not in JSON mode,
/// which prints only the summary.
pub fn reports_each_file(mode: OutputMode, quiet: bool) -> (b: bool)
    ensures
        b == (!quiet && mode != OutputMode::Json),
{
    !quiet && !matches!(mode, OutputMode::Json)
}

impl RunReport {
    /// The summary of a run that generated `files` out of `planned_count`.
    pub fn new(out_dir: String, planned_count: usize, files: Vec<GeneratedFile>) -> (r: RunReport)
        ensures
            r.report_type@ == "summary"@,
            r.ok,
            r.out_dir@ == out_dir@,
            r.planned_count == planned_count,
            r.count == files.len(),
            r.files@ == files@,
    {
        let count = files.len();
        RunReport { report_type: string_of("summary"), ok: true, out_dir, planned_count, count, files }
    }
}

impl ErrorReport {
    /// The report of an error with message `error`.
    pub fn new(error: String) -> (r: ErrorReport)
        ensures
            r.report_type@ == "error"@,
            !r.ok,
            r.error@ == error@,
    {
        ErrorReport { report_type: string_of("error"), ok: false, error }
    }
}

} // verus!
