//! Parquet files: one row group of `id`, `tags` and `payload` columns, with
//! more rows on each attempt until the encoding reaches the target size. The
//! rows and their values, and the attempts, are decided here; the `parquet`
//! crate encodes each attempt in memory.

use std::sync::Arc;
use parquet::basic::Compression;
use parquet::column::writer::ColumnWriter;
use parquet::data_type::ByteArray;
use parquet::file::properties::WriterProperties;
use parquet::file::writer as pw;
use parquet::schema::parser::parse_message_type;
use vstd::prelude::*;
use crate::formats::common::{payload, payload_fits, repeated_payload, rows_for_size};
use crate::error::Error;
use crate::text::string_of;

verus! {

/// The bytes that one row is reckoned to take.
pub const PARQUET_ROW_BYTES: u64 = 180;

/// The length of each row's payload.
pub const PARQUET_PAYLOAD_LEN: usize = 128;

/// The rows of the first attempt: one per 180 bytes of the target, plus one.
pub open spec fn first_rows(target: u64) -> usize {
    let n = ((target / 180) + 1) as usize;
    if n >= 1 {
        n
    } else {
        1
    }
}

/// The rows of the attempt after one with `rows` rows: 14/10 as many,
/// rounded up, plus one.
pub open spec fn next_rows(rows: usize) -> int {
    (14 * rows + 9) / 10 + 1
}

/// What to do after writing an attempt.
#[derive(Debug, Clone, Copy, PartialEq, Eq, Structural)]
pub enum ParquetStep {
    /// The file is large enough.
    Done,
    /// Write the file again with this many rows.
    Retry(usize),
}

/// The rows of the first attempt for `target` bytes.
pub fn parquet_first_rows(target: u64) -> (n: usize)
    ensures
        n == first_rows(target),
{
    let n = rows_for_size(target, PARQUET_ROW_BYTES);
    if n >= 1 {
        n
    } else {
        1
    }
}

/// The next step after an attempt of `rows` rows made a file of `written`
/// bytes: done once the file reaches `target`, else another attempt with more rows.
pub fn parquet_step(rows: usize, written: u64, target: u64) -> (s: ParquetStep)
    requires
        rows <= usize::MAX / 2,
    ensures
        written >= target ==> s == ParquetStep::Done,
        written < target ==> s == ParquetStep::Retry(next_rows(rows) as usize),
        written < target ==> rows < next_rows(rows) <= usize::MAX,
{
    if written >= target {
        ParquetStep::Done
    } else {
        let n = rows / 10;
        let m = rows % 10;
        // 14 * rows / 10 rounded up, without overflow: 14 n + ceil(14 m / 10).
        let up = (14 * m + 9) / 10;
        assert(14 * rows + 9 == 140 * n + 14 * m + 9);
        assert((14 * rows + 9) / 10 == 14 * n + (14 * m + 9) / 10);
        ParquetStep::Retry(14 * n + up + 1)
    }
}

/// The `id` column: `0, 1, ..., rows - 1`.
pub fn parquet_ids(rows: usize) -> (v: Vec<i64>)
    requires
        rows <= i64::MAX,
    ensures
        v@.len() == rows,
        forall|i: int| 0 <= i < rows ==> v@[i] == i,
{
    let mut v: Vec<i64> = Vec::new();
    let mut i: usize = 0;
    while i < rows
        invariant
            i <= rows <= i64::MAX,
            v@.len() == i,
            forall|j: int| 0 <= j < i ==> v@[j] == j,
        decreases rows - i,
    {
        v.push(i as i64);
        i += 1;
    }
    v
}

/// The `tags` column: the tag text on every row.
pub fn parquet_tags(rows: usize, tag_text: &str) -> (v: Vec<String>)
    ensures
        v@.len() == rows,
        forall|i: int| 0 <= i < rows ==> #[trigger] v@[i]@ == tag_text@,
{
    let mut v: Vec<String> = Vec::new();
    let mut i: usize = 0;
    while i < rows
        invariant
            i <= rows,
            v@.len() == i,
            forall|j: int| 0 <= j < i ==> #[trigger] v@[j]@ == tag_text@,
        decreases rows - i,
    {
        v.push(string_of(tag_text));
        i += 1;
    }
    v
}

/// The `payload` column: the 128-character payload of each row number.
pub fn parquet_payloads(rows: usize) -> (v: Vec<String>)
    requires
        rows == 0 || payload_fits((rows - 1) as u64, PARQUET_PAYLOAD_LEN),
    ensures
        v@.len() == rows,
        forall|i: int| 0 <= i < rows ==> #[trigger] v@[i]@ == payload(i, 128),
{
    let mut v: Vec<String> = Vec::new();
    let mut i: usize = 0;
    while i < rows
        invariant
            i <= rows,
            rows == 0 || payload_fits((rows - 1) as u64, PARQUET_PAYLOAD_LEN),
            v@.len() == i,
            forall|j: int| 0 <= j < i ==> #[trigger] v@[j]@ == payload(j, 128),
        decreases rows - i,
    {
        v.push(repeated_payload(i as u64, PARQUET_PAYLOAD_LEN));
        i += 1;
    }
    v
}

// ---------------------------------------------------------------------------
// The encoder
// ---------------------------------------------------------------------------

/// A Parquet file being written into memory. Verus cannot declare
/// `SerializedFileWriter` itself (its `W: Write` bound names a trait that
/// Verus does not know), so the writer stands in a private field, opaque to
/// the proofs.
#[verifier::external_body]
pub struct ParquetWriter {
    writer: pw::SerializedFileWriter<Vec<u8>>,
}

/// A row group being written into a `ParquetWriter`, opaque to the proofs for
/// the same reason.
#[verifier::external_body]
pub struct ParquetRowGroup<'a> {
    group: pw::SerializedRowGroupWriter<'a, Vec<u8>>,
}

/// `parquet`'s writer of one column chunk, opaque to the proofs.
#[verifier::external_type_specification]
#[verifier::external_body]
pub struct ExSerializedColumnWriter<'a>(parquet::file::writer::SerializedColumnWriter<'a>);

/// Starts a Parquet file in memory: `parse_message_type` reads `schema`, and
/// `SerializedFileWriter::new` opens a writer over an empty `Vec<u8>` with
/// uncompressed pages. `None` when either call fails; nothing is claimed of
/// the writer.
#[verifier::external_body]
fn parquet_writer(schema: &str) -> Option<ParquetWriter> {
    let schema = parse_message_type(schema).ok()?;
    let props = WriterProperties::builder().set_compression(Compression::UNCOMPRESSED).build();
    let writer = pw::SerializedFileWriter::new(Vec::new(), Arc::new(schema), Arc::new(props)).ok()?;
    Some(ParquetWriter { writer })
}

/// Calls `SerializedFileWriter::next_row_group`; `None` when it fails.
#[verifier::external_body]
fn next_row_group(w: &mut ParquetWriter) -> Option<ParquetRowGroup<'_>> {
    w.writer.next_row_group().ok().map(|group| ParquetRowGroup { group })
}

/// Calls `SerializedRowGroupWriter::next_column`: `None` when it fails,
/// `Some(None)` when the schema has no column left.
#[verifier::external_body]
fn next_column<'a>(g: &'a mut ParquetRowGroup<'_>) -> Option<Option<pw::SerializedColumnWriter<'a>>> {
    g.group.next_column().ok()
}

/// Writes `values` into an `INT64` column with `ColumnWriterImpl::write_batch`
/// and no levels; `false` when the column has another type or the write fails.
#[verifier::external_body]
fn write_i64_column(c: &mut pw::SerializedColumnWriter<'_>, values: &[i64]) -> bool {
    match c.untyped() {
        ColumnWriter::Int64ColumnWriter(typed) => typed.write_batch(values, None, None).is_ok(),
        _ => false,
    }
}

/// Writes `values`, each as the `ByteArray` of its UTF-8 bytes, into a
/// `BYTE_ARRAY` column with `ColumnWriterImpl::write_batch` and no levels;
/// `false` when the column has another type or the write fails.
#[verifier::external_body]
fn write_text_column(c: &mut pw::SerializedColumnWriter<'_>, values: &[String]) -> bool {
    match c.untyped() {
        ColumnWriter::ByteArrayColumnWriter(typed) => {
            let v: Vec<ByteArray> = values.iter().map(|t| ByteArray::from(t.as_str())).collect();
            typed.write_batch(&v, None, None).is_ok()
        },
        _ => false,
    }
}

/// Calls `SerializedColumnWriter::close`; `false` when it fails.
#[verifier::external_body]
fn close_column(c: pw::SerializedColumnWriter<'_>) -> bool {
    c.close().is_ok()
}

/// Calls `SerializedRowGroupWriter::close`; `false` when it fails.
#[verifier::external_body]
fn close_row_group(g: ParquetRowGroup<'_>) -> bool {
    g.group.close().is_ok()
}

/// Calls `SerializedFileWriter::into_inner`, which writes the footer and hands
/// back the bytes; `None` when it fails. Nothing is claimed of the bytes.
#[verifier::external_body]
fn finish_parquet(w: ParquetWriter) -> Option<Vec<u8>> {
    w.writer.into_inner().ok()
}

/// The schema of every file: a required 64-bit `id` and the required UTF-8
/// columns `tags` and `payload`.
pub const PARQUET_SCHEMA: &'static str = "message schema { REQUIRED INT64 id; REQUIRED BINARY tags (UTF8); REQUIRED BINARY payload (UTF8); }";

/// What the encoder is handed for one column.
pub enum ColumnValues {
    /// The values of an `INT64` column.
    Ints(Seq<int>),
    /// The values of a UTF-8 `BYTE_ARRAY` column.
    Texts(Seq<Seq<char>>),
}

/// The columns of a file of `rows` rows with `tags` on every row, in the order
/// that `PARQUET_SCHEMA` declares them: `id`, `tags`, `payload`.
pub open spec fn parquet_columns(rows: nat, tags: Seq<char>) -> Seq<ColumnValues> {
    seq![
        ColumnValues::Ints(Seq::new(rows, |i: int| i)),
        ColumnValues::Texts(Seq::new(rows, |i: int| tags)),
        ColumnValues::Texts(Seq::new(rows, |i: int| payload(i, 128))),
    ]
}

/// A row group being written, with the values handed to the encoder for each
/// column so far, in order.
struct RowGroupWriting<'a> {
    group: ParquetRowGroup<'a>,
    handed: Ghost<Seq<ColumnValues>>,
}

/// Writes `ids` into the next column of the row group. `false` when the
/// encoder fails or the schema has no column left; else `ids` were handed to
/// the encoder for that column.
fn write_next_id_column(g: &mut RowGroupWriting<'_>, ids: &[i64]) -> (ok: bool)
    ensures
        ok ==> final(g).handed@ == old(g).handed@.push(
            ColumnValues::Ints(ids@.map_values(|x: i64| x as int)),
        ),
{
    let ok = match next_column(&mut g.group) {
        Some(Some(mut c)) => write_i64_column(&mut c, ids) && close_column(c),
        _ => false,
    };
    g.handed = Ghost(g.handed@.push(ColumnValues::Ints(ids@.map_values(|x: i64| x as int))));
    ok
}

/// Writes `texts` into the next column of the row group. `false` when the
/// encoder fails or the schema has no column left; else `texts` were handed to
/// the encoder for that column.
fn write_next_text_column(g: &mut RowGroupWriting<'_>, texts: &[String]) -> (ok: bool)
    ensures
        ok ==> final(g).handed@ == old(g).handed@.push(
            ColumnValues::Texts(texts@.map_values(|t: String| t@)),
        ),
{
    let ok = match next_column(&mut g.group) {
        Some(Some(mut c)) => write_text_column(&mut c, texts) && close_column(c),
        _ => false,
    };
    g.handed = Ghost(g.handed@.push(ColumnValues::Texts(texts@.map_values(|t: String| t@))));
    ok
}

/// An encoded Parquet file and the columns its encoder was handed.
pub struct ParquetFile {
    pub bytes: Vec<u8>,
    pub columns: Ghost<Seq<ColumnValues>>,
}

/// Encodes a Parquet file of `rows` rows in one row group, uncompressed, and
/// gives it with the columns handed to the encoder: the ids `0..rows`,
/// `tag_text` on every row, and each row's 128-character payload, in the order
/// of the schema. `None` when the encoder fails.
pub fn parquet_file(rows: usize, tag_text: &str) -> (r: Option<ParquetFile>)
    requires
        rows <= usize::MAX / 2,
    ensures
        r matches Some(f) ==> f.columns@ == parquet_columns(rows as nat, tag_text@),
{
    let ids = parquet_ids(rows);
    let tags = parquet_tags(rows, tag_text);
    let payloads = parquet_payloads(rows);
    let mut w = match parquet_writer(PARQUET_SCHEMA) {
        Some(w) => w,
        None => return None,
    };
    let ghost columns: Seq<ColumnValues>;
    let ok = match next_row_group(&mut w) {
        None => false,
        Some(group) => {
            let mut g = RowGroupWriting { group, handed: Ghost(Seq::empty()) };
            let done = write_next_id_column(&mut g, ids.as_slice())
                && write_next_text_column(&mut g, tags.as_slice())
                && write_next_text_column(&mut g, payloads.as_slice());
            proof {
                columns = g.handed@;
            }
            done && close_row_group(g.group)
        },
    };
    if !ok {
        return None;
    }
    proof {
        assert(ids@.map_values(|x: i64| x as int) =~= Seq::new(rows as nat, |i: int| i));
        assert(tags@.map_values(|t: String| t@) =~= Seq::new(rows as nat, |i: int| tag_text@));
        assert(payloads@.map_values(|t: String| t@) =~= Seq::new(rows as nat, |i: int| payload(i, 128)));
        assert(columns =~= parquet_columns(rows as nat, tag_text@));
    }
    match finish_parquet(w) {
        Some(bytes) => Some(ParquetFile { bytes, columns: Ghost(columns) }),
        None => None,
    }
}

/// The bytes of a Parquet file of `rows` rows: those of `parquet_file`.
pub fn parquet_encode(rows: usize, tag_text: &str) -> (r: Option<Vec<u8>>)
    requires
        rows <= usize::MAX / 2,
{
    match parquet_file(rows, tag_text) {
        Some(f) => Some(f.bytes),
        None => None,
    }
}

/// The rows of attempt `k` for `target` bytes: `first_rows(target)`, then
/// `next_rows` of the attempt before.
pub open spec fn attempt_rows(target: u64, k: nat) -> int
    decreases k,
{
    if k == 0 {
        first_rows(target) as int
    } else {
        next_rows(attempt_rows(target, (k - 1) as nat) as usize)
    }
}

/// A Parquet file of at least `target` bytes with `tag_text` on every row.
/// The first attempt has `first_rows(target)` rows and each later one
/// `next_rows` of the one before, until the encoding reaches `target`; the
/// file is that of one of these attempts. Fails when the encoder fails, or
/// when the rows outgrow `usize::MAX / 2`.
pub fn parquet_file_for(target: u64, tag_text: &str) -> (r: Result<ParquetFile, Error>)
    ensures
        match r {
            Ok(f) => f.bytes@.len() >= target && exists|k: nat|
                f.columns@ == parquet_columns(#[trigger] attempt_rows(target, k) as nat, tag_text@),
            Err(e) => e is ParquetEncoding || e is RowLimit,
        },
{
    let mut rows = parquet_first_rows(target);
    let ghost mut k: nat = 0;
    loop
        invariant
            rows as int == attempt_rows(target, k),
        decreases usize::MAX - rows,
    {
        if rows > usize::MAX / 2 {
            return Err(Error::RowLimit);
        }
        let f = match parquet_file(rows, tag_text) {
            Some(f) => f,
            None => return Err(Error::ParquetEncoding),
        };
        match parquet_step(rows, f.bytes.len() as u64, target) {
            ParquetStep::Done => {
                assert(f.columns@ == parquet_columns(attempt_rows(target, k) as nat, tag_text@));
                return Ok(f);
            },
            ParquetStep::Retry(next) => {
                rows = next;
                proof {
                    k = k + 1;
                }
            },
        }
    }
}

/// The bytes of a Parquet file of at least `target` bytes with `tag_text` on
/// every row: those of `parquet_file_for`.
pub fn parquet_bytes(target: u64, tag_text: &str) -> (r: Result<Vec<u8>, Error>)
    ensures
        match r {
            Ok(b) => b@.len() >= target,
            Err(e) => e is ParquetEncoding || e is RowLimit,
        },
{
    match parquet_file_for(target, tag_text) {
        Ok(f) => Ok(f.bytes),
        Err(e) => Err(e),
    }
}

/// The first attempt has one row more than `target / 180` (where that fits
/// in `usize`), every attempt has at least one row, and each attempt has more
/// rows than the one before.
pub proof fn law_attempts_grow(target: u64, k: nat)
    requires
        0 <= attempt_rows(target, k) <= usize::MAX,
    ensures
        target / 180 + 1 <= usize::MAX ==> attempt_rows(target, 0) == target / 180 + 1,
        attempt_rows(target, k) >= 1,
        attempt_rows(target, k + 1) > attempt_rows(target, k),
    decreases k,
{
    if k > 0 {
        let prev = attempt_rows(target, (k - 1) as nat);
        if 0 <= prev <= usize::MAX {
            law_attempts_grow(target, (k - 1) as nat);
        }
    }
}

/// The schema declares its columns in the order `id`, `tags`, `payload`: the
/// order of `parquet_columns`.
pub proof fn law_schema_declares_id_tags_payload()
    ensures
        PARQUET_SCHEMA@.subrange(17, 35) == "REQUIRED INT64 id;"@,
        PARQUET_SCHEMA@.subrange(36, 64) == "REQUIRED BINARY tags (UTF8);"@,
        PARQUET_SCHEMA@.subrange(65, 96) == "REQUIRED BINARY payload (UTF8);"@,
{
    reveal_strlit("message schema { REQUIRED INT64 id; REQUIRED BINARY tags (UTF8); REQUIRED BINARY payload (UTF8); }");
    reveal_strlit("REQUIRED INT64 id;");
    reveal_strlit("REQUIRED BINARY tags (UTF8);");
    reveal_strlit("REQUIRED BINARY payload (UTF8);");
    assert(PARQUET_SCHEMA@.subrange(17, 35) =~= "REQUIRED INT64 id;"@);
    assert(PARQUET_SCHEMA@.subrange(36, 64) =~= "REQUIRED BINARY tags (UTF8);"@);
    assert(PARQUET_SCHEMA@.subrange(65, 96) =~= "REQUIRED BINARY payload (UTF8);"@);
}

/// In the columns of a Parquet file, as the schema orders them, row `i` has
/// `id` equal to `i`, `tags` equal to the tag text and `payload` equal to the
/// row's 128-character payload; every column has one value per row.
pub proof fn law_parquet_rows_hold_their_values(rows: nat, tags: Seq<char>, i: int)
    requires
        0 <= i < rows,
    ensures
        parquet_columns(rows, tags).len() == 3,
        parquet_columns(rows, tags)[0] matches ColumnValues::Ints(ids) && ids.len() == rows
            && ids[i] == i,
        parquet_columns(rows, tags)[1] matches ColumnValues::Texts(ts) && ts.len() == rows
            && ts[i] == tags,
        parquet_columns(rows, tags)[2] matches ColumnValues::Texts(ps) && ps.len() == rows
            && ps[i] == payload(i, 128) && ps[i].len() == 128,
{
}

} // verus!
