//! The supported formats.

use vstd::prelude::*;
use crate::error::Error;
use crate::formats::image::{ImageKind, image_bytes, image_result};
use crate::formats::parquet::parquet_bytes;
use crate::formats::pdf::{pdf_made, pdf_prefix};
use crate::formats::stream::{Stage, StreamFormat, TextStream, tags_for};
use crate::naming::{Tag, tags_text};
use crate::template::TemplateOptions;
use crate::text::{chars_are, chars_of, string_of};

pub mod common;
pub mod stream;
pub mod pdf;
pub mod image;
pub mod parquet;

verus! {

/// A file format.
#[derive(Debug, Clone, Copy, PartialEq, Eq, Structural)]
pub enum Format {
    Csv,
    Parquet,
    Json,
    Jsonl,
    Txt,
    Md,
    Pdf,
    Jpg,
    Png,
}

/// The format a name stands for; `jpeg` is another name for `jpg`.
pub open spec fn format_of(f: Seq<char>) -> Option<Format> {
    if f == "csv"@ {
        Some(Format::Csv)
    } else if f == "parquet"@ {
        Some(Format::Parquet)
    } else if f == "json"@ {
        Some(Format::Json)
    } else if f == "jsonl"@ {
        Some(Format::Jsonl)
    } else if f == "txt"@ {
        Some(Format::Txt)
    } else if f == "md"@ {
        Some(Format::Md)
    } else if f == "pdf"@ {
        Some(Format::Pdf)
    } else if f == "jpg"@ || f == "jpeg"@ {
        Some(Format::Jpg)
    } else if f == "png"@ {
        Some(Format::Png)
    } else {
        None
    }
}

/// The format named by `format`, if any.
pub fn format_kind(format: &str) -> (r: Option<Format>)
    ensures
        r == format_of(format@),
{
    let f = chars_of(format);
    let f = f.as_slice();
    if chars_are(f, "csv") {
        Some(Format::Csv)
    } else if chars_are(f, "parquet") {
        Some(Format::Parquet)
    } else if chars_are(f, "json") {
        Some(Format::Json)
    } else if chars_are(f, "jsonl") {
        Some(Format::Jsonl)
    } else if chars_are(f, "txt") {
        Some(Format::Txt)
    } else if chars_are(f, "md") {
        Some(Format::Md)
    } else if chars_are(f, "pdf") {
        Some(Format::Pdf)
    } else if chars_are(f, "jpg") || chars_are(f, "jpeg") {
        Some(Format::Jpg)
    } else if chars_are(f, "png") {
        Some(Format::Png)
    } else {
        None
    }
}

/// Whether `format` names a supported format (case-sensitive).
pub fn is_supported_format(format: &str) -> (b: bool)
    ensures
        b == (format_of(format@) is Some),
{
    format_kind(format).is_some()
}

/// Refuses unsupported formats.
pub fn validate_format(format: &str) -> (r: Result<(), Error>)
    ensures
        format_of(format@) is Some ==> r is Ok,
        format_of(format@) is None ==> (r matches Err(Error::UnsupportedFormat { format: f })
            && f@ == format@),
{
    if is_supported_format(format) {
        Ok(())
    } else {
        Err(Error::UnsupportedFormat { format: string_of(format) })
    }
}

/// The file extension of a format: `jpg` for `jpeg`, else the name itself.
pub fn extension(format: &str) -> (e: &str)
    ensures
        e@ == if format@ == "jpeg"@ {
            "jpg"@
        } else {
            format@
        },
{
    if chars_are(chars_of(format).as_slice(), "jpeg") {
        "jpg"
    } else {
        format
    }
}

/// The formats generated when none are requested, in order.
pub open spec fn default_format_names() -> Seq<Seq<char>> {
    seq!["csv"@, "parquet"@, "json"@, "jsonl"@, "txt"@, "md"@, "pdf"@, "jpg"@, "png"@]
}

/// The default formats: csv, parquet, json, jsonl, txt, md, pdf, jpg, png.
pub fn default_formats() -> (v: Vec<String>)
    ensures
        v@.len() == 9,
        forall|i: int| 0 <= i < 9 ==> #[trigger] v@[i]@ == default_format_names()[i],
{
    let mut v: Vec<String> = Vec::new();
    v.push(string_of("csv"));
    v.push(string_of("parquet"));
    v.push(string_of("json"));
    v.push(string_of("jsonl"));
    v.push(string_of("txt"));
    v.push(string_of("md"));
    v.push(string_of("pdf"));
    v.push(string_of("jpg"));
    v.push(string_of("png"));
    v
}

/// What a file of some format is made of.
pub enum Content<'a> {
    /// Chunks of text, written in turn: CSV, JSON, JSON Lines, text, Markdown.
    Stream(TextStream<'a>),
    /// The whole file: PDF, JPG, PNG, Parquet.
    Bytes(Vec<u8>),
}

/// Whether `r` is what `TextStream::new` gives for these arguments.
pub open spec fn stream_started(
    r: Result<Content, Error>,
    format: StreamFormat,
    target: u64,
    tags: Seq<Tag>,
    templates: TemplateOptions,
) -> bool {
    match r {
        Ok(Content::Stream(s)) => {
            &&& s@.format == format
            &&& s@.target == target
            &&& s@.written == 0
            &&& s@.row == 0
            &&& s@.stage == Stage::Start
            &&& s@.template == templates.body_text()
            &&& s@.header == templates.header_text()
            &&& templates.body is None ==> s@.tags == tags_for(format, tags)
        },
        _ => false,
    }
}

/// Whether `r` gives the bytes, or the error, that making a `kind` image of
/// `target` bytes gives.
pub open spec fn image_made(r: Result<Content, Error>, kind: ImageKind, target: u64) -> bool {
    match r {
        Ok(Content::Bytes(b)) => image_result(kind, target) == Ok::<Seq<u8>, Error>(b@),
        Err(e) => image_result(kind, target) == Err::<Seq<u8>, Error>(e),
        _ => false,
    }
}

/// Whether `r` gives the bytes of a Parquet file of at least `target` bytes,
/// or the error of a failed encoding or of rows past the limit.
pub open spec fn parquet_made(r: Result<Content, Error>, target: u64) -> bool {
    match r {
        Ok(Content::Bytes(b)) => b@.len() >= target,
        Err(e) => e is ParquetEncoding || e is RowLimit,
        _ => false,
    }
}

fn stream_content<'a>(
    format: StreamFormat,
    target: u64,
    tags: &[Tag],
    templates: &'a TemplateOptions,
) -> (r: Result<Content<'a>, Error>)
    ensures
        stream_started(r, format, target, tags@, *templates),
{
    Ok(Content::Stream(TextStream::new(format, target, tags, templates)))
}

fn image_content<'a>(kind: ImageKind, target: u64) -> (r: Result<Content<'a>, Error>)
    ensures
        image_made(r, kind, target),
{
    match image_bytes(kind, target) {
        Ok(b) => Ok(Content::Bytes(b)),
        Err(e) => Err(e),
    }
}

/// The content of a `format` file of at least `target` bytes, with `tags` and
/// the row templates. PDF, image and Parquet files are made whole; line
/// formats come as a stream.
pub fn generate_file<'a>(
    format: &str,
    target: u64,
    tags: &[Tag],
    templates: &'a TemplateOptions,
) -> (r: Result<Content<'a>, Error>)
    ensures
        match format_of(format@) {
            Some(Format::Csv) => stream_started(r, StreamFormat::Csv, target, tags@, *templates),
            Some(Format::Json) => stream_started(r, StreamFormat::Json, target, tags@, *templates),
            Some(Format::Jsonl) => stream_started(r, StreamFormat::Jsonl, target, tags@, *templates),
            Some(Format::Txt) => stream_started(r, StreamFormat::Txt, target, tags@, *templates),
            Some(Format::Md) => stream_started(r, StreamFormat::Md, target, tags@, *templates),
            Some(Format::Pdf) => r matches Ok(Content::Bytes(b)) && pdf_made(
                templates.body_text(),
                pdf_prefix(templates.header_text(), tags@),
                target,
                b@,
            ),
            Some(Format::Jpg) => image_made(r, ImageKind::Jpeg, target),
            Some(Format::Png) => image_made(r, ImageKind::Png, target),
            Some(Format::Parquet) => parquet_made(r, target),
            None => r matches Err(Error::UnknownFormat { format: f }) && f@ == format@,
        },
{
    match format_kind(format) {
        Some(Format::Csv) => stream_content(StreamFormat::Csv, target, tags, templates),
        Some(Format::Json) => stream_content(StreamFormat::Json, target, tags, templates),
        Some(Format::Jsonl) => stream_content(StreamFormat::Jsonl, target, tags, templates),
        Some(Format::Txt) => stream_content(StreamFormat::Txt, target, tags, templates),
        Some(Format::Md) => stream_content(StreamFormat::Md, target, tags, templates),
        Some(Format::Pdf) => Ok(Content::Bytes(pdf::write(target, tags, templates))),
        Some(Format::Jpg) => image_content(ImageKind::Jpeg, target),
        Some(Format::Png) => image_content(ImageKind::Png, target),
        Some(Format::Parquet) => match parquet_bytes(target, tags_text(tags).as_str()) {
            Ok(b) => Ok(Content::Bytes(b)),
            Err(e) => Err(e),
        },
        None => Err(Error::UnknownFormat { format: string_of(format) }),
    }
}

} // verus!
