//! The errors that the library reports.

use vstd::prelude::*;
use crate::formats::image::{extension_for_image, image_extension, ImageKind};
use crate::size::{size_label, size_label_spec, DEFAULT_MAX_SIZE};
use crate::text::{decimal, push_decimal, push_str};

verus! {

/// Problems found while parsing a template.
#[derive(Debug, Clone, Copy, PartialEq, Eq, Structural)]
pub enum TemplateError {
    /// A `{{` without a matching `}}`.
    Unclosed,
    /// A `{{ }}` whose key is blank.
    EmptyPlaceholder,
    /// A `}}` that follows no `{{`.
    StrayClosing,
}

/// Everything that can go wrong in the library.
#[derive(Debug)]
pub enum Error {
    /// The numeric part of a size is not a number; `empty` when it has no characters.
    InvalidSize { input: String, empty: bool },
    /// The size is zero.
    SizeNotPositive { input: String },
    /// The unit after the number is not one of the supported units.
    UnsupportedSizeUnit { input: String },
    /// The size does not fit in 64 bits.
    SizeTooLarge { input: String },
    /// A tag without `=`.
    TagMissingSeparator { input: String },
    /// A tag whose key or value is blank.
    TagEmptyPart { input: String },
    /// A tag key with characters outside letters, digits, `_`, `-`, `.`.
    TagInvalidKey { key: String },
    /// The file-name prefix has no file-name-safe character.
    EmptyPrefix,
    /// A custom file name that is blank.
    FileNameEmpty,
    /// A custom file name that is `.` or `..`.
    FileNameNotAFile,
    /// A custom file name with `/` or `\`.
    FileNamePathSeparator,
    /// A template that does not parse; `in_new` when found while building a `Template`.
    Template { kind: TemplateError, in_new: bool },
    /// A placeholder key that names no fake value.
    UnknownPlaceholder { key: String, in_new: bool },
    /// A format name that is not supported.
    UnsupportedFormat { format: String },
    /// A format that no writer handles.
    UnknownFormat { format: String },
    /// An output mode other than text, json, jsonl.
    UnsupportedOutputMode { input: String },
    /// A positional argument that is neither a format, a size, nor an output directory.
    UnknownPositional { part: String },
    /// `--max-files 0`.
    MaxFilesZero,
    /// `--number-of-files 0`.
    NumberOfFilesZero,
    /// The number of requested files overflows.
    FileCountOverflow,
    /// More files than `--max-files` allows.
    TooManyFiles { count: usize, max: usize },
    /// A size above the default limit without `--allow-large`.
    SizeAboveLimit { size: u64 },
    /// Both `--template` and `--template-file`.
    TemplateConflict,
    /// The template file could not be read; `message` says why.
    TemplateFileUnreadable { message: String },
    /// A custom file name that names two generated files alike.
    DuplicateFileName { name: String },
    /// No image up to the largest side reaches the requested size.
    ImageTooSmall { image: ImageKind, target: u64, largest: usize },
    /// The image encoder failed.
    ImageEncoding,
    /// The Parquet encoder failed.
    ParquetEncoding,
    /// A row counter ran past what the payload generator can index.
    RowLimit,
}

/// The text of a template problem.
pub open spec fn template_error_text(kind: TemplateError) -> Seq<char> {
    match kind {
        TemplateError::Unclosed => "template has an unclosed placeholder"@,
        TemplateError::EmptyPlaceholder => "template placeholder cannot be empty"@,
        TemplateError::StrayClosing => "template has a closing placeholder without an opener"@,
    }
}

/// `text`, behind `invalid template: ` when the problem was found while
/// building a `Template`.
pub open spec fn in_template(in_new: bool, text: Seq<char>) -> Seq<char> {
    if in_new {
        "invalid template: "@ + text
    } else {
        text
    }
}

/// The message that reports an error.
pub open spec fn error_message(e: Error) -> Seq<char> {
    match e {
        Error::InvalidSize { input, empty } => "invalid size: "@ + input@ + (if empty {
            ": cannot parse float from empty string"@
        } else {
            ": invalid float literal"@
        }),
        Error::SizeNotPositive { input } => "size must be greater than zero: "@ + input@,
        Error::UnsupportedSizeUnit { input } => "unsupported size unit in "@ + input@
            + "; use B, b, kB, kb, KiB, Kib, MB, Mb, MiB, Mib, GB, Gb, GiB, or Gib"@,
        Error::SizeTooLarge { input } => "size is too large: "@ + input@,
        Error::TagMissingSeparator { input } => "invalid tag `"@ + input@
            + "`; expected KEY=VALUE"@,
        Error::TagEmptyPart { input } => "invalid tag `"@ + input@
            + "`; key and value must be non-empty"@,
        Error::TagInvalidKey { key } => "invalid tag key `"@ + key@
            + "`; use letters, numbers, _, -, or ."@,
        Error::EmptyPrefix => "prefix must contain at least one filename-safe character"@,
        Error::FileNameEmpty => "custom file name must not be empty"@,
        Error::FileNameNotAFile => "custom file name must name a file"@,
        Error::FileNamePathSeparator => "custom file name must not contain path separators"@,
        Error::Template { kind, in_new } => in_template(in_new, template_error_text(kind)),
        Error::UnknownPlaceholder { key, in_new } => in_template(
            in_new,
            "unknown template placeholder `"@ + key@ + "`"@,
        ),
        Error::UnsupportedFormat { format } => "unsupported format: "@ + format@
            + "; run `dumpx --list-formats`"@,
        Error::UnknownFormat { format } => "unsupported format: "@ + format@,
        Error::UnsupportedOutputMode { input } => "unsupported output mode `"@ + input@
            + "`; use text, json, or jsonl"@,
        Error::UnknownPositional { part } => "could not infer positional argument `"@ + part@
            + "` as a format, size, or output directory"@,
        Error::MaxFilesZero => "--max-files must be greater than zero"@,
        Error::NumberOfFilesZero => "--number-of-files must be greater than zero"@,
        Error::FileCountOverflow => "requested file count overflowed"@,
        Error::TooManyFiles { count, max } => "requested "@ + decimal(count as nat)
            + " files, which exceeds --max-files "@ + decimal(max as nat),
        Error::SizeAboveLimit { size } => "requested size "@ + size_label_spec(size as nat)
            + " exceeds default limit "@ + size_label_spec(DEFAULT_MAX_SIZE as nat)
            + "; pass --allow-large to override"@,
        Error::TemplateConflict => "use either --template or --template-file, not both"@,
        Error::TemplateFileUnreadable { message } => message@,
        Error::DuplicateFileName { name } => "custom file name produced duplicate output path: "@
            + name@,
        Error::ImageTooSmall { image, target, largest } => "could not generate "@
            + image_extension(image) + " image at requested size "@ + size_label_spec(target as nat)
            + "; largest attempt was "@ + decimal(largest as nat) + " bytes"@,
        Error::ImageEncoding => "failed to encode image"@,
        Error::ParquetEncoding => "failed to encode parquet file"@,
        Error::RowLimit => "row number ran past the supported limit"@,
    }
}

fn push_template_text(s: &mut String, kind: TemplateError)
    ensures
        final(s)@ == old(s)@ + template_error_text(kind),
{
    match kind {
        TemplateError::Unclosed => push_str(s, "template has an unclosed placeholder"),
        TemplateError::EmptyPlaceholder => push_str(s, "template placeholder cannot be empty"),
        TemplateError::StrayClosing => push_str(
            s,
            "template has a closing placeholder without an opener",
        ),
    }
}

impl Error {
    /// The message that reports this error.
    pub fn message(&self) -> (s: String)
        ensures
            s@ == error_message(*self),
    {
        let mut s = String::new();
        match self {
            Error::InvalidSize { input, empty } => {
                push_str(&mut s, "invalid size: ");
                push_str(&mut s, input.as_str());
                if *empty {
                    push_str(&mut s, ": cannot parse float from empty string");
                } else {
                    push_str(&mut s, ": invalid float literal");
                }
            },
            Error::SizeNotPositive { input } => {
                push_str(&mut s, "size must be greater than zero: ");
                push_str(&mut s, input.as_str());
            },
            Error::UnsupportedSizeUnit { input } => {
                push_str(&mut s, "unsupported size unit in ");
                push_str(&mut s, input.as_str());
                push_str(
                    &mut s,
                    "; use B, b, kB, kb, KiB, Kib, MB, Mb, MiB, Mib, GB, Gb, GiB, or Gib",
                );
            },
            Error::SizeTooLarge { input } => {
                push_str(&mut s, "size is too large: ");
                push_str(&mut s, input.as_str());
            },
            Error::TagMissingSeparator { input } => {
                push_str(&mut s, "invalid tag `");
                push_str(&mut s, input.as_str());
                push_str(&mut s, "`; expected KEY=VALUE");
            },
            Error::TagEmptyPart { input } => {
                push_str(&mut s, "invalid tag `");
                push_str(&mut s, input.as_str());
                push_str(&mut s, "`; key and value must be non-empty");
            },
            Error::TagInvalidKey { key } => {
                push_str(&mut s, "invalid tag key `");
                push_str(&mut s, key.as_str());
                push_str(&mut s, "`; use letters, numbers, _, -, or .");
            },
            Error::EmptyPrefix => push_str(
                &mut s,
                "prefix must contain at least one filename-safe character",
            ),
            Error::FileNameEmpty => push_str(&mut s, "custom file name must not be empty"),
            Error::FileNameNotAFile => push_str(&mut s, "custom file name must name a file"),
            Error::FileNamePathSeparator => push_str(
                &mut s,
                "custom file name must not contain path separators",
            ),
            Error::Template { kind, in_new } => {
                if *in_new {
                    push_str(&mut s, "invalid template: ");
                }
                push_template_text(&mut s, *kind);
            },
            Error::UnknownPlaceholder { key, in_new } => {
                if *in_new {
                    push_str(&mut s, "invalid template: ");
                }
                push_str(&mut s, "unknown template placeholder `");
                push_str(&mut s, key.as_str());
                push_str(&mut s, "`");
            },
            Error::UnsupportedFormat { format } => {
                push_str(&mut s, "unsupported format: ");
                push_str(&mut s, format.as_str());
                push_str(&mut s, "; run `dumpx --list-formats`");
            },
            Error::UnknownFormat { format } => {
                push_str(&mut s, "unsupported format: ");
                push_str(&mut s, format.as_str());
            },
            Error::UnsupportedOutputMode { input } => {
                push_str(&mut s, "unsupported output mode `");
                push_str(&mut s, input.as_str());
                push_str(&mut s, "`; use text, json, or jsonl");
            },
            Error::UnknownPositional { part } => {
                push_str(&mut s, "could not infer positional argument `");
                push_str(&mut s, part.as_str());
                push_str(&mut s, "` as a format, size, or output directory");
            },
            Error::MaxFilesZero => push_str(&mut s, "--max-files must be greater than zero"),
            Error::NumberOfFilesZero => push_str(
                &mut s,
                "--number-of-files must be greater than zero",
            ),
            Error::FileCountOverflow => push_str(&mut s, "requested file count overflowed"),
            Error::TooManyFiles { count, max } => {
                push_str(&mut s, "requested ");
                push_decimal(&mut s, *count as u64);
                push_str(&mut s, " files, which exceeds --max-files ");
                push_decimal(&mut s, *max as u64);
            },
            Error::SizeAboveLimit { size } => {
                push_str(&mut s, "requested size ");
                let l = size_label(*size);
                push_str(&mut s, l.as_str());
                push_str(&mut s, " exceeds default limit ");
                let m = size_label(DEFAULT_MAX_SIZE);
                push_str(&mut s, m.as_str());
                push_str(&mut s, "; pass --allow-large to override");
            },
            Error::TemplateConflict => push_str(
                &mut s,
                "use either --template or --template-file, not both",
            ),
            Error::TemplateFileUnreadable { message } => push_str(&mut s, message.as_str()),
            Error::DuplicateFileName { name } => {
                push_str(&mut s, "custom file name produced duplicate output path: ");
                push_str(&mut s, name.as_str());
            },
            Error::ImageTooSmall { image, target, largest } => {
                push_str(&mut s, "could not generate ");
                push_str(&mut s, extension_for_image(*image));
                push_str(&mut s, " image at requested size ");
                let l = size_label(*target);
                push_str(&mut s, l.as_str());
                push_str(&mut s, "; largest attempt was ");
                push_decimal(&mut s, *largest as u64);
                push_str(&mut s, " bytes");
            },
            Error::ImageEncoding => push_str(&mut s, "failed to encode image"),
            Error::ParquetEncoding => push_str(&mut s, "failed to encode parquet file"),
            Error::RowLimit => push_str(&mut s, "row number ran past the supported limit"),
        }
        proof {
            assert(s@ =~= error_message(*self));
        }
        s
    }
}

} // verus!
