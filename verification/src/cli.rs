//! The command line: its arguments, how positional words are read, the limits
//! of a run, and the plan of the files a run generates.

use vstd::prelude::*;
use crate::error::Error;
use crate::formats::{default_format_names, default_formats, extension, format_of, is_supported_format};
use crate::naming::{Tag, all_safe, default_name, law_stem_is_file_safe, file_name_fault, file_stem_prefix, generated_file_name, is_tag_error, is_tag_of, parse_tags, render_name, sanitize, stem_pieces, tag_piece, tag_verdict};
use crate::output::OutputMode;
use crate::size::{default_sizes, parse_size, parse_size_result, size_label, size_label_spec, size_verdict, SizeVerdict, DEFAULT_MAX_SIZE};
use crate::template::{Template, TemplateOptions, is_fault_error, parse_template};
use crate::text::{ascii_lower, join, replace, chars_of, chars_are, split, split_state, string_from_chars, string_of, to_ascii_lower, trim, trim_chars};

verus! {

/// The default cap on the files of one run.
pub const DEFAULT_MAX_FILES: usize = 100;

// ---------------------------------------------------------------------------
// Comma-separated values
// ---------------------------------------------------------------------------

/// The texts of a sequence of strings.
pub open spec fn strs(v: Seq<String>) -> Seq<Seq<char>> {
    v.map_values(|s: String| s@)
}

/// The trimmed pieces that are not blank, in order.
pub open spec fn kept_parts(pieces: Seq<Seq<char>>) -> Seq<Seq<char>>
    decreases pieces.len(),
{
    if pieces.len() == 0 {
        Seq::empty()
    } else {
        let r = kept_parts(pieces.drop_last());
        let t = trim(pieces.last());
        if t.len() > 0 {
            r.push(t)
        } else {
            r
        }
    }
}

/// The comma-separated values of `s`: split at commas, trimmed, blanks dropped.
pub open spec fn comma_parts(s: Seq<char>) -> Seq<Seq<char>> {
    kept_parts(split(s, ','))
}

proof fn lemma_kept_push(pieces: Seq<Seq<char>>, p: Seq<char>)
    ensures
        kept_parts(pieces.push(p)) == if trim(p).len() > 0 {
            kept_parts(pieces).push(trim(p))
        } else {
            kept_parts(pieces)
        },
{
    assert(pieces.push(p).drop_last() =~= pieces);
}

/// Appends the trimmed text of `cur` to `out` when it is not blank.
fn keep_part(out: &mut Vec<String>, cur: &Vec<char>)
    ensures
        strs(final(out)@) == if trim(cur@).len() > 0 {
            strs(old(out)@).push(trim(cur@))
        } else {
            strs(old(out)@)
        },
{
    let t = trim_chars(cur.as_slice());
    if t.len() > 0 {
        let s = string_from_chars(t.as_slice());
        out.push(s);
        assert(strs(out@) =~= strs(old(out)@).push(trim(cur@)));
    }
}

/// The comma-separated values of `input`, trimmed, without blanks.
pub fn split_prompt_values(input: &str) -> (v: Vec<String>)
    ensures
        strs(v@) == comma_parts(input@),
{
    let c = chars_of(input);
    let mut out: Vec<String> = Vec::new();
    let mut cur: Vec<char> = Vec::new();
    let mut i: usize = 0;
    while i < c.len()
        invariant
            i <= c.len(),
            c@ == input@,
            cur@ == split_state(c@.take(i as int), ',').1,
            strs(out@) == kept_parts(split_state(c@.take(i as int), ',').0),
        decreases c.len() - i,
    {
        let ghost pre = c@.take(i as int);
        proof {
            assert(c@.take(i + 1).drop_last() =~= pre);
            assert(c@.take(i + 1).last() == c@[i as int]);
        }
        if c[i] == ',' {
            proof {
                lemma_kept_push(split_state(pre, ',').0, cur@);
            }
            keep_part(&mut out, &cur);
            cur = Vec::new();
        } else {
            cur.push(c[i]);
        }
        i += 1;
    }
    proof {
        assert(c@.take(c.len() as int) =~= c@);
        lemma_kept_push(split_state(c@, ',').0, cur@);
    }
    keep_part(&mut out, &cur);
    out
}

/// The answer to a prompt: the trimmed input, or `default` when it is blank.
pub fn prompt_value(input: &str, default: &str) -> (v: String)
    ensures
        v@ == if trim(input@).len() == 0 {
            default@
        } else {
            trim(input@)
        },
{
    let t = trim_chars(chars_of(input).as_slice());
    if t.len() == 0 {
        string_of(default)
    } else {
        string_from_chars(t.as_slice())
    }
}

/// The output mode a word names: `text`, `json` or `jsonl`, ignoring case
/// and surrounding space.
pub open spec fn output_mode_of(s: Seq<char>) -> Option<OutputMode> {
    let w = ascii_lower(trim(s));
    if w == "text"@ {
        Some(OutputMode::Text)
    } else if w == "json"@ {
        Some(OutputMode::Json)
    } else if w == "jsonl"@ {
        Some(OutputMode::Jsonl)
    } else {
        None
    }
}

/// Reads an output mode.
pub fn parse_output_mode(input: &str) -> (r: Result<OutputMode, Error>)
    ensures
        match output_mode_of(input@) {
            Some(m) => r == Ok::<OutputMode, Error>(m),
            None => r matches Err(Error::UnsupportedOutputMode { input: i }) && i@ == input@,
        },
{
    let t = trim_chars(chars_of(input).as_slice());
    let w = to_ascii_lower(t.as_slice());
    if chars_are(w.as_slice(), "text") {
        Ok(OutputMode::Text)
    } else if chars_are(w.as_slice(), "json") {
        Ok(OutputMode::Json)
    } else if chars_are(w.as_slice(), "jsonl") {
        Ok(OutputMode::Jsonl)
    } else {
        Err(Error::UnsupportedOutputMode { input: string_of(input) })
    }
}

// ---------------------------------------------------------------------------
// Merging and limits
// ---------------------------------------------------------------------------

/// The flagged values followed by the positional ones, or the defaults when
/// there are none.
pub open spec fn merged(
    flagged: Option<Seq<Seq<char>>>,
    positional: Seq<Seq<char>>,
    defaults: Seq<Seq<char>>,
) -> Seq<Seq<char>> {
    let v = match flagged {
        Some(f) => f,
        None => Seq::empty(),
    } + positional;
    if v.len() == 0 {
        defaults
    } else {
        v
    }
}

/// The texts of an optional list of strings.
pub open spec fn opt_strs(v: Option<Vec<String>>) -> Option<Seq<Seq<char>>> {
    match v {
        Some(v) => Some(strs(v@)),
        None => None,
    }
}

/// The flagged values followed by the positional ones, or the defaults.
pub fn merge_or_default(
    flagged: Option<Vec<String>>,
    positional: Vec<String>,
    default_values: Vec<String>,
) -> (v: Vec<String>)
    ensures
        strs(v@) == merged(opt_strs(flagged), strs(positional@), strs(default_values@)),
{
    let ghost f = opt_strs(flagged);
    let mut values = match flagged {
        Some(v) => v,
        None => Vec::new(),
    };
    let ghost start = values@;
    let mut positional = positional;
    let ghost pos = positional@;
    values.append(&mut positional);
    assert(strs(values@) =~= match f {
        Some(f) => f,
        None => Seq::<Seq<char>>::empty(),
    } + strs(pos));
    if values.len() == 0 {
        default_values
    } else {
        values
    }
}

/// The error that the limits of a run give, if any: `--max-files` must be
/// positive, the files (formats times sizes) must be countable and at most
/// `--max-files`, and without `--allow-large` no size may pass the default limit.
pub open spec fn limits_error(
    sizes: Seq<u64>,
    format_count: usize,
    allow_large: bool,
    max_files: usize,
) -> Option<Error> {
    let count = sizes.len() * format_count;
    if max_files == 0 {
        Some(Error::MaxFilesZero)
    } else if count > usize::MAX {
        Some(Error::FileCountOverflow)
    } else if count > max_files {
        Some(Error::TooManyFiles { count: count as usize, max: max_files })
    } else if !allow_large && first_large(sizes) is Some {
        Some(Error::SizeAboveLimit { size: first_large(sizes)->Some_0 })
    } else {
        None
    }
}

/// The first size above the default limit, if any.
pub open spec fn first_large(sizes: Seq<u64>) -> Option<u64>
    decreases sizes.len(),
{
    if sizes.len() == 0 {
        None
    } else if sizes[0] > DEFAULT_MAX_SIZE {
        Some(sizes[0])
    } else {
        first_large(sizes.skip(1))
    }
}

/// Checks the limits of a run.
pub fn validate_generation_limits(
    sizes: &[u64],
    format_count: usize,
    allow_large: bool,
    max_files: usize,
) -> (r: Result<(), Error>)
    ensures
        match limits_error(sizes@, format_count, allow_large, max_files) {
            None => r is Ok,
            Some(e) => r == Err::<(), Error>(e),
        },
{
    assert(sizes@.skip(0) =~= sizes@);
    if max_files == 0 {
        return Err(Error::MaxFilesZero);
    }
    let file_count = match sizes.len().checked_mul(format_count) {
        Some(c) => c,
        None => {
            return Err(Error::FileCountOverflow);
        },
    };
    if file_count > max_files {
        return Err(Error::TooManyFiles { count: file_count, max: max_files });
    }
    if !allow_large {
        let mut i: usize = 0;
        while i < sizes.len()
            invariant
                i <= sizes.len(),
                first_large(sizes@) == first_large(sizes@.skip(i as int)),
                max_files != 0,
                sizes@.len() * format_count <= max_files,
                !allow_large,
            decreases sizes.len() - i,
        {
            assert(sizes@.skip(i as int)[0] == sizes@[i as int]);
            if sizes[i] > DEFAULT_MAX_SIZE {
                return Err(Error::SizeAboveLimit { size: sizes[i] });
            }
            assert(sizes@.skip(i as int).skip(1) =~= sizes@.skip(i + 1));
            i += 1;
        }
        assert(sizes@.skip(i as int) =~= Seq::<u64>::empty());
    }
    Ok(())
}

// ---------------------------------------------------------------------------
// Positional words
// ---------------------------------------------------------------------------

/// What positional words have given: formats, sizes and an output directory.
pub struct Reading {
    pub formats: Seq<Seq<char>>,
    pub sizes: Seq<Seq<char>>,
    pub out_dir: Option<Seq<char>>,
}

/// Whether a word reads as a size.
pub open spec fn is_size_word(p: Seq<char>) -> bool {
    size_verdict(p) is Bytes
}

/// Reads one comma-separated part: a format (lower-cased), else a size,
/// else, once a format and a size are known and for a word that is not a
/// comma group, the output directory (only one).
pub open spec fn read_part(st: Reading, part: Seq<char>, group: bool) -> Option<Reading> {
    let lower = ascii_lower(part);
    if format_of(lower) is Some {
        Some(Reading { formats: st.formats.push(lower), ..st })
    } else if is_size_word(part) {
        Some(Reading { sizes: st.sizes.push(part), ..st })
    } else if !group && st.out_dir is None && st.formats.len() > 0 && st.sizes.len() > 0 {
        Some(Reading { out_dir: Some(part), ..st })
    } else {
        None
    }
}

/// Reads the parts of one word in turn; the first part that reads as
/// nothing is the error.
pub open spec fn read_parts(st: Reading, parts: Seq<Seq<char>>, group: bool) -> Result<
    Reading,
    Seq<char>,
>
    decreases parts.len(),
{
    if parts.len() == 0 {
        Ok(st)
    } else {
        match read_parts(st, parts.drop_last(), group) {
            Ok(s) => match read_part(s, parts.last(), group) {
                Some(s2) => Ok(s2),
                None => Err(parts.last()),
            },
            Err(p) => Err(p),
        }
    }
}

/// Reads the positional words in turn.
pub open spec fn read_items(items: Seq<Seq<char>>) -> Result<Reading, Seq<char>>
    decreases items.len(),
{
    if items.len() == 0 {
        Ok(Reading { formats: Seq::empty(), sizes: Seq::empty(), out_dir: None })
    } else {
        match read_items(items.drop_last()) {
            Ok(st) => {
                let parts = comma_parts(items.last());
                read_parts(st, parts, parts.len() > 1)
            },
            Err(p) => Err(p),
        }
    }
}

proof fn lemma_parts_err(st: Reading, ps: Seq<Seq<char>>, k: int, group: bool, p: Seq<char>)
    requires
        0 <= k <= ps.len(),
        read_parts(st, ps.take(k), group) == Err::<Reading, Seq<char>>(p),
    ensures
        read_parts(st, ps, group) == Err::<Reading, Seq<char>>(p),
    decreases ps.len() - k,
{
    if k < ps.len() {
        assert(ps.take(k + 1).drop_last() =~= ps.take(k));
        lemma_parts_err(st, ps, k + 1, group, p);
    } else {
        assert(ps.take(k) =~= ps);
    }
}

proof fn lemma_items_err(items: Seq<Seq<char>>, k: int, p: Seq<char>)
    requires
        0 <= k <= items.len(),
        read_items(items.take(k)) == Err::<Reading, Seq<char>>(p),
    ensures
        read_items(items) == Err::<Reading, Seq<char>>(p),
    decreases items.len() - k,
{
    if k < items.len() {
        assert(items.take(k + 1).drop_last() =~= items.take(k));
        lemma_items_err(items, k + 1, p);
    } else {
        assert(items.take(k) =~= items);
    }
}

/// The formats, sizes and output directory read from positional words.
#[derive(Debug)]
pub struct Positional {
    pub formats: Vec<String>,
    pub sizes: Vec<String>,
    pub out_dir: Option<String>,
}

impl Positional {
    /// What the words gave.
    pub open spec fn reading(&self) -> Reading {
        Reading {
            formats: strs(self.formats@),
            sizes: strs(self.sizes@),
            out_dir: match self.out_dir {
                Some(d) => Some(d@),
                None => None,
            },
        }
    }
}

/// Reads one part into `pos`; `false` when it reads as nothing.
fn read_one(pos: &mut Positional, part: &String, group: bool) -> (ok: bool)
    ensures
        match read_part(old(pos).reading(), part@, group) {
            Some(st) => ok && final(pos).reading() == st,
            None => !ok,
        },
{
    let lower = string_from_chars(to_ascii_lower(chars_of(part.as_str()).as_slice()).as_slice());
    if is_supported_format(lower.as_str()) {
        pos.formats.push(lower);
        assert(pos.reading().formats =~= old(pos).reading().formats.push(ascii_lower(part@)));
        true
    } else if parse_size(part.as_str()).is_ok() {
        pos.sizes.push(string_of(part.as_str()));
        assert(pos.reading().sizes =~= old(pos).reading().sizes.push(part@));
        true
    } else if !group && pos.out_dir.is_none() && pos.formats.len() > 0 && pos.sizes.len() > 0 {
        pos.out_dir = Some(string_of(part.as_str()));
        assert(pos.reading().formats =~= old(pos).reading().formats);
        assert(pos.reading().sizes =~= old(pos).reading().sizes);
        true
    } else {
        false
    }
}

/// Reads positional words: each is split at commas; every part is a format,
/// a size, or (alone, after a format and a size) the output directory.
pub fn infer_positional_items(items: &[String]) -> (r: Result<Positional, Error>)
    ensures
        match read_items(strs(items@)) {
            Ok(st) => r matches Ok(p) && p.reading() == st,
            Err(part) => r matches Err(Error::UnknownPositional { part: q }) && q@ == part,
        },
{
    let mut pos = Positional { formats: Vec::new(), sizes: Vec::new(), out_dir: None };
    let mut i: usize = 0;
    assert(strs(items@).take(0) =~= Seq::<Seq<char>>::empty());
    assert(pos.reading().formats =~= Seq::<Seq<char>>::empty());
    assert(pos.reading().sizes =~= Seq::<Seq<char>>::empty());
    while i < items.len()
        invariant
            i <= items.len(),
            read_items(strs(items@).take(i as int)) == Ok::<Reading, Seq<char>>(pos.reading()),
        decreases items.len() - i,
    {
        let ghost all = strs(items@);
        let ghost st0 = pos.reading();
        proof {
            assert(all.take(i + 1).drop_last() =~= all.take(i as int));
            assert(all.take(i + 1).last() == items@[i as int]@);
        }
        let parts = split_prompt_values(items[i].as_str());
        let group = parts.len() > 1;
        let mut j: usize = 0;
        assert(strs(parts@).take(0) =~= Seq::<Seq<char>>::empty());
        while j < parts.len()
            invariant
                j <= parts.len(),
                i < items.len(),
                all == strs(items@),
                read_items(all.take(i as int)) == Ok::<Reading, Seq<char>>(st0),
                read_items(all.take(i + 1)) == read_parts(st0, strs(parts@), group),
                group == (parts.len() > 1),
                read_parts(st0, strs(parts@).take(j as int), group) == Ok::<Reading, Seq<char>>(
                    pos.reading(),
                ),
            decreases parts.len() - j,
        {
            proof {
                assert(strs(parts@).take(j + 1).drop_last() =~= strs(parts@).take(j as int));
                assert(strs(parts@).take(j + 1).last() == parts@[j as int]@);
            }
            if !read_one(&mut pos, &parts[j], group) {
                proof {
                    lemma_parts_err(st0, strs(parts@), j + 1, group, parts@[j as int]@);
                    lemma_items_err(all, i + 1, parts@[j as int]@);
                }
                return Err(Error::UnknownPositional { part: string_of(parts[j].as_str()) });
            }
            j += 1;
        }
        proof {
            assert(strs(parts@).take(parts.len() as int) =~= strs(parts@));
        }
        i += 1;
    }
    proof {
        assert(strs(items@).take(items.len() as int) =~= strs(items@));
    }
    Ok(pos)
}

// ---------------------------------------------------------------------------
// Templates
// ---------------------------------------------------------------------------

/// Whether `r` is the outcome of loading the row template: from `--template`,
/// or from the text of `--template-file` (or why it could not be read), not
/// both; with the header line.
pub open spec fn templates_loaded(
    template: Option<Seq<char>>,
    file: Option<Result<Seq<char>, Seq<char>>>,
    header: Option<Seq<char>>,
    r: Result<TemplateOptions, Error>,
) -> bool {
    let source = match template {
        Some(t) => Some(t),
        None => match file {
            Some(Ok(c)) => Some(c),
            _ => None,
        },
    };
    if template is Some && file is Some {
        r == Err::<TemplateOptions, Error>(Error::TemplateConflict)
    } else if file matches Some(Err(m)) && template is None {
        r matches Err(Error::TemplateFileUnreadable { message }) && message@ == file->Some_0->Err_0
    } else {
        match source {
            Some(src) => match parse_template(src) {
                Ok(_) => r matches Ok(o) && o.body_text() == Some(src) && o.header_text() == header,
                Err(f) => r matches Err(e) && is_fault_error(f, true, e),
            },
            None => r matches Ok(o) && o.body is None && o.header_text() == header,
        }
    }
}

/// The text of an optional string.
pub open spec fn opt_str(v: Option<String>) -> Option<Seq<char>> {
    match v {
        Some(s) => Some(s@),
        None => None,
    }
}

/// The text, or the read error, of an optional template file.
pub open spec fn file_view(v: Option<Result<String, String>>) -> Option<Result<Seq<char>, Seq<char>>> {
    match v {
        Some(Ok(s)) => Some(Ok(s@)),
        Some(Err(m)) => Some(Err(m@)),
        None => None,
    }
}

/// Loads the row template from `--template` or from the text of
/// `--template-file` (`file` is its text, or the message of the read error),
/// and keeps the header line.
pub fn load_templates(
    template: Option<String>,
    file: Option<Result<String, String>>,
    header: Option<String>,
) -> (r: Result<TemplateOptions, Error>)
    ensures
        templates_loaded(opt_str(template), file_view(file), opt_str(header), r),
{
    if template.is_some() && file.is_some() {
        return Err(Error::TemplateConflict);
    }
    let body = match template {
        Some(t) => match Template::new(t.as_str()) {
            Ok(t) => Some(t),
            Err(e) => {
                return Err(e);
            },
        },
        None => match file {
            Some(Ok(c)) => match Template::new(c.as_str()) {
                Ok(t) => Some(t),
                Err(e) => {
                    return Err(e);
                },
            },
            Some(Err(m)) => {
                return Err(Error::TemplateFileUnreadable { message: m });
            },
            None => None,
        },
    };
    Ok(TemplateOptions { body, header })
}

// ---------------------------------------------------------------------------
// Arguments
// ---------------------------------------------------------------------------

/// The command-line arguments.
#[derive(Debug)]
pub struct Args {
    /// Output directory for generated files.
    pub out_dir: String,
    /// Target sizes.
    pub sizes: Option<Vec<String>>,
    /// File formats.
    pub formats: Option<Vec<String>>,
    /// `KEY=VALUE` tags.
    pub tags: Vec<String>,
    /// Prefix used in generated file names.
    pub prefix: String,
    /// Custom file name, or file-name template.
    pub name: Option<String>,
    /// Files to generate for each format and size.
    pub number_of_files: usize,
    /// Row template.
    pub template: Option<String>,
    /// Path of a file holding the row template.
    pub template_file: Option<String>,
    /// Header line written once before templated rows.
    pub template_header: Option<String>,
    /// Overwrite existing files.
    pub force: bool,
    /// Allow sizes above the default limit.
    pub allow_large: bool,
    /// Maximum number of format and size pairs.
    pub max_files: usize,
    /// Output style.
    pub output: OutputMode,
    /// Suppress per-file reports.
    pub quiet: bool,
    /// Shorthand for quiet JSON output.
    pub json: bool,
    /// Older shorthand for quiet JSON output.
    pub agent: bool,
    /// Print the supported formats and stop.
    pub list_formats: bool,
    /// Positional formats, sizes and output directory.
    pub items: Vec<String>,
}

impl Args {
    /// The output mode: JSON under `--json` or `--agent`, else `--output`.
    pub open spec fn mode(&self) -> OutputMode {
        if self.json || self.agent {
            OutputMode::Json
        } else {
            self.output
        }
    }

    /// The output mode: JSON under `--json` or `--agent`, else `--output`.
    pub fn output_mode(&self) -> (m: OutputMode)
        ensures
            m == self.mode(),
    {
        if self.json || self.agent {
            OutputMode::Json
        } else {
            self.output
        }
    }

    /// Whether per-file reports are suppressed: `--quiet`, `--json` or `--agent`.
    pub open spec fn silent(&self) -> bool {
        self.quiet || self.json || self.agent
    }

    /// Whether per-file reports are suppressed: `--quiet`, `--json` or `--agent`.
    pub fn quiet(&self) -> (q: bool)
        ensures
            q == self.silent(),
    {
        self.quiet || self.json || self.agent
    }
}

/// The arguments that the interactive prompts give: the answers for the
/// output directory, sizes, formats, tags (comma-separated), prefix and output
/// mode; everything else at its default.
pub fn args_from_prompts(
    out_dir: &str,
    sizes: &str,
    formats: &str,
    tags: &str,
    prefix: &str,
    output: &str,
) -> (r: Result<Args, Error>)
    ensures
        match output_mode_of(output@) {
            Some(m) => r matches Ok(a) && {
                &&& a.out_dir@ == out_dir@
                &&& opt_strs(a.sizes) == Some(comma_parts(sizes@))
                &&& opt_strs(a.formats) == Some(comma_parts(formats@))
                &&& strs(a.tags@) == comma_parts(tags@)
                &&& a.prefix@ == prefix@
                &&& a.name is None
                &&& a.number_of_files == 1
                &&& a.template is None
                &&& a.template_file is None
                &&& a.template_header is None
                &&& !a.force && !a.allow_large
                &&& a.max_files == DEFAULT_MAX_FILES
                &&& a.output == m
                &&& !a.quiet && !a.json && !a.agent && !a.list_formats
                &&& a.items@.len() == 0
            },
            None => r matches Err(Error::UnsupportedOutputMode { input: i }) && i@ == output@,
        },
{
    let sizes = split_prompt_values(sizes);
    let formats = split_prompt_values(formats);
    let tags = split_prompt_values(tags);
    let output = match parse_output_mode(output) {
        Ok(m) => m,
        Err(e) => {
            return Err(e);
        },
    };
    Ok(Args {
        out_dir: string_of(out_dir),
        sizes: Some(sizes),
        formats: Some(formats),
        tags,
        prefix: string_of(prefix),
        name: None,
        number_of_files: 1,
        template: None,
        template_file: None,
        template_header: None,
        force: false,
        allow_large: false,
        max_files: DEFAULT_MAX_FILES,
        output,
        quiet: false,
        json: false,
        agent: false,
        list_formats: false,
        items: Vec::new(),
    })
}

// ---------------------------------------------------------------------------
// The files of a run
// ---------------------------------------------------------------------------

/// The name template used without `--name` when each format and size pair
/// gets more than one file.
pub open spec fn indexed_name_template() -> Seq<char> {
    "{prefix}_{size}_{index}.{extension}"@
}

/// The extension of a (lower-case) format.
pub open spec fn ext_of(f: Seq<char>) -> Seq<char> {
    if f == "jpeg"@ {
        "jpg"@
    } else {
        f
    }
}

/// How the files of a run are laid out: for each format in order, for each
/// size in order, `count` files, numbered from 1.
pub struct Layout {
    pub formats: Seq<Seq<char>>,
    pub sizes: Seq<u64>,
    pub count: nat,
    pub custom: Option<Seq<char>>,
    pub stem: Seq<char>,
}

impl Layout {
    /// The number of files.
    pub open spec fn total(self) -> int {
        self.formats.len() * (self.sizes.len() * self.count) as int
    }

    /// The (lower-cased) format of file `k`.
    pub open spec fn format(self, k: int) -> Seq<char> {
        ascii_lower(self.formats[k / ((self.sizes.len() * self.count) as int)])
    }

    /// The size of file `k`.
    pub open spec fn size(self, k: int) -> u64 {
        self.sizes[(k / (self.count as int)) % (self.sizes.len() as int)]
    }

    /// The number of file `k` among the files of its format and size.
    pub open spec fn index(self, k: int) -> nat {
        (k % (self.count as int) + 1) as nat
    }

    /// The name template: `--name`, else the numbered default when there are
    /// several files per format and size.
    pub open spec fn template(self) -> Option<Seq<char>> {
        match self.custom {
            Some(t) => Some(t),
            None => if self.count > 1 {
                Some(indexed_name_template())
            } else {
                None
            },
        }
    }

    /// The file name of file `k`.
    pub open spec fn name(self, k: int) -> Seq<char> {
        let f = self.format(k);
        let label = size_label_spec(self.size(k) as nat);
        match self.template() {
            Some(t) => render_name(t, self.stem, f, label, ext_of(f), self.index(k)),
            None => default_name(self.stem, label, ext_of(f)),
        }
    }

    /// Whether file `k` cannot be made: its format is unsupported, or its name is refused.
    pub open spec fn bad(self, k: int) -> bool {
        format_of(self.format(k)) is None || file_name_fault(self.name(k)) is Some
    }

    /// Whether `e` is the error of file `k`.
    pub open spec fn error_at(self, k: int, e: Error) -> bool {
        if format_of(self.format(k)) is None {
            e matches Error::UnsupportedFormat { format: g } && g@ == self.format(k)
        } else {
            file_name_fault(self.name(k)) == Some(e)
        }
    }

    /// Whether `f` describes file `k`.
    pub open spec fn planned(self, k: int, f: PlannedFile) -> bool {
        &&& f.format@ == self.format(k)
        &&& f.size == self.size(k)
        &&& f.size_label@ == size_label_spec(self.size(k) as nat)
        &&& f.file_name@ == self.name(k)
    }

    /// Whether `files` and `failure` are the files of the layout up to the
    /// first that cannot be made, and that file's error.
    pub open spec fn made(self, files: Seq<PlannedFile>, failure: Option<Error>) -> bool {
        &&& files.len() <= self.total()
        &&& forall|k: int| 0 <= k < files.len() ==> !self.bad(k)
        &&& forall|k: int| 0 <= k < files.len() ==> self.planned(k, #[trigger] files[k])
        &&& files.len() < self.total() ==> (failure matches Some(e) && self.bad(files.len() as int)
            && self.error_at(files.len() as int, e))
        &&& files.len() == self.total() ==> failure is None
        &&& self.custom is Some ==> forall|i: int, j: int|
            0 <= i < j < files.len() ==> self.name(i) != self.name(j)
    }

    /// Whether `e` refuses the layout: with a custom name, some file before
    /// the first that cannot be made repeats the name of an earlier one, and `e`
    /// names the first such.
    pub open spec fn refusal(self, e: Error) -> bool {
        self.custom is Some && exists|j: int|
            #![trigger self.first_repeat(j)]
            0 <= j < self.total() && (forall|k: int| 0 <= k <= j ==> !self.bad(k))
                && self.first_repeat(j) && (e matches Error::DuplicateFileName { name: d }
                && d@ == self.name(j))
    }

    /// Whether file `j` is the first whose name repeats an earlier one.
    pub open spec fn first_repeat(self, j: int) -> bool {
        &&& exists|i: int| 0 <= i < j && self.name(i) == self.name(j)
        &&& forall|j2: int, i: int| 0 <= i < j2 < j ==> self.name(i) != self.name(j2)
    }
}

/// The layout of the files for these arguments.
pub open spec fn layout_of(
    formats: Seq<String>,
    sizes: Seq<u64>,
    count: usize,
    custom: Option<&str>,
    stem: Seq<char>,
) -> Layout {
    Layout {
        formats: strs(formats),
        sizes: sizes,
        count: count as nat,
        custom: match custom {
            Some(t) => Some(t@),
            None => None,
        },
        stem: stem,
    }
}

/// One file to generate.
#[derive(Debug)]
pub struct PlannedFile {
    /// The format, lower-cased.
    pub format: String,
    pub size: u64,
    pub size_label: String,
    /// The name inside the output directory.
    pub file_name: String,
}

/// Where file `k` sits, for `count` files per format and size.
proof fn lemma_entry_bounds(k: int, nf: int, ns: int, count: int)
    requires
        0 <= k < nf * (ns * count),
        0 < ns,
        0 < count,
    ensures
        0 <= k / (ns * count) < nf,
        0 <= (k / count) % ns < ns,
        0 <= k % count < count,
        ns * count > 0,
{
    assert(ns * count > 0) by (nonlinear_arith)
        requires
            0 < ns,
            0 < count,
    ;
    assert(k / (ns * count) < nf) by (nonlinear_arith)
        requires
            0 <= k < nf * (ns * count),
            ns * count > 0,
    ;
    assert(0 <= k / (ns * count)) by (nonlinear_arith)
        requires
            0 <= k,
            ns * count > 0,
    ;
}

/// Whether `name` occurs among the names of `files`.
fn name_taken(files: &Vec<PlannedFile>, name: &String) -> (b: bool)
    ensures
        b == exists|i: int| 0 <= i < files@.len() && files@[i].file_name@ == name@,
{
    let c = chars_of(name.as_str());
    let mut i: usize = 0;
    while i < files.len()
        invariant
            i <= files@.len(),
            c@ == name@,
            forall|j: int| 0 <= j < i ==> files@[j].file_name@ != name@,
        decreases files.len() - i,
    {
        if crate::text::chars_eq(chars_of(files[i].file_name.as_str()).as_slice(), c.as_slice()) {
            return true;
        }
        i += 1;
    }
    false
}

/// The files of a run, in order: for each format, for each size, `count`
/// files. Stops at the first file whose format is unsupported or whose name is
/// refused, and gives that error beside the files before it. With a custom
/// name, a name that repeats an earlier one refuses the whole run.
pub fn build_files(
    formats: &Vec<String>,
    sizes: &Vec<u64>,
    count: usize,
    custom: Option<&str>,
    stem: &str,
) -> (r: Result<(Vec<PlannedFile>, Option<Error>), Error>)
    requires
        formats@.len() * (sizes@.len() * count) <= usize::MAX,
    ensures
        match r {
            Ok((files, failure)) => layout_of(formats@, sizes@, count, custom, stem@).made(files@, failure),
            Err(e) => layout_of(formats@, sizes@, count, custom, stem@).refusal(e),
        },
{
    let ghost lay = layout_of(formats@, sizes@, count, custom, stem@);
    let nf = formats.len();
    let ns = sizes.len();
    if nf == 0 || ns == 0 || count == 0 {
        proof {
            assert(lay.total() == 0) by (nonlinear_arith)
                requires
                    nf == 0 || ns == 0 || count == 0,
                    lay.total() == nf * (ns * count),
            ;
        }
        return Ok((Vec::new(), None));
    }
    proof {
        assert(ns * count <= nf * (ns * count)) by (nonlinear_arith)
            requires
                nf > 0,
                ns > 0,
                count > 0,
        ;
    }
    let per_format: usize = ns * count;
    let total: usize = nf * per_format;
    let indexed = "{prefix}_{size}_{index}.{extension}";
    let template: Option<&str> = match custom {
        Some(t) => Some(t),
        None => if count > 1 {
            Some(indexed)
        } else {
            None
        },
    };
    let mut files: Vec<PlannedFile> = Vec::new();
    let mut k: usize = 0;
    while k < total
        invariant
            k <= total,
            total == lay.total(),
            per_format == ns * count,
            nf == formats@.len(),
            ns == sizes@.len(),
            ns > 0,
            count > 0,
            lay == layout_of(formats@, sizes@, count, custom, stem@),
            match template {
                Some(t) => lay.template() == Some(t@),
                None => lay.template() is None,
            },
            files@.len() == k,
            forall|j: int| 0 <= j < k ==> !lay.bad(j),
            forall|j: int| 0 <= j < k ==> lay.planned(j, #[trigger] files@[j]),
            custom is Some ==> forall|i: int, j: int| 0 <= i < j < k ==> lay.name(i) != lay.name(j),
        decreases total - k,
    {
        proof {
            lemma_entry_bounds(k as int, nf as int, ns as int, count as int);
        }
        let fi = k / per_format;
        let si = (k / count) % ns;
        let ki = k % count;
        let format = string_from_chars(to_ascii_lower(chars_of(formats[fi].as_str()).as_slice()).as_slice());
        assert(format@ == lay.format(k as int));
        if !is_supported_format(format.as_str()) {
            return Ok((files, Some(Error::UnsupportedFormat { format })));
        }
        let size = sizes[si];
        let label = size_label(size);
        let ext = extension(format.as_str());
        let name = match generated_file_name(
            template,
            stem,
            format.as_str(),
            label.as_str(),
            ext,
            ki + 1,
        ) {
            Ok(n) => n,
            Err(e) => {
                return Ok((files, Some(e)));
            },
        };
        assert(name@ == lay.name(k as int));
        if custom.is_some() && name_taken(&files, &name) {
            proof {
                let i = choose|i: int| 0 <= i < files@.len() && files@[i].file_name@ == name@;
                assert(lay.planned(i, files@[i]));
                assert(lay.first_repeat(k as int));
                assert(!lay.bad(k as int));
                assert(forall|j: int| 0 <= j <= k ==> !lay.bad(j));
            }
            let err = Error::DuplicateFileName { name };
            assert(exists|j: int|
                #![trigger lay.first_repeat(j)]
                0 <= j < lay.total() && (forall|k: int| 0 <= k <= j ==> !lay.bad(k))
                    && lay.first_repeat(j) && (err matches Error::DuplicateFileName { name: d }
                    && d@ == lay.name(j))) by {
                assert(lay.first_repeat(k as int));
            }
            return Err(err);
        }
        proof {
            if custom is Some {
                assert forall|i: int| 0 <= i < k implies lay.name(i) != lay.name(k as int) by {
                    assert(lay.planned(i, files@[i]));
                }
            }
        }
        files.push(PlannedFile { format, size, size_label: label, file_name: name });
        proof {
            assert(lay.planned(k as int, files@[k as int]));
        }
        k += 1;
    }
    Ok((files, None))
}

// ---------------------------------------------------------------------------
// The plan of a run
// ---------------------------------------------------------------------------

/// Everything a run needs to generate its files.
#[derive(Debug)]
pub struct Plan {
    pub tags: Vec<Tag>,
    pub out_dir: String,
    pub output_mode: OutputMode,
    pub quiet: bool,
    pub force: bool,
    pub templates: TemplateOptions,
    /// The number of files requested.
    pub planned_count: usize,
    /// The files to generate, in order.
    pub files: Vec<PlannedFile>,
    /// The error met after the last of `files`, if any.
    pub failure: Option<Error>,
}

/// What a run does.
#[derive(Debug)]
pub enum RunPlan {
    /// Print the supported formats.
    ListFormats,
    /// Generate files.
    Generate(Plan),
}

/// The default size words.
pub open spec fn default_size_names() -> Seq<Seq<char>> {
    seq!["10KiB"@, "100KiB"@, "1MiB"@]
}

/// Whether every tag word parses.
pub open spec fn tags_ok(inputs: Seq<Seq<char>>) -> bool {
    forall|i: int| 0 <= i < inputs.len() ==> tag_verdict(#[trigger] inputs[i]) is Ok
}

/// Whether `e` is the error of the first tag word that does not parse.
pub open spec fn tags_failure(inputs: Seq<Seq<char>>, e: Error) -> bool {
    exists|j: int|
        0 <= j < inputs.len() && (forall|i: int|
            0 <= i < j ==> tag_verdict(#[trigger] inputs[i]) is Ok) && is_tag_error(inputs[j], e)
}

/// The file-name piece of a tag word: `key-value`, both sanitized.
pub open spec fn word_piece(s: Seq<char>) -> Seq<char> {
    let kv = tag_verdict(s)->Ok_0;
    sanitize(kv.0) + seq!['-'] + sanitize(kv.1)
}

/// The file stem for a prefix and tag words.
pub open spec fn stem_of(prefix: Seq<char>, tag_words: Seq<Seq<char>>) -> Seq<char> {
    join(seq![sanitize(prefix)] + tag_words.map_values(|s: Seq<char>| word_piece(s)), seq!['_'])
}

/// Whether every size word parses.
pub open spec fn sizes_ok(inputs: Seq<Seq<char>>) -> bool {
    forall|i: int| 0 <= i < inputs.len() ==> #[trigger] size_verdict(inputs[i]) is Bytes
}

/// Whether `e` is the error of the first size word that does not parse.
pub open spec fn sizes_failure(inputs: Seq<Seq<char>>, e: Error) -> bool {
    exists|j: int|
        #![trigger size_verdict(inputs[j])]
        0 <= j < inputs.len() && (forall|i: int|
            0 <= i < j ==> #[trigger] size_verdict(inputs[i]) is Bytes) && !(size_verdict(
            inputs[j],
        ) is Bytes) && parse_size_result(inputs[j], Err(e))
}

/// The byte counts of size words that parse.
pub open spec fn size_values(inputs: Seq<Seq<char>>) -> Seq<u64> {
    inputs.map_values(
        |s: Seq<char>|
            match size_verdict(s) {
                SizeVerdict::Bytes(b) => b as u64,
                _ => 0,
            },
    )
}

/// Whether the row template cannot be loaded.
pub open spec fn templates_fail(template: Option<Seq<char>>, file: Option<Result<Seq<char>, Seq<char>>>) -> bool {
    ||| template is Some && file is Some
    ||| template is None && (file matches Some(Err(_)))
    ||| template matches Some(t) && parse_template(t) is Err
    ||| template is None && (file matches Some(Ok(c)) && parse_template(c) is Err)
}

/// The size words of a run: flagged, then positional, else the defaults.
pub open spec fn size_words(args: Args, st: Reading) -> Seq<Seq<char>> {
    merged(opt_strs(args.sizes), st.sizes, default_size_names())
}

/// The format words of a run: flagged, then positional, else the defaults.
pub open spec fn format_words(args: Args, st: Reading) -> Seq<Seq<char>> {
    merged(opt_strs(args.formats), st.formats, default_format_names())
}

/// The layout of a run's files.
pub open spec fn run_layout(args: Args, st: Reading) -> Layout {
    Layout {
        formats: format_words(args, st),
        sizes: size_values(size_words(args, st)),
        count: args.number_of_files as nat,
        custom: opt_str(args.name),
        stem: stem_of(args.prefix@, strs(args.tags@)),
    }
}

/// Whether `e` is the error that stops a run before it generates anything:
/// checked in order, the tags, the positional words, the row template, the
/// sizes, the limits, the number of files per pair, the file-name prefix, and
/// repeated custom names.
pub open spec fn run_refusal(args: Args, file: Option<Result<Seq<char>, Seq<char>>>, e: Error) -> bool {
    let tags = strs(args.tags@);
    if !tags_ok(tags) {
        tags_failure(tags, e)
    } else {
        match read_items(strs(args.items@)) {
            Err(part) => e matches Error::UnknownPositional { part: q } && q@ == part,
            Ok(st) => {
                let sw = size_words(args, st);
                let fw = format_words(args, st);
                let sv = size_values(sw);
                let n = args.number_of_files;
                if templates_fail(opt_str(args.template), file) {
                    templates_loaded(opt_str(args.template), file, opt_str(args.template_header), Err(e))
                } else if !sizes_ok(sw) {
                    sizes_failure(sw, e)
                } else if limits_error(sv, fw.len() as usize, args.allow_large, args.max_files) is Some {
                    limits_error(sv, fw.len() as usize, args.allow_large, args.max_files) == Some(e)
                } else if n == 0 {
                    e == Error::NumberOfFilesZero
                } else if fw.len() * (sv.len() * n) > usize::MAX {
                    e == Error::FileCountOverflow
                } else if sanitize(args.prefix@).len() == 0 {
                    e == Error::EmptyPrefix
                } else {
                    run_layout(args, st).refusal(e)
                }
            },
        }
    }
}

/// Whether `p` is the plan of a run that is not refused.
pub open spec fn run_planned(args: Args, file: Option<Result<Seq<char>, Seq<char>>>, p: Plan) -> bool {
    let tags = strs(args.tags@);
    &&& tags_ok(tags)
    &&& p.tags@.len() == tags.len()
    &&& forall|i: int| 0 <= i < tags.len() ==> is_tag_of(tags[i], #[trigger] p.tags@[i])
    &&& read_items(strs(args.items@)) matches Ok(st) && {
        let sw = size_words(args, st);
        let fw = format_words(args, st);
        let sv = size_values(sw);
        let n = args.number_of_files;
        &&& p.out_dir@ == match st.out_dir {
            Some(d) => d,
            None => args.out_dir@,
        }
        &&& !templates_fail(opt_str(args.template), file)
        &&& templates_loaded(
            opt_str(args.template),
            file,
            opt_str(args.template_header),
            Ok(p.templates),
        )
        &&& sizes_ok(sw)
        &&& limits_error(sv, fw.len() as usize, args.allow_large, args.max_files) is None
        &&& n > 0
        &&& p.planned_count == fw.len() * (sv.len() * n)
        &&& sanitize(args.prefix@).len() > 0
        &&& run_layout(args, st).made(p.files@, p.failure)
    }
    &&& p.output_mode == args.mode()
    &&& p.quiet == args.silent()
    &&& p.force == args.force
}

proof fn lemma_stem(prefix: Seq<char>, words: Seq<Seq<char>>, tags: Seq<Tag>)
    requires
        tags.len() == words.len(),
        forall|i: int| 0 <= i < words.len() ==> is_tag_of(words[i], #[trigger] tags[i]),
    ensures
        join(stem_pieces(prefix, tags), seq!['_']) == stem_of(prefix, words),
{
    assert(tags.map_values(|t: Tag| tag_piece(t)) =~= words.map_values(|s: Seq<char>| word_piece(s)))
        by {
        assert forall|i: int| 0 <= i < words.len() implies tag_piece(tags[i]) == word_piece(
            words[i],
        ) by {
            assert(is_tag_of(words[i], tags[i]));
        }
    }
    assert(stem_pieces(prefix, tags) =~= seq![sanitize(prefix)] + words.map_values(
        |s: Seq<char>| word_piece(s),
    ));
}

/// Parses the size words, in order.
fn parse_sizes(words: &Vec<String>) -> (r: Result<Vec<u64>, Error>)
    ensures
        match r {
            Ok(v) => sizes_ok(strs(words@)) && v@ == size_values(strs(words@)),
            Err(e) => !sizes_ok(strs(words@)) && sizes_failure(strs(words@), e),
        },
{
    let ghost w = strs(words@);
    let mut v: Vec<u64> = Vec::new();
    let mut i: usize = 0;
    while i < words.len()
        invariant
            i <= words@.len(),
            w == strs(words@),
            v@.len() == i,
            forall|k: int| 0 <= k < i ==> #[trigger] size_verdict(w[k]) is Bytes,
            forall|k: int| 0 <= k < i ==> v@[k] == size_values(w)[k],
        decreases words.len() - i,
    {
        match parse_size(words[i].as_str()) {
            Ok(b) => {
                assert(w[i as int] == words@[i as int]@);
                v.push(b);
            },
            Err(e) => {
                proof {
                    assert(w[i as int] == words@[i as int]@);
                    assert(!(size_verdict(w[i as int]) is Bytes));
                }
                return Err(e);
            },
        }
        i += 1;
    }
    assert(v@ =~= size_values(w));
    Ok(v)
}

/// The plan of a run: what the arguments ask for, checked in the order the
/// command checks them. `template_file` is the text of `--template-file`, or
/// the message of the error met reading it; `None` without the flag.
pub fn plan_run(args: &Args, template_file: Option<Result<String, String>>) -> (r: Result<RunPlan, Error>)
    ensures
        args.list_formats ==> r matches Ok(RunPlan::ListFormats),
        !args.list_formats ==> match r {
            Ok(RunPlan::Generate(p)) => run_planned(*args, file_view(template_file), p),
            Err(e) => run_refusal(*args, file_view(template_file), e),
            _ => false,
        },
{
    if args.list_formats {
        return Ok(RunPlan::ListFormats);
    }
    let ghost file = file_view(template_file);
    let ghost tw = strs(args.tags@);
    let tags = match parse_tags(args.tags.as_slice()) {
        Ok(t) => t,
        Err(e) => {
            proof {
                assert(!tags_ok(tw)) by {
                    let j = choose|j: int|
                        0 <= j < args.tags@.len() && (forall|i: int|
                            0 <= i < j ==> tag_verdict(#[trigger] args.tags@[i]@) is Ok) && is_tag_error(
                            args.tags@[j]@,
                            e,
                        );
                    assert(tw[j] == args.tags@[j]@);
                    assert(!(tag_verdict(tw[j]) is Ok));
                }
                let j = choose|j: int|
                    0 <= j < args.tags@.len() && (forall|i: int|
                        0 <= i < j ==> tag_verdict(#[trigger] args.tags@[i]@) is Ok) && is_tag_error(
                        args.tags@[j]@,
                        e,
                    );
                assert forall|i: int| 0 <= i < j implies tag_verdict(#[trigger] tw[i]) is Ok by {
                    assert(tw[i] == args.tags@[i]@);
                }
                assert(tw[j] == args.tags@[j]@);
            }
            return Err(e);
        },
    };
    proof {
        assert forall|i: int| 0 <= i < tw.len() implies tag_verdict(#[trigger] tw[i]) is Ok by {
            assert(is_tag_of(args.tags@[i]@, tags@[i]));
        }
    }
    let pos = match infer_positional_items(args.items.as_slice()) {
        Ok(p) => p,
        Err(e) => {
            return Err(e);
        },
    };
    let ghost st = pos.reading();
    let out_dir = match &pos.out_dir {
        Some(d) => string_of(d.as_str()),
        None => string_of(args.out_dir.as_str()),
    };
    let output_mode = args.output_mode();
    let quiet = args.quiet();
    let template = match &args.template {
        Some(t) => Some(string_of(t.as_str())),
        None => None,
    };
    let header = match &args.template_header {
        Some(h) => Some(string_of(h.as_str())),
        None => None,
    };
    let templates = match load_templates(template, template_file, header) {
        Ok(t) => t,
        Err(e) => {
            return Err(e);
        },
    };
    let flagged_sizes = match &args.sizes {
        Some(v) => Some(copy_strings(v)),
        None => None,
    };
    let defaults = default_sizes();
    assert(strs(defaults@) =~= default_size_names());
    let size_inputs = merge_or_default(flagged_sizes, copy_strings(&pos.sizes), defaults);
    let sizes = match parse_sizes(&size_inputs) {
        Ok(v) => v,
        Err(e) => {
            return Err(e);
        },
    };
    let flagged_formats = match &args.formats {
        Some(v) => Some(copy_strings(v)),
        None => None,
    };
    let defaults = default_formats();
    assert(strs(defaults@) =~= default_format_names());
    let formats = merge_or_default(flagged_formats, copy_strings(&pos.formats), defaults);
    match validate_generation_limits(sizes.as_slice(), formats.len(), args.allow_large, args.max_files) {
        Ok(()) => {},
        Err(e) => {
            return Err(e);
        },
    }
    let n = args.number_of_files;
    if n == 0 {
        return Err(Error::NumberOfFilesZero);
    }
    assert(strs(formats@).len() >= 1);
    let per_format = match sizes.len().checked_mul(n) {
        Some(c) => c,
        None => {
            assert(formats@.len() * (sizes@.len() * n) > usize::MAX) by (nonlinear_arith)
                requires
                    formats@.len() >= 1,
                    sizes@.len() * n > usize::MAX,
            ;
            return Err(Error::FileCountOverflow);
        },
    };
    let planned_count = match formats.len().checked_mul(per_format) {
        Some(c) => c,
        None => {
            return Err(Error::FileCountOverflow);
        },
    };
    let stem = match file_stem_prefix(args.prefix.as_str(), tags.as_slice()) {
        Ok(s) => s,
        Err(e) => {
            return Err(e);
        },
    };
    proof {
        lemma_stem(args.prefix@, tw, tags@);
    }
    let custom: Option<&str> = match &args.name {
        Some(t) => Some(t.as_str()),
        None => None,
    };
    let (files, failure) = match build_files(&formats, &sizes, n, custom, stem.as_str()) {
        Ok(r) => r,
        Err(e) => {
            return Err(e);
        },
    };
    Ok(
        RunPlan::Generate(
            Plan {
                tags,
                out_dir,
                output_mode,
                quiet,
                force: args.force,
                templates,
                planned_count,
                files,
                failure,
            },
        ),
    )
}

/// A copy of a list of strings.
fn copy_strings(v: &Vec<String>) -> (c: Vec<String>)
    ensures
        strs(c@) == strs(v@),
{
    let mut c: Vec<String> = Vec::new();
    let mut i: usize = 0;
    while i < v.len()
        invariant
            i <= v@.len(),
            strs(c@) == strs(v@).take(i as int),
        decreases v.len() - i,
    {
        let ghost before = c@;
        c.push(string_of(v[i].as_str()));
        assert(strs(c@) =~= strs(before).push(v@[i as int]@));
        assert(strs(v@).take(i + 1) =~= strs(v@).take(i as int).push(v@[i as int]@));
        i += 1;
    }
    assert(strs(v@).take(v@.len() as int) =~= strs(v@));
    c
}

// ---------------------------------------------------------------------------
// Laws
// ---------------------------------------------------------------------------

/// A run that meets no failing file plans exactly the requested number of
/// files: formats times sizes times `--number-of-files`, format by format,
/// size by size.
pub proof fn law_plan_lists_every_file(args: Args, file: Option<Result<Seq<char>, Seq<char>>>, p: Plan)
    requires
        run_planned(args, file, p),
        p.failure is None,
    ensures
        p.files@.len() == p.planned_count,
{
    let st = read_items(strs(args.items@))->Ok_0;
    let lay = run_layout(args, st);
    assert(lay.made(p.files@, p.failure));
}

/// Every planned file name is a plain name inside the output directory: not
/// blank, not `.` or `..`, and without `/` or `\`.
pub proof fn law_planned_names_stay_inside(
    args: Args,
    file: Option<Result<Seq<char>, Seq<char>>>,
    p: Plan,
    k: int,
)
    requires
        run_planned(args, file, p),
        0 <= k < p.files@.len(),
    ensures
        file_name_fault(p.files@[k].file_name@) is None,
        !p.files@[k].file_name@.contains('/'),
        !p.files@[k].file_name@.contains('\\'),
{
    let st = read_items(strs(args.items@))->Ok_0;
    let lay = run_layout(args, st);
    assert(lay.made(p.files@, p.failure));
    assert(!lay.bad(k));
    assert(lay.planned(k, p.files@[k]));
}

/// With `--name`, no two planned files share a name.
pub proof fn law_custom_names_are_distinct(
    args: Args,
    file: Option<Result<Seq<char>, Seq<char>>>,
    p: Plan,
    i: int,
    j: int,
)
    requires
        run_planned(args, file, p),
        args.name is Some,
        0 <= i < j < p.files@.len(),
    ensures
        p.files@[i].file_name@ != p.files@[j].file_name@,
{
    let st = read_items(strs(args.items@))->Ok_0;
    let lay = run_layout(args, st);
    assert(lay.made(p.files@, p.failure));
    assert(lay.planned(i, p.files@[i]));
    assert(lay.planned(j, p.files@[j]));
}

/// A format word and a size word read the same in either order.
pub proof fn law_format_and_size_commute(st: Reading, f: Seq<char>, s: Seq<char>, group: bool)
    requires
        format_of(ascii_lower(f)) is Some,
        format_of(ascii_lower(s)) is None,
        is_size_word(s),
    ensures
        read_part(st, f, group) matches Some(a) && read_part(a, s, group) matches Some(x)
            && read_part(st, s, group) matches Some(b) && read_part(b, f, group) matches Some(y)
            && x == y,
{
    let a = read_part(st, f, group)->Some_0;
    let b = read_part(st, s, group)->Some_0;
    assert(read_part(a, s, group)->Some_0 == read_part(b, f, group)->Some_0);
}

/// `--json` and `--agent` report exactly as `--quiet --output json` does.
pub proof fn law_json_flag_is_quiet_json_output(a: Args)
    requires
        a.json || a.agent,
    ensures
        a.mode() == (Args { quiet: true, output: OutputMode::Json, json: false, agent: false, ..a }).mode(),
        a.silent() == (Args { quiet: true, output: OutputMode::Json, json: false, agent: false, ..a }).silent(),
        a.mode() == OutputMode::Json,
        a.silent(),
{
}

/// Replacing a pattern that starts with `{` leaves alone a front part without `{`.
proof fn lemma_replace_after(a: Seq<char>, b: Seq<char>, pat: Seq<char>, to: Seq<char>)
    requires
        pat.len() > 0,
        pat[0] == '{',
        forall|i: int| 0 <= i < a.len() ==> a[i] != '{',
    ensures
        replace(a + b, pat, to) == a + replace(b, pat, to),
    decreases a.len(),
{
    if a.len() == 0 {
        assert(a + b =~= b);
    } else {
        let s = a + b;
        if s.len() < pat.len() {
            assert(b.len() < pat.len());
        } else {
            assert(s.take(pat.len() as int)[0] == a[0]);
            assert(s.take(pat.len() as int) != pat);
            let a1 = a.skip(1);
            assert(s.skip(1) =~= a1 + b);
            lemma_replace_after(a1, b, pat, to);
            assert(seq![a[0]] + a1 =~= a);
        }
    }
}

/// Replacing a pattern at the very front.
proof fn lemma_replace_front(pat: Seq<char>, r: Seq<char>, to: Seq<char>)
    requires
        pat.len() > 0,
    ensures
        replace(pat + r, pat, to) == to + replace(r, pat, to),
{
    let s = pat + r;
    assert(s.take(pat.len() as int) =~= pat);
    assert(s.skip(pat.len() as int) =~= r);
}

proof fn lemma_literals()
    ensures
        "{prefix}_{size}_{index}.{extension}"@ =~= "{prefix}"@ + ("_"@ + "{size}_{index}.{extension}"@),
        "{prefix}"@.len() == 8 && "{prefix}"@[0] == '{',
        "{format}"@.len() == 8 && "{format}"@[0] == '{',
        "{size}"@.len() == 6 && "{size}"@[0] == '{',
        "{extension}"@.len() == 11 && "{extension}"@[0] == '{',
        "{index}"@.len() == 7 && "{index}"@[0] == '{',
        "_"@ == seq!['_'],
{
    reveal_strlit("{prefix}_{size}_{index}.{extension}");
    reveal_strlit("{prefix}");
    reveal_strlit("_");
    reveal_strlit("{size}_{index}.{extension}");
    reveal_strlit("{format}");
    reveal_strlit("{size}");
    reveal_strlit("{extension}");
    reveal_strlit("{index}");
}

/// Without `--name`, every planned file name starts with the file stem (the
/// sanitized prefix and the `key-value` pieces of the tags) and `_`.
pub proof fn law_default_names_start_with_stem(
    args: Args,
    file: Option<Result<Seq<char>, Seq<char>>>,
    p: Plan,
    k: int,
)
    requires
        run_planned(args, file, p),
        args.name is None,
        0 <= k < p.files@.len(),
    ensures
        p.files@[k].file_name@.len() > stem_of(args.prefix@, strs(args.tags@)).len(),
        p.files@[k].file_name@.take(stem_of(args.prefix@, strs(args.tags@)).len() + 1 as int)
            == stem_of(args.prefix@, strs(args.tags@)) + seq!['_'],
{
    let st = read_items(strs(args.items@))->Ok_0;
    let lay = run_layout(args, st);
    let stem = lay.stem;
    assert(lay.made(p.files@, p.failure));
    assert(lay.planned(k, p.files@[k]));
    lemma_stem(args.prefix@, strs(args.tags@), p.tags@);
    law_stem_is_file_safe(args.prefix@, p.tags@);
    assert forall|i: int| 0 <= i < stem.len() implies stem[i] != '{' by {
        assert(all_safe(stem));
        assert(crate::naming::is_safe_char(stem[i]));
    }
    let name = lay.name(k);
    let f = lay.format(k);
    let label = size_label_spec(lay.size(k) as nat);
    let us = seq!['_'];
    let rest = if lay.count > 1 {
        lemma_literals();
        let r0 = "_"@ + "{size}_{index}.{extension}"@;
        lemma_replace_front("{prefix}"@, r0, stem);
        let r1 = replace(r0, "{prefix}"@, stem);
        lemma_replace_after(stem, r1, "{format}"@, f);
        let r2 = replace(r1, "{format}"@, f);
        lemma_replace_after(stem, r2, "{size}"@, label);
        let r3 = replace(r2, "{size}"@, label);
        lemma_replace_after(stem, r3, "{extension}"@, ext_of(f));
        let r4 = replace(r3, "{extension}"@, ext_of(f));
        lemma_replace_after(stem, r4, "{index}"@, crate::text::decimal(lay.index(k)));
        let r5 = replace(r4, "{index}"@, crate::text::decimal(lay.index(k)));
        assert(name == stem + r5);
        // Each replacement keeps the leading `_`.
        lemma_replace_after(us, "{size}_{index}.{extension}"@, "{prefix}"@, stem);
        assert(r1 == us + replace("{size}_{index}.{extension}"@, "{prefix}"@, stem));
        lemma_replace_after(us, r1.skip(1), "{format}"@, f);
        assert(r1 =~= us + r1.skip(1));
        assert(r2 == us + replace(r1.skip(1), "{format}"@, f));
        lemma_replace_after(us, r2.skip(1), "{size}"@, label);
        assert(r2 =~= us + r2.skip(1));
        assert(r3 == us + replace(r2.skip(1), "{size}"@, label));
        lemma_replace_after(us, r3.skip(1), "{extension}"@, ext_of(f));
        assert(r3 =~= us + r3.skip(1));
        assert(r4 == us + replace(r3.skip(1), "{extension}"@, ext_of(f)));
        lemma_replace_after(us, r4.skip(1), "{index}"@, crate::text::decimal(lay.index(k)));
        assert(r4 =~= us + r4.skip(1));
        assert(r5 == us + replace(r4.skip(1), "{index}"@, crate::text::decimal(lay.index(k))));
        r5
    } else {
        assert(name == stem + seq!['_'] + label + seq!['.'] + ext_of(f));
        seq!['_'] + label + seq!['.'] + ext_of(f)
    };
    assert(name =~= stem + rest);
    assert(rest.len() >= 1 && rest[0] == '_');
    assert(name.take(stem.len() + 1 as int) =~= stem + us);
}


/// The first size above the default limit is a size of the run that is
/// strictly above it; there is none exactly when every size is at most the limit.
proof fn lemma_first_large(sizes: Seq<u64>)
    ensures
        first_large(sizes) is None <==> forall|i: int| 0 <= i < sizes.len() ==> sizes[i] <= DEFAULT_MAX_SIZE,
        first_large(sizes) matches Some(s) ==> s > DEFAULT_MAX_SIZE && sizes.contains(s),
    decreases sizes.len(),
{
    if sizes.len() > 0 {
        let rest = sizes.skip(1);
        lemma_first_large(rest);
        assert forall|i: int| 1 <= i < sizes.len() implies sizes[i] == rest[i - 1] by {}
        if let Some(s) = first_large(rest) {
            let j = choose|j: int| 0 <= j < rest.len() && rest[j] == s;
            assert(sizes[j + 1] == s);
        }
        if sizes[0] <= DEFAULT_MAX_SIZE && first_large(rest) is Some {
            let j = choose|j: int| 0 <= j < rest.len() && rest[j] > DEFAULT_MAX_SIZE;
            assert(sizes[j + 1] > DEFAULT_MAX_SIZE);
        }
    }
}

/// A run within its file count is refused for size, without `--allow-large`,
/// exactly when one of its sizes is strictly above the default limit of 1GiB,
/// and the error names such a size: every size up to and including 1GiB
/// passes. With `--allow-large` no size is refused.
pub proof fn law_size_limit_is_inclusive(
    sizes: Seq<u64>,
    format_count: usize,
    allow_large: bool,
    max_files: usize,
)
    requires
        max_files > 0,
        sizes.len() * format_count <= max_files,
    ensures
        DEFAULT_MAX_SIZE == 1073741824,
        (allow_large || forall|i: int| 0 <= i < sizes.len() ==> sizes[i] <= DEFAULT_MAX_SIZE)
            ==> limits_error(sizes, format_count, allow_large, max_files) is None,
        !allow_large && (exists|i: int| 0 <= i < sizes.len() && sizes[i] > DEFAULT_MAX_SIZE)
            ==> (limits_error(sizes, format_count, allow_large, max_files) matches Some(
            Error::SizeAboveLimit { size },
        ) && size > DEFAULT_MAX_SIZE && sizes.contains(size)),
{
    lemma_first_large(sizes);
    assert(sizes.len() * format_count <= usize::MAX);
}


/// `--max-files 0` is refused whatever else is asked; otherwise a run of more
/// files (formats times sizes) than `--max-files` is refused with that count
/// and that maximum, and a run of at most that many is never refused for its
/// count.
pub proof fn law_file_count_limit(sizes: Seq<u64>, format_count: usize, allow_large: bool, max_files: usize)
    ensures
        max_files == 0 ==> limits_error(sizes, format_count, allow_large, max_files) == Some(
            Error::MaxFilesZero,
        ),
        max_files > 0 && max_files < sizes.len() * format_count <= usize::MAX ==> (limits_error(
            sizes,
            format_count,
            allow_large,
            max_files,
        ) matches Some(Error::TooManyFiles { count, max }) && count == sizes.len() * format_count
            && max == max_files),
        max_files > 0 && sizes.len() * format_count <= max_files ==> !(limits_error(
            sizes,
            format_count,
            allow_large,
            max_files,
        ) matches Some(Error::TooManyFiles { .. })) && !(limits_error(
            sizes,
            format_count,
            allow_large,
            max_files,
        ) matches Some(Error::FileCountOverflow)),
{
}

} // verus!
