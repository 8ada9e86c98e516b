//! Line-oriented formats (CSV, JSON, JSON Lines, text, Markdown) as a stream
//! of chunks. The caller writes each chunk in turn; the stream decides what
//! comes next from the bytes written so far, and ends once the target size is
//! reached.

use vstd::prelude::*;
use vstd::utf8::encode_utf8;
use crate::error::Error;
use crate::formats::common::{csv_escape, payload, repeated_payload};
use crate::naming::{Tag, tag_json, tag_text, tags_json, tags_text, tags_text_spec};
use crate::template::{Template, TemplateOptions, is_rendering};
use crate::text::{lemma_encode_utf8_len, decimal, join, push_decimal, push_str, replace, string_of};

verus! {

/// The formats that a stream writes.
#[derive(Debug, Clone, Copy, PartialEq, Eq, Structural)]
pub enum StreamFormat {
    Csv,
    Json,
    Jsonl,
    Txt,
    Md,
}

/// Where a stream is.
#[derive(Debug, Clone, Copy, PartialEq, Eq, Structural)]
pub enum Stage {
    /// Nothing written yet.
    Start,
    /// Writing rows.
    Rows,
    /// Everything written.
    Done,
}

/// The abstract state of a stream.
pub struct StreamState {
    pub format: StreamFormat,
    pub target: u64,
    pub written: u64,
    pub row: u64,
    pub stage: Stage,
    /// The text of the row template, if rows come from a template.
    pub template: Option<Seq<char>>,
    /// The header line of templated output.
    pub header: Option<Seq<char>>,
    /// The tags as the format writes them.
    pub tags: Seq<char>,
}

// ---------------------------------------------------------------------------
// Specification
// ---------------------------------------------------------------------------

/// The size in bytes of a text in UTF-8.
pub open spec fn byte_len(s: Seq<char>) -> nat {
    encode_utf8(s).len()
}

/// The size of a chunk in bytes as `str::len` reports it: its UTF-8 length.
pub open spec fn chunk_bytes(s: Seq<char>) -> u64 {
    (byte_len(s) as usize) as u64
}

/// `written + n`, saturating at `u64::MAX`.
pub open spec fn add_bytes(written: u64, n: nat) -> u64 {
    if written + n > u64::MAX {
        u64::MAX
    } else {
        (written + n) as u64
    }
}

/// Whether another row is written: for JSON, while the closing `\n]\n`
/// alone would not reach the target.
pub open spec fn keeps_going(st: StreamState) -> bool {
    if st.format == StreamFormat::Json {
        st.written + 3 < st.target
    } else {
        st.written < st.target
    }
}

/// The first row number: 1 for templated rows, else 0.
pub open spec fn first_row(st: StreamState) -> u64 {
    if st.template is Some {
        1
    } else {
        0
    }
}

/// The rows a stream may number before its payloads would overflow.
pub open spec fn row_cap() -> int {
    usize::MAX - 4096
}

pub open spec fn start_text(st: StreamState) -> Seq<char> {
    if st.format == StreamFormat::Json {
        "[\n"@
    } else if st.template is Some {
        match st.header {
            Some(h) => h + "\n"@,
            None => Seq::empty(),
        }
    } else {
        match st.format {
            StreamFormat::Csv => "id,name,email,score,tags,notes\n"@,
            StreamFormat::Txt => "Tags: "@ + st.tags + "\n"@,
            StreamFormat::Md => "# Generated Markdown sample\n\nTags: "@ + st.tags + "\n\n"@,
            _ => Seq::empty(),
        }
    }
}

pub open spec fn end_text(st: StreamState) -> Seq<char> {
    if st.format == StreamFormat::Json {
        "\n]\n"@
    } else {
        Seq::empty()
    }
}

/// A CSV row of the built-in data.
pub open spec fn csv_row_text(r: u64, tags: Seq<char>) -> Seq<char> {
    decimal(r as nat) + ",User "@ + decimal(r as nat) + ",user"@ + decimal(r as nat)
        + "@example.com,"@ + decimal((r % 100) as nat) + ",\""@ + tags + "\","@ + payload(
        r as int,
        96,
    ) + "\n"@
}

/// A text line of the built-in data.
pub open spec fn txt_row_text(r: u64) -> Seq<char> {
    "Line "@ + decimal(r as nat) + ": The quick brown fox jumps over generated payload "@
        + payload(r as int, 128) + ".\n"@
}

/// A Markdown list item of the built-in data.
pub open spec fn md_row_text(r: u64) -> Seq<char> {
    "- Line "@ + decimal(r as nat) + ": "@ + payload(r as int, 96) + "\n"@
}

/// A JSON object of the built-in data.
pub open spec fn json_object_text(r: u64, tags: Seq<char>) -> Seq<char> {
    "{\"id\":"@ + decimal(r as nat) + ",\"name\":\"User "@ + decimal(r as nat) + "\",\"active\":"@
        + (if r % 2 == 0 {
        "true"@
    } else {
        "false"@
    }) + ",\"tags\":"@ + tags + ",\"payload\":\""@ + payload(r as int, 128) + "\"}"@
}

/// Whether `c` is an acceptable chunk for row `st.row`.
pub open spec fn row_ok(st: StreamState, c: Seq<char>) -> bool {
    let r = st.row;
    match st.template {
        Some(t) => if st.format == StreamFormat::Json {
            exists|out: Seq<char>|
                #![trigger is_rendering(t, r, out)]
                is_rendering(t, r, out) && c == (if r > 1 {
                    ",\n"@
                } else {
                    Seq::empty()
                }) + "  "@ + out
        } else {
            exists|out: Seq<char>|
                #![trigger is_rendering(t, r, out)]
                is_rendering(t, r, out) && c == out + "\n"@
        },
        None => match st.format {
            StreamFormat::Csv => c == csv_row_text(r, st.tags),
            StreamFormat::Txt => c == txt_row_text(r),
            StreamFormat::Md => c == md_row_text(r),
            StreamFormat::Json => c == (if r > 0 {
                ",\n"@
            } else {
                Seq::empty()
            }) + "  "@ + json_object_text(r, st.tags),
            StreamFormat::Jsonl => c == json_object_text(r, st.tags) + "\n"@,
        },
    }
}

/// What the stream does next from state `st`: its chunk and state after, or the
/// row limit error, or the end.
pub open spec fn step_ok(st: StreamState, r: Result<Option<Seq<char>>, ()>, next: StreamState) -> bool {
    match st.stage {
        Stage::Start => r matches Ok(Some(c)) && c == start_text(st) && next == StreamState {
            stage: Stage::Rows,
            row: first_row(st),
            written: add_bytes(st.written, chunk_bytes(c) as nat),
            ..st
        },
        Stage::Rows => if !keeps_going(st) {
            r matches Ok(Some(c)) && c == end_text(st) && next == StreamState {
                stage: Stage::Done,
                written: add_bytes(st.written, chunk_bytes(c) as nat),
                ..st
            }
        } else if st.row >= row_cap() {
            r is Err && next == st
        } else {
            r matches Ok(Some(c)) && row_ok(st, c) && next == StreamState {
                row: (st.row + 1) as u64,
                written: add_bytes(st.written, chunk_bytes(c) as nat),
                ..st
            }
        },
        Stage::Done => r == Ok::<Option<Seq<char>>, ()>(None) && next == st,
    }
}

proof fn lemma_row_ok_template(st: StreamState, c: Seq<char>, out: Seq<char>)
    requires
        st.template is Some,
        is_rendering(st.template->Some_0, st.row, out),
        st.format == StreamFormat::Json ==> c == (if st.row > 1 {
            ",\n"@
        } else {
            Seq::<char>::empty()
        }) + "  "@ + out,
        st.format != StreamFormat::Json ==> c == out + "\n"@,
    ensures
        row_ok(st, c),
{
    let t = st.template->Some_0;
    assert(is_rendering(t, st.row, out));
}

// ---------------------------------------------------------------------------
// Chunks
// ---------------------------------------------------------------------------

fn csv_row(r: u64, tags: &str) -> (s: String)
    requires
        r < row_cap(),
    ensures
        s@ == csv_row_text(r, tags@),
{
    let mut s = String::new();
    push_decimal(&mut s, r);
    push_str(&mut s, ",User ");
    push_decimal(&mut s, r);
    push_str(&mut s, ",user");
    push_decimal(&mut s, r);
    push_str(&mut s, "@example.com,");
    push_decimal(&mut s, r % 100);
    push_str(&mut s, ",\"");
    push_str(&mut s, tags);
    push_str(&mut s, "\",");
    let p = repeated_payload(r, 96);
    push_str(&mut s, p.as_str());
    push_str(&mut s, "\n");
    assert(s@ =~= csv_row_text(r, tags@));
    s
}

fn txt_row(r: u64) -> (s: String)
    requires
        r < row_cap(),
    ensures
        s@ == txt_row_text(r),
{
    let mut s = string_of("Line ");
    push_decimal(&mut s, r);
    push_str(&mut s, ": The quick brown fox jumps over generated payload ");
    let p = repeated_payload(r, 128);
    push_str(&mut s, p.as_str());
    push_str(&mut s, ".\n");
    assert(s@ =~= txt_row_text(r));
    s
}

fn md_row(r: u64) -> (s: String)
    requires
        r < row_cap(),
    ensures
        s@ == md_row_text(r),
{
    let mut s = string_of("- Line ");
    push_decimal(&mut s, r);
    push_str(&mut s, ": ");
    let p = repeated_payload(r, 96);
    push_str(&mut s, p.as_str());
    push_str(&mut s, "\n");
    assert(s@ =~= md_row_text(r));
    s
}

fn push_json_object(s: &mut String, r: u64, tags: &str)
    requires
        r < row_cap(),
    ensures
        final(s)@ == old(s)@ + json_object_text(r, tags@),
{
    push_str(s, "{\"id\":");
    push_decimal(s, r);
    push_str(s, ",\"name\":\"User ");
    push_decimal(s, r);
    push_str(s, "\",\"active\":");
    if r % 2 == 0 {
        push_str(s, "true");
    } else {
        push_str(s, "false");
    }
    push_str(s, ",\"tags\":");
    push_str(s, tags);
    push_str(s, ",\"payload\":\"");
    let p = repeated_payload(r, 128);
    push_str(s, p.as_str());
    push_str(s, "\"}");
    assert(s@ =~= old(s)@ + json_object_text(r, tags@));
}

/// The size in bytes of `s` in UTF-8, as `str::len` reports it.
fn utf8_len(s: &String) -> (n: u64)
    ensures
        n == chunk_bytes(s@),
{
    let n = s.as_str().len();
    n as u64
}

// ---------------------------------------------------------------------------
// The stream
// ---------------------------------------------------------------------------

/// The text of a chunk result.
pub open spec fn chunk_view(r: Result<Option<String>, Error>) -> Result<Option<Seq<char>>, ()> {
    match r {
        Ok(Some(c)) => Ok(Some(c@)),
        Ok(None) => Ok(None),
        Err(_) => Err(()),
    }
}

/// A stream of chunks that together make one file of a line-oriented format.
pub struct TextStream<'a> {
    format: StreamFormat,
    target: u64,
    written: u64,
    row: u64,
    stage: Stage,
    template: Option<&'a Template>,
    header: Option<&'a String>,
    tags: String,
}

impl<'a> View for TextStream<'a> {
    type V = StreamState;

    closed spec fn view(&self) -> StreamState {
        StreamState {
            format: self.format,
            target: self.target,
            written: self.written,
            row: self.row,
            stage: self.stage,
            template: match self.template {
                Some(t) => Some(t@),
                None => None,
            },
            header: match self.header {
                Some(h) => Some(h@),
                None => None,
            },
            tags: self.tags@,
        }
    }
}

/// How a stream writes its tags: CSV-quoted text for CSV, text for text and
/// Markdown, a JSON array for JSON and JSON Lines.
pub open spec fn tags_for(f: StreamFormat, tags: Seq<Tag>) -> Seq<char> {
    match f {
        StreamFormat::Csv => replace(tags_text_spec(tags), seq!['"'], seq!['"', '"']),
        StreamFormat::Txt | StreamFormat::Md => tags_text_spec(tags),
        StreamFormat::Json | StreamFormat::Jsonl => seq!['['] + join(
            tags.map_values(|t: Tag| tag_json(t)),
            seq![','],
        ) + seq![']'],
    }
}

impl<'a> TextStream<'a> {
    /// Once a stream is done it has written at least its target.
    #[verifier::type_invariant]
    closed spec fn reaches_target(&self) -> bool {
        self.stage == Stage::Done ==> self.written >= self.target
    }

    /// A stream for one file of `format` with at least `target` bytes.
    /// Without a row template, the tags are written into the content.
    pub fn new(
        format: StreamFormat,
        target: u64,
        tags: &[Tag],
        templates: &'a TemplateOptions,
    ) -> (s: TextStream<'a>)
        ensures
            ({
                    &&& s@.format == format
                    &&& s@.target == target
                    &&& s@.written == 0
                    &&& s@.row == 0
                    &&& s@.stage == Stage::Start
                    &&& s@.template == match templates.body {
                        Some(t) => Some(t@),
                        None => None::<Seq<char>>,
                    }
                    &&& s@.header == match templates.header {
                        Some(h) => Some(h@),
                        None => None::<Seq<char>>,
                    }
                    &&& templates.body is None ==> s@.tags == tags_for(format, tags@)
            }),
    {
        let tag_text: String = if templates.body.is_some() {
            String::new()
        } else {
            match format {
                StreamFormat::Csv => {
                    let t = tags_text(tags);
                    csv_escape(t.as_str())
                },
                StreamFormat::Txt | StreamFormat::Md => tags_text(tags),
                StreamFormat::Json | StreamFormat::Jsonl => tags_json(tags).unwrap(),
            }
        };
        let template = match &templates.body {
            Some(t) => Some(t),
            None => None,
        };
        let header = match &templates.header {
            Some(h) => Some(h),
            None => None,
        };
        TextStream {
            format,
            target,
            written: 0,
            row: 0,
            stage: Stage::Start,
            template,
            header,
            tags: tag_text,
        }
    }

    fn advance(&mut self, n: u64)
        requires
            old(self).stage != Stage::Done,
        ensures
            final(self)@ == (StreamState { written: add_bytes(old(self)@.written, n as nat), ..old(self)@ }),
    {
        self.written = self.written.saturating_add(n);
    }

    /// The next chunk to write, or `None` once the file is complete.
    pub fn next_chunk(&mut self) -> (r: Result<Option<String>, Error>)
        ensures
            step_ok(old(self)@, chunk_view(r), final(self)@),
            r matches Err(e) ==> e == Error::RowLimit,
            final(self)@.stage == Stage::Done ==> final(self)@.written >= final(self)@.target,
    {
        proof {
            use_type_invariant(&*self);
        }
        match self.stage {
            Stage::Done => Ok(None),
            Stage::Start => {
                let c: String = if self.format == StreamFormat::Json {
                    string_of("[\n")
                } else if self.template.is_some() {
                    match self.header {
                        Some(h) => {
                            let mut c = string_of(h.as_str());
                            push_str(&mut c, "\n");
                            c
                        },
                        None => String::new(),
                    }
                } else {
                    match self.format {
                        StreamFormat::Csv => string_of("id,name,email,score,tags,notes\n"),
                        StreamFormat::Txt => {
                            let mut c = string_of("Tags: ");
                            push_str(&mut c, self.tags.as_str());
                            push_str(&mut c, "\n");
                            c
                        },
                        StreamFormat::Md => {
                            let mut c = string_of("# Generated Markdown sample\n\nTags: ");
                            push_str(&mut c, self.tags.as_str());
                            push_str(&mut c, "\n\n");
                            c
                        },
                        _ => String::new(),
                    }
                };
                assert(c@ =~= start_text(self@));
                let n = utf8_len(&c);
                self.stage = Stage::Rows;
                self.row = if self.template.is_some() {
                    1
                } else {
                    0
                };
                self.advance(n);
                Ok(Some(c))
            },
            Stage::Rows => {
                let going = if self.format == StreamFormat::Json {
                    (self.written as u128) + 3 < (self.target as u128)
                } else {
                    self.written < self.target
                };
                if !going {
                    let c: String = if self.format == StreamFormat::Json {
                        string_of("\n]\n")
                    } else {
                        String::new()
                    };
                    assert(c@ =~= end_text(self@));
                    let n = utf8_len(&c);
                    proof {
                        if self.format == StreamFormat::Json {
                            reveal_strlit("\n]\n");
                            assert(c@ =~= seq!['\n', ']', '\n']);
                            assert(encode_utf8(c@).len() == 3) by {
                                vstd::utf8::is_ascii_chars_encode_utf8(c@);
                            }
                        }
                    }
                    self.advance(n);
                    self.stage = Stage::Done;
                    return Ok(Some(c));
                }
                if self.row >= (usize::MAX as u64) - 4096 {
                    return Err(Error::RowLimit);
                }
                let r = self.row;
                let c: String = match self.template {
                    Some(t) => {
                        let out = match t.render(r) {
                            Ok(out) => out,
                            Err(e) => {
                                return Err(e);
                            },
                        };
                        assert(self@.template == Some(t@));
                        if self.format == StreamFormat::Json {
                            let mut c = if r > 1 {
                                string_of(",\n")
                            } else {
                                String::new()
                            };
                            push_str(&mut c, "  ");
                            push_str(&mut c, out.as_str());
                            assert(c@ == (if r > 1 {
                                ",\n"@
                            } else {
                                Seq::<char>::empty()
                            }) + "  "@ + out@);
                            assert(is_rendering(t@, r, out@));
                            proof {
                                lemma_row_ok_template(self@, c@, out@);
                            }
                            c
                        } else {
                            let ghost o = out@;
                            let mut c = out;
                            push_str(&mut c, "\n");
                            assert(is_rendering(t@, r, o));
                            assert(c@ == o + "\n"@);
                            proof {
                                lemma_row_ok_template(self@, c@, o);
                            }
                            c
                        }
                    },
                    None => match self.format {
                        StreamFormat::Csv => csv_row(r, self.tags.as_str()),
                        StreamFormat::Txt => txt_row(r),
                        StreamFormat::Md => md_row(r),
                        StreamFormat::Json => {
                            let mut c = if r > 0 {
                                string_of(",\n")
                            } else {
                                String::new()
                            };
                            push_str(&mut c, "  ");
                            push_json_object(&mut c, r, self.tags.as_str());
                            assert(c@ =~= (if r > 0 {
                                ",\n"@
                            } else {
                                Seq::<char>::empty()
                            }) + "  "@ + json_object_text(r, self@.tags));
                            c
                        },
                        StreamFormat::Jsonl => {
                            let mut c = String::new();
                            push_json_object(&mut c, r, self.tags.as_str());
                            push_str(&mut c, "\n");
                            c
                        },
                    },
                };
                assert(row_ok(self@, c@));
                let n = utf8_len(&c);
                self.row = r + 1;
                self.advance(n);
                Ok(Some(c))
            },
        }
    }
}

// ---------------------------------------------------------------------------
// Laws
// ---------------------------------------------------------------------------

/// Without a row template a stream is deterministic: from a given state the
/// next chunk and the state after it are fixed.
pub proof fn law_stream_is_deterministic(
    st: StreamState,
    r1: Result<Option<Seq<char>>, ()>,
    n1: StreamState,
    r2: Result<Option<Seq<char>>, ()>,
    n2: StreamState,
)
    requires
        st.template is None,
        step_ok(st, r1, n1),
        step_ok(st, r2, n2),
    ensures
        r1 == r2,
        n1 == n2,
{
    if r1 is Err && r2 is Err {
        let (u1, u2) = (r1->Err_0, r2->Err_0);
        assert(u1 == u2);
    }
}

/// A stream that has finished stays finished.
pub proof fn law_finished_stream_stays_finished(
    st: StreamState,
    r: Result<Option<Seq<char>>, ()>,
    next: StreamState,
)
    requires
        st.stage == Stage::Done,
        step_ok(st, r, next),
    ensures
        r == Ok::<Option<Seq<char>>, ()>(None),
        next == st,
{
}

/// Every row a stream writes adds at least one byte, so a stream that keeps
/// writing rows reaches its target: from a state that keeps going, a row or
/// the end moves the count of written bytes up (chunks of more than
/// `usize::MAX` bytes, which no `String` holds, left aside).
pub proof fn law_rows_make_progress(
    st: StreamState,
    c: Seq<char>,
    next: StreamState,
)
    requires
        st.stage == Stage::Rows,
        keeps_going(st),
        step_ok(st, Ok(Some(c)), next),
        byte_len(c) <= usize::MAX,
    ensures
        next.written > st.written,
        next.row == st.row + 1,
{
    assert(c.len() > 0) by {
        if st.template is Some {
            let t = st.template->Some_0;
            if st.format == StreamFormat::Json {
                let out = choose|out: Seq<char>|
                    #![trigger is_rendering(t, st.row, out)]
                    is_rendering(t, st.row, out) && c == (if st.row > 1 {
                        ",\n"@
                    } else {
                        Seq::empty()
                    }) + "  "@ + out;
                reveal_strlit("  ");
                assert(c.len() >= 2);
            } else {
                let out = choose|out: Seq<char>|
                    #![trigger is_rendering(t, st.row, out)]
                    is_rendering(t, st.row, out) && c == out + "\n"@;
                reveal_strlit("\n");
            }
        } else {
            match st.format {
                StreamFormat::Csv => {
                    reveal_strlit("\n");
                },
                StreamFormat::Txt => {
                    reveal_strlit(".\n");
                },
                StreamFormat::Md => {
                    reveal_strlit("\n");
                },
                StreamFormat::Json => {
                    reveal_strlit("  ");
                },
                StreamFormat::Jsonl => {
                    reveal_strlit("\n");
                },
            }
        }
    }
    lemma_encode_utf8_len(c);
}


/// Whether `t` stands whole somewhere in `s`.
pub open spec fn holds_text(s: Seq<char>, t: Seq<char>) -> bool {
    exists|k: int| 0 <= k && k + t.len() <= s.len() && #[trigger] s.subrange(k, k + t.len()) == t
}

/// Each part of a joined text stands in it whole.
proof fn lemma_join_holds_part(parts: Seq<Seq<char>>, sep: Seq<char>, i: int)
    requires
        0 <= i < parts.len(),
    ensures
        exists|k: int|
            0 <= k && k + parts[i].len() <= join(parts, sep).len() && #[trigger] join(parts, sep).subrange(
                k,
                k + parts[i].len(),
            ) == parts[i],
    decreases parts.len(),
{
    let j = join(parts, sep);
    if parts.len() == 1 {
        assert(j.subrange(0, parts[i].len() as int) =~= parts[i]);
        assert(0 + parts[i].len() <= j.len() && j.subrange(0, 0 + parts[i].len() as int) == parts[i]);
    } else {
        let init = parts.drop_last();
        let head = join(init, sep);
        assert(j == head + sep + parts.last());
        if i < parts.len() - 1 {
            lemma_join_holds_part(init, sep, i);
            assert(init[i] == parts[i]);
            let k = choose|k: int|
                0 <= k && k + init[i].len() <= head.len() && #[trigger] head.subrange(k, k + init[i].len())
                    == init[i];
            assert(j.subrange(k, k + parts[i].len()) =~= head.subrange(k, k + init[i].len()));
            assert(0 <= k && k + parts[i].len() <= j.len() && j.subrange(k, k + parts[i].len()) == parts[i]);
        } else {
            let k: int = (head.len() + sep.len()) as int;
            assert(j.subrange(k, k + parts[i].len()) =~= parts[i]);
            assert(0 <= k && k + parts[i].len() <= j.len() && j.subrange(k, k + parts[i].len()) == parts[i]);
        }
    }
}

/// A text or Markdown stream made without a row template writes the caller's
/// tags in its first chunk, after `Tags: `: `key=value` for every tag, joined
/// by commas, and `none` only when there are no tags.
pub proof fn law_text_streams_write_the_tags(f: StreamFormat, tags: Seq<Tag>, st: StreamState)
    requires
        f == StreamFormat::Txt || f == StreamFormat::Md,
        st.format == f,
        st.template is None,
        st.tags == tags_for(f, tags),
    ensures
        st.tags == tags_text_spec(tags),
        f == StreamFormat::Txt ==> start_text(st) == "Tags: "@ + tags_text_spec(tags) + "\n"@,
        f == StreamFormat::Md ==> start_text(st) == "# Generated Markdown sample\n\nTags: "@
            + tags_text_spec(tags) + "\n\n"@,
        tags.len() == 0 ==> st.tags == "none"@,
        forall|i: int| 0 <= i < tags.len() ==> holds_text(st.tags, tag_text(#[trigger] tags[i])),
{
    assert forall|i: int| 0 <= i < tags.len() implies holds_text(st.tags, tag_text(#[trigger] tags[i])) by {
        let parts = tags.map_values(|t: Tag| tag_text(t));
        lemma_join_holds_part(parts, seq![','], i);
        assert(parts[i] == tag_text(tags[i]));
        assert(st.tags == join(parts, seq![',']));
        let k = choose|k: int|
            0 <= k && k + parts[i].len() <= join(parts, seq![',']).len() && #[trigger] join(parts, seq![',']).subrange(
                k,
                k + parts[i].len(),
            ) == parts[i];
        assert(st.tags.subrange(k, k + tag_text(tags[i]).len()) == tag_text(tags[i]));
        assert(0 <= k && k + tag_text(tags[i]).len() <= st.tags.len());
    }
}


/// Replacing a character that does not occur changes nothing.
proof fn lemma_replace_absent(s: Seq<char>, c: char, to: Seq<char>)
    requires
        !s.contains(c),
    ensures
        replace(s, seq![c], to) == s,
    decreases s.len(),
{
    if s.len() >= 1 {
        assert(s.take(1) != seq![c]) by {
            assert(s.take(1)[0] == s[0]);
        }
        assert(!s.skip(1).contains(c)) by {
            if s.skip(1).contains(c) {
                let i = choose|i: int| 0 <= i < s.skip(1).len() && s.skip(1)[i] == c;
                assert(s[i + 1] == c);
            }
        }
        lemma_replace_absent(s.skip(1), c, to);
        assert(seq![s[0]] + s.skip(1) =~= s);
    }
}

/// A CSV or JSON stream made without a row template writes the caller's tags
/// too: CSV as the `key=value` text (quotes doubled, so unchanged when it has
/// none), JSON and JSON Lines as an array holding every tag's JSON object.
pub proof fn law_csv_and_json_streams_write_the_tags(f: StreamFormat, tags: Seq<Tag>, st: StreamState)
    requires
        f != StreamFormat::Txt && f != StreamFormat::Md,
        st.format == f,
        st.template is None,
        st.tags == tags_for(f, tags),
    ensures
        f == StreamFormat::Csv && !tags_text_spec(tags).contains('"') ==> st.tags == tags_text_spec(tags),
        f != StreamFormat::Csv ==> st.tags.len() >= 2 && st.tags[0] == '[' && st.tags.last() == ']',
        f != StreamFormat::Csv ==> forall|i: int|
            0 <= i < tags.len() ==> holds_text(st.tags, tag_json(#[trigger] tags[i])),
{
    if f == StreamFormat::Csv {
        if !tags_text_spec(tags).contains('"') {
            lemma_replace_absent(tags_text_spec(tags), '"', seq!['"', '"']);
        }
    } else {
        let parts = tags.map_values(|t: Tag| tag_json(t));
        let inner = join(parts, seq![',']);
        assert(st.tags == seq!['['] + inner + seq![']']);
        assert forall|i: int| 0 <= i < tags.len() implies holds_text(st.tags, tag_json(#[trigger] tags[i])) by {
            lemma_join_holds_part(parts, seq![','], i);
            assert(parts[i] == tag_json(tags[i]));
            let k = choose|k: int|
                0 <= k && k + parts[i].len() <= inner.len() && #[trigger] inner.subrange(k, k + parts[i].len())
                    == parts[i];
            assert(st.tags.subrange(k + 1, k + 1 + parts[i].len()) =~= inner.subrange(k, k + parts[i].len()));
            assert(0 <= k + 1 && k + 1 + tag_json(tags[i]).len() <= st.tags.len());
            assert(st.tags.subrange(k + 1, k + 1 + tag_json(tags[i]).len()) == tag_json(tags[i]));
        }
    }
}

} // verus!
