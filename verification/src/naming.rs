//! Tags and file names.

use vstd::prelude::*;
use crate::error::Error;
use crate::text::{
    chars_are, chars_of, decimal, find, find_from, is_ascii_alnum, is_ascii_alphanumeric, join,
    push_char, push_chars, push_decimal, push_str, replace, slice_range, string_from_chars,
    string_of, trim, trim_chars, lemma_find_some, lemma_join_push,
};

verus! {

/// A `KEY=VALUE` tag attached to generated files and reports.
#[derive(Debug)]
pub struct Tag {
    pub key: String,
    pub value: String,
}

// ---------------------------------------------------------------------------
// Specification
// ---------------------------------------------------------------------------

/// The characters allowed in a tag key.
pub open spec fn is_key_char(c: char) -> bool {
    is_ascii_alnum(c) || c == '_' || c == '-' || c == '.'
}

/// Why a tag does not parse.
pub enum TagFault {
    MissingSeparator,
    EmptyPart,
    InvalidKey(Seq<char>),
}

/// The meaning of a tag string: its trimmed key and value, or why it is refused.
pub open spec fn tag_verdict(s: Seq<char>) -> Result<(Seq<char>, Seq<char>), TagFault> {
    match find(s, seq!['=']) {
        None => Err(TagFault::MissingSeparator),
        Some(i) => {
            let k = trim(s.take(i as int));
            let v = trim(s.skip(i as int + 1));
            if k.len() == 0 || v.len() == 0 {
                Err(TagFault::EmptyPart)
            } else if !(forall|j: int| 0 <= j < k.len() ==> is_key_char(#[trigger] k[j])) {
                Err(TagFault::InvalidKey(k))
            } else {
                Ok((k, v))
            }
        },
    }
}

/// Whether `e` is the error that parsing the tag `s` reports.
pub open spec fn is_tag_error(s: Seq<char>, e: Error) -> bool {
    match tag_verdict(s) {
        Ok(_) => false,
        Err(TagFault::MissingSeparator) => e matches Error::TagMissingSeparator { input }
            && input@ == s,
        Err(TagFault::EmptyPart) => e matches Error::TagEmptyPart { input } && input@ == s,
        Err(TagFault::InvalidKey(k)) => e matches Error::TagInvalidKey { key } && key@ == k,
    }
}

/// Whether `t` is the tag that the string `s` describes.
pub open spec fn is_tag_of(s: Seq<char>, t: Tag) -> bool {
    tag_verdict(s) == Ok::<(Seq<char>, Seq<char>), TagFault>((t.key@, t.value@))
}

pub open spec fn is_safe_char(c: char) -> bool {
    is_ascii_alnum(c) || c == '-' || c == '_' || c == '.'
}

pub open spec fn strip_dash_start(s: Seq<char>) -> Seq<char>
    decreases s.len(),
{
    if s.len() > 0 && s[0] == '-' {
        strip_dash_start(s.drop_first())
    } else {
        s
    }
}

pub open spec fn strip_dash_end(s: Seq<char>) -> Seq<char>
    decreases s.len(),
{
    if s.len() > 0 && s.last() == '-' {
        strip_dash_end(s.drop_last())
    } else {
        s
    }
}

/// A piece of a file name: unsafe characters become `-`, then the `-`s at
/// both ends are dropped.
pub open spec fn sanitize(s: Seq<char>) -> Seq<char> {
    strip_dash_end(
        strip_dash_start(s.map_values(|c: char| if is_safe_char(c) { c } else { '-' })),
    )
}

/// The file-name piece that a tag contributes: `key-value`, both sanitized.
pub open spec fn tag_piece(t: Tag) -> Seq<char> {
    sanitize(t.key@) + seq!['-'] + sanitize(t.value@)
}

/// The pieces of a file stem: the sanitized prefix, then one piece per tag.
pub open spec fn stem_pieces(prefix: Seq<char>, tags: Seq<Tag>) -> Seq<Seq<char>> {
    seq![sanitize(prefix)] + tags.map_values(|t: Tag| tag_piece(t))
}

/// The `key=value` text of a tag.
pub open spec fn tag_text(t: Tag) -> Seq<char> {
    t.key@ + seq!['='] + t.value@
}

/// The tags as text: `none`, or `key=value` entries joined by `,`.
pub open spec fn tags_text_spec(tags: Seq<Tag>) -> Seq<char> {
    if tags.len() == 0 {
        "none"@
    } else {
        join(tags.map_values(|t: Tag| tag_text(t)), seq![','])
    }
}

/// What a custom file name must satisfy, or the error it gets.
pub open spec fn file_name_fault(name: Seq<char>) -> Option<Error> {
    if trim(name).len() == 0 {
        Some(Error::FileNameEmpty)
    } else if name == seq!['.'] || name == seq!['.', '.'] {
        Some(Error::FileNameNotAFile)
    } else if name.contains('/') || name.contains('\\') {
        Some(Error::FileNamePathSeparator)
    } else {
        None
    }
}

/// A file name rendered from a name template: the placeholders replaced in turn.
pub open spec fn render_name(
    template: Seq<char>,
    prefix: Seq<char>,
    format: Seq<char>,
    size: Seq<char>,
    extension: Seq<char>,
    index: nat,
) -> Seq<char> {
    replace(
        replace(
            replace(
                replace(replace(template, "{prefix}"@, prefix), "{format}"@, format),
                "{size}"@,
                size,
            ),
            "{extension}"@,
            extension,
        ),
        "{index}"@,
        decimal(index),
    )
}

/// The file name without a template: `prefix_size.extension`.
pub open spec fn default_name(prefix: Seq<char>, size: Seq<char>, extension: Seq<char>) -> Seq<
    char,
> {
    prefix + seq!['_'] + size + seq!['.'] + extension
}

// ---------------------------------------------------------------------------
// Tags
// ---------------------------------------------------------------------------

/// Parses one `KEY=VALUE` tag. Key and value are trimmed and must not be
/// empty; the key may hold only letters, digits, `_`, `-` and `.`.
pub fn parse_tag(input: &str) -> (r: Result<Tag, Error>)
    ensures
        match r {
            Ok(t) => is_tag_of(input@, t),
            Err(e) => is_tag_error(input@, e),
        },
{
    let v = chars_of(input);
    let eq = vec!['='];
    assert(eq@ =~= seq!['=']);
    assert(v@.skip(0) =~= v@);
    let found = find_from(v.as_slice(), eq.as_slice(), 0);
    proof {
        lemma_find_some(v@, eq@);
    }
    let i = match found {
        Some(i) => i,
        None => {
            return Err(Error::TagMissingSeparator { input: string_of(input) });
        },
    };
    let kraw = slice_range(v.as_slice(), 0, i);
    let vraw = slice_range(v.as_slice(), i + 1, v.len());
    assert(kraw@ =~= v@.take(i as int));
    assert(vraw@ =~= v@.skip(i + 1));
    let k = trim_chars(kraw.as_slice());
    let val = trim_chars(vraw.as_slice());
    if k.len() == 0 || val.len() == 0 {
        return Err(Error::TagEmptyPart { input: string_of(input) });
    }
    let mut j: usize = 0;
    while j < k.len()
        invariant
            j <= k.len(),
            k@.len() > 0,
            val@.len() > 0,
            found == Some(i),
            k@ == trim(v@.take(i as int)),
            val@ == trim(v@.skip(i + 1)),
            find(v@, seq!['=']) == Some(i as nat),
            v@ == input@,
            forall|m: int| 0 <= m < j ==> is_key_char(#[trigger] k@[m]),
        decreases k.len() - j,
    {
        let c = k[j];
        if !(is_ascii_alphanumeric(c) || c == '_' || c == '-' || c == '.') {
            assert(!is_key_char(k@[j as int]));
            assert(!(forall|m: int| 0 <= m < k@.len() ==> is_key_char(#[trigger] k@[m])));
            return Err(Error::TagInvalidKey { key: string_from_chars(k.as_slice()) });
        }
        j += 1;
    }
    Ok(Tag { key: string_from_chars(k.as_slice()), value: string_from_chars(val.as_slice()) })
}

/// Parses every tag, in order; the first refused tag gives the error.
pub fn parse_tags(inputs: &[String]) -> (r: Result<Vec<Tag>, Error>)
    ensures
        match r {
            Ok(tags) => tags@.len() == inputs@.len() && forall|i: int|
                0 <= i < inputs@.len() ==> is_tag_of(inputs@[i]@, #[trigger] tags@[i]),
            Err(e) => exists|j: int|
                0 <= j < inputs@.len() && (forall|i: int|
                    0 <= i < j ==> tag_verdict(#[trigger] inputs@[i]@) is Ok) && is_tag_error(
                    inputs@[j]@,
                    e,
                ),
        },
{
    let mut tags: Vec<Tag> = Vec::new();
    let mut i: usize = 0;
    while i < inputs.len()
        invariant
            i <= inputs@.len(),
            tags@.len() == i,
            forall|m: int| 0 <= m < i ==> is_tag_of(inputs@[m]@, #[trigger] tags@[m]),
        decreases inputs.len() - i,
    {
        match parse_tag(inputs[i].as_str()) {
            Ok(t) => {
                tags.push(t);
            },
            Err(e) => {
                assert forall|m: int| 0 <= m < i implies tag_verdict(
                    #[trigger] inputs@[m]@,
                ) is Ok by {
                    assert(is_tag_of(inputs@[m]@, tags@[m]));
                }
                return Err(e);
            },
        }
        i += 1;
    }
    Ok(tags)
}

/// The tags as `key=value` entries joined by `,`, or `none` when there are none.
pub fn tags_text(tags: &[Tag]) -> (s: String)
    ensures
        s@ == tags_text_spec(tags@),
{
    if tags.len() == 0 {
        return string_of("none");
    }
    let mut s = String::new();
    let mut i: usize = 0;
    let ghost texts = tags@.map_values(|t: Tag| tag_text(t));
    while i < tags.len()
        invariant
            i <= tags@.len(),
            texts == tags@.map_values(|t: Tag| tag_text(t)),
            s@ == join(texts.take(i as int), seq![',']),
        decreases tags.len() - i,
    {
        let ghost before = s@;
        if i > 0 {
            push_char(&mut s, ',');
        }
        push_str(&mut s, tags[i].key.as_str());
        push_char(&mut s, '=');
        push_str(&mut s, tags[i].value.as_str());
        proof {
            assert(texts.take(i + 1) =~= texts.take(i as int).push(texts[i as int]));
            lemma_join_push(texts.take(i as int), seq![','], texts[i as int]);
            if i > 0 {
                assert(s@ =~= before + seq![','] + texts[i as int]);
            } else {
                assert(s@ =~= texts[i as int]);
            }
        }
        i += 1;
    }
    assert(texts.take(tags.len() as int) =~= texts);
    s
}

/// The lower-case hexadecimal digit of `d` (0 to 15).
pub open spec fn hex_digit(d: int) -> char {
    if d < 10 {
        (48 + d) as char
    } else {
        (87 + d) as char
    }
}

/// How one character appears inside a JSON string: `"` and `\` behind a
/// backslash, the control characters with short escapes as `\b`, `\t`, `\n`,
/// `\f`, `\r`, the other control characters below 0x20 as `\u00XX` in
/// lower-case hex, and every other character as itself.
pub open spec fn json_escape(c: char) -> Seq<char> {
    let u = c as u32;
    if c == '"' {
        seq!['\\', '"']
    } else if c == '\\' {
        seq!['\\', '\\']
    } else if u == 8 {
        seq!['\\', 'b']
    } else if u == 9 {
        seq!['\\', 't']
    } else if u == 10 {
        seq!['\\', 'n']
    } else if u == 12 {
        seq!['\\', 'f']
    } else if u == 13 {
        seq!['\\', 'r']
    } else if u < 32 {
        seq!['\\', 'u', '0', '0', hex_digit((u / 16) as int), hex_digit((u % 16) as int)]
    } else {
        seq![c]
    }
}

/// A string written as a JSON string literal: each character escaped, between quotes.
pub open spec fn json_quoted(s: Seq<char>) -> Seq<char> {
    seq!['"'] + s.map_values(|c: char| json_escape(c)).flatten() + seq!['"']
}

/// Calls `serde_json::to_string` on a string slice. Trusted: the text is
/// `json_quoted(s)`, which is what serde_json's serializer writes for a `str`
/// (its escape table in `ser.rs`: `"` and `\`, the short escapes for
/// backspace, tab, line feed, form feed and carriage return, `\u00XX` in
/// lower-case hex for the other bytes below 0x20, everything else as is).
/// Serialising a `str` into the `Vec` behind `to_string` never fails, so the
/// error arm, which `unwrap_or_default` converts, is never taken.
#[verifier::external_body]
fn json_string(s: &str) -> (q: String)
    ensures
        q@ == json_quoted(s@),
{
    serde_json::to_string(s).unwrap_or_default()
}

/// The JSON object of one tag: `{"key":...,"value":...}`.
pub open spec fn tag_json(t: Tag) -> Seq<char> {
    "{\"key\":"@ + json_quoted(t.key@) + ",\"value\":"@ + json_quoted(t.value@) + "}"@
}

/// The tags as a JSON array of `{"key":...,"value":...}` objects, with no spaces.
pub fn tags_json(tags: &[Tag]) -> (r: Result<String, Error>)
    ensures
        r matches Ok(s) && s@ == seq!['['] + join(
            tags@.map_values(|t: Tag| tag_json(t)),
            seq![','],
        ) + seq![']'],
{
    let mut s = String::new();
    push_char(&mut s, '[');
    let mut i: usize = 0;
    let ghost objs = tags@.map_values(|t: Tag| tag_json(t));
    while i < tags.len()
        invariant
            i <= tags@.len(),
            objs == tags@.map_values(|t: Tag| tag_json(t)),
            s@ == seq!['['] + join(objs.take(i as int), seq![',']),
        decreases tags.len() - i,
    {
        let ghost before = s@;
        let k = json_string(tags[i].key.as_str());
        let v = json_string(tags[i].value.as_str());
        if i > 0 {
            push_char(&mut s, ',');
        }
        push_str(&mut s, "{\"key\":");
        push_str(&mut s, k.as_str());
        push_str(&mut s, ",\"value\":");
        push_str(&mut s, v.as_str());
        push_str(&mut s, "}");
        proof {
            assert(objs.take(i + 1) =~= objs.take(i as int).push(objs[i as int]));
            lemma_join_push(objs.take(i as int), seq![','], objs[i as int]);
            if i > 0 {
                assert(s@ =~= before + seq![','] + objs[i as int]);
            } else {
                assert(s@ =~= before + objs[i as int]);
            }
        }
        i += 1;
    }
    assert(objs.take(tags.len() as int) =~= objs);
    push_char(&mut s, ']');
    Ok(s)
}

// ---------------------------------------------------------------------------
// File names
// ---------------------------------------------------------------------------

/// A file-name piece: characters other than letters, digits, `-`, `_`, `.`
/// become `-`, and leading and trailing `-` are dropped.
pub fn sanitize_file_part(input: &str) -> (s: String)
    ensures
        s@ == sanitize(input@),
{
    let v = chars_of(input);
    let mut m: Vec<char> = Vec::new();
    let mut i: usize = 0;
    let ghost f = |c: char| if is_safe_char(c) { c } else { '-' };
    while i < v.len()
        invariant
            i <= v.len(),
            m@ == v@.take(i as int).map_values(f),
            f == (|c: char| if is_safe_char(c) { c } else { '-' }),
        decreases v.len() - i,
    {
        let c = v[i];
        let d = if is_ascii_alphanumeric(c) || c == '-' || c == '_' || c == '.' {
            c
        } else {
            '-'
        };
        m.push(d);
        assert(v@.take(i + 1).map_values(f) =~= v@.take(i as int).map_values(f).push(f(c)));
        i += 1;
    }
    assert(v@.take(v.len() as int) =~= v@);
    let mut a: usize = 0;
    assert(m@.skip(0) =~= m@);
    while a < m.len() && m[a] == '-'
        invariant
            a <= m.len(),
            strip_dash_start(m@) == strip_dash_start(m@.skip(a as int)),
        decreases m.len() - a,
    {
        assert(m@.skip(a as int).drop_first() =~= m@.skip(a + 1));
        a += 1;
    }
    let ghost t = m@.skip(a as int);
    assert(strip_dash_start(t) == t) by {
        if a < m.len() {
            assert(t[0] == m@[a as int]);
        }
    }
    let mut b: usize = m.len();
    while b > a && m[b - 1] == '-'
        invariant
            a <= b <= m.len(),
            t == m@.skip(a as int),
            strip_dash_end(t) == strip_dash_end(m@.subrange(a as int, b as int)),
        decreases b,
    {
        assert(m@.subrange(a as int, b as int).drop_last() =~= m@.subrange(a as int, b - 1));
        b -= 1;
    }
    assert(m@.skip(a as int) =~= m@.subrange(a as int, m.len() as int));
    assert(strip_dash_end(m@.subrange(a as int, b as int)) == m@.subrange(a as int, b as int))
        by {
        if b > a {
            assert(m@.subrange(a as int, b as int).last() == m@[b - 1]);
        }
    }
    let r = slice_range(m.as_slice(), a, b);
    string_from_chars(r.as_slice())
}

/// The stem shared by generated file names: the sanitized prefix followed by
/// one `key-value` piece per tag, joined with `_`.
pub fn file_stem_prefix(prefix: &str, tags: &[Tag]) -> (r: Result<String, Error>)
    ensures
        match r {
            Ok(s) => sanitize(prefix@).len() > 0 && s@ == join(
                stem_pieces(prefix@, tags@),
                seq!['_'],
            ),
            Err(e) => sanitize(prefix@).len() == 0 && e == Error::EmptyPrefix,
        },
{
    let p = sanitize_file_part(prefix);
    if p.as_str().is_empty() {
        return Err(Error::EmptyPrefix);
    }
    let mut s = p;
    let ghost pieces = stem_pieces(prefix@, tags@);
    assert(pieces.take(1) =~= seq![sanitize(prefix@)]);
    let mut i: usize = 0;
    while i < tags.len()
        invariant
            i <= tags@.len(),
            pieces == stem_pieces(prefix@, tags@),
            pieces.len() == tags@.len() + 1,
            s@ == join(pieces.take(i + 1), seq!['_']),
        decreases tags.len() - i,
    {
        let ghost before = s@;
        push_char(&mut s, '_');
        let k = sanitize_file_part(tags[i].key.as_str());
        push_str(&mut s, k.as_str());
        push_char(&mut s, '-');
        let v = sanitize_file_part(tags[i].value.as_str());
        push_str(&mut s, v.as_str());
        proof {
            assert(pieces[i + 1] == tag_piece(tags@[i as int]));
            assert(pieces.take(i + 2) =~= pieces.take(i + 1).push(pieces[i + 1]));
            lemma_join_push(pieces.take(i + 1), seq!['_'], pieces[i + 1]);
            assert(s@ =~= before + seq!['_'] + pieces[i + 1]);
        }
        i += 1;
    }
    assert(pieces.take(tags.len() + 1) =~= pieces);
    Ok(s)
}

/// Checks a custom file name: not blank, not `.` or `..`, and without `/` or `\`.
pub fn validate_file_name(file_name: &str) -> (r: Result<(), Error>)
    ensures
        match file_name_fault(file_name@) {
            None => r is Ok,
            Some(e) => r == Err::<(), Error>(e),
        },
{
    let v = chars_of(file_name);
    let t = trim_chars(v.as_slice());
    if t.len() == 0 {
        return Err(Error::FileNameEmpty);
    }
    let dot = vec!['.'];
    let dots = vec!['.', '.'];
    assert(dot@ =~= seq!['.']);
    assert(dots@ =~= seq!['.', '.']);
    if crate::text::chars_eq(v.as_slice(), dot.as_slice()) || crate::text::chars_eq(
        v.as_slice(),
        dots.as_slice(),
    ) {
        return Err(Error::FileNameNotAFile);
    }
    let mut i: usize = 0;
    while i < v.len()
        invariant
            i <= v.len(),
            v@ == file_name@,
            trim(v@).len() > 0,
            v@ != seq!['.'],
            v@ != seq!['.', '.'],
            forall|j: int| 0 <= j < i ==> v@[j] != '/' && v@[j] != '\\',
        decreases v.len() - i,
    {
        if v[i] == '/' || v[i] == '\\' {
            if v[i] == '/' {
                assert(v@[i as int] == '/');
                assert(v@.contains('/'));
            } else {
                assert(v@[i as int] == '\\');
                assert(v@.contains('\\'));
            }
            return Err(Error::FileNamePathSeparator);
        }
        i += 1;
    }
    Ok(())
}

/// Replaces every occurrence of `pat` in `s` with `to`, left to right.
pub fn replace_all(s: &[char], pat: &[char], to: &[char]) -> (r: Vec<char>)
    ensures
        r@ == replace(s@, pat@, to@),
{
    let mut out: Vec<char> = Vec::new();
    if pat.len() == 0 {
        let mut k: usize = 0;
        while k < s.len()
            invariant
                k <= s.len(),
                out@ == s@.take(k as int),
            decreases s.len() - k,
        {
            out.push(s[k]);
            assert(s@.take(k + 1) =~= s@.take(k as int).push(s@[k as int]));
            k += 1;
        }
        assert(s@.take(s.len() as int) =~= s@);
        return out;
    }
    let mut i: usize = 0;
    assert(s@.skip(0) =~= s@);
    while i < s.len()
        invariant
            i <= s.len(),
            pat@.len() > 0,
            out@ + replace(s@.skip(i as int), pat@, to@) == replace(s@, pat@, to@),
        decreases s.len() - i,
    {
        let ghost rest = s@.skip(i as int);
        if s.len() - i < pat.len() {
            assert(replace(rest, pat@, to@) == rest);
            let mut k = i;
            let ghost start = out@;
            while k < s.len()
                invariant
                    i <= k <= s.len(),
                    out@ == start + s@.subrange(i as int, k as int),
                decreases s.len() - k,
            {
                out.push(s[k]);
                assert(s@.subrange(i as int, k + 1) =~= s@.subrange(i as int, k as int).push(
                    s@[k as int],
                ));
                k += 1;
            }
            assert(s@.subrange(i as int, s.len() as int) =~= rest);
            return out;
        }
        let mut k: usize = 0;
        let mut matched = true;
        while k < pat.len()
            invariant
                i + pat.len() <= s.len(),
                k <= pat.len(),
                matched <==> (forall|m: int| 0 <= m < k ==> s@[i + m] == pat@[m]),
            decreases pat.len() - k,
        {
            if s[i + k] != pat[k] {
                matched = false;
            }
            k += 1;
        }
        if matched {
            assert(rest.take(pat.len() as int) =~= pat@);
            assert(rest.skip(pat.len() as int) =~= s@.skip(i + pat.len()));
            let ghost before = out@;
            push_all(&mut out, to);
            assert(before + replace(rest, pat@, to@) =~= out@ + replace(
                s@.skip(i + pat.len()),
                pat@,
                to@,
            ));
            i += pat.len();
        } else {
            assert(rest.take(pat.len() as int) != pat@) by {
                let m = choose|m: int| 0 <= m < pat.len() && s@[i + m] != pat@[m];
                assert(rest.take(pat.len() as int)[m] == s@[i + m]);
            }
            assert(rest.skip(1) =~= s@.skip(i + 1));
            let ghost before = out@;
            out.push(s[i]);
            assert(before + replace(rest, pat@, to@) =~= out@ + replace(
                s@.skip(i + 1),
                pat@,
                to@,
            ));
            i += 1;
        }
    }
    assert(s@.skip(i as int) =~= Seq::<char>::empty());
    assert(out@ + Seq::<char>::empty() =~= out@);
    out
}

/// Appends the characters of `v` to `out`.
pub fn push_all(out: &mut Vec<char>, v: &[char])
    ensures
        final(out)@ == old(out)@ + v@,
{
    let mut k: usize = 0;
    while k < v.len()
        invariant
            k <= v.len(),
            out@ == old(out)@ + v@.take(k as int),
        decreases v.len() - k,
    {
        out.push(v[k]);
        assert(old(out)@ + v@.take(k + 1) =~= (old(out)@ + v@.take(k as int)).push(v@[k as int]));
        k += 1;
    }
    assert(v@.take(v.len() as int) =~= v@);
}

/// The file name of one generated file: the custom name template with
/// `{prefix}`, `{format}`, `{size}`, `{extension}` and `{index}` replaced in
/// that order, or `prefix_size.extension` without a template. The name must
/// pass `validate_file_name`.
pub fn generated_file_name(
    template: Option<&str>,
    prefix: &str,
    format: &str,
    size: &str,
    extension: &str,
    index: usize,
) -> (r: Result<String, Error>)
    ensures
        ({
            let name = match template {
                Some(t) => render_name(t@, prefix@, format@, size@, extension@, index as nat),
                None => default_name(prefix@, size@, extension@),
            };
            match file_name_fault(name) {
                None => r matches Ok(s) && s@ == name,
                Some(e) => r == Err::<String, Error>(e),
            }
        }),
{
    let name: String = match template {
        Some(t) => {
            let mut v = chars_of(t);
            v = replace_all(v.as_slice(), chars_of("{prefix}").as_slice(), chars_of(prefix).as_slice());
            v = replace_all(v.as_slice(), chars_of("{format}").as_slice(), chars_of(format).as_slice());
            v = replace_all(v.as_slice(), chars_of("{size}").as_slice(), chars_of(size).as_slice());
            v = replace_all(
                v.as_slice(),
                chars_of("{extension}").as_slice(),
                chars_of(extension).as_slice(),
            );
            let idx = crate::text::decimal_string(index as u64);
            assert(idx@ == decimal(index as nat));
            v = replace_all(v.as_slice(), chars_of("{index}").as_slice(), chars_of(idx.as_str()).as_slice());
            string_from_chars(v.as_slice())
        },
        None => {
            let mut s = string_of(prefix);
            push_char(&mut s, '_');
            push_str(&mut s, size);
            push_char(&mut s, '.');
            push_str(&mut s, extension);
            assert(s@ =~= default_name(prefix@, size@, extension@));
            s
        },
    };
    match validate_file_name(name.as_str()) {
        Ok(()) => Ok(name),
        Err(e) => Err(e),
    }
}

// ---------------------------------------------------------------------------
// Laws
// ---------------------------------------------------------------------------

proof fn lemma_find_after_prefix(a: Seq<char>, b: Seq<char>, c: char)
    requires
        !a.contains(c),
        b.len() > 0,
        b[0] == c,
    ensures
        find(a + b, seq![c]) == Some(a.len()),
    decreases a.len(),
{
    let s = a + b;
    if a.len() == 0 {
        assert(s =~= b);
        assert(s.take(1) =~= seq![c]);
    } else {
        assert(s.take(1)[0] == a[0]);
        assert(a[0] != c) by {
            if a[0] == c {
                assert(a.contains(c));
            }
        }
        assert(s.take(1) != seq![c]);
        let a1 = a.skip(1);
        assert(!a1.contains(c)) by {
            if a1.contains(c) {
                let j = choose|j: int| 0 <= j < a1.len() && a1[j] == c;
                assert(a[j + 1] == c);
            }
        }
        assert(s.skip(1) =~= a1 + b);
        lemma_find_after_prefix(a1, b, c);
    }
}

/// Writing a tag as `key=value` and parsing that text gives the same key and
/// value back, for any valid key and any value without surrounding space.
pub proof fn law_tag_text_parses_back(k: Seq<char>, v: Seq<char>)
    requires
        k.len() > 0,
        forall|j: int| 0 <= j < k.len() ==> is_key_char(#[trigger] k[j]),
        v.len() > 0,
        !crate::text::is_ws(v[0]),
        !crate::text::is_ws(v.last()),
    ensures
        tag_verdict(k + seq!['='] + v) == Ok::<(Seq<char>, Seq<char>), TagFault>((k, v)),
{
    let s = k + seq!['='] + v;
    assert(!k.contains('=')) by {
        if k.contains('=') {
            let j = choose|j: int| 0 <= j < k.len() && k[j] == '=';
            assert(is_key_char(k[j]));
        }
    }
    assert(s =~= k + (seq!['='] + v));
    lemma_find_after_prefix(k, seq!['='] + v, '=');
    assert(s.take(k.len() as int) =~= k);
    assert(s.skip(k.len() as int + 1) =~= v);
    assert(!crate::text::is_ws(k[0])) by {
        assert(is_key_char(k[0]));
    }
    assert(!crate::text::is_ws(k.last())) by {
        assert(is_key_char(k[k.len() - 1]));
    }
    crate::text::lemma_trim_noop(k);
    crate::text::lemma_trim_noop(v);
}

pub open spec fn all_safe(s: Seq<char>) -> bool {
    forall|i: int| 0 <= i < s.len() ==> is_safe_char(#[trigger] s[i])
}

proof fn lemma_strip_keeps_safe(s: Seq<char>)
    requires
        all_safe(s),
    ensures
        all_safe(strip_dash_start(s)),
        all_safe(strip_dash_end(s)),
    decreases s.len(),
{
    if s.len() > 0 {
        let a = s.drop_first();
        let b = s.drop_last();
        assert forall|i: int| 0 <= i < a.len() implies is_safe_char(#[trigger] a[i]) by {
            assert(a[i] == s[i + 1]);
        }
        assert forall|i: int| 0 <= i < b.len() implies is_safe_char(#[trigger] b[i]) by {
            assert(b[i] == s[i]);
        }
        lemma_strip_keeps_safe(a);
        lemma_strip_keeps_safe(b);
    }
}

proof fn lemma_sanitize_safe(s: Seq<char>)
    ensures
        all_safe(sanitize(s)),
{
    let m = s.map_values(|c: char| if is_safe_char(c) { c } else { '-' });
    assert forall|i: int| 0 <= i < m.len() implies is_safe_char(#[trigger] m[i]) by {}
    lemma_strip_keeps_safe(m);
    lemma_strip_keeps_safe(strip_dash_start(m));
}

proof fn lemma_join_safe(parts: Seq<Seq<char>>, sep: Seq<char>)
    requires
        all_safe(sep),
        forall|i: int| 0 <= i < parts.len() ==> all_safe(#[trigger] parts[i]),
    ensures
        all_safe(join(parts, sep)),
    decreases parts.len(),
{
    if parts.len() > 1 {
        let p = parts.drop_last();
        assert forall|i: int| 0 <= i < p.len() implies all_safe(#[trigger] p[i]) by {
            assert(p[i] == parts[i]);
        }
        lemma_join_safe(p, sep);
        let j = join(p, sep) + sep + parts.last();
        assert(all_safe(parts[parts.len() - 1]));
        assert forall|i: int| 0 <= i < j.len() implies is_safe_char(#[trigger] j[i]) by {
            let a = join(p, sep);
            if i < a.len() {
                assert(j[i] == a[i]);
            } else if i < a.len() + sep.len() {
                assert(j[i] == sep[i - a.len()]);
            } else {
                assert(j[i] == parts.last()[i - a.len() - sep.len()]);
            }
        }
    } else if parts.len() == 1 {
        assert(all_safe(parts[0]));
    }
}

/// A file stem holds only letters, digits, `-`, `_` and `.`, whatever the
/// prefix and tags: in particular no path separator.
pub proof fn law_stem_is_file_safe(prefix: Seq<char>, tags: Seq<Tag>)
    ensures
        all_safe(join(stem_pieces(prefix, tags), seq!['_'])),
{
    let pieces = stem_pieces(prefix, tags);
    assert forall|i: int| 0 <= i < pieces.len() implies all_safe(#[trigger] pieces[i]) by {
        if i == 0 {
            lemma_sanitize_safe(prefix);
        } else {
            let t = tags[i - 1];
            lemma_sanitize_safe(t.key@);
            lemma_sanitize_safe(t.value@);
            let p = tag_piece(t);
            assert(p == pieces[i]);
            assert forall|j: int| 0 <= j < p.len() implies is_safe_char(#[trigger] p[j]) by {
                let a = sanitize(t.key@);
                if j < a.len() {
                    assert(p[j] == a[j]);
                } else if j == a.len() {
                    assert(p[j] == '-');
                } else {
                    assert(p[j] == sanitize(t.value@)[j - a.len() - 1]);
                }
            }
        }
    }
    assert(is_safe_char('_'));
    assert(all_safe(seq!['_']));
    lemma_join_safe(pieces, seq!['_']);
}

} // verus!
