//! A minimal one-page PDF whose content stream holds lines of text.

use vstd::prelude::*;
use vstd::utf8::encode_utf8;
use crate::formats::common::{payload, pdf_escape, pdf_escaped, repeated_payload};
use crate::naming::{Tag, tags_text, tags_text_spec};
use crate::template::{TemplateOptions, is_rendering};
use crate::text::{lemma_encode_utf8_len, chars_of, decimal, push_char, push_chars, push_decimal, push_str, string_of};

verus! {

// ---------------------------------------------------------------------------
// Specification
// ---------------------------------------------------------------------------

/// The size of a text in bytes as `str::len` reports it.
pub open spec fn str_len(s: Seq<char>) -> nat {
    (encode_utf8(s).len() as usize) as nat
}

/// A number written with at least ten digits (`{:010}`).
pub open spec fn pad10(d: Seq<char>) -> Seq<char> {
    if d.len() >= 10 {
        d
    } else {
        Seq::new((10 - d.len()) as nat, |i: int| '0') + d
    }
}

/// One cross-reference entry.
pub open spec fn xref_entry(offset: nat) -> Seq<char> {
    pad10(decimal(offset)) + " 00000 n \n"@
}

pub open spec fn pdf_head() -> Seq<char> {
    "%PDF-1.4\n"@
}

pub open spec fn pdf_obj1() -> Seq<char> {
    "1 0 obj\n<< /Type /Catalog /Pages 2 0 R >>\nendobj\n"@
}

pub open spec fn pdf_obj2() -> Seq<char> {
    "2 0 obj\n<< /Type /Pages /Kids [3 0 R] /Count 1 >>\nendobj\n"@
}

pub open spec fn pdf_obj3() -> Seq<char> {
    "3 0 obj\n<< /Type /Page /Parent 2 0 R /MediaBox [0 0 612 792] /Resources << /Font << /F1 4 0 R >> >> /Contents 5 0 R >>\nendobj\n"@
}

pub open spec fn pdf_obj4() -> Seq<char> {
    "4 0 obj\n<< /Type /Font /Subtype /Type1 /BaseFont /Helvetica >>\nendobj\n"@
}

/// The text of the PDF whose content stream is `body_content` followed by `ET`:
/// four fixed objects, the content stream with its length, the cross-reference
/// table of the five object offsets, and the trailer.
pub open spec fn pdf_text(body_content: Seq<char>) -> Seq<char> {
    let body = body_content + "ET"@;
    let p0 = pdf_head();
    let p1 = p0 + pdf_obj1();
    let p2 = p1 + pdf_obj2();
    let p3 = p2 + pdf_obj3();
    let p4 = p3 + pdf_obj4();
    let p5 = p4 + "5 0 obj\n<< /Length "@ + decimal(str_len(body)) + " >>\nstream\n"@ + body
        + "\nendstream\nendobj\n"@;
    p5 + "xref\n0 "@ + decimal(6) + "\n0000000000 65535 f \n"@ + xref_entry(str_len(p0))
        + xref_entry(str_len(p1)) + xref_entry(str_len(p2)) + xref_entry(str_len(p3))
        + xref_entry(str_len(p4)) + "trailer\n<< /Size 6 /Root 1 0 R >>\nstartxref\n"@ + decimal(
        str_len(p5),
    ) + "\n%%EOF\n"@
}

/// The bytes of that PDF.
#[verifier::opaque]
pub open spec fn pdf_bytes(body_content: Seq<char>) -> Seq<u8> {
    encode_utf8(pdf_text(body_content))
}

// ---------------------------------------------------------------------------
// Building
// ---------------------------------------------------------------------------

fn push_padded(s: &mut String, n: usize)
    ensures
        final(s)@ == old(s)@ + pad10(decimal(n as nat)),
{
    let d = crate::text::decimal_string(n as u64);
    let dv = chars_of(d.as_str());
    if dv.len() < 10 {
        let zeros = 10 - dv.len();
        let mut i: usize = 0;
        while i < zeros
            invariant
                i <= zeros,
                s@ == old(s)@ + Seq::new(i as nat, |k: int| '0'),
            decreases zeros - i,
        {
            push_char(s, '0');
            assert(Seq::new((i + 1) as nat, |k: int| '0') =~= Seq::new(i as nat, |k: int| '0').push('0'));
            i += 1;
        }
    }
    push_chars(s, dv.as_slice());
    assert(s@ =~= old(s)@ + pad10(decimal(n as nat)));
}

/// The bytes of a text.
fn bytes_of(s: &String) -> (b: Vec<u8>)
    ensures
        b@ == encode_utf8(s@),
{
    let mut b: Vec<u8> = Vec::new();
    let bytes = s.as_str().as_bytes();
    let mut i: usize = 0;
    while i < bytes.len()
        invariant
            i <= bytes@.len(),
            bytes@ == encode_utf8(s@),
            b@ == bytes@.take(i as int),
        decreases bytes.len() - i,
    {
        b.push(bytes[i]);
        assert(bytes@.take(i + 1) =~= bytes@.take(i as int).push(bytes@[i as int]));
        i += 1;
    }
    assert(bytes@.take(bytes@.len() as int) =~= bytes@);
    b
}

/// The size of `s` in bytes.
fn byte_size(s: &String) -> (n: usize)
    ensures
        n == str_len(s@),
{
    s.as_str().len()
}

/// A one-page PDF whose content stream is `body_content` followed by `ET`.
pub fn build_pdf(body_content: &str) -> (pdf: Vec<u8>)
    ensures
        pdf@ == pdf_bytes(body_content@),
{
    let mut body = string_of(body_content);
    push_str(&mut body, "ET");
    let mut pdf = string_of("%PDF-1.4\n");
    let mut offsets: Vec<usize> = Vec::new();
    let ghost p0 = pdf@;
    offsets.push(byte_size(&pdf));
    push_str(&mut pdf, "1 0 obj\n<< /Type /Catalog /Pages 2 0 R >>\nendobj\n");
    let ghost p1 = pdf@;
    offsets.push(byte_size(&pdf));
    push_str(&mut pdf, "2 0 obj\n<< /Type /Pages /Kids [3 0 R] /Count 1 >>\nendobj\n");
    let ghost p2 = pdf@;
    offsets.push(byte_size(&pdf));
    push_str(
        &mut pdf,
        "3 0 obj\n<< /Type /Page /Parent 2 0 R /MediaBox [0 0 612 792] /Resources << /Font << /F1 4 0 R >> >> /Contents 5 0 R >>\nendobj\n",
    );
    let ghost p3 = pdf@;
    offsets.push(byte_size(&pdf));
    push_str(&mut pdf, "4 0 obj\n<< /Type /Font /Subtype /Type1 /BaseFont /Helvetica >>\nendobj\n");
    let ghost p4 = pdf@;
    offsets.push(byte_size(&pdf));
    push_str(&mut pdf, "5 0 obj\n<< /Length ");
    push_decimal(&mut pdf, byte_size(&body) as u64);
    push_str(&mut pdf, " >>\nstream\n");
    push_str(&mut pdf, body.as_str());
    push_str(&mut pdf, "\nendstream\nendobj\n");
    let ghost p5 = pdf@;
    let xref_offset = byte_size(&pdf);
    push_str(&mut pdf, "xref\n0 ");
    push_decimal(&mut pdf, (offsets.len() + 1) as u64);
    push_str(&mut pdf, "\n0000000000 65535 f \n");
    let ghost before_entries = pdf@;
    let mut i: usize = 0;
    while i < offsets.len()
        invariant
            i <= offsets@.len() == 5,
            offsets@ == seq![str_len(p0) as usize, str_len(p1) as usize, str_len(p2) as usize, str_len(p3) as usize, str_len(p4) as usize],
            pdf@ == before_entries + (if i >= 1 { xref_entry(str_len(p0)) } else { Seq::empty() })
                + (if i >= 2 { xref_entry(str_len(p1)) } else { Seq::empty() })
                + (if i >= 3 { xref_entry(str_len(p2)) } else { Seq::empty() })
                + (if i >= 4 { xref_entry(str_len(p3)) } else { Seq::empty() })
                + (if i >= 5 { xref_entry(str_len(p4)) } else { Seq::empty() }),
        decreases offsets.len() - i,
    {
        let ghost prev = pdf@;
        push_padded(&mut pdf, offsets[i]);
        push_str(&mut pdf, " 00000 n \n");
        assert(pdf@ =~= prev + xref_entry(offsets@[i as int] as nat));
        i += 1;
    }
    push_str(&mut pdf, "trailer\n<< /Size 6 /Root 1 0 R >>\nstartxref\n");
    push_decimal(&mut pdf, xref_offset as u64);
    push_str(&mut pdf, "\n%%EOF\n");
    assert(pdf@ =~= pdf_text(body_content@));
    proof {
        reveal(pdf_bytes);
    }
    bytes_of(&pdf)
}

// ---------------------------------------------------------------------------
// The document
// ---------------------------------------------------------------------------

/// The rows a document may number before its payloads would overflow.
pub open spec fn pdf_row_cap() -> int {
    usize::MAX - 4096
}

/// Whether `line` is an acceptable text line for row `row`: the rendering of the
/// row template, or `Line {row}: ` and a 72-character payload.
pub open spec fn pdf_line_ok(template: Option<Seq<char>>, row: u64, line: Seq<char>) -> bool {
    match template {
        Some(t) => is_rendering(t, row, line),
        None => line == "Line "@ + decimal(row as nat) + ": "@ + payload(row as int, 72),
    }
}

/// The start of the content stream: the header line, or a title and the tags.
pub open spec fn pdf_prefix(header: Option<Seq<char>>, tags: Seq<Tag>) -> Seq<char> {
    match header {
        Some(h) => "BT /F1 11 Tf 50 780 Td ("@ + pdf_escaped(h) + ") Tj 0 -16 Td "@,
        None => "BT /F1 11 Tf 50 780 Td (Generated PDF sample) Tj 0 -16 Td (Tags: "@
            + pdf_escaped(tags_text_spec(tags)) + ") Tj 0 -16 Td "@,
    }
}

/// One line of text in the content stream.
pub open spec fn pdf_line_text(line: Seq<char>) -> Seq<char> {
    "("@ + pdf_escaped(line) + ") Tj 0 -14 Td "@
}

/// The content stream up to `ET`: the prefix and the lines.
pub open spec fn pdf_body(prefix: Seq<char>, lines: Seq<Seq<char>>) -> Seq<char>
    decreases lines.len(),
{
    if lines.len() == 0 {
        prefix
    } else {
        pdf_body(prefix, lines.drop_last()) + pdf_line_text(lines.last())
    }
}

/// The body size below which lines are added without building the document.
pub open spec fn pdf_fill_limit(target: u64) -> nat {
    ((if target >= 500 { target - 500 } else { 0 }) as usize) as nat
}

/// `bytes` is a PDF of `lines` made as the writer makes it: lines are added
/// while the body is under the fill limit; then one more line at a time until
/// the document reaches `target` bytes.
pub open spec fn pdf_run_ok(
    template: Option<Seq<char>>,
    prefix: Seq<char>,
    target: u64,
    lines: Seq<Seq<char>>,
    bytes: Seq<u8>,
) -> bool {
    &&& forall|i: int| 0 <= i < lines.len() ==> pdf_line_ok(template, i as u64, #[trigger] lines[i])
    &&& bytes == pdf_bytes(pdf_body(prefix, lines))
    &&& bytes.len() >= target
    &&& exists|n0: int|
        #![trigger lines.take(n0)]
        0 <= n0 < lines.len() && (forall|k: int|
            0 <= k < n0 ==> str_len(pdf_body(prefix, #[trigger] lines.take(k))) < pdf_fill_limit(
                target,
            )) && str_len(pdf_body(prefix, lines.take(n0))) >= pdf_fill_limit(target) && (forall|
            k: int,
        |
            n0 < k < lines.len() ==> pdf_bytes(pdf_body(prefix, #[trigger] lines.take(k))).len()
                < target)
}

/// `bytes` is a PDF made as the writer makes it, for some acceptable lines.
pub open spec fn pdf_made(
    template: Option<Seq<char>>,
    prefix: Seq<char>,
    target: u64,
    bytes: Seq<u8>,
) -> bool {
    exists|lines: Seq<Seq<char>>|
        #![trigger pdf_run_ok(template, prefix, target, lines, bytes)]
        pdf_run_ok(template, prefix, target, lines, bytes)
}

/// The text line for row `row`.
fn render_pdf_line(templates: &TemplateOptions, row: u64) -> (l: String)
    requires
        row < pdf_row_cap(),
    ensures
        pdf_line_ok(templates.body_text(), row, l@),
{
    match &templates.body {
        Some(t) => t.render(row).unwrap(),
        None => {
            let mut l = string_of("Line ");
            push_decimal(&mut l, row);
            push_str(&mut l, ": ");
            let p = repeated_payload(row, 72);
            push_str(&mut l, p.as_str());
            assert(l@ =~= "Line "@ + decimal(row as nat) + ": "@ + payload(row as int, 72));
            l
        },
    }
}

proof fn lemma_extend_lines(
    tmpl: Option<Seq<char>>,
    prefix: Seq<char>,
    target: u64,
    limit: nat,
    lines: Seq<Seq<char>>,
    line: Seq<char>,
    n0: int,
)
    requires
        0 <= n0 <= lines.len(),
        pdf_line_ok(tmpl, lines.len() as u64, line),
        forall|i: int| 0 <= i < lines.len() ==> pdf_line_ok(tmpl, i as u64, #[trigger] lines[i]),
        forall|k: int| 0 <= k < n0 ==> str_len(pdf_body(prefix, #[trigger] lines.take(k))) < limit,
        str_len(pdf_body(prefix, lines.take(n0))) >= limit,
        forall|k: int| n0 < k <= lines.len() ==> pdf_bytes(pdf_body(prefix, #[trigger] lines.take(k))).len() < target,
    ensures
        ({
            let l2 = lines.push(line);
            &&& forall|i: int| 0 <= i < l2.len() ==> pdf_line_ok(tmpl, i as u64, #[trigger] l2[i])
            &&& forall|k: int| 0 <= k < n0 ==> str_len(pdf_body(prefix, #[trigger] l2.take(k))) < limit
            &&& str_len(pdf_body(prefix, l2.take(n0))) >= limit
            &&& forall|k: int| n0 < k <= lines.len() ==> pdf_bytes(pdf_body(prefix, #[trigger] l2.take(k))).len() < target
        }),
{
    let l2 = lines.push(line);
    assert(l2.take(n0) =~= lines.take(n0));
    assert forall|k: int| 0 <= k < n0 implies str_len(pdf_body(prefix, #[trigger] l2.take(k))) < limit by {
        assert(l2.take(k) =~= lines.take(k));
    }
    assert forall|i: int| 0 <= i < l2.len() implies pdf_line_ok(tmpl, i as u64, #[trigger] l2[i]) by {
        if i < lines.len() {
            assert(l2[i] == lines[i]);
        }
    }
    assert forall|k: int| n0 < k <= lines.len() implies pdf_bytes(pdf_body(prefix, #[trigger] l2.take(k))).len() < target by {
        assert(l2.take(k) =~= lines.take(k));
    }
}

proof fn lemma_finish(
    tmpl: Option<Seq<char>>,
    prefix: Seq<char>,
    target: u64,
    lines: Seq<Seq<char>>,
    bytes: Seq<u8>,
    n0: int,
)
    requires
        0 <= n0 < lines.len(),
        forall|i: int| 0 <= i < lines.len() ==> pdf_line_ok(tmpl, i as u64, #[trigger] lines[i]),
        forall|k: int| 0 <= k < n0 ==> str_len(pdf_body(prefix, #[trigger] lines.take(k))) < pdf_fill_limit(target),
        str_len(pdf_body(prefix, lines.take(n0))) >= pdf_fill_limit(target),
        forall|k: int| n0 < k < lines.len() ==> pdf_bytes(pdf_body(prefix, #[trigger] lines.take(k))).len() < target,
        bytes == pdf_bytes(pdf_body(prefix, lines)),
        bytes.len() >= target,
    ensures
        pdf_run_ok(tmpl, prefix, target, lines, bytes),
{
    assert(lines.take(n0) == lines.take(n0));
}

proof fn lemma_body_push(prefix: Seq<char>, lines: Seq<Seq<char>>, l: Seq<char>)
    ensures
        pdf_body(prefix, lines.push(l)) == pdf_body(prefix, lines) + pdf_line_text(l),
{
    assert(lines.push(l).drop_last() =~= lines);
}

/// Appends the text of one line to the content stream.
fn push_line(body: &mut String, line: &String)
    ensures
        final(body)@ == old(body)@ + pdf_line_text(line@),
        final(body)@.len() >= old(body)@.len() + 15,
        final(body)@.len() <= usize::MAX,
{
    let e = pdf_escape(line.as_str());
    push_str(body, "(");
    push_str(body, e.as_str());
    push_str(body, ") Tj 0 -14 Td ");
    assert(body@ =~= old(body)@ + pdf_line_text(line@));
    let _ = body.as_str().as_bytes().len();
    proof {
        reveal_strlit("(");
        reveal_strlit(") Tj 0 -14 Td ");
        lemma_encode_utf8_len(body@);
    }
}

/// The bytes to write for a PDF file of `target` bytes: a content stream with
/// the header (or a title and the tags) and as many lines as it takes to
/// reach the target.
pub fn write(target: u64, tags: &[Tag], templates: &TemplateOptions) -> (bytes: Vec<u8>)
    ensures
        pdf_made(templates.body_text(), pdf_prefix(templates.header_text(), tags@), target, bytes@),
{
    let ghost tmpl = templates.body_text();
    let ghost prefix = pdf_prefix(templates.header_text(), tags@);
    let mut body: String = match &templates.header {
        Some(h) => {
            let mut b = string_of("BT /F1 11 Tf 50 780 Td (");
            let e = pdf_escape(h.as_str());
            push_str(&mut b, e.as_str());
            push_str(&mut b, ") Tj 0 -16 Td ");
            b
        },
        None => {
            let mut b = string_of("BT /F1 11 Tf 50 780 Td (Generated PDF sample) Tj 0 -16 Td (Tags: ");
            let t = tags_text(tags);
            let e = pdf_escape(t.as_str());
            push_str(&mut b, e.as_str());
            push_str(&mut b, ") Tj 0 -16 Td ");
            b
        },
    };
    assert(body@ =~= prefix);
    let _ = body.as_str().as_bytes().len();
    proof {
        lemma_encode_utf8_len(body@);
    }
    let limit: usize = #[verifier::truncate] (target.saturating_sub(500) as usize);
    let mut row: u64 = 0;
    let ghost mut lines: Seq<Seq<char>> = Seq::empty();
    assert(lines.take(0) =~= lines);
    while byte_size(&body) < limit
        invariant
            row == lines.len(),
            limit == pdf_fill_limit(target),
            body@ == pdf_body(prefix, lines),
            15 * row <= body@.len() <= usize::MAX,
            forall|i: int| 0 <= i < lines.len() ==> pdf_line_ok(tmpl, i as u64, #[trigger] lines[i]),
            forall|k: int| 0 <= k < lines.len() ==> str_len(pdf_body(prefix, #[trigger] lines.take(k))) < limit,
            tmpl == templates.body_text(),
            prefix == pdf_prefix(templates.header_text(), tags@),
        decreases usize::MAX - 15 * row,
    {
        let line = render_pdf_line(templates, row);
        push_line(&mut body, &line);
        proof {
            let l2 = lines.push(line@);
            lemma_body_push(prefix, lines, line@);
            assert forall|k: int| 0 <= k < l2.len() implies str_len(pdf_body(prefix, #[trigger] l2.take(k))) < limit by {
                if k < lines.len() {
                    assert(l2.take(k) =~= lines.take(k));
                } else {
                    assert(l2.take(k) =~= lines);
                }
            }
            assert forall|i: int| 0 <= i < l2.len() implies pdf_line_ok(tmpl, i as u64, #[trigger] l2[i]) by {
                if i < lines.len() {
                    assert(l2[i] == lines[i]);
                }
            }
            lines = l2;
        }
        row += 1;
    }
    let ghost n0 = lines.len() as int;
    assert(lines.take(n0) =~= lines);
    loop
        invariant
            row == lines.len(),
            0 <= n0 <= lines.len(),
            limit == pdf_fill_limit(target),
            body@ == pdf_body(prefix, lines),
            15 * row <= body@.len() <= usize::MAX,
            forall|i: int| 0 <= i < lines.len() ==> pdf_line_ok(tmpl, i as u64, #[trigger] lines[i]),
            forall|k: int| 0 <= k < n0 ==> str_len(pdf_body(prefix, #[trigger] lines.take(k))) < limit,
            str_len(pdf_body(prefix, lines.take(n0))) >= limit,
            forall|k: int| n0 < k <= lines.len() ==> pdf_bytes(pdf_body(prefix, #[trigger] lines.take(k))).len() < target,
            tmpl == templates.body_text(),
            prefix == pdf_prefix(templates.header_text(), tags@),
        decreases usize::MAX - 15 * row,
    {
        let line = render_pdf_line(templates, row);
        push_line(&mut body, &line);
        let ghost l2 = lines.push(line@);
        proof {
            lemma_body_push(prefix, lines, line@);
            lemma_extend_lines(tmpl, prefix, target, limit as nat, lines, line@, n0);
        }
        row += 1;
        let pdf = build_pdf(body.as_str());
        if pdf.len() as u64 >= target {
            proof {
                assert(l2.take(l2.len() as int) =~= l2);
                lemma_finish(tmpl, prefix, target, l2, pdf@, n0);
                assert(pdf_run_ok(
                    templates.body_text(),
                    pdf_prefix(templates.header_text(), tags@),
                    target,
                    l2,
                    pdf@,
                ));
            }
            return pdf;
        }
        proof {
            assert(l2.take(l2.len() as int) =~= l2);
            lines = l2;
        }
    }
}

// ---------------------------------------------------------------------------
// Laws
// ---------------------------------------------------------------------------

/// A PDF made for `target` bytes has at least `target` bytes, and its content
/// stream starts with the header (or the title and the tags).
pub proof fn law_pdf_reaches_target(
    template: Option<Seq<char>>,
    prefix: Seq<char>,
    target: u64,
    bytes: Seq<u8>,
)
    requires
        pdf_made(template, prefix, target, bytes),
    ensures
        bytes.len() >= target,
        exists|body: Seq<char>| #[trigger] pdf_bytes(body) == bytes && body.take(prefix.len() as int) == prefix,
{
    let lines = choose|lines: Seq<Seq<char>>| #[trigger] pdf_run_ok(template, prefix, target, lines, bytes);
    lemma_body_starts_with(prefix, lines);
}

proof fn lemma_body_starts_with(prefix: Seq<char>, lines: Seq<Seq<char>>)
    ensures
        pdf_body(prefix, lines).len() >= prefix.len(),
        pdf_body(prefix, lines).take(prefix.len() as int) == prefix,
    decreases lines.len(),
{
    if lines.len() > 0 {
        lemma_body_starts_with(prefix, lines.drop_last());
        let b = pdf_body(prefix, lines.drop_last());
        assert((b + pdf_line_text(lines.last())).take(prefix.len() as int) =~= b.take(prefix.len() as int));
    }
}

proof fn lemma_same_lines(prefix: Seq<char>, target: u64, l1: Seq<Seq<char>>, l2: Seq<Seq<char>>, k: int)
    requires
        forall|i: int| 0 <= i < l1.len() ==> pdf_line_ok(None, i as u64, #[trigger] l1[i]),
        forall|i: int| 0 <= i < l2.len() ==> pdf_line_ok(None, i as u64, #[trigger] l2[i]),
        0 <= k <= l1.len(),
        k <= l2.len(),
    ensures
        l1.take(k) == l2.take(k),
{
    assert forall|i: int| 0 <= i < k implies l1.take(k)[i] == l2.take(k)[i] by {
        assert(pdf_line_ok(None, i as u64, l1[i]));
        assert(pdf_line_ok(None, i as u64, l2[i]));
    }
    assert(l1.take(k) =~= l2.take(k));
}

/// The fill point of a run of lines: the first prefix whose body reaches the fill limit.
spec fn fill_point(prefix: Seq<char>, target: u64, lines: Seq<Seq<char>>, n0: int) -> bool {
    0 <= n0 < lines.len() && (forall|k: int|
        0 <= k < n0 ==> str_len(pdf_body(prefix, #[trigger] lines.take(k))) < pdf_fill_limit(
            target,
        )) && str_len(pdf_body(prefix, lines.take(n0))) >= pdf_fill_limit(target) && (forall|
        k: int,
    |
        n0 < k < lines.len() ==> pdf_bytes(pdf_body(prefix, #[trigger] lines.take(k))).len()
            < target)
}

/// Without a row template the PDF for a target is fully determined: any two
/// documents made for the same header, tags and target are the same bytes.
pub proof fn law_pdf_is_deterministic(prefix: Seq<char>, target: u64, b1: Seq<u8>, b2: Seq<u8>)
    requires
        pdf_made(None, prefix, target, b1),
        pdf_made(None, prefix, target, b2),
    ensures
        b1 == b2,
{
    let l1 = choose|lines: Seq<Seq<char>>| #[trigger] pdf_run_ok(None, prefix, target, lines, b1);
    let l2 = choose|lines: Seq<Seq<char>>| #[trigger] pdf_run_ok(None, prefix, target, lines, b2);
    let n1 = choose|n0: int| #[trigger] fill_point(prefix, target, l1, n0);
    let n2 = choose|n0: int| #[trigger] fill_point(prefix, target, l2, n0);
    assert(fill_point(prefix, target, l1, n1)) by {
        let w = choose|n0: int|
            #![trigger l1.take(n0)]
            0 <= n0 < l1.len() && (forall|k: int|
                0 <= k < n0 ==> str_len(pdf_body(prefix, #[trigger] l1.take(k))) < pdf_fill_limit(
                    target,
                )) && str_len(pdf_body(prefix, l1.take(n0))) >= pdf_fill_limit(target) && (forall|
                k: int,
            |
                n0 < k < l1.len() ==> pdf_bytes(pdf_body(prefix, #[trigger] l1.take(k))).len()
                    < target);
        assert(fill_point(prefix, target, l1, w));
    }
    assert(fill_point(prefix, target, l2, n2)) by {
        let w = choose|n0: int|
            #![trigger l2.take(n0)]
            0 <= n0 < l2.len() && (forall|k: int|
                0 <= k < n0 ==> str_len(pdf_body(prefix, #[trigger] l2.take(k))) < pdf_fill_limit(
                    target,
                )) && str_len(pdf_body(prefix, l2.take(n0))) >= pdf_fill_limit(target) && (forall|
                k: int,
            |
                n0 < k < l2.len() ==> pdf_bytes(pdf_body(prefix, #[trigger] l2.take(k))).len()
                    < target);
        assert(fill_point(prefix, target, l2, w));
    }
    if n1 < n2 {
        lemma_same_lines(prefix, target, l1, l2, n1);
        assert(str_len(pdf_body(prefix, l2.take(n1))) < pdf_fill_limit(target));
    } else if n2 < n1 {
        lemma_same_lines(prefix, target, l1, l2, n2);
        assert(str_len(pdf_body(prefix, l1.take(n2))) < pdf_fill_limit(target));
    }
    assert(n1 == n2);
    let len1 = l1.len() as int;
    let len2 = l2.len() as int;
    if len1 < len2 {
        lemma_same_lines(prefix, target, l1, l2, len1);
        assert(l1.take(len1) =~= l1);
        assert(pdf_bytes(pdf_body(prefix, l2.take(len1))).len() < target);
    } else if len2 < len1 {
        lemma_same_lines(prefix, target, l1, l2, len2);
        assert(l2.take(len2) =~= l2);
        assert(pdf_bytes(pdf_body(prefix, l1.take(len2))).len() < target);
    }
    lemma_same_lines(prefix, target, l1, l2, len1);
    assert(l1.take(len1) =~= l1);
    assert(l2.take(len1) =~= l2);
}


/// The first text line of a PDF's content stream is the header when one is
/// given, escaped, and then the tags play no part in how the stream starts;
/// without a header the stream starts with the title and then the tags,
/// escaped.
pub proof fn law_pdf_header_comes_first(
    template: Option<Seq<char>>,
    header: Option<Seq<char>>,
    tags: Seq<Tag>,
    target: u64,
    bytes: Seq<u8>,
)
    requires
        pdf_made(template, pdf_prefix(header, tags), target, bytes),
    ensures
        header is Some ==> pdf_prefix(header, tags) == pdf_prefix(header, Seq::<Tag>::empty()),
        exists|body: Seq<char>|
            #[trigger] pdf_bytes(body) == bytes && match header {
                Some(h) => {
                    let first = "BT /F1 11 Tf 50 780 Td ("@ + pdf_escaped(h) + ") Tj"@;
                    body.len() >= first.len() && body.take(first.len() as int) == first
                },
                None => {
                    let first = "BT /F1 11 Tf 50 780 Td (Generated PDF sample) Tj 0 -16 Td (Tags: "@
                        + pdf_escaped(tags_text_spec(tags)) + ") Tj"@;
                    body.len() >= first.len() && body.take(first.len() as int) == first
                },
            },
{
    let prefix = pdf_prefix(header, tags);
    let lines = choose|lines: Seq<Seq<char>>| #[trigger] pdf_run_ok(template, prefix, target, lines, bytes);
    lemma_body_starts_with(prefix, lines);
    let body = pdf_body(prefix, lines);
    reveal_strlit(") Tj 0 -16 Td ");
    reveal_strlit(") Tj");
    reveal_strlit(" 0 -16 Td ");
    match header {
        Some(h) => {
            let first = "BT /F1 11 Tf 50 780 Td ("@ + pdf_escaped(h) + ") Tj"@;
            assert(prefix =~= first + " 0 -16 Td "@);
            assert(body.take(first.len() as int) =~= prefix.take(first.len() as int));
        },
        None => {
            let first = "BT /F1 11 Tf 50 780 Td (Generated PDF sample) Tj 0 -16 Td (Tags: "@
                + pdf_escaped(tags_text_spec(tags)) + ") Tj"@;
            assert(prefix =~= first + " 0 -16 Td "@);
            assert(body.take(first.len() as int) =~= prefix.take(first.len() as int));
        },
    }
    assert(pdf_bytes(body) == bytes);
}

} // verus!
