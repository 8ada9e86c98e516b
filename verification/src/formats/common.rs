//! Shared helpers for the format writers.

use vstd::prelude::*;
use crate::naming::replace_all;
use crate::text::{chars_of, push_char, replace, string_from_chars};

verus! {

/// Doubles every `"` (CSV quoting).
pub fn csv_escape(input: &str) -> (s: String)
    ensures
        s@ == replace(input@, seq!['"'], seq!['"', '"']),
{
    let pat = vec!['"'];
    let to = vec!['"', '"'];
    assert(pat@ =~= seq!['"']);
    assert(to@ =~= seq!['"', '"']);
    let r = replace_all(chars_of(input).as_slice(), pat.as_slice(), to.as_slice());
    string_from_chars(r.as_slice())
}

/// PDF string escaping: `\` becomes `\\`, then `(` becomes `\(` and `)` becomes `\)`.
pub open spec fn pdf_escaped(s: Seq<char>) -> Seq<char> {
    replace(
        replace(replace(s, seq!['\\'], seq!['\\', '\\']), seq!['('], seq!['\\', '(']),
        seq![')'],
        seq!['\\', ')'],
    )
}

/// Escapes text for a PDF string literal.
pub fn pdf_escape(input: &str) -> (s: String)
    ensures
        s@ == pdf_escaped(input@),
{
    let b = vec!['\\'];
    let bb = vec!['\\', '\\'];
    let o = vec!['('];
    let bo = vec!['\\', '('];
    let c = vec![')'];
    let bc = vec!['\\', ')'];
    assert(b@ =~= seq!['\\']);
    assert(bb@ =~= seq!['\\', '\\']);
    assert(o@ =~= seq!['(']);
    assert(bo@ =~= seq!['\\', '(']);
    assert(c@ =~= seq![')']);
    assert(bc@ =~= seq!['\\', ')']);
    let r1 = replace_all(chars_of(input).as_slice(), b.as_slice(), bb.as_slice());
    let r2 = replace_all(r1.as_slice(), o.as_slice(), bo.as_slice());
    let r3 = replace_all(r2.as_slice(), c.as_slice(), bc.as_slice());
    string_from_chars(r3.as_slice())
}

/// How many rows of `row_size` bytes make more than `target_size` bytes.
pub fn rows_for_size(target_size: u64, row_size: u64) -> (n: usize)
    requires
        row_size > 0,
        target_size / row_size < u64::MAX,
    ensures
        n == ((target_size / row_size) + 1) as usize,
{
    ((target_size / row_size) + 1) as usize
}

/// The payload alphabet: lower-case letters, upper-case letters, digits.
pub open spec fn alphabet_char(pos: int) -> char {
    if pos < 26 {
        (97 + pos) as char
    } else if pos < 52 {
        (65 + pos - 26) as char
    } else {
        (48 + pos - 52) as char
    }
}

/// Character `idx` of the payload for `seed`.
pub open spec fn payload_char(seed: int, idx: int) -> char {
    alphabet_char((seed + idx * 17 + idx / 3) % 62)
}

/// The payload of `len` characters for `seed`.
pub open spec fn payload(seed: int, len: nat) -> Seq<char> {
    Seq::new(len, |idx: int| payload_char(seed, idx))
}

/// Whether building a payload of `len` characters for `seed` stays within `usize`.
pub open spec fn payload_fits(seed: u64, len: usize) -> bool {
    seed + len * 17 + len / 3 <= usize::MAX
}

fn alphabet_at(pos: usize) -> (c: char)
    requires
        pos < 62,
    ensures
        c == alphabet_char(pos as int),
{
    if pos < 26 {
        ((97 + pos) as u8) as char
    } else if pos < 52 {
        ((65 + pos - 26) as u8) as char
    } else {
        ((48 + pos - 52) as u8) as char
    }
}

/// A deterministic filler of `len` letters and digits that varies with `seed`.
pub fn repeated_payload(seed: u64, len: usize) -> (s: String)
    requires
        payload_fits(seed, len),
    ensures
        s@ == payload(seed as int, len as nat),
{
    let mut s = String::new();
    let mut idx: usize = 0;
    let base = seed as usize;
    while idx < len
        invariant
            idx <= len,
            base == seed,
            payload_fits(seed, len),
            s@ == payload(seed as int, idx as nat),
        decreases len - idx,
    {
        assert(seed + idx * 17 + idx / 3 <= usize::MAX) by (nonlinear_arith)
            requires
                seed + len * 17 + len / 3 <= usize::MAX,
                idx <= len,
        ;
        let pos = (base + idx * 17 + idx / 3) % 62;
        push_char(&mut s, alphabet_at(pos));
        assert(payload(seed as int, (idx + 1) as nat) =~= payload(seed as int, idx as nat).push(
            payload_char(seed as int, idx as int),
        ));
        idx += 1;
    }
    s
}

} // verus!
