//! Size parsing and formatting.
//!
//! A size is a decimal number (digits with at most one `.`) followed by an
//! optional unit. `B` means bytes and `b` means bits; the K/M/G prefixes are
//! powers of 1024. The byte count is the exact value rounded up.

use vstd::prelude::*;
use vstd::arithmetic::div_mod::{lemma_hoist_over_denominator, lemma_div_denominator, lemma_div_multiples_vanish_fancy};
use crate::text::{
    all_digits, chars_are, chars_eq, chars_of, push_chars, decimal, digits_value, find, find_from, is_ascii_digit, is_digit,
    is_ws, push_decimal, push_str, slice_range, trim_end, trim_start, lemma_decimal_digits,
    lemma_trim_noop, lemma_trim_start_skip,
    string_of, trim, trim_chars, lemma_digits_value_append, lemma_digits_value_zero, lemma_find_some,
};
use vstd::arithmetic::div_mod::lemma_fundamental_div_mod;
use crate::error::Error;

verus! {

/// Files are capped at 1GiB unless large files are allowed.
pub const DEFAULT_MAX_SIZE: u64 = 1073741824;

// ---------------------------------------------------------------------------
// Specification
// ---------------------------------------------------------------------------

pub open spec fn pow10(k: nat) -> nat
    decreases k,
{
    if k == 0 {
        1
    } else {
        10 * pow10((k - 1) as nat)
    }
}

/// `a / b` rounded up.
pub open spec fn ceil_div(a: nat, b: nat) -> nat {
    ((a + b - 1) as nat / b) as nat
}

pub open spec fn is_number_char(c: char) -> bool {
    is_digit(c) || c == '.'
}

/// Where the number ends: the first character that is neither a digit nor `.`.
pub open spec fn number_end(s: Seq<char>) -> nat
    decreases s.len(),
{
    if s.len() == 0 || !is_number_char(s[0]) {
        0
    } else {
        1 + number_end(s.drop_first())
    }
}

/// The digits before the first `.` of a number.
pub open spec fn int_part(num: Seq<char>) -> Seq<char> {
    match find(num, seq!['.']) {
        Some(d) => num.take(d as int),
        None => num,
    }
}

/// The characters after the first `.` of a number.
pub open spec fn frac_part(num: Seq<char>) -> Seq<char> {
    match find(num, seq!['.']) {
        Some(d) => num.skip(d as int + 1),
        None => Seq::empty(),
    }
}

/// A number is valid when it has at least one digit and at most one `.`.
pub open spec fn valid_number(num: Seq<char>) -> bool {
    &&& all_digits(int_part(num))
    &&& all_digits(frac_part(num))
    &&& int_part(num).len() + frac_part(num).len() >= 1
}

/// The unit as (multiplier, divisor) in bytes.
pub open spec fn unit_factor(u: Seq<char>) -> Option<(nat, nat)> {
    if u.len() == 0 || u == seq!['B'] {
        Some((1, 1))
    } else if u == seq!['b'] {
        Some((1, 8))
    } else if u == seq!['k', 'B'] || u == seq!['K', 'B'] || u == seq!['K', 'i', 'B'] {
        Some((1024, 1))
    } else if u == seq!['k', 'b'] || u == seq!['K', 'b'] || u == seq!['K', 'i', 'b'] {
        Some((1024, 8))
    } else if u == seq!['M', 'B'] || u == seq!['M', 'i', 'B'] {
        Some((1048576, 1))
    } else if u == seq!['M', 'b'] || u == seq!['M', 'i', 'b'] {
        Some((1048576, 8))
    } else if u == seq!['G', 'B'] || u == seq!['G', 'i', 'B'] {
        Some((1073741824, 1))
    } else if u == seq!['G', 'b'] || u == seq!['G', 'i', 'b'] {
        Some((1073741824, 8))
    } else {
        None
    }
}

/// The byte count of `ip.fp` in a unit of (`m`, `d`): the exact value rounded up.
pub open spec fn bytes_of(ip: Seq<char>, fp: Seq<char>, m: nat, d: nat) -> nat {
    ceil_div(
        (digits_value(ip) * pow10(fp.len()) + digits_value(fp)) * m,
        pow10(fp.len()) * d,
    )
}

/// What parsing a size gives.
pub enum SizeVerdict {
    Bytes(nat),
    InvalidNumber { empty: bool },
    NotPositive,
    BadUnit,
    TooLarge,
}

/// The meaning of a size string.
pub open spec fn size_verdict(input: Seq<char>) -> SizeVerdict {
    let t = trim(input);
    let k = number_end(t);
    let num = t.take(k as int);
    let unit = trim(t.skip(k as int));
    let ip = int_part(num);
    let fp = frac_part(num);
    if !valid_number(num) {
        SizeVerdict::InvalidNumber { empty: num.len() == 0 }
    } else if digits_value(ip) == 0 && digits_value(fp) == 0 {
        SizeVerdict::NotPositive
    } else {
        match unit_factor(unit) {
            None => SizeVerdict::BadUnit,
            Some((m, d)) => {
                let b = bytes_of(ip, fp, m, d);
                if b > u64::MAX {
                    SizeVerdict::TooLarge
                } else {
                    SizeVerdict::Bytes(b)
                }
            },
        }
    }
}

/// Whether `r` is what parsing `input` should give.
pub open spec fn parse_size_result(input: Seq<char>, r: Result<u64, Error>) -> bool {
    match size_verdict(input) {
        SizeVerdict::Bytes(b) => r == Ok::<u64, Error>(b as u64),
        SizeVerdict::InvalidNumber { empty } => r matches Err(
            Error::InvalidSize { input: i, empty: e },
        ) && i@ == input && e == empty,
        SizeVerdict::NotPositive => r matches Err(Error::SizeNotPositive { input: i })
            && i@ == input,
        SizeVerdict::BadUnit => r matches Err(Error::UnsupportedSizeUnit { input: i })
            && i@ == input,
        SizeVerdict::TooLarge => r matches Err(Error::SizeTooLarge { input: i }) && i@ == input,
    }
}

// ---------------------------------------------------------------------------
// Arithmetic lemmas
// ---------------------------------------------------------------------------

proof fn lemma_pow10_pos(k: nat)
    ensures
        pow10(k) >= 1,
    decreases k,
{
    if k > 0 {
        lemma_pow10_pos((k - 1) as nat);
    }
}

proof fn lemma_ceil_div_shift(q: nat, r: nat, b: nat)
    requires
        b > 0,
    ensures
        ceil_div(q * b + r, b) == q + ceil_div(r, b),
{
    lemma_hoist_over_denominator((r + b - 1) as int, q as int, b);
    assert((r + b - 1) as int + q * b == (q * b + r + b - 1) as int) by (nonlinear_arith);
}

proof fn lemma_ceil_div_small(r: nat, b: nat)
    requires
        r < b,
    ensures
        ceil_div(r, b) == if r == 0 { 0nat } else { 1nat },
{
    if r == 0 {
        lemma_div_multiples_vanish_fancy(0, (b - 1) as int, b as int);
    } else {
        lemma_div_multiples_vanish_fancy(1, (r - 1) as int, b as int);
        assert(b * 1 + (r - 1) == r + b - 1);
    }
}

proof fn lemma_ceil_div_nested(a: nat, b: nat, d: nat)
    requires
        b > 0,
        d > 0,
    ensures
        ceil_div(ceil_div(a, b), d) == ceil_div(a, b * d),
{
    let x = (a + b - 1) as int;
    lemma_hoist_over_denominator(x, (d - 1) as int, b);
    assert(x + (d - 1) * b == a + b * d - 1) by (nonlinear_arith)
        requires
            x == a + b - 1,
            d >= 1,
    ;
    assert(b * d > 0) by (nonlinear_arith)
        requires
            b > 0,
            d > 0,
    ;
    lemma_div_denominator((a + b * d - 1) as int, b as int, d as int);
}

proof fn lemma_bytes_of_split(ip: Seq<char>, fp: Seq<char>, m: nat, d: nat)
    requires
        d > 0,
    ensures
        bytes_of(ip, fp, m, d) == ceil_div(
            digits_value(ip) * m + ceil_div(digits_value(fp) * m, pow10(fp.len())),
            d,
        ),
{
    let p = pow10(fp.len());
    let i = digits_value(ip);
    let f = digits_value(fp);
    lemma_pow10_pos(fp.len());
    assert((i * p + f) * m == (i * m) * p + f * m) by (nonlinear_arith);
    lemma_ceil_div_shift(i * m, f * m, p);
    lemma_ceil_div_nested((i * p + f) * m, p, d);
}

proof fn lemma_digits_value_prepend(c: char, s: Seq<char>)
    ensures
        digits_value(seq![c] + s) == ((c as u32) - 48) as nat * pow10(s.len()) + digits_value(
            s,
        ),
    decreases s.len(),
{
    if s.len() == 0 {
        assert(seq![c] + s =~= Seq::<char>::empty().push(c));
        lemma_digits_value_append(Seq::<char>::empty(), c);
        assert(pow10(0) == 1);
        assert(digits_value(Seq::<char>::empty()) == 0);
        let dc = ((c as u32) - 48) as nat;
        assert(digits_value(seq![c] + s) == dc);
        assert(dc * pow10(s.len()) == dc);
    } else {
        let t = s.drop_last();
        lemma_digits_value_prepend(c, t);
        assert((seq![c] + s).drop_last() =~= seq![c] + t);
        assert((seq![c] + s).last() == s.last());
        let dc = ((c as u32) - 48) as nat;
        let dl = ((s.last() as u32) - 48) as nat;
        let pt = pow10(t.len());
        assert(pow10(s.len()) == 10 * pt);
        assert(digits_value(seq![c] + s) == digits_value(seq![c] + t) * 10 + dl);
        assert(digits_value(s) == digits_value(t) * 10 + dl);
        assert((dc * pt + digits_value(t)) * 10 + dl == dc * (10 * pt) + (digits_value(t) * 10
            + dl)) by (nonlinear_arith);
        assert(digits_value(seq![c] + t) == dc * pt + digits_value(t));
        assert(digits_value(seq![c] + s) == dc * (10 * pt) + digits_value(s));
    }
}

// ---------------------------------------------------------------------------
// Executable parsing
// ---------------------------------------------------------------------------

/// `ceil(0.frac * m)` for a string of fraction digits.
fn frac_times_ceil(frac: &[char], m: u64) -> (r: u64)
    requires
        all_digits(frac@),
        1 <= m <= 1073741824,
    ensures
        r == ceil_div(digits_value(frac@) * (m as nat), pow10(frac@.len())),
{
    let n = frac.len();
    let mut carry: u64 = 0;
    let mut nz = false;
    let mut j: usize = n;
    let ghost mut rem: nat = 0;
    assert(frac@.subrange(n as int, n as int) =~= Seq::<char>::empty());
    assert(digits_value(frac@.subrange(n as int, n as int)) == 0);
    assert(0 * (m as nat) == 0);
    assert(0 * pow10(0) == 0);
    while j > 0
        invariant
            j <= n == frac@.len(),
            all_digits(frac@),
            1 <= m <= 1073741824,
            carry < m,
            digits_value(frac@.subrange(j as int, n as int)) * m == carry * pow10((n - j) as nat)
                + rem,
            rem < pow10((n - j) as nat),
            nz == (rem > 0),
        decreases j,
    {
        j -= 1;
        let c = frac[j];
        assert(is_digit(frac@[j as int]));
        let dg: u64 = (c as u32 - 48) as u64;
        let u = c as u32;
        assert(48 <= u <= 57);
        assert(dg <= 9);
        assert(dg * m <= 9 * 1073741824) by (nonlinear_arith)
            requires
                dg <= 9,
                m <= 1073741824,
        ;
        let t = dg * m + carry;
        let digit = t % 10;
        let ghost old_carry = carry;
        let ghost l = (n - j - 1) as nat;
        let ghost p = pow10(l);
        carry = t / 10;
        if digit != 0 {
            nz = true;
        }
        proof {
            let sub = frac@.subrange(j as int, n as int);
            assert(sub =~= seq![c] + frac@.subrange(j + 1, n as int));
            lemma_digits_value_prepend(c, frac@.subrange(j + 1, n as int));
            let v = digits_value(frac@.subrange(j + 1, n as int));
            assert(digits_value(sub) == dg * p + v);
            assert(pow10(l + 1) == 10 * p);
            lemma_pow10_pos(l);
            assert((dg * p + v) * m == (t / 10) * (10 * p) + ((digit * p) + rem)) by (
            nonlinear_arith)
                requires
                    v * m == old_carry * p + rem,
                    t == dg * m + old_carry,
                    digit == t % 10,
            ;
            assert(digit * p + rem < 10 * p) by (nonlinear_arith)
                requires
                    digit < 10,
                    rem < p,
            ;
            assert(t < 10 * m) by (nonlinear_arith)
                requires
                    dg <= 9,
                    old_carry < m,
                    t == dg * m + old_carry,
            ;
            assert(digit != 0 ==> digit * p > 0) by (nonlinear_arith)
                requires
                    p >= 1,
            ;
            assert(digit == 0 ==> digit * p == 0) by (nonlinear_arith);
            rem = (digit as nat) * p + rem;
        }
    }
    assert(frac@.subrange(0, n as int) =~= frac@);
    proof {
        lemma_pow10_pos(n as nat);
        lemma_ceil_div_shift(carry as nat, rem, pow10(n as nat));
        lemma_ceil_div_small(rem, pow10(n as nat));
        assert(carry as nat * pow10(n as nat) == pow10(n as nat) * carry as nat) by (nonlinear_arith);
    }
    carry + if nz {
        1
    } else {
        0
    }
}

proof fn lemma_number_end(t: Seq<char>, k: int)
    requires
        0 <= k <= t.len(),
        forall|j: int| 0 <= j < k ==> is_number_char(#[trigger] t[j]),
        k == t.len() || !is_number_char(t[k]),
    ensures
        number_end(t) == k,
    decreases k,
{
    if k > 0 {
        let u = t.drop_first();
        assert forall|j: int| 0 <= j < k - 1 implies is_number_char(#[trigger] u[j]) by {
            assert(u[j] == t[j + 1]);
        }
        if k < t.len() {
            assert(u[k - 1] == t[k]);
        }
        lemma_number_end(u, k - 1);
    }
}

proof fn lemma_huge_is_too_large(x: nat, d: nat)
    requires
        x >= 1180591620717411303424,
        1 <= d <= 8,
    ensures
        ceil_div(x, d) > u64::MAX,
{
    let y = (x + d - 1) as int;
    lemma_fundamental_div_mod(y, d as int);
    let q = y / (d as int);
    let r = y % (d as int);
    assert(q > u64::MAX) by (nonlinear_arith)
        requires
            y == d * q + r,
            0 <= r < d,
            1 <= d <= 8,
            y >= 1180591620717411303424,
    ;
}

proof fn lemma_unit_literals()
    ensures
        "B"@ == seq!['B'],
        "b"@ == seq!['b'],
        "kB"@ == seq!['k', 'B'],
        "KB"@ == seq!['K', 'B'],
        "KiB"@ == seq!['K', 'i', 'B'],
        "kb"@ == seq!['k', 'b'],
        "Kb"@ == seq!['K', 'b'],
        "Kib"@ == seq!['K', 'i', 'b'],
        "MB"@ == seq!['M', 'B'],
        "MiB"@ == seq!['M', 'i', 'B'],
        "Mb"@ == seq!['M', 'b'],
        "Mib"@ == seq!['M', 'i', 'b'],
        "GB"@ == seq!['G', 'B'],
        "GiB"@ == seq!['G', 'i', 'B'],
        "Gb"@ == seq!['G', 'b'],
        "Gib"@ == seq!['G', 'i', 'b'],
{
    reveal_strlit("B");
    assert("B"@ =~= seq!['B']);
    reveal_strlit("b");
    assert("b"@ =~= seq!['b']);
    reveal_strlit("kB");
    assert("kB"@ =~= seq!['k', 'B']);
    reveal_strlit("KB");
    assert("KB"@ =~= seq!['K', 'B']);
    reveal_strlit("KiB");
    assert("KiB"@ =~= seq!['K', 'i', 'B']);
    reveal_strlit("kb");
    assert("kb"@ =~= seq!['k', 'b']);
    reveal_strlit("Kb");
    assert("Kb"@ =~= seq!['K', 'b']);
    reveal_strlit("Kib");
    assert("Kib"@ =~= seq!['K', 'i', 'b']);
    reveal_strlit("MB");
    assert("MB"@ =~= seq!['M', 'B']);
    reveal_strlit("MiB");
    assert("MiB"@ =~= seq!['M', 'i', 'B']);
    reveal_strlit("Mb");
    assert("Mb"@ =~= seq!['M', 'b']);
    reveal_strlit("Mib");
    assert("Mib"@ =~= seq!['M', 'i', 'b']);
    reveal_strlit("GB");
    assert("GB"@ =~= seq!['G', 'B']);
    reveal_strlit("GiB");
    assert("GiB"@ =~= seq!['G', 'i', 'B']);
    reveal_strlit("Gb");
    assert("Gb"@ =~= seq!['G', 'b']);
    reveal_strlit("Gib");
    assert("Gib"@ =~= seq!['G', 'i', 'b']);
}

/// The (multiplier, divisor) of a unit string.
fn unit_of(u: &[char]) -> (r: Option<(u64, u64)>)
    ensures
        match unit_factor(u@) {
            None => r is None,
            Some((m, d)) => r == Some((m as u64, d as u64)),
        },
{
    proof {
        lemma_unit_literals();
    }
    if u.len() == 0 || chars_are(u, "B") {
        Some((1, 1))
    } else if chars_are(u, "b") {
        Some((1, 8))
    } else if chars_are(u, "kB") || chars_are(u, "KB") || chars_are(u, "KiB") {
        Some((1024, 1))
    } else if chars_are(u, "kb") || chars_are(u, "Kb") || chars_are(u, "Kib") {
        Some((1024, 8))
    } else if chars_are(u, "MB") || chars_are(u, "MiB") {
        Some((1048576, 1))
    } else if chars_are(u, "Mb") || chars_are(u, "Mib") {
        Some((1048576, 8))
    } else if chars_are(u, "GB") || chars_are(u, "GiB") {
        Some((1073741824, 1))
    } else if chars_are(u, "Gb") || chars_are(u, "Gib") {
        Some((1073741824, 8))
    } else {
        None
    }
}

/// Whether every character of `v` is an ASCII digit.
fn all_ascii_digits(v: &[char]) -> (b: bool)
    ensures
        b == all_digits(v@),
{
    let mut i: usize = 0;
    while i < v.len()
        invariant
            i <= v.len(),
            forall|j: int| 0 <= j < i ==> is_digit(#[trigger] v@[j]),
        decreases v.len() - i,
    {
        if !is_ascii_digit(v[i]) {
            return false;
        }
        i += 1;
    }
    true
}

/// Whether a string of digits has a non-zero value.
fn has_nonzero_digit(v: &[char]) -> (b: bool)
    requires
        all_digits(v@),
    ensures
        b == (digits_value(v@) > 0),
{
    proof {
        lemma_digits_value_zero(v@);
    }
    let mut i: usize = 0;
    while i < v.len()
        invariant
            i <= v.len(),
            all_digits(v@),
            forall|j: int| 0 <= j < i ==> (#[trigger] v@[j]) as u32 == 48,
        decreases v.len() - i,
    {
        if v[i] as u32 != 48 {
            proof {
                lemma_digits_value_zero(v@);
            }
            assert((v@[i as int]) as u32 != 48);
            return true;
        }
        i += 1;
    }
    false
}

/// Parses a size such as `10KiB`, `1.5MiB`, `9b` or `100` into a byte count.
///
/// The number is read exactly and the byte count is rounded up; `b` units
/// count bits, so `9b` is two bytes.
pub fn parse_size(input: &str) -> (r: Result<u64, Error>)
    ensures
        parse_size_result(input@, r),
{
    let v = chars_of(input);
    let t = trim_chars(v.as_slice());
    let mut k: usize = 0;
    while k < t.len() && (is_ascii_digit(t[k]) || t[k] == '.')
        invariant
            k <= t.len(),
            forall|j: int| 0 <= j < k ==> is_number_char(#[trigger] t@[j]),
        decreases t.len() - k,
    {
        k += 1;
    }
    proof {
        lemma_number_end(t@, k as int);
    }
    let num = slice_range(t.as_slice(), 0, k);
    assert(num@ =~= t@.take(k as int));
    let dot = vec!['.'];
    assert(dot@ =~= seq!['.']);
    assert(num@.skip(0) =~= num@);
    let found = find_from(num.as_slice(), dot.as_slice(), 0);
    proof {
        lemma_find_some(num@, dot@);
    }
    let (ip, fp) = match found {
        Some(d) => {
            (slice_range(num.as_slice(), 0, d), slice_range(num.as_slice(), d + 1, num.len()))
        },
        None => (num.clone(), Vec::new()),
    };
    proof {
        match found {
            Some(d) => {
                assert(ip@ =~= int_part(num@));
                assert(fp@ =~= frac_part(num@));
            },
            None => {
                assert(fp@ =~= frac_part(num@));
            },
        }
    }
    if !(all_ascii_digits(ip.as_slice()) && all_ascii_digits(fp.as_slice()) && ip.len() + fp.len()
        >= 1) {
        return Err(Error::InvalidSize { input: string_of(input), empty: k == 0 });
    }
    // The integer part, exactly while it stays below 2^70.
    let cap: u128 = 1180591620717411303424;
    let mut acc: u128 = 0;
    let mut huge = false;
    let mut i: usize = 0;
    while i < ip.len()
        invariant
            i <= ip.len(),
            all_digits(ip@),
            cap == 1180591620717411303424,
            huge ==> digits_value(ip@.take(i as int)) > cap,
            !huge ==> acc == digits_value(ip@.take(i as int)) && acc <= cap,
        decreases ip.len() - i,
    {
        let c = ip[i];
        assert(is_digit(ip@[i as int]));
        proof {
            assert(ip@.take(i + 1) =~= ip@.take(i as int).push(c));
            lemma_digits_value_append(ip@.take(i as int), c);
        }
        if !huge {
            acc = acc * 10 + (c as u32 - 48) as u128;
            if acc > cap {
                huge = true;
            }
        }
        i += 1;
    }
    assert(ip@.take(ip.len() as int) =~= ip@);
    let int_nonzero = huge || acc > 0;
    let frac_nonzero = has_nonzero_digit(fp.as_slice());
    if !(int_nonzero || frac_nonzero) {
        return Err(Error::SizeNotPositive { input: string_of(input) });
    }
    let rest = slice_range(t.as_slice(), k, t.len());
    assert(rest@ =~= t@.skip(k as int));
    let unit = trim_chars(rest.as_slice());
    let factor = unit_of(unit.as_slice());
    let (m, d) = match factor {
        Some(f) => f,
        None => {
            return Err(Error::UnsupportedSizeUnit { input: string_of(input) });
        },
    };
    proof {
        lemma_bytes_of_split(ip@, fp@, m as nat, d as nat);
    }
    if huge {
        proof {
            let x = digits_value(ip@) * (m as nat) + ceil_div(
                digits_value(fp@) * (m as nat),
                pow10(fp@.len()),
            );
            assert(x >= digits_value(ip@)) by (nonlinear_arith)
                requires
                    x == digits_value(ip@) * (m as nat) + ceil_div(
                        digits_value(fp@) * (m as nat),
                        pow10(fp@.len()),
                    ),
                    m >= 1,
            ;
            lemma_huge_is_too_large(x, d as nat);
        }
        return Err(Error::SizeTooLarge { input: string_of(input) });
    }
    let c = frac_times_ceil(fp.as_slice(), m);
    assert(acc * (m as u128) <= 1180591620717411303424 * 1073741824) by (nonlinear_arith)
        requires
            acc <= 1180591620717411303424,
            m <= 1073741824,
    ;
    let total: u128 = acc * (m as u128) + (c as u128);
    let bytes: u128 = (total + (d as u128) - 1) / (d as u128);
    if bytes > 18446744073709551615 {
        return Err(Error::SizeTooLarge { input: string_of(input) });
    }
    Ok(bytes as u64)
}

// ---------------------------------------------------------------------------
// Labels
// ---------------------------------------------------------------------------

/// The label of a byte count: the largest of GiB, MiB, KiB that divides it, else bytes.
pub open spec fn size_label_spec(n: nat) -> Seq<char> {
    if n % 1073741824 == 0 {
        decimal(n / 1073741824) + seq!['G', 'i', 'B']
    } else if n % 1048576 == 0 {
        decimal(n / 1048576) + seq!['M', 'i', 'B']
    } else if n % 1024 == 0 {
        decimal(n / 1024) + seq!['K', 'i', 'B']
    } else {
        decimal(n) + seq!['B']
    }
}

/// A human label for a byte count, such as `1KiB`, `3MiB` or `1000B`.
pub fn size_label(size: u64) -> (s: String)
    ensures
        s@ == size_label_spec(size as nat),
{
    let mut s = String::new();
    if size % 1073741824 == 0 {
        push_decimal(&mut s, size / 1073741824);
        push_chars(&mut s, &['G', 'i', 'B']);
    } else if size % 1048576 == 0 {
        push_decimal(&mut s, size / 1048576);
        push_chars(&mut s, &['M', 'i', 'B']);
    } else if size % 1024 == 0 {
        push_decimal(&mut s, size / 1024);
        push_chars(&mut s, &['K', 'i', 'B']);
    } else {
        push_decimal(&mut s, size);
        push_chars(&mut s, &['B']);
    }
    s
}

/// The sizes used when none are requested: 10KiB, 100KiB and 1MiB.
pub fn default_sizes() -> (v: Vec<String>)
    ensures
        v@.len() == 3,
        v@[0]@ == "10KiB"@,
        v@[1]@ == "100KiB"@,
        v@[2]@ == "1MiB"@,
{
    let mut v: Vec<String> = Vec::new();
    v.push(string_of("10KiB"));
    v.push(string_of("100KiB"));
    v.push(string_of("1MiB"));
    v
}

// ---------------------------------------------------------------------------
// Laws
// ---------------------------------------------------------------------------

proof fn lemma_no_dot(s: Seq<char>)
    requires
        all_digits(s),
    ensures
        find(s, seq!['.']) is None,
    decreases s.len(),
{
    if s.len() >= 1 {
        assert(s.take(1)[0] == s[0]);
        assert(s.take(1) != seq!['.']) by {
            assert(is_digit(s[0]));
        }
        let u = s.skip(1);
        assert forall|i: int| 0 <= i < u.len() implies is_digit(#[trigger] u[i]) by {
            assert(u[i] == s[i + 1]);
        }
        lemma_no_dot(u);
    }
}

/// The part of the verdict that follows splitting into number and unit.
pub open spec fn verdict_of_parts(num: Seq<char>, unit: Seq<char>) -> SizeVerdict {
    let ip = int_part(num);
    let fp = frac_part(num);
    if !valid_number(num) {
        SizeVerdict::InvalidNumber { empty: num.len() == 0 }
    } else if digits_value(ip) == 0 && digits_value(fp) == 0 {
        SizeVerdict::NotPositive
    } else {
        match unit_factor(unit) {
            None => SizeVerdict::BadUnit,
            Some((m, d)) => {
                let b = bytes_of(ip, fp, m, d);
                if b > u64::MAX {
                    SizeVerdict::TooLarge
                } else {
                    SizeVerdict::Bytes(b)
                }
            },
        }
    }
}

/// A number written with digits and dots, followed directly by a unit that
/// starts with a letter and has no surrounding space, splits into exactly that
/// number and that unit.
proof fn lemma_verdict_split(p: Seq<char>, u: Seq<char>)
    requires
        forall|i: int| 0 <= i < p.len() ==> is_number_char(#[trigger] p[i]),
        u.len() > 0,
        !is_number_char(u[0]),
        !is_ws(u[0]),
        !is_ws(u.last()),
    ensures
        size_verdict(p + u) == verdict_of_parts(p, u),
{
    let s = p + u;
    assert(s.last() == u.last());
    if p.len() > 0 {
        assert(s[0] == p[0]);
        assert(!is_ws(p[0])) by {
            assert(is_number_char(p[0]));
        }
    } else {
        assert(s =~= u);
    }
    lemma_trim_noop(s);
    assert forall|j: int| 0 <= j < p.len() implies is_number_char(#[trigger] s[j]) by {
        assert(s[j] == p[j]);
    }
    assert(s[p.len() as int] == u[0]);
    lemma_number_end(s, p.len() as int);
    assert(s.take(p.len() as int) =~= p);
    assert(s.skip(p.len() as int) =~= u);
    lemma_trim_noop(u);
}

proof fn lemma_units_k()
    ensures
        unit_factor(seq!['k', 'B']) == Some((1024nat, 1nat)),
        unit_factor(seq!['K', 'B']) == Some((1024nat, 1nat)),
        unit_factor(seq!['K', 'i', 'B']) == Some((1024nat, 1nat)),
        unit_factor(seq!['k', 'b']) == Some((1024nat, 8nat)),
        unit_factor(seq!['K', 'b']) == Some((1024nat, 8nat)),
        unit_factor(seq!['K', 'i', 'b']) == Some((1024nat, 8nat)),
{
}

#[verifier::rlimit(40)]
proof fn lemma_units_m()
    ensures
        unit_factor(seq!['M', 'B']) == Some((1048576nat, 1nat)),
        unit_factor(seq!['M', 'i', 'B']) == Some((1048576nat, 1nat)),
        unit_factor(seq!['M', 'b']) == Some((1048576nat, 8nat)),
        unit_factor(seq!['M', 'i', 'b']) == Some((1048576nat, 8nat)),
{
}

#[verifier::rlimit(60)]
proof fn lemma_units_g()
    ensures
        unit_factor(seq!['G', 'B']) == Some((1073741824nat, 1nat)),
        unit_factor(seq!['G', 'i', 'B']) == Some((1073741824nat, 1nat)),
        unit_factor(seq!['G', 'b']) == Some((1073741824nat, 8nat)),
        unit_factor(seq!['G', 'i', 'b']) == Some((1073741824nat, 8nat)),
{
}

proof fn lemma_units_plain()
    ensures
        unit_factor(seq!['B']) == Some((1nat, 1nat)),
        unit_factor(seq!['b']) == Some((1nat, 8nat)),
{
    assert(seq!['b'][0] != seq!['B'][0]);
}

/// Each unit is a letter-led word with no surrounding space.
proof fn lemma_unit_shape(u: Seq<char>)
    requires
        u == seq!['B'] || u == seq!['b'] || u == seq!['k', 'B'] || u == seq!['K', 'B'] || u == seq!['K', 'i', 'B'] || u == seq!['k', 'b'] || u
            == seq!['K', 'b'] || u == seq!['K', 'i', 'b'] || u == seq!['M', 'B'] || u == seq!['M', 'i', 'B'] || u == seq!['M', 'b'] || u == seq!['M', 'i', 'b']
            || u == seq!['G', 'B'] || u == seq!['G', 'i', 'B'] || u == seq!['G', 'b'] || u == seq!['G', 'i', 'b'],
    ensures
        u.len() > 0,
        !is_number_char(u[0]),
        !is_ws(u[0]),
        !is_ws(u.last()),
{
}

/// `b` counts bits: a number of bits is the same number of bytes divided by
/// eight and rounded up.
pub proof fn law_bits_are_eighth_of_bytes(p: Seq<char>)
    requires
        forall|i: int| 0 <= i < p.len() ==> is_number_char(#[trigger] p[i]),
    ensures
        size_verdict(p + seq!['B']) matches SizeVerdict::Bytes(n) ==> size_verdict(p + seq!['b'])
            == SizeVerdict::Bytes(ceil_div(n, 8)),
{
    lemma_units_plain();
    lemma_unit_shape(seq!['B']);
    lemma_unit_shape(seq!['b']);
    lemma_verdict_split(p, seq!['B']);
    lemma_verdict_split(p, seq!['b']);
    let ip = int_part(p);
    let fp = frac_part(p);
    let x = (digits_value(ip) * pow10(fp.len()) + digits_value(fp)) * 1;
    lemma_pow10_pos(fp.len());
    lemma_ceil_div_nested(x, pow10(fp.len()), 8);
    lemma_ceil_div_nested(x, pow10(fp.len()), 1);
    assert(pow10(fp.len()) * 1 == pow10(fp.len()));
    let n = ceil_div(x, pow10(fp.len()));
    assert(ceil_div(n, 1) == n);
    assert(ceil_div(n, 8) <= n);
}

/// Parsing a size label gives back the byte count it labels.
pub proof fn law_label_parses_back(n: u64)
    requires
        n > 0,
    ensures
        size_verdict(size_label_spec(n as nat)) == SizeVerdict::Bytes(n as nat),
{
    lemma_units_plain();
    lemma_units_k();
    lemma_units_m();
    lemma_units_g();
    let (q, u, m) = if n % 1073741824 == 0 {
        lemma_unit_shape(seq!['G', 'i', 'B']);
        (n / 1073741824, seq!['G', 'i', 'B'], 1073741824nat)
    } else if n % 1048576 == 0 {
        lemma_unit_shape(seq!['M', 'i', 'B']);
        (n / 1048576, seq!['M', 'i', 'B'], 1048576nat)
    } else if n % 1024 == 0 {
        lemma_unit_shape(seq!['K', 'i', 'B']);
        (n / 1024, seq!['K', 'i', 'B'], 1024nat)
    } else {
        lemma_unit_shape(seq!['B']);
        (n, seq!['B'], 1nat)
    };
    assert(unit_factor(u) == Some((m, 1nat)));
    lemma_fundamental_div_mod(n as int, m as int);
    assert(q * m == n);
    assert(q > 0);
    let p = decimal(q as nat);
    lemma_decimal_digits(q as nat);
    assert(size_label_spec(n as nat) == p + u);
    assert forall|i: int| 0 <= i < p.len() implies is_number_char(#[trigger] p[i]) by {
        assert(is_digit(p[i]));
    }
    lemma_verdict_split(p, u);
    lemma_no_dot(p);
    assert(int_part(p) == p);
    assert(frac_part(p) =~= Seq::<char>::empty());
    assert(digits_value(Seq::<char>::empty()) == 0);
    assert(pow10(0) == 1);
    assert(((q as nat) * 1 + 0) * m == q * m);
    let x = ((q as nat) * 1 + 0) * m;
    vstd::arithmetic::div_mod::lemma_div_basics(x as int);
    assert(((x + 1 - 1) as nat) / 1 == x);
    assert(ceil_div(x, 1 * 1) == q * m);
}

// ---------------------------------------------------------------------------
// Units after any number written with digits, dots and spaces
// ---------------------------------------------------------------------------

/// A character of a number as typed before a unit: a digit, `.` or a space.
pub open spec fn is_size_text_char(c: char) -> bool {
    is_number_char(c) || c == ' '
}

/// A text made of digits, dots and spaces.
pub open spec fn is_size_text(p: Seq<char>) -> bool {
    forall|i: int| 0 <= i < p.len() ==> is_size_text_char(#[trigger] p[i])
}

/// A unit word: not empty, led by a character that is neither part of a
/// number nor whitespace, and not ending in whitespace.
pub open spec fn is_unit_word(u: Seq<char>) -> bool {
    u.len() > 0 && !is_number_char(u[0]) && !is_ws(u[0]) && !is_ws(u.last())
}

proof fn lemma_trim_start_concat(p: Seq<char>, u: Seq<char>)
    requires
        u.len() > 0,
        !is_ws(u[0]),
    ensures
        trim_start(p + u) == trim_start(p) + u,
    decreases p.len(),
{
    let s = p + u;
    if p.len() == 0 {
        assert(s =~= u);
        assert(trim_start(p) =~= p);
        assert(trim_start(p) + u =~= u);
    } else {
        assert(s[0] == p[0]);
        if is_ws(p[0]) {
            assert(s.drop_first() =~= p.drop_first() + u);
            lemma_trim_start_concat(p.drop_first(), u);
        }
    }
}

proof fn lemma_trim_end_concat(s: Seq<char>, u: Seq<char>)
    requires
        u.len() > 0,
        !is_ws(u.last()),
    ensures
        trim_end(s + u) == s + u,
{
    assert((s + u).last() == u.last());
}

/// `trim_start` drops a run of leading whitespace; what is left, if anything,
/// starts with a character that is not whitespace.
proof fn lemma_trim_start_shape(s: Seq<char>)
    ensures
        trim_start(s).len() <= s.len(),
        trim_start(s) == s.skip(s.len() - trim_start(s).len()),
        forall|i: int| 0 <= i < s.len() - trim_start(s).len() ==> is_ws(#[trigger] s[i]),
        trim_start(s).len() > 0 ==> !is_ws(trim_start(s)[0]),
    decreases s.len(),
{
    if s.len() > 0 && is_ws(s[0]) {
        lemma_trim_start_shape(s.drop_first());
        let t = trim_start(s.drop_first());
        assert(s.drop_first().skip(s.drop_first().len() - t.len()) =~= s.skip(s.len() - t.len()));
        assert forall|i: int| 0 <= i < s.len() - t.len() implies is_ws(#[trigger] s[i]) by {
            if i > 0 {
                assert(s[i] == s.drop_first()[i - 1]);
            }
        }
    } else {
        assert(s.skip(0) =~= s);
    }
}

/// `trim_end` drops a run of trailing whitespace; what is left, if anything,
/// ends with a character that is not whitespace.
proof fn lemma_trim_end_shape(s: Seq<char>)
    ensures
        trim_end(s).len() <= s.len(),
        trim_end(s) == s.take(trim_end(s).len() as int),
        forall|i: int| trim_end(s).len() <= i < s.len() ==> is_ws(#[trigger] s[i]),
        trim_end(s).len() > 0 ==> !is_ws(trim_end(s).last()),
    decreases s.len(),
{
    if s.len() > 0 && is_ws(s.last()) {
        lemma_trim_end_shape(s.drop_last());
        let t = trim_end(s.drop_last());
        assert(s.drop_last().take(t.len() as int) =~= s.take(t.len() as int));
        assert forall|i: int| t.len() <= i < s.len() implies is_ws(#[trigger] s[i]) by {
            if i < s.len() - 1 {
                assert(s[i] == s.drop_last()[i]);
            }
        }
    } else {
        assert(s.take(s.len() as int) =~= s);
    }
}

/// Where the number of `q` ends, and that a unit after it does not move it.
proof fn lemma_number_end_shape(q: Seq<char>)
    ensures
        number_end(q) <= q.len(),
        forall|i: int| 0 <= i < number_end(q) ==> is_number_char(#[trigger] q[i]),
        number_end(q) < q.len() ==> !is_number_char(q[number_end(q) as int]),
    decreases q.len(),
{
    if q.len() > 0 && is_number_char(q[0]) {
        lemma_number_end_shape(q.drop_first());
        assert forall|i: int| 0 <= i < number_end(q) implies is_number_char(#[trigger] q[i]) by {
            if i > 0 {
                assert(q[i] == q.drop_first()[i - 1]);
            }
        }
        if number_end(q) < q.len() {
            assert(q[number_end(q) as int] == q.drop_first()[number_end(q) - 1]);
        }
    }
}

proof fn lemma_number_end_concat(q: Seq<char>, u: Seq<char>)
    requires
        u.len() > 0,
        !is_number_char(u[0]),
    ensures
        number_end(q + u) == number_end(q),
{
    lemma_number_end_shape(q);
    let j = number_end(q) as int;
    let s = q + u;
    assert forall|i: int| 0 <= i < j implies is_number_char(#[trigger] s[i]) by {
        assert(s[i] == q[i]);
    }
    if j < q.len() {
        assert(s[j] == q[j]);
    } else {
        assert(s[j] == u[0]);
    }
    lemma_number_end(s, j);
}

/// A unit that starts with a digit or `.` is no unit.
proof fn lemma_numeric_unit(x: Seq<char>)
    requires
        x.len() > 0,
        is_number_char(x[0]),
    ensures
        unit_factor(x) is None,
{
    assert(x != seq!['B']);
    assert(x != seq!['b']);
    assert(x != seq!['k', 'B'] && x != seq!['K', 'B'] && x != seq!['K', 'i', 'B']);
    assert(x != seq!['k', 'b'] && x != seq!['K', 'b'] && x != seq!['K', 'i', 'b']);
    assert(x != seq!['M', 'B'] && x != seq!['M', 'i', 'B'] && x != seq!['M', 'b'] && x != seq!['M', 'i', 'b']);
    assert(x != seq!['G', 'B'] && x != seq!['G', 'i', 'B'] && x != seq!['G', 'b'] && x != seq!['G', 'i', 'b']);
}

/// The number of a size text followed by a unit word, and the factor of the
/// unit that parsing sees: the unit word's own factor, unless more of the text
/// follows the number after a space, which makes the unit no unit.
proof fn lemma_text_unit(p: Seq<char>, u: Seq<char>)
    requires
        is_size_text(p),
        is_unit_word(u),
    ensures
        ({
            let q = trim_start(p);
            let j = number_end(q) as int;
            let w = trim_start(q.skip(j));
            &&& j <= q.len()
            &&& size_verdict(p + u) == verdict_of_parts(
                q.take(j),
                if w.len() == 0 {
                    u
                } else {
                    w + u
                },
            )
            &&& w.len() > 0 ==> unit_factor(w + u) is None
        }),
{
    let q = trim_start(p);
    lemma_trim_start_shape(p);
    lemma_trim_start_concat(p, u);
    lemma_trim_end_concat(q, u);
    let t = q + u;
    assert(trim(p + u) == t);
    assert forall|i: int| 0 <= i < q.len() implies is_size_text_char(#[trigger] q[i]) by {
        assert(q[i] == p[i + p.len() - q.len()]);
    }
    lemma_number_end_shape(q);
    lemma_number_end_concat(q, u);
    let j = number_end(q) as int;
    assert(t.take(j) =~= q.take(j));
    assert(t.skip(j) =~= q.skip(j) + u);
    let r = q.skip(j);
    lemma_trim_start_concat(r, u);
    let w = trim_start(r);
    lemma_trim_end_concat(w, u);
    assert(trim(t.skip(j)) == w + u);
    lemma_trim_start_shape(r);
    if w.len() > 0 {
        assert(w[0] == r[r.len() - w.len()]);
        assert(r[r.len() - w.len()] == q[j + r.len() - w.len()]);
        assert(is_number_char(w[0]));
        assert((w + u)[0] == w[0]);
        lemma_numeric_unit(w + u);
    } else {
        assert(w + u =~= u);
    }
}

/// Two unit words with the same factor give the same result after any size
/// text of digits, dots and spaces.
proof fn lemma_same_factor_text(p: Seq<char>, u1: Seq<char>, u2: Seq<char>)
    requires
        is_size_text(p),
        is_unit_word(u1),
        is_unit_word(u2),
        unit_factor(u1) == unit_factor(u2),
    ensures
        size_verdict(p + u1) == size_verdict(p + u2),
{
    lemma_text_unit(p, u1);
    lemma_text_unit(p, u2);
}

/// `B` after a size text means the same as no unit at all.
proof fn lemma_bytes_unit_is_default(p: Seq<char>)
    requires
        is_size_text(p),
    ensures
        size_verdict(p + seq!['B']) == size_verdict(p),
{
    let u = seq!['B'];
    lemma_text_unit(p, u);
    let q = trim_start(p);
    lemma_trim_start_shape(p);
    assert forall|i: int| 0 <= i < q.len() implies is_size_text_char(#[trigger] q[i]) by {
        assert(q[i] == p[i + p.len() - q.len()]);
    }
    lemma_number_end_shape(q);
    let j = number_end(q) as int;
    let w = trim_start(q.skip(j));
    lemma_trim_start_shape(q.skip(j));
    // Without a unit: the text trims to q without its trailing spaces.
    let t = trim_end(q);
    lemma_trim_end_shape(q);
    let m = t.len() as int;
    assert(trim(p) == t);
    // The number ends at j, inside t.
    assert(j <= m) by {
        if j > m {
            assert(is_number_char(q[m]));
            assert(is_ws(q[m]));
        }
    }
    assert forall|i: int| 0 <= i < j implies is_number_char(#[trigger] t[i]) by {
        assert(t[i] == q[i]);
    }
    if j < m {
        assert(t[j] == q[j]);
    }
    lemma_number_end(t, j);
    assert(t.take(j) =~= q.take(j));
    let rest = t.skip(j);
    if j == m {
        assert(rest =~= Seq::<char>::empty());
        assert(trim(rest) =~= Seq::<char>::empty());
        assert forall|i: int| 0 <= i < q.skip(j).len() implies is_ws(#[trigger] q.skip(j)[i]) by {
            assert(q.skip(j)[i] == q[j + i]);
        }
        lemma_trim_start_skip(q.skip(j), q.skip(j).len() as int);
        assert(q.skip(j).skip(q.skip(j).len() as int) =~= Seq::<char>::empty());
        assert(w.len() == 0);
        assert(unit_factor(Seq::<char>::empty()) == unit_factor(u));
    } else {
        // q[j] is a space, and the text goes on to q[m - 1], which is not.
        assert(!is_ws(q[m - 1]));
        assert(!is_ws(rest.last()));
        assert(rest.last() == q[m - 1]);
        let ru = trim_start(rest);
        lemma_trim_start_shape(rest);
        assert(ru.len() > 0) by {
            if ru.len() == 0 {
                assert(is_ws(rest[rest.len() - 1]));
            }
        }
        lemma_trim_end_shape(ru);
        assert(trim_end(ru) == ru) by {
            assert(ru.last() == rest.last());
        }
        assert(ru[0] == rest[rest.len() - ru.len()]);
        assert(rest[rest.len() - ru.len()] == q[j + rest.len() - ru.len()]);
        assert(is_number_char(ru[0]));
        lemma_numeric_unit(ru);
        // With the unit, w holds the same characters and is not empty either.
        assert(w.len() > 0) by {
            if w.len() == 0 {
                assert(is_ws(q.skip(j)[m - 1 - j]));
                assert(q.skip(j)[m - 1 - j] == q[m - 1]);
            }
        }
    }
}

/// The units `kB`, `KB` and `KiB` mean the same; so do `MB` and `MiB`, `GB`
/// and `GiB`, the bit units `kb`, `Kb`, `Kib`, `Mb`, `Mib`, `Gb`, `Gib`, and
/// `B` and no unit at all: after any number written with digits, dots and
/// spaces, they parse to the same result.
pub proof fn law_unit_spellings_agree(p: Seq<char>)
    requires
        is_size_text(p),
    ensures
        size_verdict(p + seq!['k', 'B']) == size_verdict(p + seq!['K', 'i', 'B']),
        size_verdict(p + seq!['K', 'B']) == size_verdict(p + seq!['K', 'i', 'B']),
        size_verdict(p + seq!['M', 'B']) == size_verdict(p + seq!['M', 'i', 'B']),
        size_verdict(p + seq!['G', 'B']) == size_verdict(p + seq!['G', 'i', 'B']),
        size_verdict(p + seq!['k', 'b']) == size_verdict(p + seq!['K', 'i', 'b']),
        size_verdict(p + seq!['K', 'b']) == size_verdict(p + seq!['K', 'i', 'b']),
        size_verdict(p + seq!['M', 'b']) == size_verdict(p + seq!['M', 'i', 'b']),
        size_verdict(p + seq!['G', 'b']) == size_verdict(p + seq!['G', 'i', 'b']),
        size_verdict(p + seq!['B']) == size_verdict(p),
{
    lemma_units_k();
    lemma_units_m();
    lemma_units_g();
    lemma_same_factor_text(p, seq!['k', 'B'], seq!['K', 'i', 'B']);
    lemma_same_factor_text(p, seq!['K', 'B'], seq!['K', 'i', 'B']);
    lemma_same_factor_text(p, seq!['M', 'B'], seq!['M', 'i', 'B']);
    lemma_same_factor_text(p, seq!['G', 'B'], seq!['G', 'i', 'B']);
    lemma_same_factor_text(p, seq!['k', 'b'], seq!['K', 'i', 'b']);
    lemma_same_factor_text(p, seq!['K', 'b'], seq!['K', 'i', 'b']);
    lemma_same_factor_text(p, seq!['M', 'b'], seq!['M', 'i', 'b']);
    lemma_same_factor_text(p, seq!['G', 'b'], seq!['G', 'i', 'b']);
    lemma_bytes_unit_is_default(p);
}

} // verus!
