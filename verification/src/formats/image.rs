//! JPG and PNG images: a square of a fixed colour pattern, grown until its
//! encoding reaches the target size.

use vstd::prelude::*;
use std::io::Cursor;
use image::{ImageBuffer, ImageFormat, Rgb};
use crate::error::Error;

verus! {

/// The two image encodings.
#[derive(Debug, Clone, Copy, PartialEq, Eq, Structural)]
pub enum ImageKind {
    Jpeg,
    Png,
}

/// The file extension of an image kind.
pub open spec fn image_extension(kind: ImageKind) -> Seq<char> {
    match kind {
        ImageKind::Jpeg => "jpg"@,
        ImageKind::Png => "png"@,
    }
}

/// The file extension of an image kind: `jpg` or `png`.
pub fn extension_for_image(kind: ImageKind) -> (e: &'static str)
    ensures
        e@ == image_extension(kind),
{
    match kind {
        ImageKind::Jpeg => "jpg",
        ImageKind::Png => "png",
    }
}

/// The largest side tried before giving up.
pub const MAX_SIDE: u32 = 8192;

/// The smallest side tried.
pub const MIN_SIDE: u32 = 16;

// ---------------------------------------------------------------------------
// Specification
// ---------------------------------------------------------------------------

/// Whether a square of side `s` has at least `target` bytes of raw RGB data.
pub open spec fn covers(s: int, target: int) -> bool {
    3 * s * s >= target
}

/// The first side from `s` upwards that covers `target`, or `MAX_SIDE`.
pub open spec fn side_from(target: int, s: int) -> int
    decreases MAX_SIDE - s,
{
    if s >= MAX_SIDE || covers(s, target) {
        s
    } else {
        side_from(target, s + 1)
    }
}

/// The first side tried: the smallest side of at least `MIN_SIDE` whose raw
/// RGB data has `target` bytes, but at most `MAX_SIDE`.
pub open spec fn starting_side(target: u64) -> int {
    side_from(target as int, MIN_SIDE as int)
}

/// The largest power of two not above `k` (1 for 0).
pub open spec fn pow2_floor(k: nat) -> nat
    decreases k,
{
    if k < 2 {
        1
    } else {
        2 * pow2_floor(k / 2)
    }
}

/// The next side: `s` times 135/100, rounded up, as the product comes out in
/// double precision. The double nearest 135/100 lies a little above it, so
/// when `135 s / 100` is a whole number `k` the product rounds past `k` (and
/// the side becomes `k + 1`) exactly when `4 s > 5 * pow2_floor(k)`.
pub open spec fn grown_side(s: int) -> int {
    let q = 135 * s;
    if q % 100 != 0 {
        q / 100 + 1
    } else if 4 * s > 5 * pow2_floor((q / 100) as nat) {
        q / 100 + 1
    } else {
        q / 100
    }
}

/// The pattern's value at pixel `(x, y)`.
pub open spec fn pattern_value(x: u32, y: u32) -> int {
    x * 73 + y * 151 + (x ^ y) * 31
}

/// Byte `i` of the row-major RGB data of the pattern on a square of side
/// `side`: the red, green and blue channels are the value, the value shifted
/// right by 3 and the value shifted right by 7, each cut to 8 bits.
pub open spec fn pattern_byte(side: int, i: int) -> u8 {
    let p = i / 3;
    let n = pattern_value((p % side) as u32, (p / side) as u32);
    let c = i % 3;
    (if c == 0 {
        n % 256
    } else if c == 1 {
        (n / 8) % 256
    } else {
        (n / 128) % 256
    }) as u8
}

/// The RGB data of the pattern on a square of side `side`.
pub open spec fn pattern(side: int) -> Seq<u8> {
    Seq::new((3 * (side * side)) as nat, |i: int| pattern_byte(side, i))
}

/// The encoding of a square RGB image of side `side` with data `pixels`, or
/// `None` where the encoder fails.
pub uninterp spec fn encoded_image(kind: ImageKind, side: u32, pixels: Seq<u8>) -> Option<Seq<u8>>;

/// What generating an image of `target` bytes gives from side `side` on:
/// the first encoding that reaches the target; an encoder failure; or, once
/// `MAX_SIDE` is reached, the size of the last attempt.
pub open spec fn image_outcome(kind: ImageKind, target: u64, side: int) -> Result<Seq<u8>, Error>
    decreases 20000 - side,
    when 1 <= side
{
    match encoded_image(kind, side as u32, pattern(side)) {
        None => Err(Error::ImageEncoding),
        Some(b) => if b.len() >= target {
            Ok(b)
        } else if side >= MAX_SIDE {
            Err(Error::ImageTooSmall { image: kind, target, largest: b.len() as usize })
        } else {
            proof {
                lemma_grown_side(side);
            }
            image_outcome(kind, target, grown_side(side))
        },
    }
}

/// What generating an image of `target` bytes gives.
pub open spec fn image_result(kind: ImageKind, target: u64) -> Result<Seq<u8>, Error> {
    image_outcome(kind, target, starting_side(target))
}

// ---------------------------------------------------------------------------
// Lemmas
// ---------------------------------------------------------------------------

/// The next side is larger, and stays below 20000 from below `MAX_SIDE`.
pub proof fn lemma_grown_side(s: int)
    requires
        1 <= s < MAX_SIDE,
    ensures
        s < grown_side(s) <= 11060,
{
    let q = 135 * s;
    assert(q / 100 >= s);
    assert(q / 100 <= 11058);
    if q % 100 == 0 {
        assert(q / 100 > s);
    }
}

/// `side_from` stops at the first side that covers the target.
proof fn lemma_side_from(target: int, s: int, r: int)
    requires
        MIN_SIDE <= s <= r <= MAX_SIDE,
        forall|j: int| s <= j < r ==> !covers(j, target),
        r == MAX_SIDE || covers(r, target),
    ensures
        side_from(target, s) == r,
    decreases r - s,
{
    if s < r {
        lemma_side_from(target, s + 1, r);
    }
}

/// Squares grow with their side.
proof fn lemma_covers_monotone(a: int, b: int, target: int)
    requires
        0 <= a <= b,
        covers(a, target),
    ensures
        covers(b, target),
{
    assert(3 * a * a <= 3 * b * b) by (nonlinear_arith)
        requires
            0 <= a <= b,
    ;
}

/// Where pixel `(x, y)` and channel `c` sit in row-major RGB data.
proof fn lemma_pixel_index(side: int, x: int, y: int, c: int)
    requires
        0 <= x < side,
        0 <= y,
        0 <= c < 3,
    ensures
        (3 * (y * side + x) + c) / 3 == y * side + x,
        (3 * (y * side + x) + c) % 3 == c,
        (y * side + x) % side == x,
        (y * side + x) / side == y,
{
    let p = y * side + x;
    vstd::arithmetic::div_mod::lemma_fundamental_div_mod_converse(3 * p + c, 3, p, c);
    vstd::arithmetic::div_mod::lemma_fundamental_div_mod_converse(p, side, y, x);
}

// ---------------------------------------------------------------------------
// Code
// ---------------------------------------------------------------------------

/// The first side tried for `target` bytes.
pub fn initial_side(target: u64) -> (s: u32)
    ensures
        s == starting_side(target),
        MIN_SIDE <= s <= MAX_SIDE,
{
    let t = target;
    if 3 * (MIN_SIDE as u64) * (MIN_SIDE as u64) >= t {
        proof {
            lemma_side_from(t as int, MIN_SIDE as int, MIN_SIDE as int);
        }
        return MIN_SIDE;
    }
    // The smallest covering side lies in (lo, hi].
    let mut lo: u32 = MIN_SIDE;
    let mut hi: u32 = MAX_SIDE;
    while hi - lo > 1
        invariant
            MIN_SIDE <= lo < hi <= MAX_SIDE,
            !covers(lo as int, t as int),
            hi == MAX_SIDE || covers(hi as int, t as int),
            forall|j: int| MIN_SIDE <= j <= lo ==> !covers(j, t as int),
        decreases hi - lo,
    {
        let mid: u32 = lo + (hi - lo) / 2;
        assert(3 * (mid as u64) * (mid as u64) <= 3 * 8192 * 8192) by (nonlinear_arith)
            requires
                mid <= 8192,
        ;
        let sq: u64 = 3 * (mid as u64) * (mid as u64);
        if sq >= t {
            hi = mid;
        } else {
            proof {
                assert forall|j: int| MIN_SIDE <= j <= mid implies !covers(j, t as int) by {
                    if covers(j, t as int) {
                        lemma_covers_monotone(j, mid as int, t as int);
                    }
                }
            }
            lo = mid;
        }
    }
    proof {
        lemma_side_from(t as int, MIN_SIDE as int, hi as int);
    }
    hi
}

/// The largest power of two not above `k`.
fn power_floor(k: u32) -> (p: u32)
    ensures
        p == pow2_floor(k as nat),
        1 <= p,
        k >= 1 ==> p <= k,
{
    let mut m: u32 = k;
    let mut p: u32 = 1;
    while m >= 2
        invariant
            p * pow2_floor(m as nat) == pow2_floor(k as nat),
            1 <= p,
            p * m <= k,
            k >= 1 ==> m >= 1,
        decreases m,
    {
        proof {
            assert(pow2_floor(m as nat) == 2 * pow2_floor((m / 2) as nat));
            assert(p * (2 * pow2_floor((m / 2) as nat)) == (2 * p) * pow2_floor((m / 2) as nat))
                by (nonlinear_arith);
            assert((2 * p) * (m / 2) <= p * m && 2 * p <= p * m) by (nonlinear_arith)
                requires
                    1 <= p,
                    2 <= m,
            ;
        }
        p = 2 * p;
        m = m / 2;
    }
    proof {
        assert(pow2_floor(m as nat) == 1);
        assert(p * 1 == p);
        if k >= 1 {
            assert(p <= p * m) by (nonlinear_arith)
                requires
                    m >= 1,
                    p >= 1,
            ;
        }
    }
    p
}

/// The side after `side`.
pub fn grow_side(side: u32) -> (s: u32)
    requires
        1 <= side < MAX_SIDE,
    ensures
        s == grown_side(side as int),
        side < s <= 11060,
{
    proof {
        lemma_grown_side(side as int);
    }
    let q: u32 = 135 * side;
    if q % 100 != 0 {
        q / 100 + 1
    } else {
        let k: u32 = q / 100;
        let p = power_floor(k);
        if 4 * side > 5 * p {
            k + 1
        } else {
            k
        }
    }
}

/// The three channel bytes of pixel `(x, y)`.
fn pattern_rgb(x: u32, y: u32) -> (rgb: (u8, u8, u8))
    requires
        x < 16384,
        y < 16384,
    ensures
        rgb.0 == (pattern_value(x, y) % 256) as u8,
        rgb.1 == ((pattern_value(x, y) / 8) % 256) as u8,
        rgb.2 == ((pattern_value(x, y) / 128) % 256) as u8,
{
    assert(x ^ y < 16384) by (bit_vector)
        requires
            x < 16384,
            y < 16384,
    ;
    let n: u32 = x * 73 + y * 151 + (x ^ y) * 31;
    assert(n & 255 == n % 256) by (bit_vector);
    assert((n >> 3) & 255 == (n / 8) % 256) by (bit_vector);
    assert((n >> 7) & 255 == (n / 128) % 256) by (bit_vector);
    ((n & 255) as u8, ((n >> 3) & 255) as u8, ((n >> 7) & 255) as u8)
}

/// The RGB data of the pattern on a square of side `side`.
pub fn pattern_pixels(side: u32) -> (v: Vec<u8>)
    requires
        1 <= side <= 12000,
    ensures
        v@ == pattern(side as int),
{
    let mut v: Vec<u8> = Vec::new();
    let mut y: u32 = 0;
    while y < side
        invariant
            1 <= side <= 12000,
            y <= side,
            v.len() == 3 * (y * side),
            forall|i: int| 0 <= i < v.len() ==> v@[i] == pattern_byte(side as int, i),
        decreases side - y,
    {
        let mut x: u32 = 0;
        while x < side
            invariant
                1 <= side <= 12000,
                y < side,
                x <= side,
                v.len() == 3 * (y * side + x),
                forall|i: int| 0 <= i < v.len() ==> v@[i] == pattern_byte(side as int, i),
            decreases side - x,
        {
            assert(y * side + x < 12000 * 12000) by (nonlinear_arith)
                requires
                    x < side <= 12000,
                    y < side,
            ;
            let rgb = pattern_rgb(x, y);
            let ghost base = v.len() as int;
            proof {
                lemma_pixel_index(side as int, x as int, y as int, 0);
                lemma_pixel_index(side as int, x as int, y as int, 1);
                lemma_pixel_index(side as int, x as int, y as int, 2);
            }
            v.push(rgb.0);
            v.push(rgb.1);
            v.push(rgb.2);
            proof {
                assert(v@[base] == pattern_byte(side as int, base));
                assert(v@[base + 1] == pattern_byte(side as int, base + 1));
                assert(v@[base + 2] == pattern_byte(side as int, base + 2));
            }
            x = x + 1;
        }
        assert(y * side + side == (y + 1) * side) by (nonlinear_arith);
        y = y + 1;
    }
    assert(v.len() == 3 * (side * side));
    assert(v@ =~= pattern(side as int));
    v
}

/// Encodes square RGB data as JPEG or PNG with `image`'s default settings
/// (`ImageBuffer::from_raw`, then `ImageBuffer::write_to` into memory). The
/// result is `encoded_image` of the same arguments: the encoders depend on
/// nothing but the data and the format.
#[verifier::external_body]
fn encode_image(kind: ImageKind, side: u32, pixels: Vec<u8>) -> (r: Option<Vec<u8>>)
    requires
        pixels@.len() == 3 * (side * side),
    ensures
        match r {
            Some(b) => encoded_image(kind, side, pixels@) == Some(b@),
            None => encoded_image(kind, side, pixels@) is None,
        },
{
    let format = match kind {
        ImageKind::Jpeg => ImageFormat::Jpeg,
        ImageKind::Png => ImageFormat::Png,
    };
    let buffer = ImageBuffer::<Rgb<u8>, Vec<u8>>::from_raw(side, side, pixels)?;
    let mut out = Cursor::new(Vec::new());
    buffer.write_to(&mut out, format).ok()?;
    Some(out.into_inner())
}

/// The bytes of a `kind` image of at least `target` bytes: the pattern on a
/// square of the starting side, grown until the encoding is large enough.
pub fn image_bytes(kind: ImageKind, target: u64) -> (r: Result<Vec<u8>, Error>)
    ensures
        match r {
            Ok(b) => image_result(kind, target) == Ok::<Seq<u8>, Error>(b@),
            Err(e) => image_result(kind, target) == Err::<Seq<u8>, Error>(e),
        },
{
    let mut side = initial_side(target);
    loop
        invariant
            MIN_SIDE <= side <= 11060,
            image_result(kind, target) == image_outcome(kind, target, side as int),
        decreases 20000 - side,
    {
        let pixels = pattern_pixels(side);
        match encode_image(kind, side, pixels) {
            None => {
                return Err(Error::ImageEncoding);
            },
            Some(b) => {
                if b.len() as u64 >= target {
                    return Ok(b);
                }
                if side >= MAX_SIDE {
                    return Err(Error::ImageTooSmall { image: kind, target, largest: b.len() });
                }
                side = grow_side(side);
            },
        }
    }
}

// ---------------------------------------------------------------------------
// Laws
// ---------------------------------------------------------------------------

proof fn lemma_outcome_reaches(kind: ImageKind, target: u64, side: int)
    requires
        1 <= side <= 20000,
    ensures
        image_outcome(kind, target, side) matches Ok(b) ==> b.len() >= target,
        image_outcome(kind, target, side) matches Err(Error::ImageTooSmall { target: t, .. })
            ==> t == target,
    decreases 20000 - side,
{
    match encoded_image(kind, side as u32, pattern(side)) {
        None => {},
        Some(b) => {
            if b.len() < target && side < MAX_SIDE {
                lemma_grown_side(side);
                lemma_outcome_reaches(kind, target, grown_side(side));
            }
        },
    }
}

/// An image that is generated has at least the requested number of bytes;
/// one that is not reports the requested size.
pub proof fn law_image_reaches_target(kind: ImageKind, target: u64)
    ensures
        image_result(kind, target) matches Ok(b) ==> b.len() >= target,
        image_result(kind, target) matches Err(Error::ImageTooSmall { target: t, .. }) ==> t
            == target,
{
    lemma_side_from_bounds(target as int, MIN_SIDE as int);
    lemma_outcome_reaches(kind, target, starting_side(target));
}

proof fn lemma_side_from_bounds(target: int, s: int)
    requires
        MIN_SIDE <= s <= MAX_SIDE,
    ensures
        s <= side_from(target, s) <= MAX_SIDE,
    decreases MAX_SIDE - s,
{
    if s < MAX_SIDE && !covers(s, target) {
        lemma_side_from_bounds(target, s + 1);
    }
}

} // verus!
