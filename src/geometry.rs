//! Pixel-grid geometry: the smallest roughly square grid of 4-byte pixels
//! that holds the conversion header and the file's own bytes.
use vstd::prelude::*;

verus! {

/// Number of bytes in one pixel (32 bits, four channels).
pub const BYTES_PER_PIXEL: u32 = 4;

/// Size in bytes of the conversion record that follows the bitmap header.
pub const B2B_HEADER_SIZE: u32 = 40;

/// Size in bytes of the bitmap file header plus its V5 information header.
pub const BITMAP_HEADER_SIZE: u32 = 0x8A;

/// Largest input size whose bitmap still fits the 32-bit size fields.
pub const MAX_FILE_SIZE: u64 = 0xFFFD_0000;

/// `w` is the least width whose square grid of 4-byte pixels holds `t` bytes.
pub open spec fn is_width(t: nat, w: nat) -> bool {
    4 * w * w >= t && (w == 0 || 4 * ((w - 1) as nat) * ((w - 1) as nat) < t)
}

/// `h` is the least number of rows of width `w` that hold `t` bytes.
pub open spec fn is_height(t: nat, w: nat, h: nat) -> bool {
    4 * w * h >= t && (h == 0 || 4 * w * ((h - 1) as nat) < t)
}

/// Search for the least width, starting at `w`.
pub open spec fn width_from(t: nat, w: nat) -> nat
    decreases t - w,
{
    if w >= t || 4 * w * w >= t {
        w
    } else {
        width_from(t, w + 1)
    }
}

/// `ceil(sqrt(t / 4))`.
pub open spec fn spec_width(t: nat) -> nat {
    width_from(t, 0)
}

/// `ceil(t / (4 * w))`.
pub open spec fn spec_height(t: nat, w: nat) -> nat {
    if w == 0 {
        0
    } else {
        ((t + 4 * w - 1) as nat) / (4 * w)
    }
}

/// Bytes that the grid must hold for a file of `file_size` bytes.
pub open spec fn total_data(file_size: nat) -> nat {
    (file_size + B2B_HEADER_SIZE) as nat
}

/// `(width, height, pixmap_size, padding_size)` for a file of `file_size` bytes.
pub open spec fn spec_properties(file_size: nat) -> (nat, nat, nat, nat) {
    let t = total_data(file_size);
    let w = spec_width(t);
    let h = spec_height(t, w);
    let p = 4 * w * h;
    (w, h, p, (p - t) as nat)
}

/// Whether a file of `file_size` bytes gives a bitmap whose sizes fit in 32 bits.
pub open spec fn supported(file_size: nat) -> bool {
    file_size <= MAX_FILE_SIZE
}

proof fn lemma_width_from(t: nat, w: nat)
    requires
        t > 0,
        w == 0 || 4 * ((w - 1) as nat) * ((w - 1) as nat) < t,
    ensures
        is_width(t, width_from(t, w)),
    decreases t - w,
{
    if w >= t || 4 * w * w >= t {
        if 4 * w * w < t {
            assert(4 * w * w >= w * w) by (nonlinear_arith);
            assert(w * w >= w) by (nonlinear_arith)
                requires w >= 1nat;
        }
    } else {
        lemma_width_from(t, w + 1);
    }
}

pub proof fn lemma_width_from_ge(t: nat, w: nat)
    ensures
        width_from(t, w) >= w,
    decreases t - w,
{
    if !(w >= t || 4 * w * w >= t) {
        lemma_width_from_ge(t, w + 1);
    }
}

proof fn lemma_height(t: nat, w: nat)
    requires
        w > 0,
    ensures
        is_height(t, w, spec_height(t, w)),
{
    let d = 4 * w;
    let h = ((t + d - 1) as nat) / d;
    assert(d > 0);
    vstd::arithmetic::div_mod::lemma_fundamental_div_mod((t + d - 1) as int, d as int);
    let r = ((t + d - 1) as nat) % d;
    assert(h * d + r == t + d - 1);
    assert(4 * w * h == h * d) by (nonlinear_arith)
        requires d == 4 * w;
    if h > 0 {
        assert(4 * w * ((h - 1) as nat) == h * d - d) by (nonlinear_arith)
            requires d == 4 * w, h > 0;
    }
}

/// The geometry of every supported size: the grid holds the data, the padding
/// is shorter than the pixel data, and everything fits the 32-bit fields.
pub proof fn lemma_geometry(file_size: nat)
    requires
        supported(file_size),
    ensures
        ({
            let (w, h, p, pad) = spec_properties(file_size);
            let t = total_data(file_size);
            &&& is_width(t, w)
            &&& is_height(t, w, h)
            &&& p == w * h * 4
            &&& p >= file_size + B2B_HEADER_SIZE
            &&& pad == p - file_size - B2B_HEADER_SIZE
            &&& pad < p
            &&& pad < 4 * w
            &&& w <= 0x8000
            &&& h <= 0x8000
            &&& p + BITMAP_HEADER_SIZE <= u32::MAX
        }),
{
    let t = total_data(file_size);
    lemma_width_from(t, 0);
    let w = spec_width(t);
    assert(w > 0);
    lemma_height(t, w);
    let h = spec_height(t, w);
    let p = 4 * w * h;
    assert(p == w * h * 4) by (nonlinear_arith)
        requires p == 4 * w * h;
    assert(w <= 0x8000) by (nonlinear_arith)
        requires is_width(t, w), t <= 0xFFFD_0028nat, w > 0;
    assert(h >= 1) by (nonlinear_arith)
        requires 4 * w * h >= t, t >= 40;
    assert(4 * w * ((h - 1) as nat) < t);
    assert(p == 4 * w * ((h - 1) as nat) + 4 * w) by (nonlinear_arith)
        requires p == 4 * w * h, h >= 1;
    assert((h - 1) as nat <= w) by (nonlinear_arith)
        requires 4 * w * ((h - 1) as nat) < 4 * w * w, w > 0;
}

} // verus!
