//! The image grid and its plain-text encoding.
//!
//! A canvas is a fixed `width` by `height` grid of pixels, stored row-major.
//! Pixels arrive already quantised to one byte per channel; mapping the
//! renderer's real-valued colors onto `0..=255` is the caller's concern.
//! `to_ppm` serialises the grid in the plain-text portable pixmap form:
//! a `P3` line, the dimensions, the maximum channel value `255`, then one
//! `"R G B"` line per pixel in row-major order, every line newline-ended.
//! The contract fixes the output byte for byte.

use vstd::prelude::*;
use vstd::arithmetic::mul::lemma_mul_inequality;
use vstd::arithmetic::mul::lemma_mul_is_commutative;
use vstd::arithmetic::mul::lemma_mul_is_distributive_sub_other_way;
use vstd::arithmetic::mul::lemma_mul_nonnegative;

verus! {

/// One pixel, channels quantised to `0..=255`.
#[derive(Copy, Clone, Debug, PartialEq, Eq, Structural)]
pub struct Pixel {
    pub red: u8,
    pub green: u8,
    pub blue: u8,
}

impl Pixel {
    pub fn new(red: u8, green: u8, blue: u8) -> (r: Pixel)
        ensures
            r == (Pixel { red, green, blue }),
    {
        Pixel { red, green, blue }
    }

    pub fn black() -> (r: Pixel)
        ensures
            r == (Pixel { red: 0u8, green: 0u8, blue: 0u8 }),
    {
        Pixel { red: 0, green: 0, blue: 0 }
    }
}

/// The decimal digits of `n`, most significant first, as ASCII bytes.
pub open spec fn decimal(n: nat) -> Seq<u8>
    decreases n,
{
    if n < 10 {
        seq![(48 + n) as u8]
    } else {
        decimal(n / 10).push((48 + n % 10) as u8)
    }
}

/// The text line one pixel serialises to: `"R G B\n"`.
pub open spec fn pixel_line(p: Pixel) -> Seq<u8> {
    decimal(p.red as nat) + seq![32u8] + decimal(p.green as nat) + seq![32u8] + decimal(
        p.blue as nat,
    ) + seq![10u8]
}

/// The concatenated pixel lines of a whole grid, row-major.
pub open spec fn pixel_lines(pixels: Seq<Pixel>) -> Seq<u8>
    decreases pixels.len(),
{
    if pixels.len() == 0 {
        Seq::empty()
    } else {
        pixel_lines(pixels.drop_last()) + pixel_line(pixels.last())
    }
}

/// The whole plain-text pixmap: `"P3\n<width> <height>\n255\n"` followed by
/// the pixel lines.
pub open spec fn ppm_bytes(width: nat, height: nat, pixels: Seq<Pixel>) -> Seq<u8> {
    seq![80u8, 51u8, 10u8] + decimal(width) + seq![32u8] + decimal(height) + seq![10u8] + decimal(
        255,
    ) + seq![10u8] + pixel_lines(pixels)
}

/// Append the decimal digits of `n` to `out`.
fn push_decimal(out: &mut Vec<u8>, n: u64)
    ensures
        final(out)@ == old(out)@ + decimal(n as nat),
    decreases n,
{
    if n >= 10 {
        push_decimal(out, n / 10);
    }
    out.push(48 + (n % 10) as u8);
    proof {
        assert(final(out)@ =~= old(out)@ + decimal(n as nat));
    }
}

/// A `width` by `height` grid of pixels, stored row-major.
pub struct Canvas {
    pub width: usize,
    pub height: usize,
    pub vals: Vec<Pixel>,
}

impl View for Canvas {
    type V = Seq<Pixel>;

    open spec fn view(&self) -> Seq<Pixel> {
        self.vals@
    }
}

impl Canvas {
    /// The grid holds exactly one pixel per coordinate pair.
    pub open spec fn wf(self) -> bool {
        self@.len() == self.width * self.height
    }

    /// A canvas of the given size with every pixel black.
    pub fn new(width: usize, height: usize) -> (r: Canvas)
        requires
            width * height <= usize::MAX,
        ensures
            r.wf(),
            r.width == width,
            r.height == height,
            forall|i: int|
                0 <= i < r@.len() ==> r@[i] == (Pixel { red: 0u8, green: 0u8, blue: 0u8 }),
    {
        let n = width * height;
        let vals = vec![Pixel { red: 0, green: 0, blue: 0 };n];
        Canvas { width, height, vals }
    }

    /// The pixel at column `x` of row `y`.
    pub fn pixel(&self, x: usize, y: usize) -> (p: Pixel)
        requires
            self.wf(),
            x < self.width,
            y < self.height,
        ensures
            p == self@[y * self.width + x],
    {
        proof {
            assert(self.vals.len() <= usize::MAX);
            lemma_row_major_in_bounds(x as int, y as int, self.width as int, self.height as int);
        }
        self.vals[y * self.width + x]
    }

    /// Write the pixel at column `x` of row `y`; no other pixel changes.
    pub fn set_pixel(&mut self, x: usize, y: usize, p: Pixel)
        requires
            old(self).wf(),
            x < old(self).width,
            y < old(self).height,
        ensures
            final(self).wf(),
            final(self).width == old(self).width,
            final(self).height == old(self).height,
            final(self)@ == old(self)@.update(y * old(self).width + x, p),
    {
        proof {
            assert(self.vals.len() <= usize::MAX);
            lemma_row_major_in_bounds(x as int, y as int, self.width as int, self.height as int);
        }
        let i = y * self.width + x;
        self.vals.set(i, p);
    }

    /// Serialise the grid as a plain-text portable pixmap, byte for byte as
    /// `ppm_bytes` lays it out.
    pub fn to_ppm(&self) -> (out: Vec<u8>)
        requires
            self.wf(),
        ensures
            out@ == ppm_bytes(self.width as nat, self.height as nat, self@),
    {
        let mut out: Vec<u8> = Vec::new();
        out.push(80);
        out.push(51);
        out.push(10);
        push_decimal(&mut out, self.width as u64);
        out.push(32);
        push_decimal(&mut out, self.height as u64);
        out.push(10);
        push_decimal(&mut out, 255);
        out.push(10);
        let ghost header = out@;
        assert(header =~= seq![80u8, 51u8, 10u8] + decimal(self.width as nat) + seq![32u8]
            + decimal(self.height as nat) + seq![10u8] + decimal(255) + seq![10u8]);
        let mut i: usize = 0;
        while i < self.vals.len()
            invariant
                i <= self@.len(),
                out@ == header + pixel_lines(self@.take(i as int)),
            decreases self@.len() - i,
        {
            let p = self.vals[i];
            push_decimal(&mut out, p.red as u64);
            out.push(32);
            push_decimal(&mut out, p.green as u64);
            out.push(32);
            push_decimal(&mut out, p.blue as u64);
            out.push(10);
            proof {
                assert(self@.take(i + 1).drop_last() =~= self@.take(i as int));
                assert(out@ =~= header + pixel_lines(self@.take(i + 1)));
            }
            i += 1;
        }
        proof {
            assert(self@.take(self@.len() as int) =~= self@);
        }
        out
    }
}

/// Row-major indexing stays inside a `width` by `height` grid.
proof fn lemma_row_major_in_bounds(x: int, y: int, width: int, height: int)
    requires
        0 <= x < width,
        0 <= y < height,
    ensures
        0 <= y * width + x < width * height,
{
    lemma_mul_nonnegative(y, width);
    lemma_mul_inequality(y, height - 1, width);
    lemma_mul_is_distributive_sub_other_way(width, height, 1);
    lemma_mul_is_commutative(width, height);
}

} // verus!
