//! The pixel grid the engine works on: a width x height raster stored
//! row-major, plus the pixel type that assignment records, and the scan
//! order in which the assigner visits the grid (column by column, top to
//! bottom within a column).

use vstd::prelude::*;

use crate::color::Rgb;

verus! {

/// A pixel: its coordinates in the grid and its color.
#[derive(Clone, Copy, PartialEq, Eq, Structural, Debug)]
pub struct Pixel {
    pub x: usize,
    pub y: usize,
    pub color: Rgb,
}

/// An immutable raster of RGB pixels, stored row-major: the pixel at
/// `(x, y)` sits at index `y * width + x`.
#[derive(Clone, Debug)]
pub struct Grid {
    pub width: usize,
    pub height: usize,
    pub pixels: Vec<Rgb>,
}

/// Raised when a coordinate lies outside the grid.
#[derive(Clone, Copy, PartialEq, Eq, Structural, Debug)]
pub struct OutOfBounds;

impl Grid {
    /// The grid holds exactly one color per coordinate.
    pub open spec fn wf(self) -> bool {
        self.pixels@.len() == self.width * self.height
    }

    /// The color at `(x, y)`, as a mathematical lookup.
    pub open spec fn spec_pixel(self, x: int, y: int) -> Rgb {
        self.pixels@[y * self.width + x]
    }

    /// Builds a grid from a row-major pixel vector; rejects a vector whose
    /// length does not match the dimensions.
    pub fn from_pixels(width: usize, height: usize, pixels: Vec<Rgb>) -> (r: Result<Grid, OutOfBounds>)
        ensures
            match r {
                Ok(g) => {
                    &&& g.wf()
                    &&& g.width == width
                    &&& g.height == height
                    &&& g.pixels@ == pixels@
                    &&& pixels@.len() == width * height
                },
                Err(_) => pixels@.len() != width * height,
            },
    {
        match width.checked_mul(height) {
            Some(n) => {
                if pixels.len() == n {
                    Ok(Grid { width, height, pixels })
                } else {
                    Err(OutOfBounds)
                }
            },
            None => {
                assert(pixels.len() == pixels@.len());
                Err(OutOfBounds)
            },
        }
    }

    /// The color at `(x, y)`; the coordinate must be in bounds.
    pub fn get_pixel(&self, x: usize, y: usize) -> (c: Rgb)
        requires
            self.wf(),
            x < self.width,
            y < self.height,
        ensures
            c == self.spec_pixel(x as int, y as int),
    {
        proof {
            lemma_row_major_index_in_range(self.width as int, self.height as int, x as int, y as int);
            assert(self.pixels.len() == self.pixels@.len());
        }
        self.pixels[y * self.width + x]
    }

    /// The color at `(x, y)`, or an error for a coordinate outside the
    /// grid — the engine never clamps a coordinate silently.
    pub fn try_get_pixel(&self, x: usize, y: usize) -> (r: Result<Rgb, OutOfBounds>)
        requires
            self.wf(),
        ensures
            match r {
                Ok(c) => x < self.width && y < self.height && c == self.spec_pixel(x as int, y as int),
                Err(_) => x >= self.width || y >= self.height,
            },
    {
        if x < self.width && y < self.height {
            Ok(self.get_pixel(x, y))
        } else {
            Err(OutOfBounds)
        }
    }

    /// Overwrites the color at `(x, y)`; the coordinate must be in bounds.
    pub fn set_pixel(&mut self, x: usize, y: usize, c: Rgb)
        requires
            old(self).wf(),
            x < old(self).width,
            y < old(self).height,
        ensures
            final(self).wf(),
            final(self).width == old(self).width,
            final(self).height == old(self).height,
            final(self).pixels@ == old(self).pixels@.update(y * old(self).width + x, c),
    {
        proof {
            lemma_row_major_index_in_range(self.width as int, self.height as int, x as int, y as int);
            assert(self.pixels.len() == self.pixels@.len());
        }
        let i = y * self.width + x;
        let slot = vec_at_mut(&mut self.pixels, i);
        *slot = c;
    }

    /// Overwrites the color at `(x, y)`, or reports a coordinate outside
    /// the grid without touching anything.
    pub fn try_set_pixel(&mut self, x: usize, y: usize, c: Rgb) -> (r: Result<(), OutOfBounds>)
        requires
            old(self).wf(),
        ensures
            final(self).wf(),
            final(self).width == old(self).width,
            final(self).height == old(self).height,
            match r {
                Ok(()) => x < old(self).width && y < old(self).height && final(self).pixels@
                    == old(self).pixels@.update(y * old(self).width + x, c),
                Err(_) => (x >= old(self).width || y >= old(self).height) && final(self).pixels@
                    == old(self).pixels@,
            },
    {
        if x < self.width && y < self.height {
            self.set_pixel(x, y, c);
            Ok(())
        } else {
            Err(OutOfBounds)
        }
    }
}

/// A mutable borrow of one vector element.
fn vec_at_mut(v: &mut Vec<Rgb>, i: usize) -> (slot: &mut Rgb)
    requires
        i < old(v).len(),
    ensures
        *slot == old(v)@[i as int],
        final(v)@ == old(v)@.update(i as int, *final(slot)),
{
    &mut v[i]
}

/// The row-major index of an in-bounds coordinate lies inside the pixel
/// vector.
pub proof fn lemma_row_major_index_in_range(width: int, height: int, x: int, y: int)
    requires
        0 <= x < width,
        0 <= y < height,
    ensures
        0 <= y * width + x < width * height,
{
    assert(y * width + x < width * height) by (nonlinear_arith)
        requires
            0 <= x < width,
            0 <= y < height,
    ;
    assert(y * width >= 0) by (nonlinear_arith)
        requires
            y >= 0,
            width > 0,
    ;
}

/// The assigner visits the grid column by column: the `n`-th pixel scanned
/// has `x = n / height` and `y = n % height`.
pub open spec fn scan_x(g: Grid, n: int) -> int {
    n / (g.height as int)
}

/// See [`scan_x`].
pub open spec fn scan_y(g: Grid, n: int) -> int {
    n % (g.height as int)
}

/// The `n`-th pixel in scan order, with its coordinates and color.
pub open spec fn scan_pixel(g: Grid, n: int) -> Pixel {
    Pixel {
        x: scan_x(g, n) as usize,
        y: scan_y(g, n) as usize,
        color: g.spec_pixel(scan_x(g, n), scan_y(g, n)),
    }
}

/// Distinct in-bounds coordinates have distinct row-major indexes.
pub proof fn lemma_row_major_index_injective(width: int, x1: int, y1: int, x2: int, y2: int)
    requires
        0 <= x1 < width,
        0 <= y1,
        0 <= x2 < width,
        0 <= y2,
        y1 * width + x1 == y2 * width + x2,
    ensures
        x1 == x2,
        y1 == y2,
{
    let i = y1 * width + x1;
    vstd::arithmetic::div_mod::lemma_fundamental_div_mod_converse(i, width, y1, x1);
    vstd::arithmetic::div_mod::lemma_fundamental_div_mod_converse(i, width, y2, x2);
}

/// Every pixel of the sequence has coordinates inside a `width` x `height`
/// grid.
pub open spec fn pts_in_bounds(pts: Seq<Pixel>, width: int, height: int) -> bool {
    forall|k: int|
        0 <= k < pts.len() ==> (#[trigger] pts[k]).x < width && pts[k].y < height
}

/// A scan position inside the grid yields in-bounds coordinates.
pub proof fn lemma_scan_pixel_in_bounds(g: Grid, m: int)
    requires
        0 <= m < g.width * g.height,
    ensures
        0 <= scan_x(g, m) < g.width,
        0 <= scan_y(g, m) < g.height,
{
    let h = g.height as int;
    let w = g.width as int;
    assert(h > 0) by (nonlinear_arith)
        requires
            0 <= m < w * h,
            h >= 0,
    ;
    vstd::arithmetic::div_mod::lemma_fundamental_div_mod(m, h);
    vstd::arithmetic::div_mod::lemma_mod_bound(m, h);
    assert(m / h >= 0) by {
        vstd::arithmetic::div_mod::lemma_div_is_ordered(0, m, h);
    }
    assert(m / h < w) by {
        if m / h >= w {
            assert(h * (m / h) >= h * w) by (nonlinear_arith)
                requires
                    m / h >= w,
                    h > 0,
            ;
            assert(w * h == h * w) by (nonlinear_arith);
        }
    }
}

/// Scan position `x * height + y` is the pixel at `(x, y)`.
pub proof fn lemma_scan_coords(g: Grid, x: int, y: int)
    requires
        0 <= x < g.width,
        0 <= y < g.height,
    ensures
        scan_x(g, x * g.height + y) == x,
        scan_y(g, x * g.height + y) == y,
        0 <= x * g.height + y < g.width * g.height,
{
    let h = g.height as int;
    let w = g.width as int;
    vstd::arithmetic::div_mod::lemma_fundamental_div_mod_converse(x * h + y, h, x, y);
    lemma_row_major_index_in_range(h, w, y, x);
    assert(w * h == h * w) by (nonlinear_arith);
}

} // verus!
