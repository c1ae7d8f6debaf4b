//! A fixed-size grid of colour cells plus a parallel depth grid, filled
//! through depth-gated writes.
//!
//! A depth of `0` is the "unwritten this frame" sentinel, not a distance;
//! the camera only ever writes depths of at least 1 raw unit, so the
//! sentinel can never collide with a real depth.

use vstd::prelude::*;

verus! {

/// An 8-bit RGB colour triple.
#[derive(Clone, Copy, PartialEq, Eq, Structural, Debug)]
pub struct Color {
    pub r: u8,
    pub g: u8,
    pub b: u8,
}

/// The colour every cell holds after a clear.
pub open spec fn black() -> Color {
    Color { r: 0, g: 0, b: 0 }
}

/// Row-major cell index.
pub open spec fn pix_index(width: int, x: int, y: int) -> int {
    y * width + x
}

/// Functional specification of the depth-gated write: out-of-grid writes are
/// dropped, and a cell already holding a nonzero depth nearer than the
/// incoming one rejects the write; otherwise colour and depth are replaced.
/// Nearest wins, not last-write-wins.
pub open spec fn write_s(
    colors: Seq<Color>,
    depths: Seq<u64>,
    width: int,
    height: int,
    x: int,
    y: int,
    c: Color,
    d: u64,
) -> (Seq<Color>, Seq<u64>) {
    if 0 <= x < width && 0 <= y < height {
        let i = pix_index(width, x, y);
        if depths[i] != 0 && depths[i] < d {
            (colors, depths)
        } else {
            (colors.update(i, c), depths.update(i, d))
        }
    } else {
        (colors, depths)
    }
}

/// A `width x height` grid of colour triples with a parallel grid of raw
/// fixed-point depths, both row-major.
pub struct FrameBuffer {
    pub width: usize,
    pub height: usize,
    pub colors: Vec<Color>,
    pub depths: Vec<u64>,
}

impl FrameBuffer {
    /// Both grids cover exactly `width x height` cells, and the dimensions
    /// are small enough that every cell index fits comfortably in a `usize`.
    pub open spec fn wf(self) -> bool {
        &&& self.colors@.len() == self.width * self.height
        &&& self.depths@.len() == self.width * self.height
        &&& 1 <= self.width <= 0xffff
        &&& 1 <= self.height <= 0xffff
    }

    /// Every cell is black with the zero depth sentinel.
    pub open spec fn all_clear(self) -> bool {
        &&& forall|i: int| 0 <= i < self.colors@.len() ==> self.colors@[i] == black()
        &&& forall|i: int| 0 <= i < self.depths@.len() ==> self.depths@[i] == 0
    }

    /// Allocate a cleared buffer. The output-surface size comes from the
    /// host, one cell per character; a terminal dimension fits in 16 bits.
    pub fn new(width: usize, height: usize) -> (fb: FrameBuffer)
        requires
            1 <= width <= 0xffff,
            1 <= height <= 0xffff,
        ensures
            fb.wf(),
            fb.width == width,
            fb.height == height,
            fb.all_clear(),
    {
        proof {
            assert(width * height <= 0xffff * 0xffff) by (nonlinear_arith)
                requires
                    width <= 0xffff,
                    height <= 0xffff,
            {
            }
        }
        let n: usize = width * height;
        let mut colors: Vec<Color> = Vec::new();
        let mut depths: Vec<u64> = Vec::new();
        let mut i: usize = 0;
        while i < n
            invariant
                i <= n,
                colors@.len() == i,
                depths@.len() == i,
                forall|j: int| 0 <= j < i ==> colors@[j] == black(),
                forall|j: int| 0 <= j < i ==> depths@[j] == 0,
            decreases n - i,
        {
            colors.push(Color { r: 0, g: 0, b: 0 });
            depths.push(0);
            i += 1;
        }
        FrameBuffer { width, height, colors, depths }
    }

    pub fn width(&self) -> (w: usize)
        ensures
            w == self.width,
    {
        self.width
    }

    pub fn height(&self) -> (h: usize)
        ensures
            h == self.height,
    {
        self.height
    }

    /// Reset every colour cell to black and every depth cell to the zero
    /// sentinel, keeping the allocation.
    pub fn clear(&mut self)
        requires
            old(self).wf(),
        ensures
            final(self).wf(),
            final(self).width == old(self).width,
            final(self).height == old(self).height,
            final(self).all_clear(),
    {
        let n = self.colors.len();
        let mut i: usize = 0;
        while i < n
            invariant
                i <= n,
                n == self.colors@.len(),
                self.width == old(self).width,
                self.height == old(self).height,
                self.depths@ == old(self).depths@,
                self.wf(),
                forall|j: int| 0 <= j < i ==> self.colors@[j] == black(),
            decreases n - i,
        {
            self.colors[i] = Color { r: 0, g: 0, b: 0 };
            i += 1;
        }
        let n = self.depths.len();
        let mut i: usize = 0;
        while i < n
            invariant
                i <= n,
                n == self.depths@.len(),
                self.width == old(self).width,
                self.height == old(self).height,
                self.wf(),
                forall|j: int| 0 <= j < self.colors@.len() ==> self.colors@[j] == black(),
                forall|j: int| 0 <= j < i ==> self.depths@[j] == 0,
            decreases n - i,
        {
            self.depths[i] = 0;
            i += 1;
        }
    }

    /// Depth-gated write of one cell: see `write_s`. An `(x, y)` outside the
    /// grid is silently dropped, as frustum-edge rounding demands.
    pub fn write(&mut self, x: usize, y: usize, color: Color, depth: u64)
        requires
            old(self).wf(),
        ensures
            final(self).wf(),
            final(self).width == old(self).width,
            final(self).height == old(self).height,
            (final(self).colors@, final(self).depths@) == write_s(
                old(self).colors@,
                old(self).depths@,
                old(self).width as int,
                old(self).height as int,
                x as int,
                y as int,
                color,
                depth,
            ),
    {
        if x >= self.width || y >= self.height {
            return ;
        }
        proof {
            lemma_pix_index_in_grid(self.width as int, self.height as int, x as int, y as int);
        }
        let i: usize = y * self.width + x;
        let cur: u64 = self.depths[i];
        if cur != 0 && cur < depth {
            return ;
        }
        self.depths[i] = depth;
        self.colors[i] = color;
    }

    /// The colour at one cell.
    pub fn color_at(&self, x: usize, y: usize) -> (c: Color)
        requires
            self.wf(),
            x < self.width,
            y < self.height,
        ensures
            c == self.colors@[pix_index(self.width as int, x as int, y as int)],
    {
        proof {
            lemma_pix_index_in_grid(self.width as int, self.height as int, x as int, y as int);
        }
        self.colors[y * self.width + x]
    }

    /// The raw depth at one cell; 0 means the cell is unwritten.
    pub fn depth_at(&self, x: usize, y: usize) -> (d: u64)
        requires
            self.wf(),
            x < self.width,
            y < self.height,
        ensures
            d == self.depths@[pix_index(self.width as int, x as int, y as int)],
    {
        proof {
            lemma_pix_index_in_grid(self.width as int, self.height as int, x as int, y as int);
        }
        self.depths[y * self.width + x]
    }
}

/// Nearest wins, in both orders: on a cell that is unwritten this frame,
/// however two writes with nonzero depths are ordered, the nearer one's
/// colour and depth are what the cell holds afterwards — an earlier nearer
/// write rejects the far one, and a later nearer write overwrites it.
pub proof fn lemma_nearest_wins(
    colors: Seq<Color>,
    depths: Seq<u64>,
    w: int,
    h: int,
    x: int,
    y: int,
    near: Color,
    dn: u64,
    far: Color,
    df: u64,
)
    requires
        0 <= x < w,
        0 <= y < h,
        colors.len() == w * h,
        depths.len() == w * h,
        depths[pix_index(w, x, y)] == 0,
        0 < dn < df,
    ensures
        ({
            let first = write_s(colors, depths, w, h, x, y, near, dn);
            let second = write_s(first.0, first.1, w, h, x, y, far, df);
            second.0[pix_index(w, x, y)] == near && second.1[pix_index(w, x, y)] == dn
        }),
        ({
            let first = write_s(colors, depths, w, h, x, y, far, df);
            let second = write_s(first.0, first.1, w, h, x, y, near, dn);
            second.0[pix_index(w, x, y)] == near && second.1[pix_index(w, x, y)] == dn
        }),
{
    assert(0 <= y * w + x < w * h) by (nonlinear_arith)
        requires
            0 <= x < w,
            0 <= y < h,
    {
        assert(y * w <= (h - 1) * w);
    }
    let i = pix_index(w, x, y);
    let first = write_s(colors, depths, w, h, x, y, near, dn);
    assert(first.1 == depths.update(i, dn));
    assert(first.1[i] == dn);
    let firstf = write_s(colors, depths, w, h, x, y, far, df);
    assert(firstf.1 == depths.update(i, df));
    assert(firstf.1[i] == df);
    let secondn = write_s(firstf.0, firstf.1, w, h, x, y, near, dn);
    assert(secondn.0 == firstf.0.update(i, near));
}

/// A cell inside the grid has its row-major index inside the grid's area.
pub proof fn lemma_pix_index_in_grid(width: int, height: int, x: int, y: int)
    requires
        0 <= x < width <= 0xffff,
        0 <= y < height <= 0xffff,
    ensures
        0 <= pix_index(width, x, y) < width * height,
        pix_index(width, x, y) < 0xffff_ffff,
{
    assert(0 <= y * width + x < width * height && y * width + x < 0xffff_ffff)
        by (nonlinear_arith)
        requires
            0 <= x < width <= 0xffff,
            0 <= y < height <= 0xffff,
    {
        assert(y * width <= (height - 1) * width);
        assert((height - 1) * width <= 0xfffe * 0xffff);
    }
}

} // verus!
