use vstd::prelude::*;

verus! {

/// The particle kinds a cell can hold.
///
/// `Nova` is a reserved tag: it has no transition rule of its own, the engine
/// never produces it, and the rasterizer maps it to a sentinel color rather
/// than failing.
#[derive(Clone, Copy, Debug, PartialEq, Eq, Structural)]
pub enum Element {
    Empty,
    Wall,
    Sand,
    Fire,
    Water,
    Nova,
}

/// The two ways a caller-supplied argument can be rejected.
#[derive(Clone, Copy, Debug, PartialEq, Eq, Structural)]
pub enum GridError {
    OutOfBounds,
    BufferSizeMismatch,
}

/// A fixed-size 2D field of elements, stored row-major: cell (x, y) lives at
/// index `x + y * width`.
pub struct Grid {
    pub width: u32,
    pub height: u32,
    pub cells: Vec<Element>,
}

/// Row-major position of coordinates inside the cell vector.
pub proof fn lemma_row_major_in_bounds(x: int, y: int, w: int, h: int)
    requires
        0 <= x < w,
        0 <= y < h,
    ensures
        0 <= x + y * w < w * h,
        y * w <= w * h,
{
    assert(0 <= x + y * w < w * h && y * w <= w * h) by (nonlinear_arith)
        requires
            0 <= x < w,
            0 <= y < h,
    ;
}

impl Grid {
    /// The one structural invariant: the backing vector holds exactly
    /// `width * height` cells.
    pub open spec fn wf(self) -> bool {
        self.cells@.len() == (self.width as int) * (self.height as int)
    }

    /// Number of cells.
    pub open spec fn len(self) -> int {
        self.cells@.len() as int
    }

    /// Row-major index of coordinates (x, y).
    pub open spec fn idx(self, x: int, y: int) -> int {
        x + y * (self.width as int)
    }

    /// Build a grid with every cell empty.
    pub fn new(width: u32, height: u32) -> (g: Grid)
        requires
            (width as int) * (height as int) <= usize::MAX,
        ensures
            g.wf(),
            g.width == width,
            g.height == height,
            forall|j: int| 0 <= j < g.len() ==> g.cells@[j] == Element::Empty,
    {
        proof {
            assert((width as int) * (height as int) >= 0) by (nonlinear_arith);
        }
        let n: usize = (width as usize) * (height as usize);
        let mut cells: Vec<Element> = Vec::new();
        let mut k: usize = 0;
        while k < n
            invariant
                k <= n,
                cells@.len() == k,
                forall|j: int| 0 <= j < k ==> cells@[j] == Element::Empty,
            decreases n - k,
        {
            cells.push(Element::Empty);
            k = k + 1;
        }
        Grid { width, height, cells }
    }

    /// Number of columns.
    pub fn width(&self) -> (w: u32)
        ensures
            w == self.width,
    {
        self.width
    }

    /// Number of rows.
    pub fn height(&self) -> (h: u32)
        ensures
            h == self.height,
    {
        self.height
    }

    /// Read the element at (x, y); rejects out-of-range coordinates.
    pub fn get_cell(&self, x: u32, y: u32) -> (r: Result<Element, GridError>)
        requires
            self.wf(),
        ensures
            x < self.width && y < self.height ==> r == Ok::<Element, GridError>(
                self.cells@[self.idx(x as int, y as int)],
            ),
            !(x < self.width && y < self.height) ==> r == Err::<Element, GridError>(
                GridError::OutOfBounds,
            ),
    {
        if x < self.width && y < self.height {
            let n: usize = self.cells.len();
            proof {
                lemma_row_major_in_bounds(
                    x as int,
                    y as int,
                    self.width as int,
                    self.height as int,
                );
            }
            let i: usize = (x as usize) + (y as usize) * (self.width as usize);
            Ok(self.cells[i])
        } else {
            Err(GridError::OutOfBounds)
        }
    }

    /// Overwrite the element at (x, y); rejects out-of-range coordinates.
    pub fn set_cell(&mut self, x: u32, y: u32, e: Element) -> (r: Result<(), GridError>)
        requires
            old(self).wf(),
        ensures
            final(self).wf(),
            final(self).width == old(self).width,
            final(self).height == old(self).height,
            x < old(self).width && y < old(self).height ==> r == Ok::<(), GridError>(())
                && final(self).cells@ == old(self).cells@.update(
                old(self).idx(x as int, y as int),
                e,
            ),
            !(x < old(self).width && y < old(self).height) ==> r == Err::<(), GridError>(
                GridError::OutOfBounds,
            ) && *final(self) == *old(self),
    {
        if x < self.width && y < self.height {
            let n: usize = self.cells.len();
            proof {
                lemma_row_major_in_bounds(
                    x as int,
                    y as int,
                    self.width as int,
                    self.height as int,
                );
            }
            let i: usize = (x as usize) + (y as usize) * (self.width as usize);
            self.cells.set(i, e);
            Ok(())
        } else {
            Err(GridError::OutOfBounds)
        }
    }

    /// Write `e` into every cell the brush covers: for each offset below
    /// `radius`, the pair of cells at `center +/- offset`, written together
    /// and only when both guards pass. Out-of-range strokes are skipped, not
    /// clamped; in particular cell 0 is never brushed, a retained quirk of
    /// the stroke guard.
    pub fn paint(&mut self, center: usize, radius: u32, e: Element)
        requires
            old(self).wf(),
        ensures
            final(self).wf(),
            final(self).width == old(self).width,
            final(self).height == old(self).height,
            final(self).cells@ == brushed(old(self).cells@, center as int, radius as int, e),
    {
        let len = self.cells.len();
        let mut k: u32 = 0;
        while k < radius
            invariant
                self.wf(),
                self.width == old(self).width,
                self.height == old(self).height,
                len == old(self).cells@.len(),
                self.cells@.len() == len,
                k <= radius,
                self.cells@ == brushed(old(self).cells@, center as int, k as int, e),
            decreases radius - k,
        {
            let k_us = k as usize;
            if k_us < center && center < len && k_us < len - center {
                self.cells.set(center + k_us, e);
                self.cells.set(center - k_us, e);
            }
            k = k + 1;
        }
    }

    /// Clear every cell the brush covers, with the same stroke shape as
    /// `paint`.
    pub fn erase(&mut self, center: usize, radius: u32)
        requires
            old(self).wf(),
        ensures
            final(self).wf(),
            final(self).width == old(self).width,
            final(self).height == old(self).height,
            final(self).cells@ == brushed(
                old(self).cells@,
                center as int,
                radius as int,
                Element::Empty,
            ),
    {
        self.paint(center, radius, Element::Empty)
    }
}

/// The grid after a brush stroke of the given radius: offsets grow from 0,
/// and each in-range pair `c + k`, `c - k` is overwritten with `e`.
pub open spec fn brushed(s: Seq<Element>, c: int, r: int, e: Element) -> Seq<Element>
    decreases r,
{
    if r <= 0 {
        s
    } else {
        let t = brushed(s, c, r - 1, e);
        if c - (r - 1) > 0 && c + (r - 1) < s.len() {
            t.update(c + (r - 1), e).update(c - (r - 1), e)
        } else {
            t
        }
    }
}

/// Whether the stroke arm of offset `k` at centre `c` passes its guards and
/// lands on cell `j`.
pub open spec fn brush_hits(j: int, c: int, k: int, len: int) -> bool {
    c - k > 0 && c + k < len && (j == c + k || j == c - k)
}

/// Whether a brush stroke at `c` with the given radius covers cell `j`.
pub open spec fn in_brush(j: int, c: int, r: int, len: int) -> bool {
    exists|k: int| 0 <= k < r && #[trigger] brush_hits(j, c, k, len)
}

/// A brush stroke writes `e` exactly on the cells it covers and nothing else.
pub proof fn lemma_brushed_covers(s: Seq<Element>, c: int, r: int, e: Element)
    ensures
        brushed(s, c, r, e).len() == s.len(),
        forall|j: int|
            0 <= j < s.len() ==> brushed(s, c, r, e)[j] == if in_brush(j, c, r, s.len() as int) {
                e
            } else {
                s[j]
            },
    decreases r,
{
    if r <= 0 {
        assert(forall|j: int| 0 <= j < s.len() ==> !in_brush(j, c, r, s.len() as int));
    } else {
        lemma_brushed_covers(s, c, r - 1, e);
        let t = brushed(s, c, r - 1, e);
        assert forall|j: int| 0 <= j < s.len() implies brushed(s, c, r, e)[j] == if in_brush(
            j,
            c,
            r,
            s.len() as int,
        ) {
            e
        } else {
            s[j]
        } by {
            if c - (r - 1) > 0 && c + (r - 1) < s.len() && (j == c + (r - 1) || j == c - (r - 1)) {
                assert(brush_hits(j, c, r - 1, s.len() as int));
                assert(in_brush(j, c, r, s.len() as int));
            } else {
                if in_brush(j, c, r, s.len() as int) {
                    let k = choose|k: int| 0 <= k < r && #[trigger] brush_hits(j, c, k, s.len() as int);
                    assert(k < r - 1);
                    assert(in_brush(j, c, r - 1, s.len() as int));
                } else {
                    assert(!in_brush(j, c, r - 1, s.len() as int)) by {
                        if in_brush(j, c, r - 1, s.len() as int) {
                            let k = choose|k: int|
                                0 <= k < r - 1 && #[trigger] brush_hits(j, c, k, s.len() as int);
                            assert(0 <= k < r && brush_hits(j, c, k, s.len() as int));
                        }
                    }
                }
            }
        }
    }
}

/// Law: painting a stroke and erasing the same stroke leaves every covered
/// cell empty and every other cell exactly as it was.
pub proof fn lemma_paint_then_erase(s: Seq<Element>, c: int, r: int, e: Element)
    ensures
        forall|j: int|
            0 <= j < s.len() ==> brushed(brushed(s, c, r, e), c, r, Element::Empty)[j] == if in_brush(
                j,
                c,
                r,
                s.len() as int,
            ) {
                Element::Empty
            } else {
                s[j]
            },
{
    lemma_brushed_covers(s, c, r, e);
    lemma_brushed_covers(brushed(s, c, r, e), c, r, Element::Empty);
}

} // verus!
