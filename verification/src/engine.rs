use vstd::prelude::*;
use crate::grid::Element;
use crate::grid::Grid;

verus! {

/// The random values one cell's transition may consume during a sweep.
#[derive(Clone, Copy, Debug, PartialEq, Eq, Structural)]
pub struct Draw {
    /// Spill direction for a blocked grain: 0 tries left, 1 tries right.
    pub d: u32,
    /// Ignition roll in 0..3: sand next to fire ignites exactly on 1.
    pub f: u32,
    /// Extinguish roll in 0..11: fire burns out exactly on 0.
    pub e: u32,
    /// Water drift roll in 0..3, read as the signed offset `wo - 1`.
    pub wo: u32,
}

/// Every draw of a sequence lies in the range its rule samples from.
pub open spec fn draws_valid(ds: Seq<Draw>) -> bool {
    forall|j: int|
        0 <= j < ds.len() ==> (#[trigger] ds[j]).d < 2 && ds[j].f < 3 && ds[j].e < 11
            && ds[j].wo < 3
}

/// `rand::rngs::StdRng` is the generator threaded through the engine; its
/// values are opaque to the verifier.
#[verifier::external_type_specification]
#[verifier::external_body]
pub struct ExStdRng(rand::rngs::StdRng);

/// Relies on `rand::Rng::gen_range` over `0..n`: it panics only on an empty
/// range and returns a value inside the range. Nothing more is assumed; in
/// particular no two calls are related.
#[verifier::external_body]
fn rand_below(rng: &mut rand::rngs::StdRng, n: u32) -> (r: u32)
    requires
        n > 0,
    ensures
        r < n,
{
    <rand::rngs::StdRng as rand::Rng>::gen_range(rng, 0..n)
}

/// The neighbour test of the ignition rule, exactly as the sweep performs it:
/// left and above are only consulted when their index is positive, right and
/// below only when inside the grid. Horizontal neighbours are taken by index,
/// so they may cross a row boundary; that quirk is part of the rule.
pub open spec fn fire_near(s: Seq<Element>, w: int, i: int) -> bool {
    ||| (i - 1 > 0 && s[i - 1] == Element::Fire)
    ||| (i + 1 < s.len() && s[i + 1] == Element::Fire)
    ||| (i - w > 0 && s[i - w] == Element::Fire)
    ||| (i + w < s.len() && s[i + w] == Element::Fire)
}

/// Rule for an empty cell: sand or water directly above falls into it.
pub open spec fn step_empty(s: Seq<Element>, w: int, i: int) -> Seq<Element> {
    if s[i - w] == Element::Sand {
        s.update(i, Element::Sand).update(i - w, Element::Empty)
    } else if s[i - w] == Element::Water {
        s.update(i, Element::Water).update(i - w, Element::Empty)
    } else {
        s
    }
}

/// Rule for a sand cell: a grain blocked directly above spills to a random
/// open side (the vacated cell is the one above), and afterwards the cell
/// ignites on a 1-in-3 roll when fire is adjacent.
pub open spec fn step_sand(s: Seq<Element>, w: int, i: int, d: u32, f: u32) -> Seq<Element> {
    let t = if s[i - w] == Element::Sand {
        if d == 0 && i - 1 > 0 {
            if s[i - 1] == Element::Empty {
                s.update(i - 1, Element::Sand).update(i - w, Element::Empty)
            } else {
                s
            }
        } else if d == 1 && i + 1 < s.len() {
            if s[i + 1] == Element::Empty {
                s.update(i + 1, Element::Sand).update(i - w, Element::Empty)
            } else {
                s
            }
        } else {
            s
        }
    } else {
        s
    };
    if f == 1 && fire_near(t, w, i) {
        t.update(i, Element::Fire)
    } else {
        t
    }
}

/// Rule for a fire cell: it burns out on a 1-in-11 roll and does nothing else.
pub open spec fn step_fire(s: Seq<Element>, i: int, e: u32) -> Seq<Element> {
    if e == 0 {
        s.update(i, Element::Empty)
    } else {
        s
    }
}

/// Rule for a water cell: water blocked directly above spills to a random
/// open side, but the vacated cell is the cell itself, not the one above —
/// the retained asymmetry with the sand rule. Afterwards the drift roll is
/// range-checked with its signed offset, yet the cell tested and filled is
/// always the left-hand one; that quirk is also retained.
pub open spec fn step_water(s: Seq<Element>, w: int, i: int, d: u32, wo: u32) -> Seq<Element> {
    let t = if s[i - w] == Element::Water {
        if d == 0 && i - 1 > 0 {
            if s[i - 1] == Element::Empty {
                s.update(i - 1, Element::Water).update(i, Element::Empty)
            } else {
                s
            }
        } else if d == 1 && i + 1 < s.len() {
            if s[i + 1] == Element::Empty {
                s.update(i + 1, Element::Water).update(i, Element::Empty)
            } else {
                s
            }
        } else {
            s
        }
    } else {
        s
    };
    let drift = wo as int - 1;
    if i + drift > 0 && i + drift < s.len() && t[i - 1] == Element::Empty {
        t.update(i - 1, Element::Water).update(i, Element::Empty)
    } else {
        t
    }
}

/// One cell of the sweep: dispatch on the cell's element. Walls and novas
/// have no rule of their own.
pub open spec fn cell_step(s: Seq<Element>, w: int, i: int, dr: Draw) -> Seq<Element> {
    match s[i] {
        Element::Empty => step_empty(s, w, i),
        Element::Wall => s,
        Element::Sand => step_sand(s, w, i, dr.d, dr.f),
        Element::Fire => step_fire(s, i, dr.e),
        Element::Water => step_water(s, w, i, dr.d, dr.wo),
        Element::Nova => s,
    }
}

/// State of the grid after the sweep has processed every index from the last
/// cell down to `lo`, bottom-up; the whole sweep is `sweep_to(s, w, w, ds)`,
/// which skips the top row.
pub open spec fn sweep_to(s: Seq<Element>, w: int, lo: int, ds: Seq<Draw>) -> Seq<Element>
    decreases s.len() - lo,
{
    if lo < 0 || lo >= s.len() {
        s
    } else {
        cell_step(sweep_to(s, w, lo + 1, ds), w, lo, ds[lo])
    }
}

/// Two draw sequences that agree on every index the sweep still has to
/// process drive it to the same state.
pub proof fn lemma_sweep_to_agree(
    s: Seq<Element>,
    w: int,
    lo: int,
    ds1: Seq<Draw>,
    ds2: Seq<Draw>,
)
    requires
        forall|j: int| lo <= j < s.len() ==> ds1[j] == ds2[j],
    ensures
        sweep_to(s, w, lo, ds1) == sweep_to(s, w, lo, ds2),
    decreases s.len() - lo,
{
    if 0 <= lo < s.len() {
        lemma_sweep_to_agree(s, w, lo + 1, ds1, ds2);
    }
}

impl Grid {
    /// Apply the transition rule of one cell, with its random draws passed in
    /// as plain values; `sweep` feeds it freshly drawn ones.
    #[verifier::rlimit(60)]
    pub fn step_cell(&mut self, i: usize, d: u32, f: u32, e: u32, wo: u32)
        requires
            old(self).wf(),
            old(self).width <= i < old(self).cells@.len(),
            d < 2,
            f < 3,
            e < 11,
            wo < 3,
        ensures
            final(self).wf(),
            final(self).width == old(self).width,
            final(self).height == old(self).height,
            final(self).cells@ == cell_step(
                old(self).cells@,
                old(self).width as int,
                i as int,
                Draw { d, f, e, wo },
            ),
    {
        let w = self.width as usize;
        let len = self.cells.len();
        let above = i - w;
        proof {
            // a cell exists at i, so the grid is at least one column wide
            if self.width == 0 {
                assert(self.cells@.len() == 0);
            }
        }
        let cur = self.cells[i];
        match cur {
            Element::Empty => {
                let ab = self.cells[above];
                if ab == Element::Sand {
                    self.cells.set(i, Element::Sand);
                    self.cells.set(above, Element::Empty);
                } else if ab == Element::Water {
                    self.cells.set(i, Element::Water);
                    self.cells.set(above, Element::Empty);
                }
            }
            Element::Wall => {}
            Element::Sand => {
                if self.cells[above] == Element::Sand {
                    if d == 0 && i > 1 {
                        if self.cells[i - 1] == Element::Empty {
                            self.cells.set(i - 1, Element::Sand);
                            self.cells.set(above, Element::Empty);
                        }
                    } else if d == 1 && i + 1 < len {
                        if self.cells[i + 1] == Element::Empty {
                            self.cells.set(i + 1, Element::Sand);
                            self.cells.set(above, Element::Empty);
                        }
                    }
                }
                if f == 1 {
                    let mut near = false;
                    if i > 1 && self.cells[i - 1] == Element::Fire {
                        near = true;
                    }
                    if i + 1 < len && self.cells[i + 1] == Element::Fire {
                        near = true;
                    }
                    if above > 0 && self.cells[above] == Element::Fire {
                        near = true;
                    }
                    if w < len - i && self.cells[i + w] == Element::Fire {
                        near = true;
                    }
                    if near {
                        self.cells.set(i, Element::Fire);
                    }
                }
            }
            Element::Fire => {
                if e == 0 {
                    self.cells.set(i, Element::Empty);
                }
            }
            Element::Water => {
                if self.cells[above] == Element::Water {
                    if d == 0 && i > 1 {
                        if self.cells[i - 1] == Element::Empty {
                            self.cells.set(i - 1, Element::Water);
                            self.cells.set(i, Element::Empty);
                        }
                    } else if d == 1 && i + 1 < len {
                        if self.cells[i + 1] == Element::Empty {
                            self.cells.set(i + 1, Element::Water);
                            self.cells.set(i, Element::Empty);
                        }
                    }
                }
                let in_low = if wo == 0 { i > 1 } else { true };
                let in_high = if wo == 2 { i + 1 < len } else { true };
                if in_low && in_high {
                    if self.cells[i - 1] == Element::Empty {
                        self.cells.set(i - 1, Element::Water);
                        self.cells.set(i, Element::Empty);
                    }
                }
            }
            Element::Nova => {}
        }
    }

    /// One full bottom-up pass of the automaton over every cell below the top
    /// row. The pass is deterministic up to the draws it consumes, so the
    /// contract names them: the new state is `sweep_to` of the old one under
    /// some in-range draw sequence.
    pub fn sweep(&mut self, rng: &mut rand::rngs::StdRng)
        requires
            old(self).wf(),
        ensures
            final(self).wf(),
            final(self).width == old(self).width,
            final(self).height == old(self).height,
            exists|ds: Seq<Draw>|
                #[trigger] draws_valid(ds) && ds.len() == old(self).cells@.len() && final(self).cells@ == sweep_to(
                    old(self).cells@,
                    old(self).width as int,
                    old(self).width as int,
                    ds,
                ),
    {
        let w = self.width as usize;
        let len = self.cells.len();
        let ghost s0 = self.cells@;
        let ghost mut ds: Seq<Draw> = Seq::new(s0.len(), |j: int| Draw { d: 0, f: 0, e: 0, wo: 0 });
        let mut i: usize = if len > w {
            len
        } else {
            w
        };
        while i > w
            invariant
                self.wf(),
                self.width == old(self).width,
                self.height == old(self).height,
                w == old(self).width as usize,
                s0 == old(self).cells@,
                len == s0.len(),
                self.cells@.len() == s0.len(),
                w <= i <= if len > w { len as int } else { w as int },
                ds.len() == s0.len(),
                draws_valid(ds),
                self.cells@ == sweep_to(s0, w as int, i as int, ds),
            decreases i,
        {
            i = i - 1;
            let d = rand_below(rng, 2);
            let f = rand_below(rng, 3);
            let e = rand_below(rng, 11);
            let wo = rand_below(rng, 3);
            let ghost old_ds = ds;
            proof {
                ds = ds.update(i as int, Draw { d, f, e, wo });
            }
            self.step_cell(i, d, f, e, wo);
            proof {
                lemma_sweep_to_agree(s0, w as int, i as int + 1, old_ds, ds);
            }
        }
        proof {
            // name the witness for the contract's draw sequence
            assert(draws_valid(ds) && ds.len() == s0.len() && self.cells@ == sweep_to(
                s0,
                w as int,
                w as int,
                ds,
            ));
        }
    }

    /// The grid after three top-row cells have been overwritten with sand.
    pub open spec fn seeded3(s: Seq<Element>, a: int, b: int, c: int) -> Seq<Element> {
        s.update(a, Element::Sand).update(b, Element::Sand).update(c, Element::Sand)
    }

    /// The sand source: overwrite three pseudo-random cells of the top row
    /// with sand, whatever they held before. A grid with no cells is left
    /// alone.
    pub fn seed_sand(&mut self, rng: &mut rand::rngs::StdRng)
        requires
            old(self).wf(),
        ensures
            final(self).wf(),
            final(self).width == old(self).width,
            final(self).height == old(self).height,
            old(self).width > 0 && old(self).height > 0 ==> exists|a: int, b: int, c: int|
                0 <= a < old(self).width && 0 <= b < old(self).width && 0 <= c < old(self).width
                    && final(self).cells@ == #[trigger] Self::seeded3(old(self).cells@, a, b, c),
            !(old(self).width > 0 && old(self).height > 0) ==> final(self).cells@ == old(self).cells@,
    {
        if self.width > 0 && self.height > 0 {
            proof {
                assert((self.width as int) * 1 <= (self.width as int) * (self.height as int))
                    by (nonlinear_arith)
                    requires
                        self.width >= 0,
                        self.height >= 1,
                ;
            }
            let a = rand_below(rng, self.width);
            let b = rand_below(rng, self.width);
            let c = rand_below(rng, self.width);
            self.cells.set(a as usize, Element::Sand);
            self.cells.set(b as usize, Element::Sand);
            self.cells.set(c as usize, Element::Sand);
            proof {
                assert(self.cells@ == Self::seeded3(
                    old(self).cells@,
                    a as int,
                    b as int,
                    c as int,
                ));
            }
        }
    }

    /// Advance the simulation by one frame: run the sand source, then one
    /// bottom-up sweep over the result.
    pub fn advance_tick(&mut self, rng: &mut rand::rngs::StdRng)
        requires
            old(self).wf(),
        ensures
            final(self).wf(),
            final(self).width == old(self).width,
            final(self).height == old(self).height,
            old(self).width > 0 && old(self).height > 0 ==> exists|
                a: int,
                b: int,
                c: int,
                ds: Seq<Draw>,
            |
                0 <= a < old(self).width && 0 <= b < old(self).width && 0 <= c < old(self).width
                    && draws_valid(ds) && ds.len() == old(self).cells@.len() && final(self).cells@
                    == #[trigger] sweep_to(
                    Self::seeded3(old(self).cells@, a, b, c),
                    old(self).width as int,
                    old(self).width as int,
                    ds,
                ),
            !(old(self).width > 0 && old(self).height > 0) ==> final(self).cells@ == old(self).cells@,
    {
        let ghost s0 = self.cells@;
        let ghost w0 = self.width;
        let ghost h0 = self.height;
        self.seed_sand(rng);
        let ghost mid = self.cells@;
        self.sweep(rng);
        proof {
            if w0 > 0 && h0 > 0 {
                let (a, b, c): (int, int, int) = choose|a: int, b: int, c: int|
                    0 <= a < w0 && 0 <= b < w0 && 0 <= c < w0 && mid == #[trigger] Self::seeded3(
                        s0,
                        a,
                        b,
                        c,
                    );
                let ds: Seq<Draw> = choose|ds: Seq<Draw>|
                    #[trigger] draws_valid(ds) && ds.len() == mid.len() && self.cells@ == sweep_to(
                        mid,
                        w0 as int,
                        w0 as int,
                        ds,
                    );
                assert(0 <= a < w0 && 0 <= b < w0 && 0 <= c < w0 && draws_valid(ds) && ds.len()
                    == s0.len() && self.cells@ == sweep_to(
                    Self::seeded3(s0, a, b, c),
                    w0 as int,
                    w0 as int,
                    ds,
                ));
            } else {
                let ds: Seq<Draw> = choose|ds: Seq<Draw>|
                    #[trigger] draws_valid(ds) && ds.len() == mid.len() && self.cells@ == sweep_to(
                        mid,
                        w0 as int,
                        w0 as int,
                        ds,
                    );
                assert(mid.len() == w0 as int * h0 as int);
                assert(w0 as int * h0 as int == 0) by (nonlinear_arith)
                    requires
                        w0 == 0 || h0 == 0,
                ;
                assert(mid.len() == 0);
                assert(sweep_to(mid, w0 as int, w0 as int, ds) == mid);
                assert(self.cells@ == old(self).cells@);
            }
        }
    }
}

} // verus!
