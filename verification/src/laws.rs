use vstd::prelude::*;
use crate::grid::Element;
use crate::engine::Draw;
use crate::engine::cell_step;
use crate::engine::sweep_to;
use crate::engine::fire_near;
use crate::grid::Grid;

verus! {

/// Everything one cell step can touch and how: only the cell itself, its two
/// horizontal index neighbours and the cell above change; a horizontal
/// neighbour is only overwritten with falling matter when it was empty and
/// the stepped cell held sand or water; the cell above is only ever vacated;
/// and each element can leave the stepped cell only along its own rule.
pub proof fn lemma_cell_step_effects(s: Seq<Element>, w: int, i: int, dr: Draw)
    requires
        1 <= w <= i < s.len(),
    ensures
        cell_step(s, w, i, dr).len() == s.len(),
        forall|j: int|
            0 <= j < s.len() && #[trigger] cell_step(s, w, i, dr)[j] != s[j] ==> j == i || ((j == i
                - 1 || j == i + 1) && s[j] == Element::Empty && (s[i] == Element::Sand || s[i]
                == Element::Water) && (cell_step(s, w, i, dr)[j] == Element::Sand || cell_step(
                s,
                w,
                i,
                dr,
            )[j] == Element::Water)) || (j == i - w && (s[j] == Element::Sand || s[j]
                == Element::Water) && cell_step(s, w, i, dr)[j] == Element::Empty),
        s[i] == Element::Empty ==> cell_step(s, w, i, dr)[i] == Element::Empty || cell_step(
            s,
            w,
            i,
            dr,
        )[i] == Element::Sand || cell_step(s, w, i, dr)[i] == Element::Water,
        s[i] == Element::Sand ==> cell_step(s, w, i, dr)[i] == Element::Sand || cell_step(
            s,
            w,
            i,
            dr,
        )[i] == Element::Fire,
        s[i] == Element::Fire ==> cell_step(s, w, i, dr)[i] == Element::Fire || cell_step(
            s,
            w,
            i,
            dr,
        )[i] == Element::Empty,
        s[i] == Element::Water ==> cell_step(s, w, i, dr)[i] == Element::Water || cell_step(
            s,
            w,
            i,
            dr,
        )[i] == Element::Empty,
        s[i] == Element::Wall ==> cell_step(s, w, i, dr)[i] == Element::Wall,
        s[i] == Element::Nova ==> cell_step(s, w, i, dr)[i] == Element::Nova,
{
}

/// Law: walls and novas are immutable under the sweep — every wall cell is
/// still a wall afterwards, every nova still a nova — and the sweep never
/// creates either, nor does it change the number of cells.
pub proof fn lemma_sweep_preserves_solids(s: Seq<Element>, w: int, lo: int, ds: Seq<Draw>)
    requires
        1 <= w <= lo,
    ensures
        sweep_to(s, w, lo, ds).len() == s.len(),
        forall|j: int|
            0 <= j < s.len() ==> ((#[trigger] sweep_to(s, w, lo, ds)[j] == Element::Wall) <==> s[j]
                == Element::Wall),
        forall|j: int|
            0 <= j < s.len() ==> ((#[trigger] sweep_to(s, w, lo, ds)[j] == Element::Nova) <==> s[j]
                == Element::Nova),
    decreases s.len() - lo,
{
    if lo < s.len() {
        lemma_sweep_preserves_solids(s, w, lo + 1, ds);
        let t = sweep_to(s, w, lo + 1, ds);
        lemma_cell_step_effects(t, w, lo, ds[lo]);
        let r = sweep_to(s, w, lo, ds);
        assert forall|j: int| 0 <= j < s.len() implies ((r[j] == Element::Wall) <==> s[j]
            == Element::Wall) && ((r[j] == Element::Nova) <==> s[j] == Element::Nova) by {
            assert(r[j] == cell_step(t, w, lo, ds[lo])[j]);
            if r[j] != t[j] {
            }
        }
    }
}

/// The inductive core of the pure-fall law, tracking the sweep as it passes
/// the landing cell `p + w` and then the vacated cell `p`.
proof fn lemma_lone_sand_rec(s: Seq<Element>, w: int, p: int, ds: Seq<Draw>, lo: int)
    requires
        1 <= w <= lo <= s.len(),
        0 <= p < s.len(),
        p + w < s.len(),
        s[p] == Element::Sand,
        forall|j: int| 0 <= j < s.len() && j != p ==> s[j] == Element::Empty,
    ensures
        lo > p + w ==> sweep_to(s, w, lo, ds) == s,
        lo <= p + w ==> sweep_to(s, w, lo, ds) == s.update(p, Element::Empty).update(
            p + w,
            Element::Sand,
        ),
    decreases s.len() - lo,
{
    let moved = s.update(p, Element::Empty).update(p + w, Element::Sand);
    if lo < s.len() {
        lemma_lone_sand_rec(s, w, p, ds, lo + 1);
        let t = sweep_to(s, w, lo + 1, ds);
        let r = cell_step(t, w, lo, ds[lo]);
        if lo > p + w {
            assert(s[lo] == Element::Empty);
            assert(s[lo - w] == Element::Empty);
            assert(r == s);
        } else if lo == p + w {
            assert(s[lo] == Element::Empty);
            assert(r == s.update(lo, Element::Sand).update(lo - w, Element::Empty));
            assert(r =~= moved);
        } else {
            assert(moved[lo] == Element::Empty);
            assert(moved[lo - w] == Element::Empty);
            assert(r == moved);
        }
    }
}

/// Law (conservation under pure fall): on a grid holding a single grain of
/// sand with a free cell below it and nothing else, one sweep moves the
/// grain down exactly one row and touches nothing else, whatever was drawn.
pub proof fn lemma_lone_sand_falls(s: Seq<Element>, w: int, p: int, ds: Seq<Draw>)
    requires
        1 <= w,
        0 <= p < s.len(),
        p + w < s.len(),
        s[p] == Element::Sand,
        forall|j: int| 0 <= j < s.len() && j != p ==> s[j] == Element::Empty,
    ensures
        sweep_to(s, w, w, ds) == s.update(p, Element::Empty).update(p + w, Element::Sand),
{
    lemma_lone_sand_rec(s, w, p, ds, w);
}

/// Law (pure fall, floor case): a single grain of sand with no row below it
/// stays where it is, whatever was drawn.
pub proof fn lemma_lone_sand_rests(s: Seq<Element>, w: int, p: int, ds: Seq<Draw>)
    requires
        1 <= w <= s.len(),
        0 <= p < s.len(),
        p + w >= s.len(),
        s[p] == Element::Sand,
        forall|j: int| 0 <= j < s.len() && j != p ==> s[j] == Element::Empty,
    ensures
        sweep_to(s, w, w, ds) == s,
{
    lemma_lone_rest_rec(s, w, p, ds, w);
}

proof fn lemma_lone_rest_rec(s: Seq<Element>, w: int, p: int, ds: Seq<Draw>, lo: int)
    requires
        1 <= w <= lo <= s.len(),
        0 <= p < s.len(),
        p + w >= s.len(),
        s[p] == Element::Sand,
        forall|j: int| 0 <= j < s.len() && j != p ==> s[j] == Element::Empty,
    ensures
        sweep_to(s, w, lo, ds) == s,
    decreases s.len() - lo,
{
    if lo < s.len() {
        lemma_lone_rest_rec(s, w, p, ds, lo + 1);
        let r = cell_step(s, w, lo, ds[lo]);
        if lo == p {
            assert(s[lo - w] == Element::Empty);
            assert(!fire_near(s, w, lo));
            assert(r == s);
        } else {
            assert(s[lo] == Element::Empty);
            assert(s[lo - w] == Element::Empty);
            assert(r == s);
        }
    }
}

/// The inductive core of the fire-decay law: until its own step, a fire cell
/// stays fire; at its own step it follows the fire rule; afterwards nothing
/// can fall or spill into it as long as its left-hand neighbour brought
/// neither sand nor water to the sweep.
proof fn lemma_fire_rec(s: Seq<Element>, w: int, ds: Seq<Draw>, j: int, lo: int)
    requires
        1 <= w <= j < s.len(),
        w <= lo <= s.len(),
        s[j] == Element::Fire,
        s[j - 1] != Element::Sand && s[j - 1] != Element::Water,
    ensures
        sweep_to(s, w, lo, ds).len() == s.len(),
        sweep_to(s, w, lo, ds)[j] == Element::Fire || sweep_to(s, w, lo, ds)[j] == Element::Empty,
        lo > j ==> sweep_to(s, w, lo, ds)[j] == Element::Fire,
        lo >= j ==> (sweep_to(s, w, lo, ds)[j - 1] != Element::Sand && sweep_to(s, w, lo, ds)[j - 1]
            != Element::Water),
    decreases s.len() - lo,
{
    if lo < s.len() {
        lemma_fire_rec(s, w, ds, j, lo + 1);
        let t = sweep_to(s, w, lo + 1, ds);
        lemma_cell_step_effects(t, w, lo, ds[lo]);
        let r = cell_step(t, w, lo, ds[lo]);
        if lo > j {
            assert(r[j] == Element::Fire);
            assert(r[j - 1] != Element::Sand && r[j - 1] != Element::Water);
        } else if lo == j {
            assert(r[j] == Element::Fire || r[j] == Element::Empty);
            assert(r[j - 1] != Element::Sand && r[j - 1] != Element::Water);
        } else {
            assert(r[j] == Element::Fire || r[j] == Element::Empty);
        }
    }
}

/// Law (fire decay): a fire cell whose left-hand index neighbour holds
/// neither sand nor water either keeps burning or burns out during a sweep;
/// it never becomes any other element. (With sand or water on the left, the
/// cell can burn out and then be buried in the same sweep.)
pub proof fn lemma_fire_only_decays(s: Seq<Element>, w: int, ds: Seq<Draw>, j: int)
    requires
        1 <= w <= j < s.len(),
        s[j] == Element::Fire,
        s[j - 1] != Element::Sand && s[j - 1] != Element::Water,
    ensures
        sweep_to(s, w, w, ds)[j] == Element::Fire || sweep_to(s, w, w, ds)[j] == Element::Empty,
{
    lemma_fire_rec(s, w, ds, j, w);
}

/// Law (reachability): one full tick — three cells of the top row
/// overwritten with sand, then a sweep — never produces a nova in a cell
/// that did not already hold one.
pub proof fn lemma_tick_no_nova(
    s: Seq<Element>,
    w: int,
    a: int,
    b: int,
    c: int,
    ds: Seq<Draw>,
)
    requires
        1 <= w,
        0 <= a < s.len(),
        0 <= b < s.len(),
        0 <= c < s.len(),
    ensures
        forall|j: int|
            0 <= j < s.len() && s[j] != Element::Nova ==> sweep_to(
                Grid::seeded3(s, a, b, c),
                w,
                w,
                ds,
            )[j] != Element::Nova,
{
    let m = Grid::seeded3(s, a, b, c);
    lemma_sweep_preserves_solids(m, w, w, ds);
    assert(forall|j: int| 0 <= j < s.len() && s[j] != Element::Nova ==> m[j] != Element::Nova);
}

/// Law (ignition): a sand cell whose ignition roll comes up, with fire
/// directly below it, turns to fire in its own step.
pub proof fn lemma_sand_ignites_from_below(s: Seq<Element>, w: int, i: int, dr: Draw)
    requires
        1 <= w <= i < s.len(),
        i + w < s.len(),
        s[i] == Element::Sand,
        s[i + w] == Element::Fire,
        dr.f == 1,
    ensures
        cell_step(s, w, i, dr)[i] == Element::Fire,
{
    if s[i - w] == Element::Sand && dr.d == 0 && i - 1 > 0 && s[i - 1] == Element::Empty {
        let t = s.update(i - 1, Element::Sand).update(i - w, Element::Empty);
        assert(t[i + w] == Element::Fire);
        assert(fire_near(t, w, i));
    } else if s[i - w] == Element::Sand && dr.d == 1 && i + 1 < s.len() && s[i + 1]
        == Element::Empty {
        let t = s.update(i + 1, Element::Sand).update(i - w, Element::Empty);
        assert(t[i + w] == Element::Fire);
        assert(fire_near(t, w, i));
    } else {
        assert(fire_near(s, w, i));
    }
}

} // verus!

