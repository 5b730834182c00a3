use sandgame::grid::Element;
use sandgame::grid::Grid;
use sandgame::grid::GridError;

fn all_cells(g: &Grid, w: u32, h: u32) -> Vec<Element> {
    let mut out = Vec::new();
    for y in 0..h {
        for x in 0..w {
            out.push(g.get_cell(x, y).unwrap());
        }
    }
    out
}

#[test]
fn new_grid_is_all_empty() {
    let g = Grid::new(4, 3);
    assert_eq!(g.width(), 4);
    assert_eq!(g.height(), 3);
    for y in 0..3 {
        for x in 0..4 {
            assert_eq!(g.get_cell(x, y), Ok(Element::Empty));
        }
    }
}

#[test]
fn set_then_get_roundtrip() {
    let mut g = Grid::new(5, 5);
    assert_eq!(g.set_cell(2, 3, Element::Sand), Ok(()));
    assert_eq!(g.get_cell(2, 3), Ok(Element::Sand));
    assert_eq!(g.get_cell(3, 2), Ok(Element::Empty));
    assert_eq!(g.set_cell(0, 0, Element::Nova), Ok(()));
    assert_eq!(g.get_cell(0, 0), Ok(Element::Nova));
}

#[test]
fn out_of_range_coordinates_are_rejected() {
    let mut g = Grid::new(4, 3);
    assert_eq!(g.get_cell(4, 0), Err(GridError::OutOfBounds));
    assert_eq!(g.get_cell(0, 3), Err(GridError::OutOfBounds));
    assert_eq!(g.set_cell(4, 0, Element::Sand), Err(GridError::OutOfBounds));
    assert_eq!(g.set_cell(0, 3, Element::Sand), Err(GridError::OutOfBounds));
    // a rejected write leaves the grid alone
    for y in 0..3 {
        for x in 0..4 {
            assert_eq!(g.get_cell(x, y), Ok(Element::Empty));
        }
    }
}

#[test]
fn paint_covers_the_expected_pair_shape() {
    // 1x9 grid, so cell index == y coordinate
    let mut g = Grid::new(1, 9);
    g.paint(4, 2, Element::Sand);
    let cells = all_cells(&g, 1, 9);
    for (i, c) in cells.iter().enumerate() {
        if i == 3 || i == 4 || i == 5 {
            assert_eq!(*c, Element::Sand);
        } else {
            assert_eq!(*c, Element::Empty);
        }
    }
}

#[test]
fn paint_at_cell_zero_paints_nothing() {
    // the stroke guard requires center - offset > 0, so cell 0 is never hit
    let mut g = Grid::new(1, 9);
    g.paint(0, 3, Element::Sand);
    for c in all_cells(&g, 1, 9) {
        assert_eq!(c, Element::Empty);
    }
}

#[test]
fn paint_near_edges_skips_out_of_range_arms() {
    let mut g = Grid::new(1, 9);
    // near the low edge only the zero offset passes both guards
    g.paint(1, 5, Element::Wall);
    let cells = all_cells(&g, 1, 9);
    for (i, c) in cells.iter().enumerate() {
        if i == 1 {
            assert_eq!(*c, Element::Wall);
        } else {
            assert_eq!(*c, Element::Empty);
        }
    }
    // near the high edge likewise
    let mut g2 = Grid::new(1, 9);
    g2.paint(8, 3, Element::Wall);
    let cells2 = all_cells(&g2, 1, 9);
    for (i, c) in cells2.iter().enumerate() {
        if i == 8 {
            assert_eq!(*c, Element::Wall);
        } else {
            assert_eq!(*c, Element::Empty);
        }
    }
}

#[test]
fn paint_then_erase_restores_empty() {
    // every combination of the radii and centers of interest on a 9x9 grid
    let radii = [0u32, 1, 5];
    let centers = [0usize, 40, 80];
    for &r in radii.iter() {
        for &c in centers.iter() {
            let mut g = Grid::new(9, 9);
            g.paint(c, r, Element::Sand);
            g.erase(c, r);
            for cell in all_cells(&g, 9, 9) {
                assert_eq!(cell, Element::Empty);
            }
        }
    }
}

#[test]
fn erase_leaves_cells_outside_the_stroke_alone() {
    let mut g = Grid::new(9, 9);
    assert_eq!(g.set_cell(0, 0, Element::Wall), Ok(()));
    assert_eq!(g.set_cell(8, 8, Element::Wall), Ok(()));
    g.paint(40, 5, Element::Sand);
    g.erase(40, 5);
    assert_eq!(g.get_cell(0, 0), Ok(Element::Wall));
    assert_eq!(g.get_cell(8, 8), Ok(Element::Wall));
    assert_eq!(g.get_cell(4, 4), Ok(Element::Empty));
}

#[test]
fn zero_radius_stroke_is_a_no_op() {
    let mut g = Grid::new(3, 3);
    assert_eq!(g.set_cell(1, 1, Element::Water), Ok(()));
    g.paint(4, 0, Element::Sand);
    assert_eq!(g.get_cell(1, 1), Ok(Element::Water));
    g.erase(4, 0);
    assert_eq!(g.get_cell(1, 1), Ok(Element::Water));
}
