use vstd::prelude::*;

use crate::geometry::{
    lemma_tile_within, lemma_tiles_apart, lemma_zones_apart, span_extent, tile_origin,
    zone_origin,
};
use crate::config::GridConfig;
use crate::grid::Grid;
use crate::rect::{rect_contains, Rect};

verus! {

/// The overlay ends one grid margin after the last tile, on both axes: its
/// width is the right edge of the bottom-right tile plus a margin, and its
/// height the bottom edge of that tile plus a margin.
pub proof fn lemma_dimensions_cover_last_tile(g: &Grid)
    requires
        g.wf(),
        g.layout_ok(),
    ensures
        ({
            let last = g.tile_rect(g.nrows() - 1, g.ncols() - 1);
            &&& span_extent(g.ncols(), g.tile_w(), g.grid_m()) == last.x + last.width + g.grid_m()
            &&& span_extent(g.nrows(), g.tile_h(), g.grid_m()) == last.y + last.height
                + g.grid_m()
        }),
{
    g.lemma_tile_fits(g.nrows() - 1, g.ncols() - 1);
    lemma_tile_within(g.ncols() - 1, g.ncols(), g.tile_w(), g.grid_m());
    lemma_tile_within(g.nrows() - 1, g.nrows(), g.tile_h(), g.grid_m());
    assert(span_extent(g.ncols(), g.tile_w(), g.grid_m()) == tile_origin(
        g.ncols() - 1,
        g.tile_w(),
        g.grid_m(),
    ) + g.tile_w() + g.grid_m()) by (nonlinear_arith);
    assert(span_extent(g.nrows(), g.tile_h(), g.grid_m()) == tile_origin(
        g.nrows() - 1,
        g.tile_h(),
        g.grid_m(),
    ) + g.tile_h() + g.grid_m()) by (nonlinear_arith);
}

/// Every tile lies inside the overlay, at least one margin from its edges,
/// and two distinct tiles never overlap: one of them ends, plus a margin,
/// before the other begins, across or down.
pub proof fn lemma_tiles_disjoint(g: &Grid, r1: int, c1: int, r2: int, c2: int)
    requires
        g.wf(),
        g.layout_ok(),
        0 <= r1 < g.nrows(),
        0 <= c1 < g.ncols(),
        0 <= r2 < g.nrows(),
        0 <= c2 < g.ncols(),
    ensures
        ({
            let a = g.tile_rect(r1, c1);
            let w = span_extent(g.ncols(), g.tile_w(), g.grid_m());
            let h = span_extent(g.nrows(), g.tile_h(), g.grid_m());
            &&& g.grid_m() <= a.x && a.x + a.width + g.grid_m() <= w
            &&& g.grid_m() <= a.y && a.y + a.height + g.grid_m() <= h
        }),
        (r1, c1) != (r2, c2) ==> ({
            let a = g.tile_rect(r1, c1);
            let b = g.tile_rect(r2, c2);
            ||| a.x + a.width + g.grid_m() <= b.x
            ||| b.x + b.width + g.grid_m() <= a.x
            ||| a.y + a.height + g.grid_m() <= b.y
            ||| b.y + b.height + g.grid_m() <= a.y
        }),
{
    g.lemma_tile_fits(r1, c1);
    g.lemma_tile_fits(r2, c2);
    lemma_tile_within(c1, g.ncols(), g.tile_w(), g.grid_m());
    lemma_tile_within(r1, g.nrows(), g.tile_h(), g.grid_m());
    if c1 < c2 {
        lemma_tiles_apart(c1, c2, g.tile_w(), g.grid_m());
    } else if c2 < c1 {
        lemma_tiles_apart(c2, c1, g.tile_w(), g.grid_m());
    } else if r1 < r2 {
        lemma_tiles_apart(r1, r2, g.tile_h(), g.grid_m());
    } else if r2 < r1 {
        lemma_tiles_apart(r2, r1, g.tile_h(), g.grid_m());
    }
}

/// Zones of neighbouring columns do not overlap: the left one ends, plus the
/// zone margin, before the right one begins. The zones of a row together
/// span no more than the work area's width, and lie inside it.
pub proof fn lemma_zone_columns(g: &Grid, row: int, column: int)
    requires
        g.wf(),
        g.layout_ok(),
        0 <= row < g.nrows(),
        0 <= column < g.ncols(),
    ensures
        column + 1 < g.ncols() ==> g.zone_rect(row, column).x + g.zone_rect(row, column).width
            + g.zone_m() <= g.zone_rect(row, column + 1).x,
        ({
            let first = g.zone_rect(row, 0);
            let last = g.zone_rect(row, g.ncols() - 1);
            &&& g.work().x <= first.x
            &&& last.x + last.width <= g.work().x + g.work().width
            &&& last.x + last.width - first.x <= g.work().width
        }),
{
    g.lemma_zone_fits(row, column);
    g.lemma_zone_fits(row, 0);
    g.lemma_zone_fits(row, g.ncols() - 1);
    if column + 1 < g.ncols() {
        g.lemma_zone_fits(row, column + 1);
        lemma_zones_apart(
            column,
            column + 1,
            g.zone_w(),
            g.border_m(),
            g.zone_m(),
            g.work().x as int,
        );
    }
}

/// Containment includes both the top-left and the bottom-right corner of a
/// rectangle of non-negative size, and excludes any point beyond an edge.
pub proof fn lemma_contains_edges(r: Rect, px: int, py: int)
    requires
        r.width >= 0,
        r.height >= 0,
    ensures
        rect_contains(r, r.x as int, r.y as int),
        rect_contains(r, r.x + r.width, r.y + r.height),
        px > r.x + r.width || py > r.y + r.height || px < r.x || py < r.y ==> !rect_contains(
            r,
            px,
            py,
        ),
{
}

/// The smaller of two integers.
pub open spec fn min(a: int, b: int) -> int {
    if a <= b {
        a
    } else {
        b
    }
}

/// The larger of two integers.
pub open spec fn max(a: int, b: int) -> int {
    if a <= b {
        b
    } else {
        a
    }
}

/// The drag-union rectangle of two cells is the bounding box of their zones.
pub proof fn lemma_drag_bounding_box(g: &Grid, s: (usize, usize), h: (usize, usize))
    ensures
        ({
            let a = g.zone_rect(s.0 as int, s.1 as int);
            let b = g.zone_rect(h.0 as int, h.1 as int);
            let r = g.drag_rect(s, h);
            &&& r.x == min(a.x as int, b.x as int)
            &&& r.y == min(a.y as int, b.y as int)
            &&& r.width
                == (max(a.x as int, b.x as int) + a.width - min(a.x as int, b.x as int)) as i32
            &&& r.height
                == (max(a.y as int, b.y as int) + a.height - min(a.y as int, b.y as int)) as i32
        }),
{
}

/// The drag-union rectangle does not depend on which of the two cells is the
/// selected one and which the hovered one.
pub proof fn lemma_drag_symmetric(g: &Grid, s: (usize, usize), h: (usize, usize))
    ensures
        g.drag_rect(s, h) == g.drag_rect(h, s),
{
    lemma_drag_bounding_box(g, s, h);
    lemma_drag_bounding_box(g, h, s);
}

/// Adding a row and then removing one gives back the shape, the tiles and
/// the selected and hovered cells, and the store holds the starting shape
/// under the active key; a store that held it already is back as it was.
pub proof fn lemma_add_then_remove_row(g0: &Grid, g1: &Grid, g2: &Grid)
    requires
        g0.wf(),
        g0.row_added(g1),
        g1.row_removed(g2),
    ensures
        g2.nrows() == g0.nrows(),
        g2.ncols() == g0.ncols(),
        forall|r: int, c: int|
            0 <= r < g0.nrows() && 0 <= c < g0.ncols() ==> #[trigger] g2.tile_at(r, c)
                == g0.tile_at(r, c),
        g2.selected_tile == g0.selected_tile,
        g2.hovered_tile == g0.hovered_tile,
        g2.same_layout(g0),
        g2.same_session(g0),
        g2.store() == g0.store().insert(
            g0.key(),
            GridConfig { rows: g0.nrows() as usize, columns: g0.ncols() as usize },
        ),
        g0.store().contains_key(g0.key()) && g0.store()[g0.key()] == (GridConfig {
            rows: g0.nrows() as usize,
            columns: g0.ncols() as usize,
        }) ==> g2.store() == g0.store(),
{
    assert(g2.store() =~= g0.store().insert(
        g0.key(),
        GridConfig { rows: g0.nrows() as usize, columns: g0.ncols() as usize },
    ));
    assert forall|r: int, c: int|
        0 <= r < g0.nrows() && 0 <= c < g0.ncols() implies #[trigger] g2.tile_at(r, c)
            == g0.tile_at(r, c) by {
        assert(g1.tile_at(r, c) == g0.tile_at(r, c));
    }
    if g0.store().contains_key(g0.key()) && g0.store()[g0.key()] == (GridConfig {
        rows: g0.nrows() as usize,
        columns: g0.ncols() as usize,
    }) {
        assert(g2.store() =~= g0.store());
    }
}

} // verus!
