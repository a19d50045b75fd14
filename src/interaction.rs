use vstd::prelude::*;

use crate::grid::{cell_in, flag_of, in_span, span_rect, with_flag, Grid, Tile, TileFlag};
use crate::rect::{rect_contains, Rect};

verus! {

impl Grid {
    /// The point lies inside the tile's rectangle, edges included.
    pub open spec fn tile_hit(&self, row: int, column: int, point: (i32, i32)) -> bool {
        rect_contains(self.tile_rect(row, column), point.0 as int, point.1 as int)
    }

    /// The last of the first `n` columns of a row whose tile holds the point.
    pub open spec fn row_hit(&self, row: int, n: int, point: (i32, i32)) -> Option<int>
        decreases n,
    {
        if n <= 0 {
            None
        } else if self.tile_hit(row, n - 1, point) {
            Some(n - 1)
        } else {
            self.row_hit(row, n - 1, point)
        }
    }

    /// The last cell, in row-major order among the first `m` rows, whose tile
    /// holds the point.
    pub open spec fn rows_hit(&self, m: int, point: (i32, i32)) -> Option<(int, int)>
        decreases m,
    {
        if m <= 0 {
            None
        } else {
            match self.row_hit(m - 1, self.ncols(), point) {
                Some(c) => Some((m - 1, c)),
                None => self.rows_hit(m - 1, point),
            }
        }
    }

    /// The last cell in row-major order whose tile holds the point. Tiles
    /// only touch when the grid margin is zero, so there is at most one
    /// otherwise.
    pub open spec fn hit(&self, point: (i32, i32)) -> Option<(usize, usize)> {
        match self.rows_hit(self.nrows(), point) {
            Some((r, c)) => Some((r as usize, c as usize)),
            None => None,
        }
    }

    /// The new value of a tile's flag in a pass over the tiles: the tile holds
    /// the point, or lies in the block.
    pub open spec fn flag_value(
        &self,
        point: Option<(i32, i32)>,
        span: Option<((usize, usize), (usize, usize))>,
        row: int,
        column: int,
    ) -> bool {
        (match point {
            Some(p) => self.tile_hit(row, column, p),
            None => false,
        }) || in_span(span, row, column)
    }

    /// A pass over the tiles with these arguments changes some tile.
    pub open spec fn pass_changes(
        &self,
        flag: TileFlag,
        point: Option<(i32, i32)>,
        span: Option<((usize, usize), (usize, usize))>,
    ) -> bool {
        exists|r: int, c: int|
            0 <= r < self.nrows() && 0 <= c < self.ncols() && #[trigger] self.flag_value(
                point,
                span,
                r,
                c,
            ) != flag_of(self.tile_at(r, c), flag)
    }

    /// The grid after a pass: every tile's flag is `flag_value`, and nothing
    /// else is touched.
    pub open spec fn after_pass(
        &self,
        next: &Grid,
        flag: TileFlag,
        point: Option<(i32, i32)>,
        span: Option<((usize, usize), (usize, usize))>,
    ) -> bool {
        &&& next.same_shape(self)
        &&& forall|r: int, c: int|
            0 <= r < self.nrows() && 0 <= c < self.ncols() ==> #[trigger] next.tile_at(r, c)
                == with_flag(self.tile_at(r, c), flag, self.flag_value(point, span, r, c))
    }

    /// The drag-union rule applies: shift or the pointer button is held and
    /// both a selected and a hovered cell are known.
    pub open spec fn drag_applies_with(&self, hovered: Option<(usize, usize)>) -> bool {
        (self.shift_down || self.cursor_down) && self.selected_tile.is_some() && hovered.is_some()
    }

    /// The corner cells of the drag-union block, chosen by where the hovered
    /// zone `h` lies from the selected zone `s`: left and below, right and
    /// above, otherwise further in either direction, or neither.
    pub open spec fn drag_corners(&self, s: (usize, usize), h: (usize, usize)) -> (
        (usize, usize),
        (usize, usize),
    ) {
        let sz = self.zone_rect(s.0 as int, s.1 as int);
        let hz = self.zone_rect(h.0 as int, h.1 as int);
        if hz.x < sz.x && hz.y > sz.y {
            ((s.0, h.1), (h.0, s.1))
        } else if hz.y < sz.y && hz.x > sz.x {
            ((h.0, s.1), (s.0, h.1))
        } else if hz.x > sz.x || hz.y > sz.y {
            (s, h)
        } else {
            (h, s)
        }
    }

    /// The drag-union rectangle: from the first corner's zone to the second's.
    pub open spec fn drag_rect(&self, s: (usize, usize), h: (usize, usize)) -> Rect {
        let (f, t) = self.drag_corners(s, h);
        span_rect(self.zone_rect(f.0 as int, f.1 as int), self.zone_rect(t.0 as int, t.1 as int))
    }

    /// The drag-union corners and rectangle for a hovered cell, where the
    /// rule applies.
    pub open spec fn drag_with(&self, hovered: Option<(usize, usize)>) -> Option<
        (((usize, usize), (usize, usize)), Rect),
    > {
        if self.drag_applies_with(hovered) {
            let s = self.selected_tile.unwrap();
            let h = hovered.unwrap();
            Some((self.drag_corners(s, h), self.drag_rect(s, h)))
        } else {
            None
        }
    }

    /// The drag-union corners and rectangle of the current state.
    pub open spec fn drag(&self) -> Option<(((usize, usize), (usize, usize)), Rect)> {
        self.drag_with(self.hovered_tile)
    }

    /// The hovered cell once the pointer is at `point`: the cell hit, or the
    /// one hovered before where none is.
    pub open spec fn hover_target(&self, point: (i32, i32)) -> Option<(usize, usize)> {
        match self.hit(point) {
            Some(cell) => Some(cell),
            None => self.hovered_tile,
        }
    }

    /// The corners of a drag-union block, if any.
    pub open spec fn span_of(drag: Option<(((usize, usize), (usize, usize)), Rect)>) -> Option<
        ((usize, usize), (usize, usize)),
    > {
        match drag {
            Some((corners, _)) => Some(corners),
            None => None,
        }
    }

    proof fn lemma_row_hit_range(&self, row: int, n: int, point: (i32, i32))
        ensures
            self.row_hit(row, n, point) matches Some(c) ==> 0 <= c < n,
        decreases n,
    {
        if n > 0 {
            self.lemma_row_hit_range(row, n - 1, point);
        }
    }

    proof fn lemma_rows_hit_range(&self, m: int, point: (i32, i32))
        ensures
            self.rows_hit(m, point) matches Some((r, c)) ==> 0 <= r < m && 0 <= c < self.ncols(),
        decreases m,
    {
        if m > 0 {
            self.lemma_row_hit_range(m - 1, self.ncols(), point);
            self.lemma_rows_hit_range(m - 1, point);
        }
    }

    /// The cell whose tile holds the point, the last one in row-major order.
    pub(crate) fn hit_tile(&self, point: (i32, i32)) -> (r: Option<(usize, usize)>)
        requires
            self.wf(),
            self.layout_ok(),
        ensures
            r == self.hit(point),
            cell_in(r, self.nrows(), self.ncols()),
    {
        let rows = self.rows();
        let columns = self.columns();
        let mut found: Option<(usize, usize)> = None;
        let mut r: usize = 0;
        while r < rows
            invariant
                self.wf(),
                self.layout_ok(),
                rows == self.nrows(),
                columns == self.ncols(),
                r <= rows,
                found == (match self.rows_hit(r as int, point) {
                    Some((a, b)) => Some((a as usize, b as usize)),
                    None => None,
                }),
            decreases rows - r,
        {
            let mut c: usize = 0;
            let mut in_row: Option<usize> = None;
            while c < columns
                invariant
                    self.wf(),
                    self.layout_ok(),
                    rows == self.nrows(),
                    columns == self.ncols(),
                    r < rows,
                    c <= columns,
                    in_row == (match self.row_hit(r as int, c as int, point) {
                        Some(a) => Some(a as usize),
                        None => None,
                    }),
                decreases columns - c,
            {
                if self.tile_area(r, c).contains_point(point) {
                    in_row = Some(c);
                }
                c = c + 1;
            }
            proof {
                self.lemma_row_hit_range(r as int, columns as int, point);
            }
            match in_row {
                Some(c) => {
                    found = Some((r, c));
                },
                None => {},
            }
            r = r + 1;
        }
        proof {
            self.lemma_rows_hit_range(rows as int, point);
        }
        found
    }

    /// Sets one flag of every tile to `flag_value`; tells whether any tile
    /// changed.
    pub(crate) fn rewrite_tiles(
        &mut self,
        flag: TileFlag,
        point: Option<(i32, i32)>,
        span: Option<((usize, usize), (usize, usize))>,
    ) -> (changed: bool)
        requires
            old(self).wf(),
            point.is_some() ==> old(self).layout_ok(),
        ensures
            final(self).wf(),
            old(self).after_pass(&*final(self), flag, point, span),
            changed == old(self).pass_changes(flag, point, span),
            final(self).same_layout(&*old(self)),
            final(self).same_session(&*old(self)),
            final(self).selected_tile == old(self).selected_tile,
            final(self).hovered_tile == old(self).hovered_tile,
            final(self).configs == old(self).configs,
    {
        let rows = self.rows();
        let columns = self.columns();
        let mut tiles: Vec<Vec<Tile>> = Vec::new();
        let mut changed = false;
        let mut r: usize = 0;
        while r < rows
            invariant
                self.wf(),
                point.is_some() ==> self.layout_ok(),
                rows == self.nrows(),
                columns == self.ncols(),
                r <= rows,
                tiles@.len() == r,
                forall|i: int| 0 <= i < r ==> (#[trigger] tiles@[i])@.len() == columns,
                forall|i: int, j: int|
                    0 <= i < r && 0 <= j < columns ==> #[trigger] tiles@[i]@[j] == with_flag(
                        self.tile_at(i, j),
                        flag,
                        self.flag_value(point, span, i, j),
                    ),
                changed == exists|i: int, j: int|
                    0 <= i < r && 0 <= j < columns && #[trigger] self.flag_value(point, span, i, j)
                        != flag_of(self.tile_at(i, j), flag),
            decreases rows - r,
        {
            let mut row: Vec<Tile> = Vec::new();
            let mut c: usize = 0;
            let ghost changed_before = changed;
            proof {
                self.lemma_row_len(r as int);
            }
            while c < columns
                invariant
                    self.wf(),
                    point.is_some() ==> self.layout_ok(),
                    rows == self.nrows(),
                    columns == self.ncols(),
                    self.tiles@[r as int]@.len() == columns,
                    r < rows,
                    c <= columns,
                    row@.len() == c,
                    forall|j: int| 0 <= j < c ==> #[trigger] row@[j] == with_flag(
                        self.tile_at(r as int, j),
                        flag,
                        self.flag_value(point, span, r as int, j),
                    ),
                    changed == (changed_before || exists|j: int|
                        0 <= j < c && #[trigger] self.flag_value(point, span, r as int, j)
                            != flag_of(self.tile_at(r as int, j), flag)),
                decreases columns - c,
            {
                let t = self.tiles[r][c];
                let hit = match point {
                    Some(p) => self.tile_area(r, c).contains_point(p),
                    None => false,
                };
                let inside = match span {
                    Some((f, to)) => f.0 <= r && r <= to.0 && f.1 <= c && c <= to.1,
                    None => false,
                };
                let v = hit || inside;
                let nt = match flag {
                    TileFlag::Hovered => Tile { hovered: v, ..t },
                    TileFlag::Selected => Tile { selected: v, ..t },
                };
                let old_v = match flag {
                    TileFlag::Hovered => t.hovered,
                    TileFlag::Selected => t.selected,
                };
                proof {
                    assert(t == self.tile_at(r as int, c as int));
                    assert(v == self.flag_value(point, span, r as int, c as int));
                    assert(old_v == flag_of(self.tile_at(r as int, c as int), flag));
                }
                if v != old_v {
                    changed = true;
                }
                row.push(nt);
                proof {
                    let ri = r as int;
                    let ci = c as int;
                    assert(forall|j: int|
                        0 <= j < ci + 1 && #[trigger] self.flag_value(point, span, ri, j)
                            != flag_of(self.tile_at(ri, j), flag) ==> (j < ci || j == ci));
                }
                c = c + 1;
            }
            tiles.push(row);
            r = r + 1;
        }
        self.tiles = tiles;
        changed
    }

    /// The rectangle from the top left of zone `a` to the bottom right of zone
    /// `b`.
    pub(crate) fn zone_span(&self, a: (usize, usize), b: (usize, usize)) -> (r: Rect)
        requires
            self.wf(),
            self.layout_ok(),
            a.0 < self.nrows(),
            a.1 < self.ncols(),
            b.0 < self.nrows(),
            b.1 < self.ncols(),
        ensures
            r == span_rect(
                self.zone_rect(a.0 as int, a.1 as int),
                self.zone_rect(b.0 as int, b.1 as int),
            ),
    {
        let from = self.zone_area(a.0, a.1);
        let to = self.zone_area(b.0, b.1);
        let width = to.x as i64 + to.width as i64 - from.x as i64;
        let height = to.y as i64 + to.height as i64 - from.y as i64;
        Rect { x: from.x, y: from.y, width: width as i32, height: height as i32 }
    }

    /// The drag-union rule: while shift or the pointer button is held and both
    /// a selected and a hovered cell are known, the corners of the block
    /// between them and the rectangle from the first corner's zone to the
    /// second's.
    pub fn drag_union(&self) -> (r: Option<(((usize, usize), (usize, usize)), Rect)>)
        requires
            self.wf(),
            self.layout_ok(),
        ensures
            r == self.drag(),
    {
        if self.shift_down || self.cursor_down {
            match (self.selected_tile, self.hovered_tile) {
                (Some(s), Some(h)) => {
                    let sz = self.zone_area(s.0, s.1);
                    let hz = self.zone_area(h.0, h.1);
                    let corners = if hz.x < sz.x && hz.y > sz.y {
                        ((s.0, h.1), (h.0, s.1))
                    } else if hz.y < sz.y && hz.x > sz.x {
                        ((h.0, s.1), (s.0, h.1))
                    } else if hz.x > sz.x || hz.y > sz.y {
                        (s, h)
                    } else {
                        (h, s)
                    };
                    let rect = self.zone_span(corners.0, corners.1);
                    Some((corners, rect))
                },
                _ => None,
            }
        } else {
            None
        }
    }

    /// Recomputes hovering for the pointer at `point`. Every tile that holds
    /// the point is hovered and the others are not; the cell hit becomes the
    /// hovered cell. Where the drag-union rule then applies, its whole block
    /// is hovered too. Returns `None` where no tile changed; otherwise the
    /// drag-union rectangle, or else the zone of the cell hit.
    pub fn highlight_tiles(&mut self, point: (i32, i32)) -> (r: Option<Rect>)
        requires
            old(self).wf(),
            old(self).layout_ok(),
        ensures
            final(self).wf(),
            final(self).layout_ok(),
            final(self).same_layout(&*old(self)),
            final(self).same_session(&*old(self)),
            final(self).configs == old(self).configs,
            final(self).selected_tile == old(self).selected_tile,
            final(self).hovered_tile == old(self).hover_target(point),
            old(self).after_pass(
                &*final(self),
                TileFlag::Hovered,
                Some(point),
                Grid::span_of(old(self).drag_with(old(self).hover_target(point))),
            ),
            r == (if !old(self).pass_changes(
                TileFlag::Hovered,
                Some(point),
                Grid::span_of(old(self).drag_with(old(self).hover_target(point))),
            ) {
                None
            } else {
                match old(self).drag_with(old(self).hover_target(point)) {
                    Some((_, rect)) => Some(rect),
                    None => match old(self).hit(point) {
                        Some((hr, hc)) => Some(old(self).zone_rect(hr as int, hc as int)),
                        None => None,
                    },
                }
            }),
    {
        let hit = self.hit_tile(point);
        if let Some(cell) = hit {
            self.hovered_tile = Some(cell);
        }
        let ghost before = *self;
        let drag = self.drag_union();
        let span = match drag {
            Some((corners, _)) => Some(corners),
            None => None,
        };
        proof {
            assert(before.after_pass(&*old(self), TileFlag::Hovered, Some(point), span)
                == old(self).after_pass(&*old(self), TileFlag::Hovered, Some(point), span));
        }
        let changed = self.rewrite_tiles(TileFlag::Hovered, Some(point), span);
        proof {
            assert forall|r: int, c: int|
                #![trigger before.flag_value(Some(point), span, r, c)]
                0 <= r < before.nrows() && 0 <= c < before.ncols() implies before.flag_value(
                Some(point),
                span,
                r,
                c,
            ) == old(self).flag_value(Some(point), span, r, c) && before.tile_at(r, c)
                == old(self).tile_at(r, c) by {}
            if before.pass_changes(TileFlag::Hovered, Some(point), span) {
                let (r, c) = choose|r: int, c: int|
                    0 <= r < before.nrows() && 0 <= c < before.ncols()
                        && #[trigger] before.flag_value(
                        Some(point),
                        span,
                        r,
                        c,
                    ) != flag_of(before.tile_at(r, c), TileFlag::Hovered);
                assert(old(self).flag_value(Some(point), span, r, c) != flag_of(
                    old(self).tile_at(r, c),
                    TileFlag::Hovered,
                ));
            }
            if old(self).pass_changes(TileFlag::Hovered, Some(point), span) {
                let (r, c) = choose|r: int, c: int|
                    0 <= r < old(self).nrows() && 0 <= c < old(self).ncols()
                        && #[trigger] old(self).flag_value(Some(point), span, r, c) != flag_of(
                        old(self).tile_at(r, c),
                        TileFlag::Hovered,
                    );
                assert(before.flag_value(Some(point), span, r, c) != flag_of(
                    before.tile_at(r, c),
                    TileFlag::Hovered,
                ));
            }
        }
        if !changed {
            None
        } else {
            match drag {
                Some((_, rect)) => Some(rect),
                None => match hit {
                    Some(cell) => Some(self.zone_area(cell.0, cell.1)),
                    None => None,
                },
            }
        }
    }

    /// Selects the tile under the pointer, unless a drag or a shift-extend is
    /// under way, when nothing changes and the result is `false`. Otherwise
    /// every tile that holds the point is selected and the others are not,
    /// the cell hit becomes the selected cell, and the result tells whether
    /// the selected cell changed.
    pub fn select_tile(&mut self, point: (i32, i32)) -> (r: bool)
        requires
            old(self).wf(),
            old(self).layout_ok(),
        ensures
            final(self).wf(),
            final(self).layout_ok(),
            old(self).cursor_down || old(self).shift_down ==> !r && *final(self) == *old(self),
            !(old(self).cursor_down || old(self).shift_down) ==> {
                &&& final(self).same_layout(&*old(self))
                &&& final(self).same_session(&*old(self))
                &&& final(self).configs == old(self).configs
                &&& final(self).hovered_tile == old(self).hovered_tile
                &&& final(self).selected_tile == (match old(self).hit(point) {
                    Some(cell) => Some(cell),
                    None => old(self).selected_tile,
                })
                &&& old(self).after_pass(&*final(self), TileFlag::Selected, Some(point), None)
                &&& r == (final(self).selected_tile != old(self).selected_tile)
            },
    {
        if self.cursor_down || self.shift_down {
            return false;
        }
        let previously_selected = self.selected_tile;
        let hit = self.hit_tile(point);
        if let Some(cell) = hit {
            self.selected_tile = Some(cell);
        }
        let ghost before = *self;
        self.rewrite_tiles(TileFlag::Selected, Some(point), None);
        proof {
            assert(before.after_pass(&*final(self), TileFlag::Selected, Some(point), None)
                == old(self).after_pass(&*final(self), TileFlag::Selected, Some(point), None));
        }
        self.selected_tile != previously_selected
    }

    /// The rectangle a commit places the window in: the drag-union rectangle
    /// where the rule applies, else the zone of the selected cell.
    pub fn selected_area(&self) -> (r: Option<Rect>)
        requires
            self.wf(),
            self.layout_ok(),
        ensures
            r == self.selection_area(),
    {
        match self.drag_union() {
            Some((_, rect)) => Some(rect),
            None => match self.selected_tile {
                Some(cell) => Some(self.zone_area(cell.0, cell.1)),
                None => None,
            },
        }
    }

    /// The rectangle from the first zone to the last: the target of a
    /// maximize.
    pub fn get_max_area(&self) -> (r: Rect)
        requires
            self.wf(),
            self.layout_ok(),
        ensures
            r == self.max_rect(),
    {
        let last = (self.rows() - 1, self.columns() - 1);
        self.zone_span((0, 0), last)
    }

    /// Clears the hovered flag of every tile.
    pub fn unhighlight_all_tiles(&mut self)
        requires
            old(self).wf(),
        ensures
            final(self).wf(),
            final(self).same_layout(&*old(self)),
            final(self).same_session(&*old(self)),
            final(self).configs == old(self).configs,
            final(self).selected_tile == old(self).selected_tile,
            final(self).hovered_tile == old(self).hovered_tile,
            final(self).same_shape(&*old(self)),
            forall|r: int, c: int|
                0 <= r < old(self).nrows() && 0 <= c < old(self).ncols()
                    ==> #[trigger] final(self).tile_at(r, c)
                    == with_flag(old(self).tile_at(r, c), TileFlag::Hovered, false),
    {
        self.rewrite_tiles(TileFlag::Hovered, None, None);
    }

    /// Clears the selected flag of every tile.
    pub fn unselect_all_tiles(&mut self)
        requires
            old(self).wf(),
        ensures
            final(self).wf(),
            final(self).same_layout(&*old(self)),
            final(self).same_session(&*old(self)),
            final(self).configs == old(self).configs,
            final(self).selected_tile == old(self).selected_tile,
            final(self).hovered_tile == old(self).hovered_tile,
            final(self).same_shape(&*old(self)),
            forall|r: int, c: int|
                0 <= r < old(self).nrows() && 0 <= c < old(self).ncols()
                    ==> #[trigger] final(self).tile_at(r, c)
                    == with_flag(old(self).tile_at(r, c), TileFlag::Selected, false),
    {
        self.rewrite_tiles(TileFlag::Selected, None, None);
    }

    /// Returns the grid to rest, as when the overlay closes: no modifier or
    /// button held, no selected or hovered cell, no overlay window, no quick
    /// resize, and no tile selected or hovered.
    pub fn reset(&mut self)
        requires
            old(self).wf(),
        ensures
            final(self).wf(),
            final(self).same_layout(&*old(self)),
            final(self).configs == old(self).configs,
            !final(self).shift_down,
            !final(self).control_down,
            !final(self).cursor_down,
            final(self).selected_tile.is_none(),
            final(self).hovered_tile.is_none(),
            final(self).grid_window.is_none(),
            !final(self).quick_resize,
            final(self).active_window == old(self).active_window,
            final(self).previous_resize == old(self).previous_resize,
            final(self).same_shape(&*old(self)),
            forall|r: int, c: int|
                0 <= r < old(self).nrows() && 0 <= c < old(self).ncols()
                    ==> #[trigger] final(self).tile_at(r, c)
                    == with_flag(
                    with_flag(old(self).tile_at(r, c), TileFlag::Hovered, false),
                    TileFlag::Selected,
                    false,
                ),
    {
        self.shift_down = false;
        self.control_down = false;
        self.cursor_down = false;
        self.selected_tile = None;
        self.hovered_tile = None;
        self.grid_window = None;
        self.quick_resize = false;
        let ghost cleared = *self;
        self.rewrite_tiles(TileFlag::Hovered, None, None);
        let ghost unhovered = *self;
        self.rewrite_tiles(TileFlag::Selected, None, None);
        proof {
            assert forall|r: int, c: int|
                0 <= r < old(self).nrows() && 0 <= c < old(self).ncols()
                    implies #[trigger] self.tile_at(
                r,
                c,
            ) == with_flag(
                with_flag(old(self).tile_at(r, c), TileFlag::Hovered, false),
                TileFlag::Selected,
                false,
            ) by {
                assert(unhovered.tile_at(r, c) == with_flag(
                    cleared.tile_at(r, c),
                    TileFlag::Hovered,
                    cleared.flag_value(None, None, r, c),
                ));
                assert(self.tile_at(r, c) == with_flag(
                    unhovered.tile_at(r, c),
                    TileFlag::Selected,
                    unhovered.flag_value(None, None, r, c),
                ));
            }
        }
    }
}

} // verus!
