use vstd::prelude::*;

use crate::config::GridConfig;
use crate::grid::{clip, Grid, Tile};

verus! {

impl Grid {
    /// `next` is this grid with a row of fresh tiles appended and the new
    /// shape stored under the active key.
    pub open spec fn row_added(&self, next: &Grid) -> bool {
        &&& next.same_layout(self)
        &&& next.same_session(self)
        &&& next.selected_tile == self.selected_tile
        &&& next.hovered_tile == self.hovered_tile
        &&& next.nrows() == self.nrows() + 1
        &&& next.ncols() == self.ncols()
        &&& forall|r: int, c: int|
            0 <= r < self.nrows() && 0 <= c < self.ncols() ==> #[trigger] next.tile_at(r, c)
                == self.tile_at(r, c)
        &&& forall|c: int|
            0 <= c < self.ncols() ==> #[trigger] next.tile_at(self.nrows(), c) == self.blank_tile()
        &&& next.store() == self.store().insert(
            self.key(),
            GridConfig { rows: next.nrows() as usize, columns: next.ncols() as usize },
        )
    }

    /// `next` is this grid without its last row, unless that is the only one,
    /// with cells outside it forgotten and the shape stored under the active
    /// key.
    pub open spec fn row_removed(&self, next: &Grid) -> bool {
        &&& next.same_layout(self)
        &&& next.same_session(self)
        &&& next.nrows() == (if self.nrows() > 1 {
            self.nrows() - 1
        } else {
            self.nrows()
        })
        &&& next.ncols() == self.ncols()
        &&& forall|r: int, c: int|
            0 <= r < next.nrows() && 0 <= c < next.ncols() ==> #[trigger] next.tile_at(r, c)
                == self.tile_at(r, c)
        &&& next.selected_tile == clip(self.selected_tile, next.nrows(), next.ncols())
        &&& next.hovered_tile == clip(self.hovered_tile, next.nrows(), next.ncols())
        &&& next.store() == self.store().insert(
            self.key(),
            GridConfig { rows: next.nrows() as usize, columns: next.ncols() as usize },
        )
    }

    /// `next` is this grid with a fresh tile appended to every row and the
    /// new shape stored under the active key.
    pub open spec fn column_added(&self, next: &Grid) -> bool {
        &&& next.same_layout(self)
        &&& next.same_session(self)
        &&& next.selected_tile == self.selected_tile
        &&& next.hovered_tile == self.hovered_tile
        &&& next.nrows() == self.nrows()
        &&& next.ncols() == self.ncols() + 1
        &&& forall|r: int, c: int|
            0 <= r < self.nrows() && 0 <= c < self.ncols() ==> #[trigger] next.tile_at(r, c)
                == self.tile_at(r, c)
        &&& forall|r: int|
            0 <= r < self.nrows() ==> #[trigger] next.tile_at(r, self.ncols())
                == self.blank_tile()
        &&& next.store() == self.store().insert(
            self.key(),
            GridConfig { rows: next.nrows() as usize, columns: next.ncols() as usize },
        )
    }

    /// `next` is this grid without its last column, unless that is the only
    /// one, with cells outside it forgotten and the shape stored under the
    /// active key.
    pub open spec fn column_removed(&self, next: &Grid) -> bool {
        &&& next.same_layout(self)
        &&& next.same_session(self)
        &&& next.nrows() == self.nrows()
        &&& next.ncols() == (if self.ncols() > 1 {
            self.ncols() - 1
        } else {
            self.ncols()
        })
        &&& forall|r: int, c: int|
            0 <= r < next.nrows() && 0 <= c < next.ncols() ==> #[trigger] next.tile_at(r, c)
                == self.tile_at(r, c)
        &&& next.selected_tile == clip(self.selected_tile, next.nrows(), next.ncols())
        &&& next.hovered_tile == clip(self.hovered_tile, next.nrows(), next.ncols())
        &&& next.store() == self.store().insert(
            self.key(),
            GridConfig { rows: next.nrows() as usize, columns: next.ncols() as usize },
        )
    }

    /// A row of fresh tiles in this grid's colors.
    pub(crate) fn blank_row(&self, n: usize) -> (r: Vec<Tile>)
        ensures
            r@.len() == n,
            forall|j: int| 0 <= j < n ==> #[trigger] r@[j] == self.blank_tile(),
    {
        let tile = Tile {
            selected: false,
            hovered: false,
            frame_color: self.tile_frame_color,
            normal_color: self.tile_normal_color,
            hovered_color: self.tile_hovered_color,
            selected_color: self.tile_selected_color,
        };
        let mut row: Vec<Tile> = Vec::new();
        let mut j: usize = 0;
        while j < n
            invariant
                j <= n,
                row@.len() == j,
                tile == self.blank_tile(),
                forall|k: int| 0 <= k < j ==> #[trigger] row@[k] == self.blank_tile(),
            decreases n - j,
        {
            row.push(tile);
            j = j + 1;
        }
        row
    }

    /// Stores the current shape under the active key.
    pub(crate) fn save_config(&mut self)
        requires
            old(self).wf(),
        ensures
            final(self).wf(),
            final(self).same_layout(&*old(self)),
            final(self).same_session(&*old(self)),
            final(self).tiles == old(self).tiles,
            final(self).selected_tile == old(self).selected_tile,
            final(self).hovered_tile == old(self).hovered_tile,
            final(self).store() == old(self).store().insert(
                old(self).key(),
                GridConfig {
                    rows: old(self).nrows() as usize,
                    columns: old(self).ncols() as usize,
                },
            ),
    {
        let shape = self.shape();
        self.configs.upsert(&self.active_config, shape);
    }

    /// Appends a row of fresh tiles and stores the new shape.
    pub fn add_row(&mut self)
        requires
            old(self).wf(),
        ensures
            final(self).wf(),
            old(self).row_added(&*final(self)),
    {
        let columns = self.columns();
        let row = self.blank_row(columns);
        self.tiles.push(row);
        proof {
            assert(self.tiles@[0] == old(self).tiles@[0]);
            assert forall|r: int| 0 <= r < self.tiles@.len()
                implies (#[trigger] self.tiles@[r])@.len()
                == self.tiles@[0]@.len() by {
                if r < old(self).tiles@.len() {
                    assert(self.tiles@[r] == old(self).tiles@[r]);
                }
            }
        }
        self.save_config();
    }

    /// Appends a fresh tile to every row and stores the new shape.
    pub fn add_column(&mut self)
        requires
            old(self).wf(),
        ensures
            final(self).wf(),
            old(self).column_added(&*final(self)),
    {
        let rows = self.rows();
        let columns = self.columns();
        let mut tiles: Vec<Vec<Tile>> = Vec::new();
        let mut r: usize = 0;
        while r < rows
            invariant
                self.wf(),
                rows == self.nrows(),
                columns == self.ncols(),
                r <= rows,
                tiles@.len() == r,
                forall|i: int| 0 <= i < r ==> (#[trigger] tiles@[i])@.len() == columns + 1,
                forall|i: int, j: int|
                    0 <= i < r && 0 <= j < columns ==> #[trigger] tiles@[i]@[j]
                        == self.tile_at(i, j),
                forall|i: int| 0 <= i < r ==> #[trigger] tiles@[i]@[columns as int]
                    == self.blank_tile(),
            decreases rows - r,
        {
            proof {
                self.lemma_row_len(r as int);
            }
            let mut row: Vec<Tile> = Vec::new();
            let mut c: usize = 0;
            while c < columns
                invariant
                    self.wf(),
                    rows == self.nrows(),
                    columns == self.ncols(),
                    self.tiles@[r as int]@.len() == columns,
                    r < rows,
                    c <= columns,
                    row@.len() == c,
                    forall|j: int| 0 <= j < c ==> #[trigger] row@[j] == self.tile_at(r as int, j),
                decreases columns - c,
            {
                row.push(self.tiles[r][c]);
                c = c + 1;
            }
            let tile = Tile {
                selected: false,
                hovered: false,
                frame_color: self.tile_frame_color,
                normal_color: self.tile_normal_color,
                hovered_color: self.tile_hovered_color,
                selected_color: self.tile_selected_color,
            };
            row.push(tile);
            tiles.push(row);
            r = r + 1;
        }
        self.tiles = tiles;
        self.save_config();
    }

    /// Drops the last row, unless it is the only one; cells that fall outside
    /// are no longer selected or hovered. The shape is stored either way.
    pub fn remove_row(&mut self)
        requires
            old(self).wf(),
        ensures
            final(self).wf(),
            old(self).row_removed(&*final(self)),
    {
        if self.rows() > 1 {
            self.tiles.pop();
            proof {
                assert(self.tiles@[0] == old(self).tiles@[0]);
                assert forall|r: int| 0 <= r < self.tiles@.len()
                    implies (#[trigger] self.tiles@[r])@.len()
                    == self.tiles@[0]@.len() by {
                    assert(self.tiles@[r] == old(self).tiles@[r]);
                }
            }
        }
        self.clip_cells();
        self.save_config();
    }

    /// Drops the last column, unless it is the only one; cells that fall
    /// outside are no longer selected or hovered. The shape is stored either
    /// way.
    pub fn remove_column(&mut self)
        requires
            old(self).wf(),
        ensures
            final(self).wf(),
            old(self).column_removed(&*final(self)),
    {
        let rows = self.rows();
        let columns = self.columns();
        if columns > 1 {
            let keep = columns - 1;
            let mut tiles: Vec<Vec<Tile>> = Vec::new();
            let mut r: usize = 0;
            while r < rows
                invariant
                    self == old(self),
                    self.wf(),
                    rows == self.nrows(),
                    columns == self.ncols(),
                    keep == columns - 1,
                    r <= rows,
                    tiles@.len() == r,
                    forall|i: int| 0 <= i < r ==> (#[trigger] tiles@[i])@.len() == keep,
                    forall|i: int, j: int|
                        0 <= i < r && 0 <= j < keep ==> #[trigger] tiles@[i]@[j]
                            == self.tile_at(i, j),
                decreases rows - r,
            {
                proof {
                    self.lemma_row_len(r as int);
                }
                let mut row: Vec<Tile> = Vec::new();
                let mut c: usize = 0;
                while c < keep
                    invariant
                        self.wf(),
                        rows == self.nrows(),
                        columns == self.ncols(),
                        keep == columns - 1,
                        self.tiles@[r as int]@.len() == columns,
                        r < rows,
                        c <= keep,
                        row@.len() == c,
                        forall|j: int| 0 <= j < c ==> #[trigger] row@[j]
                            == self.tile_at(r as int, j),
                    decreases keep - c,
                {
                    row.push(self.tiles[r][c]);
                    c = c + 1;
                }
                tiles.push(row);
                r = r + 1;
            }
            self.tiles = tiles;
        }
        self.clip_cells();
        self.save_config();
    }

    /// Forgets a selected or hovered cell that lies outside the grid.
    pub(crate) fn clip_cells(&mut self)
        requires
            old(self).tiles@.len() >= 1,
            old(self).tiles@[0]@.len() >= 1,
            forall|r: int| 0 <= r < old(self).tiles@.len()
                ==> (#[trigger] old(self).tiles@[r])@.len()
                == old(self).tiles@[0]@.len(),
            old(self).configs.wf(),
        ensures
            final(self).wf(),
            final(self).same_layout(&*old(self)),
            final(self).same_session(&*old(self)),
            final(self).tiles == old(self).tiles,
            final(self).configs == old(self).configs,
            final(self).selected_tile
                == clip(old(self).selected_tile, old(self).nrows(), old(self).ncols()),
            final(self).hovered_tile
                == clip(old(self).hovered_tile, old(self).nrows(), old(self).ncols()),
    {
        let rows = self.tiles.len();
        let columns = self.tiles[0].len();
        if let Some(cell) = self.selected_tile {
            if cell.0 >= rows || cell.1 >= columns {
                self.selected_tile = None;
            }
        }
        if let Some(cell) = self.hovered_tile {
            if cell.0 >= rows || cell.1 >= columns {
                self.hovered_tile = None;
            }
        }
    }
}

} // verus!
