use vstd::prelude::*;

use crate::config::{colorref_of, GridConfig, GridConfigKey, GridConfigs, Rgba};
use crate::geometry::{
    lemma_tile_within, lemma_zone_within, span_extent, tile_origin, zone_origin, zone_room,
    zone_size,
};
use crate::rect::Rect;
use crate::window::Window;

verus! {

/// Paint state of one cell of the overlay, with the colors it is drawn in.
#[derive(Debug, Clone, Copy, PartialEq, Eq, Structural)]
pub struct Tile {
    pub selected: bool,
    pub hovered: bool,
    pub frame_color: u32,
    pub normal_color: u32,
    pub hovered_color: u32,
    pub selected_color: u32,
}

impl Tile {
    /// The color the tile is filled with: selection wins over hovering.
    pub fn fill_color(self) -> (r: u32)
        ensures
            r == (if self.selected {
                self.selected_color
            } else if self.hovered {
                self.hovered_color
            } else {
                self.normal_color
            }),
    {
        if self.selected {
            self.selected_color
        } else if self.hovered {
            self.hovered_color
        } else {
            self.normal_color
        }
    }
}

/// Which of a tile's two flags a pass over the tiles writes.
#[derive(Debug, Clone, Copy, PartialEq, Eq, Structural)]
pub enum TileFlag {
    Hovered,
    Selected,
}

/// The tile with the chosen flag set to `v`.
pub open spec fn with_flag(t: Tile, flag: TileFlag, v: bool) -> Tile {
    match flag {
        TileFlag::Hovered => Tile { hovered: v, ..t },
        TileFlag::Selected => Tile { selected: v, ..t },
    }
}

/// The chosen flag of the tile.
pub open spec fn flag_of(t: Tile, flag: TileFlag) -> bool {
    match flag {
        TileFlag::Hovered => t.hovered,
        TileFlag::Selected => t.selected,
    }
}

/// A cell lies in the inclusive block between two corner cells.
pub open spec fn in_span(span: Option<((usize, usize), (usize, usize))>, r: int, c: int) -> bool {
    match span {
        Some((f, t)) => f.0 <= r <= t.0 && f.1 <= c <= t.1,
        None => false,
    }
}

/// The rectangle from the top left of `a` to the bottom right of `b`.
pub open spec fn span_rect(a: Rect, b: Rect) -> Rect {
    Rect {
        x: a.x,
        y: a.y,
        width: (b.x + b.width - a.x) as i32,
        height: (b.y + b.height - a.y) as i32,
    }
}

proof fn lemma_extent_parts(count: int, size: int, margin: int)
    requires
        count >= 0,
        size >= 0,
        margin >= 0,
    ensures
        0 <= count * size <= span_extent(count, size, margin),
        0 <= (count + 1) * margin <= span_extent(count, size, margin),
{
    assert(count * size >= 0) by (nonlinear_arith)
        requires
            count >= 0,
            size >= 0,
    ;
    assert((count + 1) * margin >= 0) by (nonlinear_arith)
        requires
            count >= 0,
            margin >= 0,
    ;
}

/// The value held, or the default.
pub open spec fn pick<T>(o: Option<T>, default: T) -> T {
    match o {
        Some(v) => v,
        None => default,
    }
}

/// The 32-bit value of an optional color, or the default.
pub open spec fn pick_color(o: Option<Rgba>, default: u32) -> u32 {
    match o {
        Some(c) => colorref_of(c),
        None => default,
    }
}

/// A count of at least one.
pub open spec fn at_least_one(n: usize) -> int {
    if n == 0 {
        1
    } else {
        n as int
    }
}

/// Default color of a tile: light gray.
pub const NORMAL_COLOR: u32 = 0xb2b2b2;

/// Default color of a hovered tile: blue.
pub const HOVERED_COLOR: u32 = 0x946400;

/// Default color of a selected tile: dark blue.
pub const SELECTED_COLOR: u32 = 0x804d00;

/// Default color of a tile's frame: black.
pub const FRAME_COLOR: u32 = 0;

/// The cell, where it lies inside a grid of the given shape.
pub open spec fn clip(cell: Option<(usize, usize)>, rows: int, columns: int) -> Option<
    (usize, usize),
> {
    if cell_in(cell, rows, columns) {
        cell
    } else {
        None
    }
}

/// A rectangle from integer coordinates.
pub open spec fn int_rect(x: int, y: int, w: int, h: int) -> Rect {
    Rect { x: x as i32, y: y as i32, width: w as i32, height: h as i32 }
}

/// What a commit of the selection asks of the window system.
#[derive(Debug, Clone, Copy)]
pub struct Release {
    /// The overlay has to be drawn again.
    pub repaint: bool,
    /// The window to place and the zone rectangle, before border compensation.
    pub placement: Option<(Window, Rect)>,
    /// The overlay is to close now that the resize is done.
    pub close_overlay: bool,
}

/// The grid: its tiles, the interaction state, the window references and
/// the geometry parameters, with the stored layouts.
pub struct Grid {
    pub shift_down: bool,
    pub control_down: bool,
    pub cursor_down: bool,
    pub selected_tile: Option<(usize, usize)>,
    pub hovered_tile: Option<(usize, usize)>,
    pub active_window: Option<Window>,
    pub grid_window: Option<Window>,
    pub previous_resize: Option<(Window, Rect)>,
    pub quick_resize: bool,
    pub grid_margins: u8,
    pub zone_margins: u8,
    pub border_margins: u8,
    pub tiles: Vec<Vec<Tile>>,
    pub active_config: GridConfigKey,
    pub configs: GridConfigs,
    pub tile_width: u32,
    pub tile_height: u32,
    pub work_area: Rect,
    pub tile_frame_color: u32,
    pub tile_normal_color: u32,
    pub tile_hovered_color: u32,
    pub tile_selected_color: u32,
}

/// A cell lies inside a grid of the given shape.
pub open spec fn cell_in(cell: Option<(usize, usize)>, rows: int, columns: int) -> bool {
    match cell {
        Some((r, c)) => r < rows && c < columns,
        None => true,
    }
}

impl Grid {
    pub open spec fn nrows(&self) -> int {
        self.tiles@.len() as int
    }

    pub open spec fn ncols(&self) -> int {
        self.tiles@[0]@.len() as int
    }

    pub open spec fn tile_at(&self, r: int, c: int) -> Tile {
        self.tiles@[r]@[c]
    }

    pub open spec fn tile_w(&self) -> int {
        self.tile_width as int
    }

    pub open spec fn tile_h(&self) -> int {
        self.tile_height as int
    }

    pub open spec fn grid_m(&self) -> int {
        self.grid_margins as int
    }

    pub open spec fn zone_m(&self) -> int {
        self.zone_margins as int
    }

    pub open spec fn border_m(&self) -> int {
        self.border_margins as int
    }

    pub open spec fn work(&self) -> Rect {
        self.work_area
    }

    /// The stored layouts.
    pub open spec fn store(&self) -> Map<(Seq<char>, Seq<char>), GridConfig> {
        self.configs@
    }

    /// The key under which this grid's shape is stored.
    pub open spec fn key(&self) -> (Seq<char>, Seq<char>) {
        self.active_config@
    }

    /// The frame, normal, hovered and selected colors of new tiles.
    pub open spec fn palette(&self) -> (u32, u32, u32, u32) {
        (
            self.tile_frame_color,
            self.tile_normal_color,
            self.tile_hovered_color,
            self.tile_selected_color,
        )
    }

    /// A fresh tile in this grid's colors.
    pub open spec fn blank_tile(&self) -> Tile {
        Tile {
            selected: false,
            hovered: false,
            frame_color: self.palette().0,
            normal_color: self.palette().1,
            hovered_color: self.palette().2,
            selected_color: self.palette().3,
        }
    }

    /// At least one row and one column, every row as long as the first, the
    /// selected and hovered cells inside the grid, and a well-formed store.
    pub open spec fn wf(&self) -> bool {
        &&& self.tiles@.len() >= 1
        &&& self.tiles@[0]@.len() >= 1
        &&& forall|r: int| 0 <= r < self.tiles@.len() ==> (#[trigger] self.tiles@[r])@.len()
            == self.tiles@[0]@.len()
        &&& cell_in(self.selected_tile, self.nrows(), self.ncols())
        &&& cell_in(self.hovered_tile, self.nrows(), self.ncols())
        &&& self.configs.wf()
    }

    /// The counts of rows and columns and the overlay's size fit in `i32`,
    /// the work area holds the border and
    /// the gaps between zones on both axes, and its far edges fit in `i32`.
    pub open spec fn layout_ok(&self) -> bool {
        &&& self.nrows() <= i32::MAX
        &&& self.ncols() <= i32::MAX
        &&& span_extent(self.ncols(), self.tile_w(), self.grid_m()) <= i32::MAX
        &&& span_extent(self.nrows(), self.tile_h(), self.grid_m()) <= i32::MAX
        &&& zone_room(self.work().width as int, self.border_m(), self.zone_m(), self.ncols()) >= 0
        &&& zone_room(self.work().height as int, self.border_m(), self.zone_m(), self.nrows())
            >= 0
        &&& self.work().x + self.work().width <= i32::MAX
        &&& self.work().y + self.work().height <= i32::MAX
    }

    /// The rectangle of a tile inside the overlay.
    pub open spec fn tile_rect(&self, row: int, column: int) -> Rect {
        int_rect(
            tile_origin(column, self.tile_w(), self.grid_m()),
            tile_origin(row, self.tile_h(), self.grid_m()),
            self.tile_w(),
            self.tile_h(),
        )
    }

    pub open spec fn zone_w(&self) -> int {
        zone_size(self.work().width as int, self.border_m(), self.zone_m(), self.ncols())
    }

    pub open spec fn zone_h(&self) -> int {
        zone_size(self.work().height as int, self.border_m(), self.zone_m(), self.nrows())
    }

    /// The zone of a cell inside the work area.
    pub open spec fn zone_rect(&self, row: int, column: int) -> Rect {
        int_rect(
            zone_origin(
                column,
                self.zone_w(),
                self.border_m(),
                self.zone_m(),
                self.work().x as int,
            ),
            zone_origin(row, self.zone_h(), self.border_m(), self.zone_m(), self.work().y as int),
            self.zone_w(),
            self.zone_h(),
        )
    }

    /// The zone rectangle from the first cell to the last one.
    pub open spec fn max_rect(&self) -> Rect {
        span_rect(self.zone_rect(0, 0), self.zone_rect(self.nrows() - 1, self.ncols() - 1))
    }

    /// Everything but the tiles, the interaction state and the window
    /// references is the same in both grids.
    pub open spec fn same_layout(&self, other: &Grid) -> bool {
        &&& self.tile_w() == other.tile_w()
        &&& self.tile_h() == other.tile_h()
        &&& self.grid_m() == other.grid_m()
        &&& self.zone_m() == other.zone_m()
        &&& self.border_m() == other.border_m()
        &&& self.work() == other.work()
        &&& self.key() == other.key()
        &&& self.palette() == other.palette()
    }

    /// The modifier flags, the window references and the record of the last
    /// resize are the same in both grids.
    pub open spec fn same_session(&self, other: &Grid) -> bool {
        &&& self.shift_down == other.shift_down
        &&& self.control_down == other.control_down
        &&& self.cursor_down == other.cursor_down
        &&& self.active_window == other.active_window
        &&& self.grid_window == other.grid_window
        &&& self.previous_resize == other.previous_resize
        &&& self.quick_resize == other.quick_resize
    }

    /// Both grids have the same shape.
    pub open spec fn same_shape(&self, other: &Grid) -> bool {
        self.nrows() == other.nrows() && self.ncols() == other.ncols()
    }

    pub(crate) proof fn lemma_row_len(&self, r: int)
        requires
            self.wf(),
            0 <= r < self.nrows(),
        ensures
            self.tiles@[r]@.len() == self.ncols(),
    {
    }

    pub proof fn lemma_tile_fits(&self, row: int, column: int)
        requires
            self.wf(),
            self.layout_ok(),
            0 <= row < self.nrows(),
            0 <= column < self.ncols(),
        ensures
            0 <= tile_origin(column, self.tile_w(), self.grid_m()),
            tile_origin(column, self.tile_w(), self.grid_m()) + self.tile_w() <= i32::MAX,
            0 <= tile_origin(row, self.tile_h(), self.grid_m()),
            tile_origin(row, self.tile_h(), self.grid_m()) + self.tile_h() <= i32::MAX,
    {
        lemma_tile_within(column, self.ncols(), self.tile_w(), self.grid_m());
        lemma_tile_within(row, self.nrows(), self.tile_h(), self.grid_m());
    }

    pub proof fn lemma_zone_fits(&self, row: int, column: int)
        requires
            self.wf(),
            self.layout_ok(),
            0 <= row < self.nrows(),
            0 <= column < self.ncols(),
        ensures
            self.zone_w() >= 0,
            self.zone_h() >= 0,
            self.work().x + self.border_m() <= zone_origin(
                column,
                self.zone_w(),
                self.border_m(),
                self.zone_m(),
                self.work().x as int,
            ),
            zone_origin(column, self.zone_w(), self.border_m(), self.zone_m(), self.work().x as int)
                + self.zone_w() <= self.work().x + self.work().width - self.border_m(),
            self.work().y + self.border_m() <= zone_origin(
                row,
                self.zone_h(),
                self.border_m(),
                self.zone_m(),
                self.work().y as int,
            ),
            zone_origin(row, self.zone_h(), self.border_m(), self.zone_m(), self.work().y as int)
                + self.zone_h() <= self.work().y + self.work().height - self.border_m(),
    {
        lemma_zone_within(
            column,
            self.ncols(),
            self.work().width as int,
            self.border_m(),
            self.zone_m(),
            self.work().x as int,
        );
        lemma_zone_within(
            row,
            self.nrows(),
            self.work().height as int,
            self.border_m(),
            self.zone_m(),
            self.work().y as int,
        );
    }

    /// The number of rows.
    pub fn rows(&self) -> (r: usize)
        requires
            self.wf(),
        ensures
            r == self.nrows(),
    {
        self.tiles.len()
    }

    /// The number of columns.
    pub fn columns(&self) -> (r: usize)
        requires
            self.wf(),
        ensures
            r == self.ncols(),
    {
        self.tiles[0].len()
    }

    /// The tile at a cell.
    pub fn tile(&self, row: usize, column: usize) -> (r: Tile)
        requires
            self.wf(),
            row < self.nrows(),
            column < self.ncols(),
        ensures
            r == self.tile_at(row as int, column as int),
    {
        self.tiles[row][column]
    }

    /// The shape of the grid as it is stored.
    pub fn shape(&self) -> (r: GridConfig)
        requires
            self.wf(),
        ensures
            r.rows == self.nrows(),
            r.columns == self.ncols(),
    {
        GridConfig { rows: self.rows(), columns: self.columns() }
    }

    /// The stored layouts.
    pub fn configs(&self) -> (r: &GridConfigs)
        ensures
            r@ == self.store(),
    {
        &self.configs
    }

    /// The key under which this grid's shape is stored.
    pub fn active_config(&self) -> (r: &GridConfigKey)
        ensures
            r@ == self.key(),
    {
        &self.active_config
    }

    /// The work area the zones are laid out in.
    pub fn work_area(&self) -> (r: Rect)
        ensures
            r == self.work(),
    {
        self.work_area
    }

    /// Whether the geometry of this grid can be computed in `i32`; the
    /// functions that compute it ask for this.
    pub fn layout_fits(&self) -> (r: bool)
        requires
            self.wf(),
        ensures
            r == self.layout_ok(),
    {
        let rows = self.rows() as i128;
        let columns = self.columns() as i128;
        let gm = self.grid_margins as i128;
        let zm = self.zone_margins as i128;
        let bm = self.border_margins as i128;
        let wa = self.work_area;
        let tw = self.tile_width as i128;
        let th = self.tile_height as i128;
        assert(columns * tw <= 0x1_0000_0000_0000_0000 * 0x1_0000_0000) by (nonlinear_arith)
            requires
                0 <= columns <= 0x1_0000_0000_0000_0000,
                0 <= tw <= 0x1_0000_0000,
        ;
        assert(rows * th <= 0x1_0000_0000_0000_0000 * 0x1_0000_0000) by (nonlinear_arith)
            requires
                0 <= rows <= 0x1_0000_0000_0000_0000,
                0 <= th <= 0x1_0000_0000,
        ;
        assert((columns + 1) * gm <= 0x1_0000_0000_0000_0001 * 0x100) by (nonlinear_arith)
            requires
                0 <= columns <= 0x1_0000_0000_0000_0000,
                0 <= gm <= 0x100,
        ;
        assert((rows + 1) * gm <= 0x1_0000_0000_0000_0001 * 0x100) by (nonlinear_arith)
            requires
                0 <= rows <= 0x1_0000_0000_0000_0000,
                0 <= gm <= 0x100,
        ;
        assert((columns - 1) * zm <= 0x1_0000_0000_0000_0000 * 0x100) by (nonlinear_arith)
            requires
                1 <= columns <= 0x1_0000_0000_0000_0000,
                0 <= zm <= 0x100,
        ;
        assert((rows - 1) * zm <= 0x1_0000_0000_0000_0000 * 0x100) by (nonlinear_arith)
            requires
                1 <= rows <= 0x1_0000_0000_0000_0000,
                0 <= zm <= 0x100,
        ;
        assert((columns - 1) * zm >= 0) by (nonlinear_arith)
            requires
                1 <= columns,
                0 <= zm,
        ;
        assert((rows - 1) * zm >= 0) by (nonlinear_arith)
            requires
                1 <= rows,
                0 <= zm,
        ;
        rows <= i32::MAX as i128 && columns <= i32::MAX as i128 && columns * tw + (columns + 1) * gm
            <= i32::MAX as i128 && rows * th + (rows + 1) * gm
            <= i32::MAX as i128 && wa.width as i128 - 2 * bm - (columns - 1) * zm >= 0
            && wa.height as i128 - 2 * bm - (rows - 1) * zm >= 0 && wa.x as i128 + wa.width as i128
            <= i32::MAX as i128 && wa.y as i128 + wa.height as i128 <= i32::MAX as i128
    }

    /// Pixel size of the overlay: `columns * tile_width + (columns + 1) *
    /// grid_margins` wide, and the same with rows for the height.
    pub fn dimensions(&self) -> (r: (u32, u32))
        requires
            self.wf(),
            self.layout_ok(),
        ensures
            r.0 == span_extent(self.ncols(), self.tile_w(), self.grid_m()),
            r.1 == span_extent(self.nrows(), self.tile_h(), self.grid_m()),
    {
        let columns = self.columns() as u64;
        let rows = self.rows() as u64;
        let gm = self.grid_margins as u64;
        let tw = self.tile_width as u64;
        let th = self.tile_height as u64;
        proof {
            lemma_extent_parts(columns as int, tw as int, gm as int);
            lemma_extent_parts(rows as int, th as int, gm as int);
        }
        let width = columns * tw + (columns + 1) * gm;
        let height = rows * th + (rows + 1) * gm;
        (width as u32, height as u32)
    }

    /// The rectangle of a tile inside the overlay: `x = column * tile_width +
    /// (column + 1) * grid_margins`, `y` the same with the row, and the tile's
    /// size.
    pub fn tile_area(&self, row: usize, column: usize) -> (r: Rect)
        requires
            self.wf(),
            self.layout_ok(),
            row < self.nrows(),
            column < self.ncols(),
        ensures
            r == self.tile_rect(row as int, column as int),
            r.x == tile_origin(column as int, self.tile_w(), self.grid_m()),
            r.y == tile_origin(row as int, self.tile_h(), self.grid_m()),
            r.width == self.tile_w(),
            r.height == self.tile_h(),
    {
        proof {
            self.lemma_tile_fits(row as int, column as int);
            lemma_extent_parts(column as int, self.tile_w(), self.grid_m());
            lemma_extent_parts(row as int, self.tile_h(), self.grid_m());
        }
        let c = column as i64;
        let rw = row as i64;
        let gm = self.grid_margins as i64;
        let tw = self.tile_width as i64;
        let th = self.tile_height as i64;
        let x = c * tw + (c + 1) * gm;
        let y = rw * th + (rw + 1) * gm;
        Rect { x: x as i32, y: y as i32, width: tw as i32, height: th as i32 }
    }

    /// The zone of a cell inside the work area. The room left once the border
    /// on both sides and the gaps between zones are taken out is shared evenly
    /// among the columns, rounded down; the zone starts after the border and
    /// after every zone and gap before it. Rows likewise.
    pub fn zone_area(&self, row: usize, column: usize) -> (r: Rect)
        requires
            self.wf(),
            self.layout_ok(),
            row < self.nrows(),
            column < self.ncols(),
        ensures
            r == self.zone_rect(row as int, column as int),
            r.x == zone_origin(
                column as int,
                self.zone_w(),
                self.border_m(),
                self.zone_m(),
                self.work().x as int,
            ),
            r.y == zone_origin(
                row as int,
                self.zone_h(),
                self.border_m(),
                self.zone_m(),
                self.work().y as int,
            ),
            r.width == self.zone_w(),
            r.height == self.zone_h(),
    {
        proof {
            self.lemma_zone_fits(row as int, column as int);
        }
        let wa = self.work_area;
        let columns = self.columns() as i64;
        let rows = self.rows() as i64;
        let bm = self.border_margins as i64;
        let zm = self.zone_margins as i64;
        let room_w = wa.width as i64 - bm * 2 - (columns - 1) * zm;
        let room_h = wa.height as i64 - bm * 2 - (rows - 1) * zm;
        let zone_width = (room_w as u64 / columns as u64) as i64;
        let zone_height = (room_h as u64 / rows as u64) as i64;
        let c = column as i64;
        let rw = row as i64;
        let x = c * zone_width + bm + c * zm + wa.x as i64;
        let y = rw * zone_height + bm + rw * zm + wa.y as i64;
        Rect { x: x as i32, y: y as i32, width: zone_width as i32, height: zone_height as i32 }
    }
}

} // verus!
