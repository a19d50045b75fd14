use vstd::prelude::*;

use crate::config::{color_to_colorref, Config, GridConfig, GridConfigKey, GridConfigs};
use crate::geometry::{lemma_zone_within, span_extent};
use crate::grid::{
    at_least_one, pick, pick_color, with_flag, Grid, Release, Tile, TileFlag, FRAME_COLOR,
    HOVERED_COLOR, NORMAL_COLOR, SELECTED_COLOR,
};
use crate::rect::{adjusted_rect, border_adjust_fits, Rect};
use crate::window::Window;

verus! {

impl Grid {
    /// The grid for a configuration, with the stored layouts, the key under
    /// which its shape is looked up, and the work area of the monitor. The
    /// tile size and grid margin come from the configuration's grid section
    /// (48 by 48 and 3 where absent), the zone margin and the border from its
    /// margins and padding, the colors from its color section. The shape is
    /// the stored one, or two by two where none is stored; a stored count of
    /// zero counts as one. Nothing is selected, hovered or held.
    pub fn new(
        config: &Config,
        configs: GridConfigs,
        active_config: GridConfigKey,
        work_area: Rect,
    ) -> (r: Grid)
        requires
            configs.wf(),
        ensures
            r.wf(),
            r.tile_w() == (match config.grid {
                Some(g) => pick(g.tile_width, 48u32),
                None => 48u32,
            }),
            r.tile_h() == (match config.grid {
                Some(g) => pick(g.tile_height, 48u32),
                None => 48u32,
            }),
            r.grid_m() == (match config.grid {
                Some(g) => pick(g.margins, 3u8),
                None => 3u8,
            }),
            r.zone_m() == config.margins,
            r.border_m() == config.window_padding,
            r.work() == work_area,
            r.key() == active_config@,
            r.store() == configs@,
            r.palette() == (match config.colors {
                Some(cs) => (
                    pick_color(cs.tile_frame, FRAME_COLOR),
                    pick_color(cs.tile, NORMAL_COLOR),
                    pick_color(cs.tile_hovered, HOVERED_COLOR),
                    pick_color(cs.tile_selected, SELECTED_COLOR),
                ),
                None => (FRAME_COLOR, NORMAL_COLOR, HOVERED_COLOR, SELECTED_COLOR),
            }),
            r.nrows() == at_least_one(
                pick(
                    if configs@.contains_key(active_config@) {
                        Some(configs@[active_config@])
                    } else {
                        None
                    },
                    GridConfig { rows: 2, columns: 2 },
                ).rows,
            ),
            r.ncols() == at_least_one(
                pick(
                    if configs@.contains_key(active_config@) {
                        Some(configs@[active_config@])
                    } else {
                        None
                    },
                    GridConfig { rows: 2, columns: 2 },
                ).columns,
            ),
            forall|i: int, j: int|
                0 <= i < r.nrows() && 0 <= j < r.ncols() ==> #[trigger] r.tile_at(i, j)
                    == r.blank_tile(),
            !r.shift_down && !r.control_down && !r.cursor_down && !r.quick_resize,
            r.selected_tile.is_none() && r.hovered_tile.is_none(),
            r.active_window.is_none() && r.grid_window.is_none(),
            r.previous_resize.is_none(),
    {
        let mut tile_width: u32 = 48;
        let mut tile_height: u32 = 48;
        let mut grid_margins: u8 = 3;
        if let Some(grid) = config.grid {
            if let Some(width) = grid.tile_width {
                tile_width = width;
            }
            if let Some(height) = grid.tile_height {
                tile_height = height;
            }
            if let Some(margins) = grid.margins {
                grid_margins = margins;
            }
        }
        let mut normal = NORMAL_COLOR;
        let mut hovered = HOVERED_COLOR;
        let mut selected = SELECTED_COLOR;
        let mut frame = FRAME_COLOR;
        if let Some(colors) = config.colors {
            if let Some(c) = colors.tile {
                normal = color_to_colorref(c);
            }
            if let Some(c) = colors.tile_hovered {
                hovered = color_to_colorref(c);
            }
            if let Some(c) = colors.tile_selected {
                selected = color_to_colorref(c);
            }
            if let Some(c) = colors.tile_frame {
                frame = color_to_colorref(c);
            }
        }
        let shape = match configs.get(&active_config) {
            Some(shape) => shape,
            None => GridConfig::default(),
        };
        let rows = if shape.rows == 0 {
            1
        } else {
            shape.rows
        };
        let columns = if shape.columns == 0 {
            1
        } else {
            shape.columns
        };
        let mut grid = Grid {
            shift_down: false,
            control_down: false,
            cursor_down: false,
            selected_tile: None,
            hovered_tile: None,
            active_window: None,
            grid_window: None,
            previous_resize: None,
            quick_resize: false,
            grid_margins,
            zone_margins: config.margins,
            border_margins: config.window_padding,
            tiles: Vec::new(),
            active_config,
            configs,
            tile_width,
            tile_height,
            work_area,
            tile_frame_color: frame,
            tile_normal_color: normal,
            tile_hovered_color: hovered,
            tile_selected_color: selected,
        };
        let mut tiles: Vec<Vec<Tile>> = Vec::new();
        let mut i: usize = 0;
        while i < rows
            invariant
                i <= rows,
                tiles@.len() == i,
                forall|k: int| 0 <= k < i ==> (#[trigger] tiles@[k])@.len() == columns,
                forall|k: int, j: int|
                    0 <= k < i && 0 <= j < columns ==> #[trigger] tiles@[k]@[j]
                        == grid.blank_tile(),
            decreases rows - i,
        {
            let row = grid.blank_row(columns);
            tiles.push(row);
            i = i + 1;
        }
        grid.tiles = tiles;
        grid
    }

    /// The area a commit would place the window in, as `selected_area`
    /// returns it.
    pub open spec fn selection_area(&self) -> Option<Rect> {
        match self.drag() {
            Some((_, rect)) => Some(rect),
            None => match self.selected_tile {
                Some((sr, sc)) => Some(self.zone_rect(sr as int, sc as int)),
                None => None,
            },
        }
    }

    /// Commits the selection when the pointer button is released. Where there
    /// is a selected area and an active window, the window is to be placed in
    /// that area, unless the last resize already put this window there; the
    /// placement is recorded as the last resize, the overlay is to close in a
    /// quick resize, and every tile is unselected. The button is up
    /// afterwards in any case, and the overlay is drawn again where there was
    /// an area.
    pub fn release_cursor(&mut self) -> (r: Release)
        requires
            old(self).wf(),
            old(self).layout_ok(),
        ensures
            final(self).wf(),
            final(self).layout_ok(),
            !final(self).cursor_down,
            final(self).same_layout(&*old(self)),
            final(self).configs == old(self).configs,
            final(self).same_shape(&*old(self)),
            final(self).selected_tile == old(self).selected_tile,
            final(self).hovered_tile == old(self).hovered_tile,
            final(self).shift_down == old(self).shift_down,
            final(self).control_down == old(self).control_down,
            final(self).active_window == old(self).active_window,
            final(self).grid_window == old(self).grid_window,
            final(self).quick_resize == old(self).quick_resize,
            r.repaint == old(self).selection_area().is_some(),
            r.placement == (match (old(self).selection_area(), old(self).active_window) {
                (Some(rect), Some(w)) => if old(self).previous_resize == Some((w, rect)) {
                    None
                } else {
                    Some((w, rect))
                },
                _ => None,
            }),
            r.close_overlay == (r.placement.is_some() && old(self).quick_resize),
            final(self).previous_resize == (match r.placement {
                Some(p) => Some(p),
                None => old(self).previous_resize,
            }),
            old(self).selection_area().is_some() && old(self).active_window.is_some() ==> forall|
                i: int,
                j: int,
            |
                0 <= i < old(self).nrows() && 0 <= j < old(self).ncols()
                    ==> #[trigger] final(self).tile_at(i, j)
                    == with_flag(old(self).tile_at(i, j), TileFlag::Selected, false),
            !(old(self).selection_area().is_some() && old(self).active_window.is_some())
                ==> final(self).tiles == old(self).tiles,
    {
        let area = self.selected_area();
        let mut release = Release {
            repaint: area.is_some(),
            placement: None,
            close_overlay: false,
        };
        self.cursor_down = false;
        match (area, self.active_window) {
            (Some(rect), Some(window)) => {
                let already = match self.previous_resize {
                    Some((w, prev)) => w == window && prev == rect,
                    None => false,
                };
                if !already {
                    self.previous_resize = Some((window, rect));
                    release.placement = Some((window, rect));
                    release.close_overlay = self.quick_resize;
                }
                let ghost before = *self;
                self.unselect_all_tiles();
                proof {
                    assert forall|i: int, j: int|
                        0 <= i < old(self).nrows() && 0 <= j < old(self).ncols()
                            implies #[trigger] self.tile_at(i, j)
                        == with_flag(old(self).tile_at(i, j), TileFlag::Selected, false) by {
                        assert(before.tile_at(i, j) == old(self).tile_at(i, j));
                    }
                }
            },
            _ => {},
        }
        release
    }

    /// The window a maximize toggle acts on: while the overlay is open, the
    /// active window; otherwise the foreground window, which becomes the
    /// active one.
    pub fn maximize_window(&mut self, overlay_open: bool, foreground: Window) -> (r: Option<Window>)
        ensures
            overlay_open ==> r == old(self).active_window && *final(self) == *old(self),
            !overlay_open ==> r == Some(foreground) && *final(self) == (Grid {
                active_window: Some(foreground),
                ..*old(self)
            }),
    {
        if overlay_open {
            self.active_window
        } else {
            self.active_window = Some(foreground);
            Some(foreground)
        }
    }

    /// The rectangle a maximize toggle places `window` in, given where the
    /// window is now and its transparent border. The target is the maximize
    /// area grown by the border; where a resize is on record and the window
    /// already covers that target, it goes back to the recorded rectangle
    /// instead. The window's current rectangle is recorded as the last
    /// resize. Where the grown area does not fit in `i32` nothing happens.
    pub fn toggle_maximize(&mut self, window: Window, current: Rect, border: (i32, i32)) -> (r:
        Option<Rect>)
        requires
            old(self).wf(),
            old(self).layout_ok(),
        ensures
            !border_adjust_fits(old(self).max_rect(), border.0 as int, border.1 as int)
                ==> r.is_none()
                && *final(self) == *old(self),
            border_adjust_fits(old(self).max_rect(), border.0 as int, border.1 as int) ==> {
                &&& r == Some(
                    match old(self).previous_resize {
                        Some((_, prev)) => if current
                            == adjusted_rect(old(self).max_rect(), border) {
                            prev
                        } else {
                            adjusted_rect(old(self).max_rect(), border)
                        },
                        None => adjusted_rect(old(self).max_rect(), border),
                    },
                )
                &&& *final(self)
                    == (Grid { previous_resize: Some((window, current)), ..*old(self) })
            },
    {
        let max = self.get_max_area();
        match max.adjusted_for_border(border) {
            None => None,
            Some(target) => {
                let place = match self.previous_resize {
                    Some((_, prev)) => if current == target {
                        prev
                    } else {
                        target
                    },
                    None => target,
                };
                self.previous_resize = Some((window, current));
                Some(place)
            },
        }
    }

    /// Takes note of a new foreground window: it becomes the active window
    /// unless it is the overlay itself or already the active one.
    pub fn foreground_changed(&mut self, window: Window)
        ensures
            *final(self) == (if old(self).grid_window != Some(window) && old(self).active_window
                != Some(window) {
                Grid { active_window: Some(window), ..*old(self) }
            } else {
                *old(self)
            }),
    {
        if self.grid_window != Some(window) && self.active_window != Some(window) {
            self.active_window = Some(window);
        }
    }

    /// Carries the session over from the grid this one replaces: the quick
    /// resize mode and the last resize, and the active window where asked.
    pub fn carry_over(&mut self, previous: &Grid, keep_active_window: bool)
        ensures
            *final(self) == (Grid {
                quick_resize: previous.quick_resize,
                previous_resize: previous.previous_resize,
                active_window: if keep_active_window {
                    previous.active_window
                } else {
                    old(self).active_window
                },
                ..*old(self)
            }),
    {
        self.quick_resize = previous.quick_resize;
        self.previous_resize = previous.previous_resize;
        if keep_active_window {
            self.active_window = previous.active_window;
        }
    }

    /// Where the overlay goes: centered on the work area, at its own size.
    pub fn reposition(&self) -> (r: Rect)
        requires
            self.wf(),
            self.layout_ok(),
        ensures
            r.width == span_extent(self.ncols(), self.tile_w(), self.grid_m()),
            r.height == span_extent(self.nrows(), self.tile_h(), self.grid_m()),
            r.x == (self.work().width as int / 2 - r.width as int / 2 + self.work().x) as i32,
            r.y == (self.work().height as int / 2 - r.height as int / 2 + self.work().y) as i32,
    {
        let dimensions = self.dimensions();
        let wa = self.work_area;
        proof {
            lemma_zone_within(
                0,
                self.ncols(),
                wa.width as int,
                self.border_m(),
                self.zone_m(),
                wa.x as int,
            );
            lemma_zone_within(
                0,
                self.nrows(),
                wa.height as int,
                self.border_m(),
                self.zone_m(),
                wa.y as int,
            );
        }
        let width = dimensions.0 as i64;
        let height = dimensions.1 as i64;
        let x = wa.width as i64 / 2 - width / 2 + wa.x as i64;
        let y = wa.height as i64 / 2 - height / 2 + wa.y as i64;
        Rect { x: x as i32, y: y as i32, width: width as i32, height: height as i32 }
    }
}

} // verus!
