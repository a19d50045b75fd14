use grout::{
    Config, CustomColors, CustomGridConfig, Grid, GridConfig, GridConfigKey, GridConfigs, Rect,
    Rgba, Tile, Window,
};

fn key() -> GridConfigKey {
    GridConfigKey::new("DISPLAY1".to_string(), "Default".to_string())
}

fn work_area() -> Rect {
    Rect { x: 0, y: 0, width: 1920, height: 1200 }
}

fn grid_with_shape(rows: usize, columns: usize) -> Grid {
    let mut configs = GridConfigs::new();
    configs.upsert(&key(), GridConfig { rows, columns });
    Grid::new(&Config::default(), configs, key(), work_area())
}

fn center_of_tile(grid: &Grid, row: usize, column: usize) -> (i32, i32) {
    let area = grid.tile_area(row, column);
    (area.x + area.width / 2, area.y + area.height / 2)
}

#[test]
fn default_grid_is_two_by_two() {
    let grid = Grid::new(&Config::default(), GridConfigs::new(), key(), work_area());
    assert_eq!(grid.rows(), 2);
    assert_eq!(grid.columns(), 2);
    assert!(grid.layout_fits());
    assert_eq!(grid.selected_tile, None);
    assert_eq!(grid.hovered_tile, None);
}

#[test]
fn dimensions_of_default_two_by_two() {
    let grid = Grid::new(&Config::default(), GridConfigs::new(), key(), work_area());
    assert_eq!(grid.dimensions(), (2 * 48 + 3 * 3, 2 * 48 + 3 * 3));
    assert_eq!(grid.dimensions(), (105, 105));
}

#[test]
fn dimensions_end_one_margin_after_last_tile() {
    let grid = grid_with_shape(3, 5);
    let last = grid.tile_area(2, 4);
    let (w, h) = grid.dimensions();
    assert_eq!(w as i32, last.x + last.width + 3);
    assert_eq!(h as i32, last.y + last.height + 3);
}

#[test]
fn tile_area_formula() {
    let grid = grid_with_shape(3, 3);
    assert_eq!(grid.tile_area(0, 0), Rect { x: 3, y: 3, width: 48, height: 48 });
    assert_eq!(grid.tile_area(1, 2), Rect { x: 2 * 48 + 3 * 3, y: 48 + 2 * 3, width: 48, height: 48 });
}

#[test]
fn tile_areas_are_disjoint_and_inside() {
    let grid = grid_with_shape(3, 4);
    let (w, h) = grid.dimensions();
    let mut areas = Vec::new();
    for r in 0..3 {
        for c in 0..4 {
            let a = grid.tile_area(r, c);
            assert!(a.x >= 0 && a.y >= 0);
            assert!(a.x + a.width <= w as i32 && a.y + a.height <= h as i32);
            areas.push(a);
        }
    }
    for i in 0..areas.len() {
        for j in 0..areas.len() {
            if i != j {
                let (a, b) = (areas[i], areas[j]);
                let apart = a.x + a.width < b.x
                    || b.x + b.width < a.x
                    || a.y + a.height < b.y
                    || b.y + b.height < a.y;
                assert!(apart);
            }
        }
    }
}

#[test]
fn custom_grid_configuration() {
    let config = Config {
        grid: Some(CustomGridConfig { tile_width: Some(20), tile_height: Some(10), margins: Some(1) }),
        ..Config::default()
    };
    let grid = Grid::new(&config, GridConfigs::new(), key(), work_area());
    assert_eq!(grid.dimensions(), (2 * 20 + 3, 2 * 10 + 3));
    assert_eq!(grid.tile_area(1, 1), Rect { x: 22, y: 12, width: 20, height: 10 });
}

#[test]
fn zone_area_second_column() {
    let grid = grid_with_shape(1, 2);
    let zone = grid.zone_area(0, 1);
    assert_eq!(zone.width, (1920 - 20 - 10) / 2);
    assert_eq!(zone.width, 945);
    assert_eq!(zone.x, 945 + 10 + 10);
    assert_eq!(zone.x, 965);
    assert_eq!(zone.y, 10);
    assert_eq!(zone.height, 1200 - 20);
}

#[test]
fn zone_area_rounds_down_and_offsets_by_work_area() {
    let mut configs = GridConfigs::new();
    configs.upsert(&key(), GridConfig { rows: 3, columns: 7 });
    let wa = Rect { x: 100, y: 50, width: 1000, height: 700 };
    let grid = Grid::new(&Config::default(), configs, key(), wa);
    // (1000 - 20 - 60) / 7 = 131, with 3 pixels left over
    let zone = grid.zone_area(2, 6);
    assert_eq!(zone.width, 131);
    assert_eq!(zone.x, 6 * 131 + 10 + 6 * 10 + 100);
    // (700 - 20 - 20) / 3 = 220
    assert_eq!(zone.height, 220);
    assert_eq!(zone.y, 2 * 220 + 10 + 2 * 10 + 50);
}

#[test]
fn adjacent_zones_do_not_overlap() {
    let grid = grid_with_shape(2, 7);
    let mut right_edge = i32::MIN;
    for c in 0..7 {
        let z = grid.zone_area(1, c);
        assert!(z.x > right_edge);
        right_edge = z.x + z.width;
    }
    let first = grid.zone_area(1, 0);
    assert!(right_edge - first.x <= 1920);
}

#[test]
fn max_area_spans_all_zones() {
    let grid = grid_with_shape(2, 2);
    let max = grid.get_max_area();
    assert_eq!(max, Rect { x: 10, y: 10, width: 1900, height: 1180 });
}

#[test]
fn reposition_centers_overlay() {
    let grid = grid_with_shape(2, 2);
    let r = grid.reposition();
    assert_eq!(r, Rect { x: 960 - 52, y: 600 - 52, width: 105, height: 105 });
}

#[test]
fn highlight_hovers_tile_under_pointer() {
    let mut grid = grid_with_shape(2, 2);
    let p = center_of_tile(&grid, 1, 0);
    let rect = grid.highlight_tiles(p);
    assert_eq!(rect, Some(grid.zone_area(1, 0)));
    assert_eq!(grid.hovered_tile, Some((1, 0)));
    assert!(grid.tile(1, 0).hovered);
    assert!(!grid.tile(0, 0).hovered);
    // nothing changes on a second move to the same place
    assert_eq!(grid.highlight_tiles(p), None);
}

#[test]
fn highlight_in_margin_clears_hover_but_keeps_cell() {
    let mut grid = grid_with_shape(2, 2);
    let p = center_of_tile(&grid, 0, 1);
    grid.highlight_tiles(p);
    // a point in the margin between tiles hits no tile
    let rect = grid.highlight_tiles((1, 1));
    assert_eq!(rect, None);
    assert!(!grid.tile(0, 1).hovered);
    assert_eq!(grid.hovered_tile, Some((0, 1)));
}

#[test]
fn select_tile_selects_and_reports_change() {
    let mut grid = grid_with_shape(2, 2);
    let p = center_of_tile(&grid, 0, 1);
    assert!(grid.select_tile(p));
    assert_eq!(grid.selected_tile, Some((0, 1)));
    assert!(grid.tile(0, 1).selected);
    assert!(!grid.select_tile(p));
}

#[test]
fn select_tile_locked_while_shift_or_cursor_down() {
    let mut grid = grid_with_shape(2, 2);
    grid.shift_down = true;
    for p in [(0, 0), (10, 10), (60, 60), (-5, 400)] {
        assert!(!grid.select_tile(p));
        assert_eq!(grid.selected_tile, None);
    }
    grid.shift_down = false;
    grid.cursor_down = true;
    let p = center_of_tile(&grid, 1, 1);
    assert!(!grid.select_tile(p));
    assert_eq!(grid.selected_tile, None);
    assert!(!grid.tile(1, 1).selected);
}

fn drag_rect(selected: (usize, usize), hovered: (usize, usize)) -> Option<Rect> {
    let mut grid = grid_with_shape(4, 4);
    let s = center_of_tile(&grid, selected.0, selected.1);
    grid.select_tile(s);
    grid.shift_down = true;
    let h = center_of_tile(&grid, hovered.0, hovered.1);
    let shown = grid.highlight_tiles(h);
    assert_eq!(shown, grid.selected_area());
    grid.selected_area()
}

#[test]
fn drag_union_is_symmetric() {
    let forward = drag_rect((1, 1), (3, 3));
    let backward = drag_rect((3, 3), (1, 1));
    assert!(forward.is_some());
    assert_eq!(forward, backward);
}

#[test]
fn drag_union_spans_bounding_box() {
    let grid = grid_with_shape(4, 4);
    let a = grid.zone_area(3, 1);
    let b = grid.zone_area(0, 2);
    let expected = Rect { x: a.x, y: b.y, width: b.x + b.width - a.x, height: a.y + a.height - b.y };
    assert_eq!(drag_rect((3, 1), (0, 2)), Some(expected));
    assert_eq!(drag_rect((0, 2), (3, 1)), Some(expected));
    assert_eq!(drag_rect((0, 1), (3, 2)), Some(expected));
}

#[test]
fn drag_union_hovers_whole_block() {
    let mut grid = grid_with_shape(4, 4);
    let s = center_of_tile(&grid, 2, 0);
    grid.select_tile(s);
    grid.cursor_down = true;
    let h = center_of_tile(&grid, 0, 2);
    grid.highlight_tiles(h);
    for r in 0..4 {
        for c in 0..4 {
            assert_eq!(grid.tile(r, c).hovered, r <= 2 && c <= 2, "tile {} {}", r, c);
        }
    }
}

#[test]
fn selected_area_without_drag_is_selected_zone() {
    let mut grid = grid_with_shape(2, 3);
    assert_eq!(grid.selected_area(), None);
    let p = center_of_tile(&grid, 1, 2);
    grid.select_tile(p);
    assert_eq!(grid.selected_area(), Some(grid.zone_area(1, 2)));
}

#[test]
fn add_row_then_remove_row_restores_shape_and_store() {
    let mut grid = grid_with_shape(2, 2);
    let before = grid.configs().get(&key());
    grid.add_row();
    assert_eq!((grid.rows(), grid.columns()), (3, 2));
    assert_eq!(grid.configs().get(&key()), Some(GridConfig { rows: 3, columns: 2 }));
    grid.remove_row();
    assert_eq!((grid.rows(), grid.columns()), (2, 2));
    assert_eq!(grid.configs().get(&key()), before);
    assert_eq!(grid.configs().len(), 1);
}

#[test]
fn add_column_appends_fresh_tiles() {
    let mut grid = grid_with_shape(2, 2);
    let p = center_of_tile(&grid, 0, 0);
    grid.select_tile(p);
    grid.add_column();
    assert_eq!((grid.rows(), grid.columns()), (2, 3));
    assert!(grid.tile(0, 0).selected);
    assert!(!grid.tile(0, 2).selected && !grid.tile(0, 2).hovered);
    assert_eq!(grid.configs().get(&key()), Some(GridConfig { rows: 2, columns: 3 }));
}

#[test]
fn remove_column_on_single_column_keeps_shape_and_persists() {
    let mut configs = GridConfigs::new();
    configs.upsert(&key(), GridConfig { rows: 2, columns: 0 });
    let mut grid = Grid::new(&Config::default(), configs, key(), work_area());
    assert_eq!(grid.columns(), 1);
    grid.remove_column();
    assert_eq!(grid.columns(), 1);
    assert_eq!(grid.rows(), 2);
    assert_eq!(grid.configs().get(&key()), Some(GridConfig { rows: 2, columns: 1 }));
}

#[test]
fn remove_column_stores_shape_when_absent() {
    let mut grid = Grid::new(&Config::default(), GridConfigs::new(), key(), work_area());
    assert_eq!(grid.configs().get(&key()), None);
    grid.remove_column();
    grid.remove_column();
    assert_eq!(grid.columns(), 1);
    assert_eq!(grid.configs().get(&key()), Some(GridConfig { rows: 2, columns: 1 }));
}

#[test]
fn remove_row_forgets_cells_outside() {
    let mut grid = grid_with_shape(2, 2);
    let p = center_of_tile(&grid, 1, 1);
    grid.select_tile(p);
    grid.highlight_tiles(p);
    grid.remove_row();
    assert_eq!(grid.rows(), 1);
    assert_eq!(grid.selected_tile, None);
    assert_eq!(grid.hovered_tile, None);
}

#[test]
fn remove_row_on_single_row_is_noop() {
    let mut grid = grid_with_shape(1, 3);
    grid.remove_row();
    assert_eq!((grid.rows(), grid.columns()), (1, 3));
}

#[test]
fn commit_places_window_and_records_it() {
    let mut grid = grid_with_shape(2, 2);
    let window = Window(42);
    grid.active_window = Some(window);
    let p = center_of_tile(&grid, 0, 1);
    grid.select_tile(p);
    grid.cursor_down = true;
    let release = grid.release_cursor();
    let zone = grid.zone_area(0, 1);
    assert!(release.repaint);
    assert_eq!(release.placement, Some((window, zone)));
    assert!(!release.close_overlay);
    assert_eq!(grid.previous_resize, Some((window, zone)));
    assert!(!grid.cursor_down);
    assert!(!grid.tile(0, 1).selected);
}

#[test]
fn commit_on_window_already_there_is_noop() {
    let mut grid = grid_with_shape(2, 2);
    let window = Window(7);
    grid.active_window = Some(window);
    let zone = grid.zone_area(1, 0);
    grid.previous_resize = Some((window, zone));
    let p = center_of_tile(&grid, 1, 0);
    grid.select_tile(p);
    let release = grid.release_cursor();
    assert!(release.repaint);
    assert_eq!(release.placement, None);
    assert!(!release.close_overlay);
    assert_eq!(grid.previous_resize, Some((window, zone)));
}

#[test]
fn commit_in_quick_resize_closes_overlay() {
    let mut grid = grid_with_shape(2, 2);
    grid.quick_resize = true;
    grid.active_window = Some(Window(3));
    let p = center_of_tile(&grid, 0, 0);
    grid.select_tile(p);
    let release = grid.release_cursor();
    assert!(release.placement.is_some());
    assert!(release.close_overlay);
}

#[test]
fn commit_without_selection_does_nothing() {
    let mut grid = grid_with_shape(2, 2);
    grid.active_window = Some(Window(3));
    grid.cursor_down = true;
    let release = grid.release_cursor();
    assert!(!release.repaint);
    assert_eq!(release.placement, None);
    assert!(!grid.cursor_down);
}

#[test]
fn maximize_toggles_back_to_previous_rect() {
    let mut grid = grid_with_shape(2, 2);
    let window = Window(9);
    let small = Rect { x: 100, y: 100, width: 300, height: 200 };
    let border = (7, 7);
    let target = grid.toggle_maximize(window, small, border).unwrap();
    assert_eq!(target, Rect { x: 3, y: 10, width: 1914, height: 1187 });
    assert_eq!(grid.previous_resize, Some((window, small)));
    // the window now covers the target: it goes back
    let back = grid.toggle_maximize(window, target, border).unwrap();
    assert_eq!(back, small);
    assert_eq!(grid.previous_resize, Some((window, target)));
}

#[test]
fn maximize_window_picks_foreground_when_overlay_closed() {
    let mut grid = grid_with_shape(2, 2);
    assert_eq!(grid.maximize_window(true, Window(5)), None);
    assert_eq!(grid.maximize_window(false, Window(5)), Some(Window(5)));
    assert_eq!(grid.active_window, Some(Window(5)));
    assert_eq!(grid.maximize_window(true, Window(6)), Some(Window(5)));
}

#[test]
fn foreground_change_ignores_overlay() {
    let mut grid = grid_with_shape(2, 2);
    grid.grid_window = Some(Window(1));
    grid.foreground_changed(Window(1));
    assert_eq!(grid.active_window, None);
    grid.foreground_changed(Window(2));
    assert_eq!(grid.active_window, Some(Window(2)));
}

#[test]
fn reset_clears_transient_state() {
    let mut grid = grid_with_shape(2, 2);
    let p = center_of_tile(&grid, 0, 0);
    grid.select_tile(p);
    grid.highlight_tiles(p);
    grid.shift_down = true;
    grid.control_down = true;
    grid.cursor_down = true;
    grid.quick_resize = true;
    grid.grid_window = Some(Window(4));
    grid.active_window = Some(Window(5));
    grid.reset();
    assert!(!grid.shift_down && !grid.control_down && !grid.cursor_down && !grid.quick_resize);
    assert_eq!(grid.selected_tile, None);
    assert_eq!(grid.hovered_tile, None);
    assert_eq!(grid.grid_window, None);
    assert_eq!(grid.active_window, Some(Window(5)));
    assert!(!grid.tile(0, 0).selected && !grid.tile(0, 0).hovered);
}

#[test]
fn unhighlight_and_unselect() {
    let mut grid = grid_with_shape(2, 2);
    let p = center_of_tile(&grid, 1, 1);
    grid.select_tile(p);
    grid.highlight_tiles(p);
    grid.unhighlight_all_tiles();
    assert!(!grid.tile(1, 1).hovered && grid.tile(1, 1).selected);
    grid.unselect_all_tiles();
    assert!(!grid.tile(1, 1).selected);
    assert_eq!(grid.selected_tile, Some((1, 1)));
}

#[test]
fn carry_over_keeps_session() {
    let mut old = grid_with_shape(2, 2);
    old.quick_resize = true;
    old.active_window = Some(Window(8));
    old.previous_resize = Some((Window(8), Rect::zero()));
    let mut fresh = grid_with_shape(3, 3);
    fresh.carry_over(&old, false);
    assert!(fresh.quick_resize);
    assert_eq!(fresh.previous_resize, Some((Window(8), Rect::zero())));
    assert_eq!(fresh.active_window, None);
    fresh.carry_over(&old, true);
    assert_eq!(fresh.active_window, Some(Window(8)));
}

#[test]
fn layout_that_does_not_fit_is_reported() {
    let mut configs = GridConfigs::new();
    configs.upsert(&key(), GridConfig { rows: 2, columns: 300 });
    let grid = Grid::new(&Config::default(), configs, key(), work_area());
    assert!(!grid.layout_fits());
}

#[test]
fn custom_colors_reach_tiles() {
    let config = Config {
        colors: Some(CustomColors {
            tile: Some(Rgba { r: 1, g: 2, b: 3, a: 255 }),
            tile_hovered: None,
            tile_selected: Some(Rgba { r: 0, g: 0, b: 255, a: 255 }),
            tile_frame: None,
            grid_background: None,
            preview: None,
        }),
        ..Config::default()
    };
    let grid = Grid::new(&config, GridConfigs::new(), key(), work_area());
    let t: Tile = grid.tile(0, 0);
    assert_eq!(t.normal_color, 0x030201);
    assert_eq!(t.selected_color, 0xff0000);
    assert_eq!(t.hovered_color, 0x946400);
    assert_eq!(t.frame_color, 0);
    assert_eq!(t.fill_color(), 0x030201);
}
