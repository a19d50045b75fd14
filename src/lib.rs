//! Grid geometry and interaction engine for snapping windows into zones.
//!
//! The library holds the data model of a rows-by-columns tile grid, the
//! arithmetic that maps tiles to on-screen zones, the hover / selection /
//! drag-select state machine, and the decisions taken when a selection is
//! committed to a window. Every item is verified with Verus; the window
//! system, files and threads live outside it.

pub mod autostart;
pub mod config;
pub mod geometry;
pub mod grid;
pub mod hotkey;
pub mod interaction;
pub mod laws;
pub mod navigation;
pub mod overlay;
pub mod rect;
pub mod session;
pub mod shape;
pub mod window;

pub use config::{
    color_to_colorref, Config, CustomColors, CustomGridConfig, GridConfig, GridConfigKey,
    GridConfigs, NavigateHotkeys, OptionalHotkeys, Rgba, DEFAULT_PROFILE,
};
pub use grid::{Grid, Release, Tile, TileFlag};
pub use hotkey::{parse_hotkey, Hotkey, HotkeyAction, HotkeyError, HotkeyType};
pub use rect::{Rect, HIWORD, LOWORD};
pub use window::{OrderingDirection, Window};
