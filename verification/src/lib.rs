//! Tile editor core: colours, square tile canvases and their transforms, the
//! module registry, and the randomly assembled preview map.

pub mod canvas;
pub mod color;
pub mod controllers;
pub mod delegate;
pub mod error;
pub mod grid;
pub mod lens;
pub mod listing;
pub mod random;
pub mod raster;
pub mod state;
pub mod tile_file;
pub mod tile_png;

pub use canvas::{Canvas, CanvasView, PointerEvent};
pub use grid::{CanvasPos, CANVAS_CELLS, CANVAS_SIZE};
pub use color::Color;
pub use controllers::{make_context_menu, ContextMenuController, MenuAction, MenuEntry};
pub use delegate::{Command, Delegate, Outcome, CLEAR_CANVAS, SAVE_CANVAS, SHOW_MAP_WINDOW};
pub use error::TileError;
pub use lens::CanvasLens;
pub use raster::Raster;
pub use state::{AppState, AppStateView, MapDraw, MAP_SIZE};
pub use listing::path_order;
pub use tile_file::{tile_file_path, TileFile, TILE_DIRECTORY};
pub use tile_png::check_tile_png;
