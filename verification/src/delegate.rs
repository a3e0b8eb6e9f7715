//! The application commands and what each of them does to the state.

use vstd::prelude::*;
use crate::canvas::saved_bytes;
use crate::grid::blank_cells;
use crate::error::TileError;
use crate::state::{assembled_map, valid_draws, AppState, AppStateView, MapDraw};
use crate::tile_file::{tile_path, TileFile};

verus! {

/// Name under which the command to save the active tile is sent.
pub const SAVE_CANVAS: &'static str = "tile-wave.save-canvas";

/// Name under which the command to clear the active tile is sent.
pub const CLEAR_CANVAS: &'static str = "tile-wave.clear-canvas";

/// Name under which the command to show the map is sent.
pub const SHOW_MAP_WINDOW: &'static str = "tile-wave.show-map-window";

/// A command that reaches the application.
#[derive(Clone, Copy, Debug, PartialEq, Eq, Structural)]
pub enum Command {
    /// Assemble the map anew and show it.
    ShowMapWindow,
    /// Save the active tile.
    SaveCanvas,
    /// Clear the active tile.
    ClearCanvas,
    /// Any other command.
    Other,
}

/// What is left to do once a command has been applied to the state.
#[derive(Debug, PartialEq, Eq)]
pub enum Outcome {
    /// The map was assembled anew: a window that shows it is to be opened.
    ShowMap,
    /// The active tile was encoded: the file is to be written.
    Save(TileFile),
    /// The active tile was cleared: nothing is left to do.
    Cleared,
    /// The command is none of this application's: it is left to others.
    NotHandled,
}

/// Applies the application commands to the state.
pub struct Delegate;

impl Delegate {
    /// Applies `command` to `data` and says what is left to do.
    ///
    /// `ShowMapWindow` assembles the map anew from random draws;
    /// `SaveCanvas` encodes the active tile and changes nothing, `Io` when
    /// the encoder reports an error; `ClearCanvas` resets the active tile
    /// to black; any other command changes nothing and is not handled.
    pub fn command(&mut self, command: Command, data: &mut AppState) -> (result: Result<
        Outcome,
        TileError,
    >)
        requires
            old(data).wf(),
        ensures
            final(data).wf(),
            match command {
                Command::ShowMapWindow => result matches Ok(Outcome::ShowMap) && exists|
                    draws: Seq<MapDraw>,
                | #[trigger]
                    valid_draws(draws, old(data)@.modules.len()) && final(data)@ == (AppStateView {
                        map: assembled_map(old(data)@.modules, draws),
                        ..old(data)@
                    }),
                Command::SaveCanvas => final(data)@ == old(data)@ && match result {
                    Ok(Outcome::Save(file)) => file.path@ == tile_path(old(data)@.active_canvas_id)
                        && saved_bytes(old(data)@.active_module().cells) == Some(file.bytes@),
                    Ok(_) => false,
                    Err(error) => saved_bytes(old(data)@.active_module().cells) is None && error
                        == TileError::Io,
                },
                Command::ClearCanvas => result matches Ok(Outcome::Cleared) && final(data)@
                    == old(data)@.with_active_module(
                    old(data)@.active_module().with_cells(blank_cells()),
                ),
                Command::Other => result matches Ok(Outcome::NotHandled) && final(data)@
                    == old(data)@,
            },
    {
        match command {
            Command::ShowMapWindow => {
                data.fill_map();
                Ok(Outcome::ShowMap)
            },
            Command::SaveCanvas => {
                match data.save_active_canvas_as_image() {
                    Ok(file) => Ok(Outcome::Save(file)),
                    Err(error) => Err(error),
                }
            },
            Command::ClearCanvas => {
                data.clear_active_canvas();
                Ok(Outcome::Cleared)
            },
            Command::Other => Ok(Outcome::NotHandled),
        }
    }
}

impl Outcome {
    /// Whether the command was one of this application's.
    pub fn handled(&self) -> (handled: bool)
        ensures
            handled == !(*self is NotHandled),
    {
        match self {
            Outcome::NotHandled => false,
            _ => true,
        }
    }
}

} // verus!
