//! The ways an operation on tiles can fail.

use vstd::prelude::*;
use vstd::string::StringExecFns;

verus! {

/// Why an operation on a tile or on the registry did not succeed.
#[derive(Clone, Copy, Debug, PartialEq, Eq, Structural)]
pub enum TileError {
    /// A tile file or directory could not be read, or a tile could not be
    /// written out.
    Io,
    /// The bytes are not an image, or the image is not a tile: its sides
    /// differ from the canvas side.
    Decode,
    /// No tile in the registry carries the requested identifier.
    NotFound,
    /// A cell position lies outside the canvas.
    OutOfRange,
}

impl TileError {
    /// A short description for the user.
    pub fn message(&self) -> (text: String)
        ensures
            text@ == match *self {
                TileError::Io => "tile file could not be read or written"@,
                TileError::Decode => "not an image of tile size"@,
                TileError::NotFound => "no module found with that id"@,
                TileError::OutOfRange => "cell position outside the canvas"@,
            },
    {
        match self {
            TileError::Io => String::from_str("tile file could not be read or written"),
            TileError::Decode => String::from_str("not an image of tile size"),
            TileError::NotFound => String::from_str("no module found with that id"),
            TileError::OutOfRange => String::from_str("cell position outside the canvas"),
        }
    }
}

} // verus!
