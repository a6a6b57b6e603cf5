use vstd::prelude::*;
use crate::dimension::Dimension;

verus! {

/// A wall entry of a map document.
#[derive(Clone, Copy, Debug, PartialEq, Eq, Structural)]
pub struct Wall {
    pub x: i32,
    pub y: i32,
    pub dimension: Dimension,
}

/// A door entry of a map document.
#[derive(Clone, Copy, Debug, PartialEq, Eq, Structural)]
pub struct Door {
    pub x: i32,
    pub y: i32,
    pub id: u32,
    pub dimension: Dimension,
}

/// A key entry of a map document; it opens the doors whose id is `door_id`.
#[derive(Clone, Copy, Debug, PartialEq, Eq, Structural)]
pub struct Key {
    pub x: i32,
    pub y: i32,
    pub door_id: u32,
    pub dimension: Dimension,
}

/// A level as a map document describes it.
#[derive(Clone, Debug)]
pub struct MapData {
    pub name: String,
    /// Width of the grid in cells; the height is derived from it.
    pub size: i32,
    pub start_x: i32,
    pub start_y: i32,
    pub goal_x: i32,
    pub goal_y: i32,
    pub walls: Vec<Wall>,
    pub doors: Vec<Door>,
    pub keys: Vec<Key>,
}

/// Why a map document could not be loaded.
#[derive(Clone, Copy, Debug, PartialEq, Eq, Structural)]
pub enum LoadError {
    /// The document is not a well-formed map description.
    Parse,
    /// The width is not a multiple of 16.
    Validation,
}

/// The levels bundled with the game.
#[derive(Clone, Copy, Debug, PartialEq, Eq, Structural)]
pub enum MapFile {
    Level,
    Tuto,
}

/// Where a map document comes from.
#[derive(Clone, Debug)]
pub enum MapSource {
    /// A file given by its path.
    FilePath(String),
    /// One of the bundled levels.
    FileContent(MapFile),
}

/// The number of cells a grid row spans for every 16 cells of width, kept so
/// that the grid has a 16:9 shape.
pub const ROWS_PER_16_COLUMNS: i32 = 9;

/// The width of a grid must be a multiple of this.
pub const WIDTH_STEP: i32 = 16;

/// Whether `size` is an acceptable grid width.
pub open spec fn valid_size(size: i32) -> bool {
    size % 16 == 0
}

/// Height of the grid for a given width: 9 rows for every 16 columns.
pub open spec fn grid_height(size: i32) -> int {
    (size / 16) * 9
}

impl MapData {
    /// The checks a document must pass to be loaded.
    pub open spec fn is_valid(&self) -> bool {
        valid_size(self.size)
    }
}

/// Accepts a parsed map document, or rejects it when its width is not a
/// multiple of 16. No other check is made here: entries outside the grid are
/// dropped when the grid is built.
pub fn validate_map(data: MapData) -> (r: Result<MapData, LoadError>)
    ensures
        valid_size(data.size) ==> r == Ok::<MapData, LoadError>(data),
        !valid_size(data.size) ==> r == Err::<MapData, LoadError>(LoadError::Validation),
{
    if data.size % WIDTH_STEP != 0 {
        return Err(LoadError::Validation);
    }
    Ok(data)
}

} // verus!
