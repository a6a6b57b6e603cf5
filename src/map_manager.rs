use vstd::prelude::*;
use crate::map_data::MapData;
use crate::state::LevelChoice;

verus! {

/// The level documents the game can play: the tutorial, the first level,
/// and one given by the player, if any.
pub struct MapManager {
    pub tuto_map: MapData,
    pub level1_map: MapData,
    pub custom_map: Option<MapData>,
}

impl MapManager {
    /// The bundled levels, with no custom level yet.
    pub fn new(tuto_map: MapData, level_map: MapData) -> (r: MapManager)
        ensures
            r.tuto_map == tuto_map,
            r.level1_map == level_map,
            r.custom_map is None,
    {
        MapManager { tuto_map, level1_map: level_map, custom_map: None }
    }

    /// Adds, or replaces, the custom level.
    pub fn set_custom_map(&mut self, custom_map: MapData)
        ensures
            final(self).tuto_map == old(self).tuto_map,
            final(self).level1_map == old(self).level1_map,
            final(self).custom_map == Some(custom_map),
    {
        self.custom_map = Some(custom_map)
    }

    /// The document of the level picked in the menu; `None` when nothing is
    /// picked, or the custom level is picked but none was given.
    pub fn level_data(&self, level: LevelChoice) -> (r: Option<&MapData>)
        ensures
            match level {
                LevelChoice::Tutorial => r == Some(&self.tuto_map),
                LevelChoice::Level1 => r == Some(&self.level1_map),
                LevelChoice::Custom => match &self.custom_map {
                    Some(m) => r == Some(m),
                    None => r is None,
                },
                LevelChoice::Unselected => r is None,
            },
    {
        match level {
            LevelChoice::Tutorial => Some(&self.tuto_map),
            LevelChoice::Level1 => Some(&self.level1_map),
            LevelChoice::Custom => match &self.custom_map {
                Some(m) => Some(m),
                None => None,
            },
            LevelChoice::Unselected => None,
        }
    }
}

} // verus!
