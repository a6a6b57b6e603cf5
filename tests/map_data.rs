use veiled_path::map_data::{validate_map, LoadError, MapData};
use veiled_path::map_manager::MapManager;
use veiled_path::state::LevelChoice;

fn document(name: &str, size: i32) -> MapData {
    MapData {
        name: name.to_string(),
        size,
        start_x: 1,
        start_y: 1,
        goal_x: 3,
        goal_y: 3,
        walls: Vec::new(),
        doors: Vec::new(),
        keys: Vec::new(),
    }
}

#[test]
fn widths_that_are_multiples_of_16_are_accepted() {
    for size in [0, 16, 32, 64, 1600] {
        let data = validate_map(document("ok", size)).unwrap();
        assert_eq!(data.size, size);
        assert_eq!(data.name, "ok");
    }
}

#[test]
fn other_widths_fail_validation() {
    for size in [1, 8, 15, 17, 31, 33, -8, 100] {
        assert_eq!(validate_map(document("bad", size)).err(), Some(LoadError::Validation));
    }
}

#[test]
fn manager_serves_the_picked_level() {
    let mut manager = MapManager::new(document("tuto", 16), document("level", 32));
    assert_eq!(manager.level_data(LevelChoice::Tutorial).unwrap().name, "tuto");
    assert_eq!(manager.level_data(LevelChoice::Level1).unwrap().name, "level");
    assert!(manager.level_data(LevelChoice::Custom).is_none());
    assert!(manager.level_data(LevelChoice::Unselected).is_none());
    manager.set_custom_map(document("mine", 48));
    assert_eq!(manager.level_data(LevelChoice::Custom).unwrap().size, 48);
    assert_eq!(manager.tuto_map.name, "tuto");
}
