use veiled_path::dimension::Dimension;
use veiled_path::grid::{BuildWarning, Cell, Door, DoorId, DualGrid, ItemType, Key};
use veiled_path::map_data::{self, MapData};

fn document(size: i32) -> MapData {
    MapData {
        name: "test".to_string(),
        size,
        start_x: 0,
        start_y: 0,
        goal_x: 30,
        goal_y: 15,
        walls: Vec::new(),
        doors: Vec::new(),
        keys: Vec::new(),
    }
}

fn wall(x: i32, y: i32, dimension: Dimension) -> map_data::Wall {
    map_data::Wall { x, y, dimension }
}

#[test]
fn build_derives_height_from_width() {
    for size in [16, 32, 48, 160] {
        let grid = DualGrid::new(&document(size));
        assert_eq!(grid.width, size);
        assert_eq!(grid.height, (size / 16) * 9);
        assert_eq!(grid.light_cells.len(), (size * (size / 16) * 9) as usize);
        assert_eq!(grid.dark_cells.len(), grid.light_cells.len());
    }
}

#[test]
fn build_of_zero_width_is_empty() {
    let grid = DualGrid::new(&document(0));
    assert_eq!(grid.height, 0);
    assert!(grid.light_cells.is_empty());
    assert_eq!(grid.at(0, 0, Dimension::Light), None);
}

#[test]
fn cells_are_laid_out_column_by_column() {
    let grid = DualGrid::new(&document(32));
    let cell = grid.light_cells[(3 * 18 + 4) as usize];
    assert_eq!((cell.x, cell.y), (3, 4));
    let cell = grid.dark_cells[(31 * 18 + 17) as usize];
    assert_eq!((cell.x, cell.y), (31, 17));
}

#[test]
fn goal_is_in_both_dimensions() {
    let grid = DualGrid::new(&document(32));
    assert_eq!(grid.at(30, 15, Dimension::Light).unwrap().item_type, ItemType::Goal);
    assert_eq!(grid.at(30, 15, Dimension::Dark).unwrap().item_type, ItemType::Goal);
}

#[test]
fn walls_doors_and_keys_go_to_their_dimension() {
    let mut doc = document(32);
    doc.walls.push(wall(5, 5, Dimension::Light));
    doc.doors.push(map_data::Door { x: 6, y: 6, id: 3, dimension: Dimension::Dark });
    doc.keys.push(map_data::Key { x: 7, y: 7, door_id: 3, dimension: Dimension::Light });
    let grid = DualGrid::new(&doc);
    assert_eq!(grid.at(5, 5, Dimension::Light).unwrap().item_type, ItemType::Wall);
    assert_eq!(grid.at(5, 5, Dimension::Dark).unwrap().item_type, ItemType::Empty);
    assert_eq!(
        grid.at(6, 6, Dimension::Dark).unwrap().item_type,
        ItemType::Door(Door { open: false, id: 3 })
    );
    assert_eq!(grid.at(6, 6, Dimension::Light).unwrap().item_type, ItemType::Empty);
    assert_eq!(
        grid.at(7, 7, Dimension::Light).unwrap().item_type,
        ItemType::Key(Key { taken: false, door_id: 3 })
    );
}

#[test]
fn at_outside_the_grid_is_none() {
    let grid = DualGrid::new(&document(32));
    assert_eq!(grid.at(-1, 0, Dimension::Light), None);
    assert_eq!(grid.at(0, -1, Dimension::Dark), None);
    assert_eq!(grid.at(32, 0, Dimension::Light), None);
    assert_eq!(grid.at(0, 18, Dimension::Light), None);
    assert_eq!(
        grid.at(31, 17, Dimension::Light),
        Some(Cell { x: 31, y: 17, item_type: ItemType::Empty })
    );
}

#[test]
fn entries_outside_the_grid_are_dropped_with_a_warning() {
    let mut doc = document(32);
    doc.walls.push(wall(0, 18, Dimension::Light));
    doc.walls.push(wall(-1, 3, Dimension::Dark));
    let (grid, warnings) = DualGrid::build(&doc);
    assert_eq!(
        warnings,
        vec![BuildWarning::OutOfGrid { x: 0, y: 18 }, BuildWarning::OutOfGrid { x: -1, y: 3 }]
    );
    // A row past the end must not wrap into the next column.
    assert_eq!(grid.at(1, 0, Dimension::Light).unwrap().item_type, ItemType::Empty);
}

#[test]
fn a_later_entry_overwrites_with_a_warning() {
    let mut doc = document(32);
    doc.walls.push(wall(4, 4, Dimension::Light));
    doc.keys.push(map_data::Key { x: 4, y: 4, door_id: 9, dimension: Dimension::Light });
    let (grid, warnings) = DualGrid::build(&doc);
    assert_eq!(warnings, vec![BuildWarning::Overwrite { x: 4, y: 4 }]);
    assert_eq!(
        grid.at(4, 4, Dimension::Light).unwrap().item_type,
        ItemType::Key(Key { taken: false, door_id: 9 })
    );
}

#[test]
fn a_clean_document_gives_no_warning() {
    let mut doc = document(16);
    doc.goal_x = 2;
    doc.goal_y = 2;
    doc.walls.push(wall(1, 1, Dimension::Dark));
    let (_, warnings) = DualGrid::build(&doc);
    assert!(warnings.is_empty());
}

#[test]
fn open_door_opens_matching_doors_in_both_dimensions() {
    let mut doc = document(32);
    doc.doors.push(map_data::Door { x: 10, y: 10, id: 7, dimension: Dimension::Light });
    doc.doors.push(map_data::Door { x: 11, y: 10, id: 7, dimension: Dimension::Dark });
    doc.doors.push(map_data::Door { x: 12, y: 10, id: 8, dimension: Dimension::Light });
    doc.keys.push(map_data::Key { x: 2, y: 2, door_id: 7, dimension: Dimension::Dark });
    doc.keys.push(map_data::Key { x: 3, y: 2, door_id: 7, dimension: Dimension::Light });
    doc.keys.push(map_data::Key { x: 4, y: 2, door_id: 8, dimension: Dimension::Light });
    let mut grid = DualGrid::new(&doc);
    grid.open_door(7);
    assert_eq!(
        grid.at(10, 10, Dimension::Light).unwrap().item_type,
        ItemType::Door(Door { open: true, id: 7 })
    );
    assert_eq!(
        grid.at(11, 10, Dimension::Dark).unwrap().item_type,
        ItemType::Door(Door { open: true, id: 7 })
    );
    assert_eq!(
        grid.at(12, 10, Dimension::Light).unwrap().item_type,
        ItemType::Door(Door { open: false, id: 8 })
    );
    assert_eq!(
        grid.at(2, 2, Dimension::Dark).unwrap().item_type,
        ItemType::Key(Key { taken: true, door_id: 7 })
    );
    assert_eq!(
        grid.at(3, 2, Dimension::Light).unwrap().item_type,
        ItemType::Key(Key { taken: true, door_id: 7 })
    );
    assert_eq!(
        grid.at(4, 2, Dimension::Light).unwrap().item_type,
        ItemType::Key(Key { taken: false, door_id: 8 })
    );
    assert_eq!(grid.at(30, 15, Dimension::Light).unwrap().item_type, ItemType::Goal);
}

#[test]
fn open_door_without_a_matching_door_only_takes_keys() {
    let mut doc = document(16);
    doc.keys.push(map_data::Key { x: 2, y: 2, door_id: 5, dimension: Dimension::Light });
    doc.walls.push(wall(3, 3, Dimension::Light));
    let mut grid = DualGrid::new(&doc);
    grid.open_door(5);
    assert_eq!(
        grid.at(2, 2, Dimension::Light).unwrap().item_type,
        ItemType::Key(Key { taken: true, door_id: 5 })
    );
    assert_eq!(grid.at(3, 3, Dimension::Light).unwrap().item_type, ItemType::Wall);
}

#[test]
fn get_mut_cell_reaches_the_same_cell_as_at() {
    let mut grid = DualGrid::new(&document(16));
    assert!(grid.get_mut_cell(16, 0, Dimension::Light).is_none());
    assert!(grid.get_mut_cell(0, 9, Dimension::Light).is_none());
    let cell = grid.get_mut_cell(3, 8, Dimension::Dark).unwrap();
    assert_eq!((cell.x, cell.y), (3, 8));
    let overwrote = cell.set_data(ItemType::Wall);
    assert!(!overwrote);
    assert_eq!(grid.at(3, 8, Dimension::Dark).unwrap().item_type, ItemType::Wall);
    assert_eq!(grid.at(3, 8, Dimension::Light).unwrap().item_type, ItemType::Empty);
}

#[test]
fn set_data_reports_an_overwrite() {
    let mut cell = Cell::new(1, 2);
    assert_eq!(cell, Cell { x: 1, y: 2, item_type: ItemType::Empty });
    assert!(!cell.set_data(ItemType::Goal));
    assert!(cell.set_data(ItemType::Wall));
    assert_eq!(cell.item_type, ItemType::Wall);
}

#[test]
fn door_entities_go_when_their_door_opens() {
    let opened = vec![3, 7];
    assert!(DoorId(7).opened_by(&opened));
    assert!(!DoorId(4).opened_by(&opened));
    assert!(!DoorId(4).opened_by(&Vec::new()));
}
