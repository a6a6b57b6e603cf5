use veiled_path::engine::GameData;
use veiled_path::map_data::MapData;
use veiled_path::physics::UNIT;
use veiled_path::tutorial::{init_tuto, Tutorial};

fn game_at_column(col: i64) -> GameData {
    let doc = MapData {
        name: "t".to_string(),
        size: 16,
        start_x: 0,
        start_y: 0,
        goal_x: 15,
        goal_y: 8,
        walls: Vec::new(),
        doors: Vec::new(),
        keys: Vec::new(),
    };
    let mut game = GameData::new(&doc);
    game.player.x = col * UNIT + UNIT / 2;
    game
}

#[test]
fn new_tutorial_is_empty() {
    let tutorial = Tutorial::new();
    assert_eq!(tutorial.current_message_index, None);
    assert!(tutorial.message_list.is_empty());
    assert!(tutorial.get_current_message().is_none());
}

#[test]
fn check_brings_up_the_first_message_of_the_column() {
    let mut tutorial = Tutorial::new();
    tutorial.add_message("a".to_string(), 1);
    tutorial.add_message("b".to_string(), 3);
    tutorial.add_message("c".to_string(), 3);
    let mut game = game_at_column(3);
    tutorial.check_message(&mut game);
    assert_eq!(tutorial.current_message_index, Some(1));
    assert_eq!(tutorial.get_current_message().unwrap().text, "b");
    // While one is shown, checking changes nothing.
    let mut game = game_at_column(1);
    tutorial.check_message(&mut game);
    assert_eq!(tutorial.current_message_index, Some(1));
}

#[test]
fn dismissed_message_is_not_shown_again() {
    let mut tutorial = Tutorial::new();
    tutorial.add_message("a".to_string(), 1);
    tutorial.add_message("b".to_string(), 4);
    let mut game = game_at_column(4);
    tutorial.check_message(&mut game);
    assert_eq!(tutorial.current_message_index, Some(1));
    tutorial.delete_message();
    assert_eq!(tutorial.current_message_index, None);
    assert_eq!(tutorial.message_list.len(), 1);
    tutorial.check_message(&mut game);
    assert_eq!(tutorial.current_message_index, None);
    assert!(tutorial.get_current_message().is_none());
}

#[test]
fn a_second_message_of_the_column_follows_the_first() {
    let mut tutorial = Tutorial::new();
    tutorial.add_message("first".to_string(), 0);
    tutorial.add_message("second".to_string(), 0);
    let mut game = game_at_column(0);
    tutorial.check_message(&mut game);
    tutorial.delete_message();
    tutorial.check_message(&mut game);
    assert_eq!(tutorial.get_current_message().unwrap().text, "second");
}

#[test]
fn deleting_with_nothing_shown_changes_nothing() {
    let mut tutorial = Tutorial::new();
    tutorial.add_message("a".to_string(), 1);
    tutorial.delete_message();
    assert_eq!(tutorial.message_list.len(), 1);
}

#[test]
fn column_two_allows_switching_whatever_messages_remain() {
    let mut tutorial = Tutorial::new();
    let mut game = game_at_column(2);
    init_tuto(&mut game, &mut tutorial);
    assert!(!game.dimension_enabled);
    let mut elsewhere = game_at_column(1);
    elsewhere.dimension_enabled = false;
    tutorial.check_message(&mut elsewhere);
    assert!(!elsewhere.dimension_enabled);
    tutorial.check_message(&mut game);
    assert!(game.dimension_enabled);

    let mut empty = Tutorial::new();
    let mut game = game_at_column(2);
    game.dimension_enabled = false;
    empty.check_message(&mut game);
    assert!(game.dimension_enabled);
}

#[test]
fn init_tuto_queues_the_hints_in_order() {
    let mut tutorial = Tutorial::new();
    let mut game = game_at_column(0);
    init_tuto(&mut game, &mut tutorial);
    let cols: Vec<i32> = tutorial.message_list.iter().map(|m| m.col).collect();
    assert_eq!(cols, vec![0, 0, 0, 2, 2, 3, 4, 4, 5, 5, 6, 8]);
    assert_eq!(
        tutorial.message_list[11].text,
        "Easy Right? This was only the tutorial real map is a bit more complexe"
    );
}
