use veiled_path::state::{GameState, StateEvent};

#[test]
fn game_starts_in_the_menu() {
    assert_eq!(GameState::default(), GameState::Menu);
}

#[test]
fn state_transitions() {
    assert_eq!(GameState::Menu.on_event(StateEvent::LevelPicked), GameState::Game);
    assert_eq!(GameState::Game.on_event(StateEvent::Collided), GameState::Over);
    assert_eq!(GameState::Game.on_event(StateEvent::ReachedGoal), GameState::Win);
    assert_eq!(GameState::Over.on_event(StateEvent::Retry), GameState::Game);
    assert_eq!(GameState::Over.on_event(StateEvent::BackToMenu), GameState::Menu);
    assert_eq!(GameState::Win.on_event(StateEvent::BackToMenu), GameState::Menu);
}

#[test]
fn events_that_do_not_apply_change_nothing() {
    assert_eq!(GameState::Win.on_event(StateEvent::Retry), GameState::Win);
    assert_eq!(GameState::Menu.on_event(StateEvent::Collided), GameState::Menu);
    assert_eq!(GameState::Over.on_event(StateEvent::ReachedGoal), GameState::Over);
    assert_eq!(GameState::Game.on_event(StateEvent::LevelPicked), GameState::Game);
}
