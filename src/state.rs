use vstd::prelude::*;

verus! {

/// Where the game is: in the menu, playing a level, lost, or won.
#[derive(Clone, Copy, Debug, PartialEq, Eq, Hash, Structural)]
pub enum GameState {
    Menu,
    Game,
    Over,
    Win,
}

impl Default for GameState {
    fn default() -> (r: GameState)
        ensures
            r == GameState::Menu,
    {
        GameState::Menu
    }
}

/// The level picked in the menu.
#[derive(Clone, Copy, Debug, PartialEq, Eq, Structural)]
pub enum LevelChoice {
    /// Nothing picked yet.
    Unselected,
    Tutorial,
    Level1,
    Custom,
}

/// What can move the game from one state to another.
#[derive(Clone, Copy, Debug, PartialEq, Eq, Structural)]
pub enum StateEvent {
    /// A level was picked in the menu.
    LevelPicked,
    /// The player ran into a wall or a closed door.
    Collided,
    /// The player reached the goal.
    ReachedGoal,
    /// Try the lost level again.
    Retry,
    /// Go back to the menu.
    BackToMenu,
}

/// The state that `event` leads to from `s`; an event that does not apply
/// in a state leaves it as it is.
pub open spec fn next_state(s: GameState, event: StateEvent) -> GameState {
    match (s, event) {
        (GameState::Menu, StateEvent::LevelPicked) => GameState::Game,
        (GameState::Game, StateEvent::Collided) => GameState::Over,
        (GameState::Game, StateEvent::ReachedGoal) => GameState::Win,
        (GameState::Over, StateEvent::Retry) => GameState::Game,
        (GameState::Over, StateEvent::BackToMenu) => GameState::Menu,
        (GameState::Win, StateEvent::BackToMenu) => GameState::Menu,
        _ => s,
    }
}

impl GameState {
    /// The state that `event` leads to.
    pub fn on_event(self, event: StateEvent) -> (r: GameState)
        ensures
            r == next_state(self, event),
    {
        match (self, event) {
            (GameState::Menu, StateEvent::LevelPicked) => GameState::Game,
            (GameState::Game, StateEvent::Collided) => GameState::Over,
            (GameState::Game, StateEvent::ReachedGoal) => GameState::Win,
            (GameState::Over, StateEvent::Retry) => GameState::Game,
            (GameState::Over, StateEvent::BackToMenu) => GameState::Menu,
            (GameState::Win, StateEvent::BackToMenu) => GameState::Menu,
            _ => self,
        }
    }
}

} // verus!
