//! The menu state machine: selecting, starting, and restarting games.

use snakeos::world::{GameState, KeyPress, State, World, WorldAction};

fn world_with_two_games() -> World {
    let mut w = World::new(640, 480);
    assert_eq!(w.add_game(), 0);
    assert_eq!(w.add_game(), 1);
    w
}

#[test]
fn arrows_select_and_wrap() {
    let mut w = world_with_two_games();
    assert_eq!(w.on_keypress(KeyPress::ArrowDown), WorldAction::Nothing);
    assert_eq!(w.state(), State::Welcome(true, 1));
    assert_eq!(w.on_keypress(KeyPress::ArrowDown), WorldAction::Nothing);
    assert_eq!(w.state(), State::Welcome(true, 0));
    assert_eq!(w.on_keypress(KeyPress::ArrowUp), WorldAction::Nothing);
    assert_eq!(w.state(), State::Welcome(true, 1));
}

#[test]
fn enter_starts_the_selected_game() {
    let mut w = world_with_two_games();
    w.on_keypress(KeyPress::ArrowDown);
    assert_eq!(w.on_keypress(KeyPress::Enter), WorldAction::StartGame(1));
    assert_eq!(w.state(), State::Running(1));
    // Keys now go to the running game.
    assert_eq!(w.on_keypress(KeyPress::ArrowLeft), WorldAction::ForwardKey(1));
}

#[test]
fn ticks_draw_the_welcome_screen_once() {
    let mut w = world_with_two_games();
    assert_eq!(w.on_tick(), WorldAction::DrawWelcome);
    assert_eq!(w.on_tick(), WorldAction::Nothing);
    w.on_keypress(KeyPress::ArrowDown);
    assert_eq!(w.on_tick(), WorldAction::DrawWelcome);
}

#[test]
fn game_over_and_restart() {
    let mut w = world_with_two_games();
    w.on_keypress(KeyPress::Enter);
    assert_eq!(w.on_tick(), WorldAction::StepGame(0));
    // The game reported game over: no draw this tick, the game-over screen
    // is drawn on the next one, exactly once.
    assert!(!w.game_stepped(GameState::GameOver));
    assert_eq!(w.on_tick(), WorldAction::DrawGameOver);
    assert_eq!(w.on_tick(), WorldAction::Nothing);
    // 'r' returns to the (dirty) welcome screen.
    assert_eq!(w.on_keypress(KeyPress::Unicode('r')), WorldAction::Nothing);
    assert_eq!(w.state(), State::Welcome(true, 0));
}

#[test]
fn running_game_draws_while_live() {
    let mut w = world_with_two_games();
    w.on_keypress(KeyPress::Enter);
    assert_eq!(w.on_tick(), WorldAction::StepGame(0));
    assert!(w.game_stepped(GameState::Live));
    assert_eq!(w.on_tick(), WorldAction::StepGame(0));
}
