//! The snake game on concrete fields: movement, pacing, eating, and the two
//! ways to lose.

use snakeos::snake::World;
use snakeos::world::{Direction, GameState, KeyPress, ScreenPos};

#[test]
fn head_moves_one_block_per_step() {
    let mut w = World::new(640, 480);
    assert_eq!(w.snake_head, ScreenPos::new(320, 240));
    assert_eq!(w.step(), GameState::Live);
    assert_eq!(w.snake_head, ScreenPos::new(328, 240));
    assert_eq!(w.snake_body.len(), 0);
    assert_eq!(w.snake_tail, Some(ScreenPos::new(320, 240)));
}

#[test]
fn speed_paces_the_steps() {
    let mut w = World::new(640, 480);
    w.reset(640, 480);
    assert_eq!(w.speed, 2);
    let start = w.snake_head;
    assert_eq!(w.step(), GameState::Live);
    assert_eq!(w.snake_head, start);
    assert_eq!(w.step(), GameState::Live);
    assert_eq!(w.snake_head, ScreenPos::new(start.x + 8, start.y));
}

#[test]
fn keys_steer_but_never_reverse() {
    let mut w = World::new(640, 480);
    assert_eq!(w.direction, Direction::Right);
    // 'a' would reverse the snake onto itself: refused.
    w.on_keypress(KeyPress::Unicode('a'));
    assert_eq!(w.direction, Direction::Right);
    w.on_keypress(KeyPress::Unicode('w'));
    assert_eq!(w.direction, Direction::Up);
    w.on_keypress(KeyPress::Unicode('s'));
    assert_eq!(w.direction, Direction::Up);
    w.on_keypress(KeyPress::Unicode('a'));
    assert_eq!(w.direction, Direction::Left);
    // An arrow key turns outright.
    w.on_keypress(KeyPress::ArrowRight);
    assert_eq!(w.direction, Direction::Right);
}

#[test]
fn eating_food_grows_the_snake() {
    let mut w = World::new(640, 480);
    w.food = Some(ScreenPos::new(328, 240));
    assert_eq!(w.step(), GameState::Live);
    assert_eq!(w.score, 1);
    assert_eq!(w.snake_length, 2);
    assert_eq!(w.food, None);
    // The body was not trimmed: the vacated-cell marker is untouched.
    assert_eq!(w.snake_body, vec![ScreenPos::new(320, 240)]);
    assert_eq!(w.snake_tail, None);
}

#[test]
fn food_lands_on_a_free_aligned_cell() {
    let mut w = World::new(640, 480);
    assert_eq!(w.step(), GameState::Live);
    // No food was set, so the step placed some.
    let p = w.food.expect("food should have been placed");
    assert_eq!(p.x % 8, 0);
    assert_eq!(p.y % 8, 0);
    assert!(p.x > 16 && p.x < 640 - 16);
    assert!(p.y > 16 && p.y < 480 - 16);
    assert_ne!(p, w.snake_head);
}

#[test]
fn hitting_the_border_ends_the_game() {
    let mut w = World::new(640, 480);
    // The head starts at x = 320; the field ends at 640 - 16.
    let mut steps = 0;
    loop {
        steps += 1;
        if w.step() == GameState::GameOver {
            break;
        }
        assert!(steps < 1000, "the snake should have reached the border");
    }
    assert!(w.game_over);
    assert!(w.snake_head.x >= 640 - 16);
    // A finished game only reports that it is over.
    let head = w.snake_head;
    assert_eq!(w.step(), GameState::GameOver);
    assert_eq!(w.snake_head, head);
}

#[test]
fn running_into_the_body_ends_the_game() {
    let mut w = World::new(640, 480);
    // Feed the snake until it is long enough to bite itself, then turn in a
    // tight square: right, down, left, up.
    for _ in 0..4 {
        w.food = Some(match w.direction {
            Direction::Right => ScreenPos::new(w.snake_head.x + 8, w.snake_head.y),
            _ => unreachable!(),
        });
        assert_eq!(w.step(), GameState::Live);
    }
    assert_eq!(w.snake_length, 5);
    w.food = None;

    w.on_keypress(KeyPress::ArrowDown);
    assert_eq!(w.step(), GameState::Live);
    w.on_keypress(KeyPress::ArrowLeft);
    assert_eq!(w.step(), GameState::Live);
    w.on_keypress(KeyPress::ArrowUp);
    assert_eq!(w.step(), GameState::GameOver);
    assert!(w.game_over);
}
