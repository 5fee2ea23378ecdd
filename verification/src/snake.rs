//! The snake game: a head that moves one block per step, a body that follows,
//! food placed on random free cells, and collision with the borders or the
//! snake's own body ending the game.

use vstd::prelude::*;

verus! {

use crate::display::BLOCK_SIZE;
use crate::rng::rng_from_seed;
use crate::rng::rng_next;
use crate::world::Direction;
use crate::world::GameState;
use crate::world::KeyPress;
use crate::world::ScreenPos;

/// How many random cells the food placer tries before giving up for this
/// tick; with any free cell at all, a later tick tries again.
const FOOD_ATTEMPTS: usize = 1024;

/// Where the head ends up after one step in the given direction, wrapping at
/// the screen edge the way the mover does.
pub open spec fn move_head_spec(p: ScreenPos, dir: Direction, w: int, h: int) -> ScreenPos {
    match dir {
        Direction::Up => ScreenPos { x: (p.x as int % w) as usize, y: ((p.y - BLOCK_SIZE) % h) as usize },
        Direction::Down => ScreenPos { x: (p.x as int % w) as usize, y: ((p.y + BLOCK_SIZE) % h) as usize },
        Direction::Left => ScreenPos { x: ((p.x - BLOCK_SIZE) % w) as usize, y: (p.y as int % h) as usize },
        Direction::Right => ScreenPos { x: ((p.x + BLOCK_SIZE) % w) as usize, y: (p.y as int % h) as usize },
    }
}

/// Whether a head position ends the game at the playing field's border.
pub open spec fn hits_border(p: ScreenPos, w: int, h: int) -> bool {
    ||| p.x >= w - 2 * BLOCK_SIZE
    ||| p.y >= h - 2 * BLOCK_SIZE
    ||| p.x <= BLOCK_SIZE
    ||| p.y <= BLOCK_SIZE
}

/// Whether a cell may hold food: block-aligned, inside the borders with a
/// margin, and on neither the body nor the head.
pub open spec fn food_ok(p: ScreenPos, body: Seq<ScreenPos>, head: ScreenPos, w: int, h: int) -> bool {
    &&& !body.contains(p)
    &&& p != head
    &&& p.x < w - 2 * BLOCK_SIZE
    &&& p.y < h - 2 * BLOCK_SIZE
    &&& p.x > 2 * BLOCK_SIZE
    &&& p.y > 2 * BLOCK_SIZE
    &&& p.x % BLOCK_SIZE == 0
    &&& p.y % BLOCK_SIZE == 0
}

/// How a key press changes the movement direction: letters refuse a reversal,
/// the arrow keys set the direction outright, anything else does nothing.
pub open spec fn key_direction_step(current: Direction, key: KeyPress) -> Direction {
    match key {
        KeyPress::Unicode(c) => {
            if c == 'a' && current != Direction::Right {
                Direction::Left
            } else if c == 'd' && current != Direction::Left {
                Direction::Right
            } else if c == 'w' && current != Direction::Down {
                Direction::Up
            } else if c == 's' && current != Direction::Up {
                Direction::Down
            } else {
                current
            }
        },
        KeyPress::ArrowLeft => Direction::Left,
        KeyPress::ArrowRight => Direction::Right,
        KeyPress::ArrowUp => Direction::Up,
        KeyPress::ArrowDown => Direction::Down,
        _ => current,
    }
}

/// The snake game's whole state.  The body holds the positions behind the
/// head, oldest first; the tail remembers the cell just vacated so the
/// renderer can blank it.
pub struct World {
    pub width: usize,
    pub height: usize,
    pub food: Option<ScreenPos>,
    pub score: usize,
    pub game_over: bool,
    pub speed: usize,
    pub direction: Direction,
    pub snake_length: usize,
    pub snake_head: ScreenPos,
    pub snake_body: Vec<ScreenPos>,
    pub snake_tail: Option<ScreenPos>,
    pub rng: rand::rngs::SmallRng,
    pub counter: u64,
}

impl World {
    /// The playing field is comfortably larger than a block, fits signed
    /// arithmetic, and steps are paced by a positive speed.
    pub open spec fn field_wf(&self) -> bool {
        &&& 4 * BLOCK_SIZE < self.width <= usize::MAX / 2
        &&& 4 * BLOCK_SIZE < self.height <= usize::MAX / 2
        &&& 1 <= self.speed
    }

    /// On top of the field bounds: while the game runs the head sits strictly
    /// inside the borders, and it never leaves the screen.
    pub open spec fn wf(&self) -> bool {
        &&& self.field_wf()
        &&& self.snake_head.x < self.width
        &&& self.snake_head.y < self.height
        &&& !self.game_over ==> BLOCK_SIZE < self.snake_head.x < self.width - 2 * BLOCK_SIZE
            && BLOCK_SIZE < self.snake_head.y < self.height - 2 * BLOCK_SIZE
    }

    /// A fresh game on a field of the given size: the snake sits in the
    /// middle, one block long, moving right, with no food placed yet.
    pub fn new(width: usize, height: usize) -> (w: World)
        requires
            4 * BLOCK_SIZE < width <= usize::MAX / 2,
            4 * BLOCK_SIZE < height <= usize::MAX / 2,
        ensures
            w.wf(),
            w.width == width && w.height == height,
            w.food is None && w.score == 0 && !w.game_over && w.speed == 1,
            w.direction == Direction::Right && w.snake_length == 1,
            w.snake_head == (ScreenPos { x: (width / 2) as usize, y: (height / 2) as usize }),
            w.snake_body@ == Seq::<ScreenPos>::empty(),
            w.snake_tail is None,
            w.counter == 0,
    {
        let start = ScreenPos { x: width / 2, y: height / 2 };
        World {
            width,
            height,
            food: None,
            score: 0,
            game_over: false,
            speed: 1,
            direction: Direction::Right,
            snake_length: 1,
            snake_head: start,
            snake_body: Vec::new(),
            snake_tail: None,
            rng: rng_from_seed(0),
            counter: 0,
        }
    }

    /// Put the game back to its starting state on a possibly new field size.
    pub fn reset(&mut self, width: usize, height: usize)
        requires
            4 * BLOCK_SIZE < width <= usize::MAX / 2,
            4 * BLOCK_SIZE < height <= usize::MAX / 2,
        ensures
            final(self).wf(),
            final(self).width == width && final(self).height == height,
            final(self).food is None && final(self).score == 0 && !final(self).game_over,
            final(self).speed == 2,
            final(self).direction == Direction::Right && final(self).snake_length == 1,
            final(self).snake_head == (ScreenPos {
                x: (width / 2) as usize,
                y: (height / 2) as usize,
            }),
            final(self).snake_body@ == Seq::<ScreenPos>::empty(),
            final(self).snake_tail is None,
            final(self).counter == 0,
    {
        self.width = width;
        self.height = height;
        self.food = None;
        self.score = 0;
        self.game_over = false;
        self.speed = 2;
        self.direction = Direction::Right;
        self.snake_length = 1;
        self.snake_head = ScreenPos { x: width / 2, y: height / 2 };
        self.snake_body = Vec::new();
        self.snake_tail = None;
        self.counter = 0;
    }

    /// A pseudo-random number below `max`.
    fn rand(&mut self, max: usize) -> (r: usize)
        requires
            max >= 1,
        ensures
            r < max,
            *final(self) == (World { rng: final(self).rng, ..*old(self) }),
    {
        (rng_next(&mut self.rng) % (max as u64)) as usize
    }

    /// Whether the body occupies the given cell.
    fn body_contains(&self, p: ScreenPos) -> (r: bool)
        ensures
            r == self.snake_body@.contains(p),
    {
        let mut i: usize = 0;
        while i < self.snake_body.len()
            invariant
                i <= self.snake_body@.len(),
                forall|j: int| 0 <= j < i ==> self.snake_body@[j] != p,
            decreases self.snake_body@.len() - i,
        {
            if self.snake_body[i] == p {
                return true;
            }
            i = i + 1;
        }
        false
    }

    /// Try to put food on a random free cell.  A bounded number of random
    /// cells is probed; when none of them is free the food stays unplaced and
    /// a later tick tries again.  Whatever cell is chosen is block-aligned,
    /// inside the borders, and on neither the body nor the head.
    fn place_random_food(&mut self)
        requires
            old(self).field_wf(),
        ensures
            *final(self) == (World {
                food: final(self).food,
                rng: final(self).rng,
                ..*old(self)
            }),
            old(self).food is None && final(self).food is Some ==> food_ok(
                final(self).food.unwrap(),
                old(self).snake_body@,
                old(self).snake_head,
                old(self).width as int,
                old(self).height as int,
            ),
    {
        let mut attempt: usize = 0;
        while attempt < FOOD_ATTEMPTS
            invariant
                self.field_wf(),
                *self == (World { food: self.food, rng: self.rng, ..*old(self) }),
                self.food == old(self).food,
            decreases FOOD_ATTEMPTS - attempt,
        {
            let x0 = self.rand(self.width);
            let y0 = self.rand(self.height);
            proof {
                vstd::arithmetic::div_mod::lemma_fundamental_div_mod(
                    x0 as int,
                    BLOCK_SIZE as int,
                );
                vstd::arithmetic::div_mod::lemma_div_pos_is_pos(x0 as int, BLOCK_SIZE as int);
                vstd::arithmetic::div_mod::lemma_mod_multiples_basic(
                    x0 as int / BLOCK_SIZE as int,
                    BLOCK_SIZE as int,
                );
                vstd::arithmetic::div_mod::lemma_fundamental_div_mod(
                    y0 as int,
                    BLOCK_SIZE as int,
                );
                vstd::arithmetic::div_mod::lemma_div_pos_is_pos(y0 as int, BLOCK_SIZE as int);
                vstd::arithmetic::div_mod::lemma_mod_multiples_basic(
                    y0 as int / BLOCK_SIZE as int,
                    BLOCK_SIZE as int,
                );
            }
            let x = x0 - x0 % BLOCK_SIZE;
            let y = y0 - y0 % BLOCK_SIZE;
            let p = ScreenPos { x, y };
            if !self.body_contains(p) && !(self.snake_head == p) && x + 2 * BLOCK_SIZE < self.width
                && y + 2 * BLOCK_SIZE < self.height && x > 2 * BLOCK_SIZE && y > 2 * BLOCK_SIZE {
                self.food = Some(p);
                return ;
            }
            attempt = attempt + 1;
        }
    }

    /// Steer the snake; a letter key cannot reverse it onto itself, an arrow
    /// key turns it outright.
    pub fn on_keypress(&mut self, key: KeyPress)
        ensures
            *final(self) == (World { direction: final(self).direction, ..*old(self) }),
            final(self).direction == key_direction_step(old(self).direction, key),
    {
        match key {
            KeyPress::Unicode(c) => {
                if c == 'a' {
                    if self.direction != Direction::Right {
                        self.direction = Direction::Left;
                    }
                } else if c == 'd' {
                    if self.direction != Direction::Left {
                        self.direction = Direction::Right;
                    }
                } else if c == 'w' {
                    if self.direction != Direction::Down {
                        self.direction = Direction::Up;
                    }
                } else if c == 's' {
                    if self.direction != Direction::Up {
                        self.direction = Direction::Down;
                    }
                }
            },
            KeyPress::ArrowLeft => {
                self.direction = Direction::Left;
            },
            KeyPress::ArrowRight => {
                self.direction = Direction::Right;
            },
            KeyPress::ArrowUp => {
                self.direction = Direction::Up;
            },
            KeyPress::ArrowDown => {
                self.direction = Direction::Down;
            },
            _ => {},
        }
    }

    /// Advance the game by one tick.  Only every `speed`-th tick moves the
    /// snake; a finished game only reports that it is over.  On a moving
    /// tick the head advances one block, the body follows, food on the new
    /// head cell is eaten and grows the snake, and the game ends when the
    /// head hits a border or the body.
    pub fn step(&mut self) -> (r: GameState)
        requires
            old(self).wf(),
            old(self).counter < u64::MAX,
            old(self).score < usize::MAX,
            old(self).snake_length < usize::MAX,
        ensures
            final(self).wf(),
            final(self).counter == old(self).counter + 1,
            final(self).width == old(self).width && final(self).height == old(self).height,
            final(self).speed == old(self).speed && final(self).direction == old(self).direction,
            (old(self).counter + 1) as u64 % old(self).speed as u64 != 0 ==> r
                == GameState::Live && *final(self) == (World {
                counter: final(self).counter,
                ..*old(self)
            }),
            (old(self).counter + 1) as u64 % old(self).speed as u64 == 0 && old(self).game_over
                ==> r == GameState::GameOver && *final(self) == (World {
                counter: final(self).counter,
                ..*old(self)
            }),
            (old(self).counter + 1) as u64 % old(self).speed as u64 == 0 && !old(self).game_over
                ==> ({
                let nh = move_head_spec(
                    old(self).snake_head,
                    old(self).direction,
                    old(self).width as int,
                    old(self).height as int,
                );
                let grown = old(self).snake_body@.push(old(self).snake_head);
                &&& final(self).snake_head == nh
                &&& (old(self).food == Some(nh) ==> final(self).score == old(self).score + 1
                    && final(self).snake_length == old(self).snake_length + 1 && final(self).food
                    is None && final(self).snake_body@ == grown && final(self).snake_tail == old(self).snake_tail)
                &&& (old(self).food is Some && old(self).food != Some(nh) ==> final(self).score
                    == old(self).score && final(self).snake_length == old(self).snake_length
                    && final(self).food == old(self).food && final(self).snake_body@
                    == grown.drop_first() && final(self).snake_tail == Some(grown[0]))
                &&& (old(self).food is None ==> final(self).score == old(self).score && final(self).snake_length == old(self).snake_length && final(self).snake_body@
                    == grown.drop_first() && final(self).snake_tail == Some(grown[0]) && (final(self).food is Some ==> food_ok(
                    final(self).food.unwrap(),
                    grown,
                    nh,
                    old(self).width as int,
                    old(self).height as int,
                )))
                &&& final(self).game_over == (hits_border(
                    nh,
                    old(self).width as int,
                    old(self).height as int,
                ) || final(self).snake_body@.contains(nh))
                &&& r == if final(self).game_over {
                    GameState::GameOver
                } else {
                    GameState::Live
                }
            }),
    {
        self.counter = self.counter + 1;
        if self.counter % (self.speed as u64) != 0 {
            return GameState::Live;
        }
        if self.game_over {
            return GameState::GameOver;
        }

        // Move the head one block, wrapping at the screen edge.
        let mut new_head = self.snake_head;
        if self.direction == Direction::Up {
            new_head.y = new_head.y - BLOCK_SIZE;
        } else if self.direction == Direction::Right {
            new_head.x = new_head.x + BLOCK_SIZE;
        } else if self.direction == Direction::Down {
            new_head.y = new_head.y + BLOCK_SIZE;
        } else {
            new_head.x = new_head.x - BLOCK_SIZE;
        }
        new_head.x = new_head.x % self.width;
        new_head.y = new_head.y % self.height;

        // The body follows: the old head becomes body; unless the snake just
        // ate, the oldest body cell is vacated and remembered for blanking.
        self.snake_body.push(self.snake_head);
        self.snake_head = new_head;
        let ate = match self.food {
            Some(f) => f == new_head,
            None => false,
        };
        if ate {
            self.score = self.score + 1;
            self.food = None;
            self.snake_length = self.snake_length + 1;
        } else {
            if self.food.is_none() {
                self.place_random_food();
            }
            let vacated = self.snake_body.remove(0);
            self.snake_tail = Some(vacated);
        }

        // The game ends at a border or when the head runs into the body.
        if self.snake_head.x >= self.width - 2 * BLOCK_SIZE || self.snake_head.y >= self.height - 2
            * BLOCK_SIZE || self.snake_head.x <= BLOCK_SIZE || self.snake_head.y <= BLOCK_SIZE {
            self.game_over = true;
        }
        if self.body_contains(self.snake_head) {
            self.game_over = true;
        }

        if self.game_over {
            GameState::GameOver
        } else {
            GameState::Live
        }
    }
}

} // verus!
