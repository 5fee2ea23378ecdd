//! Shared vocabulary of the applications that run as tasks: a game's
//! externally observable state, screen positions, movement directions, and a
//! small fixed-capacity character buffer for composing on-screen text without
//! allocating.

use vstd::prelude::*;

verus! {

/// What one step of a game reports to the world around it.
#[derive(Debug, Clone, Copy, PartialEq, Eq, Structural)]
pub enum GameState {
    Live,
    GameOver,
}

/// A direction of movement on the board or the screen.
#[derive(Debug, Clone, Copy, PartialEq, Eq, Structural)]
pub enum Direction {
    Up,
    Right,
    Down,
    Left,
}

/// A position on screen in pixels; (0,0) is the top-left corner.
#[derive(Debug, Clone, Copy, PartialEq, Eq, Structural)]
pub struct ScreenPos {
    pub x: usize,
    pub y: usize,
}

impl ScreenPos {
    pub fn new(x: usize, y: usize) -> (p: ScreenPos)
        ensures
            p == (ScreenPos { x, y }),
    {
        ScreenPos { x, y }
    }

    /// The position `y_offset` pixels further up.
    pub fn up(&self, y_offset: usize) -> (p: ScreenPos)
        requires
            y_offset <= self.y,
        ensures
            p == (ScreenPos { x: self.x, y: (self.y - y_offset) as usize }),
    {
        ScreenPos { x: self.x, y: self.y - y_offset }
    }

    /// The position `y_offset` pixels further down.
    pub fn down(&self, y_offset: usize) -> (p: ScreenPos)
        requires
            self.y + y_offset <= usize::MAX,
        ensures
            p == (ScreenPos { x: self.x, y: (self.y + y_offset) as usize }),
    {
        ScreenPos { x: self.x, y: self.y + y_offset }
    }

    /// The position `x_offset` pixels further left.
    pub fn left(&self, x_offset: usize) -> (p: ScreenPos)
        requires
            x_offset <= self.x,
        ensures
            p == (ScreenPos { x: (self.x - x_offset) as usize, y: self.y }),
    {
        ScreenPos { x: self.x - x_offset, y: self.y }
    }

    /// The position `x_offset` pixels further right.
    pub fn right(&self, x_offset: usize) -> (p: ScreenPos)
        requires
            self.x + x_offset <= usize::MAX,
        ensures
            p == (ScreenPos { x: (self.x + x_offset) as usize, y: self.y }),
    {
        ScreenPos { x: self.x + x_offset, y: self.y }
    }

    /// Read as a width and height, the middle of that rectangle.
    pub fn center(&self) -> (p: ScreenPos)
        ensures
            p == (ScreenPos { x: (self.x / 2) as usize, y: (self.y / 2) as usize }),
    {
        ScreenPos { x: self.x / 2, y: self.y / 2 }
    }

    /// The position `n` blocks further up.
    pub fn up_blocks(&self, n: usize, block_size: usize) -> (p: ScreenPos)
        requires
            n * block_size <= self.y,
        ensures
            p == (ScreenPos { x: self.x, y: (self.y - n * block_size) as usize }),
    {
        self.up(n * block_size)
    }

    /// The position `n` blocks further down.
    pub fn down_blocks(&self, n: usize, block_size: usize) -> (p: ScreenPos)
        requires
            self.y + n * block_size <= usize::MAX,
        ensures
            p == (ScreenPos { x: self.x, y: (self.y + n * block_size) as usize }),
    {
        self.down(n * block_size)
    }

    /// The position `n` blocks further left.
    pub fn left_blocks(&self, n: usize, block_size: usize) -> (p: ScreenPos)
        requires
            n * block_size <= self.x,
        ensures
            p == (ScreenPos { x: (self.x - n * block_size) as usize, y: self.y }),
    {
        self.left(n * block_size)
    }

    /// The position `n` blocks further right.
    pub fn right_blocks(&self, n: usize, block_size: usize) -> (p: ScreenPos)
        requires
            self.x + n * block_size <= usize::MAX,
        ensures
            p == (ScreenPos { x: (self.x + n * block_size) as usize, y: self.y }),
    {
        self.right(n * block_size)
    }
}

/// A decoded key press, as far as the menu cares: the keys that drive game
/// selection, and everything else as opaque input for the running game.
#[derive(Debug, Clone, Copy, PartialEq, Eq, Structural)]
pub enum KeyPress {
    Unicode(char),
    Enter,
    ArrowUp,
    ArrowDown,
    ArrowLeft,
    ArrowRight,
    Other,
}

/// Where the world stands: choosing a game (with a redraw mark and the
/// selected index), running one, or showing the game-over screen.
#[derive(Debug, Clone, Copy, PartialEq, Eq, Structural)]
pub enum State {
    Welcome(bool, usize),
    Running(usize),
    GameOver(bool),
}

/// What the surrounding loop must do after a world transition.  The world
/// decides; the loop owns the games and the screen and acts.
#[derive(Debug, Clone, Copy, PartialEq, Eq, Structural)]
pub enum WorldAction {
    Nothing,
    /// Clear the screen, reset game `i`, and run it from now on.
    StartGame(usize),
    /// Hand the pressed key to running game `i`.
    ForwardKey(usize),
    /// Step running game `i` and report the result back, then draw it.
    StepGame(usize),
    DrawWelcome,
    DrawGameOver,
}

/// The menu's reaction to one key press.
pub open spec fn key_step(state: State, count: int, key: KeyPress) -> (State, WorldAction) {
    match state {
        State::Running(i) => {
            if key == KeyPress::Unicode('r') {
                (State::Welcome(true, 0), WorldAction::Nothing)
            } else {
                (state, WorldAction::ForwardKey(i))
            }
        },
        State::Welcome(_, selected) => {
            match key {
                KeyPress::Unicode(c) => {
                    if c == '\n' {
                        (State::Running(selected), WorldAction::StartGame(selected))
                    } else {
                        (state, WorldAction::Nothing)
                    }
                },
                KeyPress::Enter => (State::Running(selected), WorldAction::StartGame(selected)),
                KeyPress::ArrowDown => (
                    State::Welcome(true, ((selected + 1) as int % count) as usize),
                    WorldAction::Nothing,
                ),
                KeyPress::ArrowUp => (
                    State::Welcome(
                        true,
                        if selected == 0 {
                            (count - 1) as usize
                        } else {
                            (selected - 1) as usize
                        },
                    ),
                    WorldAction::Nothing,
                ),
                _ => (state, WorldAction::Nothing),
            }
        },
        State::GameOver(_) => {
            if key == KeyPress::Unicode('r') {
                (State::Welcome(true, 0), WorldAction::Nothing)
            } else {
                (state, WorldAction::Nothing)
            }
        },
    }
}

/// The menu's reaction to one timer tick: step the running game, or draw the
/// welcome or game-over screen once after it was marked dirty.
pub open spec fn tick_step(state: State) -> (State, WorldAction) {
    match state {
        State::Running(i) => (state, WorldAction::StepGame(i)),
        State::Welcome(dirty, selected) => {
            if dirty {
                (State::Welcome(false, selected), WorldAction::DrawWelcome)
            } else {
                (state, WorldAction::Nothing)
            }
        },
        State::GameOver(dirty) => {
            if dirty {
                (State::GameOver(false), WorldAction::DrawGameOver)
            } else {
                (state, WorldAction::Nothing)
            }
        },
    }
}

/// How a running game's reported step result moves the world on.
pub open spec fn step_result_step(state: State, result: GameState) -> (State, bool) {
    if result == GameState::GameOver {
        (State::GameOver(true), false)
    } else {
        (state, true)
    }
}

/// The world: which of the registered games runs, and what the menu shows.
/// The games themselves live with the composition root, registered here by
/// index; the world only decides.
pub struct World {
    game_count: usize,
    state: State,
    width: usize,
    height: usize,
}

impl World {
    /// The current menu state.
    pub closed spec fn spec_state(&self) -> State {
        self.state
    }

    /// How many games are registered.
    pub closed spec fn spec_game_count(&self) -> int {
        self.game_count as int
    }

    /// Indices the state refers to stay within the registered games, and a
    /// welcome screen with no games selects index 0.
    pub open spec fn wf(&self) -> bool {
        match self.spec_state() {
            State::Welcome(_, selected) => {
                selected < self.spec_game_count() || (selected == 0 && self.spec_game_count() == 0)
            },
            State::Running(i) => i < self.spec_game_count(),
            State::GameOver(_) => true,
        }
    }

    /// A world with no games yet, showing the welcome screen.
    pub fn new(width: usize, height: usize) -> (w: World)
        ensures
            w.wf(),
            w.spec_state() == State::Welcome(true, 0),
            w.spec_game_count() == 0,
            w.spec_width() == width,
            w.spec_height() == height,
    {
        World { game_count: 0, state: State::Welcome(true, 0), width, height }
    }

    /// The screen width the games are laid out for.
    pub closed spec fn spec_width(&self) -> int {
        self.width as int
    }

    /// The screen height the games are laid out for.
    pub closed spec fn spec_height(&self) -> int {
        self.height as int
    }

    /// The current menu state, for the surrounding loop to inspect.
    pub fn state(&self) -> (s: State)
        ensures
            s == self.spec_state(),
    {
        self.state
    }

    /// Register one more game; returns its index.  The caller owns the game
    /// and resets it to the world's dimensions.
    pub fn add_game(&mut self) -> (idx: usize)
        requires
            old(self).wf(),
            old(self).spec_game_count() < usize::MAX,
        ensures
            final(self).wf(),
            idx as int == old(self).spec_game_count(),
            final(self).spec_game_count() == old(self).spec_game_count() + 1,
            final(self).spec_state() == old(self).spec_state(),
            final(self).spec_width() == old(self).spec_width(),
            final(self).spec_height() == old(self).spec_height(),
    {
        let idx = self.game_count;
        self.game_count = self.game_count + 1;
        idx
    }

    /// React to one key press: select games on the welcome screen, start the
    /// selected one, forward keys to a running game, restart from the
    /// game-over screen.
    pub fn on_keypress(&mut self, key: KeyPress) -> (a: WorldAction)
        requires
            old(self).wf(),
            old(self).spec_game_count() >= 1,
        ensures
            final(self).wf(),
            (final(self).spec_state(), a) == key_step(
                old(self).spec_state(),
                old(self).spec_game_count(),
                key,
            ),
            final(self).spec_game_count() == old(self).spec_game_count(),
            final(self).spec_width() == old(self).spec_width(),
            final(self).spec_height() == old(self).spec_height(),
    {
        match self.state {
            State::Running(i) => {
                if key == KeyPress::Unicode('r') {
                    self.state = State::Welcome(true, 0);
                    WorldAction::Nothing
                } else {
                    WorldAction::ForwardKey(i)
                }
            },
            State::Welcome(_, selected) => {
                match key {
                    KeyPress::Unicode(c) => {
                        if c == '\n' {
                            self.state = State::Running(selected);
                            WorldAction::StartGame(selected)
                        } else {
                            WorldAction::Nothing
                        }
                    },
                    KeyPress::Enter => {
                        self.state = State::Running(selected);
                        WorldAction::StartGame(selected)
                    },
                    KeyPress::ArrowDown => {
                        self.state = State::Welcome(true, (selected + 1) % self.game_count);
                        WorldAction::Nothing
                    },
                    KeyPress::ArrowUp => {
                        let previous = if selected == 0 {
                            self.game_count - 1
                        } else {
                            selected - 1
                        };
                        self.state = State::Welcome(true, previous);
                        WorldAction::Nothing
                    },
                    _ => WorldAction::Nothing,
                }
            },
            State::GameOver(_) => {
                if key == KeyPress::Unicode('r') {
                    self.state = State::Welcome(true, 0);
                }
                WorldAction::Nothing
            },
        }
    }

    /// React to one timer tick.
    pub fn on_tick(&mut self) -> (a: WorldAction)
        requires
            old(self).wf(),
        ensures
            final(self).wf(),
            (final(self).spec_state(), a) == tick_step(old(self).spec_state()),
            final(self).spec_game_count() == old(self).spec_game_count(),
            final(self).spec_width() == old(self).spec_width(),
            final(self).spec_height() == old(self).spec_height(),
    {
        match self.state {
            State::Running(i) => WorldAction::StepGame(i),
            State::Welcome(dirty, selected) => {
                if dirty {
                    self.state = State::Welcome(false, selected);
                    WorldAction::DrawWelcome
                } else {
                    WorldAction::Nothing
                }
            },
            State::GameOver(dirty) => {
                if dirty {
                    self.state = State::GameOver(false);
                    WorldAction::DrawGameOver
                } else {
                    WorldAction::Nothing
                }
            },
        }
    }

    /// Report the stepped game's result back; returns whether the loop
    /// should draw the game this tick.  A game that reports game over moves
    /// the world to the game-over screen, to be drawn on the next tick.
    pub fn game_stepped(&mut self, result: GameState) -> (draw: bool)
        requires
            old(self).wf(),
        ensures
            final(self).wf(),
            (final(self).spec_state(), draw) == step_result_step(old(self).spec_state(), result),
            final(self).spec_game_count() == old(self).spec_game_count(),
            final(self).spec_width() == old(self).spec_width(),
            final(self).spec_height() == old(self).spec_height(),
    {
        if result == GameState::GameOver {
            self.state = State::GameOver(true);
            false
        } else {
            true
        }
    }
}

/// A fixed-capacity character buffer: writes past the capacity are silently
/// truncated, so composing text can never fail or allocate.
pub struct CharsBuf<const T: usize> {
    data: Vec<char>,
    written_bytes: usize,
}

impl<const T: usize> CharsBuf<T> {
    /// The buffer always holds exactly its capacity of slots.
    pub closed spec fn wf(&self) -> bool {
        &&& self.data@.len() == T
        &&& self.written_bytes <= T
    }

    /// The characters written so far.
    pub closed spec fn written(&self) -> Seq<char> {
        self.data@.take(self.written_bytes as int)
    }

    /// An empty buffer.
    pub fn new() -> (b: CharsBuf<T>)
        ensures
            b.wf(),
            b.written() == Seq::<char>::empty(),
    {
        let mut data: Vec<char> = Vec::new();
        let mut i: usize = 0;
        while i < T
            invariant
                i <= T,
                data@.len() == i,
            decreases T - i,
        {
            data.push('\0');
            i = i + 1;
        }
        let b = CharsBuf { data, written_bytes: 0 };
        proof {
            assert(b.written() =~= Seq::<char>::empty());
        }
        b
    }

    /// The characters written so far, in order.
    pub fn chars(&self) -> (v: Vec<char>)
        requires
            self.wf(),
        ensures
            v@ == self.written(),
    {
        let mut v: Vec<char> = Vec::new();
        let mut i: usize = 0;
        while i < self.written_bytes
            invariant
                self.wf(),
                i <= self.written_bytes,
                v@ == self.data@.take(i as int),
            decreases self.written_bytes - i,
        {
            v.push(self.data[i]);
            proof {
                assert(v@ =~= self.data@.take(i + 1));
            }
            i = i + 1;
        }
        v
    }

    /// How many characters have been written.
    pub fn len(&self) -> (n: usize)
        requires
            self.wf(),
        ensures
            n as int == self.written().len(),
    {
        self.written_bytes
    }

    /// Append the string's characters, dropping whatever exceeds the free
    /// room: exactly the first `T - len` of them are taken.
    pub fn write_str(&mut self, s: &str)
        requires
            old(self).wf(),
        ensures
            final(self).wf(),
            final(self).written() == old(self).written() + s@.take(
                vstd::math::min(s@.len() as int, T - old(self).written().len()),
            ),
    {
        let ghost taken = vstd::math::min(s@.len() as int, T - old(self).written().len());
        let room = T - self.written_bytes;
        let n = s.unicode_len();
        let count = if n < room {
            n
        } else {
            room
        };
        assert(count as int == taken);
        let mut i: usize = 0;
        while i < count
            invariant
                self.wf(),
                self.written_bytes == old(self).written_bytes + i,
                i <= count,
                count as int == taken,
                taken <= s@.len(),
                old(self).written_bytes + count <= T,
                self.data@.len() == T,
                self.written() == old(self).written() + s@.take(i as int),
            decreases count - i,
        {
            let c = s.get_char(i);
            let ghost prev = self.data@;
            let ghost wb = self.written_bytes as int;
            self.data.set(self.written_bytes, c);
            self.written_bytes = self.written_bytes + 1;
            proof {
                assert(self.data@ == prev.update(wb, c));
                assert(self.data@.take(wb) =~= prev.take(wb));
                assert(self.data@[wb] == s@[i as int]);
                assert(self.written() =~= old(self).written() + s@.take(i + 1));
            }
            i = i + 1;
        }
    }
}

} // verus!
