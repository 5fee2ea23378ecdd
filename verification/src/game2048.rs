//! The merge-puzzle board: a grid of tiles that slide and merge along a
//! direction, with new tiles filled in at random empty cells.
//!
//! The board reads every row or column through a direction-dependent
//! coordinate system, so one sliding routine serves all four directions.
//! Randomness comes from a small seeded generator of an outside crate; the
//! board's own logic is verified for every value the generator may produce.

use vstd::prelude::*;

verus! {

use vstd::arithmetic::mul::lemma_mul_inequality;
use vstd::arithmetic::div_mod::lemma_fundamental_div_mod_converse;
use crate::display::Color;
use crate::rng::rng_from_seed;
use crate::rng::rng_next;
use crate::world::Direction;
use crate::world::GameState;
use crate::world::KeyPress;

/// One cell of the board: its value, whether it needs redrawing, and its
/// fixed grid position.
#[derive(Debug, Clone, Copy)]
pub struct Tile {
    pub val: Option<u64>,
    pub changed: bool,
    pub row: usize,
    pub col: usize,
}

/// Two tiles can merge when both hold the same value.
pub open spec fn can_merge_spec(a: Tile, b: Tile) -> bool {
    a.val is Some && b.val is Some && a.val == b.val
}

impl Tile {
    /// An empty, unchanged tile at the given grid position.
    pub fn new(row: usize, col: usize) -> (t: Tile)
        ensures
            t == (Tile { val: None::<u64>, changed: false, row, col }),
    {
        Tile { val: None, changed: false, row, col }
    }

    /// Whether this tile can merge with the other.
    fn can_merge(&self, other: &Tile) -> (r: bool)
        ensures
            r == can_merge_spec(*self, *other),
    {
        match (self.val, other.val) {
            (Some(v1), Some(v2)) => v1 == v2,
            _ => false,
        }
    }
}

/// How many tiles of a sequence are empty.
pub open spec fn empty_count(s: Seq<Tile>) -> int
    decreases s.len(),
{
    if s.len() == 0 {
        0
    } else {
        empty_count(s.drop_last()) + if s.last().val is None {
            1int
        } else {
            0int
        }
    }
}

/// There is an empty tile exactly when the empty count is positive.
proof fn lemma_empty_count(s: Seq<Tile>)
    ensures
        0 <= empty_count(s) <= s.len(),
        (empty_count(s) > 0) <==> exists|i: int| 0 <= i < s.len() && s[i].val is None,
    decreases s.len(),
{
    if s.len() > 0 {
        lemma_empty_count(s.drop_last());
        if s.last().val is None {
            assert(s[s.len() - 1].val is None);
        }
        if exists|i: int| 0 <= i < s.len() && s[i].val is None {
            let i = choose|i: int| 0 <= i < s.len() && s[i].val is None;
            if i < s.len() - 1 {
                assert(s.drop_last()[i].val is None);
            }
        }
        if empty_count(s.drop_last()) > 0 {
            let i = choose|i: int| 0 <= i < s.drop_last().len() && s.drop_last()[i].val is None;
            assert(s[i].val is None);
        }
    }
}

/// The board: a row-major grid of `rows * cols` tiles and the generator that
/// picks where new tiles appear.
pub struct Board {
    rows: usize,
    cols: usize,
    tiles: Vec<Tile>,
    rng: rand::rngs::SmallRng,
}

impl Board {
    /// The grid's height.
    pub closed spec fn spec_rows(&self) -> int {
        self.rows as int
    }

    /// The grid's width.
    pub closed spec fn spec_cols(&self) -> int {
        self.cols as int
    }

    /// The tiles, row-major.
    pub closed spec fn spec_tiles(&self) -> Seq<Tile> {
        self.tiles@
    }

    /// The grid is non-empty, the tile vector covers it exactly, and every
    /// tile records its own row-major position.
    pub open spec fn wf(&self) -> bool {
        &&& 1 <= self.spec_rows()
        &&& 1 <= self.spec_cols()
        &&& self.spec_rows() * self.spec_cols() <= usize::MAX
        &&& self.spec_tiles().len() == self.spec_rows() * self.spec_cols()
        &&& forall|idx: int|
            0 <= idx < self.spec_tiles().len() ==> (#[trigger] self.spec_tiles()[idx]).row
                == idx / self.spec_cols() && self.spec_tiles()[idx].col == idx % self.spec_cols()
    }

    /// The tile at grid position (row, col).
    pub open spec fn at(&self, row: int, col: int) -> Tile {
        self.spec_tiles()[row * self.spec_cols() + col]
    }

    /// A fresh board of empty tiles; the seed drives where new tiles appear.
    pub fn new(rows: usize, cols: usize, seed: u64) -> (b: Board)
        requires
            1 <= rows,
            1 <= cols,
            rows * cols <= usize::MAX,
        ensures
            b.wf(),
            b.spec_rows() == rows,
            b.spec_cols() == cols,
            forall|idx: int|
                0 <= idx < b.spec_tiles().len() ==> (#[trigger] b.spec_tiles()[idx]).val is None
                    && !b.spec_tiles()[idx].changed,
    {
        let mut tiles: Vec<Tile> = Vec::new();
        let mut row: usize = 0;
        while row < rows
            invariant
                row <= rows,
                rows * cols <= usize::MAX,
                1 <= cols,
                tiles@.len() == row * cols,
                forall|idx: int|
                    0 <= idx < tiles@.len() ==> (#[trigger] tiles@[idx]).row == idx / cols as int
                        && tiles@[idx].col == idx % cols as int && tiles@[idx].val is None
                        && !tiles@[idx].changed,
            decreases rows - row,
        {
            proof {
                lemma_mul_inequality(row + 1, rows as int, cols as int);
            }
            let mut col: usize = 0;
            while col < cols
                invariant
                    col <= cols,
                    row < rows,
                    rows * cols <= usize::MAX,
                    (row + 1) * cols <= rows * cols,
                    tiles@.len() == row * cols + col,
                    forall|idx: int|
                        0 <= idx < tiles@.len() ==> (#[trigger] tiles@[idx]).row == idx
                            / cols as int && tiles@[idx].col == idx % cols as int
                            && tiles@[idx].val is None && !tiles@[idx].changed,
                decreases cols - col,
            {
                proof {
                    assert((row + 1) * cols == row * cols + cols) by (nonlinear_arith);
                    lemma_fundamental_div_mod_converse(
                        row as int * cols as int + col as int,
                        cols as int,
                        row as int,
                        col as int,
                    );
                }
                tiles.push(Tile::new(row, col));
                col = col + 1;
            }
            proof {
                assert((row + 1) * cols == row * cols + cols) by (nonlinear_arith);
            }
            row = row + 1;
        }
        Board { rows, cols, tiles, rng: rng_from_seed(seed) }
    }

    /// The scan dimensions of a direction: how many lines there are and how
    /// long each line is.
    pub open spec fn dims_spec(&self, dir: Direction) -> (int, int) {
        match dir {
            Direction::Up | Direction::Down => (self.spec_cols(), self.spec_rows()),
            Direction::Left | Direction::Right => (self.spec_rows(), self.spec_cols()),
        }
    }

    fn get_dimension_from_direction(&self, dir: Direction) -> (d: (usize, usize))
        ensures
            (d.0 as int, d.1 as int) == self.dims_spec(dir),
    {
        match dir {
            Direction::Up | Direction::Down => (self.cols, self.rows),
            Direction::Left | Direction::Right => (self.rows, self.cols),
        }
    }

    /// The row-major index of line `x`, position `y`, scanning along the
    /// direction: position 0 of a line is where tiles slide towards.
    pub open spec fn pos_spec(&self, dir: Direction, x: int, y: int) -> int {
        match dir {
            Direction::Up => x + self.spec_cols() * y,
            Direction::Down => x + self.spec_cols() * (self.spec_rows() - y - 1),
            Direction::Left => x * self.spec_cols() + y,
            Direction::Right => x * self.spec_cols() + (self.spec_cols() - y - 1),
        }
    }

    /// Distinct positions along one line have distinct row-major indices.
    proof fn lemma_pos_injective(&self, dir: Direction, x: int, y1: int, y2: int)
        requires
            self.wf(),
            0 <= x < self.dims_spec(dir).0,
            0 <= y1 < self.dims_spec(dir).1,
            0 <= y2 < self.dims_spec(dir).1,
            y1 != y2,
        ensures
            self.pos_spec(dir, x, y1) != self.pos_spec(dir, x, y2),
    {
        let c = self.spec_cols();
        match dir {
            Direction::Up => {
                assert(c * y1 != c * y2) by (nonlinear_arith)
                    requires
                        c >= 1,
                        y1 != y2,
                ;
            },
            Direction::Down => {
                let r = self.spec_rows();
                assert(c * (r - y1 - 1) != c * (r - y2 - 1)) by (nonlinear_arith)
                    requires
                        c >= 1,
                        y1 != y2,
                ;
            },
            Direction::Left => {},
            Direction::Right => {},
        }
    }

    /// The index is inside the tile vector whenever (x, y) is inside the
    /// direction's dimensions.
    proof fn lemma_pos_in_bounds(&self, dir: Direction, x: int, y: int)
        requires
            self.wf(),
            0 <= x < self.dims_spec(dir).0,
            0 <= y < self.dims_spec(dir).1,
        ensures
            0 <= self.pos_spec(dir, x, y) < self.spec_rows() * self.spec_cols(),
    {
        let rows = self.spec_rows();
        let cols = self.spec_cols();
        match dir {
            Direction::Up => {
                lemma_mul_inequality(y, rows - 1, cols);
                assert(cols * y == y * cols) by (nonlinear_arith);
                assert(cols * rows == rows * cols) by (nonlinear_arith);
                assert((rows - 1) * cols == rows * cols - cols) by (nonlinear_arith);
            },
            Direction::Down => {
                lemma_mul_inequality(rows - y - 1, rows - 1, cols);
                assert(cols * (rows - y - 1) == (rows - y - 1) * cols) by (nonlinear_arith);
                assert((rows - 1) * cols == rows * cols - cols) by (nonlinear_arith);
            },
            Direction::Left => {
                lemma_mul_inequality(x, rows - 1, cols);
                assert((rows - 1) * cols == rows * cols - cols) by (nonlinear_arith);
            },
            Direction::Right => {
                lemma_mul_inequality(x, rows - 1, cols);
                assert((rows - 1) * cols == rows * cols - cols) by (nonlinear_arith);
            },
        }
    }

    /// Compute the row-major index of line `x`, position `y` along the
    /// direction.
    pub fn pos(&self, dir: Direction, x: usize, y: usize) -> (r: usize)
        requires
            self.wf(),
            x < self.dims_spec(dir).0,
            y < self.dims_spec(dir).1,
        ensures
            r as int == self.pos_spec(dir, x as int, y as int),
            r < self.spec_tiles().len(),
    {
        proof {
            self.lemma_pos_in_bounds(dir, x as int, y as int);
        }
        match dir {
            Direction::Up => x + self.cols * y,
            Direction::Down => x + self.cols * (self.rows - y - 1),
            Direction::Left => x * self.cols + y,
            Direction::Right => x * self.cols + (self.cols - y - 1),
        }
    }

    /// Read the tile at line `x`, position `y` along the direction.
    pub fn get_tile(&self, dir: Direction, x: usize, y: usize) -> (t: &Tile)
        requires
            self.wf(),
            x < self.dims_spec(dir).0,
            y < self.dims_spec(dir).1,
        ensures
            *t == self.spec_tiles()[self.pos_spec(dir, x as int, y as int)],
    {
        let idx = self.pos(dir, x, y);
        &self.tiles[idx]
    }

    /// Borrow the tile at line `x`, position `y` mutably.  The board stays
    /// well formed provided the borrower leaves the tile's position fields
    /// alone.
    pub fn get_tile_mut(&mut self, dir: Direction, x: usize, y: usize) -> (t: &mut Tile)
        requires
            old(self).wf(),
            x < old(self).dims_spec(dir).0,
            y < old(self).dims_spec(dir).1,
        ensures
            *t == old(self).spec_tiles()[old(self).pos_spec(dir, x as int, y as int)],
            final(self).spec_tiles() == old(self).spec_tiles().update(
                old(self).pos_spec(dir, x as int, y as int),
                *final(t),
            ),
            final(self).spec_rows() == old(self).spec_rows(),
            final(self).spec_cols() == old(self).spec_cols(),
            final(t).row == t.row && final(t).col == t.col ==> final(self).wf(),
    {
        let idx = self.pos(dir, x, y);
        let t = &mut self.tiles[idx];
        t
    }

    /// Overwrite one tile's value and redraw mark, keeping its position.
    fn set_tile(&mut self, idx: usize, val: Option<u64>, changed: bool)
        requires
            old(self).wf(),
            idx < old(self).spec_tiles().len(),
        ensures
            final(self).wf(),
            final(self).spec_rows() == old(self).spec_rows(),
            final(self).spec_cols() == old(self).spec_cols(),
            final(self).spec_tiles() == old(self).spec_tiles().update(
                idx as int,
                Tile {
                    val,
                    changed,
                    row: old(self).spec_tiles()[idx as int].row,
                    col: old(self).spec_tiles()[idx as int].col,
                },
            ),
    {
        let t = &mut self.tiles[idx];
        let row = t.row;
        let col = t.col;
        *t = Tile { val, changed, row, col };
    }

    /// Forget every value and mark every tile for redraw.
    pub fn reset(&mut self)
        requires
            old(self).wf(),
        ensures
            final(self).wf(),
            final(self).spec_rows() == old(self).spec_rows(),
            final(self).spec_cols() == old(self).spec_cols(),
            final(self).spec_tiles().len() == old(self).spec_tiles().len(),
            forall|idx: int|
                0 <= idx < final(self).spec_tiles().len() ==> (#[trigger] final(self).spec_tiles()[idx]) == (Tile {
                    val: None::<u64>,
                    changed: true,
                    row: old(self).spec_tiles()[idx].row,
                    col: old(self).spec_tiles()[idx].col,
                }),
    {
        let mut i: usize = 0;
        while i < self.tiles.len()
            invariant
                self.wf(),
                self.spec_rows() == old(self).spec_rows(),
                self.spec_cols() == old(self).spec_cols(),
                self.spec_tiles().len() == old(self).spec_tiles().len(),
                i <= self.spec_tiles().len(),
                forall|idx: int|
                    i <= idx < self.spec_tiles().len() ==> #[trigger] self.spec_tiles()[idx] == old(self).spec_tiles()[idx],
                forall|idx: int|
                    0 <= idx < i ==> (#[trigger] self.spec_tiles()[idx]) == (Tile {
                        val: None::<u64>,
                        changed: true,
                        row: old(self).spec_tiles()[idx].row,
                        col: old(self).spec_tiles()[idx].col,
                    }),
            decreases self.spec_tiles().len() - i,
        {
            self.set_tile(i, None, true);
            i = i + 1;
        }
    }

    /// Whether any tile is marked for redraw.
    pub fn has_changed(&self) -> (r: bool)
        requires
            self.wf(),
        ensures
            r == exists|idx: int| 0 <= idx < self.spec_tiles().len() && (#[trigger] self.spec_tiles()[idx]).changed,
    {
        let mut i: usize = 0;
        while i < self.tiles.len()
            invariant
                self.wf(),
                i <= self.spec_tiles().len(),
                forall|idx: int| 0 <= idx < i ==> !(#[trigger] self.spec_tiles()[idx]).changed,
            decreases self.spec_tiles().len() - i,
        {
            if self.tiles[i].changed {
                return true;
            }
            i = i + 1;
        }
        false
    }

    /// The tiles marked for redraw, in row-major order.
    pub fn tiles_need_redraw(&self) -> (v: Vec<Tile>)
        requires
            self.wf(),
        ensures
            v@ == self.spec_tiles().filter(changed_pred()),
    {
        let mut v: Vec<Tile> = Vec::new();
        let mut i: usize = 0;
        while i < self.tiles.len()
            invariant
                self.wf(),
                i <= self.spec_tiles().len(),
                v@ == self.spec_tiles().take(i as int).filter(changed_pred()),
            decreases self.spec_tiles().len() - i,
        {
            proof {
                lemma_filter_take_step(self.spec_tiles(), i as int);
            }
            if self.tiles[i].changed {
                v.push(self.tiles[i]);
                assert(v@ =~= self.spec_tiles().take(i + 1).filter(changed_pred()));
            } else {
                assert(v@ =~= self.spec_tiles().take(i + 1).filter(changed_pred()));
            }
            i = i + 1;
        }
        proof {
            assert(self.spec_tiles().take(self.spec_tiles().len() as int) =~= self.spec_tiles());
        }
        v
    }

    /// Unmark every tile.
    pub fn clear_changed(&mut self)
        requires
            old(self).wf(),
        ensures
            final(self).wf(),
            final(self).spec_rows() == old(self).spec_rows(),
            final(self).spec_cols() == old(self).spec_cols(),
            final(self).spec_tiles().len() == old(self).spec_tiles().len(),
            forall|idx: int|
                0 <= idx < final(self).spec_tiles().len() ==> (#[trigger] final(self).spec_tiles()[idx]) == (Tile {
                    val: old(self).spec_tiles()[idx].val,
                    changed: false,
                    row: old(self).spec_tiles()[idx].row,
                    col: old(self).spec_tiles()[idx].col,
                }),
    {
        let mut i: usize = 0;
        while i < self.tiles.len()
            invariant
                self.wf(),
                self.spec_rows() == old(self).spec_rows(),
                self.spec_cols() == old(self).spec_cols(),
                self.spec_tiles().len() == old(self).spec_tiles().len(),
                i <= self.spec_tiles().len(),
                forall|idx: int|
                    i <= idx < self.spec_tiles().len() ==> #[trigger] self.spec_tiles()[idx] == old(self).spec_tiles()[idx],
                forall|idx: int|
                    0 <= idx < i ==> (#[trigger] self.spec_tiles()[idx]) == (Tile {
                        val: old(self).spec_tiles()[idx].val,
                        changed: false,
                        row: old(self).spec_tiles()[idx].row,
                        col: old(self).spec_tiles()[idx].col,
                    }),
            decreases self.spec_tiles().len() - i,
        {
            let val = self.tiles[i].val;
            self.set_tile(i, val, false);
            i = i + 1;
        }
    }

    /// The largest value on the board, or 0 when it is empty of values.
    pub fn max_val(&self) -> (m: u64)
        requires
            self.wf(),
        ensures
            forall|idx: int|
                0 <= idx < self.spec_tiles().len() ==> tile_val(
                    #[trigger] self.spec_tiles()[idx],
                ) <= m,
            m == 0 || exists|idx: int|
                0 <= idx < self.spec_tiles().len() && tile_val(#[trigger] self.spec_tiles()[idx])
                    == m,
    {
        let mut m: u64 = 0;
        let mut i: usize = 0;
        while i < self.tiles.len()
            invariant
                self.wf(),
                i <= self.spec_tiles().len(),
                forall|idx: int|
                    0 <= idx < i ==> tile_val(#[trigger] self.spec_tiles()[idx]) <= m,
                m == 0 || exists|idx: int|
                    0 <= idx < i && tile_val(#[trigger] self.spec_tiles()[idx]) == m,
            decreases self.spec_tiles().len() - i,
        {
            let v = match self.tiles[i].val {
                Some(v) => v,
                None => 0,
            };
            if v > m {
                m = v;
            }
            i = i + 1;
        }
        m
    }

    /// Whether the tile at (r, c) can merge with its right-hand neighbour.
    pub open spec fn row_merge_at(&self, r: int, c: int) -> bool {
        can_merge_spec(self.at(r, c), self.at(r, c + 1))
    }

    /// Whether the tile at (r, c) can merge with the neighbour below it.
    pub open spec fn col_merge_at(&self, r: int, c: int) -> bool {
        can_merge_spec(self.at(r, c), self.at(r + 1, c))
    }

    /// Whether two tiles that could merge sit next to each other, in a row or
    /// in a column.
    pub open spec fn merge_possible(&self) -> bool {
        ||| exists|r: int, c: int|
            0 <= r < self.spec_rows() && 0 <= c < self.spec_cols() - 1
                && #[trigger] self.row_merge_at(r, c)
        ||| exists|r: int, c: int|
            0 <= r < self.spec_rows() - 1 && 0 <= c < self.spec_cols()
                && #[trigger] self.col_merge_at(r, c)
    }

    /// Whether any move is still possible.
    #[verifier::rlimit(30)]
    fn can_merge_any(&self) -> (r: bool)
        requires
            self.wf(),
        ensures
            r == self.merge_possible(),
    {
        let mut r: usize = 0;
        while r < self.rows
            invariant
                self.wf(),
                r <= self.spec_rows(),
                forall|r0: int, c0: int|
                    0 <= r0 < r && 0 <= c0 < self.spec_cols() - 1
                        ==> !(#[trigger] self.row_merge_at(r0, c0)),
            decreases self.spec_rows() - r,
        {
            let mut c: usize = 0;
            while c + 1 < self.cols
                invariant
                    self.wf(),
                    r < self.spec_rows(),
                    c <= self.spec_cols() - 1,
                    forall|c0: int| 0 <= c0 < c ==> !(#[trigger] self.row_merge_at(r as int, c0)),
                decreases self.spec_cols() - c,
            {
                let a = self.pos(Direction::Left, r, c);
                let b = self.pos(Direction::Left, r, c + 1);
                if self.tiles[a].can_merge(&self.tiles[b]) {
                    assert(self.row_merge_at(r as int, c as int));
                    return true;
                }
                c = c + 1;
            }
            r = r + 1;
        }
        let mut r2: usize = 0;
        while r2 + 1 < self.rows
            invariant
                self.wf(),
                r2 <= self.spec_rows() - 1,
                forall|r0: int, c0: int|
                    0 <= r0 < self.spec_rows() && 0 <= c0 < self.spec_cols() - 1
                        ==> !(#[trigger] self.row_merge_at(r0, c0)),
                forall|r0: int, c0: int|
                    0 <= r0 < r2 && 0 <= c0 < self.spec_cols()
                        ==> !(#[trigger] self.col_merge_at(r0, c0)),
            decreases self.spec_rows() - r2,
        {
            let mut c: usize = 0;
            while c < self.cols
                invariant
                    self.wf(),
                    r2 < self.spec_rows() - 1,
                    c <= self.spec_cols(),
                    forall|c0: int| 0 <= c0 < c ==> !(#[trigger] self.col_merge_at(r2 as int, c0)),
                decreases self.spec_cols() - c,
            {
                let a = self.pos(Direction::Left, r2, c);
                let b = self.pos(Direction::Left, r2 + 1, c);
                if self.tiles[a].can_merge(&self.tiles[b]) {
                    assert(self.col_merge_at(r2 as int, c as int));
                    return true;
                }
                c = c + 1;
            }
            r2 = r2 + 1;
        }
        false
    }

    /// The game is over when no tile is empty and no two neighbours can
    /// merge.
    pub fn is_game_over(&self) -> (r: bool)
        requires
            self.wf(),
        ensures
            r == (!(exists|idx: int|
                0 <= idx < self.spec_tiles().len() && (#[trigger] self.spec_tiles()[idx]).val
                    is None) && !self.merge_possible()),
    {
        let mut i: usize = 0;
        while i < self.tiles.len()
            invariant
                self.wf(),
                i <= self.spec_tiles().len(),
                forall|idx: int| 0 <= idx < i ==> !((#[trigger] self.spec_tiles()[idx]).val is None),
            decreases self.spec_tiles().len() - i,
        {
            if self.tiles[i].val.is_none() {
                return false;
            }
            i = i + 1;
        }
        if self.can_merge_any() {
            return false;
        }
        true
    }

    /// Put a 2 — or, now and then, a 4 — on a uniformly chosen empty tile and
    /// mark it for redraw.  Returns false, changing nothing, when no tile is
    /// empty.
    pub fn random_fill_empty_tile(&mut self) -> (r: bool)
        requires
            old(self).wf(),
        ensures
            final(self).wf(),
            final(self).spec_rows() == old(self).spec_rows(),
            final(self).spec_cols() == old(self).spec_cols(),
            r == exists|idx: int|
                0 <= idx < old(self).spec_tiles().len() && (#[trigger] old(self).spec_tiles()[idx]).val is None,
            !r ==> final(self).spec_tiles() == old(self).spec_tiles(),
            r ==> exists|idx: int|
                0 <= idx < old(self).spec_tiles().len() && (#[trigger] old(self).spec_tiles()[idx]).val is None && (final(self).spec_tiles() == old(self).spec_tiles().update(
                    idx,
                    Tile {
                        val: Some(2u64),
                        changed: true,
                        row: old(self).spec_tiles()[idx].row,
                        col: old(self).spec_tiles()[idx].col,
                    },
                ) || final(self).spec_tiles() == old(self).spec_tiles().update(
                    idx,
                    Tile {
                        val: Some(4u64),
                        changed: true,
                        row: old(self).spec_tiles()[idx].row,
                        col: old(self).spec_tiles()[idx].col,
                    },
                )),
    {
        proof {
            lemma_empty_count(self.spec_tiles());
        }
        let mut empties: usize = 0;
        let mut i: usize = 0;
        while i < self.tiles.len()
            invariant
                self.wf(),
                i <= self.spec_tiles().len(),
                empties == empty_count(self.spec_tiles().take(i as int)),
                empties <= i,
            decreases self.spec_tiles().len() - i,
        {
            proof {
                lemma_empty_count_take_step(self.spec_tiles(), i as int);
            }
            if self.tiles[i].val.is_none() {
                empties = empties + 1;
            }
            i = i + 1;
        }
        proof {
            assert(self.spec_tiles().take(self.spec_tiles().len() as int) =~= self.spec_tiles());
        }
        if empties == 0 {
            return false;
        }

        let target = (rng_next(&mut self.rng) % (empties as u64)) as usize;
        let fill_val: u64 = if rng_next(&mut self.rng) % 10 == 0 {
            4
        } else {
            2
        };

        let mut seen: usize = 0;
        let mut j: usize = 0;
        while j < self.tiles.len()
            invariant
                self.wf(),
                self.spec_tiles() == old(self).spec_tiles(),
                self.spec_rows() == old(self).spec_rows(),
                self.spec_cols() == old(self).spec_cols(),
                j <= self.spec_tiles().len(),
                seen == empty_count(self.spec_tiles().take(j as int)),
                seen <= target,
                target < empty_count(self.spec_tiles()),
                fill_val == 2 || fill_val == 4,
            decreases self.spec_tiles().len() - j,
        {
            proof {
                lemma_empty_count_take_step(self.spec_tiles(), j as int);
            }
            if self.tiles[j].val.is_none() {
                if seen == target {
                    self.set_tile(j, Some(fill_val), true);
                    return true;
                }
                seen = seen + 1;
            }
            j = j + 1;
        }
        proof {
            assert(self.spec_tiles().take(self.spec_tiles().len() as int) =~= self.spec_tiles());
            assert(false);
        }
        false
    }

    /// Slide and merge every line of the board towards the direction, the
    /// way the merge puzzle moves: each tile slides over empty cells and may
    /// merge once per line into an equal neighbour.  Returns whether anything
    /// moved; when nothing moved the board is untouched, and as long as the
    /// total value on the board fits comfortably, sliding and merging
    /// conserve it.
    pub fn move_direction(&mut self, dir: Direction) -> (changed: bool)
        requires
            old(self).wf(),
        ensures
            final(self).wf(),
            final(self).spec_rows() == old(self).spec_rows(),
            final(self).spec_cols() == old(self).spec_cols(),
            final(self).spec_tiles().len() == old(self).spec_tiles().len(),
            !changed ==> final(self).spec_tiles() == old(self).spec_tiles(),
            value_sum(old(self).spec_tiles()) <= u64::MAX as int / 2 ==> value_sum(
                final(self).spec_tiles(),
            ) == value_sum(old(self).spec_tiles()),
    {
        let ghost csum = value_sum(old(self).spec_tiles());
        let ghost bounded = csum <= u64::MAX as int / 2;
        let mut changed = false;
        let (x_dim, y_dim) = self.get_dimension_from_direction(dir);
        let mut x: usize = 0;
        while x < x_dim
            invariant
                self.wf(),
                self.spec_rows() == old(self).spec_rows(),
                self.spec_cols() == old(self).spec_cols(),
                (x_dim as int, y_dim as int) == self.dims_spec(dir),
                x <= x_dim,
                !changed ==> self.spec_tiles() == old(self).spec_tiles(),
                bounded == (csum <= u64::MAX as int / 2),
                csum == value_sum(old(self).spec_tiles()),
                bounded ==> value_sum(self.spec_tiles()) == csum,
            decreases x_dim - x,
        {
            let mut has_merged_one = false;
            let mut y: usize = 0;
            while y < y_dim
                invariant
                    self.wf(),
                    self.spec_rows() == old(self).spec_rows(),
                    self.spec_cols() == old(self).spec_cols(),
                    (x_dim as int, y_dim as int) == self.dims_spec(dir),
                    x < x_dim,
                    y <= y_dim,
                    !changed ==> self.spec_tiles() == old(self).spec_tiles(),
                    bounded == (csum <= u64::MAX as int / 2),
                    csum == value_sum(old(self).spec_tiles()),
                    bounded ==> value_sum(self.spec_tiles()) == csum,
                decreases y_dim - y,
            {
                let cur_idx = self.pos(dir, x, y);
                let cur = self.tiles[cur_idx];
                if cur.val.is_some() {
                    // Scan towards position 0 for how far this tile can go:
                    // over empty cells, and one step further into an equal
                    // tile if no merge has happened on this line yet.
                    let mut destination = y;
                    let mut y2 = y;
                    let ghost snap = *self;
                    while y2 > 0
                        invariant_except_break
                            *self == snap,
                            self.wf(),
                            (x_dim as int, y_dim as int) == self.dims_spec(dir),
                            x < x_dim,
                            y < y_dim,
                            y2 <= y,
                            destination <= y,
                            destination == y || self.spec_tiles()[self.pos_spec(
                                dir,
                                x as int,
                                destination as int,
                            )].val is None || self.spec_tiles()[self.pos_spec(
                                dir,
                                x as int,
                                destination as int,
                            )].val == cur.val,
                        ensures
                            *self == snap,
                            destination <= y,
                            destination == y || self.spec_tiles()[self.pos_spec(
                                dir,
                                x as int,
                                destination as int,
                            )].val is None || self.spec_tiles()[self.pos_spec(
                                dir,
                                x as int,
                                destination as int,
                            )].val == cur.val,
                        decreases y2,
                    {
                        y2 = y2 - 1;
                        let probe_idx = self.pos(dir, x, y2);
                        let probe = self.tiles[probe_idx];
                        if probe.val.is_none() {
                            destination = y2;
                        } else {
                            if !has_merged_one && probe.can_merge(&cur) {
                                destination = y2;
                            }
                            break ;
                        }
                    }

                    if destination != y {
                        changed = true;
                        let dest_idx = self.pos(dir, x, destination);
                        let dest_val = self.tiles[dest_idx].val;
                        let ghost s0 = self.spec_tiles();
                        let v = match cur.val {
                            Some(v) => v,
                            None => 0,
                        };
                        proof {
                            if bounded {
                                lemma_value_sum_bounds(s0, cur_idx as int);
                            }
                        }
                        let w = match dest_val {
                            None => v,
                            Some(_) => {
                                has_merged_one = true;
                                v.wrapping_mul(2)
                            },
                        };
                        self.set_tile(dest_idx, Some(w), true);
                        self.set_tile(cur_idx, None, true);
                        proof {
                            if bounded {
                                self.lemma_pos_injective(
                                    dir,
                                    x as int,
                                    destination as int,
                                    y as int,
                                );
                                let td = Tile {
                                    val: Some(w),
                                    changed: true,
                                    row: s0[dest_idx as int].row,
                                    col: s0[dest_idx as int].col,
                                };
                                let s1 = s0.update(dest_idx as int, td);
                                lemma_value_sum_update(s0, dest_idx as int, td);
                                let tc = Tile {
                                    val: None,
                                    changed: true,
                                    row: s1[cur_idx as int].row,
                                    col: s1[cur_idx as int].col,
                                };
                                lemma_value_sum_update(s1, cur_idx as int, tc);
                            }
                        }
                    }
                }
                y = y + 1;
            }
            x = x + 1;
        }
        changed
    }
}

/// The total value on the board: what sliding and merging conserve.
pub open spec fn value_sum(s: Seq<Tile>) -> int
    decreases s.len(),
{
    if s.len() == 0 {
        0
    } else {
        value_sum(s.drop_last()) + tile_val(s.last())
    }
}

/// The sum is nonnegative.
proof fn lemma_value_sum_nonneg(s: Seq<Tile>)
    ensures
        0 <= value_sum(s),
    decreases s.len(),
{
    if s.len() > 0 {
        lemma_value_sum_nonneg(s.drop_last());
    }
}

/// No single tile's value exceeds the sum.
proof fn lemma_value_sum_bounds(s: Seq<Tile>, i: int)
    requires
        0 <= i < s.len(),
    ensures
        tile_val(s[i]) <= value_sum(s),
    decreases s.len(),
{
    lemma_value_sum_nonneg(s.drop_last());
    if i < s.len() - 1 {
        lemma_value_sum_bounds(s.drop_last(), i);
        assert(s.drop_last()[i] == s[i]);
    }
}

/// Replacing one tile shifts the sum by the difference of the two values.
proof fn lemma_value_sum_update(s: Seq<Tile>, i: int, t: Tile)
    requires
        0 <= i < s.len(),
    ensures
        value_sum(s.update(i, t)) == value_sum(s) - tile_val(s[i]) + tile_val(t),
    decreases s.len(),
{
    let u = s.update(i, t);
    if i == s.len() - 1 {
        assert(u.drop_last() =~= s.drop_last());
        assert(u.last() == t);
    } else {
        assert(u.drop_last() =~= s.drop_last().update(i, t));
        assert(u.last() == s.last());
        lemma_value_sum_update(s.drop_last(), i, t);
        assert(s.drop_last()[i] == s[i]);
    }
}

/// Whether a tile is marked for redraw.
pub open spec fn changed_pred() -> spec_fn(Tile) -> bool {
    |t: Tile| t.changed
}

/// A tile's value, reading an empty tile as 0.
pub open spec fn tile_val(t: Tile) -> u64 {
    match t.val {
        Some(v) => v,
        None => 0,
    }
}

/// Extending a prefix by one tile adds it to the filtered tiles exactly when
/// it is marked.
proof fn lemma_filter_take_step(s: Seq<Tile>, i: int)
    requires
        0 <= i < s.len(),
    ensures
        s.take(i + 1).filter(changed_pred()) == s.take(i).filter(changed_pred()) + if s[i].changed {
            seq![s[i]]
        } else {
            Seq::<Tile>::empty()
        },
{
    let p = changed_pred();
    assert(s.take(i + 1) =~= s.take(i) + seq![s[i]]);
    Seq::filter_distributes_over_add(s.take(i), seq![s[i]], p);
    reveal_with_fuel(Seq::<_>::filter, 2);
    assert(seq![s[i]].drop_last() =~= Seq::<Tile>::empty());
    if s[i].changed {
        assert(seq![s[i]].filter(p) =~= seq![s[i]]);
    } else {
        assert(seq![s[i]].filter(p) =~= Seq::<Tile>::empty());
    }
}

/// Extending a prefix by one tile raises the empty count exactly when the
/// tile is empty.
proof fn lemma_empty_count_take_step(s: Seq<Tile>, i: int)
    requires
        0 <= i < s.len(),
    ensures
        empty_count(s.take(i + 1)) == empty_count(s.take(i)) + if s[i].val is None {
            1int
        } else {
            0int
        },
{
    assert(s.take(i + 1).drop_last() =~= s.take(i));
    assert(s.take(i + 1).last() == s[i]);
}

/// The color a tile is drawn in, from the merge puzzle's classic palette.
pub fn tile_color(tile: &Tile) -> (c: Color)
    ensures
        c == tile_color_spec(*tile),
{
    match tile.val {
        None => Color::White,
        Some(2) => Color::RGB32(0xeee4da),
        Some(4) => Color::RGB32(0xeee1c9),
        Some(8) => Color::RGB32(0xf3b27a),
        Some(16) => Color::RGB32(0xf69664),
        Some(32) => Color::RGB32(0xf77c5f),
        Some(64) => Color::RGB32(0xff75f3b),
        Some(128) => Color::RGB32(0xedd073),
        Some(256) => Color::RGB32(0xedcc62),
        Some(512) => Color::RGB32(0xedc950),
        Some(1024) => Color::RGB32(0xedc53f),
        Some(2048) => Color::RGB32(0xedc22e),
        _ => Color::Red,
    }
}

/// What `tile_color` returns for each value.
pub open spec fn tile_color_spec(tile: Tile) -> Color {
    match tile.val {
        None => Color::White,
        Some(2u64) => Color::RGB32(0xeee4da),
        Some(4u64) => Color::RGB32(0xeee1c9),
        Some(8u64) => Color::RGB32(0xf3b27a),
        Some(16u64) => Color::RGB32(0xf69664),
        Some(32u64) => Color::RGB32(0xf77c5f),
        Some(64u64) => Color::RGB32(0xff75f3b),
        Some(128u64) => Color::RGB32(0xedd073),
        Some(256u64) => Color::RGB32(0xedcc62),
        Some(512u64) => Color::RGB32(0xedc950),
        Some(1024u64) => Color::RGB32(0xedc53f),
        Some(2048u64) => Color::RGB32(0xedc22e),
        _ => Color::Red,
    }
}

/// The color a tile is drawn in, from a darker alternative palette.
pub fn tile_color2(tile: &Tile) -> (c: Color)
    ensures
        c == tile_color2_spec(*tile),
{
    match tile.val {
        None => Color::RGB32(0x323846),
        Some(2) => Color::RGB32(0xe91e63),
        Some(4) => Color::RGB32(0xe91e1f),
        Some(8) => Color::RGB32(0xe9601e),
        Some(16) => Color::RGB32(0x2196f3),
        Some(32) => Color::RGB32(0x2150f3),
        Some(64) => Color::RGB32(0x3821f3),
        Some(128) => Color::RGB32(0x4caf50),
        Some(256) => Color::RGB32(0x4caf71),
        Some(512) => Color::RGB32(0x4caf92),
        Some(1024) => Color::RGB32(0xff9800),
        Some(2048) => Color::RGB32(0xffad00),
        _ => Color::Red,
    }
}

/// What `tile_color2` returns for each value.
pub open spec fn tile_color2_spec(tile: Tile) -> Color {
    match tile.val {
        None => Color::RGB32(0x323846),
        Some(2u64) => Color::RGB32(0xe91e63),
        Some(4u64) => Color::RGB32(0xe91e1f),
        Some(8u64) => Color::RGB32(0xe9601e),
        Some(16u64) => Color::RGB32(0x2196f3),
        Some(32u64) => Color::RGB32(0x2150f3),
        Some(64u64) => Color::RGB32(0x3821f3),
        Some(128u64) => Color::RGB32(0x4caf50),
        Some(256u64) => Color::RGB32(0x4caf71),
        Some(512u64) => Color::RGB32(0x4caf92),
        Some(1024u64) => Color::RGB32(0xff9800),
        Some(2048u64) => Color::RGB32(0xffad00),
        _ => Color::Red,
    }
}

/// Tiles per side of the playing board.
pub const BOARD_SIZE: usize = 4;

/// Pixels between tiles.
pub const MARGIN_PIXELS: usize = 4;

/// The winning tile value.
pub const WINNING_VALUE: u64 = 2048;

/// The tile side length that fits a board into the given screen: eight
/// tenths of the smaller dimension, minus the margins, split over the tiles
/// and rounded down to an even number.
pub open spec fn tile_size_spec(width: int, height: int) -> int {
    let smaller = if width < height {
        width
    } else {
        height
    };
    let fitted = (smaller * 8 / 10 - (MARGIN_PIXELS as int) * (BOARD_SIZE as int + 1)) / (
    BOARD_SIZE as int);
    fitted - fitted % 2
}

/// The merge puzzle as a game: the board plus the finished flag and the
/// layout the renderer draws it with.
pub struct World {
    pub board: Board,
    pub game_over: bool,
    pub width: usize,
    pub height: usize,
    pub tile_size: usize,
    pub result_drawn: bool,
}

impl World {
    /// The board's playing state.
    pub closed spec fn spec_board(&self) -> (int, int, Seq<Tile>) {
        (self.board.spec_rows(), self.board.spec_cols(), self.board.spec_tiles())
    }

    pub closed spec fn wf(&self) -> bool {
        &&& self.board.wf()
        &&& self.board.spec_rows() == BOARD_SIZE
        &&& self.board.spec_cols() == BOARD_SIZE
    }

    /// A fresh, empty board laid out for the given screen; the seed drives
    /// where new tiles appear.
    pub fn new(width: usize, height: usize, seed: u64) -> (w: World)
        requires
            width * 8 <= usize::MAX,
            height * 8 <= usize::MAX,
            tile_size_spec(width as int, height as int) >= 0,
        ensures
            w.wf(),
            !w.game_over,
            !w.result_drawn,
            w.width == width,
            w.height == height,
            w.tile_size as int == tile_size_spec(width as int, height as int),
    {
        let smaller = if width < height {
            width
        } else {
            height
        };
        let fitted = (smaller * 8 / 10 - MARGIN_PIXELS * (BOARD_SIZE + 1)) / BOARD_SIZE;
        let tile_size = fitted - fitted % 2;
        World {
            board: Board::new(BOARD_SIZE, BOARD_SIZE, seed),
            game_over: false,
            width,
            height,
            tile_size,
            result_drawn: false,
        }
    }

    /// Read access to the board, for rendering.
    pub fn board(&self) -> (b: &Board)
        ensures
            (b.spec_rows(), b.spec_cols(), b.spec_tiles()) == self.spec_board(),
    {
        &self.board
    }

    /// Unmark the redrawn tiles after rendering.
    pub fn clear_changed(&mut self)
        requires
            old(self).wf(),
        ensures
            final(self).wf(),
    {
        self.board.clear_changed();
    }

    /// Start a fresh round: clear the board, drop two starting tiles on it.
    pub fn reset(&mut self)
        requires
            old(self).wf(),
        ensures
            final(self).wf(),
            !final(self).game_over,
            !final(self).result_drawn,
            final(self).width == old(self).width,
            final(self).height == old(self).height,
            final(self).tile_size == old(self).tile_size,
    {
        self.board.reset();
        self.board.random_fill_empty_tile();
        self.board.random_fill_empty_tile();
        self.game_over = false;
        self.result_drawn = false;
    }

    /// One tick of the game: it finishes once the board is stuck or holds
    /// the winning tile, and otherwise just stays live — the board only
    /// moves on key presses.
    pub fn step(&mut self) -> (r: GameState)
        requires
            old(self).wf(),
        ensures
            final(self).wf(),
            r == GameState::Live,
            final(self).spec_board() == old(self).spec_board(),
            final(self).width == old(self).width,
            final(self).height == old(self).height,
            final(self).tile_size == old(self).tile_size,
            final(self).result_drawn == old(self).result_drawn,
            old(self).game_over ==> final(self).game_over,
    {
        if self.game_over {
            return GameState::Live;
        }
        if self.board.is_game_over() || self.board.max_val() == WINNING_VALUE {
            self.game_over = true;
            return GameState::Live;
        }
        GameState::Live
    }

    /// Slide the board along a pressed arrow key; a move that changed the
    /// board drops one new tile.  Input is ignored while the game is over or
    /// while redrawn tiles are still pending.
    pub fn on_keypress(&mut self, key: KeyPress)
        requires
            old(self).wf(),
        ensures
            final(self).wf(),
            final(self).width == old(self).width,
            final(self).height == old(self).height,
            final(self).tile_size == old(self).tile_size,
    {
        if self.game_over || self.board.has_changed() {
            return ;
        }
        let direction = match key {
            KeyPress::ArrowLeft => Some(Direction::Left),
            KeyPress::ArrowRight => Some(Direction::Right),
            KeyPress::ArrowUp => Some(Direction::Up),
            KeyPress::ArrowDown => Some(Direction::Down),
            _ => None,
        };
        match direction {
            Some(dir) => {
                if self.board.move_direction(dir) {
                    self.board.random_fill_empty_tile();
                }
                self.game_over = self.board.is_game_over();
            },
            None => {},
        }
    }
}

} // verus!
