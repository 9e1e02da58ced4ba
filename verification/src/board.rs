//! A rectangular grid of tiles with a player position and a goal position.
//! Cells are addressed by `(column, row)` pairs; the flat tile store uses
//! row-major indexing, `index = row * width + column`.

use vstd::prelude::*;

use crate::tiles::Tile;

verus! {

/// A `(column, row)` coordinate pair.
#[derive(PartialEq, Eq, Clone, Copy, Debug, Structural)]
pub struct Pos(pub usize, pub usize);

/// The editable level: a flat tile store of `width * height` cells plus the
/// player's and the goal's coordinates.
pub struct Board {
    pub width: usize,
    pub tiles: Vec<Tile>,
    pub player_pos: Pos,
    pub goal: Pos,
}

impl Board {
    /// A board is well formed when it has at least one column and one row and
    /// the tile store holds exactly `width * height` cells.
    pub open spec fn wf(self) -> bool {
        &&& self.width >= 1
        &&& self.tiles@.len() >= self.width
        &&& (self.tiles@.len() as int) % (self.width as int) == 0
    }

    /// The number of rows, derived from the tile store.
    pub open spec fn spec_height(self) -> int {
        self.tiles@.len() as int / self.width as int
    }

    /// Two boards hold the same level: same size, same tile in every cell,
    /// same player and goal positions.
    pub open spec fn eqv(self, other: Board) -> bool {
        &&& self.width == other.width
        &&& self.tiles@ == other.tiles@
        &&& self.player_pos == other.player_pos
        &&& self.goal == other.goal
    }

    /// A fresh board: all cells empty, the player at the top-left corner and
    /// the goal at the bottom-right corner.
    pub fn new(width: usize, height: usize) -> (r: Self)
        requires
            width >= 1,
            height >= 1,
            width * height <= usize::MAX,
        ensures
            r.wf(),
            r.width == width,
            r.tiles@ == Seq::new((width * height) as nat, |i: int| Tile::Empty),
            r.spec_height() == height,
            r.player_pos == (Pos(0, 0)),
            r.goal == (Pos((width - 1) as usize, (height - 1) as usize)),
    {
        let n = width * height;
        let mut tiles: Vec<Tile> = Vec::new();
        let mut i: usize = 0;
        while i < n
            invariant
                i <= n,
                tiles@ =~= Seq::new(i as nat, |j: int| Tile::Empty),
            decreases n - i,
        {
            tiles.push(Tile::Empty);
            i += 1;
        }
        proof {
            assert(tiles@ =~= Seq::new((width * height) as nat, |i: int| Tile::Empty));
            assert((width * height) as int % (width as int) == 0) by (nonlinear_arith)
                requires width >= 1;
            assert((width * height) as int / (width as int) == height) by (nonlinear_arith)
                requires width >= 1;
            assert(width * height >= width) by (nonlinear_arith)
                requires width >= 1 && height >= 1;
        }
        Self {
            width,
            tiles,
            player_pos: Pos(0, 0),
            goal: Pos(width - 1, height - 1),
        }
    }

    /// The number of rows.
    pub fn height(&self) -> (r: usize)
        requires
            self.wf(),
        ensures
            r == self.spec_height(),
    {
        self.tiles.len() / self.width
    }

    /// The number of columns.
    pub fn width(&self) -> (r: usize)
        ensures
            r == self.width,
    {
        self.width
    }

    /// The row-major index of a position, when it fits the tile store.
    /// Positions wrap across rows exactly as the flat index does: the result
    /// is `Some` if and only if `row * width + column` is within the store.
    pub open spec fn spec_index_of(self, pos: Pos) -> int {
        pos.1 * self.width + pos.0
    }

    /// The tile at a position, or `None` when its flat index lies outside
    /// the tile store.
    pub fn get_tile(&self, pos: Pos) -> (r: Option<Tile>)
        ensures
            r == (if self.spec_index_of(pos) < self.tiles@.len() {
                Some(self.tiles@[self.spec_index_of(pos)])
            } else {
                None::<Tile>
            }),
    {
        let n = self.tiles.len();
        match pos.1.checked_mul(self.width) {
            Some(row_base) => match row_base.checked_add(pos.0) {
                Some(i) => {
                    if i < n {
                        Some(self.tiles[i])
                    } else {
                        None
                    }
                },
                None => None,
            },
            None => None,
        }
    }

    /// Overwrite the tile at a position; a position whose flat index lies
    /// outside the tile store leaves the board unchanged.
    pub fn set_tile(&mut self, pos: Pos, tile: Tile)
        ensures
            final(self).width == old(self).width,
            final(self).player_pos == old(self).player_pos,
            final(self).goal == old(self).goal,
            final(self).tiles@ == (if old(self).spec_index_of(pos) < old(self).tiles@.len() {
                old(self).tiles@.update(old(self).spec_index_of(pos), tile)
            } else {
                old(self).tiles@
            }),
    {
        let n = self.tiles.len();
        match pos.1.checked_mul(self.width) {
            Some(row_base) => match row_base.checked_add(pos.0) {
                Some(i) => {
                    if i < n {
                        self.tiles[i] = tile;
                    }
                },
                None => {},
            },
            None => {},
        }
    }

    /// The player's position.
    pub fn player_pos(&self) -> (r: &Pos)
        ensures
            *r == self.player_pos,
    {
        &self.player_pos
    }

    /// Borrow the player's position for updating.
    pub fn player_pos_mut(&mut self) -> (r: &mut Pos)
        ensures
            *r == old(self).player_pos,
            final(self).player_pos == *final(r),
            final(self).width == old(self).width,
            final(self).tiles@ == old(self).tiles@,
            final(self).goal == old(self).goal,
    {
        &mut self.player_pos
    }

    /// Move the player.
    pub fn set_player_pos(&mut self, player_pos: Pos)
        ensures
            final(self).player_pos == player_pos,
            final(self).width == old(self).width,
            final(self).tiles@ == old(self).tiles@,
            final(self).goal == old(self).goal,
    {
        self.player_pos = player_pos;
    }

    /// The goal position.
    pub fn goal(&self) -> (r: &Pos)
        ensures
            *r == self.goal,
    {
        &self.goal
    }

    /// Borrow the goal position for updating.
    pub fn goal_mut(&mut self) -> (r: &mut Pos)
        ensures
            *r == old(self).goal,
            final(self).goal == *final(r),
            final(self).width == old(self).width,
            final(self).tiles@ == old(self).tiles@,
            final(self).player_pos == old(self).player_pos,
    {
        &mut self.goal
    }

    /// Move the goal.
    pub fn set_goal(&mut self, goal: Pos)
        ensures
            final(self).goal == goal,
            final(self).width == old(self).width,
            final(self).tiles@ == old(self).tiles@,
            final(self).player_pos == old(self).player_pos,
    {
        self.goal = goal;
    }
}

/// A well-formed board's tile store has exactly `width * height` cells, and
/// there is at least one row.
pub proof fn lemma_board_size(b: Board)
    requires
        b.wf(),
    ensures
        b.tiles@.len() == b.width * b.spec_height(),
        b.spec_height() >= 1,
        b.tiles@.len() <= usize::MAX,
{
    assert(b.tiles@.len() == vstd::std_specs::vec::spec_vec_len(&b.tiles));
    let n = b.tiles@.len() as int;
    let w = b.width as int;
    assert(n == w * (n / w) + n % w) by (nonlinear_arith)
        requires
            w >= 1,
    ;
    assert(n / w >= 1) by (nonlinear_arith)
        requires
            w >= 1 && n >= w,
    ;
}

} // verus!
