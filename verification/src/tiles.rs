//! The kinds of cell a board can hold, and what each kind is like.

use vstd::prelude::*;

verus! {

/// One cell of a board.
#[derive(Clone, Copy, Debug, PartialEq, Eq, Structural)]
pub enum Tile {
    Empty,
    Wall,
    Box,
}

impl Default for Tile {
    /// A fresh board cell is empty.
    fn default() -> (r: Self)
        ensures
            r == Tile::Empty,
    {
        Tile::Empty
    }
}

impl Tile {
    /// The one-character symbol a renderer draws for this tile.
    pub fn symbol(&self) -> (r: &'static str)
        ensures
            r@ == self.symbol_spec(),
    {
        match self {
            Tile::Wall => "#",
            Tile::Box => "*",
            Tile::Empty => " ",
        }
    }

    pub open spec fn symbol_spec(self) -> Seq<char> {
        match self {
            Tile::Wall => "#"@,
            Tile::Box => "*"@,
            Tile::Empty => " "@,
        }
    }

    /// The physical properties of this tile kind.
    pub fn descriptor(&self) -> (r: TileDescriptor)
        ensures
            r == self.descriptor_spec(),
    {
        match self {
            Tile::Wall => TileDescriptor { solid: true, pushable: false },
            Tile::Box => TileDescriptor { solid: true, pushable: true },
            Tile::Empty => TileDescriptor { solid: false, pushable: true },
        }
    }

    pub open spec fn descriptor_spec(self) -> TileDescriptor {
        match self {
            Tile::Wall => TileDescriptor { solid: true, pushable: false },
            Tile::Box => TileDescriptor { solid: true, pushable: true },
            Tile::Empty => TileDescriptor { solid: false, pushable: true },
        }
    }
}

/// How a tile behaves: whether it blocks movement and whether a player
/// could push into it.
#[derive(Clone, Copy, Debug, PartialEq, Eq, Structural)]
pub struct TileDescriptor {
    pub solid: bool,
    pub pushable: bool,
}

} // verus!
