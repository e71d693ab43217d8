//! The tile map: a grid of sprite indices.
use vstd::prelude::*;

verus! {

/// Width of the map, in tiles.
pub const MAP_WIDTH: i32 = 128;

/// Height of the map, in tiles.
pub const MAP_HEIGHT: i32 = 64;

/// A grid of 128×64 tiles, each the index of a sprite.
pub struct TileMap {
    tiles: Vec<u8>,
}

impl TileMap {
    /// The map holds 128×64 tiles.
    pub open spec fn wf(&self) -> bool {
        self@.len() == 8192
    }

    /// The tiles, row by row.
    pub closed spec fn view(&self) -> Seq<u8> {
        self.tiles@
    }

    /// Whether `(x, y)` is a tile of the map.
    pub open spec fn contains(x: int, y: int) -> bool {
        0 <= x < 128 && 0 <= y < 64
    }

    /// The tile at `(x, y)`, and 0 outside the map.
    pub open spec fn tile(&self, x: int, y: int) -> u8 {
        if Self::contains(x, y) {
            self@[y * 128 + x]
        } else {
            0
        }
    }

    /// A map in which every tile is sprite 0.
    pub fn new() -> (m: TileMap)
        ensures
            m.wf(),
            m@ == Seq::new(8192, |i: int| 0u8),
    {
        let mut tiles: Vec<u8> = Vec::new();
        let mut i: usize = 0;
        while i < 8192
            invariant
                i <= 8192,
                tiles@ == Seq::new(i as nat, |j: int| 0u8),
            decreases 8192 - i,
        {
            tiles.push(0);
            i += 1;
        }
        TileMap { tiles }
    }

    /// A map of 128×64 tiles given row by row; `None` for any other number
    /// of tiles.
    pub fn from_tiles(tiles: Vec<u8>) -> (r: Option<TileMap>)
        ensures
            tiles.len() == 8192 <==> r is Some,
            r matches Some(m) ==> m.wf() && m@ == tiles@,
    {
        if tiles.len() == 8192 {
            Some(TileMap { tiles })
        } else {
            None
        }
    }

    /// The tiles, row by row.
    pub fn tiles(&self) -> (t: &Vec<u8>)
        ensures
            t@ == self@,
    {
        &self.tiles
    }

    /// The tile at `(x, y)`, and 0 outside the map.
    pub fn mget(&self, x: i32, y: i32) -> (t: u8)
        requires
            self.wf(),
        ensures
            t == self.tile(x as int, y as int),
    {
        if 0 <= x && x < MAP_WIDTH && 0 <= y && y < MAP_HEIGHT {
            self.tiles[(y * MAP_WIDTH + x) as usize]
        } else {
            0
        }
    }

    /// Sets the tile at `(x, y)`; does nothing outside the map.
    pub fn mset(&mut self, x: i32, y: i32, sprite: u8)
        requires
            old(self).wf(),
        ensures
            final(self).wf(),
            final(self)@ == if Self::contains(x as int, y as int) {
                old(self)@.update(y * 128 + x, sprite)
            } else {
                old(self)@
            },
    {
        if 0 <= x && x < MAP_WIDTH && 0 <= y && y < MAP_HEIGHT {
            self.tiles.set((y * MAP_WIDTH + x) as usize, sprite);
        }
    }
}

} // verus!
