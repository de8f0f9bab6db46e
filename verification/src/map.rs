use vstd::prelude::*;
use crate::components::Entity;

verus! {

/// What a grid cell is made of. Walls block movement and sight; down-stairs
/// are the way to the next level.
#[derive(Clone, Copy, PartialEq, Eq, Structural, Debug)]
pub enum TileType {
    Wall,
    Floor,
    DownStairs,
}

/// An axis-aligned room produced by the level generator. The interior strictly
/// between the corners is walkable floor.
#[derive(Clone, Copy, PartialEq, Eq, Structural, Debug)]
pub struct Rect {
    pub x1: i32,
    pub y1: i32,
    pub x2: i32,
    pub y2: i32,
}

impl Rect {
    /// The room's center tile, where the player is placed on arrival.
    pub fn center(&self) -> (r: (i32, i32))
        requires
            0 <= self.x1 <= self.x2 <= 0x1000,
            0 <= self.y1 <= self.y2 <= 0x1000,
        ensures
            r.0 == (self.x1 + self.x2) / 2,
            r.1 == (self.y1 + self.y2) / 2,
            self.x1 <= r.0 <= self.x2,
            self.y1 <= r.1 <= self.y2,
    {
        ((self.x1 + self.x2) / 2, (self.y1 + self.y2) / 2)
    }
}

/// The grid the external level generator hands over, together with the
/// per-tile state the simulation maintains: the permanent fog-of-war bitset
/// (`revealed_tiles`), the transient player-visibility bitset
/// (`visible_tiles`), the per-turn obstruction bitset (`blocked`) and the
/// per-turn occupant lists (`tile_content`).
#[derive(Clone, Debug)]
#[verifier::ext_equal]
pub struct GameMap {
    pub tiles: Vec<TileType>,
    pub rooms: Vec<Rect>,
    pub width: i32,
    pub height: i32,
    pub revealed_tiles: Vec<bool>,
    pub visible_tiles: Vec<bool>,
    pub blocked: Vec<bool>,
    pub tile_content: Vec<Vec<Entity>>,
    pub depth: i32,
}

impl GameMap {
    /// The flat index of cell (x, y); tiles are stored row by row.
    pub open spec fn idx_of(self, x: int, y: int) -> int {
        y * self.width + x
    }

    pub open spec fn in_bounds(self, x: int, y: int) -> bool {
        0 <= x < self.width && 0 <= y < self.height
    }

    /// A cell blocks sight when it lies outside the grid or its tile is a
    /// wall.
    pub open spec fn blocks_sight(self, x: int, y: int) -> bool {
        !self.in_bounds(x, y) || self.tiles@[self.idx_of(x, y)] is Wall
    }

    pub open spec fn valid_room(self, r: Rect) -> bool {
        &&& 0 <= r.x1 < r.x2 < self.width
        &&& 0 <= r.y1 < r.y2 < self.height
    }

    /// Well-formedness: a modestly sized, non-empty grid whose derived
    /// per-tile tables all have one slot per tile, whose rooms lie strictly
    /// inside the grid, and whose depth counter is sane.
    pub open spec fn wf(self) -> bool {
        &&& 1 <= self.width <= 0x1000
        &&& 1 <= self.height <= 0x1000
        &&& self.tiles@.len() == self.width * self.height
        &&& self.revealed_tiles@.len() == self.tiles@.len()
        &&& self.visible_tiles@.len() == self.tiles@.len()
        &&& self.blocked@.len() == self.tiles@.len()
        &&& self.tile_content@.len() == self.tiles@.len()
        &&& forall|i: int| 0 <= i < self.rooms@.len() ==> self.valid_room(#[trigger] self.rooms@[i])
        &&& 1 <= self.depth <= 100_000
    }

    /// Builds the simulation-side map around a freshly generated grid: all
    /// tiles unrevealed, nothing visible, nothing blocked, no occupants.
    pub fn new(width: i32, height: i32, tiles: Vec<TileType>, rooms: Vec<Rect>, depth: i32) -> (r:
        GameMap)
        requires
            1 <= width <= 0x1000,
            1 <= height <= 0x1000,
            tiles@.len() == width * height,
            forall|i: int| 0 <= i < rooms@.len() ==> {
                &&& 0 <= (#[trigger] rooms@[i]).x1 < rooms@[i].x2 < width
                &&& 0 <= rooms@[i].y1 < rooms@[i].y2 < height
            },
            1 <= depth <= 100_000,
        ensures
            r.wf(),
            r.tiles@ == tiles@,
            r.rooms@ == rooms@,
            r.width == width,
            r.height == height,
            r.depth == depth,
            forall|i: int| 0 <= i < r.revealed_tiles@.len() ==> !(#[trigger] r.revealed_tiles@[i]),
            forall|i: int| 0 <= i < r.visible_tiles@.len() ==> !(#[trigger] r.visible_tiles@[i]),
            forall|i: int| 0 <= i < r.blocked@.len() ==> !(#[trigger] r.blocked@[i]),
            forall|i: int| 0 <= i < r.tile_content@.len() ==> (#[trigger] r.tile_content@[i])@.len()
                == 0,
    {
        let n: usize = tiles.len();
        let mut revealed: Vec<bool> = Vec::new();
        let mut visible: Vec<bool> = Vec::new();
        let mut blocked: Vec<bool> = Vec::new();
        let mut content: Vec<Vec<Entity>> = Vec::new();
        let mut i: usize = 0;
        while i < n
            invariant
                i <= n,
                revealed@.len() == i,
                visible@.len() == i,
                blocked@.len() == i,
                content@.len() == i,
                forall|j: int| 0 <= j < i ==> !(#[trigger] revealed@[j]),
                forall|j: int| 0 <= j < i ==> !(#[trigger] visible@[j]),
                forall|j: int| 0 <= j < i ==> !(#[trigger] blocked@[j]),
                forall|j: int| 0 <= j < i ==> (#[trigger] content@[j])@.len() == 0,
            decreases n - i,
        {
            revealed.push(false);
            visible.push(false);
            blocked.push(false);
            content.push(Vec::new());
            i = i + 1;
        }
        GameMap {
            tiles,
            rooms,
            width,
            height,
            revealed_tiles: revealed,
            visible_tiles: visible,
            blocked: blocked,
            tile_content: content,
            depth,
        }
    }

    /// Flat index of an in-bounds coordinate pair.
    pub fn xy_idx(&self, x: i32, y: i32) -> (r: usize)
        requires
            self.wf(),
            self.in_bounds(x as int, y as int),
        ensures
            r == self.idx_of(x as int, y as int),
            r < self.tiles@.len(),
    {
        proof {
            assert(y * self.width + x < self.width * self.height && y * self.width >= 0
                && self.width * self.height <= 0x1000000) by (nonlinear_arith)
                requires
                    0 <= x < self.width,
                    0 <= y < self.height,
                    self.width <= 0x1000,
                    self.height <= 0x1000,
            ;
        }
        (y as usize) * (self.width as usize) + (x as usize)
    }

    /// Resets the obstruction bitset to the static picture: exactly the wall
    /// tiles block. The spatial index system then adds the entity blockers.
    pub fn populate_blocked(&mut self)
        requires
            old(self).wf(),
        ensures
            final(self).wf(),
            forall|i: int|
                0 <= i < final(self).blocked@.len() ==> (#[trigger] final(self).blocked@[i] == (
                final(self).tiles@[i] is Wall)),
            final(self).tiles@ == old(self).tiles@,
            final(self).rooms@ == old(self).rooms@,
            final(self).width == old(self).width,
            final(self).height == old(self).height,
            final(self).revealed_tiles@ == old(self).revealed_tiles@,
            final(self).visible_tiles@ == old(self).visible_tiles@,
            final(self).tile_content@ == old(self).tile_content@,
            final(self).depth == old(self).depth,
    {
        let n: usize = self.tiles.len();
        let mut i: usize = 0;
        while i < n
            invariant
                i <= n,
                self.wf(),
                n == self.tiles@.len(),
                forall|j: int|
                    0 <= j < i ==> (#[trigger] self.blocked@[j] == (self.tiles@[j] is Wall)),
                self.tiles@ == old(self).tiles@,
                self.rooms@ == old(self).rooms@,
                self.width == old(self).width,
                self.height == old(self).height,
                self.revealed_tiles@ == old(self).revealed_tiles@,
                self.visible_tiles@ == old(self).visible_tiles@,
                self.tile_content@ == old(self).tile_content@,
                self.depth == old(self).depth,
            decreases n - i,
        {
            let is_wall = match self.tiles[i] {
                TileType::Wall => true,
                _ => false,
            };
            self.blocked.set(i, is_wall);
            i = i + 1;
        }
    }

    /// Empties every per-tile occupant list; the spatial index system rebuilds
    /// them from current entity positions.
    pub fn clear_content_index(&mut self)
        requires
            old(self).wf(),
        ensures
            final(self).wf(),
            forall|i: int|
                0 <= i < final(self).tile_content@.len() ==> (#[trigger] final(self).tile_content@[i])@.len()
                    == 0,
            final(self).tiles@ == old(self).tiles@,
            final(self).rooms@ == old(self).rooms@,
            final(self).width == old(self).width,
            final(self).height == old(self).height,
            final(self).revealed_tiles@ == old(self).revealed_tiles@,
            final(self).visible_tiles@ == old(self).visible_tiles@,
            final(self).blocked@ == old(self).blocked@,
            final(self).depth == old(self).depth,
    {
        let n: usize = self.tile_content.len();
        let mut i: usize = 0;
        while i < n
            invariant
                i <= n,
                self.wf(),
                n == self.tile_content@.len(),
                forall|j: int| 0 <= j < i ==> (#[trigger] self.tile_content@[j])@.len() == 0,
                self.tiles@ == old(self).tiles@,
                self.rooms@ == old(self).rooms@,
                self.width == old(self).width,
                self.height == old(self).height,
                self.revealed_tiles@ == old(self).revealed_tiles@,
                self.visible_tiles@ == old(self).visible_tiles@,
                self.blocked@ == old(self).blocked@,
                self.depth == old(self).depth,
            decreases n - i,
        {
            self.tile_content.set(i, Vec::new());
            i = i + 1;
        }
    }
}

/// An in-bounds cell's flat index lies inside the tile table.
pub proof fn lemma_idx_bound(m: GameMap, x: int, y: int)
    requires
        m.wf(),
        m.in_bounds(x, y),
    ensures
        0 <= m.idx_of(x, y) < m.tiles@.len(),
{
    assert(0 <= y * m.width + x < m.width * m.height) by (nonlinear_arith)
        requires
            0 <= x < m.width,
            0 <= y < m.height,
    ;
}

/// Flat indices determine their coordinates: two in-bounds cells with the
/// same index are the same cell.
pub proof fn lemma_idx_injective(m: GameMap, x1: int, y1: int, x2: int, y2: int)
    requires
        m.wf(),
        m.in_bounds(x1, y1),
        m.in_bounds(x2, y2),
        m.idx_of(x1, y1) == m.idx_of(x2, y2),
    ensures
        x1 == x2,
        y1 == y2,
{
    assert(x1 == x2 && y1 == y2) by (nonlinear_arith)
        requires
            0 <= x1 < m.width,
            0 <= x2 < m.width,
            0 <= y1 < m.height,
            0 <= y2 < m.height,
            y1 * m.width + x1 == y2 * m.width + x2,
    ;
}

} // verus!
