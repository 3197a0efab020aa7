//! The tile world: a fixed grid of tiles, each a terrain with an overlay,
//! plus per-tile fall speeds for the falling-tile update.

use vstd::prelude::*;

verus! {

use crate::terrain::{Terrain, Overlay};

pub const WIDTH: usize = 800;

pub const HEIGHT: usize = 600;

/// One grid cell: ground terrain plus what sits on it.
#[derive(Clone, Copy, Debug, PartialEq, Eq, Structural)]
pub struct Tile {
    pub terrain: Terrain,
    pub overlay: Overlay,
}

pub open spec fn spec_empty_tile() -> Tile {
    Tile { terrain: Terrain::Empty, overlay: Overlay::Air }
}

impl Tile {
    /// A tile of empty terrain under plain air.
    pub fn empty() -> (r: Self)
        ensures
            r == spec_empty_tile(),
    {
        Tile { terrain: Terrain::Empty, overlay: Overlay::Air }
    }

    /// Solid if either the terrain or the overlay is.
    pub fn is_solid(&self) -> (r: bool)
        ensures
            r == (self.terrain != Terrain::Empty || self.overlay == Overlay::Grass || self.overlay
                == Overlay::Stone || self.overlay == Overlay::Ice),
    {
        self.terrain.is_solid() || self.overlay.is_solid()
    }
}

impl Default for Tile {
    fn default() -> (r: Self)
        ensures
            r == spec_empty_tile(),
    {
        Tile::empty()
    }
}

/// The world grid.  Rows are indexed by `y`, columns by `x`; a `None` cell
/// never arises through this module's own operations but the type allows it.
pub struct World {
    pub tiles: Vec<Vec<Option<Tile>>>,
    pub fall_speeds: Vec<u8>,
}

pub open spec fn world_wf(w: &World) -> bool {
    &&& w.tiles@.len() == HEIGHT
    &&& forall|y: int| 0 <= y < HEIGHT ==> #[trigger] w.tiles@[y]@.len() == WIDTH
    &&& w.fall_speeds@.len() == WIDTH * HEIGHT
}

/// The tile at `(x, y)`, or `None` outside the grid.
pub open spec fn spec_get(w: &World, x: int, y: int) -> Option<Tile> {
    if 0 <= x < WIDTH && 0 <= y < HEIGHT {
        w.tiles@[y]@[x]
    } else {
        None
    }
}

/// Whether the tile at `(x, y)` exists and is dirt.
pub open spec fn dirt_at(w: &World, x: int, y: int) -> bool {
    match spec_get(w, x, y) {
        Some(t) => t.terrain == Terrain::Dirt,
        None => false,
    }
}

/// How many contiguous dirt tiles sit directly above `(x, y)`, looking up at
/// most four rows.
pub open spec fn spec_stack_height(w: &World, x: int, y: int) -> int {
    if !(y >= 1 && dirt_at(w, x, y - 1)) {
        0
    } else if !(y >= 2 && dirt_at(w, x, y - 2)) {
        1
    } else if !(y >= 3 && dirt_at(w, x, y - 3)) {
        2
    } else if !(y >= 4 && dirt_at(w, x, y - 4)) {
        3
    } else {
        4
    }
}

impl World {
    /// A world of empty tiles at rest.
    pub fn new() -> (r: Self)
        ensures
            world_wf(&r),
            forall|x: int, y: int|
                0 <= x < WIDTH && 0 <= y < HEIGHT ==> #[trigger] spec_get(&r, x, y) == Some(
                    spec_empty_tile(),
                ),
            forall|i: int| 0 <= i < WIDTH * HEIGHT ==> #[trigger] r.fall_speeds@[i] == 0,
    {
        let mut tiles: Vec<Vec<Option<Tile>>> = Vec::new();
        let mut y: usize = 0;
        while y < HEIGHT
            invariant
                y <= HEIGHT,
                tiles@.len() == y,
                forall|yy: int| 0 <= yy < y ==> #[trigger] tiles@[yy]@.len() == WIDTH,
                forall|yy: int, xx: int|
                    0 <= yy < y && 0 <= xx < WIDTH ==> #[trigger] tiles@[yy]@[xx] == Some(
                        spec_empty_tile(),
                    ),
            decreases HEIGHT - y,
        {
            let mut row: Vec<Option<Tile>> = Vec::new();
            let mut x: usize = 0;
            while x < WIDTH
                invariant
                    x <= WIDTH,
                    row@.len() == x,
                    forall|xx: int|
                        0 <= xx < x ==> #[trigger] row@[xx] == Some(spec_empty_tile()),
                decreases WIDTH - x,
            {
                row.push(Some(Tile::empty()));
                x = x + 1;
            }
            tiles.push(row);
            y = y + 1;
        }
        let mut fall_speeds: Vec<u8> = Vec::new();
        let mut i: usize = 0;
        while i < WIDTH * HEIGHT
            invariant
                i <= WIDTH * HEIGHT,
                fall_speeds@.len() == i,
                forall|k: int| 0 <= k < i ==> #[trigger] fall_speeds@[k] == 0,
            decreases WIDTH * HEIGHT - i,
        {
            fall_speeds.push(0);
            i = i + 1;
        }
        World { tiles, fall_speeds }
    }

    /// The tile at `(x, y)`, if the coordinate is on the grid and the cell is
    /// occupied.
    pub fn get(&self, x: usize, y: usize) -> (r: Option<&Tile>)
        requires
            world_wf(self),
        ensures
            match r {
                Some(t) => spec_get(self, x as int, y as int) == Some(*t),
                None => spec_get(self, x as int, y as int) is None,
            },
    {
        if x < WIDTH && y < HEIGHT {
            self.tiles[y][x].as_ref()
        } else {
            None
        }
    }

    /// The overlay at `(x, y)`, if that tile exists.
    pub fn get_overlay(&self, x: usize, y: usize) -> (r: Option<&Overlay>)
        requires
            world_wf(self),
        ensures
            match r {
                Some(o) => spec_get(self, x as int, y as int) matches Some(t) && t.overlay == *o,
                None => spec_get(self, x as int, y as int) is None,
            },
    {
        match self.get(x, y) {
            Some(t) => Some(&t.overlay),
            None => None,
        }
    }

    /// The recorded fall speed at `(x, y)`.
    pub fn get_fall_speed(&self, x: usize, y: usize) -> (r: u8)
        requires
            world_wf(self),
            x < WIDTH,
            y < HEIGHT,
        ensures
            r == self.fall_speeds@[y * WIDTH + x],
    {
        proof {
            lemma_cell_index(x as int, y as int);
        }
        self.fall_speeds[y * WIDTH + x]
    }

    /// Records a fall speed at `(x, y)`.
    pub fn set_fall_speed(&mut self, x: usize, y: usize, speed: u8)
        requires
            world_wf(old(self)),
            x < WIDTH,
            y < HEIGHT,
        ensures
            world_wf(final(self)),
            final(self).tiles@ == old(self).tiles@,
            final(self).fall_speeds@ == old(self).fall_speeds@.update((y * WIDTH + x) as int, speed),
    {
        proof {
            lemma_cell_index(x as int, y as int);
        }
        self.fall_speeds[y * WIDTH + x] = speed;
    }

    /// Replaces the overlay at `(x, y)`; off the grid or on a missing tile
    /// this changes nothing.
    pub fn set_overlay(&mut self, x: usize, y: usize, overlay: Overlay)
        requires
            world_wf(old(self)),
        ensures
            world_wf(final(self)),
            final(self).fall_speeds@ == old(self).fall_speeds@,
            forall|xx: int, yy: int|
                0 <= xx < WIDTH && 0 <= yy < HEIGHT ==> #[trigger] spec_get(final(self), xx, yy) == (
                if xx == x && yy == y {
                    match spec_get(old(self), xx, yy) {
                        Some(t) => Some((Tile { terrain: t.terrain, overlay })),
                        None => None,
                    }
                } else {
                    spec_get(old(self), xx, yy)
                }),
    {
        if x < WIDTH && y < HEIGHT {
            match self.tiles[y][x] {
                Some(t) => {
                    self.tiles[y][x] = Some(Tile { terrain: t.terrain, overlay });
                },
                None => {},
            }
        }
    }

    /// Replaces the terrain at `(x, y)`; off the grid or on a missing tile
    /// this changes nothing.
    pub fn set_terrain(&mut self, x: usize, y: usize, terrain: Terrain)
        requires
            world_wf(old(self)),
        ensures
            world_wf(final(self)),
            final(self).fall_speeds@ == old(self).fall_speeds@,
            forall|xx: int, yy: int|
                0 <= xx < WIDTH && 0 <= yy < HEIGHT ==> #[trigger] spec_get(final(self), xx, yy) == (
                if xx == x && yy == y {
                    match spec_get(old(self), xx, yy) {
                        Some(t) => Some((Tile { terrain, overlay: t.overlay })),
                        None => None,
                    }
                } else {
                    spec_get(old(self), xx, yy)
                }),
    {
        if x < WIDTH && y < HEIGHT {
            match self.tiles[y][x] {
                Some(t) => {
                    self.tiles[y][x] = Some(Tile { terrain, overlay: t.overlay });
                },
                None => {},
            }
        }
    }

    /// Swaps the whole tiles at two coordinates (terrain and overlay move
    /// together); if either coordinate is off the grid, nothing changes.
    pub fn swap_terrain(&mut self, x1: usize, y1: usize, x2: usize, y2: usize)
        requires
            world_wf(old(self)),
        ensures
            world_wf(final(self)),
            final(self).fall_speeds@ == old(self).fall_speeds@,
            x1 < WIDTH && y1 < HEIGHT && x2 < WIDTH && y2 < HEIGHT ==> forall|xx: int, yy: int|
                0 <= xx < WIDTH && 0 <= yy < HEIGHT ==> #[trigger] spec_get(final(self), xx, yy) == (
                if xx == x1 && yy == y1 {
                    spec_get(old(self), x2 as int, y2 as int)
                } else if xx == x2 && yy == y2 {
                    spec_get(old(self), x1 as int, y1 as int)
                } else {
                    spec_get(old(self), xx, yy)
                }),
            !(x1 < WIDTH && y1 < HEIGHT && x2 < WIDTH && y2 < HEIGHT) ==> final(self).tiles@
                == old(self).tiles@,
    {
        if x1 < WIDTH && y1 < HEIGHT && x2 < WIDTH && y2 < HEIGHT {
            let t1: Option<Tile> = self.tiles[y1][x1];
            let t2: Option<Tile> = self.tiles[y2][x2];
            self.tiles[y1][x1] = t2;
            self.tiles[y2][x2] = t1;
        }
    }

    /// Counts the contiguous dirt tiles directly above `(x, y)`, up to four.
    pub fn count_stack_height(&self, x: usize, y: usize) -> (r: usize)
        requires
            world_wf(self),
        ensures
            r == spec_stack_height(self, x as int, y as int),
    {
        let mut count: usize = 0;
        if y < 1 || !self.dirt_above(x, y, 1) {
            return 0;
        }
        if y < 2 || !self.dirt_above(x, y, 2) {
            return 1;
        }
        if y < 3 || !self.dirt_above(x, y, 3) {
            return 2;
        }
        if y < 4 || !self.dirt_above(x, y, 4) {
            return 3;
        }
        4
    }

    /// Lets grass sprout: wherever a fully empty cell sits directly on
    /// dirt, grass appears there with a small chance per call.  Nothing
    /// else changes: terrain is untouched, and the only overlay change is
    /// air turning to grass over dirt.
    pub fn grow_grass(&mut self, rng: &mut rand::rngs::StdRng)
        requires
            world_wf(old(self)),
        ensures
            world_wf(final(self)),
            final(self).fall_speeds@ == old(self).fall_speeds@,
            forall|xx: int, yy: int|
                0 <= xx < WIDTH && 0 <= yy < HEIGHT ==> grass_growth_only(
                    spec_get(old(self), xx, yy),
                    #[trigger] spec_get(final(self), xx, yy),
                    dirt_at(old(self), xx, yy + 1),
                ),
    {
        let ghost init = *self;
        let mut x: usize = 0;
        while x < WIDTH
            invariant
                world_wf(self),
                world_wf(&init),
                self.fall_speeds@ == init.fall_speeds@,
                forall|xx: int, yy: int|
                    0 <= xx < WIDTH && 0 <= yy < HEIGHT ==> grass_growth_only(
                        spec_get(&init, xx, yy),
                        #[trigger] spec_get(self, xx, yy),
                        dirt_at(&init, xx, yy + 1),
                    ),
            decreases WIDTH - x,
        {
            let mut y: usize = 1;
            while y < HEIGHT
                invariant
                    world_wf(self),
                    world_wf(&init),
                    self.fall_speeds@ == init.fall_speeds@,
                    x < WIDTH,
                    1 <= y,
                    forall|xx: int, yy: int|
                        0 <= xx < WIDTH && 0 <= yy < HEIGHT ==> grass_growth_only(
                            spec_get(&init, xx, yy),
                            #[trigger] spec_get(self, xx, yy),
                            dirt_at(&init, xx, yy + 1),
                        ),
                decreases HEIGHT - y,
            {
                let ground_is_dirt: bool = match self.get(x, y) {
                    Some(t) => t.terrain == Terrain::Dirt,
                    None => false,
                };
                if ground_is_dirt {
                    let above_free: bool = match self.get(x, y - 1) {
                        Some(t) => t.terrain == Terrain::Empty && t.overlay == Overlay::Air,
                        None => false,
                    };
                    if above_free && crate::rng::word_chance(crate::rng::next_word(rng), 5_000) {
                        let ghost pre = *self;
                        self.set_overlay(x, y - 1, Overlay::Grass);
                        proof {
                            assert forall|xx: int, yy: int|
                                0 <= xx < WIDTH && 0 <= yy < HEIGHT implies grass_growth_only(
                                spec_get(&init, xx, yy),
                                #[trigger] spec_get(self, xx, yy),
                                dirt_at(&init, xx, yy + 1),
                            ) by {
                                assert(grass_growth_only(
                                    spec_get(&init, xx, yy),
                                    spec_get(&pre, xx, yy),
                                    dirt_at(&init, xx, yy + 1),
                                ));
                                if xx == x && yy == y - 1 {
                                    // The freshly grassed cell was empty air
                                    // over dirt in the initial world too:
                                    // overlays only ever turn into grass and
                                    // terrain never changes.
                                    assert(dirt_at(&init, xx, yy + 1));
                                }
                            }
                        }
                    }
                }
                y = y + 1;
            }
            x = x + 1;
        }
    }

    fn dirt_above(&self, x: usize, y: usize, dy: usize) -> (r: bool)
        requires
            world_wf(self),
            dy <= y,
        ensures
            r == dirt_at(self, x as int, y as int - dy as int),
    {
        match self.get(x, y - dy) {
            Some(t) => t.terrain == Terrain::Dirt,
            None => false,
        }
    }
}

/// How one cell may differ after grass growth: it kept its occupancy and
/// terrain, and its overlay either stayed or — on a fully empty cell lying
/// on dirt — turned to grass.
pub open spec fn grass_growth_only(
    before: Option<Tile>,
    after: Option<Tile>,
    on_dirt: bool,
) -> bool {
    match (before, after) {
        (Some(t1), Some(t2)) => t2.terrain == t1.terrain && (t2.overlay == t1.overlay || (
        t2.overlay == Overlay::Grass && t1.terrain == Terrain::Empty && t1.overlay == Overlay::Air
            && on_dirt)),
        (None, None) => true,
        _ => false,
    }
}

/// A grid coordinate's index into the flat fall-speed array is in range.
proof fn lemma_cell_index(x: int, y: int)
    requires
        0 <= x < WIDTH,
        0 <= y < HEIGHT,
    ensures
        0 <= y * WIDTH + x < WIDTH * HEIGHT,
{
    assert(y * WIDTH + x < WIDTH * HEIGHT) by (nonlinear_arith)
        requires
            0 <= x < WIDTH,
            0 <= y < HEIGHT,
    ;
    assert(y * WIDTH >= 0) by (nonlinear_arith)
        requires
            y >= 0,
    ;
}

} // verus!
