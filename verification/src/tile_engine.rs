//! The falling-tile update: loose terrain and fluid overlays fall with
//! accumulating speed, settle, and slide sideways into free diagonals.

use vstd::prelude::*;

use rand::rngs::StdRng;

verus! {

use crate::world::{World, world_wf, spec_get, Tile, WIDTH, HEIGHT};
use crate::terrain::{Terrain, Overlay};
use crate::rng::next_word;

/// Gravity for tiles: how much the fall speed grows per update.
pub const TILE_GRAVITY: u8 = 1;

/// The fastest a tile may fall, in rows per update.
pub const MAX_FALL_SPEED: u8 = 6;

/// A completed diagonal tile slide into column `nx`: the whole tiles at
/// `(x, y)` and `(nx, y+1)` trade places (the target held empty terrain),
/// both cells' fall speeds are reset, and nothing else moves.
pub open spec fn spec_terrain_slide(
    before: &World,
    after: &World,
    x: int,
    y: int,
    nx: int,
) -> bool {
    &&& (nx == x - 1 || nx == x + 1)
    &&& 0 <= nx < WIDTH
    &&& y + 1 < HEIGHT
    &&& (match spec_get(before, nx, y + 1) {
        Some(t) => t.terrain == Terrain::Empty,
        None => false,
    })
    &&& forall|xx: int, yy: int|
        0 <= xx < WIDTH && 0 <= yy < HEIGHT ==> #[trigger] spec_get(after, xx, yy) == (
        if xx == x && yy == y {
            spec_get(before, nx, y + 1)
        } else if xx == nx && yy == y + 1 {
            spec_get(before, x, y)
        } else {
            spec_get(before, xx, yy)
        })
    &&& forall|i: int|
        0 <= i < WIDTH * HEIGHT ==> #[trigger] after.fall_speeds@[i] == (
        if i == y * WIDTH + x || i == (y + 1) * WIDTH + nx {
            0
        } else {
            before.fall_speeds@[i]
        })
}

/// Tries to slide the whole tile at `(x, y)` one step diagonally down,
/// preferring the side picked by `left_first`; a slid tile's fall speed is
/// reset on both cells.
pub fn try_slide_terrain(world: &mut World, x: usize, y: usize, left_first: bool) -> (moved: bool)
    requires
        world_wf(old(world)),
        x < WIDTH,
        y < HEIGHT,
    ensures
        world_wf(final(world)),
        !moved ==> final(world).tiles@ == old(world).tiles@ && final(world).fall_speeds@ == old(
            world,
        ).fall_speeds@,
        moved ==> exists|nxv: int| #[trigger] spec_terrain_slide(
            old(world),
            final(world),
            x as int,
            y as int,
            nxv,
        ),
{
    let below: usize = y + 1;
    if below >= HEIGHT {
        return false;
    }
    let first_dx: i64 = if left_first {
        -1
    } else {
        1
    };
    let mut pass: usize = 0;
    while pass < 2
        invariant
            world_wf(world),
            world.tiles@ == old(world).tiles@,
            world.fall_speeds@ == old(world).fall_speeds@,
            x < WIDTH,
            y < HEIGHT,
            below == y + 1 < HEIGHT,
            first_dx == 1 || first_dx == -1i64,
        decreases 2 - pass,
    {
        let dx: i64 = if pass == 0 {
            first_dx
        } else {
            -first_dx
        };
        let nx_ok: bool = if dx < 0 {
            x >= 1
        } else {
            x + 1 < WIDTH
        };
        if nx_ok {
            let nx: usize = if dx < 0 {
                x - 1
            } else {
                x + 1
            };
            let target_empty: bool = match world.get(nx, below) {
                Some(t) => t.terrain == Terrain::Empty,
                None => false,
            };
            if target_empty {
                let ghost w0 = *world;
                world.swap_terrain(x, y, nx, below);
                let ghost w1 = *world;
                world.set_fall_speed(nx, below, 0);
                world.set_fall_speed(x, y, 0);
                proof {
                    assert forall|xx: int, yy: int|
                        0 <= xx < WIDTH && 0 <= yy < HEIGHT implies #[trigger] spec_get(
                        world,
                        xx,
                        yy,
                    ) == (if xx == x && yy == y {
                        spec_get(old(world), nx as int, y + 1)
                    } else if xx == nx && yy == y + 1 {
                        spec_get(old(world), x as int, y as int)
                    } else {
                        spec_get(old(world), xx, yy)
                    }) by {
                        assert(spec_get(world, xx, yy) == spec_get(&w1, xx, yy));
                        assert(spec_get(&w1, xx, yy) == (if xx == x && yy == y {
                            spec_get(&w0, nx as int, y + 1)
                        } else if xx == nx && yy == y + 1 {
                            spec_get(&w0, x as int, y as int)
                        } else {
                            spec_get(&w0, xx, yy)
                        }));
                    }
                    assert(spec_terrain_slide(
                        old(world),
                        world,
                        x as int,
                        y as int,
                        nx as int,
                    ));
                }
                return true;
            }
        }
        pass = pass + 1;
    }
    false
}

/// A completed diagonal overlay slide into column `nx`: the overlay leaves
/// `(x, y)` as air and replaces the (replaceable) overlay at `(nx, y+1)`,
/// terrain stays everywhere, both cells' fall speeds are reset, and nothing
/// else moves.
pub open spec fn spec_overlay_slide(
    before: &World,
    after: &World,
    x: int,
    y: int,
    nx: int,
    moved_overlay: Overlay,
) -> bool {
    &&& (nx == x - 1 || nx == x + 1)
    &&& 0 <= nx < WIDTH
    &&& y + 1 < HEIGHT
    &&& (match spec_get(before, nx, y + 1) {
        Some(t) => t.overlay == Overlay::Air || t.overlay == Overlay::Nothing || t.overlay
            == Overlay::Snow,
        None => false,
    })
    &&& forall|xx: int, yy: int|
        0 <= xx < WIDTH && 0 <= yy < HEIGHT ==> #[trigger] spec_get(after, xx, yy) == (
        if xx == x && yy == y {
            match spec_get(before, xx, yy) {
                Some(t) => Some((Tile { terrain: t.terrain, overlay: Overlay::Air })),
                None => None,
            }
        } else if xx == nx && yy == y + 1 {
            match spec_get(before, xx, yy) {
                Some(t) => Some((Tile { terrain: t.terrain, overlay: moved_overlay })),
                None => None,
            }
        } else {
            spec_get(before, xx, yy)
        })
    &&& forall|i: int|
        0 <= i < WIDTH * HEIGHT ==> #[trigger] after.fall_speeds@[i] == (
        if i == y * WIDTH + x || i == (y + 1) * WIDTH + nx {
            0
        } else {
            before.fall_speeds@[i]
        })
}

/// Tries to slide the overlay at `(x, y)` one step diagonally down into a
/// cell whose overlay a fluid may replace.
pub fn try_slide_overlay(
    world: &mut World,
    x: usize,
    y: usize,
    overlay_to_move: Overlay,
    left_first: bool,
) -> (moved: bool)
    requires
        world_wf(old(world)),
        x < WIDTH,
        y < HEIGHT,
    ensures
        world_wf(final(world)),
        !moved ==> final(world).tiles@ == old(world).tiles@ && final(world).fall_speeds@ == old(
            world,
        ).fall_speeds@,
        moved ==> exists|nxv: int| #[trigger] spec_overlay_slide(
            old(world),
            final(world),
            x as int,
            y as int,
            nxv,
            overlay_to_move,
        ),
{
    let below: usize = y + 1;
    if below >= HEIGHT {
        return false;
    }
    let first_dx: i64 = if left_first {
        -1
    } else {
        1
    };
    let mut pass: usize = 0;
    while pass < 2
        invariant
            world_wf(world),
            world.tiles@ == old(world).tiles@,
            world.fall_speeds@ == old(world).fall_speeds@,
            x < WIDTH,
            y < HEIGHT,
            below == y + 1 < HEIGHT,
            first_dx == 1 || first_dx == -1i64,
        decreases 2 - pass,
    {
        let dx: i64 = if pass == 0 {
            first_dx
        } else {
            -first_dx
        };
        let nx_ok: bool = if dx < 0 {
            x >= 1
        } else {
            x + 1 < WIDTH
        };
        if nx_ok {
            let nx: usize = if dx < 0 {
                x - 1
            } else {
                x + 1
            };
            let replaceable: bool = match world.get(nx, below) {
                Some(t) => t.overlay.is_replaceable_by_fluid(),
                None => false,
            };
            if replaceable {
                let ghost w0 = *world;
                world.set_overlay(x, y, Overlay::Air);
                let ghost w1 = *world;
                world.set_overlay(nx, below, overlay_to_move);
                let ghost w2 = *world;
                world.set_fall_speed(nx, below, 0);
                world.set_fall_speed(x, y, 0);
                proof {
                    assert forall|xx: int, yy: int|
                        0 <= xx < WIDTH && 0 <= yy < HEIGHT implies #[trigger] spec_get(
                        world,
                        xx,
                        yy,
                    ) == (if xx == x && yy == y {
                        match spec_get(old(world), xx, yy) {
                            Some(t) => Some(
                                (Tile { terrain: t.terrain, overlay: Overlay::Air }),
                            ),
                            None => None,
                        }
                    } else if xx == nx && yy == y + 1 {
                        match spec_get(old(world), xx, yy) {
                            Some(t) => Some(
                                (Tile { terrain: t.terrain, overlay: overlay_to_move }),
                            ),
                            None => None,
                        }
                    } else {
                        spec_get(old(world), xx, yy)
                    }) by {
                        assert(spec_get(world, xx, yy) == spec_get(&w2, xx, yy));
                        assert(spec_get(&w1, xx, yy) == (if xx == x && yy == y {
                            match spec_get(&w0, xx, yy) {
                                Some(t) => Some(
                                    (Tile { terrain: t.terrain, overlay: Overlay::Air }),
                                ),
                                None => None,
                            }
                        } else {
                            spec_get(&w0, xx, yy)
                        }));
                        assert(spec_get(&w2, xx, yy) == (if xx == nx && yy == y + 1 {
                            match spec_get(&w1, xx, yy) {
                                Some(t) => Some(
                                    (Tile { terrain: t.terrain, overlay: overlay_to_move }),
                                ),
                                None => None,
                            }
                        } else {
                            spec_get(&w1, xx, yy)
                        }));
                    }
                    assert(spec_overlay_slide(
                        old(world),
                        world,
                        x as int,
                        y as int,
                        nx as int,
                        overlay_to_move,
                    ));
                }
                return true;
            }
        }
        pass = pass + 1;
    }
    false
}

/// How far a falling terrain tile at `(x, y)` can drop this update: the
/// longest run of empty terrain below it, at most `limit` rows.
fn terrain_fall_distance(world: &World, x: usize, y: usize, limit: usize) -> (r: usize)
    requires
        world_wf(world),
        x < WIDTH,
        y < HEIGHT,
        limit <= 6,
    ensures
        r <= limit,
{
    let mut dist: usize = 0;
    let mut dy: usize = 1;
    while dy <= limit
        invariant
            world_wf(world),
            x < WIDTH,
            y < HEIGHT,
            dist <= limit,
            dy <= limit + 1,
            dist < dy,
            limit <= 6,
        decreases limit + 1 - dy,
    {
        if y + dy >= HEIGHT {
            return dist;
        }
        let empty: bool = match world.get(x, y + dy) {
            Some(t) => t.terrain == Terrain::Empty,
            None => false,
        };
        if empty {
            dist = dy;
        } else {
            return dist;
        }
        dy = dy + 1;
    }
    dist
}

/// How far a fluid overlay can sink: the longest run of cells whose overlay
/// is replaceable and whose terrain lets fluid through.
fn overlay_fall_distance(world: &World, x: usize, y: usize, limit: usize) -> (r: usize)
    requires
        world_wf(world),
        x < WIDTH,
        y < HEIGHT,
        limit <= 6,
    ensures
        r <= limit,
{
    let mut dist: usize = 0;
    let mut dy: usize = 1;
    while dy <= limit
        invariant
            world_wf(world),
            x < WIDTH,
            y < HEIGHT,
            dist <= limit,
            dy <= limit + 1,
            dist < dy,
            limit <= 6,
        decreases limit + 1 - dy,
    {
        if y + dy >= HEIGHT {
            return dist;
        }
        let passable: bool = match world.get(x, y + dy) {
            Some(t) => t.overlay.is_replaceable_by_fluid() && t.terrain.allows_fluid_passthrough(),
            None => false,
        };
        if passable {
            dist = dy;
        } else {
            return dist;
        }
        dy = dy + 1;
    }
    dist
}

/// One tile-physics update over the given coordinates, in their given
/// order (the caller may shuffle them to randomize the update order):
/// stranded grass drops one row; dirt and sand fall with accumulating
/// speed or slide; fluid overlays sink through permeable ground or slide.
/// Random slide directions are drawn from the owned source.
pub fn update_game_state(world: &mut World, coords: &Vec<(usize, usize)>, rng: &mut StdRng)
    requires
        world_wf(old(world)),
    ensures
        world_wf(final(world)),
{
    let mut c: usize = 0;
    while c < coords.len()
        invariant
            world_wf(world),
        decreases coords@.len() - c,
    {
        let (x, y): (usize, usize) = coords[c];
        c = c + 1;
        if x >= WIDTH || y >= HEIGHT {
            continue ;
        }
        let tile: Tile = match world.get(x, y) {
            Some(t) => *t,
            None => {
                continue ;
            },
        };
        // Stranded grass falls one row into fully empty space.
        if tile.overlay == Overlay::Grass && y + 1 < HEIGHT {
            let below_free: bool = match world.get(x, y + 1) {
                Some(t) => t.terrain == Terrain::Empty && t.overlay == Overlay::Air,
                None => false,
            };
            if below_free {
                world.set_overlay(x, y, Overlay::Air);
                world.set_overlay(x, y + 1, Overlay::Grass);
                continue ;
            }
        }
        // Loose terrain: the whole tile falls or slides.
        if tile.terrain == Terrain::Dirt || tile.terrain == Terrain::Sand {
            if y + 1 >= HEIGHT {
                continue ;
            }
            let below_empty: bool = match world.get(x, y + 1) {
                Some(t) => t.terrain == Terrain::Empty,
                None => false,
            };
            if below_empty {
                let mut speed: u8 = world.get_fall_speed(x, y);
                speed = if speed >= MAX_FALL_SPEED - TILE_GRAVITY {
                    MAX_FALL_SPEED
                } else {
                    speed + TILE_GRAVITY
                };
                let dist: usize = terrain_fall_distance(world, x, y, speed as usize);
                if dist > 0 && y + dist < HEIGHT {
                    world.swap_terrain(x, y, x, y + dist);
                    world.set_fall_speed(x, y + dist, speed);
                    world.set_fall_speed(x, y, 0);
                }
            } else {
                world.set_fall_speed(x, y, 0);
                if tile.terrain.should_attempt_slide(world, x, y) {
                    let left_first: bool = next_word(rng) % 2 == 0;
                    let _ = try_slide_terrain(world, x, y, left_first);
                }
            }
            continue ;
        }
        // Fluid overlays sink through permeable ground or slide sideways.
        if tile.overlay.can_flow() {
            if y + 1 < HEIGHT {
                let mut speed: u8 = world.get_fall_speed(x, y);
                speed = if speed >= MAX_FALL_SPEED - TILE_GRAVITY {
                    MAX_FALL_SPEED
                } else {
                    speed + TILE_GRAVITY
                };
                let dist: usize = overlay_fall_distance(world, x, y, speed as usize);
                if dist > 0 && y + dist < HEIGHT {
                    world.set_overlay(x, y, Overlay::Air);
                    world.set_overlay(x, y + dist, tile.overlay);
                    world.set_fall_speed(x, y + dist, speed);
                    world.set_fall_speed(x, y, 0);
                    continue ;
                }
            }
            world.set_fall_speed(x, y, 0);
            if tile.overlay.should_attempt_slide(world, x, y) {
                let left_first: bool = next_word(rng) % 2 == 0;
                let _ = try_slide_overlay(world, x, y, tile.overlay, left_first);
            }
        }
    }
}

} // verus!
