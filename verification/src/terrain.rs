//! The tile world's materials: base terrain and the overlay that sits on it.

use vstd::prelude::*;

verus! {

use crate::world::{World, world_wf, spec_stack_height};

/// The ground material of a tile.
#[derive(Clone, Copy, PartialEq, Eq, Debug, Structural)]
pub enum Terrain {
    Empty,
    Dirt,
    Rock,
    Sand,
    HardIce,
    Coal,
    Copper,
    Iron,
    Gold,
    Obsidian,
}

/// RGBA drawing color of a terrain.
pub open spec fn spec_terrain_color(t: Terrain) -> (int, int, int, int) {
    match t {
        Terrain::Empty => (20, 20, 30, 255),
        Terrain::Dirt => (101, 67, 33, 255),
        Terrain::Rock => (100, 100, 100, 255),
        Terrain::Sand => (194, 178, 128, 255),
        Terrain::HardIce => (180, 200, 255, 255),
        Terrain::Coal => (30, 30, 30, 255),
        Terrain::Copper => (184, 115, 51, 255),
        Terrain::Iron => (180, 180, 200, 255),
        Terrain::Gold => (255, 215, 0, 255),
        Terrain::Obsidian => (40, 20, 50, 255),
    }
}

impl Terrain {
    pub fn color(&self) -> (r: [u8; 4])
        ensures
            (r[0] as int, r[1] as int, r[2] as int, r[3] as int) == spec_terrain_color(*self),
    {
        match self {
            Terrain::Empty => [20, 20, 30, 255],
            Terrain::Dirt => [101, 67, 33, 255],
            Terrain::Rock => [100, 100, 100, 255],
            Terrain::Sand => [194, 178, 128, 255],
            Terrain::HardIce => [180, 200, 255, 255],
            Terrain::Coal => [30, 30, 30, 255],
            Terrain::Copper => [184, 115, 51, 255],
            Terrain::Iron => [180, 180, 200, 255],
            Terrain::Gold => [255, 215, 0, 255],
            Terrain::Obsidian => [40, 20, 50, 255],
        }
    }

    /// Every terrain but bare emptiness blocks movement.
    pub fn is_solid(&self) -> (r: bool)
        ensures
            r == (*self != Terrain::Empty),
    {
        !matches!(self, Terrain::Empty)
    }

    /// Whether this terrain should try to slide sideways at `(x, y)`: sand
    /// always does, dirt only under the pressure of a stack above it.
    pub fn should_attempt_slide(&self, world: &World, x: usize, y: usize) -> (r: bool)
        requires
            world_wf(world),
        ensures
            r == (*self == Terrain::Sand || (*self == Terrain::Dirt && spec_stack_height(
                world,
                x as int,
                y as int,
            ) >= 1)),
    {
        match self {
            Terrain::Sand => true,
            Terrain::Dirt => world.count_stack_height(x, y) >= 1,
            _ => false,
        }
    }

    /// Whether a fluid overlay may sink through this terrain.
    pub fn allows_fluid_passthrough(&self) -> (r: bool)
        ensures
            r == (*self == Terrain::Dirt || *self == Terrain::Sand || *self == Terrain::Empty),
    {
        match self {
            Terrain::Rock | Terrain::HardIce | Terrain::Obsidian => false,
            Terrain::Dirt | Terrain::Sand | Terrain::Empty => true,
            _ => false,
        }
    }
}

/// What sits on top of a tile's terrain.
#[derive(Clone, Copy, PartialEq, Eq, Debug, Structural)]
pub enum Overlay {
    Nothing,
    Grass,
    Tree,
    Stone,
    Ice,
    Water,
    Lava,
    Snow,
    Air,
    FlammableGas,
}

/// RGBA drawing color of an overlay.
pub open spec fn spec_overlay_color(o: Overlay) -> (int, int, int, int) {
    match o {
        Overlay::Nothing => (0, 0, 0, 0),
        Overlay::Grass => (34, 139, 34, 255),
        Overlay::Tree => (50, 30, 10, 255),
        Overlay::Stone => (120, 120, 120, 255),
        Overlay::Ice => (180, 220, 255, 255),
        Overlay::Water => (64, 164, 223, 180),
        Overlay::Lava => (255, 69, 0, 200),
        Overlay::Snow => (255, 255, 255, 200),
        Overlay::Air => (0, 0, 0, 0),
        Overlay::FlammableGas => (255, 255, 100, 100),
    }
}

impl Overlay {
    pub fn color(&self) -> (r: [u8; 4])
        ensures
            (r[0] as int, r[1] as int, r[2] as int, r[3] as int) == spec_overlay_color(*self),
    {
        match self {
            Overlay::Nothing => [0, 0, 0, 0],
            Overlay::Grass => [34, 139, 34, 255],
            Overlay::Tree => [50, 30, 10, 255],
            Overlay::Stone => [120, 120, 120, 255],
            Overlay::Ice => [180, 220, 255, 255],
            Overlay::Water => [64, 164, 223, 180],
            Overlay::Lava => [255, 69, 0, 200],
            Overlay::Snow => [255, 255, 255, 200],
            Overlay::Air => [0, 0, 0, 0],
            Overlay::FlammableGas => [255, 255, 100, 100],
        }
    }

    pub fn is_solid(&self) -> (r: bool)
        ensures
            r == (*self == Overlay::Grass || *self == Overlay::Stone || *self == Overlay::Ice),
    {
        matches!(self, Overlay::Grass | Overlay::Stone | Overlay::Ice)
    }

    /// Whether this overlay behaves like a fluid (falls and slides).
    pub fn can_flow(&self) -> (r: bool)
        ensures
            r == (*self == Overlay::Water || *self == Overlay::Lava || *self == Overlay::Snow),
    {
        matches!(self, Overlay::Water | Overlay::Lava | Overlay::Snow)
    }

    /// Whether another fluid may take this overlay's place.
    pub fn is_replaceable_by_fluid(&self) -> (r: bool)
        ensures
            r == (*self == Overlay::Air || *self == Overlay::Nothing || *self == Overlay::Snow),
    {
        matches!(self, Overlay::Air | Overlay::Nothing | Overlay::Snow)
    }

    /// Whether this overlay should try to slide sideways: exactly the fluids.
    pub fn should_attempt_slide(&self, _world: &World, _x: usize, _y: usize) -> (r: bool)
        ensures
            r == (*self == Overlay::Water || *self == Overlay::Lava || *self == Overlay::Snow),
    {
        matches!(self, Overlay::Water | Overlay::Lava | Overlay::Snow)
    }
}

} // verus!
