//! The tile world: materials, the grid, stacking and colors.

use dotworld::color::{blend_colors, hsl_to_rgb};
use dotworld::rng::rng_from_seed;
use dotworld::tile_engine::update_game_state;
use dotworld::terrain::{Overlay, Terrain};
use dotworld::world::{Tile, World, HEIGHT, WIDTH};
use palette::{FromColor, Hsl, RgbHue, Srgb};

#[test]
fn terrain_solidity_and_colors() {
    assert!(!Terrain::Empty.is_solid());
    assert!(Terrain::Dirt.is_solid());
    assert!(Terrain::Gold.is_solid());
    assert_eq!(Terrain::Dirt.color(), [101, 67, 33, 255]);
    assert_eq!(Terrain::Empty.color(), [20, 20, 30, 255]);
    assert_eq!(Overlay::Water.color(), [64, 164, 223, 180]);
}

#[test]
fn overlay_flow_rules() {
    assert!(Overlay::Water.can_flow());
    assert!(Overlay::Lava.can_flow());
    assert!(Overlay::Snow.can_flow());
    assert!(!Overlay::Grass.can_flow());
    assert!(Overlay::Air.is_replaceable_by_fluid());
    assert!(Overlay::Snow.is_replaceable_by_fluid());
    assert!(!Overlay::Water.is_replaceable_by_fluid());
    assert!(Overlay::Grass.is_solid());
    assert!(!Overlay::Air.is_solid());
}

#[test]
fn fluid_passthrough_rules() {
    assert!(Terrain::Dirt.allows_fluid_passthrough());
    assert!(Terrain::Sand.allows_fluid_passthrough());
    assert!(Terrain::Empty.allows_fluid_passthrough());
    assert!(!Terrain::Rock.allows_fluid_passthrough());
    assert!(!Terrain::Obsidian.allows_fluid_passthrough());
}

#[test]
fn world_starts_empty_and_sets_tiles() {
    let mut w = World::new();
    let t = w.get(3, 4).copied().unwrap();
    assert_eq!(t, Tile::empty());
    w.set_terrain(3, 4, Terrain::Rock);
    assert_eq!(w.get(3, 4).unwrap().terrain, Terrain::Rock);
    w.set_overlay(3, 4, Overlay::Water);
    assert_eq!(w.get(3, 4).unwrap().overlay, Overlay::Water);
    assert_eq!(*w.get_overlay(3, 4).unwrap(), Overlay::Water);
    // Out-of-range coordinates read as missing and write as no-ops.
    assert!(w.get(WIDTH, 0).is_none());
    w.set_terrain(WIDTH, 0, Terrain::Gold);
    assert!(w.get(WIDTH, HEIGHT).is_none());
}

#[test]
fn world_swaps_whole_tiles() {
    let mut w = World::new();
    w.set_terrain(1, 1, Terrain::Sand);
    w.set_overlay(1, 1, Overlay::Snow);
    w.set_terrain(5, 9, Terrain::Rock);
    w.swap_terrain(1, 1, 5, 9);
    let a = w.get(1, 1).unwrap();
    assert_eq!(a.terrain, Terrain::Rock);
    assert_eq!(a.overlay, Overlay::Air);
    let b = w.get(5, 9).unwrap();
    assert_eq!(b.terrain, Terrain::Sand);
    assert_eq!(b.overlay, Overlay::Snow);
}

#[test]
fn stack_height_counts_contiguous_dirt() {
    let mut w = World::new();
    for dy in 1..=3usize {
        w.set_terrain(10, 20 - dy, Terrain::Dirt);
    }
    assert_eq!(w.count_stack_height(10, 20), 3);
    // A gap stops the count.
    w.set_terrain(10, 18, Terrain::Rock);
    assert_eq!(w.count_stack_height(10, 20), 1);
    // The count looks at most four tiles up.
    for dy in 1..=6usize {
        w.set_terrain(11, 20 - dy, Terrain::Dirt);
    }
    assert_eq!(w.count_stack_height(11, 20), 4);
    assert_eq!(w.count_stack_height(0, 0), 0);
}

#[test]
fn slide_rules() {
    let mut w = World::new();
    assert!(Terrain::Sand.should_attempt_slide(&w, 4, 4));
    assert!(!Terrain::Rock.should_attempt_slide(&w, 4, 4));
    assert!(!Terrain::Dirt.should_attempt_slide(&w, 4, 4));
    w.set_terrain(4, 3, Terrain::Dirt);
    assert!(Terrain::Dirt.should_attempt_slide(&w, 4, 4));
    assert!(Overlay::Water.should_attempt_slide(&w, 0, 0));
    assert!(!Overlay::Grass.should_attempt_slide(&w, 0, 0));
}

#[test]
fn blend_colors_edges_and_middle() {
    let bottom = [100u8, 100, 100, 255];
    let top = [200u8, 0, 0, 0];
    assert_eq!(blend_colors(bottom, top), bottom);
    let opaque = [200u8, 10, 20, 255];
    assert_eq!(blend_colors(bottom, opaque), opaque);
    // ta = 128: d = 128*255 + 255*127 = 65025; red channel
    // (200*128*255 + 100*255*127)/65025 = 150 (truncated).
    let half = [200u8, 0, 0, 128];
    let out = blend_colors(bottom, half);
    assert_eq!(out[0], 150);
    assert_eq!(out[3], 255);
}

#[test]
fn hsl_primaries_map_to_rgb() {
    assert_eq!(hsl_to_rgb(0, 1_000_000, 500_000), (255, 0, 0));
    let g = hsl_to_rgb(333_333, 1_000_000, 500_000);
    assert!(g.0 <= 2 && g.1 == 255 && g.2 == 0, "{g:?}");
    let b = hsl_to_rgb(666_667, 1_000_000, 500_000);
    assert!(b.0 == 0 && b.1 <= 2 && b.2 == 255, "{b:?}");
    assert_eq!(hsl_to_rgb(0, 0, 0), (0, 0, 0));
    assert_eq!(hsl_to_rgb(0, 0, 1_000_000), (255, 255, 255));
}

#[test]
fn hsl_tracks_the_reference_conversion() {
    // The fixed-point conversion stays within rounding distance of
    // palette's floating-point one.
    for (h, s, l) in [
        (0i64, 800_000i64, 600_000i64),
        (123_000, 500_000, 500_000),
        (450_000, 1_000_000, 300_000),
        (700_000, 250_000, 750_000),
        (999_999, 900_000, 400_000),
    ] {
        let (r, g, b) = hsl_to_rgb(h, s, l);
        let hsl = Hsl::new(
            RgbHue::from_degrees(h as f32 * 360.0 / 1_000_000.0),
            s as f32 / 1_000_000.0,
            l as f32 / 1_000_000.0,
        );
        let rgb: Srgb<u8> = Srgb::from_color(hsl).into_format();
        assert!((r as i32 - rgb.red as i32).abs() <= 2, "h={h} red {r} vs {}", rgb.red);
        assert!((g as i32 - rgb.green as i32).abs() <= 2, "h={h} green {g} vs {}", rgb.green);
        assert!((b as i32 - rgb.blue as i32).abs() <= 2, "h={h} blue {b} vs {}", rgb.blue);
    }
}

#[test]
fn sand_falls_with_growing_speed() {
    let mut w = World::new();
    w.set_terrain(10, 10, Terrain::Sand);
    let mut rng = rng_from_seed(1);
    update_game_state(&mut w, &vec![(10, 10)], &mut rng);
    assert_eq!(w.get(10, 10).unwrap().terrain, Terrain::Empty);
    assert_eq!(w.get(10, 11).unwrap().terrain, Terrain::Sand);
    // The next update falls two rows: the fall speed accumulated.
    update_game_state(&mut w, &vec![(10, 11)], &mut rng);
    assert_eq!(w.get(10, 11).unwrap().terrain, Terrain::Empty);
    assert_eq!(w.get(10, 13).unwrap().terrain, Terrain::Sand);
}

#[test]
fn sand_on_rock_slides_into_a_free_diagonal() {
    let mut w = World::new();
    w.set_terrain(10, 11, Terrain::Rock);
    w.set_terrain(10, 10, Terrain::Sand);
    let mut rng = rng_from_seed(7);
    update_game_state(&mut w, &vec![(10, 10)], &mut rng);
    let left = w.get(9, 11).unwrap().terrain == Terrain::Sand;
    let right = w.get(11, 11).unwrap().terrain == Terrain::Sand;
    assert!(left ^ right, "sand must slide to exactly one diagonal");
    assert_eq!(w.get(10, 10).unwrap().terrain, Terrain::Empty);
}

#[test]
fn water_sinks_through_permeable_ground() {
    let mut w = World::new();
    w.set_terrain(10, 11, Terrain::Sand);
    w.set_overlay(10, 10, Overlay::Water);
    let mut rng = rng_from_seed(3);
    update_game_state(&mut w, &vec![(10, 10)], &mut rng);
    assert_eq!(w.get(10, 10).unwrap().overlay, Overlay::Air);
    assert_eq!(w.get(10, 11).unwrap().overlay, Overlay::Water);
    assert_eq!(w.get(10, 11).unwrap().terrain, Terrain::Sand);
}

#[test]
fn water_on_rock_stays_or_slides_but_never_vanishes() {
    let mut w = World::new();
    for x in 8..=12usize {
        w.set_terrain(x, 11, Terrain::Rock);
        w.set_overlay(x, 11, Overlay::Stone);
    }
    w.set_overlay(10, 10, Overlay::Water);
    let mut rng = rng_from_seed(3);
    update_game_state(&mut w, &vec![(10, 10)], &mut rng);
    let mut count = 0;
    for x in 0..WIDTH {
        for y in 0..12 {
            if w.get(x, y).unwrap().overlay == Overlay::Water {
                count += 1;
            }
        }
    }
    assert_eq!(count, 1);
}

#[test]
fn stranded_grass_drops_one_row() {
    let mut w = World::new();
    w.set_overlay(10, 10, Overlay::Grass);
    let mut rng = rng_from_seed(3);
    update_game_state(&mut w, &vec![(10, 10)], &mut rng);
    assert_eq!(w.get(10, 10).unwrap().overlay, Overlay::Air);
    assert_eq!(w.get(10, 11).unwrap().overlay, Overlay::Grass);
}

#[test]
fn grass_grows_only_on_dirt_under_open_air() {
    let mut w = World::new();
    for x in 0..WIDTH {
        w.set_terrain(x, 100, Terrain::Dirt);
    }
    let mut rng = rng_from_seed(9);
    for _ in 0..5 {
        w.grow_grass(&mut rng);
    }
    let mut grew = 0;
    for x in 0..WIDTH {
        for y in 95..105 {
            let t = w.get(x, y).unwrap();
            if t.overlay == Overlay::Grass {
                // Grass only ever appears in the open row directly above
                // the dirt band.
                assert_eq!(y, 99);
                grew += 1;
            }
            if y == 100 {
                assert_eq!(t.terrain, Terrain::Dirt);
            }
        }
    }
    assert!(grew > 0, "no grass sprouted over a whole dirt row");
}
