use dagr_game::error::GenerationError;
use dagr_game::random::RandomSource;
use dagr_game::tile::{Color, Tile};
use dagr_game::wilderness_generator::wilderness_area::WildernessArea;
use dagr_game::wilderness_generator::wilderness_tile::{WildernessTile, WildernessTileType};
use dagr_game::wilderness_generator::{
    generate_wilderness, is_near_edge, terrain_for_roll, NeighborCounts, WildernessGenerator,
};
use rand::rngs::StdRng;
use rand::{Rng, SeedableRng};

use WildernessTileType::{Dirt, Grass, Rock, Tree, Water};

fn types(area: &WildernessArea) -> Vec<Vec<WildernessTileType>> {
    area.tiles.iter().map(|row| row.iter().map(|t| t.tile_type).collect()).collect()
}

fn grid(rows: &[&str]) -> Vec<Vec<WildernessTile>> {
    rows.iter()
        .map(|row| {
            row.chars()
                .map(|c| {
                    WildernessTile::new(match c {
                        '.' => Grass,
                        'T' => Tree,
                        '~' => Water,
                        'o' => Rock,
                        ',' => Dirt,
                        other => panic!("no terrain is drawn as {}", other),
                    })
                })
                .collect()
        })
        .collect()
}

fn drawn(tiles: &Vec<Vec<WildernessTile>>) -> Vec<String> {
    tiles.iter().map(|row| row.iter().map(|t| t.tile.symbol).collect()).collect()
}

/// The region as rolls in [0, 1) and limits in fractions give it.
fn by_fractions(seed: u64, w: i32, h: i32) -> Vec<Vec<WildernessTileType>> {
    let mut rng = StdRng::seed_from_u64(seed);
    let mut raw = Vec::new();
    for y in 0..h {
        let mut row = Vec::new();
        for x in 0..w {
            let roll: f32 = rng.random();
            let edge_dist = x.min(y).min(w - x - 1).min(h - y - 1);
            let bias: f32 = if edge_dist < 3 { 0.2 } else { 0.0 };
            row.push(if roll < 0.15 + bias {
                Tree
            } else if roll < 0.25 {
                Water
            } else if roll < 0.35 + bias {
                Rock
            } else if roll < 0.45 {
                Dirt
            } else {
                Grass
            });
        }
        raw.push(row);
    }
    let mut smooth = raw.clone();
    for y in 0..h {
        for x in 0..w {
            for t in [Grass, Tree, Water, Rock, Dirt] {
                let mut n = 0;
                for dy in -1..=1 {
                    for dx in -1..=1 {
                        let (nx, ny) = (x + dx, y + dy);
                        if (dx, dy) != (0, 0) && nx >= 0 && nx < w && ny >= 0 && ny < h
                            && raw[ny as usize][nx as usize] == t
                        {
                            n += 1;
                        }
                    }
                }
                if n >= 5 {
                    smooth[y as usize][x as usize] = t;
                }
            }
        }
    }
    smooth
}

#[test]
fn ten_by_ten_wilderness_has_its_bounds() {
    let area = generate_wilderness(1, 10, 10).unwrap();
    assert_eq!((area.width, area.height), (10, 10));
    assert_eq!(area.tiles.len(), 10);
    assert!(area.tiles.iter().all(|row| row.len() == 10));
    for y in 0..10 {
        for x in 0..10 {
            assert!(area.contains(x, y));
        }
    }
    assert!(!area.contains(10, 0));
    assert!(!area.contains(-1, 5));
}

#[test]
fn every_cell_has_a_terrain_and_its_tile() {
    for (w, h) in [(1, 1), (1, 7), (7, 1), (2, 2), (13, 9), (40, 25)] {
        let area = generate_wilderness(11, w, h).unwrap();
        assert_eq!(area.tiles.len(), h as usize);
        for y in 0..h {
            assert_eq!(area.tiles[y as usize].len(), w as usize);
            for x in 0..w {
                let cell = area.get(x, y).expect("a cell of the grid has a tile");
                assert_eq!(*cell, WildernessTile::new(cell.tile_type));
            }
        }
        assert_eq!(area.get(w, 0), None);
        assert_eq!(area.get(0, h), None);
        assert_eq!(area.get(-1, 0), None);
        assert_eq!(area.get(0, -1), None);
    }
}

#[test]
fn the_same_seed_gives_the_same_wilderness() {
    let a = generate_wilderness(5, 30, 20).unwrap();
    let b = generate_wilderness(5, 30, 20).unwrap();
    let c = WildernessGenerator::new(5).generate(30, 20).unwrap();
    let d = generate_wilderness(6, 30, 20).unwrap();
    assert_eq!(a.tiles, b.tiles);
    assert_eq!(a.tiles, c.tiles);
    assert_ne!(a.tiles, d.tiles);
}

#[test]
fn wilderness_is_what_rolls_in_fractions_give() {
    for seed in 0..25u64 {
        let area = generate_wilderness(seed, 24, 17).unwrap();
        assert_eq!(types(&area), by_fractions(seed, 24, 17));
    }
    let small = generate_wilderness(3, 5, 4).unwrap();
    assert_eq!(types(&small), by_fractions(3, 5, 4));
}

#[test]
fn rolled_tiles_follow_the_stream() {
    let generator = WildernessGenerator::new(9);
    let mut rng = RandomSource::new(9);
    let mut reference = StdRng::seed_from_u64(9);
    for i in 0..200 {
        let (x, y) = (i % 20, i / 20);
        let roll: f32 = reference.random();
        let bias: f32 = if is_near_edge(x, y, 20, 10) { 0.2 } else { 0.0 };
        let expected = if roll < 0.15 + bias {
            Tree
        } else if roll < 0.25 {
            Water
        } else if roll < 0.35 + bias {
            Rock
        } else if roll < 0.45 {
            Dirt
        } else {
            Grass
        };
        assert_eq!(generator.generate_tile(&mut rng, x, y, 20, 10), expected);
    }
}

#[test]
fn limits_of_the_bands_away_from_the_border() {
    assert_eq!(terrain_for_roll(0, false), Tree);
    assert_eq!(terrain_for_roll(2_516_582, false), Tree);
    assert_eq!(terrain_for_roll(2_516_583, false), Water);
    assert_eq!(terrain_for_roll(4_194_303, false), Water);
    assert_eq!(terrain_for_roll(4_194_304, false), Rock);
    assert_eq!(terrain_for_roll(5_872_025, false), Rock);
    assert_eq!(terrain_for_roll(5_872_026, false), Dirt);
    assert_eq!(terrain_for_roll(7_549_746, false), Dirt);
    assert_eq!(terrain_for_roll(7_549_747, false), Grass);
    assert_eq!(terrain_for_roll(16_777_215, false), Grass);
}

#[test]
fn limits_of_the_bands_near_the_border() {
    assert_eq!(terrain_for_roll(0, true), Tree);
    assert_eq!(terrain_for_roll(5_872_025, true), Tree);
    assert_eq!(terrain_for_roll(5_872_026, true), Rock);
    assert_eq!(terrain_for_roll(9_227_468, true), Rock);
    assert_eq!(terrain_for_roll(9_227_469, true), Grass);
    assert_eq!(terrain_for_roll(16_777_215, true), Grass);
}

#[test]
fn limits_are_the_fractions_in_single_precision() {
    let scale = 16_777_216.0f32;
    for roll in [
        0u32, 2_516_582, 2_516_583, 4_194_303, 4_194_304, 5_872_025, 5_872_026, 7_549_746,
        7_549_747, 9_227_468, 9_227_469, 16_777_215,
    ] {
        let fraction = roll as f32 / scale;
        for near in [false, true] {
            let bias: f32 = if near { 0.2 } else { 0.0 };
            let expected = if fraction < 0.15 + bias {
                Tree
            } else if fraction < 0.25 {
                Water
            } else if fraction < 0.35 + bias {
                Rock
            } else if fraction < 0.45 {
                Dirt
            } else {
                Grass
            };
            assert_eq!(terrain_for_roll(roll, near), expected);
        }
    }
}

#[test]
fn near_the_border_means_within_three_cells() {
    assert!(is_near_edge(0, 0, 10, 10));
    assert!(is_near_edge(2, 5, 10, 10));
    assert!(is_near_edge(5, 2, 10, 10));
    assert!(is_near_edge(7, 5, 10, 10));
    assert!(is_near_edge(5, 7, 10, 10));
    assert!(!is_near_edge(3, 3, 10, 10));
    assert!(!is_near_edge(6, 6, 10, 10));
    assert!(!is_near_edge(3, 6, 10, 10));
    assert!(is_near_edge(3, 3, 6, 10));
    assert!(is_near_edge(i32::MAX, i32::MIN, i32::MIN, i32::MAX));
}

#[test]
fn border_has_no_fewer_trees_and_rock_over_many_seeds() {
    let (mut edge, mut edge_hits, mut inner, mut inner_hits) = (0u64, 0u64, 0u64, 0u64);
    for seed in 0..30u64 {
        let area = generate_wilderness(seed, 30, 30).unwrap();
        for y in 0..30 {
            for x in 0..30 {
                let t = area.get(x, y).unwrap().tile_type;
                let hit = (t == Tree || t == Rock) as u64;
                if is_near_edge(x, y, 30, 30) {
                    edge += 1;
                    edge_hits += hit;
                } else {
                    inner += 1;
                    inner_hits += hit;
                }
            }
        }
    }
    assert!(edge_hits * inner >= inner_hits * edge);
}

#[test]
fn sizes_that_are_not_positive_are_refused() {
    assert_eq!(generate_wilderness(1, 0, 10).err(), Some(GenerationError::InvalidDimensions));
    assert_eq!(generate_wilderness(1, 10, 0).err(), Some(GenerationError::InvalidDimensions));
    assert_eq!(generate_wilderness(1, -1, -1).err(), Some(GenerationError::InvalidDimensions));
    assert_eq!(
        WildernessGenerator::new(1).generate(i32::MIN, 5).err(),
        Some(GenerationError::InvalidDimensions)
    );
}

#[test]
fn neighbours_outside_the_grid_are_not_counted() {
    let generator = WildernessGenerator::new(0);
    let tiles = grid(&["T~o", ",.T", "TTT"]);
    let corner = generator.count_neighbors(&tiles, 0, 0, 3, 3);
    assert_eq!(corner, NeighborCounts { grass: 1, tree: 0, water: 1, rock: 0, dirt: 1 });
    let middle = generator.count_neighbors(&tiles, 1, 1, 3, 3);
    assert_eq!(middle, NeighborCounts { grass: 0, tree: 5, water: 1, rock: 1, dirt: 1 });
    let side = generator.count_neighbors(&tiles, 2, 1, 3, 3);
    assert_eq!(side, NeighborCounts { grass: 1, tree: 2, water: 1, rock: 1, dirt: 0 });
    let alone = generator.count_neighbors(&grid(&["~"]), 0, 0, 1, 1);
    assert_eq!(alone, NeighborCounts { grass: 0, tree: 0, water: 0, rock: 0, dirt: 0 });
}

#[test]
fn five_of_a_kind_prevail_and_four_do_not() {
    let five = NeighborCounts { grass: 3, tree: 0, water: 5, rock: 0, dirt: 0 };
    assert_eq!(five.prevailing(), Some(Water));
    let four = NeighborCounts { grass: 4, tree: 4, water: 0, rock: 0, dirt: 0 };
    assert_eq!(four.prevailing(), None);
    let all = NeighborCounts { grass: 0, tree: 0, water: 0, rock: 0, dirt: 8 };
    assert_eq!(all.prevailing(), Some(Dirt));
}

#[test]
fn smoothing_reads_the_grid_it_was_given() {
    let generator = WildernessGenerator::new(0);
    let tiles = grid(&["T~o", ",.T", "TTT"]);
    let smooth = generator.smooth_tiles(tiles, 3, 3);
    assert_eq!(drawn(&smooth), vec!["T~o", ",TT", "TTT"]);
    let lake = grid(&["~~~~", "~..~", "~~~~"]);
    let smooth = generator.smooth_tiles(lake, 4, 3);
    assert_eq!(drawn(&smooth), vec!["~~~~", "~~~~", "~~~~"]);
    let stripes = grid(&["....", "TTTT", "....", "TTTT"]);
    let smooth = generator.smooth_tiles(stripes, 4, 4);
    assert_eq!(drawn(&smooth), vec!["....", "T..T", ".TT.", "TTTT"]);
}

#[test]
fn wilderness_tiles_have_their_symbols() {
    assert_eq!(WildernessTile::new(Grass).tile, Tile::new('.', Color::Green));
    assert_eq!(WildernessTile::new(Tree).tile, Tile::new('T', Color::DarkGreen));
    assert_eq!(WildernessTile::new(Water).tile, Tile::new('~', Color::Blue));
    assert_eq!(WildernessTile::new(Rock).tile, Tile::new('o', Color::Grey));
    assert_eq!(WildernessTile::new(Dirt).tile, Tile::new(',', Color::Yellow));
    assert_eq!(WildernessTile::new(Rock).tile_type, Rock);
}

#[test]
fn get_answers_for_rows_that_are_missing() {
    let area = WildernessArea { width: 3, height: 3, tiles: grid(&["TT", "T"]) };
    assert_eq!(area.get(1, 0).map(|t| t.tile_type), Some(Tree));
    assert_eq!(area.get(2, 0), None);
    assert_eq!(area.get(1, 1), None);
    assert_eq!(area.get(0, 2), None);
    assert!(area.contains(2, 2));
}
