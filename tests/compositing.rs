use planet_world::autotile::{atlas_index, corner_idx, CornerCells, StructureSprite};
use planet_world::defs::{Biome, Structure, StructureKind, StructureSize};
use planet_world::geom::{Array2d, Coords};
use planet_world::layers::{BiomeRanks, LayeredTexMap};
use planet_world::planet::{Planet, Player, Tile};

fn ranks() -> BiomeRanks {
    BiomeRanks {
        ocean: Some(0),
        mountains: Some(3),
        desert: Some(1),
        grassland: Some(2),
    }
}

fn planet_of(w: u32, h: u32, biome_at: impl Fn(i32, i32) -> Biome) -> Planet {
    let mut planet = Planet {
        tick: 0,
        player: Player::default(),
        map: Array2d::new(w, h, Tile::default()),
    };
    for y in 0..h as i32 {
        for x in 0..w as i32 {
            planet.edit_biome(Coords(x, y), biome_at(x, y));
        }
    }
    planet
}

#[test]
fn corner_table_all_combinations() {
    let expected = [
        ((true, true, true), 0),
        ((true, true, false), 4),
        ((true, false, true), 1),
        ((true, false, false), 1),
        ((false, true, true), 2),
        ((false, true, false), 2),
        ((false, false, true), 3),
        ((false, false, false), 3),
    ];
    for ((a, b, c), idx) in expected {
        let r = corner_idx(a, b, c);
        assert!(r <= 4);
        assert_eq!(r, idx);
    }
}

#[test]
fn atlas_index_values() {
    assert_eq!(atlas_index(0, 0), 6);
    assert_eq!(atlas_index(1, 0), 0);
    assert_eq!(atlas_index(2, 0), 1);
    assert_eq!(atlas_index(3, 0), 7);
    assert_eq!(atlas_index(2, 4), 15);
    assert_eq!(atlas_index(3, 3), 19);
    assert_eq!(atlas_index(0, 2), 10);
}

#[test]
fn uniform_grid_has_one_layer_per_tile() {
    let planet = planet_of(5, 4, |_, _| Biome::Desert);
    let ltm = LayeredTexMap::new(&planet, &ranks());
    assert_eq!(ltm.size(), (5, 4));
    for y in 0..4 {
        for x in 0..5 {
            assert_eq!(ltm.layers(Coords(x, y)), &[Biome::Desert][..]);
        }
    }
}

#[test]
fn straight_border_layers() {
    // Ocean on columns 0..3, grassland from column 3; ocean is drawn under grassland.
    let planet = planet_of(6, 4, |x, _| if x < 3 { Biome::Ocean } else { Biome::Grassland });
    let ltm = LayeredTexMap::new(&planet, &ranks());
    for y in 0..4 {
        for x in 0..6 {
            let layers = ltm.layers(Coords(x, y));
            if x == 3 {
                assert_eq!(layers, &[Biome::Grassland, Biome::Ocean][..]);
            } else if x < 3 {
                assert_eq!(layers, &[Biome::Ocean][..]);
            } else {
                assert_eq!(layers, &[Biome::Grassland][..]);
            }
        }
    }
}

#[test]
fn horizontal_border_layers() {
    let planet = planet_of(3, 5, |_, y| if y < 2 { Biome::Desert } else { Biome::Mountains });
    let ltm = LayeredTexMap::new(&planet, &ranks());
    for y in 0..5 {
        for x in 0..3 {
            let n = ltm.layers(Coords(x, y)).len();
            assert_eq!(n, if y == 2 { 2 } else { 1 });
        }
    }
}

#[test]
fn layers_collect_each_lower_neighbour_once() {
    // A mountain in the middle, surrounded by ocean, desert and grassland.
    let planet = planet_of(3, 3, |x, y| match (x, y) {
        (1, 1) => Biome::Mountains,
        (0, _) => Biome::Ocean,
        (1, _) => Biome::Desert,
        _ => Biome::Grassland,
    });
    let ltm = LayeredTexMap::new(&planet, &ranks());
    let layers = ltm.layers(Coords(1, 1));
    assert_eq!(layers.len(), 4);
    assert_eq!(layers[0], Biome::Mountains);
    for b in [Biome::Ocean, Biome::Desert, Biome::Grassland] {
        assert_eq!(layers.iter().filter(|l| **l == b).count(), 1);
    }
    // The ocean tiles have nothing lower around them.
    assert_eq!(ltm.layers(Coords(0, 0)), &[Biome::Ocean][..]);
}

#[test]
fn unloaded_biome_has_no_layers() {
    let planet = planet_of(2, 2, |_, _| Biome::Mountains);
    let r = BiomeRanks {
        ocean: Some(0),
        mountains: None,
        desert: Some(1),
        grassland: Some(2),
    };
    let ltm = LayeredTexMap::new(&planet, &r);
    assert!(ltm.layers(Coords(1, 1)).is_empty());
}

#[test]
fn probes_off_the_map() {
    let planet = planet_of(2, 2, |_, _| Biome::Ocean);
    let ltm = LayeredTexMap::new(&planet, &ranks());
    assert!(ltm.matches_layer(Coords(-1, 0), Biome::Desert));
    assert!(ltm.matches_layer(Coords(2, 1), Biome::Ocean));
    assert!(ltm.matches_layer(Coords(0, 0), Biome::Ocean));
    assert!(!ltm.matches_layer(Coords(0, 0), Biome::Desert));
    assert!(!planet.matches_structure(Coords(-1, -1), StructureKind::Empty));
    assert!(!planet.matches_structure(Coords(0, 2), StructureKind::Branch));
    assert!(planet.matches_structure(Coords(0, 0), StructureKind::Empty));
}

#[test]
fn biome_corners_inside_and_at_edge() {
    // Desert island at (1, 1) in ocean.
    let planet = planet_of(3, 3, |x, y| if (x, y) == (1, 1) { Biome::Desert } else { Biome::Ocean });
    let ltm = LayeredTexMap::new(&planet, &ranks());
    // Desert layer of the island: no neighbour holds desert.
    for k in 0..4 {
        assert_eq!(ltm.corner_index(Coords(1, 1), Biome::Desert, k), 3);
    }
    // Ocean layer of the island tile: every neighbour holds ocean.
    for k in 0..4 {
        assert_eq!(ltm.corner_index(Coords(1, 1), Biome::Ocean, k), 0);
    }
    // Ocean at the corner tile: off-map probes match.
    assert_eq!(ltm.corner_index(Coords(0, 0), Biome::Ocean, 0), 0);
    let pieces = ltm.tile_pieces(Coords(1, 1));
    assert_eq!(pieces.len(), 2);
    assert_eq!(pieces[0].0, Biome::Desert);
    assert_eq!(
        pieces[0].1,
        CornerCells {
            lower_left: atlas_index(0, 3),
            upper_left: atlas_index(1, 3),
            upper_right: atlas_index(2, 3),
            lower_right: atlas_index(3, 3),
        }
    );
    assert_eq!(pieces[1].0, Biome::Ocean);
    assert_eq!(pieces[1].1.upper_left, atlas_index(1, 0));
}

#[test]
fn branch_chain_corners() {
    let mut planet = planet_of(4, 4, |_, _| Biome::Ocean);
    for p in [Coords(1, 1), Coords(2, 1), Coords(1, 2)] {
        planet.place(p, StructureSize::Small, Structure::Branch);
    }
    // Corner 2 (upper right) of (1, 1): right and up are branches, diagonal is not.
    assert_eq!(planet.structure_corner_index(Coords(1, 1), StructureKind::Branch, 2), 4);
    // Corner 0 (lower left) of (1, 1): nothing there.
    assert_eq!(planet.structure_corner_index(Coords(1, 1), StructureKind::Branch, 0), 3);
    // Corner 3 (lower right): right is a branch, below is not.
    assert_eq!(planet.structure_corner_index(Coords(1, 1), StructureKind::Branch, 3), 1);
    // Corner 1 (upper left): above is a branch, left is not.
    assert_eq!(planet.structure_corner_index(Coords(1, 1), StructureKind::Branch, 1), 2);
    // At the map edge nothing matches.
    planet.place(Coords(3, 3), StructureSize::Small, Structure::Branch);
    assert_eq!(planet.structure_corner_index(Coords(3, 3), StructureKind::Branch, 2), 3);
    match planet.structure_sprite(Coords(1, 1)) {
        StructureSprite::Pieces(kind, cells) => {
            assert_eq!(kind, StructureKind::Branch);
            assert_eq!(cells.upper_right, atlas_index(2, 4));
            assert_eq!(cells.lower_left, atlas_index(0, 3));
        }
        other => panic!("unexpected sprite {:?}", other),
    }
}

#[test]
fn structure_sprites_by_kind() {
    let planet = Planet::new(4, 4);
    assert_eq!(planet.structure_sprite(Coords(1, 1)), StructureSprite::Whole(StructureKind::Core));
    assert_eq!(planet.structure_sprite(Coords(2, 2)), StructureSprite::Nothing);
    assert_eq!(planet.structure_sprite(Coords(3, 3)), StructureSprite::Nothing);
}
