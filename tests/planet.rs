use planet_world::action::{cursor_action, CursorMode};
use planet_world::defs::{Biome, LandFeature, Structure, StructureKind, StructureSize};
use planet_world::geom::{Array2d, Coords};
use planet_world::info::structure_info;
use planet_world::planet::{Planet, Player, Tile};

fn empty_planet(w: u32, h: u32) -> Planet {
    Planet {
        tick: 0,
        player: Player::default(),
        map: Array2d::new(w, h, Tile::default()),
    }
}

fn non_empty_tiles(planet: &Planet) -> Vec<Coords> {
    let (w, h) = planet.map.size();
    let mut r = Vec::new();
    for y in 0..h as i32 {
        for x in 0..w as i32 {
            if planet.map.at(Coords(x, y)).structure != Structure::Empty {
                r.push(Coords(x, y));
            }
        }
    }
    r
}

#[test]
fn place_middle_on_ten_by_ten() {
    let mut planet = empty_planet(10, 10);
    assert!(planet.placeable(Coords(4, 4), StructureSize::Middle));
    planet.place(Coords(4, 4), StructureSize::Middle, Structure::Core);
    assert!(!planet.placeable(Coords(4, 4), StructureSize::Middle));
    assert_eq!(planet.map.at(Coords(4, 4)).structure, Structure::Core);
    let occ = Structure::Occupied { by: Coords(4, 4) };
    assert_eq!(planet.map.at(Coords(5, 4)).structure, occ);
    assert_eq!(planet.map.at(Coords(5, 5)).structure, occ);
    assert_eq!(planet.map.at(Coords(4, 5)).structure, occ);
}

#[test]
fn place_then_not_placeable_every_size() {
    for size in [StructureSize::Small, StructureSize::Middle] {
        let mut planet = empty_planet(6, 5);
        for y in 0..5 {
            for x in 0..6 {
                let p = Coords(x, y);
                if planet.placeable(p, size) {
                    planet.place(p, size, Structure::Branch);
                    assert!(!planet.placeable(p, size));
                }
            }
        }
    }
}

#[test]
fn middle_placement_marks_exactly_four_tiles() {
    let mut planet = empty_planet(7, 6);
    planet.place(Coords(2, 3), StructureSize::Middle, Structure::MiningModule);
    let tiles = non_empty_tiles(&planet);
    assert_eq!(tiles, vec![Coords(2, 3), Coords(3, 3), Coords(2, 4), Coords(3, 4)]);
    assert_eq!(planet.map.at(Coords(2, 3)).structure, Structure::MiningModule);
    for p in [Coords(3, 3), Coords(3, 4), Coords(2, 4)] {
        assert_eq!(planet.map.at(p).structure, Structure::Occupied { by: Coords(2, 3) });
    }
}

#[test]
fn small_placement_marks_only_anchor() {
    let mut planet = empty_planet(3, 3);
    planet.place(Coords(2, 2), StructureSize::Small, Structure::Branch);
    assert_eq!(non_empty_tiles(&planet), vec![Coords(2, 2)]);
}

#[test]
fn placeable_rejects_out_of_bounds_and_overhang() {
    let planet = empty_planet(4, 4);
    assert!(!planet.placeable(Coords(-1, 0), StructureSize::Small));
    assert!(!planet.placeable(Coords(0, 4), StructureSize::Small));
    assert!(!planet.placeable(Coords(3, 0), StructureSize::Middle));
    assert!(!planet.placeable(Coords(0, 3), StructureSize::Middle));
    assert!(planet.placeable(Coords(2, 2), StructureSize::Middle));
    assert!(planet.placeable(Coords(3, 3), StructureSize::Small));
}

#[test]
fn placeable_rejects_overlap() {
    let mut planet = empty_planet(5, 5);
    planet.place(Coords(1, 1), StructureSize::Middle, Structure::Core);
    assert!(!planet.placeable(Coords(2, 2), StructureSize::Small));
    assert!(!planet.placeable(Coords(0, 0), StructureSize::Middle));
    assert!(!planet.placeable(Coords(2, 1), StructureSize::Middle));
    assert!(planet.placeable(Coords(3, 3), StructureSize::Middle));
}

#[test]
fn new_planet_has_one_core_and_all_ocean() {
    for (w, h) in [(2u32, 2u32), (3, 2), (10, 10), (30, 30), (7, 100)] {
        let planet = Planet::new(w, h);
        assert_eq!(planet.tick, 0);
        assert_eq!(planet.player, Player { energy_bits: 0, material_bits: 0 });
        assert_eq!(planet.map.size(), (w, h));
        let anchor = Coords((w / 2 - 1) as i32, (h / 2 - 1) as i32);
        let mut cores = 0;
        for y in 0..h as i32 {
            for x in 0..w as i32 {
                let tile = planet.map.at(Coords(x, y));
                assert_eq!(tile.biome, Biome::Ocean);
                assert_eq!(tile.land_feature, LandFeature::Empty);
                if tile.structure == Structure::Core {
                    cores += 1;
                    assert_eq!(Coords(x, y), anchor);
                }
            }
        }
        assert_eq!(cores, 1);
        assert_eq!(non_empty_tiles(&planet).len(), 4);
    }
}

#[test]
fn new_ten_by_ten_core_at_four_four() {
    let planet = Planet::new(10, 10);
    assert_eq!(planet.map.at(Coords(4, 4)).structure, Structure::Core);
    assert!(!planet.placeable(Coords(4, 4), StructureSize::Middle));
    assert_eq!(
        planet.map.at(Coords(5, 5)).structure,
        Structure::Occupied { by: Coords(4, 4) }
    );
}

#[test]
fn try_place_reports_and_leaves_planet_alone() {
    let mut planet = Planet::new(4, 4);
    assert!(!planet.try_place(Coords(1, 1), StructureSize::Small, Structure::Branch));
    assert_eq!(planet.map.at(Coords(1, 1)).structure, Structure::Core);
    assert!(planet.try_place(Coords(3, 3), StructureSize::Small, Structure::Branch));
    assert_eq!(planet.map.at(Coords(3, 3)).structure, Structure::Branch);
}

#[test]
fn edit_biome_changes_one_tile() {
    let mut planet = Planet::new(3, 3);
    planet.edit_biome(Coords(0, 2), Biome::Desert);
    assert_eq!(planet.map.at(Coords(0, 2)).biome, Biome::Desert);
    assert_eq!(planet.map.at(Coords(0, 1)).biome, Biome::Ocean);
    assert_eq!(planet.map.at(Coords(0, 0)).structure, Structure::Core);
}

#[test]
fn advance_tick_counts() {
    let mut planet = Planet::new(2, 2);
    planet.advance_tick();
    planet.advance_tick();
    assert_eq!(planet.tick, 2);
}

#[test]
fn cursor_action_paints_and_builds() {
    let mut planet = Planet::new(4, 4);
    cursor_action(&mut planet, CursorMode::EditBiome(Biome::Grassland), Coords(3, 0));
    assert_eq!(planet.map.at(Coords(3, 0)).biome, Biome::Grassland);
    cursor_action(&mut planet, CursorMode::Build(StructureKind::Branch), Coords(3, 0));
    assert_eq!(planet.map.at(Coords(3, 0)).structure, Structure::Branch);
    cursor_action(&mut planet, CursorMode::Build(StructureKind::Branch), Coords(1, 1));
    assert_eq!(planet.map.at(Coords(1, 1)).structure, Structure::Core);
    cursor_action(&mut planet, CursorMode::Normal, Coords(0, 3));
    cursor_action(&mut planet, CursorMode::Build(StructureKind::Empty), Coords(0, 3));
    assert_eq!(planet.map.at(Coords(0, 3)).structure, Structure::Empty);
    assert_eq!(CursorMode::default(), CursorMode::Normal);
}

#[test]
fn occupied_tiles_per_size() {
    assert!(StructureSize::Small.occupied_tiles().is_empty());
    assert_eq!(
        StructureSize::Middle.occupied_tiles(),
        vec![Coords(1, 0), Coords(1, 1), Coords(0, 1)]
    );
    assert_eq!(StructureSize::default(), StructureSize::Small);
    assert_eq!(Biome::default(), Biome::Ocean);
}

#[test]
fn structure_info_keys() {
    assert_eq!(structure_info(&Structure::Branch), "branch");
    assert_eq!(structure_info(&Structure::Core), "core");
}

#[test]
fn structure_kinds() {
    assert_eq!(Structure::Occupied { by: Coords(1, 2) }.kind(), StructureKind::Occupied);
    assert_eq!(Structure::Empty.kind(), StructureKind::Empty);
    assert_eq!(Structure::CombatDroneHub.kind(), StructureKind::CombatDroneHub);
    assert!(StructureKind::Branch.chains());
    assert!(!StructureKind::Core.chains());
}

#[test]
fn grid_get_and_set() {
    let mut g = Array2d::new(3, 2, 0u8);
    assert_eq!(g.get(Coords(3, 0)), None);
    assert_eq!(g.get(Coords(0, -1)), None);
    g.set(Coords(2, 1), 7);
    assert_eq!(g.get(Coords(2, 1)), Some(&7));
    assert_eq!(*g.at(Coords(1, 1)), 0);
    assert!(g.in_range(Coords(2, 1)));
    assert!(!g.in_range(Coords(2, 2)));
    let h = Array2d::from_vec(2, 2, vec![1u8, 2, 3, 4]);
    assert_eq!(*h.at(Coords(1, 0)), 2);
    assert_eq!(*h.at(Coords(0, 1)), 3);
}

#[test]
fn consistency_of_footprints() {
    let mut planet = Planet::new(5, 5);
    assert!(planet.is_consistent());
    planet.place(Coords(3, 3), StructureSize::Middle, Structure::SiliconChemModule);
    assert!(planet.is_consistent());
    let mut t = *planet.map.at(Coords(0, 0));
    // Points at an empty tile.
    t.structure = Structure::Occupied { by: Coords(0, 4) };
    planet.map.set(Coords(0, 0), t);
    assert!(!planet.is_consistent());
    let mut bad = Planet::new(5, 5);
    // Points at a real anchor but from outside its footprint.
    let mut t = *bad.map.at(Coords(4, 4));
    t.structure = Structure::Occupied { by: Coords(1, 1) };
    bad.map.set(Coords(4, 4), t);
    assert!(!bad.is_consistent());
    let mut off = Planet::new(3, 3);
    let mut t = *off.map.at(Coords(2, 2));
    t.structure = Structure::Occupied { by: Coords(9, 9) };
    off.map.set(Coords(2, 2), t);
    assert!(!off.is_consistent());
}

#[test]
fn parts_round_trip() {
    for (w, h) in [(2u32, 2u32), (5, 3), (100, 100)] {
        let mut planet = Planet::new(w, h);
        planet.edit_biome(Coords(0, 0), Biome::Mountains);
        planet.tick = 41;
        planet.player = Player { energy_bits: 0x4120_0000, material_bits: 7 };
        let mut t = *planet.map.at(Coords(1, 0));
        t.biomass_bits = 0x3f80_0000;
        t.land_feature = LandFeature::Iron;
        planet.map.set(Coords(1, 0), t);
        let tiles = planet.tiles();
        assert_eq!(tiles.len(), (w * h) as usize);
        assert_eq!(tiles[1], t);
        assert_eq!(tiles[w as usize].biome, Biome::Ocean);
        let back = Planet::from_parts(planet.tick, planet.player, w, h, tiles).expect("valid parts");
        assert_eq!(back.tick, 41);
        assert_eq!(back.player, planet.player);
        assert_eq!(back.map.size(), (w, h));
        for y in 0..h as i32 {
            for x in 0..w as i32 {
                assert_eq!(back.map.at(Coords(x, y)), planet.map.at(Coords(x, y)));
            }
        }
    }
}

#[test]
fn from_parts_rejects_bad_parts() {
    let planet = Planet::new(3, 3);
    let tiles = planet.tiles();
    assert!(Planet::from_parts(0, Player::default(), 3, 3, tiles.clone()).is_some());
    assert!(Planet::from_parts(0, Player::default(), 4, 3, tiles.clone()).is_none());
    assert!(Planet::from_parts(0, Player::default(), 3, 2, tiles.clone()).is_none());
    let mut broken = tiles.clone();
    broken[8].structure = Structure::Occupied { by: Coords(2, 1) };
    assert!(Planet::from_parts(0, Player::default(), 3, 3, broken).is_none());
    assert!(Planet::from_parts(0, Player::default(), 1 << 31, 0, Vec::new()).is_none());
    let empty = Planet::from_parts(5, Player::default(), 0, 0, Vec::new()).expect("an empty grid is valid");
    assert_eq!(empty.map.size(), (0, 0));
}
