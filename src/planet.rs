//! The planet: its tile grid, the player's counters and the tick, with the
//! rules for placing structures.
use vstd::prelude::*;

use crate::defs::{Biome, LandFeature, Structure, StructureSize};
use crate::geom::{lemma_index_coords, lemma_rows_round_trip, Array2d, Coords, GridView};

verus! {

/// One grid cell. The biomass amount is kept as the IEEE-754 bit pattern of
/// a 32-bit float; this library stores it and never computes with it.
#[derive(Clone, Copy, PartialEq, Eq, Structural, Debug)]
pub struct Tile {
    pub biome: Biome,
    pub land_feature: LandFeature,
    pub structure: Structure,
    pub biomass_bits: u32,
}

impl Tile {
    /// Ocean, no land feature, no structure, no biomass.
    pub open spec fn empty() -> Tile {
        Tile { biome: Biome::Ocean, land_feature: LandFeature::Empty, structure: Structure::Empty, biomass_bits: 0 }
    }

    pub open spec fn with_structure(self, s: Structure) -> Tile {
        Tile { structure: s, ..self }
    }
}

impl Default for Tile {
    fn default() -> (r: Self)
        ensures
            r == Tile::empty(),
    {
        Tile { biome: Biome::Ocean, land_feature: LandFeature::Empty, structure: Structure::Empty, biomass_bits: 0 }
    }
}

/// The player's resource counters, each the IEEE-754 bit pattern of a
/// 32-bit float.
#[derive(Clone, Copy, PartialEq, Eq, Structural, Debug)]
pub struct Player {
    pub energy_bits: u32,
    pub material_bits: u32,
}

impl Default for Player {
    fn default() -> (r: Self)
        ensures
            r.energy_bits == 0 && r.material_bits == 0,
    {
        Player { energy_bits: 0, material_bits: 0 }
    }
}

/// Whether the tile at `(x, y)` exists and carries no structure.
pub open spec fn is_free(m: GridView<Tile>, x: int, y: int) -> bool {
    m.in_bounds(x, y) && m.at(x, y).structure is Empty
}

/// A structure of `size` fits with its anchor at `p`: the anchor and every
/// other tile of the footprint exist and are free.
pub open spec fn can_place(m: GridView<Tile>, p: Coords, size: StructureSize) -> bool {
    let offs = size.spec_occupied_tiles();
    &&& is_free(m, p.0 as int, p.1 as int)
    &&& forall|i: int| 0 <= i < offs.len() ==> is_free(m, p.0 + #[trigger] offs[i].0, p.1 + offs[i].1)
}

/// What the tile at `(x, y)` holds once a structure `s` of `size` has been
/// placed with its anchor at `p`.
pub open spec fn placed_tile(m: GridView<Tile>, p: Coords, size: StructureSize, s: Structure, x: int, y: int) -> Tile {
    if x == p.0 && y == p.1 {
        m.at(x, y).with_structure(s)
    } else if size.is_extra_offset(x - p.0, y - p.1) {
        m.at(x, y).with_structure(Structure::Occupied { by: p })
    } else {
        m.at(x, y)
    }
}

/// The grid after placing `s` of `size` with its anchor at `p`.
pub open spec fn placed(m: GridView<Tile>, p: Coords, size: StructureSize, s: Structure) -> GridView<Tile> {
    GridView {
        width: m.width,
        height: m.height,
        cells: Map::new(|k: (int, int)| m.in_bounds(k.0, k.1), |k: (int, int)| placed_tile(m, p, size, s, k.0, k.1)),
    }
}

/// The grid after writing `s` at the anchor `p` and marking the first `k`
/// of the offsets `offs` as occupied by `p`, one write at a time.
pub open spec fn placed_prefix(m: GridView<Tile>, p: Coords, offs: Seq<Coords>, s: Structure, k: int) -> GridView<Tile>
    decreases k,
{
    if k <= 0 {
        m.set(p, m.tile(p).with_structure(s))
    } else {
        let prev = placed_prefix(m, p, offs, s, k - 1);
        let q = Coords((p.0 + offs[k - 1].0) as i32, (p.1 + offs[k - 1].1) as i32);
        prev.set(q, prev.tile(q).with_structure(Structure::Occupied { by: p }))
    }
}

proof fn lemma_placed_prefix_complete(m: GridView<Tile>, p: Coords, size: StructureSize, s: Structure)
    requires
        m.wf(),
        can_place(m, p, size),
    ensures
        placed_prefix(m, p, size.spec_occupied_tiles(), s, size.spec_occupied_tiles().len() as int)
            == placed(m, p, size, s),
{
    let offs = size.spec_occupied_tiles();
    let n = placed(m, p, size, s);
    let r = placed_prefix(m, p, offs, s, offs.len() as int);
    match size {
        StructureSize::Small => {
            assert(r.cells =~= n.cells);
        },
        StructureSize::Middle => {
            assert(is_free(m, p.0 + offs[0].0, p.1 + offs[0].1));
            assert(is_free(m, p.0 + offs[1].0, p.1 + offs[1].1));
            assert(is_free(m, p.0 + offs[2].0, p.1 + offs[2].1));
            let occ = Structure::Occupied { by: p };
            let r0 = placed_prefix(m, p, offs, s, 0);
            let r1 = placed_prefix(m, p, offs, s, 1);
            let r2 = placed_prefix(m, p, offs, s, 2);
            let q0 = Coords((p.0 + 1) as i32, p.1);
            let q1 = Coords((p.0 + 1) as i32, (p.1 + 1) as i32);
            let q2 = Coords(p.0, (p.1 + 1) as i32);
            assert(r1 == r0.set(q0, r0.tile(q0).with_structure(occ)));
            assert(r2 == r1.set(q1, r1.tile(q1).with_structure(occ)));
            assert(r == r2.set(q2, r2.tile(q2).with_structure(occ)));
            assert forall|k: (int, int)| #[trigger] r.cells.dom().contains(k) <==> n.cells.dom().contains(k) by {}
            assert forall|k: (int, int)| r.cells.dom().contains(k) implies #[trigger] r.cells[k] == n.cells[k] by {}
            assert(r.cells =~= n.cells);
        },
    }
    assert(r =~= n);
}

/// Every footprint tile names an anchor that exists, holds a standalone
/// structure, and lies at a footprint offset from it.
pub open spec fn occupancy_consistent(m: GridView<Tile>) -> bool {
    forall|x: int, y: int| #![trigger m.at(x, y)] m.in_bounds(x, y) ==> footprint_tile_ok(m, x, y)
}

/// The occupancy rule for the one tile `(x, y)`.
pub open spec fn footprint_tile_ok(m: GridView<Tile>, x: int, y: int) -> bool {
    m.at(x, y).structure is Occupied ==> {
        let a = m.at(x, y).structure->by;
        &&& m.has(a)
        &&& m.tile(a).structure.is_standalone()
        &&& StructureSize::Middle.is_extra_offset(x - a.0, y - a.1)
    }
}

/// Dimensions and row-by-row tiles that make a planet: the dimensions fit
/// the coordinates, there are `w * h` tiles, and the occupancy rules hold.
pub open spec fn parts_valid(w: int, h: int, tiles: Seq<Tile>) -> bool {
    &&& 0 <= w <= i32::MAX
    &&& 0 <= h <= i32::MAX
    &&& tiles.len() == w * h
    &&& occupancy_consistent(GridView::from_rows(w, h, tiles))
}

/// Taking a planet apart into its tick, player, dimensions and tiles row
/// by row and rebuilding it from them gives back the same planet: the parts
/// are valid and `from_parts` rebuilds the same grid.
pub proof fn lemma_parts_round_trip(planet: Planet)
    requires
        planet.wf(),
        planet.map@.wf(),
    ensures
        parts_valid(planet.map@.width, planet.map@.height, planet.map@.rows()),
        GridView::from_rows(planet.map@.width, planet.map@.height, planet.map@.rows()) == planet.map@,
{
    lemma_rows_round_trip(planet.map@);
}

/// Placing a structure where it fits keeps the occupancy rules.
pub proof fn lemma_place_keeps_occupancy(m: GridView<Tile>, p: Coords, size: StructureSize, s: Structure)
    requires
        occupancy_consistent(m),
        can_place(m, p, size),
        s.is_standalone(),
    ensures
        occupancy_consistent(placed(m, p, size, s)),
{
    let n = placed(m, p, size, s);
    size.lemma_offsets();
    assert forall|x: int, y: int| #![trigger n.at(x, y)] n.in_bounds(x, y) implies footprint_tile_ok(n, x, y) by {
        if !(x == p.0 && y == p.1) && !size.is_extra_offset(x - p.0, y - p.1) && m.at(x, y).structure is Occupied {
            let a = m.at(x, y).structure->by;
            assert(m.at(x, y) == n.at(x, y));
            assert(footprint_tile_ok(m, x, y));
            if size.is_extra_offset(a.0 - p.0, a.1 - p.1) {
                let i = choose|i: int| 0 <= i < size.spec_occupied_tiles().len()
                    && size.spec_occupied_tiles()[i].0 == a.0 - p.0 && size.spec_occupied_tiles()[i].1 == a.1 - p.1;
                assert(is_free(m, p.0 + size.spec_occupied_tiles()[i].0, p.1 + size.spec_occupied_tiles()[i].1));
            }
        }
    }
}

/// A placed structure occupies its anchor: the same placement no longer fits.
pub proof fn lemma_place_then_not_placeable(m: GridView<Tile>, p: Coords, size: StructureSize, s: Structure)
    requires
        can_place(m, p, size),
        !(s is Empty),
    ensures
        !can_place(placed(m, p, size, s), p, size),
{
    assert(placed(m, p, size, s).at(p.0 as int, p.1 as int).structure == s);
}

/// Changing what a tile is made of, and not what stands on it, keeps the
/// occupancy rules.
pub proof fn lemma_same_structures_keep_occupancy(m: GridView<Tile>, n: GridView<Tile>)
    requires
        occupancy_consistent(m),
        n.width == m.width,
        n.height == m.height,
        forall|x: int, y: int| #![trigger n.at(x, y)] n.in_bounds(x, y) ==> n.at(x, y).structure == m.at(x, y).structure,
    ensures
        occupancy_consistent(n),
{
    assert forall|x: int, y: int| #![trigger n.at(x, y)] n.in_bounds(x, y) implies footprint_tile_ok(n, x, y) by {
        if m.at(x, y).structure is Occupied {
            let a = m.at(x, y).structure->by;
            assert(m.tile(a).structure.is_standalone());
            assert(n.tile(a).structure == m.tile(a).structure);
        }
    }
}

/// On a grid with no structures, placing one of size `Middle` at `p` leaves
/// exactly four tiles with a structure: `p` holds it and the tiles right of,
/// above-right of and above `p` are occupied by `p`.
pub proof fn lemma_middle_footprint(m: GridView<Tile>, p: Coords, s: Structure)
    requires
        can_place(m, p, StructureSize::Middle),
        !(s is Empty),
        forall|x: int, y: int| #![trigger m.at(x, y)] m.in_bounds(x, y) ==> m.at(x, y).structure is Empty,
    ensures
        ({
            let n = placed(m, p, StructureSize::Middle, s);
            let (x0, y0) = (p.0 as int, p.1 as int);
            &&& n.at(x0, y0).structure == s
            &&& n.at(x0 + 1, y0).structure == Structure::Occupied { by: p }
            &&& n.at(x0 + 1, y0 + 1).structure == Structure::Occupied { by: p }
            &&& n.at(x0, y0 + 1).structure == Structure::Occupied { by: p }
            &&& forall|x: int, y: int| #![trigger n.at(x, y)] n.in_bounds(x, y) ==> (!(n.at(x, y).structure is Empty) <==> (
                (x == x0 || x == x0 + 1) && (y == y0 || y == y0 + 1)))
        }),
{
    let offs = StructureSize::Middle.spec_occupied_tiles();
    assert(is_free(m, p.0 + offs[0].0, p.1 + offs[0].1));
    assert(is_free(m, p.0 + offs[1].0, p.1 + offs[1].1));
    assert(is_free(m, p.0 + offs[2].0, p.1 + offs[2].1));
}

/// The planet: tick counter, player counters and the tile grid.
pub struct Planet {
    pub tick: u64,
    pub player: Player,
    pub map: Array2d<Tile>,
}

impl Planet {
    /// The occupancy rules hold on the grid.
    pub open spec fn wf(&self) -> bool {
        occupancy_consistent(self.map@)
    }

    /// Where `new` puts the core of a `w` by `h` world.
    pub open spec fn core_anchor(w: int, h: int) -> Coords {
        Coords((w / 2 - 1) as i32, (h / 2 - 1) as i32)
    }

    /// An all-ocean world of `w` by `h` tiles with a `Core` structure of
    /// size `Middle` near the centre, a zero player and tick 0.
    pub fn new(w: u32, h: u32) -> (r: Planet)
        requires
            2 <= w <= i32::MAX,
            2 <= h <= i32::MAX,
            w * h <= usize::MAX,
        ensures
            r.wf(),
            r.tick == 0,
            r.player == (Player { energy_bits: 0, material_bits: 0 }),
            r.map@ == placed(
                GridView::uniform(w as int, h as int, Tile::empty()),
                Planet::core_anchor(w as int, h as int),
                StructureSize::Middle,
                Structure::Core,
            ),
            forall|x: int, y: int| #![trigger r.map@.at(x, y)] r.map@.in_bounds(x, y) ==> {
                &&& r.map@.at(x, y).biome == Biome::Ocean
                &&& (r.map@.at(x, y).structure == Structure::Core) == (x == w / 2 - 1 && y == h / 2 - 1)
            },
    {
        let map = Array2d::new(w, h, Tile::default());
        let mut planet = Planet { tick: 0, player: Player::default(), map };
        let anchor = Coords((w / 2 - 1) as i32, (h / 2 - 1) as i32);
        proof {
            let m = planet.map@;
            StructureSize::Middle.lemma_offsets();
            assert(is_free(m, anchor.0 + 1, anchor.1 + 0));
            assert(is_free(m, anchor.0 + 1, anchor.1 + 1));
            assert(is_free(m, anchor.0 + 0, anchor.1 + 1));
        }
        planet.place(anchor, StructureSize::Middle, Structure::Core);
        proof {
            let m = planet.map@;
            assert forall|x: int, y: int| #![trigger m.at(x, y)] m.in_bounds(x, y) implies {
                &&& m.at(x, y).biome == Biome::Ocean
                &&& (m.at(x, y).structure == Structure::Core) == (x == w / 2 - 1 && y == h / 2 - 1)
            } by {
                assert(m.at(x, y) == placed_tile(GridView::uniform(w as int, h as int, Tile::empty()), anchor,
                    StructureSize::Middle, Structure::Core, x, y));
            }
        }
        planet
    }

    /// Whether the occupancy rules hold, as they must for a world read back
    /// from storage before it is used.
    pub fn is_consistent(&self) -> (r: bool)
        ensures
            r == self.wf(),
    {
        let (w, h) = self.map.size();
        let ghost m = self.map@;
        let mut y: u32 = 0;
        while y < h
            invariant
                m == self.map@,
                m.wf(),
                w == m.width,
                h == m.height,
                y <= h,
                forall|x: int, y2: int| #![trigger m.at(x, y2)] 0 <= y2 < y && m.in_bounds(x, y2) ==> footprint_tile_ok(m, x, y2),
            decreases h - y,
        {
            let mut x: u32 = 0;
            while x < w
                invariant
                    m == self.map@,
                    m.wf(),
                    w == m.width,
                    h == m.height,
                    y < h,
                    x <= w,
                    forall|x2: int, y2: int| #![trigger m.at(x2, y2)] m.in_bounds(x2, y2) && (y2 < y || (y2 == y && x2 < x))
                        ==> footprint_tile_ok(m, x2, y2),
                decreases w - x,
            {
                let tile = self.map.at(Coords(x as i32, y as i32));
                match tile.structure {
                    Structure::Occupied { by } => {
                        if !self.map.in_range(by) {
                            return false;
                        }
                        let anchor = self.map.at(by).structure;
                        if matches!(anchor, Structure::Empty) || matches!(anchor, Structure::Occupied { .. }) {
                            return false;
                        }
                        let dx = x as i64 - by.0 as i64;
                        let dy = y as i64 - by.1 as i64;
                        if !((dx == 1 && dy == 0) || (dx == 1 && dy == 1) || (dx == 0 && dy == 1)) {
                            return false;
                        }
                    },
                    _ => {},
                }
                x = x + 1;
            }
            y = y + 1;
        }
        true
    }

    /// The tiles row by row, bottom row first.
    pub fn tiles(&self) -> (r: Vec<Tile>)
        ensures
            r@ == self.map@.rows(),
    {
        let (w, h) = self.map.size();
        let n: usize = (w as usize) * (h as usize);
        let mut r: Vec<Tile> = Vec::new();
        let mut i: usize = 0;
        while i < n
            invariant
                self.map@.wf(),
                w == self.map@.width,
                h == self.map@.height,
                n == w * h,
                i <= n,
                r@.len() == i,
                forall|j: int| 0 <= j < i ==> #[trigger] r@[j] == self.map@.at(j % (w as int), j / (w as int)),
            decreases n - i,
        {
            proof {
                lemma_index_coords(w as int, h as int, i as int);
            }
            r.push(*self.map.at(Coords((i % (w as usize)) as i32, (i / (w as usize)) as i32)));
            i = i + 1;
        }
        proof {
            assert(r@ =~= self.map@.rows());
        }
        r
    }

    /// Rebuilds a planet from its tick, its player and its `w` by `h` tiles
    /// given row by row. `None` where the dimensions do not fit the
    /// coordinates, the number of tiles is not `w * h`, or the structure
    /// footprints break the occupancy rules.
    pub fn from_parts(tick: u64, player: Player, w: u32, h: u32, tiles: Vec<Tile>) -> (r: Option<Planet>)
        ensures
            r is Some <==> parts_valid(w as int, h as int, tiles@),
            r matches Some(planet) ==> {
                &&& planet.tick == tick
                &&& planet.player == player
                &&& planet.map@ == GridView::from_rows(w as int, h as int, tiles@)
            },
    {
        if w > i32::MAX as u32 || h > i32::MAX as u32 {
            return None;
        }
        proof {
            assert((w as u64) * (h as u64) <= 2147483647u64 * 2147483647u64) by (nonlinear_arith)
                requires
                    w <= 2147483647,
                    h <= 2147483647,
            ;
        }
        if (w as u64) * (h as u64) != tiles.len() as u64 {
            return None;
        }
        let planet = Planet { tick, player, map: Array2d::from_vec(w, h, tiles) };
        if planet.is_consistent() {
            Some(planet)
        } else {
            None
        }
    }

    /// Sets the biome of the tile at `p`; nothing else changes.
    pub fn edit_biome(&mut self, p: Coords, biome: Biome)
        requires
            old(self).wf(),
            old(self).map@.has(p),
        ensures
            final(self).wf(),
            final(self).map@ == old(self).map@.set(p, Tile { biome, ..old(self).map@.tile(p) }),
            final(self).tick == old(self).tick,
            final(self).player == old(self).player,
    {
        let ghost m0 = self.map@;
        let mut tile = *self.map.at(p);
        tile.biome = biome;
        self.map.set(p, tile);
        proof {
            lemma_same_structures_keep_occupancy(m0, self.map@);
        }
    }

    /// One step of the simulation clock.
    pub fn advance_tick(&mut self)
        requires
            old(self).tick < u64::MAX,
        ensures
            final(self).tick == old(self).tick + 1,
            final(self).player == old(self).player,
            final(self).map@ == old(self).map@,
    {
        self.tick = self.tick + 1;
    }

    /// Places `structure` of `size` at `p` where it fits, and reports whether
    /// it did; where it does not fit the planet is left as it was.
    pub fn try_place(&mut self, p: Coords, size: StructureSize, structure: Structure) -> (r: bool)
        requires
            old(self).wf(),
            structure.is_standalone(),
        ensures
            final(self).wf(),
            r == can_place(old(self).map@, p, size),
            final(self).map@ == (if r { placed(old(self).map@, p, size, structure) } else { old(self).map@ }),
            final(self).tick == old(self).tick,
            final(self).player == old(self).player,
    {
        if self.placeable(p, size) {
            self.place(p, size, structure);
            true
        } else {
            false
        }
    }

    /// Whether a structure of `size` can be anchored at `p`.
    pub fn placeable(&self, p: Coords, size: StructureSize) -> (r: bool)
        ensures
            r == can_place(self.map@, p, size),
    {
        if !self.map.in_range(p) {
            return false;
        }
        if !matches!(self.map.at(p).structure, Structure::Empty) {
            return false;
        }
        let offs = size.occupied_tiles();
        proof {
            size.lemma_offsets();
        }
        let mut i: usize = 0;
        while i < offs.len()
            invariant
                offs@ == size.spec_occupied_tiles(),
                self.map@.wf(),
                self.map@.has(p),
                i <= offs.len(),
                forall|j: int| 0 <= j < i ==> is_free(self.map@, p.0 + #[trigger] offs@[j].0, p.1 + offs@[j].1),
            decreases offs.len() - i,
        {
            let o = offs[i];
            let q = Coords(p.0 + o.0, p.1 + o.1);
            match self.map.get(q) {
                Some(tile) => {
                    if !matches!(tile.structure, Structure::Empty) {
                        return false;
                    }
                },
                None => {
                    return false;
                },
            }
            i = i + 1;
        }
        true
    }

    /// Puts `structure` at `p` and marks the rest of its footprint as
    /// occupied by `p`.
    pub fn place(&mut self, p: Coords, size: StructureSize, structure: Structure)
        requires
            old(self).wf(),
            can_place(old(self).map@, p, size),
            structure.is_standalone(),
        ensures
            final(self).wf(),
            final(self).map@ == placed(old(self).map@, p, size, structure),
            final(self).tick == old(self).tick,
            final(self).player == old(self).player,
    {
        let ghost m0 = self.map@;
        proof {
            size.lemma_offsets();
            lemma_place_keeps_occupancy(m0, p, size, structure);
        }
        let mut anchor_tile = *self.map.at(p);
        proof {
            assert(m0.wf());
        }
        anchor_tile.structure = structure;
        self.map.set(p, anchor_tile);
        let offs = size.occupied_tiles();
        let mut i: usize = 0;
        while i < offs.len()
            invariant
                offs@ == size.spec_occupied_tiles(),
                can_place(m0, p, size),
                i <= offs.len(),
                self.map@ == placed_prefix(m0, p, offs@, structure, i as int),
                self.map@.wf(),
                self.map@.width == m0.width,
                self.map@.height == m0.height,
                self.tick == old(self).tick,
                self.player == old(self).player,
            decreases offs.len() - i,
        {
            let o = offs[i];
            let q = Coords(p.0 + o.0, p.1 + o.1);
            let mut tile = *self.map.at(q);
            tile.structure = Structure::Occupied { by: p };
            self.map.set(q, tile);
            i = i + 1;
        }
        proof {
            lemma_placed_prefix_complete(m0, p, size, structure);
        }
    }
}

} // verus!
