//! Biome layers: for each tile, the biomes that must be drawn there, its own
//! and those of lower-priority neighbours that show through at the edges.
use vstd::prelude::*;

use arrayvec::ArrayVec;

use crate::defs::Biome;
use crate::geom::{lemma_coords_index, lemma_index_coords, Array2d, Coords, GridView};
use crate::planet::{Planet, Tile};

verus! {

#[verifier::external_type_specification]
#[verifier::external_body]
#[verifier::reject_recursive_types(T)]
pub struct ExArrayVec<T, const CAP: usize>(ArrayVec<T, CAP>);

/// The biomes held by a layer list, first to last.
pub uninterp spec fn layer_items(v: ArrayVec<Biome, 9>) -> Seq<Biome>;

/// Relies on `ArrayVec::new`: the new list is empty.
#[verifier::external_body]
fn empty_layers() -> (r: ArrayVec<Biome, 9>)
    ensures
        layer_items(r) == Seq::<Biome>::empty(),
{
    ArrayVec::new()
}

/// Relies on `ArrayVec::push`: appends at the end (it panics when the list
/// is full, hence the room asked for).
#[verifier::external_body]
fn push_layer(v: &mut ArrayVec<Biome, 9>, b: Biome)
    requires
        layer_items(*old(v)).len() < 9,
    ensures
        layer_items(*final(v)) == layer_items(*old(v)).push(b),
{
    v.push(b)
}

/// Relies on `ArrayVec::as_slice`: the elements in order.
#[verifier::external_body]
fn layer_slice(v: &ArrayVec<Biome, 9>) -> (r: &[Biome])
    ensures
        r@ == layer_items(*v),
{
    v.as_slice()
}

/// Drawing priority of the biomes whose attributes are loaded: a biome of
/// lower rank is drawn under one of higher rank. `None` marks a biome whose
/// attributes are not loaded.
#[derive(Clone, Copy, PartialEq, Eq, Structural, Debug)]
pub struct BiomeRanks {
    pub ocean: Option<u32>,
    pub mountains: Option<u32>,
    pub desert: Option<u32>,
    pub grassland: Option<u32>,
}

impl BiomeRanks {
    pub open spec fn spec_rank(&self, b: Biome) -> Option<u32> {
        match b {
            Biome::Ocean => self.ocean,
            Biome::Mountains => self.mountains,
            Biome::Desert => self.desert,
            Biome::Grassland => self.grassland,
        }
    }

    #[verifier::when_used_as_spec(spec_rank)]
    pub fn rank(&self, b: Biome) -> (r: Option<u32>)
        ensures
            r == self.spec_rank(b),
    {
        match b {
            Biome::Ocean => self.ocean,
            Biome::Mountains => self.mountains,
            Biome::Desert => self.desert,
            Biome::Grassland => self.grassland,
        }
    }

    /// `j` is loaded and drawn under the loaded biome `i`.
    pub open spec fn below(&self, j: Biome, i: Biome) -> bool {
        &&& self.rank(j) is Some
        &&& self.rank(i) is Some
        &&& self.rank(j)->0 < self.rank(i)->0
    }
}

/// Offset of the `k`-th of the eight neighbours of a tile, `0 <= k < 8`,
/// going round from the one above.
pub open spec fn neighbor_offset(k: int) -> (int, int) {
    if k == 0 {
        (0, 1)
    } else if k == 1 {
        (1, 1)
    } else if k == 2 {
        (1, 0)
    } else if k == 3 {
        (1, -1)
    } else if k == 4 {
        (0, -1)
    } else if k == 5 {
        (-1, -1)
    } else if k == 6 {
        (-1, 0)
    } else {
        (-1, 1)
    }
}

fn neighbor(k: usize) -> (r: (i32, i32))
    requires
        k < 8,
    ensures
        r.0 == neighbor_offset(k as int).0,
        r.1 == neighbor_offset(k as int).1,
{
    if k == 0 {
        (0, 1)
    } else if k == 1 {
        (1, 1)
    } else if k == 2 {
        (1, 0)
    } else if k == 3 {
        (1, -1)
    } else if k == 4 {
        (0, -1)
    } else if k == 5 {
        (-1, -1)
    } else if k == 6 {
        (-1, 0)
    } else {
        (-1, 1)
    }
}

/// Wherever a tile of a loaded biome has a neighbour, that neighbour's biome
/// is loaded too.
pub open spec fn ranks_cover(m: GridView<Tile>, ranks: BiomeRanks) -> bool {
    forall|x: int, y: int, qx: int, qy: int|
        #![trigger m.at(x, y), m.at(qx, qy)]
        m.in_bounds(x, y) && m.in_bounds(qx, qy) && -1 <= qx - x <= 1 && -1 <= qy - y <= 1
            && ranks.rank(m.at(x, y).biome) is Some ==> ranks.rank(m.at(qx, qy).biome) is Some
}

/// The layers of tile `(x, y)` once its own biome and the first `k`
/// neighbours have been considered: the own biome first, then each
/// neighbour's biome that is drawn under it, once, in the order met.
pub open spec fn layers_after(m: GridView<Tile>, ranks: BiomeRanks, x: int, y: int, k: int) -> Seq<Biome>
    decreases k,
{
    if k <= 0 {
        seq![m.at(x, y).biome]
    } else {
        let prev = layers_after(m, ranks, x, y, k - 1);
        let qx = x + neighbor_offset(k - 1).0;
        let qy = y + neighbor_offset(k - 1).1;
        if m.in_bounds(qx, qy) && ranks.below(m.at(qx, qy).biome, m.at(x, y).biome) && !prev.contains(m.at(qx, qy).biome) {
            prev.push(m.at(qx, qy).biome)
        } else {
            prev
        }
    }
}

/// The layers drawn at tile `(x, y)`: none where its own biome is not
/// loaded, else its own biome followed by the neighbours' biomes drawn under
/// it.
pub open spec fn tile_layers(m: GridView<Tile>, ranks: BiomeRanks, x: int, y: int) -> Seq<Biome> {
    if ranks.rank(m.at(x, y).biome) is Some {
        layers_after(m, ranks, x, y, 8)
    } else {
        seq![]
    }
}

proof fn lemma_layers_after_len(m: GridView<Tile>, ranks: BiomeRanks, x: int, y: int, k: int)
    requires
        0 <= k,
    ensures
        1 <= layers_after(m, ranks, x, y, k).len() <= k + 1,
    decreases k,
{
    if k > 0 {
        lemma_layers_after_len(m, ranks, x, y, k - 1);
    }
}

/// The `i`-th neighbour of `(x, y)` is on the grid and has biome `b`.
pub open spec fn neighbor_has(m: GridView<Tile>, x: int, y: int, i: int, b: Biome) -> bool {
    &&& m.in_bounds(x + neighbor_offset(i).0, y + neighbor_offset(i).1)
    &&& m.at(x + neighbor_offset(i).0, y + neighbor_offset(i).1).biome == b
}

proof fn lemma_no_lower_neighbor(m: GridView<Tile>, ranks: BiomeRanks, x: int, y: int, j: int)
    requires
        0 <= j <= 8,
        forall|i: int| #![trigger neighbor_offset(i)] 0 <= i < j && m.in_bounds(x + neighbor_offset(i).0, y + neighbor_offset(i).1)
            ==> !ranks.below(m.at(x + neighbor_offset(i).0, y + neighbor_offset(i).1).biome, m.at(x, y).biome),
    ensures
        layers_after(m, ranks, x, y, j) == seq![m.at(x, y).biome],
    decreases j,
{
    if j > 0 {
        lemma_no_lower_neighbor(m, ranks, x, y, j - 1);
    }
}

proof fn lemma_one_lower_neighbor(m: GridView<Tile>, ranks: BiomeRanks, x: int, y: int, j: int, other: Biome)
    requires
        0 <= j <= 8,
        ranks.below(other, m.at(x, y).biome),
        forall|i: int| #![trigger neighbor_offset(i)] 0 <= i < j && m.in_bounds(x + neighbor_offset(i).0, y + neighbor_offset(i).1)
            ==> m.at(x + neighbor_offset(i).0, y + neighbor_offset(i).1).biome == m.at(x, y).biome
                || m.at(x + neighbor_offset(i).0, y + neighbor_offset(i).1).biome == other,
    ensures
        layers_after(m, ranks, x, y, j) == seq![m.at(x, y).biome] || layers_after(m, ranks, x, y, j) == seq![m.at(x, y).biome, other],
        (exists|i: int| 0 <= i < j && neighbor_has(m, x, y, i, other))
            ==> layers_after(m, ranks, x, y, j) == seq![m.at(x, y).biome, other],
    decreases j,
{
    let own = m.at(x, y).biome;
    if j > 0 {
        lemma_one_lower_neighbor(m, ranks, x, y, j - 1, other);
        let prev = layers_after(m, ranks, x, y, j - 1);
        assert(seq![own].push(other) == seq![own, other]);
        assert(seq![own, other][1] == other);
        assert(!seq![own].contains(other)) by {
            assert(seq![own][0] != other);
        }
        if exists|i: int| 0 <= i < j && neighbor_has(m, x, y, i, other) {
            if !neighbor_has(m, x, y, j - 1, other) {
                let i = choose|i: int| 0 <= i < j && neighbor_has(m, x, y, i, other);
                assert(0 <= i < j - 1 && neighbor_has(m, x, y, i, other));
            }
        }
    }
}

/// On a grid where every tile has the same loaded biome `b`, every tile has
/// exactly one layer, `b`.
pub proof fn lemma_uniform_single_layer(m: GridView<Tile>, ranks: BiomeRanks, b: Biome)
    requires
        ranks.rank(b) is Some,
        forall|x: int, y: int| #![trigger m.at(x, y)] m.in_bounds(x, y) ==> m.at(x, y).biome == b,
    ensures
        forall|x: int, y: int| #![trigger tile_layers(m, ranks, x, y)] m.in_bounds(x, y) ==> tile_layers(m, ranks, x, y) == seq![b],
{
    assert forall|x: int, y: int| #![trigger tile_layers(m, ranks, x, y)] m.in_bounds(x, y) implies tile_layers(m, ranks, x, y) == seq![b] by {
        lemma_no_lower_neighbor(m, ranks, x, y, 8);
    }
}

proof fn lemma_two_biome_tile(m: GridView<Tile>, ranks: BiomeRanks, lo: Biome, hi: Biome, x: int, y: int)
    requires
        ranks.below(lo, hi),
        m.in_bounds(x, y),
        forall|x: int, y: int| #![trigger m.at(x, y)] m.in_bounds(x, y) ==> m.at(x, y).biome == lo || m.at(x, y).biome == hi,
    ensures
        m.at(x, y).biome == lo ==> tile_layers(m, ranks, x, y) == seq![lo],
        m.at(x, y).biome == hi ==> (tile_layers(m, ranks, x, y) == seq![hi] || tile_layers(m, ranks, x, y) == seq![hi, lo]),
        m.at(x, y).biome == hi && (exists|i: int| 0 <= i < 8 && neighbor_has(m, x, y, i, lo))
            ==> tile_layers(m, ranks, x, y) == seq![hi, lo],
        m.at(x, y).biome == hi && !(exists|i: int| 0 <= i < 8 && neighbor_has(m, x, y, i, lo))
            ==> tile_layers(m, ranks, x, y) == seq![hi],
{
    if m.at(x, y).biome == lo {
        lemma_no_lower_neighbor(m, ranks, x, y, 8);
    } else {
        lemma_one_lower_neighbor(m, ranks, x, y, 8, lo);
        if !(exists|i: int| 0 <= i < 8 && neighbor_has(m, x, y, i, lo)) {
            assert forall|i: int| #![trigger neighbor_offset(i)] 0 <= i < 8 && m.in_bounds(x + neighbor_offset(i).0, y + neighbor_offset(i).1)
                implies !ranks.below(m.at(x + neighbor_offset(i).0, y + neighbor_offset(i).1).biome, m.at(x, y).biome) by {
                assert(!neighbor_has(m, x, y, i, lo));
            }
            lemma_no_lower_neighbor(m, ranks, x, y, 8);
        }
    }
}

/// Two loaded biomes meeting along a vertical border: `lo` on the columns
/// left of column `k`, `hi` from column `k` on, `lo` drawn under `hi`. The
/// tiles of `hi` along the border have two layers, `hi` and `lo`; every
/// other tile has one, its own biome.
pub proof fn lemma_vertical_border_layers(m: GridView<Tile>, ranks: BiomeRanks, lo: Biome, hi: Biome, k: int)
    requires
        ranks.below(lo, hi),
        0 < k < m.width,
        forall|x: int, y: int| #![trigger m.at(x, y)] m.in_bounds(x, y) ==> m.at(x, y).biome == (if x < k { lo } else { hi }),
    ensures
        forall|x: int, y: int| #![trigger tile_layers(m, ranks, x, y)] m.in_bounds(x, y) ==> tile_layers(m, ranks, x, y) == (
            if x == k { seq![hi, lo] } else if x < k { seq![lo] } else { seq![hi] }),
{
    assert forall|x: int, y: int| #![trigger tile_layers(m, ranks, x, y)] m.in_bounds(x, y) implies tile_layers(m, ranks, x, y) == (
        if x == k { seq![hi, lo] } else if x < k { seq![lo] } else { seq![hi] }) by {
        lemma_two_biome_tile(m, ranks, lo, hi, x, y);
        if x == k {
            assert(neighbor_has(m, x, y, 6, lo));
        } else if x > k {
            assert forall|i: int| 0 <= i < 8 implies !neighbor_has(m, x, y, i, lo) by {}
        }
    }
}

/// Two loaded biomes meeting along a horizontal border: `lo` on the rows
/// below row `k`, `hi` from row `k` on, `lo` drawn under `hi`. The tiles of
/// `hi` along the border have two layers, `hi` and `lo`; every other tile
/// has one, its own biome.
pub proof fn lemma_horizontal_border_layers(m: GridView<Tile>, ranks: BiomeRanks, lo: Biome, hi: Biome, k: int)
    requires
        ranks.below(lo, hi),
        0 < k < m.height,
        forall|x: int, y: int| #![trigger m.at(x, y)] m.in_bounds(x, y) ==> m.at(x, y).biome == (if y < k { lo } else { hi }),
    ensures
        forall|x: int, y: int| #![trigger tile_layers(m, ranks, x, y)] m.in_bounds(x, y) ==> tile_layers(m, ranks, x, y) == (
            if y == k { seq![hi, lo] } else if y < k { seq![lo] } else { seq![hi] }),
{
    assert forall|x: int, y: int| #![trigger tile_layers(m, ranks, x, y)] m.in_bounds(x, y) implies tile_layers(m, ranks, x, y) == (
        if y == k { seq![hi, lo] } else if y < k { seq![lo] } else { seq![hi] }) by {
        lemma_two_biome_tile(m, ranks, lo, hi, x, y);
        if y == k {
            assert(neighbor_has(m, x, y, 4, lo));
        } else if y > k {
            assert forall|i: int| 0 <= i < 8 implies !neighbor_has(m, x, y, i, lo) by {}
        }
    }
}

/// Whether `list` holds `b`.
pub(crate) fn holds(list: &[Biome], b: Biome) -> (r: bool)
    ensures
        r == list@.contains(b),
{
    let mut i: usize = 0;
    while i < list.len()
        invariant
            i <= list@.len(),
            forall|j: int| 0 <= j < i ==> list@[j] != b,
        decreases list@.len() - i,
    {
        if list[i] == b {
            proof {
                assert(list@[i as int] == b);
            }
            return true;
        }
        i = i + 1;
    }
    false
}

/// The layer list of the tile at `p`.
fn layers_of(planet: &Planet, ranks: &BiomeRanks, p: Coords) -> (r: ArrayVec<Biome, 9>)
    requires
        planet.map@.has(p),
        ranks_cover(planet.map@, *ranks),
    ensures
        layer_items(r) == tile_layers(planet.map@, *ranks, p.0 as int, p.1 as int),
{
    let ghost m = planet.map@;
    let ghost (x, y) = (p.0 as int, p.1 as int);
    let mut list = empty_layers();
    let own = planet.map.at(p).biome;
    let own_rank = match ranks.rank(own) {
        Some(r) => r,
        None => {
            return list;
        },
    };
    push_layer(&mut list, own);
    let mut k: usize = 0;
    while k < 8
        invariant
            m == planet.map@,
            m.wf(),
            m.has(p),
            x == p.0 && y == p.1,
            own == m.at(x, y).biome,
            ranks.rank(own) == Some(own_rank),
            ranks_cover(m, *ranks),
            k <= 8,
            layer_items(list) == layers_after(m, *ranks, x, y, k as int),
        decreases 8 - k,
    {
        let (dx, dy) = neighbor(k);
        let q = Coords(p.0 + dx, p.1 + dy);
        if planet.map.in_range(q) {
            let nb = planet.map.at(q).biome;
            proof {
                assert(ranks.rank(m.at(x + neighbor_offset(k as int).0, y + neighbor_offset(k as int).1).biome) is Some);
            }
            let nb_rank = match ranks.rank(nb) {
                Some(r) => r,
                None => own_rank,
            };
            if nb_rank < own_rank && !holds(layer_slice(&list), nb) {
                proof {
                    lemma_layers_after_len(m, *ranks, x, y, k as int);
                }
                push_layer(&mut list, nb);
            }
        }
        k = k + 1;
    }
    list
}

/// For every tile of a planet, the biome layers drawn there. It is derived
/// from the planet and recomputed whenever the planet's grid changes.
pub struct LayeredTexMap {
    biome: Array2d<ArrayVec<Biome, 9>>,
}

impl View for LayeredTexMap {
    type V = GridView<Seq<Biome>>;

    closed spec fn view(&self) -> GridView<Seq<Biome>> {
        GridView {
            width: self.biome@.width,
            height: self.biome@.height,
            cells: Map::new(
                |k: (int, int)| self.biome@.in_bounds(k.0, k.1),
                |k: (int, int)| layer_items(self.biome@.at(k.0, k.1)),
            ),
        }
    }
}

impl LayeredTexMap {
    /// Width and height, those of the planet it was derived from.
    pub fn size(&self) -> (r: (u32, u32))
        ensures
            r.0 == self@.width,
            r.1 == self@.height,
            self@.wf(),
    {
        let r = self.biome.size();
        proof {
            assert forall|k: (int, int)| #[trigger] self@.cells.dom().contains(k) <==> self@.in_bounds(k.0, k.1) by {}
        }
        r
    }

    /// The layers of the tile at `p`.
    pub fn layers(&self, p: Coords) -> (r: &[Biome])
        requires
            self@.has(p),
        ensures
            r@ == self@.tile(p),
    {
        layer_slice(self.biome.at(p))
    }

    /// Derives the layers of every tile of `planet`.
    pub fn new(planet: &Planet, ranks: &BiomeRanks) -> (r: LayeredTexMap)
        requires
            ranks_cover(planet.map@, *ranks),
        ensures
            r@.wf(),
            r@.width == planet.map@.width,
            r@.height == planet.map@.height,
            forall|x: int, y: int| #![trigger r@.at(x, y)] r@.in_bounds(x, y) ==> r@.at(x, y) == tile_layers(
                planet.map@, *ranks, x, y),
    {
        let (w, h) = planet.map.size();
        let n: usize = (w as usize) * (h as usize);
        let mut v: Vec<ArrayVec<Biome, 9>> = Vec::new();
        let mut i: usize = 0;
        while i < n
            invariant
                planet.map@.wf(),
                w == planet.map@.width,
                h == planet.map@.height,
                n == w * h,
                ranks_cover(planet.map@, *ranks),
                i <= n,
                v@.len() == i,
                forall|j: int| 0 <= j < i ==> layer_items(#[trigger] v@[j]) == tile_layers(
                    planet.map@, *ranks, j % (w as int), j / (w as int)),
            decreases n - i,
        {
            proof {
                lemma_index_coords(w as int, h as int, i as int);
            }
            let p = Coords((i % (w as usize)) as i32, (i / (w as usize)) as i32);
            let layers = layers_of(planet, ranks, p);
            v.push(layers);
            i = i + 1;
        }
        let biome = Array2d::from_vec(w, h, v);
        let r = LayeredTexMap { biome };
        proof {
            assert forall|x: int, y: int| #![trigger r@.at(x, y)] r@.in_bounds(x, y) implies r@.at(x, y) == tile_layers(
                planet.map@, *ranks, x, y) by {
                lemma_coords_index(w as int, h as int, x, y);
            }
            assert forall|k: (int, int)| #[trigger] r@.cells.dom().contains(k) <==> r@.in_bounds(k.0, k.1) by {}
        }
        r
    }
}

} // verus!
