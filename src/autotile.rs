//! Corner autotiling: each quarter of a tile picks one of five sprite
//! patterns from whether its two side neighbours and its diagonal neighbour
//! towards that corner match the tile.
use vstd::prelude::*;

use crate::defs::{Biome, Structure, StructureKind};
use crate::geom::{Coords, GridView};
use crate::layers::{holds, LayeredTexMap};
use crate::planet::{Planet, Tile};

verus! {

/// The pattern of a corner from the side neighbour along x (`a`), the side
/// neighbour along y (`b`) and the diagonal neighbour (`c`): 0 when all
/// three match, 1 or 2 when only the side along x or along y matches, 3 when
/// neither side matches, 4 when both sides match but not the diagonal.
pub open spec fn corner_pattern(a: bool, b: bool, c: bool) -> usize {
    if a && b && c {
        0
    } else if a && !b {
        1
    } else if !a && b {
        2
    } else if !a && !b {
        3
    } else {
        4
    }
}

/// The corner pattern of `corner_pattern`, defined for all eight inputs.
pub fn corner_idx(a: bool, b: bool, c: bool) -> (r: usize)
    ensures
        r == corner_pattern(a, b, c),
        r <= 4,
{
    match (a, b, c) {
        (true, true, true) => 0,
        (true, false, _) => 1,
        (false, true, _) => 2,
        (false, false, _) => 3,
        (true, true, false) => 4,
    }
}

/// Direction of corner `k`, `0 <= k < 4`: lower left, upper left, upper
/// right, lower right.
pub open spec fn corner_dir(k: int) -> (int, int) {
    if k == 0 {
        (-1, -1)
    } else if k == 1 {
        (-1, 1)
    } else if k == 2 {
        (1, 1)
    } else {
        (1, -1)
    }
}

/// Column and row, within a pattern's 2 by 2 block of the atlas, of the
/// piece for corner `k`.
pub open spec fn corner_piece(k: int) -> (int, int) {
    if k == 0 {
        (0, 1)
    } else if k == 1 {
        (0, 0)
    } else if k == 2 {
        (1, 0)
    } else {
        (1, 1)
    }
}

fn corner(k: usize) -> (r: (i32, i32))
    requires
        k < 4,
    ensures
        r.0 == corner_dir(k as int).0,
        r.1 == corner_dir(k as int).1,
{
    if k == 0 {
        (-1, -1)
    } else if k == 1 {
        (-1, 1)
    } else if k == 2 {
        (1, 1)
    } else {
        (1, -1)
    }
}

/// Cell of the 6 by 4 sprite atlas, counted row by row, that holds corner
/// `k` drawn with `pattern`.
pub open spec fn atlas_cell(k: int, pattern: int) -> int {
    let col = (pattern % 3) * 2 + corner_piece(k).0;
    let row = (pattern / 3) * 2 + corner_piece(k).1;
    col + row * 6
}

/// Index into the 6 by 4 sprite atlas of corner `k` drawn with `pattern`.
pub fn atlas_index(k: usize, pattern: usize) -> (r: usize)
    requires
        k < 4,
        pattern <= 4,
    ensures
        r == atlas_cell(k as int, pattern as int),
        r < 24,
{
    let (pc, pr): (usize, usize) = if k == 0 {
        (0, 1)
    } else if k == 1 {
        (0, 0)
    } else if k == 2 {
        (1, 0)
    } else {
        (1, 1)
    };
    let col = (pattern % 3) * 2 + pc;
    let row = (pattern / 3) * 2 + pr;
    col + row * 6
}

/// A biome probe: whether the tile at `(x, y)` has a layer of `b`; a
/// position off the map counts as matching, so that no seam shows at the
/// edge.
pub open spec fn biome_probe(l: GridView<Seq<Biome>>, x: int, y: int, b: Biome) -> bool {
    if l.in_bounds(x, y) {
        l.at(x, y).contains(b)
    } else {
        true
    }
}

/// A structure probe: whether the tile at `(x, y)` holds a structure of
/// `kind`; a position off the map never matches.
pub open spec fn structure_probe(m: GridView<Tile>, x: int, y: int, kind: StructureKind) -> bool {
    if m.in_bounds(x, y) {
        m.at(x, y).structure.kind() == kind
    } else {
        false
    }
}

/// The pattern of corner `k` of tile `(x, y)` under `probe`.
pub open spec fn corner_under(probe: spec_fn(int, int) -> bool, x: int, y: int, k: int) -> usize {
    let (dx, dy) = corner_dir(k);
    corner_pattern(probe(x + dx, y), probe(x, y + dy), probe(x + dx, y + dy))
}

/// The atlas cells of the four corners of tile `(x, y)` under `probe`,
/// corner by corner.
pub open spec fn corner_cells(probe: spec_fn(int, int) -> bool, x: int, y: int) -> CornerCells {
    CornerCells {
        lower_left: atlas_cell(0, corner_under(probe, x, y, 0) as int) as usize,
        upper_left: atlas_cell(1, corner_under(probe, x, y, 1) as int) as usize,
        upper_right: atlas_cell(2, corner_under(probe, x, y, 2) as int) as usize,
        lower_right: atlas_cell(3, corner_under(probe, x, y, 3) as int) as usize,
    }
}

/// Atlas cells of the four corner pieces of a tile, one per corner in the
/// order of `corner_dir`.
#[derive(Clone, Copy, PartialEq, Eq, Structural, Debug)]
pub struct CornerCells {
    pub lower_left: usize,
    pub upper_left: usize,
    pub upper_right: usize,
    pub lower_right: usize,
}

/// What is drawn for the structure on a tile.
#[derive(Clone, Copy, PartialEq, Eq, Structural, Debug)]
pub enum StructureSprite {
    /// Nothing: no structure, or a tile covered by a structure anchored
    /// elsewhere, which that structure's sprite covers.
    Nothing,
    /// The kind's one fixed sprite.
    Whole(StructureKind),
    /// Four corner pieces of the kind's atlas, joined with the neighbours of
    /// the same kind; the atlas cells are given corner by corner.
    Pieces(StructureKind, CornerCells),
}

impl LayeredTexMap {
    /// The biome probe at `q` for layer `b`.
    pub fn matches_layer(&self, q: Coords, b: Biome) -> (r: bool)
        ensures
            r == biome_probe(self@, q.0 as int, q.1 as int, b),
            !self@.has(q) ==> r,
    {
        let (w, h) = self.size();
        if 0 <= q.0 && 0 <= q.1 && (q.0 as u32) < w && (q.1 as u32) < h {
            holds(self.layers(q), b)
        } else {
            true
        }
    }

    /// The pattern of corner `k` of the tile at `p` for its layer `b`.
    pub fn corner_index(&self, p: Coords, b: Biome, k: usize) -> (r: usize)
        requires
            self@.has(p),
            k < 4,
        ensures
            r == corner_under(|x: int, y: int| biome_probe(self@, x, y, b), p.0 as int, p.1 as int, k as int),
            r <= 4,
    {
        let _ = self.size();
        let (dx, dy) = corner(k);
        let a = self.matches_layer(Coords(p.0 + dx, p.1), b);
        let bb = self.matches_layer(Coords(p.0, p.1 + dy), b);
        let c = self.matches_layer(Coords(p.0 + dx, p.1 + dy), b);
        corner_idx(a, bb, c)
    }

    /// For each layer of the tile at `p`, bottom first as listed, the atlas
    /// cells of its four corners.
    pub fn tile_pieces(&self, p: Coords) -> (r: Vec<(Biome, CornerCells)>)
        requires
            self@.has(p),
        ensures
            r@.len() == self@.tile(p).len(),
            forall|i: int| #![trigger r@[i]] 0 <= i < r@.len() ==> {
                &&& r@[i].0 == self@.tile(p)[i]
                &&& r@[i].1 == corner_cells(|x: int, y: int| biome_probe(self@, x, y, self@.tile(p)[i]), p.0 as int, p.1 as int)
            },
    {
        let list = self.layers(p);
        let mut r: Vec<(Biome, CornerCells)> = Vec::new();
        let mut i: usize = 0;
        while i < list.len()
            invariant
                self@.has(p),
                list@ == self@.tile(p),
                i <= list@.len(),
                r@.len() == i,
                forall|j: int| #![trigger r@[j]] 0 <= j < i ==> {
                    &&& r@[j].0 == list@[j]
                    &&& r@[j].1 == corner_cells(|x: int, y: int| biome_probe(self@, x, y, list@[j]), p.0 as int, p.1 as int)
                },
            decreases list@.len() - i,
        {
            let b = list[i];
            let cells = CornerCells {
                lower_left: atlas_index(0, self.corner_index(p, b, 0)),
                upper_left: atlas_index(1, self.corner_index(p, b, 1)),
                upper_right: atlas_index(2, self.corner_index(p, b, 2)),
                lower_right: atlas_index(3, self.corner_index(p, b, 3)),
            };
            r.push((b, cells));
            i = i + 1;
        }
        r
    }
}

impl Planet {
    /// The structure probe at `q` for `kind`.
    pub fn matches_structure(&self, q: Coords, kind: StructureKind) -> (r: bool)
        ensures
            r == structure_probe(self.map@, q.0 as int, q.1 as int, kind),
            !self.map@.has(q) ==> !r,
    {
        match self.map.get(q) {
            Some(tile) => tile.structure.kind() == kind,
            None => false,
        }
    }

    /// The pattern of corner `k` of the tile at `p`, joining it with the
    /// neighbouring structures of `kind`.
    pub fn structure_corner_index(&self, p: Coords, kind: StructureKind, k: usize) -> (r: usize)
        requires
            self.map@.has(p),
            k < 4,
        ensures
            r == corner_under(|x: int, y: int| structure_probe(self.map@, x, y, kind), p.0 as int, p.1 as int, k as int),
            r <= 4,
    {
        let _ = self.map.size();
        let (dx, dy) = corner(k);
        let a = self.matches_structure(Coords(p.0 + dx, p.1), kind);
        let b = self.matches_structure(Coords(p.0, p.1 + dy), kind);
        let c = self.matches_structure(Coords(p.0 + dx, p.1 + dy), kind);
        corner_idx(a, b, c)
    }

    /// What is drawn for the structure on the tile at `p`: kinds that chain
    /// are drawn in corner pieces joined with their neighbours of the same
    /// kind, other standalone kinds as one sprite.
    pub fn structure_sprite(&self, p: Coords) -> (r: StructureSprite)
        requires
            self.map@.has(p),
        ensures
            ({
                let s = self.map@.tile(p).structure;
                r == if !s.is_standalone() {
                    StructureSprite::Nothing
                } else if !s.kind().spec_chains() {
                    StructureSprite::Whole(s.kind())
                } else {
                    StructureSprite::Pieces(s.kind(), r->Pieces_1)
                }
            }),
            r matches StructureSprite::Pieces(kind, cells) ==> cells == corner_cells(
                |x: int, y: int| structure_probe(self.map@, x, y, kind), p.0 as int, p.1 as int),
    {
        let s = self.map.at(p).structure;
        match s {
            Structure::Empty | Structure::Occupied { .. } => StructureSprite::Nothing,
            _ => {
                let kind = s.kind();
                if kind.chains() {
                    let cells = CornerCells {
                        lower_left: atlas_index(0, self.structure_corner_index(p, kind, 0)),
                        upper_left: atlas_index(1, self.structure_corner_index(p, kind, 1)),
                        upper_right: atlas_index(2, self.structure_corner_index(p, kind, 2)),
                        lower_right: atlas_index(3, self.structure_corner_index(p, kind, 3)),
                    };
                    StructureSprite::Pieces(kind, cells)
                } else {
                    StructureSprite::Whole(kind)
                }
            },
        }
    }
}

} // verus!
