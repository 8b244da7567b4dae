//! Biomes, structures and their footprints.
use vstd::prelude::*;

use crate::geom::Coords;

verus! {

#[derive(Clone, Copy, PartialEq, Eq, Structural, Debug, Hash)]
pub enum Biome {
    Ocean,
    Mountains,
    Desert,
    Grassland,
}

impl Default for Biome {
    fn default() -> (r: Self)
        ensures
            r == Biome::Ocean,
    {
        Biome::Ocean
    }
}

/// How many tiles a structure covers.
#[derive(Clone, Copy, PartialEq, Eq, Structural, Debug, Hash)]
pub enum StructureSize {
    /// The anchor tile alone.
    Small,
    /// The anchor and the tiles right of it, above-right of it and above it.
    Middle,
}

impl StructureSize {
    /// Offsets from the anchor of the tiles covered besides the anchor.
    pub open spec fn spec_occupied_tiles(self) -> Seq<Coords> {
        match self {
            StructureSize::Small => seq![],
            StructureSize::Middle => seq![Coords(1, 0), Coords(1, 1), Coords(0, 1)],
        }
    }

    /// Whether `(dx, dy)` is one of the offsets of `spec_occupied_tiles`.
    pub open spec fn is_extra_offset(self, dx: int, dy: int) -> bool {
        match self {
            StructureSize::Small => false,
            StructureSize::Middle => (dx == 1 && dy == 0) || (dx == 1 && dy == 1) || (dx == 0 && dy == 1),
        }
    }

    /// Additional tiles occupied by a structure, relative to its anchor.
    pub fn occupied_tiles(&self) -> (r: Vec<Coords>)
        ensures
            r@ == self.spec_occupied_tiles(),
    {
        match self {
            StructureSize::Small => Vec::new(),
            StructureSize::Middle => {
                let mut v: Vec<Coords> = Vec::new();
                v.push(Coords(1, 0));
                v.push(Coords(1, 1));
                v.push(Coords(0, 1));
                proof {
                    assert(v@ =~= self.spec_occupied_tiles());
                }
                v
            },
        }
    }

    /// The offsets listed by `spec_occupied_tiles` are exactly those that
    /// `is_extra_offset` admits.
    pub proof fn lemma_offsets(self)
        ensures
            forall|i: int| 0 <= i < self.spec_occupied_tiles().len() ==>
                self.is_extra_offset(#[trigger] self.spec_occupied_tiles()[i].0 as int, self.spec_occupied_tiles()[i].1 as int),
            forall|dx: int, dy: int| #[trigger] self.is_extra_offset(dx, dy) ==>
                exists|i: int| 0 <= i < self.spec_occupied_tiles().len()
                    && self.spec_occupied_tiles()[i].0 == dx && self.spec_occupied_tiles()[i].1 == dy,
            self.spec_occupied_tiles().len() <= 3,
    {
        let offs = self.spec_occupied_tiles();
        assert forall|dx: int, dy: int| #[trigger] self.is_extra_offset(dx, dy) implies
            exists|i: int| 0 <= i < offs.len() && offs[i].0 == dx && offs[i].1 == dy by {
            if dx == 1 && dy == 0 {
                assert(offs[0].0 == dx && offs[0].1 == dy);
            } else if dx == 1 && dy == 1 {
                assert(offs[1].0 == dx && offs[1].1 == dy);
            } else {
                assert(offs[2].0 == dx && offs[2].1 == dy);
            }
        }
    }
}

impl Default for StructureSize {
    fn default() -> (r: Self)
        ensures
            r == StructureSize::Small,
    {
        StructureSize::Small
    }
}

#[derive(Clone, Copy, PartialEq, Eq, Structural, Debug, Hash)]
pub enum LandFeature {
    Empty,
    Oil,
    Lime,
    Iron,
}

/// What stands on a tile.
#[derive(Clone, Copy, PartialEq, Eq, Structural, Debug, Hash)]
pub enum Structure {
    Empty,
    /// Covered by the multi-tile structure anchored at `by`.
    Occupied { by: Coords },
    Branch,
    Core,
    GathererDroneHub,
    CombatDroneHub,
    PhotosynthesisModule,
    SiliconChemModule,
    MiningModule,
}

/// The variant of a `Structure` without its data.
#[derive(Clone, Copy, PartialEq, Eq, Structural, Debug, Hash)]
pub enum StructureKind {
    Empty,
    Occupied,
    Branch,
    Core,
    GathererDroneHub,
    CombatDroneHub,
    PhotosynthesisModule,
    SiliconChemModule,
    MiningModule,
}

impl Structure {
    pub open spec fn spec_kind(&self) -> StructureKind {
        match self {
            Structure::Empty => StructureKind::Empty,
            Structure::Occupied { .. } => StructureKind::Occupied,
            Structure::Branch => StructureKind::Branch,
            Structure::Core => StructureKind::Core,
            Structure::GathererDroneHub => StructureKind::GathererDroneHub,
            Structure::CombatDroneHub => StructureKind::CombatDroneHub,
            Structure::PhotosynthesisModule => StructureKind::PhotosynthesisModule,
            Structure::SiliconChemModule => StructureKind::SiliconChemModule,
            Structure::MiningModule => StructureKind::MiningModule,
        }
    }

    /// A structure that can stand on its own anchor tile: neither empty
    /// ground nor part of another structure's footprint.
    pub open spec fn is_standalone(self) -> bool {
        !(self is Empty) && !(self is Occupied)
    }

    #[verifier::when_used_as_spec(spec_kind)]
    pub fn kind(&self) -> (r: StructureKind)
        ensures
            r == self.spec_kind(),
    {
        match self {
            Structure::Empty => StructureKind::Empty,
            Structure::Occupied { .. } => StructureKind::Occupied,
            Structure::Branch => StructureKind::Branch,
            Structure::Core => StructureKind::Core,
            Structure::GathererDroneHub => StructureKind::GathererDroneHub,
            Structure::CombatDroneHub => StructureKind::CombatDroneHub,
            Structure::PhotosynthesisModule => StructureKind::PhotosynthesisModule,
            Structure::SiliconChemModule => StructureKind::SiliconChemModule,
            Structure::MiningModule => StructureKind::MiningModule,
        }
    }
}

impl StructureKind {
    pub open spec fn spec_chains(&self) -> bool {
        self is Branch
    }

    /// Whether pieces of this kind join their neighbours of the same kind
    /// when drawn (corner blending), rather than being drawn as one sprite.
    #[verifier::when_used_as_spec(spec_chains)]
    pub fn chains(&self) -> (r: bool)
        ensures
            r == self.spec_chains(),
    {
        matches!(self, StructureKind::Branch)
    }
}

/// Drawing and footprint attributes of a structure kind.
#[derive(Clone, Copy, PartialEq, Eq, Structural, Debug)]
pub struct StructureAttrs {
    pub size: StructureSize,
    pub width: u32,
    pub height: u32,
    pub columns: usize,
    pub rows: usize,
}

} // verus!
