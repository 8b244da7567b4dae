//! What a click on a tile does, depending on the tool in hand.
use vstd::prelude::*;

use crate::defs::{Biome, Structure, StructureKind, StructureSize};
use crate::geom::Coords;
use crate::planet::{can_place, placed, Planet, Tile};

verus! {

/// The tool that a click on the map applies.
#[derive(Clone, Copy, PartialEq, Eq, Structural, Debug)]
pub enum CursorMode {
    /// Inspect only.
    Normal,
    /// Paint the clicked tile with a biome.
    EditBiome(Biome),
    /// Build a structure of a kind on the clicked tile.
    Build(StructureKind),
}

impl Default for CursorMode {
    fn default() -> (r: Self)
        ensures
            r == CursorMode::Normal,
    {
        CursorMode::Normal
    }
}

impl CursorMode {
    /// Building is available for branches only; `Build(Empty)` does nothing.
    pub open spec fn is_supported(self) -> bool {
        self matches CursorMode::Build(k) ==> (k is Empty || k is Branch)
    }
}

/// Applies the tool `mode` to the tile at `coords`: paints its biome, or
/// builds a branch there if the tile is free; inspecting changes nothing.
pub fn cursor_action(planet: &mut Planet, mode: CursorMode, coords: Coords)
    requires
        old(planet).wf(),
        old(planet).map@.has(coords),
        mode.is_supported(),
    ensures
        final(planet).wf(),
        final(planet).tick == old(planet).tick,
        final(planet).player == old(planet).player,
        final(planet).map@ == (match mode {
            CursorMode::EditBiome(b) => old(planet).map@.set(coords, Tile { biome: b, ..old(planet).map@.tile(coords) }),
            CursorMode::Build(StructureKind::Branch) => if can_place(old(planet).map@, coords, StructureSize::Small) {
                placed(old(planet).map@, coords, StructureSize::Small, Structure::Branch)
            } else {
                old(planet).map@
            },
            _ => old(planet).map@,
        }),
{
    match mode {
        CursorMode::Normal => {},
        CursorMode::EditBiome(b) => {
            planet.edit_biome(coords, b);
        },
        CursorMode::Build(kind) => {
            if matches!(kind, StructureKind::Branch) {
                planet.try_place(coords, StructureSize::Small, Structure::Branch);
            }
        },
    }
}

} // verus!
