//! World model of a grid-based planet-building simulation: the tile grid,
//! structure placement with multi-tile footprints, and the compositing rules
//! (biome layers and corner autotiling) that decide what each tile shows.
pub mod geom;
pub mod defs;
pub mod planet;
pub mod layers;
pub mod autotile;
pub mod action;
pub mod info;
