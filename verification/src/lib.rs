//! Terrain from text: a parser that reads a grid of elevation levels and
//! ramps, and a builder that turns the grid into a triangle mesh with top
//! faces, cliff faces, ramp faces and flank faces.
//!
//! `text_map::parse` reads the grid and `terrain::build_mesh` builds the
//! mesh; `geometry` says what the mesh of a grid is, and `laws` and `facing`
//! hold what is proved of the two together. The mesh is in whole numbers of
//! tenths of a world unit.

pub mod facing;
pub mod geometry;
pub mod laws;
pub mod mesh;
pub mod terrain;
pub mod text;
pub mod text_map;
pub mod util;
