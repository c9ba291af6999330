//! Deterministic generation of playable areas for a turn-based exploration
//! game: dungeons made by binary space partition and wilderness regions made
//! by thresholded noise with one smoothing pass, together with the small
//! value types of the interface around them.

pub mod bsp;
pub mod bsp_laws;
pub mod camera;
pub mod cell_key;
pub mod connectivity;
pub mod dungeon_generator;
pub mod error;
pub mod input;
pub mod navigation;
pub mod object;
pub mod random;
pub mod rect;
pub mod renderer;
pub mod tile;
pub mod ui;
pub mod wilderness_generator;
pub mod world_map;
