//! The host-side core of a small deferred 2D renderer: per-frame sprite and
//! light batches expanded into indexed quads, the texture atlas that names
//! the sprites, the letterbox that fits the fixed virtual viewport into a
//! window, and the input bindings of the game around it.
//!
//! Nothing here touches the GPU. Positions and radii are carried through as
//! values of a caller-chosen scalar type, and every number the library
//! computes itself is an exact integer or an exact fraction.

pub mod assets;
pub mod camera;
pub mod game;
pub mod gfx;
pub mod input;
pub mod name_map;
pub mod ratio;
pub mod renderer;
mod shared;
pub mod texture;
pub mod texture_atlas;
pub mod window;
