//! The living terrain of a 2D platform game.
//!
//! A level is a grid of 128 x 128 voxels, read from an image of four palette
//! colours. While the level is played, a cellular automaton grows and shrinks
//! the terrain tick by tick; it leaves alone the ground near the player and
//! the voxels of the finish markers. After every tick the terrain is handed
//! to the physics engine as the coordinates of its solid voxels, and to the
//! renderer as a texture.
//!
//! - [`cells`]: sets of cells, the model that the contracts speak of.
//! - [`grid`]: the bit grid that stores one layer of voxels.
//! - [`terrain`]: the terrain and the kill zones, and the count of finishes.
//! - [`decode`]: reading a level from its image.
//! - [`automaton`]: the rule of the automaton and one tick of it.
//! - [`texture`]: the image that the renderer receives.
//! - [`levels`], [`screens`]: the states that the game moves through.
//! - [`tooltip`]: cutting the text of a tooltip into words.

pub mod automaton;
pub mod cells;
pub mod decode;
pub mod grid;
pub mod levels;
pub mod screens;
pub mod terrain;
pub mod texture;
pub mod tooltip;
