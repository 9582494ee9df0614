//! A small image editor: byte-exact RGBA images, the point transforms and
//! quarter-turn rotations of the `image` crate behind stated contracts, two
//! procedural generators, and the command resolver that turns the text of a
//! command line into one operation.

mod backend;
pub mod command;
pub mod grid;
pub mod laws;
pub mod parse;
pub mod pixel;
pub mod raster;
pub mod rotation;
pub mod synth;
pub mod transform;
pub mod variables;
