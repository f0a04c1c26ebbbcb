//! Verified core of a minimal tic-tac-toe game with procedurally rasterized
//! sprites.
//!
//! The library holds the pure logic: the pixel rasterizer for the grid, X
//! and O glyphs ([`draw`]), the input tracker with its device-to-normalized
//! coordinate conversion ([`input`]), and the board model and per-frame game
//! controller ([`game`]). Windowing, GPU upload and presentation are
//! external collaborators: they hand the library plain values (events,
//! window extents, opaque sprite handles) and take plain values back (pixel
//! buffers, render groups, game results).
//!
//! Normalized device coordinates appear throughout as integers in
//! thousandths (milli-NDC), and all geometry is exact integer arithmetic,
//! so every contract is precise down to the pixel.

pub mod draw;
pub mod game;
pub mod input;
