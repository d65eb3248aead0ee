//! Verified state and rendering logic for multi-user cursor display on a
//! shared 2D canvas.
//!
//! The library keeps a map from user identifier to a cursor coordinate and
//! turns each snapshot of that map into an explicit list of draw commands
//! (clear the surface, then one icon blit per user). The embedding layer
//! executes those commands against the host drawing surface.

pub mod positions;
pub mod render;
