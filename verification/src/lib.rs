//! An ambient, interactive particle animation core: two pools of decaying,
//! respawning points drift toward the pointer and a loosely tracking
//! character node, a world camera keeps them near the visible centre, and a
//! software rasterizer draws every frame into an off-screen pixel surface.
//!
//! All quantities are Q16.16 fixed-point integers; every update and every
//! drawing operation carries a proved contract. Randomness enters only
//! through the wrappers in `rng`, and every consumer takes the drawn values
//! as plain arguments, so the simulation is verified for every draw.

pub mod camera;
pub mod clock;
pub mod ctx;
pub mod driver;
pub mod fixed;
pub mod geom;
pub mod raster;
pub mod rng;
pub mod scene;
pub mod sim;
