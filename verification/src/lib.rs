//! A software solar-system renderer core: camera orbit/zoom/pan/warp state,
//! model/view/projection/viewport transform builders, and the procedural
//! per-fragment shader family for each planet.
//!
//! All scalar quantities are signed fixed-point numbers with 16 fractional
//! bits, stored in `i64` (the raw value `65536` stands for `1.0`). Every
//! executable function carries a contract that pins its result down exactly
//! over the corresponding specification functions.

pub mod fx;
pub mod sqrt;
pub mod trig;
pub mod vec3;
pub mod color;
pub mod camera;
pub mod transforms;
pub mod shaders;
pub mod celestial_body;
