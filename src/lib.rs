//! Decision logic of a sphere ray tracer: which root and which object a ray
//! hits, how a surface scatters, when a path ends, the order of pixels and the
//! plain-text image encoding. Ray parameters are handled as order-preserving
//! integer codes of their single-precision bit patterns.

pub mod interval;
pub mod param;
pub mod scene;
pub mod material;
pub mod trace;
pub mod raster;
pub mod ppm;
