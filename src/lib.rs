//! Integer core of a recursive path tracer: the raster that a render fills,
//! its plain-text PPM encoding, the bounce budget of the path estimator and
//! the choice of the nearest surface hit along a ray.
pub mod bounce;
pub mod image;
pub mod nearest;
pub mod ppm;
