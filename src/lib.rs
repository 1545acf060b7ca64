//! The integer side of a Monte Carlo path tracer: the scene's ordered list of
//! primitives and the choice of the nearest hit among them, the depth budget
//! of a light path, the reflect-or-refract choice at glass, and the plain PPM
//! text of a rendered image.
use vstd::prelude::*;

pub mod hittable;
pub mod material;
pub mod ppm;
pub mod scene;
pub mod transport;

verus! {

} // verus!
