use vstd::prelude::*;

verus! {

/// Which way a ray leaves a dielectric surface.
#[derive(Clone, Copy, Debug, PartialEq, Eq, Structural)]
pub enum Branch {
    Reflect,
    Refract,
}

/// Chooses between reflection and refraction at a dielectric surface.
/// `cannot_refract` is true under total internal reflection; `draw_reflects`
/// is true when the random draw fell below the Schlick reflectance.
pub fn dielectric_branch(cannot_refract: bool, draw_reflects: bool) -> (r: Branch)
    ensures
        r == (if cannot_refract || draw_reflects { Branch::Reflect } else { Branch::Refract }),
{
    if cannot_refract || draw_reflects {
        Branch::Reflect
    } else {
        Branch::Refract
    }
}

} // verus!
