use vstd::prelude::*;

verus! {

/// The uniform distribution over all directions, used for scattering inside
/// participating media. Its density and sampling are evaluated in floating
/// point by the renderer.
#[derive(Debug)]
pub struct SpherePdf {}

impl SpherePdf {
    pub fn new() -> SpherePdf {
        SpherePdf {}
    }
}

/// Schlick's reflectance curve, the default one of dielectric materials.
#[derive(Debug, Clone)]
pub struct Glass {}

} // verus!
