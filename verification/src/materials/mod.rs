//! Materials as the user sees them: images and the handles that meshes use to
//! refer to them.

pub mod textures;

use vstd::prelude::*;

verus! {

/// Where a material's image lives on the GPU: the texture array (by size-class
/// position) and the layer within it. A mesh instance carries it to its shader.
#[derive(Clone, Copy, Debug, PartialEq, Eq, Structural)]
pub struct MaterialHandle {
    pub texture_array_index: u32,
    pub texture_layer: u32,
}

} // verus!
