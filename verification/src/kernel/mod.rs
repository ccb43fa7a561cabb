//! The render kernel: the surface state, the material system and the mesh
//! systems of the two mesh kinds.

pub mod materials;
pub mod meshes;

use vstd::prelude::*;
use crate::kernel::materials::MaterialsSystem;
use crate::kernel::materials::textures::{TextureArraySize, TextureArrayView};
use crate::kernel::meshes::MeshSystem;
use crate::kernel::meshes::resources::InstanceBuffer;

verus! {

/// Why a frame was not drawn, or was drawn on a surface that needs resizing.
#[derive(Clone, Copy, Debug, PartialEq, Eq, Structural)]
pub enum SurfaceError {
    NotConfigured,
    Timeout,
    Outdated,
    Lost,
    Occluded,
    Suboptimal,
}

/// What the surface answered when asked for the next frame's texture.
#[derive(Clone, Copy, Debug, PartialEq, Eq, Structural)]
pub enum SurfaceStatus {
    /// A texture that matches the surface.
    Success,
    /// A texture, on a surface that should be configured again.
    Suboptimal,
    Timeout,
    Outdated,
    Lost,
    Occluded,
    /// A validation error of the graphics API.
    Validation,
}

/// What the application does after a frame failed.
#[derive(Clone, Copy, Debug, PartialEq, Eq, Structural)]
pub enum Recovery {
    /// Wait for the first configuration of the surface.
    WaitForConfiguration,
    /// Skip this frame.
    SkipFrame,
    /// Configure the surface again at the window's size.
    Resize,
    /// Rebuild the surface configuration from the adapter's capabilities.
    Reconfigure,
    /// Nothing.
    Nothing,
}

impl SurfaceError {
    /// The recovery for this failure: wait while the surface is not configured,
    /// skip the frame on a timeout, resize when the surface is outdated or
    /// suboptimal, rebuild it when it is lost, and do nothing while occluded.
    pub open spec fn recovery_spec(self) -> Recovery {
        match self {
            SurfaceError::NotConfigured => Recovery::WaitForConfiguration,
            SurfaceError::Timeout => Recovery::SkipFrame,
            SurfaceError::Outdated => Recovery::Resize,
            SurfaceError::Lost => Recovery::Reconfigure,
            SurfaceError::Occluded => Recovery::Nothing,
            SurfaceError::Suboptimal => Recovery::Resize,
        }
    }

    /// The recovery for this failure.
    pub fn recovery(&self) -> (r: Recovery)
        ensures
            r == self.recovery_spec(),
    {
        match self {
            SurfaceError::NotConfigured => Recovery::WaitForConfiguration,
            SurfaceError::Timeout => Recovery::SkipFrame,
            SurfaceError::Outdated => Recovery::Resize,
            SurfaceError::Lost => Recovery::Reconfigure,
            SurfaceError::Occluded => Recovery::Nothing,
            SurfaceError::Suboptimal => Recovery::Resize,
        }
    }
}

/// `f` is the format to use among formats given by whether each is sRGB:
/// the first sRGB one, or the first one when none is.
pub open spec fn is_chosen_format(format_is_srgb: Seq<bool>, f: int) -> bool {
    &&& 0 <= f < format_is_srgb.len()
    &&& if format_is_srgb.contains(true) {
        &&& format_is_srgb[f]
        &&& forall|j: int| 0 <= j < f ==> !#[trigger] format_is_srgb[j]
    } else {
        f == 0
    }
}

/// Where a frame stands after the surface answered: drawn (and whether the
/// surface must be resized after presenting), or refused.
pub open spec fn frame_spec(configured: bool, status: SurfaceStatus) -> Result<bool, SurfaceError> {
    if !configured {
        Err(SurfaceError::NotConfigured)
    } else {
        match status {
            SurfaceStatus::Success => Ok(false),
            SurfaceStatus::Suboptimal => Ok(true),
            SurfaceStatus::Timeout => Err(SurfaceError::Timeout),
            SurfaceStatus::Outdated => Err(SurfaceError::Outdated),
            SurfaceStatus::Lost => Err(SurfaceError::Lost),
            _ => Err(SurfaceError::Occluded),
        }
    }
}

/// The render kernel: the size of the surface and whether it is configured,
/// the material system, and the mesh systems of rectangles and triangles.
pub struct Core {
    pub width: u32,
    pub height: u32,
    pub is_surface_configurated: bool,
    pub materials: MaterialsSystem,
    pub rectangle: MeshSystem,
    pub triangle: MeshSystem,
}

impl Core {
    /// A kernel for a window of `width` by `height`, whose surface is not
    /// configured yet, with empty material and mesh systems.
    pub fn new(width: u32, height: u32, rectangle_size: usize, triangle_size: usize) -> (r: Core)
        requires
            8 * rectangle_size <= usize::MAX,
            8 * triangle_size <= usize::MAX,
        ensures
            r.width == width,
            r.height == height,
            !r.is_surface_configurated,
            r.materials.wf(),
            r.materials@.consistent(),
            r.materials@.graph.allocations == Map::<usize, (TextureArraySize, usize)>::empty(),
            r.materials@.texture_arrays == Map::<TextureArraySize, TextureArrayView>::empty(),
            r.rectangle@.buffers == Seq::<InstanceBuffer>::empty(),
            r.rectangle@.heap.num_buffers() == 0,
            r.triangle@.buffers == Seq::<InstanceBuffer>::empty(),
            r.triangle@.heap.num_buffers() == 0,
            r.rectangle.wf(),
            r.rectangle@.consistent(),
            r.rectangle@.instance_size == rectangle_size,
            r.triangle.wf(),
            r.triangle@.consistent(),
            r.triangle@.instance_size == triangle_size,
    {
        Core {
            width,
            height,
            is_surface_configurated: false,
            materials: MaterialsSystem::new(),
            rectangle: MeshSystem::new(rectangle_size),
            triangle: MeshSystem::new(triangle_size),
        }
    }

    /// Takes the new size of the surface. A size with a zero side changes
    /// nothing and answers `false`; otherwise the surface takes the size, counts
    /// as configured, and the answer `true` asks the caller to configure it.
    pub fn resize_surface(&mut self, width: u32, height: u32) -> (r: bool)
        ensures
            r == (width != 0 && height != 0),
            r ==> final(self).width == width && final(self).height == height
                && final(self).is_surface_configurated,
            !r ==> final(self).width == old(self).width && final(self).height == old(self).height
                && final(self).is_surface_configurated == old(self).is_surface_configurated,
            final(self).materials == old(self).materials,
            final(self).rectangle == old(self).rectangle,
            final(self).triangle == old(self).triangle,
    {
        if width == 0 || height == 0 {
            return false;
        }
        self.width = width;
        self.height = height;
        self.is_surface_configurated = true;
        true
    }

    /// Rebuilds the surface configuration at a new size from the formats the
    /// adapter offers, given by whether each is sRGB. A size with a zero side
    /// changes nothing and answers `None`; otherwise the surface takes the size
    /// and the answer is the position of the format to use: the first sRGB
    /// one, or else the first one. Whether the surface counts as configured
    /// does not change.
    pub fn reconfigure_surface(&mut self, width: u32, height: u32, format_is_srgb: &Vec<bool>) -> (r:
        Option<usize>)
        requires
            width != 0 && height != 0 ==> format_is_srgb@.len() > 0,
        ensures
            (width == 0 || height == 0) ==> r is None && final(self).width == old(self).width
                && final(self).height == old(self).height,
            (width != 0 && height != 0) ==> (r matches Some(f) && is_chosen_format(format_is_srgb@, f as int))
                && final(self).width == width && final(self).height == height,
            final(self).is_surface_configurated == old(self).is_surface_configurated,
            final(self).materials == old(self).materials,
            final(self).rectangle == old(self).rectangle,
            final(self).triangle == old(self).triangle,
    {
        if width == 0 || height == 0 {
            return None;
        }
        let format = choose_format(format_is_srgb);
        self.width = width;
        self.height = height;
        Some(format)
    }

    /// Where a frame stands once the surface answered for its texture: the
    /// frame is refused while the surface is not configured, drawn when a
    /// texture came (answering whether the surface must be resized after
    /// presenting it), and refused with the surface's failure otherwise.
    pub fn begin_frame(&self, status: SurfaceStatus) -> (r: Result<bool, SurfaceError>)
        requires
            status != SurfaceStatus::Validation,
        ensures
            r == frame_spec(self.is_surface_configurated, status),
    {
        if !self.is_surface_configurated {
            return Err(SurfaceError::NotConfigured);
        }
        match status {
            SurfaceStatus::Success => Ok(false),
            SurfaceStatus::Suboptimal => Ok(true),
            SurfaceStatus::Timeout => Err(SurfaceError::Timeout),
            SurfaceStatus::Outdated => Err(SurfaceError::Outdated),
            SurfaceStatus::Lost => Err(SurfaceError::Lost),
            _ => Err(SurfaceError::Occluded),
        }
    }

    /// The answer for a drawn and presented frame: `Suboptimal` when the
    /// surface must be resized, else success.
    pub fn end_frame(&self, needs_resize: bool) -> (r: Result<(), SurfaceError>)
        ensures
            needs_resize ==> r == Err::<(), SurfaceError>(SurfaceError::Suboptimal),
            !needs_resize ==> r == Ok::<(), SurfaceError>(()),
    {
        if needs_resize {
            Err(SurfaceError::Suboptimal)
        } else {
            Ok(())
        }
    }
}

/// Whether a key event ends the program: a press of Escape does; any other
/// key event goes to the camera.
pub fn key_exits(is_escape: bool, is_pressed: bool) -> (r: bool)
    ensures
        r == (is_escape && is_pressed),
{
    is_escape && is_pressed
}

/// The position of the format to use: the first sRGB one, or else the first.
pub fn choose_format(format_is_srgb: &Vec<bool>) -> (r: usize)
    requires
        format_is_srgb@.len() > 0,
    ensures
        is_chosen_format(format_is_srgb@, r as int),
{
    let mut i: usize = 0;
    while i < format_is_srgb.len()
        invariant
            i <= format_is_srgb@.len(),
            forall|j: int| 0 <= j < i ==> !#[trigger] format_is_srgb@[j],
        decreases format_is_srgb@.len() - i,
    {
        if format_is_srgb[i] {
            assert(format_is_srgb@.contains(true));
            return i;
        }
        i = i + 1;
    }
    assert(!format_is_srgb@.contains(true));
    0
}

} // verus!
