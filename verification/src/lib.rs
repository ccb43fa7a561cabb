//! Candybox-GFX: the resource bookkeeping of a small GPU rendering engine.
//!
//! The library holds the decisions of the engine: the texture-array size
//! classes, the layer allocator of the material system, the instance-buffer
//! heap of the mesh system, the command planners of both systems and the
//! surface state of the render kernel. Every GPU call is made by the caller,
//! which executes the commands that the planners return.

pub mod ids;
pub mod materials;
mod seq_facts;
pub mod kernel;

pub use ids::UuidCounter;
pub use materials::MaterialHandle;
pub use kernel::materials::memory_graph::{
    GraphError, GraphEvent, MemoryGraph, MemoryGraphView, MemoryNodeView,
};
pub use kernel::materials::textures::{TextureArraySize, TextureError};
pub use kernel::meshes::buffers::{BufferError, BufferUUID};
pub use kernel::meshes::memory_heap::{HeapError, HeapEvent, MemoryHeap, MemoryHeapView};
pub use kernel::{Core, Recovery, SurfaceError, SurfaceStatus};
pub use kernel::materials::{MaterialCommand, MaterialError, MaterialsSystem};
pub use kernel::meshes::{MeshCommand, MeshError, MeshSystem};
pub use materials::textures::{Texture, TextureUUID};
