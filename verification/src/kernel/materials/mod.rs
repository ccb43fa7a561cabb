//! The material system: texture arrays by size class and their layers.

pub mod memory_graph;
pub mod resources;
pub mod textures;

use vstd::prelude::*;
use crate::kernel::materials::memory_graph::{
    GraphError, GraphEvent, MemoryGraph, MemoryGraphView, MAX_LAYERS, valid_capacity, lemma_owned_after_insert,
    lemma_owned_after_remove,
};
use crate::kernel::materials::resources::{BindingSource, Resources, binding_source};
use crate::kernel::materials::textures::{
    TextureArraySize, TextureArrayView, TextureError, TextureWrite, image_write, num_size_classes,
};
use crate::materials::MaterialHandle;
use crate::seq_facts::{lemma_filter_members, lemma_push_members};

verus! {

/// GPU work that the material system asks of its caller. After creating,
/// scaling or deleting a texture array the caller rebuilds the material bind
/// group from `Resources::bind_group_entries`.
#[derive(Debug, PartialEq, Eq)]
pub enum MaterialCommand {
    /// Create the texture array of a size class with 8 layers.
    CreateTextureArray { texture_array_size: TextureArraySize },
    /// Replace the texture array of a size class by one of twice the layers,
    /// copying the listed layers over.
    ScaleTextureArray { texture_array_size: TextureArraySize, active_layers: Vec<usize> },
    /// Drop the texture array of a size class.
    DeleteTextureArray { texture_array_size: TextureArraySize },
    /// Write the material's image as placed by `write`.
    WriteImage { texture_array_size: TextureArraySize, write: TextureWrite },
    /// Write transparent pixels as placed by `write`.
    ClearImage { texture_array_size: TextureArraySize, write: TextureWrite },
}

/// Abstract form of a `MaterialCommand`.
pub enum MaterialCommandView {
    CreateTextureArray { texture_array_size: TextureArraySize },
    ScaleTextureArray { texture_array_size: TextureArraySize, active_layers: Seq<usize> },
    DeleteTextureArray { texture_array_size: TextureArraySize },
    WriteImage { texture_array_size: TextureArraySize, write: TextureWrite },
    ClearImage { texture_array_size: TextureArraySize, write: TextureWrite },
}

impl View for MaterialCommand {
    type V = MaterialCommandView;

    open spec fn view(&self) -> MaterialCommandView {
        match self {
            MaterialCommand::CreateTextureArray { texture_array_size } => {
                MaterialCommandView::CreateTextureArray { texture_array_size: *texture_array_size }
            },
            MaterialCommand::ScaleTextureArray { texture_array_size, active_layers } => {
                MaterialCommandView::ScaleTextureArray {
                    texture_array_size: *texture_array_size,
                    active_layers: active_layers@,
                }
            },
            MaterialCommand::DeleteTextureArray { texture_array_size } => {
                MaterialCommandView::DeleteTextureArray { texture_array_size: *texture_array_size }
            },
            MaterialCommand::WriteImage { texture_array_size, write } => {
                MaterialCommandView::WriteImage { texture_array_size: *texture_array_size, write: *write }
            },
            MaterialCommand::ClearImage { texture_array_size, write } => {
                MaterialCommandView::ClearImage { texture_array_size: *texture_array_size, write: *write }
            },
        }
    }
}

/// The abstract form of a list of commands.
pub open spec fn commands_view(commands: Seq<MaterialCommand>) -> Seq<MaterialCommandView> {
    commands.map_values(|c: MaterialCommand| c@)
}

/// Refusals of the material system.
#[derive(Clone, Copy, Debug, PartialEq, Eq)]
pub enum MaterialError {
    /// A material with the identifier exists already.
    MemoryOccupied { material_uuid: usize },
    /// No material has the identifier.
    SegmentationFault { material_uuid: usize },
    /// The layer allocator refused.
    GraphError(GraphError),
    /// The texture bookkeeping refused.
    TextureError(TextureError),
}

/// The material system: the layer allocator, the texture arrays, and for each
/// size class the layers in use, which are copied when its array grows.
pub struct MaterialsSystem {
    memory_graph: MemoryGraph,
    cow_data: Vec<Vec<usize>>,
    resources: Resources,
}

/// Abstract state of the material system.
#[verifier::ext_equal]
pub struct MaterialsSystemView {
    pub graph: MemoryGraphView,
    pub cow_data: Seq<Seq<usize>>,
    pub texture_arrays: Map<TextureArraySize, TextureArrayView>,
}

impl View for MaterialsSystem {
    type V = MaterialsSystemView;

    closed spec fn view(&self) -> MaterialsSystemView {
        MaterialsSystemView {
            graph: self.memory_graph@,
            cow_data: Seq::new(self.cow_data@.len(), |i: int| self.cow_data@[i]@),
            texture_arrays: self.resources@,
        }
    }
}

/// Holds of every layer but `layer`.
pub open spec fn other_than(layer: usize) -> spec_fn(usize) -> bool {
    |x: usize| x != layer
}

impl MaterialsSystemView {
    /// Layers in use in the array of size class `s`, in the order they were taken.
    pub open spec fn active_layers(self, s: TextureArraySize) -> Seq<usize> {
        self.cow_data[s.index_spec() as int]
    }

    /// The invariant of the material system: the allocator is consistent, a
    /// texture array exists exactly for the size classes the allocator knows,
    /// with the same layer capacity and layers of the class's side, and the
    /// list of layers in use of each class holds each owned layer once.
    pub open spec fn consistent(self) -> bool {
        &&& self.graph.consistent()
        &&& self.cow_data.len() == num_size_classes()
        &&& forall|s: TextureArraySize| #[trigger]
            self.graph.nodes.contains_key(s) == self.texture_arrays.contains_key(s)
        &&& forall|s: TextureArraySize| #[trigger]
            self.texture_arrays.contains_key(s) ==> {
                &&& self.texture_arrays[s].max_layers_count == self.graph.nodes[s].capacity
                &&& valid_capacity(self.graph.nodes[s].capacity)
                &&& self.texture_arrays[s].dimensions == (s.side_spec() as u32, s.side_spec() as u32)
            }
        &&& forall|s: TextureArraySize| #[trigger] self.active_layers(s).no_duplicates()
        &&& forall|s: TextureArraySize, l: usize| #[trigger]
            self.active_layers(s).contains(l) <==> self.graph.layer_owned(s, l)
    }

    /// The list of layers in use of class `s` without layer `layer`.
    pub open spec fn active_without(self, s: TextureArraySize, layer: usize) -> Seq<usize> {
        self.active_layers(s).filter(other_than(layer))
    }

    /// The state after, the commands of, and the answer of `delete_material(uuid)`.
    pub open spec fn delete_material_spec(self, uuid: usize) -> (
        MaterialsSystemView,
        Seq<MaterialCommandView>,
        Result<(), MaterialError>,
    ) {
        if !self.graph.allocations.contains_key(uuid) {
            (self, Seq::empty(), Err(MaterialError::SegmentationFault { material_uuid: uuid }))
        } else {
            let (s, l) = self.graph.allocations[uuid];
            let g = self.graph.deallocate_spec(uuid).0;
            let clear = MaterialCommandView::ClearImage {
                texture_array_size: s,
                write: image_write(l as u32, self.texture_arrays[s].dimensions),
            };
            let cow = self.cow_data.update(s.index_spec() as int, self.active_without(s, l));
            if !g.has_allocation_of(s) {
                (
                    MaterialsSystemView {
                        graph: g.drop_spec(s).0,
                        cow_data: cow,
                        texture_arrays: self.texture_arrays.remove(s),
                    },
                    seq![clear, MaterialCommandView::DeleteTextureArray { texture_array_size: s }],
                    Ok(()),
                )
            } else {
                (MaterialsSystemView { graph: g, cow_data: cow, ..self }, seq![clear], Ok(()))
            }
        }
    }

    /// The commands and the answer of `update_material(uuid, dimensions)`,
    /// which changes no state.
    pub open spec fn update_material_spec(self, uuid: usize, dimensions: (u32, u32)) -> (
        Seq<MaterialCommandView>,
        Result<(), MaterialError>,
    ) {
        if !self.graph.allocations.contains_key(uuid) {
            (Seq::empty(), Err(MaterialError::SegmentationFault { material_uuid: uuid }))
        } else {
            let (s, l) = self.graph.allocations[uuid];
            let d = TextureArraySize::max_dimension(dimensions);
            if d > 8192 || TextureArraySize::for_dimension(d as int) != s {
                (
                    Seq::empty(),
                    Err(
                        MaterialError::TextureError(
                            TextureError::UnexpectedDimensions {
                                expected: (s.side_spec() as u32, s.side_spec() as u32),
                                found: dimensions,
                            },
                        ),
                    ),
                )
            } else {
                (
                    seq![
                        MaterialCommandView::WriteImage {
                            texture_array_size: s,
                            write: image_write(l as u32, dimensions),
                        },
                    ],
                    Ok(()),
                )
            }
        }
    }

    /// What `get_material_handle(uuid)` answers.
    pub open spec fn material_handle_spec(self, uuid: usize) -> Result<MaterialHandle, MaterialError> {
        if !self.graph.allocations.contains_key(uuid) {
            Err(MaterialError::SegmentationFault { material_uuid: uuid })
        } else {
            let (s, l) = self.graph.allocations[uuid];
            Ok(MaterialHandle { texture_array_index: s.index_spec() as u32, texture_layer: l as u32 })
        }
    }

    /// The state after, the commands of, and the answer of
    /// `add_material(uuid, dimensions)`.
    pub open spec fn add_material_spec(self, uuid: usize, dimensions: (u32, u32)) -> (
        MaterialsSystemView,
        Seq<MaterialCommandView>,
        Result<(), MaterialError>,
    ) {
        let d = TextureArraySize::max_dimension(dimensions);
        let s = TextureArraySize::for_dimension(d as int);
        let side = s.side_spec() as u32;
        if d > 8192 {
            (
                self,
                Seq::empty(),
                Err(MaterialError::TextureError(TextureError::DimensionsOutOfBounds { dimensions })),
            )
        } else if self.graph.allocations.contains_key(uuid) {
            (self, Seq::empty(), Err(MaterialError::MemoryOccupied { material_uuid: uuid }))
        } else if !self.graph.nodes.contains_key(s) {
            let g = self.graph.expand_spec(s).0.allocate_spec(uuid, s).0;
            (
                MaterialsSystemView {
                    graph: g,
                    cow_data: self.cow_data.update(s.index_spec() as int, self.active_layers(s).push(0)),
                    texture_arrays: self.texture_arrays.insert(
                        s,
                        TextureArrayView { max_layers_count: 8, dimensions: (side, side) },
                    ),
                },
                seq![
                    MaterialCommandView::CreateTextureArray { texture_array_size: s },
                    MaterialCommandView::WriteImage { texture_array_size: s, write: image_write(0, dimensions) },
                ],
                Ok(()),
            )
        } else if !self.graph.nodes[s].is_full() {
            let l = self.graph.nodes[s].next_layer();
            (
                MaterialsSystemView {
                    graph: self.graph.allocate_spec(uuid, s).0,
                    cow_data: self.cow_data.update(s.index_spec() as int, self.active_layers(s).push(l)),
                    ..self
                },
                seq![
                    MaterialCommandView::WriteImage {
                        texture_array_size: s,
                        write: image_write(l as u32, dimensions),
                    },
                ],
                Ok(()),
            )
        } else if self.graph.nodes[s].capacity >= MAX_LAYERS {
            (self, Seq::empty(), Err(MaterialError::GraphError(GraphError::OutOfGPUMemory)))
        } else {
            let l = self.graph.nodes[s].len as usize;
            let t = self.texture_arrays[s];
            (
                MaterialsSystemView {
                    graph: self.graph.scale_spec(s).0.allocate_spec(uuid, s).0,
                    cow_data: self.cow_data.update(s.index_spec() as int, self.active_layers(s).push(l)),
                    texture_arrays: self.texture_arrays.insert(
                        s,
                        TextureArrayView { max_layers_count: 2 * t.max_layers_count, ..t },
                    ),
                },
                seq![
                    MaterialCommandView::ScaleTextureArray {
                        texture_array_size: s,
                        active_layers: self.active_layers(s),
                    },
                    MaterialCommandView::WriteImage {
                        texture_array_size: s,
                        write: image_write(l as u32, dimensions),
                    },
                ],
                Ok(()),
            )
        }
    }
}

impl MaterialsSystem {
    /// The component tables have one entry per size class.
    pub closed spec fn wf(&self) -> bool {
        &&& self.memory_graph.wf()
        &&& self.resources.wf()
        &&& self.cow_data@.len() == num_size_classes()
    }

    /// Records that layer `layer` of size class `s` is in use.
    fn push_active_layer(&mut self, s: &TextureArraySize, layer: usize)
        requires
            old(self).wf(),
        ensures
            final(self).wf(),
            final(self)@ == (MaterialsSystemView {
                cow_data: old(self)@.cow_data.update(
                    s.index_spec() as int,
                    old(self)@.active_layers(*s).push(layer),
                ),
                ..old(self)@
            }),
    {
        let ghost old_view = self@;
        let idx = s.to_index();
        self.cow_data[idx].push(layer);
        assert(self@.cow_data =~= old_view.cow_data.update(idx as int, old_view.active_layers(*s).push(layer)));
    }

    /// Creates the allocator node and the texture array of a size class.
    fn expand_memory(&mut self, texture_array_size: &TextureArraySize) -> (r: Result<(), TextureError>)
        requires
            old(self).wf(),
            old(self)@.consistent(),
            !old(self)@.graph.nodes.contains_key(*texture_array_size),
        ensures
            final(self).wf(),
            r is Ok,
            final(self)@.graph == old(self)@.graph.expand_spec(*texture_array_size).0,
            final(self)@.cow_data == old(self)@.cow_data,
            final(self)@.texture_arrays == old(self)@.texture_arrays.insert(
                *texture_array_size,
                TextureArrayView {
                    max_layers_count: 8,
                    dimensions: (
                        texture_array_size.side_spec() as u32,
                        texture_array_size.side_spec() as u32,
                    ),
                },
            ),
    {
        let _ = self.memory_graph.expand_memory(texture_array_size);
        let added = self.resources.add_texture_array(texture_array_size);
        match added {
            Ok(()) => Ok(()),
            Err(error) => Err(error),
        }
    }

    /// Doubles the allocator capacity and the texture array of a size class,
    /// and answers the layers in use, which the new texture must receive.
    fn scale_memory(&mut self, texture_array_size: &TextureArraySize) -> (r: Result<Vec<usize>, GraphError>)
        requires
            old(self).wf(),
            old(self)@.consistent(),
            old(self)@.graph.nodes.contains_key(*texture_array_size),
        ensures
            final(self).wf(),
            old(self)@.graph.nodes[*texture_array_size].capacity >= MAX_LAYERS ==> {
                &&& r == Err::<Vec<usize>, GraphError>(GraphError::OutOfGPUMemory)
                &&& final(self)@ == old(self)@
            },
            old(self)@.graph.nodes[*texture_array_size].capacity < MAX_LAYERS ==> {
                let t = old(self)@.texture_arrays[*texture_array_size];
                &&& r matches Ok(active) && active@ == old(self)@.active_layers(*texture_array_size)
                &&& final(self)@.graph == old(self)@.graph.scale_spec(*texture_array_size).0
                &&& final(self)@.cow_data == old(self)@.cow_data
                &&& final(self)@.texture_arrays == old(self)@.texture_arrays.insert(
                    *texture_array_size,
                    TextureArrayView { max_layers_count: 2 * t.max_layers_count, ..t },
                )
            },
    {
        match self.memory_graph.scale_memory(texture_array_size) {
            Ok(()) => {},
            Err(error) => {
                return Err(error);
            },
        }
        let active_layers = self.cow_data[texture_array_size.to_index()].clone();
        let _ = self.resources.scale_texture_array(texture_array_size);
        Ok(active_layers)
    }

    /// Adds a material whose image has the given `(width, height)`: it takes a
    /// layer in the texture array of the smallest size class that holds the
    /// image, creating the array or doubling it when needed. Answers the GPU
    /// work to do, ending with the write of the image.
    pub fn add_material(&mut self, material_uuid: usize, image_dimensions: (u32, u32)) -> (r: (
        Vec<MaterialCommand>,
        Result<(), MaterialError>,
    ))
        requires
            old(self).wf(),
            old(self)@.consistent(),
        ensures
            final(self).wf(),
            final(self)@.consistent(),
            final(self)@ == old(self)@.add_material_spec(material_uuid, image_dimensions).0,
            commands_view(r.0@) == old(self)@.add_material_spec(material_uuid, image_dimensions).1,
            r.1 == old(self)@.add_material_spec(material_uuid, image_dimensions).2,
    {
        let ghost old_view = self@;
        let texture_array_size = match TextureArraySize::from_dimensions(image_dimensions) {
            Ok(size) => size,
            Err(error) => {
                return (Vec::new(), Err(MaterialError::TextureError(error)));
            },
        };
        let ghost s = texture_array_size;
        let mut commands: Vec<MaterialCommand> = Vec::new();
        let mut allocation = self.memory_graph.allocate_memory(material_uuid, &texture_array_size);
        match allocation {
            Err(GraphError::TextureArrayNotFound) => {
                let _ = self.expand_memory(&texture_array_size);
                commands.push(MaterialCommand::CreateTextureArray { texture_array_size });
                allocation = self.memory_graph.allocate_memory(material_uuid, &texture_array_size);
            },
            Err(GraphError::OutOfMemmory) => {
                match self.scale_memory(&texture_array_size) {
                    Ok(active_layers) => {
                        commands.push(
                            MaterialCommand::ScaleTextureArray { texture_array_size, active_layers },
                        );
                        allocation = self.memory_graph.allocate_memory(material_uuid, &texture_array_size);
                    },
                    Err(error) => {
                        assert(commands_view(commands@) =~= Seq::<MaterialCommandView>::empty());
                        return (commands, Err(MaterialError::GraphError(error)));
                    },
                }
            },
            _ => {},
        }
        let ghost before_layer = self@;
        match allocation {
            Ok(GraphEvent::MemoryAllocated { texture_layer }) => {
                proof {
                    let g = self@.graph;
                    assert(g.allocations.contains_key(material_uuid));
                    assert(g.allocations[material_uuid] == (s, texture_layer));
                }
                let write = match self.resources.get_texture_array(&texture_array_size) {
                    Ok(texture_array) => {
                        match texture_array.load_image(texture_layer as u32, image_dimensions) {
                            Ok(write) => write,
                            Err(error) => {
                                return (commands, Err(MaterialError::TextureError(error)));
                            },
                        }
                    },
                    Err(error) => {
                        return (commands, Err(MaterialError::TextureError(error)));
                    },
                };
                commands.push(MaterialCommand::WriteImage { texture_array_size, write });
                self.push_active_layer(&texture_array_size, texture_layer);
                proof {
                    let v = self@;
                    let g0 = old_view.graph;
                    let g1 = before_layer.graph;
                    // the graph before this allocation, after any expand or scale
                    let gm = if !g0.nodes.contains_key(s) {
                        g0.expand_spec(s).0
                    } else if g0.nodes[s].is_full() {
                        g0.scale_spec(s).0
                    } else {
                        g0
                    };
                    assert(g1 == gm.allocate_spec(material_uuid, s).0);
                    lemma_owned_after_insert(gm, g1, material_uuid, s, texture_layer);
                    assert(!gm.layer_owned(s, texture_layer)) by {
                        if gm.layer_owned(s, texture_layer) {
                            let t = choose|t: usize| #[trigger]
                                gm.allocations.contains_key(t) && gm.allocations[t] == (s, texture_layer);
                            assert(g1.allocations[t] == (s, texture_layer));
                            assert(g1.allocations[material_uuid] == (s, texture_layer));
                            assert(t != material_uuid);
                        }
                    }
                    TextureArraySize::lemma_index_injective();
                    assert(gm.allocations == g0.allocations);
                    assert(v.graph == g1);
                    assert forall|s2: TextureArraySize| #[trigger] v.active_layers(s2).no_duplicates() by {
                        if s2 == s {
                            assert(gm.layer_owned(s, texture_layer) == g0.layer_owned(s, texture_layer));
                            assert(!old_view.active_layers(s).contains(texture_layer));
                            lemma_push_members(old_view.active_layers(s), texture_layer);
                        } else {
                            assert(v.active_layers(s2) == old_view.active_layers(s2));
                        }
                    }
                    assert forall|s2: TextureArraySize, l: usize| #[trigger]
                        v.active_layers(s2).contains(l) <==> v.graph.layer_owned(s2, l) by {
                        assert(gm.layer_owned(s2, l) == g0.layer_owned(s2, l));
                        if s2 != s {
                            assert(v.active_layers(s2) == old_view.active_layers(s2));
                        }
                        if s2 == s {
                            lemma_push_members(old_view.active_layers(s), texture_layer);
                        }
                    }
                    assert(v =~= old_view.add_material_spec(material_uuid, image_dimensions).0);
                    assert(commands_view(commands@) =~= old_view.add_material_spec(
                        material_uuid,
                        image_dimensions,
                    ).1);
                }
                (commands, Ok(()))
            },
            Ok(_) => (commands, Err(MaterialError::GraphError(GraphError::TextureArrayNotFound))),
            Err(GraphError::MemoryOccupied { memory_segment_token }) => {
                assert(commands_view(commands@) =~= Seq::<MaterialCommandView>::empty());
                (commands, Err(MaterialError::MemoryOccupied { material_uuid: memory_segment_token }))
            },
            Err(error) => (commands, Err(MaterialError::GraphError(error))),
        }
    }

    /// Records that layer `layer` of size class `s` is no longer in use.
    fn remove_active_layer(&mut self, s: &TextureArraySize, layer: usize)
        requires
            old(self).wf(),
        ensures
            final(self).wf(),
            final(self)@ == (MaterialsSystemView {
                cow_data: old(self)@.cow_data.update(
                    s.index_spec() as int,
                    old(self)@.active_without(*s, layer),
                ),
                ..old(self)@
            }),
    {
        let ghost old_view = self@;
        let ghost pred = other_than(layer);
        let idx = s.to_index();
        let mut kept: Vec<usize> = Vec::new();
        let mut i: usize = 0;
        while i < self.cow_data[idx].len()
            invariant
                self.wf(),
                self@ == old_view,
                idx == s.index_spec(),
                pred == other_than(layer),
                i <= self.cow_data@[idx as int]@.len(),
                kept@ == self.cow_data@[idx as int]@.take(i as int).filter(pred),
            decreases self.cow_data@[idx as int]@.len() - i,
        {
            let x = self.cow_data[idx][i];
            let ghost cur = self.cow_data@[idx as int]@;
            proof {
                assert(cur.take(i + 1) =~= cur.take(i as int).push(x));
                cur.take(i as int).lemma_filter_push(x, pred);
            }
            if x != layer {
                kept.push(x);
            }
            i = i + 1;
        }
        proof {
            let cur = self.cow_data@[idx as int]@;
            assert(cur.take(i as int) =~= cur);
        }
        self.cow_data.set(idx, kept);
        assert(self@.cow_data =~= old_view.cow_data.update(idx as int, old_view.active_without(*s, layer)));
    }

    /// Deletes a material: its layer is cleared and given back, and the texture
    /// array of its size class is dropped when no material is left in it.
    /// Answers the GPU work to do.
    pub fn delete_material(&mut self, material_uuid: usize) -> (r: (
        Vec<MaterialCommand>,
        Result<(), MaterialError>,
    ))
        requires
            old(self).wf(),
            old(self)@.consistent(),
        ensures
            final(self).wf(),
            final(self)@.consistent(),
            final(self)@ == old(self)@.delete_material_spec(material_uuid).0,
            commands_view(r.0@) == old(self)@.delete_material_spec(material_uuid).1,
            r.1 == old(self)@.delete_material_spec(material_uuid).2,
    {
        let ghost old_view = self@;
        let mut commands: Vec<MaterialCommand> = Vec::new();
        let (texture_array_size, texture_layer) = match self.memory_graph.deallocate_memory(material_uuid) {
            Ok(GraphEvent::MemoryDeallocated { texture_array_size, texture_layer }) => (
                texture_array_size,
                texture_layer,
            ),
            Ok(_) => {
                return (commands, Err(MaterialError::GraphError(GraphError::TextureArrayNotFound)));
            },
            Err(GraphError::MemorySegmentNotFound { memory_segment_token: _ }) => {
                assert(commands_view(commands@) =~= Seq::<MaterialCommandView>::empty());
                return (commands, Err(MaterialError::SegmentationFault { material_uuid }));
            },
            Err(error) => {
                return (commands, Err(MaterialError::GraphError(error)));
            },
        };
        let ghost s = texture_array_size;
        let ghost g1 = self@.graph;
        let write = match self.resources.get_texture_array(&texture_array_size) {
            Ok(texture_array) => match texture_array.clear_image(texture_layer as u32) {
                Ok(write) => write,
                Err(error) => {
                    return (commands, Err(MaterialError::TextureError(error)));
                },
            },
            Err(error) => {
                return (commands, Err(MaterialError::TextureError(error)));
            },
        };
        commands.push(MaterialCommand::ClearImage { texture_array_size, write });
        proof {
            g1.lemma_active_layers(s);
        }
        let can_drop = match self.memory_graph.can_drop_node(&texture_array_size) {
            Ok(can_drop) => can_drop,
            Err(_) => false,
        };
        if can_drop {
            let _ = self.memory_graph.drop_memory(&texture_array_size);
            let _ = self.resources.delete_texture_array(&texture_array_size);
            commands.push(MaterialCommand::DeleteTextureArray { texture_array_size });
        }
        self.remove_active_layer(&texture_array_size, texture_layer);
        proof {
            let v = self@;
            let g0 = old_view.graph;
            lemma_owned_after_remove(g0, g1, material_uuid);
            TextureArraySize::lemma_index_injective();
            assert(v.graph.allocations == g1.allocations);
            lemma_filter_members(old_view.active_layers(s), other_than(texture_layer));
            assert forall|s2: TextureArraySize| #[trigger] v.active_layers(s2).no_duplicates() by {
                if s2 != s {
                    assert(v.active_layers(s2) == old_view.active_layers(s2));
                }
            }
            assert forall|s2: TextureArraySize, l: usize| #[trigger]
                v.active_layers(s2).contains(l) <==> v.graph.layer_owned(s2, l) by {
                assert(v.graph.layer_owned(s2, l) == g1.layer_owned(s2, l));
                if s2 != s {
                    assert(v.active_layers(s2) == old_view.active_layers(s2));
                }
            }
            assert(v =~= old_view.delete_material_spec(material_uuid).0);
            assert(commands_view(commands@) =~= old_view.delete_material_spec(material_uuid).1);
        }
        (commands, Ok(()))
    }

    /// Replaces the image of a material in its layer. An image whose size class
    /// is not the material's is refused. Answers the GPU work to do.
    pub fn update_material(&self, material_uuid: usize, image_dimensions: (u32, u32)) -> (r: (
        Vec<MaterialCommand>,
        Result<(), MaterialError>,
    ))
        requires
            self.wf(),
            self@.consistent(),
        ensures
            commands_view(r.0@) == self@.update_material_spec(material_uuid, image_dimensions).0,
            r.1 == self@.update_material_spec(material_uuid, image_dimensions).1,
    {
        let mut commands: Vec<MaterialCommand> = Vec::new();
        match self.memory_graph.lookup_memory_segment(material_uuid) {
            Ok(GraphEvent::MemorySegmentFound { texture_array_size, texture_layer }) => {
                let fits = match TextureArraySize::from_dimensions(image_dimensions) {
                    Ok(size) => size == texture_array_size,
                    Err(_) => false,
                };
                if !fits {
                    assert(commands_view(commands@) =~= Seq::<MaterialCommandView>::empty());
                    let side = texture_array_size.to_u32();
                    return (
                        commands,
                        Err(
                            MaterialError::TextureError(
                                TextureError::UnexpectedDimensions { expected: (side, side), found: image_dimensions },
                            ),
                        ),
                    );
                }
                let write = match self.resources.get_texture_array(&texture_array_size) {
                    Ok(texture_array) => match texture_array.load_image(texture_layer as u32, image_dimensions) {
                        Ok(write) => write,
                        Err(error) => {
                            return (commands, Err(MaterialError::TextureError(error)));
                        },
                    },
                    Err(error) => {
                        return (commands, Err(MaterialError::TextureError(error)));
                    },
                };
                commands.push(MaterialCommand::WriteImage { texture_array_size, write });
                assert(commands_view(commands@) =~= self@.update_material_spec(
                    material_uuid,
                    image_dimensions,
                ).0);
                (commands, Ok(()))
            },
            Ok(_) => (commands, Err(MaterialError::GraphError(GraphError::TextureArrayNotFound))),
            Err(_) => {
                assert(commands_view(commands@) =~= Seq::<MaterialCommandView>::empty());
                (commands, Err(MaterialError::SegmentationFault { material_uuid }))
            },
        }
    }

    /// Where a material lives: the position of its size class and its layer.
    pub fn get_material_handle(&self, material_uuid: usize) -> (r: Result<MaterialHandle, MaterialError>)
        requires
            self.wf(),
            self@.consistent(),
        ensures
            r == self@.material_handle_spec(material_uuid),
    {
        match self.memory_graph.lookup_memory_segment(material_uuid) {
            Ok(GraphEvent::MemorySegmentFound { texture_array_size, texture_layer }) => {
                let texture_array_index = texture_array_size.to_index();
                Ok(
                    MaterialHandle {
                        texture_array_index: texture_array_index as u32,
                        texture_layer: texture_layer as u32,
                    },
                )
            },
            Ok(_) => Err(MaterialError::GraphError(GraphError::TextureArrayNotFound)),
            Err(_) => Err(MaterialError::SegmentationFault { material_uuid }),
        }
    }

    /// What each slot of the material bind group binds.
    pub fn bind_group_entries(&self) -> (r: Vec<BindingSource>)
        requires
            self.wf(),
        ensures
            r@.len() == num_size_classes() + 1,
            forall|b: int| 0 <= b < r@.len() ==> #[trigger] r@[b] == binding_source(self@.texture_arrays, b),
    {
        self.resources.bind_group_entries()
    }

    /// A material system without materials.
    pub fn new() -> (r: MaterialsSystem)
        ensures
            r.wf(),
            r@.consistent(),
            r@.graph.allocations == Map::<usize, (TextureArraySize, usize)>::empty(),
            r@.texture_arrays == Map::<TextureArraySize, TextureArrayView>::empty(),
    {
        let mut cow_data: Vec<Vec<usize>> = Vec::new();
        let mut i: usize = 0;
        while i < 10
            invariant
                i <= 10,
                cow_data@.len() == i,
                forall|j: int| 0 <= j < i ==> cow_data@[j]@ == Seq::<usize>::empty(),
            decreases 10 - i,
        {
            cow_data.push(Vec::new());
            i = i + 1;
        }
        let r = MaterialsSystem { memory_graph: MemoryGraph::new(), cow_data, resources: Resources::new() };
        proof {
            let v = r@;
            assert forall|s: TextureArraySize| #[trigger] v.active_layers(s).no_duplicates() by {
                TextureArraySize::lemma_index_injective();
                assert(v.active_layers(s) == Seq::<usize>::empty());
            }
            assert forall|s: TextureArraySize, l: usize| #[trigger]
                v.active_layers(s).contains(l) <==> v.graph.layer_owned(s, l) by {
                TextureArraySize::lemma_index_injective();
                assert(v.active_layers(s) == Seq::<usize>::empty());
            }
        }
        r
    }
}


/// The size class that `add_material` chooses for an image.
pub open spec fn chosen_size(dimensions: (u32, u32)) -> TextureArraySize {
    TextureArraySize::for_dimension(TextureArraySize::max_dimension(dimensions) as int)
}

/// A material that was added is found: its handle names the size class chosen
/// for its image and the layer its image was written to, and that layer lies
/// within the capacity of the texture array.
pub proof fn law_handle_after_add(v: MaterialsSystemView, uuid: usize, dimensions: (u32, u32))
    requires
        v.consistent(),
    ensures
        v.add_material_spec(uuid, dimensions).2 is Ok ==> {
            let after = v.add_material_spec(uuid, dimensions);
            let s = chosen_size(dimensions);
            &&& after.1.last() matches MaterialCommandView::WriteImage { texture_array_size, write }
            &&& after.1.last()->WriteImage_texture_array_size == s
            &&& after.0.material_handle_spec(uuid) == Ok::<MaterialHandle, MaterialError>(
                MaterialHandle {
                    texture_array_index: s.index_spec() as u32,
                    texture_layer: after.1.last()->WriteImage_write.layer,
                },
            )
            &&& (after.1.last()->WriteImage_write.layer as nat) < after.0.texture_arrays[s].max_layers_count
        },
{
    let s = chosen_size(dimensions);
    if v.add_material_spec(uuid, dimensions).2 is Ok && v.graph.nodes.contains_key(s) {
        let n = v.graph.nodes[s];
        if n.free_layers.len() > 0 {
            assert(n.free_layers[n.free_layers.len() - 1] == n.next_layer());
        }
    }
}

/// A material identifier cannot be added twice.
pub proof fn law_no_second_add(
    v: MaterialsSystemView,
    uuid: usize,
    dimensions: (u32, u32),
    other_dimensions: (u32, u32),
)
    requires
        v.consistent(),
        TextureArraySize::max_dimension(other_dimensions) <= 8192,
    ensures
        v.add_material_spec(uuid, dimensions).2 is Ok ==> v.add_material_spec(uuid, dimensions).0.add_material_spec(
            uuid,
            other_dimensions,
        ).2 == Err::<(), MaterialError>(MaterialError::MemoryOccupied { material_uuid: uuid }),
{
}

/// A deleted material is gone: deleting what was just added succeeds, and no
/// handle is found for it afterwards.
pub proof fn law_delete_after_add(v: MaterialsSystemView, uuid: usize, dimensions: (u32, u32))
    requires
        v.consistent(),
    ensures
        v.add_material_spec(uuid, dimensions).2 is Ok ==> {
            let after_add = v.add_material_spec(uuid, dimensions).0;
            &&& after_add.delete_material_spec(uuid).2 == Ok::<(), MaterialError>(())
            &&& after_add.delete_material_spec(uuid).0.material_handle_spec(uuid) == Err::<
                MaterialHandle,
                MaterialError,
            >(MaterialError::SegmentationFault { material_uuid: uuid })
        },
{
}

/// When a texture array grows, every layer in use is copied into the new
/// texture and nothing else: no material loses its image.
pub proof fn law_scaling_copies_every_active_layer(
    v: MaterialsSystemView,
    uuid: usize,
    dimensions: (u32, u32),
)
    requires
        v.consistent(),
    ensures
        v.add_material_spec(uuid, dimensions).1.len() > 0 ==> (
        v.add_material_spec(uuid, dimensions).1[0] matches MaterialCommandView::ScaleTextureArray {
            texture_array_size,
            active_layers,
        } ==> forall|l: usize| #[trigger]
            active_layers.contains(l) <==> v.graph.layer_owned(texture_array_size, l)),
{
}

/// A texture array is dropped exactly when its last material is deleted.
pub proof fn law_array_dropped_with_last_material(v: MaterialsSystemView, uuid: usize)
    requires
        v.consistent(),
        v.graph.allocations.contains_key(uuid),
    ensures
        ({
            let s = v.graph.allocations[uuid].0;
            let after = v.delete_material_spec(uuid).0;
            after.texture_arrays.contains_key(s) <==> v.graph.deallocate_spec(uuid).0.has_allocation_of(s)
        }),
{
}

/// A refused request changes nothing and asks for no GPU work.
pub proof fn law_material_refusals_change_nothing(
    v: MaterialsSystemView,
    uuid: usize,
    dimensions: (u32, u32),
)
    ensures
        v.add_material_spec(uuid, dimensions).2 is Err ==> v.add_material_spec(uuid, dimensions).0 == v
            && v.add_material_spec(uuid, dimensions).1.len() == 0,
        v.delete_material_spec(uuid).2 is Err ==> v.delete_material_spec(uuid).0 == v
            && v.delete_material_spec(uuid).1.len() == 0,
{
}

/// An added image lies in a texture array whose layers hold both of its
/// sides, and no smaller size class would hold it; the material's handle names
/// that array.
pub proof fn law_added_image_fits_smallest_class(v: MaterialsSystemView, uuid: usize, dimensions: (u32, u32))
    requires
        v.consistent(),
    ensures
        v.add_material_spec(uuid, dimensions).2 is Ok ==> {
            let after = v.add_material_spec(uuid, dimensions);
            let s = after.1.last()->WriteImage_texture_array_size;
            &&& after.1.len() > 0
            &&& after.1.last() is WriteImage
            &&& dimensions.0 <= s.side_spec()
            &&& dimensions.1 <= s.side_spec()
            &&& forall|t: TextureArraySize|
                dimensions.0 <= t.side_spec() && dimensions.1 <= t.side_spec() ==> s.side_spec()
                    <= #[trigger] t.side_spec()
            &&& after.0.material_handle_spec(uuid) matches Ok(h) && h.texture_array_index
                == s.index_spec()
        },
{
    law_handle_after_add(v, uuid, dimensions);
    let d = TextureArraySize::max_dimension(dimensions);
    if v.add_material_spec(uuid, dimensions).2 is Ok {
        crate::kernel::materials::textures::law_chosen_size_is_smallest_fitting(d as int);
    }
}

/// Deleting a material clears the layer that material owned, over the whole
/// layer, and no other material owns that layer.
pub proof fn law_delete_clears_own_layer(v: MaterialsSystemView, uuid: usize)
    requires
        v.consistent(),
    ensures
        v.delete_material_spec(uuid).2 is Ok ==> {
            let s = v.graph.allocations[uuid].0;
            let l = v.graph.allocations[uuid].1;
            let cmds = v.delete_material_spec(uuid).1;
            &&& cmds.len() > 0
            &&& cmds[0] matches MaterialCommandView::ClearImage { texture_array_size, write }
                && texture_array_size == s && write.layer as int == l && write.width == s.side_spec()
                && write.height == s.side_spec() && forall|tok: usize|
                #![trigger v.graph.allocations.contains_key(tok)]
                tok != uuid && v.graph.allocations.contains_key(tok) ==> v.graph.allocations[tok] != (
                    s,
                    write.layer as usize,
                )
        },
{
    if v.delete_material_spec(uuid).2 is Ok {
        let s = v.graph.allocations[uuid].0;
        let l = v.graph.allocations[uuid].1;
        assert(v.graph.nodes.contains_key(s));
        assert(v.texture_arrays.contains_key(s));
        assert((l as nat) < v.graph.nodes[s].len);
        assert forall|tok: usize|
            #![trigger v.graph.allocations.contains_key(tok)]
            tok != uuid && v.graph.allocations.contains_key(tok) implies v.graph.allocations[tok] != (
                s,
                l,
            ) by {
            assert(v.graph.allocations[tok] != v.graph.allocations[uuid]);
        }
    }
}

/// Updating a material writes the new image, at its own size, into the layer
/// the material's handle names.
pub proof fn law_update_writes_own_layer(v: MaterialsSystemView, uuid: usize, dimensions: (u32, u32))
    requires
        v.consistent(),
    ensures
        v.update_material_spec(uuid, dimensions).1 is Ok ==> {
            let cmds = v.update_material_spec(uuid, dimensions).0;
            &&& cmds.len() == 1
            &&& cmds[0] matches MaterialCommandView::WriteImage { texture_array_size, write }
                && v.material_handle_spec(uuid) matches Ok(h) && h.texture_layer == write.layer
                && h.texture_array_index == texture_array_size.index_spec() && write.layer as int
                == v.graph.allocations[uuid].1 && write.width == dimensions.0 && write.height
                == dimensions.1
        },
{
    if v.update_material_spec(uuid, dimensions).1 is Ok {
        let s = v.graph.allocations[uuid].0;
        let l = v.graph.allocations[uuid].1;
        assert(v.graph.nodes.contains_key(s));
        assert((l as nat) < v.graph.nodes[s].len);
    }
}

} // verus!
