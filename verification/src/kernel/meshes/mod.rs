//! The mesh system: instance buffers and their slots.

pub mod buffers;
pub mod memory_heap;
pub mod resources;
pub mod laws;

use vstd::prelude::*;
use crate::ids::{UuidCounter, successor};
use crate::kernel::meshes::buffers::BufferUUID;
use crate::kernel::meshes::memory_heap::{
    HeapError, HeapEvent, MemoryHeap, MemoryHeapView, lemma_first_at, lemma_first_at_or_after,
};
use crate::kernel::meshes::resources::{InstanceBuffer, Resources, distinct_ids, holds_id};
use crate::seq_facts::{lemma_filter_members, lemma_filter_one};

verus! {

broadcast use vstd::std_specs::hash::group_hash_axioms;

/// GPU work that the mesh system asks of its caller, which keeps its GPU
/// instance buffers in a list in the same order as `MeshSystem::instance_buffers`.
#[derive(Debug, PartialEq, Eq)]
pub enum MeshCommand {
    /// Create an instance buffer of `size` bytes and append it to the list.
    CreateInstanceBuffer { uuid: BufferUUID, size: u64 },
    /// Write `data` at byte `offset` of the buffer at `position` in the list.
    WriteInstance { position: usize, offset: u64, data: Vec<u8> },
    /// Remove the buffer at `position` from the list.
    DeleteInstanceBuffer { position: usize },
}

/// Abstract form of a `MeshCommand`.
pub enum MeshCommandView {
    CreateInstanceBuffer { uuid: BufferUUID, size: u64 },
    WriteInstance { position: usize, offset: u64, data: Seq<u8> },
    DeleteInstanceBuffer { position: usize },
}

impl View for MeshCommand {
    type V = MeshCommandView;

    open spec fn view(&self) -> MeshCommandView {
        match self {
            MeshCommand::CreateInstanceBuffer { uuid, size } => {
                MeshCommandView::CreateInstanceBuffer { uuid: *uuid, size: *size }
            },
            MeshCommand::WriteInstance { position, offset, data } => {
                MeshCommandView::WriteInstance { position: *position, offset: *offset, data: data@ }
            },
            MeshCommand::DeleteInstanceBuffer { position } => {
                MeshCommandView::DeleteInstanceBuffer { position: *position }
            },
        }
    }
}

/// The abstract form of a list of commands.
pub open spec fn mesh_commands_view(commands: Seq<MeshCommand>) -> Seq<MeshCommandView> {
    commands.map_values(|c: MeshCommand| c@)
}

/// Refusals of the mesh system.
#[derive(Clone, Copy, Debug, PartialEq, Eq)]
pub enum MeshError {
    /// A mesh with the identifier exists already.
    MemoryOccupied { mesh_uuid: usize },
    /// No mesh has the identifier.
    SegmentationFault { mesh_uuid: usize },
}

/// The CPU copy of one mesh instance: its identifier, its bytes and its slot.
pub struct CowEntry {
    pub mesh_uuid: usize,
    pub data: Vec<u8>,
    pub index: usize,
}

/// Abstract form of a `CowEntry`.
pub struct CowEntryView {
    pub mesh_uuid: usize,
    pub data: Seq<u8>,
    pub index: usize,
}

impl View for CowEntry {
    type V = CowEntryView;

    open spec fn view(&self) -> CowEntryView {
        CowEntryView { mesh_uuid: self.mesh_uuid, data: self.data@, index: self.index }
    }
}

/// The mesh system of one mesh kind: the slot heap, the instance-buffer
/// records in drawing order, for each buffer the CPU copies of its instances
/// (written again when the buffers grow), and the source of buffer identifiers.
pub struct MeshSystem {
    memory_heap: MemoryHeap,
    cow_data: Vec<Vec<CowEntry>>,
    resources: Resources,
    buffer_ids: UuidCounter,
    instance_size: usize,
}

/// Abstract state of the mesh system.
#[verifier::ext_equal]
pub struct MeshSystemView {
    pub heap: MemoryHeapView,
    pub cow_data: Seq<Seq<CowEntryView>>,
    pub buffers: Seq<InstanceBuffer>,
    pub next_id: usize,
    pub instance_size: nat,
}

impl View for MeshSystem {
    type V = MeshSystemView;

    closed spec fn view(&self) -> MeshSystemView {
        MeshSystemView {
            heap: self.memory_heap@,
            cow_data: Seq::new(
                self.cow_data@.len(),
                |i: int| self.cow_data@[i]@.map_values(|e: CowEntry| e@),
            ),
            buffers: self.resources@,
            next_id: self.buffer_ids.peek(),
            instance_size: self.instance_size as nat,
        }
    }
}

/// The entry of mesh `tok` replaced by one with `data` at slot `index`.
pub open spec fn cow_replace(entries: Seq<CowEntryView>, tok: usize, data: Seq<u8>, index: usize) -> Seq<
    CowEntryView,
> {
    entries.map_values(
        |e: CowEntryView|
            if e.mesh_uuid == tok {
                CowEntryView { mesh_uuid: tok, data, index }
            } else {
                e
            },
    )
}

/// Halfway through scaling from state `o`: the heap is doubled, the first
/// `p` buffers are rebuilt under the identifiers issued for them, at the end
/// of the list, and the others wait, in order, at its front.
pub open spec fn scaling_progress(o: MeshSystemView, v: MeshSystemView, p: nat) -> bool {
    let n = o.num_buffers();
    let size = (2 * o.buffer_size()) as u64;
    &&& p <= n
    &&& v.instance_size == o.instance_size
    &&& v.cow_data == o.cow_data
    &&& v.heap.consistent()
    &&& v.heap == (MemoryHeapView {
        buffers_uuid: Seq::new(
            n as nat,
            |i: int| if i < p { o.issued(i as nat) } else { o.heap.buffers_uuid[i] },
        ),
        ..o.heap.scale_spec()
    })
    &&& v.buffers == o.buffers.subrange(p as int, n) + Seq::new(
        p,
        |i: int| InstanceBuffer { uuid: o.issued(i as nat), size },
    )
    &&& v.next_id == o.next_id + p
}

/// Holds of every entry but the one of mesh `tok`.
pub open spec fn not_mesh(tok: usize) -> spec_fn(CowEntryView) -> bool {
    |e: CowEntryView| e.mesh_uuid != tok
}

/// The entries without the one of mesh `tok`.
pub open spec fn cow_remove(entries: Seq<CowEntryView>, tok: usize) -> Seq<CowEntryView> {
    entries.filter(not_mesh(tok))
}

/// Some entry is the one of mesh `tok`.
pub open spec fn cow_has(entries: Seq<CowEntryView>, tok: usize) -> bool {
    exists|j: int| 0 <= j < entries.len() && #[trigger] entries[j].mesh_uuid == tok
}

impl MeshSystemView {
    /// Number of instance buffers.
    pub open spec fn num_buffers(self) -> int {
        self.heap.num_buffers()
    }

    /// Size in bytes of each instance buffer at the current capacity.
    pub open spec fn buffer_size(self) -> nat {
        self.heap.buffers_capacity * self.instance_size
    }

    /// The write of `data` into slot `index` of the buffer at `position`.
    pub open spec fn write_at(self, position: int, index: usize, data: Seq<u8>) -> MeshCommandView {
        MeshCommandView::WriteInstance {
            position: position as usize,
            offset: (index * self.instance_size) as u64,
            data,
        }
    }

    /// The invariant of the mesh system: the heap is consistent, the buffer
    /// records follow the heap's buffers one for one with the heap's identifiers
    /// and the size of a full buffer, identifiers are distinct and below the
    /// next one to be issued, and the CPU copies of each buffer are exactly its
    /// instances, each at its slot and of the instance size.
    pub open spec fn consistent(self) -> bool {
        &&& self.heap.consistent()
        &&& self.heap.buffers_capacity > 0
        &&& self.heap.max_buffers_count > 0
        &&& self.buffer_size() <= usize::MAX
        &&& self.buffers.len() == self.num_buffers()
        &&& self.cow_data.len() == self.num_buffers()
        &&& distinct_ids(self.buffers)
        &&& forall|p: int|
            0 <= p < self.num_buffers() ==> {
                &&& (#[trigger] self.buffers[p]).uuid == self.heap.buffers_uuid[p]
                &&& self.buffers[p].size == self.buffer_size()
                &&& self.buffers[p].uuid.id_spec() < self.next_id
            }
        &&& forall|p: int| 0 <= p < self.num_buffers() ==> #[trigger] self.cow_consistent(p)
    }

    /// The CPU copies of buffer `p` are exactly its instances, once each.
    pub open spec fn cow_consistent(self, p: int) -> bool {
        let entries = self.cow_data[p];
        let seg = self.heap.segment_indices[p];
        &&& forall|j: int, k: int|
            #![trigger entries[j].mesh_uuid, entries[k].mesh_uuid]
            0 <= j < entries.len() && 0 <= k < entries.len() && j != k ==> entries[j].mesh_uuid
                != entries[k].mesh_uuid
        &&& forall|j: int|
            0 <= j < entries.len() ==> {
                &&& seg.contains_key(#[trigger] entries[j].mesh_uuid)
                &&& seg[entries[j].mesh_uuid] == entries[j].index
                &&& entries[j].data.len() == self.instance_size
            }
        &&& forall|tok: usize| #[trigger] seg.contains_key(tok) ==> cow_has(entries, tok)
    }

    /// The identifier issued `k` calls of the counter after the next one.
    pub open spec fn issued(self, k: nat) -> BufferUUID {
        BufferUUID::with_id((self.next_id + k) as usize)
    }

    /// The state after, and the command of, adding one empty buffer.
    pub open spec fn expanded(self) -> (MeshSystemView, MeshCommandView) {
        let uuid = self.issued(0);
        let size = self.buffer_size() as u64;
        (
            MeshSystemView {
                heap: self.heap.expand_spec(uuid).0,
                cow_data: self.cow_data.push(Seq::empty()),
                buffers: self.buffers.push(InstanceBuffer { uuid, size }),
                next_id: successor(self.next_id),
                ..self
            },
            MeshCommandView::CreateInstanceBuffer { uuid, size },
        )
    }

    /// The commands that move buffer `p` into a new buffer of twice the
    /// capacity: create it at the end of the list, write the instances of
    /// buffer `p` into it, and remove the old buffer, which is by then first
    /// in the list.
    pub open spec fn rebuild_commands(self, p: int) -> Seq<MeshCommandView> {
        let n = self.num_buffers();
        let size = (2 * self.buffer_size()) as u64;
        seq![MeshCommandView::CreateInstanceBuffer { uuid: self.issued(p as nat), size }]
            + self.cow_data[p].map_values(
            |e: CowEntryView|
                MeshCommandView::WriteInstance {
                    position: n as usize,
                    offset: (e.index * self.instance_size) as u64,
                    data: e.data,
                },
        ) + seq![MeshCommandView::DeleteInstanceBuffer { position: 0 }]
    }

    /// The commands that rebuild the first `k` buffers.
    pub open spec fn scale_commands(self, k: nat) -> Seq<MeshCommandView>
        decreases k,
    {
        if k == 0 {
            Seq::empty()
        } else {
            self.scale_commands((k - 1) as nat) + self.rebuild_commands(k - 1)
        }
    }

    /// The state after, and the commands of, doubling the heap: every buffer is
    /// replaced by one of twice the capacity under a new identifier.
    pub open spec fn scaled(self) -> (MeshSystemView, Seq<MeshCommandView>) {
        let n = self.num_buffers();
        let size = (2 * self.buffer_size()) as u64;
        (
            MeshSystemView {
                heap: MemoryHeapView {
                    buffers_uuid: Seq::new(n as nat, |p: int| self.issued(p as nat)),
                    ..self.heap.scale_spec()
                },
                buffers: Seq::new(n as nat, |p: int| InstanceBuffer { uuid: self.issued(p as nat), size }),
                next_id: (self.next_id + n) as usize,
                ..self
            },
            self.scale_commands(n as nat),
        )
    }

    /// The state after, and the command of, placing mesh `tok` in the first
    /// buffer with room.
    pub open spec fn placed(self, tok: usize, data: Seq<u8>) -> (MeshSystemView, MeshCommandView) {
        let j = self.heap.first_free_buffer();
        let k = self.heap.next_index(j);
        (
            MeshSystemView {
                heap: self.heap.allocate_spec(tok).0,
                cow_data: self.cow_data.update(
                    j,
                    self.cow_data[j].push(CowEntryView { mesh_uuid: tok, data, index: k }),
                ),
                ..self
            },
            self.write_at(j, k, data),
        )
    }

    /// The heap must grow before mesh `tok` can be placed.
    pub open spec fn must_grow(self) -> bool {
        self.heap.first_free_buffer() >= self.num_buffers()
    }

    /// The state after, and the commands of, growing the heap: doubling it
    /// when it holds as many buffers as it may, else adding a buffer.
    pub open spec fn grown(self) -> (MeshSystemView, Seq<MeshCommandView>) {
        if self.heap.needs_scaling() {
            self.scaled()
        } else {
            (self.expanded().0, seq![self.expanded().1])
        }
    }

    /// The state in which `add_mesh` places a mesh: this one, grown first
    /// when every buffer is full.
    pub open spec fn ready(self) -> MeshSystemView {
        if self.must_grow() {
            self.grown().0
        } else {
            self
        }
    }

    /// The state after, the commands of, and the answer of `add_mesh(tok, data)`.
    pub open spec fn add_mesh_spec(self, tok: usize, data: Seq<u8>) -> (
        MeshSystemView,
        Seq<MeshCommandView>,
        Result<(), MeshError>,
    ) {
        if self.heap.first_holder(tok) < self.num_buffers() {
            (self, Seq::empty(), Err(MeshError::MemoryOccupied { mesh_uuid: tok }))
        } else {
            let (v1, cmds) = if self.must_grow() {
                self.grown()
            } else {
                (self, Seq::empty())
            };
            (v1.placed(tok, data).0, cmds.push(v1.placed(tok, data).1), Ok(()))
        }
    }

    /// Growing the heap, when needed, is possible within the machine's integers.
    pub open spec fn can_grow(self) -> bool {
        self.must_grow() ==> if self.heap.needs_scaling() {
            &&& 2 * self.heap.max_buffers_count <= usize::MAX
            &&& 2 * self.heap.buffers_capacity <= usize::MAX
            &&& 2 * self.buffer_size() <= usize::MAX
            &&& self.next_id + self.num_buffers() < usize::MAX
        } else {
            self.next_id < usize::MAX
        }
    }

    /// The state after, the commands of, and the answer of `delete_mesh(tok)`.
    pub open spec fn delete_mesh_spec(self, tok: usize) -> (
        MeshSystemView,
        Seq<MeshCommandView>,
        Result<(), MeshError>,
    ) {
        let p = self.heap.first_holder(tok);
        if p >= self.num_buffers() {
            (self, Seq::empty(), Err(MeshError::SegmentationFault { mesh_uuid: tok }))
        } else {
            let k = self.heap.segment_indices[p][tok];
            (
                MeshSystemView {
                    heap: self.heap.deallocate_spec(tok).0,
                    cow_data: self.cow_data.update(p, cow_remove(self.cow_data[p], tok)),
                    ..self
                },
                seq![self.write_at(p, k, Seq::new(self.instance_size, |i: int| 0u8))],
                Ok(()),
            )
        }
    }

    /// The state after, the commands of, and the answer of `update_mesh(tok, data)`.
    pub open spec fn update_mesh_spec(self, tok: usize, data: Seq<u8>) -> (
        MeshSystemView,
        Seq<MeshCommandView>,
        Result<(), MeshError>,
    ) {
        let p = self.heap.first_holder(tok);
        if p >= self.num_buffers() {
            (self, Seq::empty(), Err(MeshError::SegmentationFault { mesh_uuid: tok }))
        } else {
            let k = self.heap.segment_indices[p][tok];
            (
                MeshSystemView {
                    cow_data: self.cow_data.update(p, cow_replace(self.cow_data[p], tok, data, k)),
                    ..self
                },
                seq![self.write_at(p, k, data)],
                Ok(()),
            )
        }
    }
}

impl MeshSystem {
    /// The component tables line up.
    pub closed spec fn wf(&self) -> bool {
        &&& self.memory_heap.wf()
        &&& self.resources.wf()
        &&& self.cow_data@.len() == self@.heap.buffers_uuid.len()
    }

    /// Position of the CPU copy of mesh `tok` among those of buffer `p`.
    fn find_cow(&self, p: usize, tok: usize) -> (r: Option<usize>)
        requires
            self.wf(),
            p < self.cow_data@.len(),
        ensures
            r matches Some(j) ==> j < self@.cow_data[p as int].len() && self@.cow_data[p as int][j as int].mesh_uuid
                == tok,
            r is None ==> !cow_has(self@.cow_data[p as int], tok),
    {
        let mut j: usize = 0;
        while j < self.cow_data[p].len()
            invariant
                self.wf(),
                p < self.cow_data@.len(),
                j <= self.cow_data@[p as int]@.len(),
                forall|i: int| 0 <= i < j ==> self@.cow_data[p as int][i].mesh_uuid != tok,
            decreases self.cow_data@[p as int]@.len() - j,
        {
            if self.cow_data[p][j].mesh_uuid == tok {
                return Some(j);
            }
            j = j + 1;
        }
        None
    }

    /// Offsets of the slots of a full buffer fit in the buffer.
    proof fn lemma_slot_offset(k: nat, cap: nat, size: nat)
        requires
            k < cap,
        ensures
            k * size + size <= cap * size,
            k * size <= cap * size,
    {
        assert(k * size + size == (k + 1) * size) by (nonlinear_arith);
        assert((k + 1) * size <= cap * size) by (nonlinear_arith)
            requires
                k + 1 <= cap,
        ;
    }

    /// Adds one empty buffer of the current capacity under a fresh identifier.
    fn expand_memory(&mut self) -> (r: MeshCommand)
        requires
            old(self).wf(),
            old(self)@.consistent(),
            !old(self)@.heap.needs_scaling(),
            old(self)@.next_id < usize::MAX,
        ensures
            final(self).wf(),
            final(self)@.consistent(),
            final(self)@ == old(self)@.expanded().0,
            r@ == old(self)@.expanded().1,
    {
        let ghost old_view = self@;
        proof {
            self.memory_heap.lemma_num_buffers_bounded();
            assert(!holds_id(old_view.buffers, old_view.next_id)) by {
                assert forall|i: int| 0 <= i < old_view.buffers.len() implies #[trigger] old_view.buffers[i].uuid.id_spec()
                    != old_view.next_id by {
                    assert(old_view.buffers[i].uuid.id_spec() < old_view.next_id);
                }
            }
        }
        let capacity = self.memory_heap.get_capacity();
        let buffer_size = (capacity * self.instance_size) as u64;
        let buffer_uuid = self.resources.add_instance_buffer(&mut self.buffer_ids, buffer_size).unwrap();
        let _ = self.memory_heap.expand_memory(&buffer_uuid);
        self.cow_data.push(Vec::new());
        proof {
            let v = self@;
            BufferUUID::lemma_with_id(old_view.next_id);
            BufferUUID::lemma_id_determines(buffer_uuid, BufferUUID::with_id(old_view.next_id));
            let n = old_view.num_buffers();
            assert(v.cow_data[n] =~= Seq::<CowEntryView>::empty());
            assert(v.cow_data =~= old_view.cow_data.push(Seq::empty()));
            assert(v =~= old_view.expanded().0);
            assert forall|q: int| 0 <= q < v.num_buffers() implies {
                &&& (#[trigger] v.buffers[q]).uuid == v.heap.buffers_uuid[q]
                &&& v.buffers[q].size == v.buffer_size()
                &&& v.buffers[q].uuid.id_spec() < v.next_id
            } by {
                if q < n {
                    assert(v.buffers[q] == old_view.buffers[q]);
                }
            }
            assert forall|b: int| 0 <= b < v.num_buffers() implies #[trigger] v.cow_consistent(b) by {
                if b < n {
                    assert(old_view.cow_consistent(b));
                    assert(v.cow_data[b] == old_view.cow_data[b]);
                    assert(v.heap.segment_indices[b] == old_view.heap.segment_indices[b]);
                } else {
                    assert(v.heap.segment_indices[b] == Map::<usize, usize>::empty());
                }
            }
        }
        MeshCommand::CreateInstanceBuffer { uuid: buffer_uuid, size: buffer_size }
    }

    /// The write into the new buffer at `position` of one CPU copy.
    pub open spec fn copy_write(position: usize, instance_size: nat, e: CowEntryView) -> MeshCommandView {
        MeshCommandView::WriteInstance {
            position,
            offset: (e.index * instance_size) as u64,
            data: e.data,
        }
    }

    /// Moves buffer `p`, first in the list, into a new buffer of `buffer_size`
    /// bytes at the end of the list: the CPU copies of its instances are
    /// written into the new buffer, the heap takes the new identifier, and the
    /// old buffer is removed.
    fn rebuild_buffer(
        &mut self,
        p: usize,
        n: usize,
        buffer_size: u64,
        commands: &mut Vec<MeshCommand>,
        Ghost(o): Ghost<MeshSystemView>,
    )
        requires
            old(self).wf(),
            o.consistent(),
            o.next_id + o.num_buffers() < usize::MAX,
            n == o.num_buffers(),
            p < n,
            buffer_size == 2 * o.buffer_size(),
            scaling_progress(o, old(self)@, p as nat),
            mesh_commands_view(old(commands)@) == o.scale_commands(p as nat),
        ensures
            final(self).wf(),
            scaling_progress(o, final(self)@, (p + 1) as nat),
            mesh_commands_view(final(commands)@) == o.scale_commands((p + 1) as nat),
    {
        let ghost v0 = self@;
        let ghost pi = p as int;
        let ghost fresh = o.issued(p as nat);
        proof {
            self.memory_heap.lemma_num_buffers_bounded();
            assert(v0.buffers[0] == o.buffers[pi]);
            assert forall|i: int| 0 <= i < v0.buffers.len() implies #[trigger] v0.buffers[i].uuid.id_spec()
                != v0.next_id by {
                if i < n - p {
                    assert(v0.buffers[i] == o.buffers[pi + i]);
                } else {
                    let k = i - (n - p);
                    assert(v0.buffers[i].uuid == o.issued(k as nat));
                    BufferUUID::lemma_with_id((o.next_id + k) as usize);
                }
            }
        }
        let old_uuid = self.memory_heap.buffer_uuid(p);
        let new_uuid = self.resources.add_instance_buffer(&mut self.buffer_ids, buffer_size).unwrap();
        proof {
            BufferUUID::lemma_with_id((o.next_id + p) as usize);
            BufferUUID::lemma_id_determines(new_uuid, fresh);
        }
        commands.push(MeshCommand::CreateInstanceBuffer { uuid: new_uuid, size: buffer_size });
        let ghost v1 = self@;
        let ghost entries = o.cow_data[pi];
        let ghost head = o.scale_commands(p as nat).push(
            MeshCommandView::CreateInstanceBuffer { uuid: fresh, size: buffer_size },
        );
        proof {
            assert(o.cow_consistent(pi));
            assert(v1.cow_data == o.cow_data);
            assert(mesh_commands_view(commands@) =~= head);
        }
        let mut j: usize = 0;
        while j < self.cow_data[p].len()
            invariant
                self.wf(),
                self@ == v1,
                v1.cow_data == o.cow_data,
                v1.instance_size == o.instance_size,
                o.consistent(),
                o.cow_consistent(pi),
                pi == p,
                p < n,
                n == o.num_buffers(),
                entries == o.cow_data[pi],
                j <= entries.len(),
                mesh_commands_view(commands@) == head + entries.take(j as int).map_values(
                    |e: CowEntryView| Self::copy_write(n, o.instance_size, e),
                ),
            decreases entries.len() - j,
        {
            let index = self.cow_data[p][j].index;
            proof {
                let e = entries[j as int];
                assert(self.cow_data@[pi]@[j as int]@ == e);
                crate::kernel::meshes::memory_heap::law_slots_within_capacity(o.heap, pi, e.mesh_uuid);
                Self::lemma_slot_offset(index as nat, o.heap.buffers_capacity, o.instance_size);
            }
            let offset = (index * self.instance_size) as u64;
            let data = self.cow_data[p][j].data.clone();
            assert(data@ =~= entries[j as int].data);
            let ghost prev = commands@;
            commands.push(MeshCommand::WriteInstance { position: n, offset, data });
            proof {
                let f = |e: CowEntryView| Self::copy_write(n, o.instance_size, e);
                assert(mesh_commands_view(commands@) =~= mesh_commands_view(prev).push(
                    f(entries[j as int]),
                ));
                assert(entries.take(j + 1) =~= entries.take(j as int).push(entries[j as int]));
                assert(entries.take(j + 1).map_values(f) =~= entries.take(j as int).map_values(f).push(
                    f(entries[j as int]),
                ));
            }
            j = j + 1;
        }
        proof {
            let named = self@.heap.named(old_uuid);
            assert(v1.heap.buffers_uuid[pi] == old_uuid);
            assert(o.buffers[pi].uuid == old_uuid);
            assert forall|i: int| 0 <= i < pi implies !#[trigger] named(i) by {
                BufferUUID::lemma_with_id((o.next_id + i) as usize);
                assert(v1.heap.buffers_uuid[i] == o.issued(i as nat));
            }
            lemma_first_at(named, 0, pi, n as int);
            assert(!v1.heap.buffers_uuid.contains(new_uuid)) by {
                assert forall|i: int| 0 <= i < n implies v1.heap.buffers_uuid[i] != new_uuid by {
                    if i < pi {
                        BufferUUID::lemma_with_id((o.next_id + i) as usize);
                        assert(v1.heap.buffers_uuid[i] == o.issued(i as nat));
                    } else {
                        assert(v1.heap.buffers_uuid[i] == o.buffers[i].uuid);
                        if v1.heap.buffers_uuid[i] == new_uuid {
                            assert(o.buffers[i].uuid.id_spec() < o.next_id);
                        }
                    }
                }
            }
        }
        let _ = self.memory_heap.update_buffer_uuid(&old_uuid, &new_uuid);
        proof {
            self.resources.lemma_distinct();
            assert(self.resources@[0].uuid == old_uuid);
            assert(holds_id(self.resources@, old_uuid.id_spec()));
        }
        let removed = self.resources.delete_instance_buffer(&old_uuid);
        let position = match removed {
            Ok(position) => position,
            Err(_) => 0,
        };
        proof {
            if position != 0 {
                assert(v1.buffers[position as int].uuid.id_spec() != v1.buffers[0].uuid.id_spec());
            }
        }
        let ghost prev = commands@;
        commands.push(MeshCommand::DeleteInstanceBuffer { position });
        proof {
            let v = self@;
            let size = buffer_size;
            assert(mesh_commands_view(commands@) =~= mesh_commands_view(prev).push(
                MeshCommandView::DeleteInstanceBuffer { position: 0 },
            ));
            assert(entries.take(entries.len() as int) =~= entries);
            assert(entries.map_values(|e: CowEntryView| Self::copy_write(n, o.instance_size, e))
                =~= entries.map_values(
                |e: CowEntryView|
                    MeshCommandView::WriteInstance {
                        position: o.num_buffers() as usize,
                        offset: (e.index * o.instance_size) as u64,
                        data: e.data,
                    },
            ));
            assert(mesh_commands_view(commands@) =~= o.scale_commands((p + 1) as nat));
            assert(v.heap.buffers_uuid =~= Seq::new(
                n as nat,
                |i: int| if i < p + 1 { o.issued(i as nat) } else { o.heap.buffers_uuid[i] },
            ));
            assert(v.buffers =~= o.buffers.subrange(pi + 1, n as int) + Seq::new(
                (p + 1) as nat,
                |i: int| InstanceBuffer { uuid: o.issued(i as nat), size },
            ));
        }
    }

    /// Doubles the heap and moves every buffer into a new one of twice the
    /// capacity, in buffer order, writing the CPU copies of its instances.
    fn scale_memory(&mut self) -> (r: Vec<MeshCommand>)
        requires
            old(self).wf(),
            old(self)@.consistent(),
            2 * old(self)@.heap.max_buffers_count <= usize::MAX,
            2 * old(self)@.heap.buffers_capacity <= usize::MAX,
            2 * old(self)@.buffer_size() <= usize::MAX,
            old(self)@.next_id + old(self)@.num_buffers() < usize::MAX,
        ensures
            final(self).wf(),
            final(self)@.consistent(),
            final(self)@ == old(self)@.scaled().0,
            mesh_commands_view(r@) == old(self)@.scaled().1,
    {
        let ghost o = self@;
        proof {
            self.memory_heap.lemma_num_buffers_bounded();
            assert((2 * o.heap.buffers_capacity) * o.instance_size == 2 * (o.heap.buffers_capacity
                * o.instance_size)) by (nonlinear_arith);
        }
        self.memory_heap.scale_memory();
        let capacity = self.memory_heap.get_capacity();
        let buffer_size = (capacity * self.instance_size) as u64;
        let n = self.memory_heap.num_buffers();
        let mut commands: Vec<MeshCommand> = Vec::new();
        proof {
            assert(self@.heap.buffers_uuid =~= Seq::new(
                n as nat,
                |i: int| if i < 0 { o.issued(i as nat) } else { o.heap.buffers_uuid[i] },
            ));
            assert(self@.buffers =~= o.buffers.subrange(0, n as int) + Seq::new(
                0,
                |i: int| InstanceBuffer { uuid: o.issued(i as nat), size: buffer_size },
            ));
            assert(mesh_commands_view(commands@) =~= o.scale_commands(0));
        }
        let mut p: usize = 0;
        while p < n
            invariant
                self.wf(),
                o.consistent(),
                o.next_id + o.num_buffers() < usize::MAX,
                n == o.num_buffers(),
                buffer_size == 2 * o.buffer_size(),
                p <= n,
                scaling_progress(o, self@, p as nat),
                mesh_commands_view(commands@) == o.scale_commands(p as nat),
            decreases n - p,
        {
            self.rebuild_buffer(p, n, buffer_size, &mut commands, Ghost(o));
            p = p + 1;
        }
        proof {
            let v = self@;
            let s = o.scaled().0;
            assert(v.buffers =~= s.buffers);
            assert(v.heap.buffers_uuid =~= s.heap.buffers_uuid);
            assert(v.heap =~= s.heap);
            assert(v =~= s);
            assert((2 * o.heap.buffers_capacity) * o.instance_size == 2 * (o.heap.buffers_capacity
                * o.instance_size)) by (nonlinear_arith);
            assert forall|i: int, j: int|
                #![trigger v.buffers[i].uuid.id_spec(), v.buffers[j].uuid.id_spec()]
                0 <= i < v.buffers.len() && 0 <= j < v.buffers.len() && i != j implies v.buffers[i].uuid.id_spec()
                    != v.buffers[j].uuid.id_spec() by {
                BufferUUID::lemma_with_id((o.next_id + i) as usize);
                BufferUUID::lemma_with_id((o.next_id + j) as usize);
            }
            assert forall|q: int| 0 <= q < v.num_buffers() implies {
                &&& (#[trigger] v.buffers[q]).uuid == v.heap.buffers_uuid[q]
                &&& v.buffers[q].size == v.buffer_size()
                &&& v.buffers[q].uuid.id_spec() < v.next_id
            } by {
                BufferUUID::lemma_with_id((o.next_id + q) as usize);
            }
            assert forall|b: int| 0 <= b < v.num_buffers() implies #[trigger] v.cow_consistent(b) by {
                assert(o.cow_consistent(b));
                assert(v.heap.segment_indices[b] == o.heap.segment_indices[b]);
            }
        }
        commands
    }

    /// After the heap has grown, some buffer has room.
    proof fn lemma_room_after_growth(v: MeshSystemView)
        requires
            v.consistent(),
        ensures
            v.grown().0.heap.first_free_buffer() < v.grown().0.num_buffers(),
    {
        let g = v.grown().0;
        let n = g.num_buffers();
        lemma_first_at_or_after(g.heap.has_room(), 0, g.heap.buffers_len.len() as int);
        if v.heap.needs_scaling() {
            assert(v.heap.buffer_consistent(0));
            assert(g.heap.has_room()(0));
        } else {
            assert(g.heap.has_room()(n - 1));
        }
    }

    /// Writes mesh `tok` into the slot `buffer_index` of the buffer named
    /// `buffer_uuid`, which the heap has just handed it, and keeps its CPU copy.
    fn place_mesh(
        &mut self,
        mesh_uuid: usize,
        data: Vec<u8>,
        buffer_uuid: BufferUUID,
        buffer_index: usize,
        commands: &mut Vec<MeshCommand>,
        Ghost(v1): Ghost<MeshSystemView>,
    )
        requires
            v1.consistent(),
            v1.heap.first_free_buffer() < v1.num_buffers(),
            v1.heap.first_holder(mesh_uuid) >= v1.num_buffers(),
            v1.heap.allocate_spec(mesh_uuid).1 == Ok::<HeapEvent, HeapError>(
                HeapEvent::MemoryAllocated { buffer_uuid, buffer_index },
            ),
            old(self).wf(),
            old(self)@ == (MeshSystemView { heap: v1.heap.allocate_spec(mesh_uuid).0, ..v1 }),
            old(self)@.heap.consistent(),
            data@.len() == v1.instance_size,
        ensures
            final(self).wf(),
            final(self)@ == v1.placed(mesh_uuid, data@).0,
            final(self)@.consistent(),
            final(commands)@ == old(commands)@.push(final(commands)@.last()),
            final(commands)@.last()@ == v1.placed(mesh_uuid, data@).1,
    {
        let ghost j = v1.heap.first_free_buffer();
        let ghost h = self@.heap;
        proof {
            lemma_first_at_or_after(v1.heap.has_room(), 0, v1.heap.buffers_len.len() as int);
            lemma_first_at_or_after(v1.heap.holds(mesh_uuid), 0, v1.heap.segment_indices.len() as int);
            assert(!v1.heap.holds(mesh_uuid)(j));
            assert(v1.heap.buffer_consistent(j));
            crate::kernel::meshes::memory_heap::law_slots_within_capacity(h, j, mesh_uuid);
            Self::lemma_slot_offset(buffer_index as nat, h.buffers_capacity, v1.instance_size);
            self.memory_heap.lemma_num_buffers_bounded();
            assert(v1.buffers[j].uuid == buffer_uuid);
            assert(holds_id(v1.buffers, buffer_uuid.id_spec()));
        }
        let offset = (buffer_index * self.instance_size) as u64;
        let placed = self.resources.update_instance_buffer(&buffer_uuid, offset, self.instance_size as u64);
        let position = match placed {
            Ok(position) => position,
            Err(_) => 0,
        };
        proof {
            assert(placed == Ok::<usize, crate::kernel::meshes::buffers::BufferError>(j as usize));
        }
        let copy = data.clone();
        assert(copy@ =~= data@);
        let ghost data_view = data@;
        commands.push(MeshCommand::WriteInstance { position, offset, data });
        let ghost before_vec = self.cow_data@[j]@;
        self.cow_data[position].push(CowEntry { mesh_uuid, data: copy, index: buffer_index });
        proof {
            let v = self@;
            let entries = v1.cow_data[j];
            let entry = CowEntryView { mesh_uuid, data: data_view, index: buffer_index };
            assert(entries =~= before_vec.map_values(|e: CowEntry| e@));
            assert(v.cow_data[j] =~= entries.push(entry));
            assert(v.cow_data =~= v1.cow_data.update(j, entries.push(entry)));
            assert(v =~= v1.placed(mesh_uuid, data_view).0);
            assert(v1.cow_consistent(j));
            assert(!cow_has(entries, mesh_uuid));
            assert forall|b: int| 0 <= b < v.num_buffers() implies #[trigger] v.cow_consistent(b) by {
                assert(v1.cow_consistent(b));
                if b == j {
                    let e2 = v.cow_data[b];
                    let seg = v.heap.segment_indices[b];
                    assert(seg == v1.heap.segment_indices[b].insert(mesh_uuid, buffer_index));
                    assert forall|x: int| 0 <= x < e2.len() implies {
                        &&& seg.contains_key(#[trigger] e2[x].mesh_uuid)
                        &&& seg[e2[x].mesh_uuid] == e2[x].index
                        &&& e2[x].data.len() == v.instance_size
                    } by {
                        if x < entries.len() {
                            assert(e2[x] == entries[x]);
                            assert(entries[x].mesh_uuid != mesh_uuid);
                        }
                    }
                    assert forall|x: int, y: int|
                        #![trigger e2[x].mesh_uuid, e2[y].mesh_uuid]
                        0 <= x < e2.len() && 0 <= y < e2.len() && x != y implies e2[x].mesh_uuid
                            != e2[y].mesh_uuid by {
                        if x < entries.len() && y < entries.len() {
                            assert(e2[x] == entries[x]);
                            assert(e2[y] == entries[y]);
                        } else if x < entries.len() {
                            assert(e2[x] == entries[x]);
                            assert(entries[x].mesh_uuid != mesh_uuid);
                        } else if y < entries.len() {
                            assert(e2[y] == entries[y]);
                            assert(entries[y].mesh_uuid != mesh_uuid);
                        }
                    }
                    assert forall|tok: usize| #[trigger] seg.contains_key(tok) implies cow_has(e2, tok) by {
                        if tok == mesh_uuid {
                            assert(e2[entries.len() as int].mesh_uuid == tok);
                        } else {
                            assert(v1.heap.segment_indices[b].contains_key(tok));
                            assert(cow_has(entries, tok));
                            let x = choose|x: int| 0 <= x < entries.len() && #[trigger] entries[x].mesh_uuid == tok;
                            assert(e2[x] == entries[x]);
                        }
                    }
                } else {
                    assert(v.cow_data[b] == v1.cow_data[b]);
                    assert(v.heap.segment_indices[b] == v1.heap.segment_indices[b]);
                }
            }
            assert forall|q: int| 0 <= q < v.num_buffers() implies {
                &&& (#[trigger] v.buffers[q]).uuid == v.heap.buffers_uuid[q]
                &&& v.buffers[q].size == v.buffer_size()
                &&& v.buffers[q].uuid.id_spec() < v.next_id
            } by {
                assert(v1.buffers[q] == v.buffers[q]);
            }
        }
    }

    /// Adds a mesh instance: it takes a slot in the first buffer with room,
    /// after the heap has grown by a buffer, or doubled when it may hold no
    /// more buffers, if every buffer is full. Refused, before any growth and
    /// with nothing changed, when some buffer holds the mesh already.
    pub fn add_mesh(&mut self, mesh_uuid: usize, data: Vec<u8>) -> (r: (Vec<MeshCommand>, Result<(), MeshError>))
        requires
            old(self).wf(),
            old(self)@.consistent(),
            old(self)@.can_grow(),
            data@.len() == old(self)@.instance_size,
        ensures
            final(self).wf(),
            final(self)@.consistent(),
            final(self)@ == old(self)@.add_mesh_spec(mesh_uuid, data@).0,
            mesh_commands_view(r.0@) == old(self)@.add_mesh_spec(mesh_uuid, data@).1,
            r.1 == old(self)@.add_mesh_spec(mesh_uuid, data@).2,
    {
        let ghost o = self@;
        let mut commands: Vec<MeshCommand> = Vec::new();
        proof {
            self.memory_heap.lemma_num_buffers_bounded();
        }
        match self.memory_heap.lookup_memory_segment(mesh_uuid) {
            Ok(_) => {
                assert(mesh_commands_view(commands@) =~= Seq::<MeshCommandView>::empty());
                return (commands, Err(MeshError::MemoryOccupied { mesh_uuid }));
            },
            Err(_) => {},
        }
        proof {
            crate::kernel::meshes::laws::lemma_ready(o, mesh_uuid);
            crate::kernel::meshes::laws::lemma_held_nowhere(o.ready().heap, mesh_uuid);
        }
        let mut allocated = self.memory_heap.allocate_memory(mesh_uuid);
        let out_of_memory = match allocated {
            Err(HeapError::OutOfMemmory) => true,
            _ => false,
        };
        if out_of_memory {
            proof {
                Self::lemma_room_after_growth(o);
            }
            if self.memory_heap.need_memory_scaling() {
                commands = self.scale_memory();
            } else {
                let command = self.expand_memory();
                commands.push(command);
                assert(mesh_commands_view(commands@) =~= seq![o.expanded().1]);
            }
            proof {
                self.memory_heap.lemma_num_buffers_bounded();
            }
            allocated = self.memory_heap.allocate_memory(mesh_uuid);
        } else {
            assert(mesh_commands_view(commands@) =~= Seq::<MeshCommandView>::empty());
        }
        let ghost v1 = if o.must_grow() { o.grown().0 } else { o };
        match allocated {
            Ok(HeapEvent::MemoryAllocated { buffer_uuid, buffer_index }) => {
                let ghost cmds = mesh_commands_view(commands@);
                let ghost data_view = data@;
                self.place_mesh(mesh_uuid, data, buffer_uuid, buffer_index, &mut commands, Ghost(v1));
                proof {
                    assert(mesh_commands_view(commands@) =~= cmds.push(v1.placed(mesh_uuid, data_view).1));
                }
                (commands, Ok(()))
            },
            _ => (commands, Ok(())),
        }
    }

    /// Deletes a mesh instance: its slot is zeroed and given back.
    pub fn delete_mesh(&mut self, mesh_uuid: usize) -> (r: (Vec<MeshCommand>, Result<(), MeshError>))
        requires
            old(self).wf(),
            old(self)@.consistent(),
        ensures
            final(self).wf(),
            final(self)@.consistent(),
            final(self)@ == old(self)@.delete_mesh_spec(mesh_uuid).0,
            mesh_commands_view(r.0@) == old(self)@.delete_mesh_spec(mesh_uuid).1,
            r.1 == old(self)@.delete_mesh_spec(mesh_uuid).2,
    {
        let ghost old_view = self@;
        let mut commands: Vec<MeshCommand> = Vec::new();
        proof {
            lemma_first_at_or_after(old_view.heap.holds(mesh_uuid), 0, old_view.num_buffers());
            self.memory_heap.lemma_num_buffers_bounded();
        }
        let (buffer_uuid, buffer_index) = match self.memory_heap.deallocate_memory(mesh_uuid) {
            Ok(HeapEvent::MemoryDeallocated { buffer_uuid, buffer_index }) => (buffer_uuid, buffer_index),
            Ok(_) => {
                return (commands, Ok(()));
            },
            Err(HeapError::MemorySegmentNotFound { memory_segment_token }) => {
                assert(mesh_commands_view(commands@) =~= Seq::<MeshCommandView>::empty());
                return (commands, Err(MeshError::SegmentationFault { mesh_uuid: memory_segment_token }));
            },
            Err(_) => {
                return (commands, Ok(()));
            },
        };
        let ghost p = old_view.heap.first_holder(mesh_uuid);
        proof {
            crate::kernel::meshes::memory_heap::law_slots_within_capacity(old_view.heap, p, mesh_uuid);
            Self::lemma_slot_offset(
                buffer_index as nat,
                old_view.heap.buffers_capacity,
                old_view.instance_size,
            );
            assert(old_view.buffers[p].uuid == buffer_uuid);
        }
        let offset = (buffer_index * self.instance_size) as u64;
        let data = vec![0u8; self.instance_size];
        assert(data@ =~= Seq::new(old_view.instance_size, |i: int| 0u8));
        proof {
            assert(holds_id(old_view.buffers, buffer_uuid.id_spec())) by {
                assert(old_view.buffers[p].uuid.id_spec() == buffer_uuid.id_spec());
            }
        }
        let placed = self.resources.update_instance_buffer(&buffer_uuid, offset, self.instance_size as u64);
        let position = match placed {
            Ok(position) => position,
            Err(_) => {
                return (commands, Ok(()));
            },
        };
        proof {
            assert(old_view.buffers[p].uuid == buffer_uuid);
            assert(offset + self.instance_size as u64 <= old_view.buffers[p].size);
            assert(0 <= p < self.resources@.len());
            assert(self.resources@[p].uuid == buffer_uuid);
            assert(placed == Ok::<usize, crate::kernel::meshes::buffers::BufferError>(p as usize));
            assert(position == p);

        }
        commands.push(MeshCommand::WriteInstance { position, offset, data });
        proof {
            assert(self@.cow_data == old_view.cow_data);
        }
        let ghost before_vec = self.cow_data@[position as int]@;
        let found = self.find_cow(position, mesh_uuid);
        match found {
            Some(j) => {
                self.cow_data[position].remove(j);
            },
            None => {},
        }
        proof {
            let v = self@;
            let entries = old_view.cow_data[p];
            assert(old_view.cow_consistent(p));
            assert(cow_has(entries, mesh_uuid));
            assert(found is Some);
            let j = found->Some_0 as int;
            assert forall|i: int| 0 <= i < entries.len() && i != j implies #[trigger] not_mesh(mesh_uuid)(entries[i]) by {
                assert(entries[i].mesh_uuid != entries[j].mesh_uuid);
            }
            lemma_filter_one(entries, not_mesh(mesh_uuid), j);
            assert(self.cow_data@[p]@ == before_vec.remove(j));
            assert(entries =~= before_vec.map_values(|e: CowEntry| e@));
            assert(v.cow_data[p] =~= entries.remove(j));
            assert(v.cow_data =~= old_view.cow_data.update(p, cow_remove(entries, mesh_uuid)));
            assert(v =~= old_view.delete_mesh_spec(mesh_uuid).0);
            assert(mesh_commands_view(commands@) =~= old_view.delete_mesh_spec(mesh_uuid).1);
            // the invariant
            assert forall|b: int| 0 <= b < v.num_buffers() implies #[trigger] v.cow_consistent(b) by {
                assert(old_view.cow_consistent(b));
                if b == p {
                    let e2 = v.cow_data[b];
                    lemma_filter_members(entries, not_mesh(mesh_uuid));
                    assert forall|x: int| 0 <= x < e2.len() implies {
                        &&& v.heap.segment_indices[b].contains_key(#[trigger] e2[x].mesh_uuid)
                        &&& v.heap.segment_indices[b][e2[x].mesh_uuid] == e2[x].index
                        &&& e2[x].data.len() == v.instance_size
                    } by {
                        let y = if x < j { x } else { x + 1 };
                        assert(e2[x] == entries[y]);
                    }
                    assert forall|x: int, y: int|
                        #![trigger e2[x].mesh_uuid, e2[y].mesh_uuid]
                        0 <= x < e2.len() && 0 <= y < e2.len() && x != y implies e2[x].mesh_uuid
                            != e2[y].mesh_uuid by {
                        let x2 = if x < j { x } else { x + 1 };
                        let y2 = if y < j { y } else { y + 1 };
                        assert(e2[x] == entries[x2]);
                        assert(e2[y] == entries[y2]);
                    }
                    assert forall|tok: usize| #[trigger] v.heap.segment_indices[b].contains_key(tok) implies cow_has(
                        e2,
                        tok,
                    ) by {
                        assert(cow_has(entries, tok));
                        let x = choose|x: int| 0 <= x < entries.len() && #[trigger] entries[x].mesh_uuid == tok;
                        assert(x != j);
                        let x2 = if x < j { x } else { x - 1 };
                        assert(e2[x2] == entries[x]);
                    }
                } else {
                    assert(v.cow_data[b] == old_view.cow_data[b]);
                    assert(v.heap.segment_indices[b] == old_view.heap.segment_indices[b]);
                }
            }
            assert forall|q: int| 0 <= q < v.num_buffers() implies {
                &&& (#[trigger] v.buffers[q]).uuid == v.heap.buffers_uuid[q]
                &&& v.buffers[q].size == v.buffer_size()
                &&& v.buffers[q].uuid.id_spec() < v.next_id
            } by {
                assert(old_view.buffers[q] == v.buffers[q]);
            }
        }
        (commands, Ok(()))
    }

    /// Replaces the bytes of a mesh instance in its slot.
    pub fn update_mesh(&mut self, mesh_uuid: usize, data: Vec<u8>) -> (r: (Vec<MeshCommand>, Result<(), MeshError>))
        requires
            old(self).wf(),
            old(self)@.consistent(),
            data@.len() == old(self)@.instance_size,
        ensures
            final(self).wf(),
            final(self)@.consistent(),
            final(self)@ == old(self)@.update_mesh_spec(mesh_uuid, data@).0,
            mesh_commands_view(r.0@) == old(self)@.update_mesh_spec(mesh_uuid, data@).1,
            r.1 == old(self)@.update_mesh_spec(mesh_uuid, data@).2,
    {
        let ghost old_view = self@;
        let mut commands: Vec<MeshCommand> = Vec::new();
        proof {
            lemma_first_at_or_after(old_view.heap.holds(mesh_uuid), 0, old_view.num_buffers());
            self.memory_heap.lemma_num_buffers_bounded();
        }
        let (buffer_uuid, buffer_index) = match self.memory_heap.lookup_memory_segment(mesh_uuid) {
            Ok(HeapEvent::MemorySegmentFound { buffer_uuid, buffer_index }) => (buffer_uuid, buffer_index),
            Ok(_) => {
                return (commands, Ok(()));
            },
            Err(HeapError::MemorySegmentNotFound { memory_segment_token }) => {
                assert(mesh_commands_view(commands@) =~= Seq::<MeshCommandView>::empty());
                return (commands, Err(MeshError::SegmentationFault { mesh_uuid: memory_segment_token }));
            },
            Err(_) => {
                return (commands, Ok(()));
            },
        };
        let ghost p = old_view.heap.first_holder(mesh_uuid);
        proof {
            crate::kernel::meshes::memory_heap::law_slots_within_capacity(old_view.heap, p, mesh_uuid);
            Self::lemma_slot_offset(
                buffer_index as nat,
                old_view.heap.buffers_capacity,
                old_view.instance_size,
            );
            assert(old_view.buffers[p].uuid == buffer_uuid);
        }
        let offset = (buffer_index * self.instance_size) as u64;
        proof {
            assert(holds_id(old_view.buffers, buffer_uuid.id_spec())) by {
                assert(old_view.buffers[p].uuid.id_spec() == buffer_uuid.id_spec());
            }
        }
        let placed = self.resources.update_instance_buffer(&buffer_uuid, offset, self.instance_size as u64);
        let position = match placed {
            Ok(position) => position,
            Err(_) => {
                return (commands, Ok(()));
            },
        };
        proof {
            assert(old_view.buffers[p].uuid == buffer_uuid);
            assert(offset + self.instance_size as u64 <= old_view.buffers[p].size);
            assert(0 <= p < self.resources@.len());
            assert(self.resources@[p].uuid == buffer_uuid);
            assert(placed == Ok::<usize, crate::kernel::meshes::buffers::BufferError>(p as usize));
            assert(position == p);

            assert(old_view.cow_consistent(p));
        }
        let copy = data.clone();
        assert(copy@ =~= data@);
        let ghost data_view = data@;
        commands.push(MeshCommand::WriteInstance { position, offset, data });
        let found = self.find_cow(position, mesh_uuid);
        match found {
            Some(j) => {
                self.cow_data[position].set(j, CowEntry { mesh_uuid, data: copy, index: buffer_index });
            },
            None => {},
        }
        proof {
            let v = self@;
            let entries = old_view.cow_data[p];
            assert(cow_has(entries, mesh_uuid));
            assert(found is Some);
            let j = found->Some_0 as int;
            assert(v.cow_data[p] =~= cow_replace(entries, mesh_uuid, data_view, buffer_index)) by {
                assert forall|x: int| 0 <= x < entries.len() implies v.cow_data[p][x] == cow_replace(
                    entries,
                    mesh_uuid,
                    data_view,
                    buffer_index,
                )[x] by {
                    if entries[x].mesh_uuid == mesh_uuid && x != j {
                        assert(entries[x].mesh_uuid != entries[j].mesh_uuid);
                    }
                }
            }
            assert(v.cow_data =~= old_view.cow_data.update(p, cow_replace(entries, mesh_uuid, data_view, buffer_index)));
            assert(v =~= old_view.update_mesh_spec(mesh_uuid, data_view).0);
            assert(mesh_commands_view(commands@) =~= old_view.update_mesh_spec(mesh_uuid, data_view).1);
            assert forall|b: int| 0 <= b < v.num_buffers() implies #[trigger] v.cow_consistent(b) by {
                assert(old_view.cow_consistent(b));
                if b == p {
                    let e2 = v.cow_data[b];
                    assert forall|x: int| 0 <= x < e2.len() implies {
                        &&& v.heap.segment_indices[b].contains_key(#[trigger] e2[x].mesh_uuid)
                        &&& v.heap.segment_indices[b][e2[x].mesh_uuid] == e2[x].index
                        &&& e2[x].data.len() == v.instance_size
                    } by {
                        assert(e2[x].mesh_uuid == entries[x].mesh_uuid);
                    }
                    assert forall|x: int, y: int|
                        #![trigger e2[x].mesh_uuid, e2[y].mesh_uuid]
                        0 <= x < e2.len() && 0 <= y < e2.len() && x != y implies e2[x].mesh_uuid
                            != e2[y].mesh_uuid by {
                        assert(e2[x].mesh_uuid == entries[x].mesh_uuid);
                        assert(e2[y].mesh_uuid == entries[y].mesh_uuid);
                    }
                    assert forall|tok: usize| #[trigger] v.heap.segment_indices[b].contains_key(tok) implies cow_has(
                        e2,
                        tok,
                    ) by {
                        assert(cow_has(entries, tok));
                        let x = choose|x: int| 0 <= x < entries.len() && #[trigger] entries[x].mesh_uuid == tok;
                        assert(e2[x].mesh_uuid == tok);
                    }
                } else {
                    assert(v.cow_data[b] == old_view.cow_data[b]);
                }
            }
        }
        (commands, Ok(()))
    }

    /// Whether growing the heap, when the next `add_mesh` needs it, stays
    /// within the machine's integers.
    pub fn growth_fits(&self) -> (r: bool)
        requires
            self.wf(),
            self@.consistent(),
        ensures
            r == self@.can_grow(),
    {
        proof {
            self.memory_heap.lemma_num_buffers_bounded();
        }
        let must_grow = self.memory_heap.get_index_of_free_buffer().is_err();
        if !must_grow {
            return true;
        }
        let next = self.buffer_ids.next_id();
        let n = self.memory_heap.num_buffers();
        if self.memory_heap.need_memory_scaling() {
            let max = self.memory_heap.max_buffers();
            let capacity = self.memory_heap.get_capacity();
            let size = capacity * self.instance_size;
            max <= usize::MAX / 2 && capacity <= usize::MAX / 2 && size <= usize::MAX / 2 && next
                < usize::MAX - n
        } else {
            next < usize::MAX
        }
    }

    /// The number of instances to draw from each instance buffer, in drawing order.
    pub fn nums_instances(&self) -> (r: Vec<u32>)
        requires
            self.wf(),
        ensures
            r@ == self@.heap.nums_instances_spec(),
    {
        self.memory_heap.get_nums_instances()
    }

    /// The draws of one frame, paired as the instance buffers and the
    /// instance counts line up: for each buffer, in drawing order, its
    /// position and the number of instances to draw from it.
    pub fn draw_calls(&self) -> (r: Vec<(usize, u32)>)
        requires
            self.wf(),
            self@.consistent(),
        ensures
            r@.len() == self@.buffers.len(),
            forall|i: int|
                0 <= i < r@.len() ==> #[trigger] r@[i] == (i as usize, self@.heap.nums_instances_spec()[i]),
    {
        let nums = self.nums_instances();
        let n = self.resources.len();
        let mut calls: Vec<(usize, u32)> = Vec::new();
        let mut i: usize = 0;
        while i < n && i < nums.len()
            invariant
                i <= n,
                n == self@.buffers.len(),
                nums@ == self@.heap.nums_instances_spec(),
                calls@.len() == i,
                forall|k: int| 0 <= k < i ==> #[trigger] calls@[k] == (k as usize, nums@[k]),
            decreases n - i,
        {
            calls.push((i, nums[i]));
            i = i + 1;
        }
        calls
    }

    /// The instance-buffer records, in drawing order.
    pub fn instance_buffers(&self) -> (r: Vec<InstanceBuffer>)
        ensures
            r@ == self@.buffers,
    {
        self.resources.buffers()
    }

    /// Size in bytes of one instance.
    pub fn instance_size(&self) -> (r: usize)
        ensures
            r == self@.instance_size,
    {
        self.instance_size
    }

    /// A mesh system without buffers, for instances of `instance_size` bytes.
    pub fn new(instance_size: usize) -> (r: MeshSystem)
        requires
            8 * instance_size <= usize::MAX,
        ensures
            r.wf(),
            r@.consistent(),
            r@.instance_size == instance_size,
            r@.buffers == Seq::<InstanceBuffer>::empty(),
            r@.heap.buffers_capacity == 8,
            r@.heap.max_buffers_count == 8,
            r@.heap.num_buffers() == 0,
            r@.cow_data == Seq::<Seq<CowEntryView>>::empty(),
            r@.next_id == 1,
    {
        proof {
            assert(8 * instance_size == 8 * (instance_size as nat));
        }
        let r = MeshSystem {
            memory_heap: MemoryHeap::new(),
            cow_data: Vec::new(),
            resources: Resources::new(),
            buffer_ids: UuidCounter::new(),
            instance_size,
        };
        assert(r@.cow_data =~= Seq::<Seq<CowEntryView>>::empty());
        r
    }
}

} // verus!
