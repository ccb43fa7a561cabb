//! Properties of the mesh system that span its operations.

use vstd::prelude::*;
use crate::kernel::meshes::buffers::BufferUUID;
use crate::kernel::meshes::memory_heap::{
    MemoryHeapView, law_deallocate_undoes_allocate, law_slots_within_capacity, lemma_first_at,
    lemma_first_at_or_after,
};
use crate::kernel::meshes::{CowEntryView, MeshCommandView, MeshSystem, MeshSystemView, cow_has, not_mesh};
use crate::seq_facts::lemma_filter_all;

verus! {

/// No buffer of the heap holds the token.
pub open spec fn held_nowhere(h: MemoryHeapView, tok: usize) -> bool {
    forall|j: int| 0 <= j < h.segment_indices.len() ==> !#[trigger] h.segment_indices[j].contains_key(tok)
}

/// `first_holder` finds no buffer exactly when no buffer holds the token.
pub(crate) proof fn lemma_held_nowhere(h: MemoryHeapView, tok: usize)
    requires
        h.consistent(),
    ensures
        h.first_holder(tok) >= h.num_buffers() <==> held_nowhere(h, tok),
{
    lemma_first_at_or_after(h.holds(tok), 0, h.segment_indices.len() as int);
    if h.first_holder(tok) < h.num_buffers() {
        assert(h.holds(tok)(h.first_holder(tok)));
    } else {
        assert forall|j: int| 0 <= j < h.segment_indices.len() implies !#[trigger] h.segment_indices[j].contains_key(
            tok,
        ) by {
            assert(!h.holds(tok)(j));
        }
    }
}

/// Growing the heap keeps the invariant, keeps what every existing buffer
/// holds, and adds only empty buffers.
proof fn lemma_grown(v: MeshSystemView)
    requires
        v.consistent(),
        v.must_grow(),
        v.can_grow(),
    ensures
        v.grown().0.consistent(),
        v.grown().0.num_buffers() >= v.num_buffers(),
        forall|j: int|
            0 <= j < v.num_buffers() ==> #[trigger] v.grown().0.heap.segment_indices[j]
                == v.heap.segment_indices[j],
        forall|j: int|
            v.num_buffers() <= j < v.grown().0.num_buffers() ==> #[trigger] v.grown().0.heap.segment_indices[j]
                == Map::<usize, usize>::empty(),
{
    let g = v.grown().0;
    let n = v.num_buffers();
    if v.heap.needs_scaling() {
        assert((2 * v.heap.buffers_capacity) * v.instance_size == 2 * (v.heap.buffers_capacity
            * v.instance_size)) by (nonlinear_arith);
        assert forall|b: int| 0 <= b < g.num_buffers() implies #[trigger] g.heap.buffer_consistent(b) by {
            assert(v.heap.buffer_consistent(b));
        }
        assert forall|i: int, j: int|
            #![trigger g.buffers[i].uuid.id_spec(), g.buffers[j].uuid.id_spec()]
            0 <= i < g.buffers.len() && 0 <= j < g.buffers.len() && i != j implies g.buffers[i].uuid.id_spec()
                != g.buffers[j].uuid.id_spec() by {
            BufferUUID::lemma_with_id((v.next_id + i) as usize);
            BufferUUID::lemma_with_id((v.next_id + j) as usize);
        }
        assert forall|q: int| 0 <= q < g.num_buffers() implies {
            &&& (#[trigger] g.buffers[q]).uuid == g.heap.buffers_uuid[q]
            &&& g.buffers[q].size == g.buffer_size()
            &&& g.buffers[q].uuid.id_spec() < g.next_id
        } by {
            BufferUUID::lemma_with_id((v.next_id + q) as usize);
        }
        assert forall|b: int| 0 <= b < g.num_buffers() implies #[trigger] g.cow_consistent(b) by {
            assert(v.cow_consistent(b));
            assert(g.heap.segment_indices[b] == v.heap.segment_indices[b]);
        }
    } else {
        BufferUUID::lemma_with_id(v.next_id);
        assert(g.heap.buffer_consistent(n)) by {
            assert(g.heap.free_indices[n] =~= Seq::<usize>::empty());
            assert(g.heap.segment_indices[n] =~= Map::<usize, usize>::empty());
        }
        assert forall|b: int| 0 <= b < g.num_buffers() implies #[trigger] g.heap.buffer_consistent(b) by {
            if b < n {
                assert(v.heap.buffer_consistent(b));
                assert(g.heap.segment_indices[b] == v.heap.segment_indices[b]);
                assert(g.heap.free_indices[b] == v.heap.free_indices[b]);
            }
        }
        assert forall|i: int, j: int|
            #![trigger g.buffers[i].uuid.id_spec(), g.buffers[j].uuid.id_spec()]
            0 <= i < g.buffers.len() && 0 <= j < g.buffers.len() && i != j implies g.buffers[i].uuid.id_spec()
                != g.buffers[j].uuid.id_spec() by {
            if i < n && j < n {
                assert(g.buffers[i] == v.buffers[i]);
                assert(g.buffers[j] == v.buffers[j]);
            } else if i < n {
                assert(g.buffers[i] == v.buffers[i]);
                assert(v.buffers[i].uuid.id_spec() < v.next_id);
            } else if j < n {
                assert(g.buffers[j] == v.buffers[j]);
                assert(v.buffers[j].uuid.id_spec() < v.next_id);
            }
        }
        assert forall|q: int| 0 <= q < g.num_buffers() implies {
            &&& (#[trigger] g.buffers[q]).uuid == g.heap.buffers_uuid[q]
            &&& g.buffers[q].size == g.buffer_size()
            &&& g.buffers[q].uuid.id_spec() < g.next_id
        } by {
            if q < n {
                assert(g.buffers[q] == v.buffers[q]);
            }
        }
        assert forall|b: int| 0 <= b < g.num_buffers() implies #[trigger] g.cow_consistent(b) by {
            if b < n {
                assert(v.cow_consistent(b));
                assert(g.cow_data[b] == v.cow_data[b]);
                assert(g.heap.segment_indices[b] == v.heap.segment_indices[b]);
            } else {
                assert(g.cow_data[b] == Seq::<CowEntryView>::empty());
            }
        }
    }
}

/// The state `add_mesh` places a mesh in keeps the invariant, has a buffer
/// with room, and holds a mesh held nowhere before nowhere.
pub(crate) proof fn lemma_ready(v: MeshSystemView, tok: usize)
    requires
        v.consistent(),
        v.can_grow(),
    ensures
        v.ready().consistent(),
        v.ready().heap.first_free_buffer() < v.ready().num_buffers(),
        0 <= v.ready().heap.first_free_buffer(),
        v.heap.first_holder(tok) >= v.num_buffers() ==> held_nowhere(v.ready().heap, tok),
{
    let r = v.ready();
    lemma_first_at_or_after(r.heap.has_room(), 0, r.heap.buffers_len.len() as int);
    lemma_held_nowhere(v.heap, tok);
    if v.must_grow() {
        lemma_grown(v);
        MeshSystem::lemma_room_after_growth(v);
        if v.heap.first_holder(tok) >= v.num_buffers() {
            assert forall|j: int| 0 <= j < r.heap.segment_indices.len() implies !#[trigger] r.heap.segment_indices[j].contains_key(tok) by {
                if j < v.num_buffers() {
                    assert(r.heap.segment_indices[j] == v.heap.segment_indices[j]);
                }
            }
        }
    }
}

/// A mesh that no buffer holds is always added.
pub proof fn law_new_mesh_is_added(v: MeshSystemView, tok: usize, data: Seq<u8>)
    requires
        v.consistent(),
        v.can_grow(),
        v.heap.first_holder(tok) >= v.num_buffers(),
    ensures
        v.add_mesh_spec(tok, data).2 == Ok::<(), crate::kernel::meshes::MeshError>(()),
{
    lemma_ready(v, tok);
}

/// Updating or deleting a mesh right after it was added rewrites the slot
/// the add wrote: the update writes the new bytes there, the delete zeroes it.
pub proof fn law_update_and_delete_find_added(v: MeshSystemView, tok: usize, data: Seq<u8>, new_data: Seq<u8>)
    requires
        v.consistent(),
        v.can_grow(),
        v.heap.first_holder(tok) >= v.num_buffers(),
    ensures
        ({
            let w = v.add_mesh_spec(tok, data).0;
            let cmds = v.add_mesh_spec(tok, data).1;
            &&& cmds.len() > 0
            &&& cmds.last() matches MeshCommandView::WriteInstance { position, offset, data: written }
                && written == data && w.update_mesh_spec(tok, new_data).2 == Ok::<
                (),
                crate::kernel::meshes::MeshError,
            >(()) && w.update_mesh_spec(tok, new_data).1 == seq![
                MeshCommandView::WriteInstance { position, offset, data: new_data },
            ] && w.delete_mesh_spec(tok).2 == Ok::<(), crate::kernel::meshes::MeshError>(())
                && w.delete_mesh_spec(tok).1 == seq![
                MeshCommandView::WriteInstance {
                    position,
                    offset,
                    data: Seq::new(v.instance_size, |i: int| 0u8),
                },
            ]
        }),
{
    lemma_ready(v, tok);
    let r = v.ready();
    let n = r.num_buffers();
    let j = r.heap.first_free_buffer();
    let w = v.add_mesh_spec(tok, data).0;
    lemma_held_nowhere(r.heap, tok);
    assert(w.heap == r.heap.allocate_spec(tok).0);
    assert forall|i: int| 0 <= i < j implies !#[trigger] w.heap.holds(tok)(i) by {
        assert(w.heap.segment_indices[i] == r.heap.segment_indices[i]);
    }
    assert(w.heap.holds(tok)(j));
    lemma_first_at(w.heap.holds(tok), 0, j, n);
}

/// Deleting a mesh right after it was added gives back the CPU copies, the
/// slot tables and the buffers of the state it was placed in.
pub proof fn law_delete_undoes_add(v: MeshSystemView, tok: usize, data: Seq<u8>)
    requires
        v.consistent(),
        v.can_grow(),
        v.heap.first_holder(tok) >= v.num_buffers(),
    ensures
        v.add_mesh_spec(tok, data).0.delete_mesh_spec(tok).0.cow_data == v.ready().cow_data,
        v.add_mesh_spec(tok, data).0.delete_mesh_spec(tok).0.heap.segment_indices
            == v.ready().heap.segment_indices,
        v.add_mesh_spec(tok, data).0.delete_mesh_spec(tok).0.buffers == v.ready().buffers,
{
    law_update_and_delete_find_added(v, tok, data, data);
    lemma_ready(v, tok);
    let r = v.ready();
    let j = r.heap.first_free_buffer();
    let w = v.add_mesh_spec(tok, data).0;
    let w2 = w.delete_mesh_spec(tok).0;
    lemma_held_nowhere(r.heap, tok);
    law_deallocate_undoes_allocate(r.heap, tok);
    assert forall|i: int| 0 <= i < j implies !#[trigger] w.heap.holds(tok)(i) by {
        assert(w.heap.segment_indices[i] == r.heap.segment_indices[i]);
    }
    assert(w.heap.holds(tok)(j));
    lemma_first_at(w.heap.holds(tok), 0, j, r.num_buffers());
    let entries = r.cow_data[j];
    let entry = CowEntryView { mesh_uuid: tok, data, index: r.heap.next_index(j) };
    assert(r.cow_consistent(j));
    assert forall|i: int| 0 <= i < entries.len() implies #[trigger] not_mesh(tok)(entries[i]) by {
        assert(r.heap.segment_indices[j].contains_key(entries[i].mesh_uuid));
    }
    lemma_filter_all(entries, not_mesh(tok));
    entries.lemma_filter_push(entry, not_mesh(tok));
    assert(w.cow_data[j] == entries.push(entry));
    assert(w2.cow_data =~= r.cow_data);
}

/// A refused add, update or delete changes nothing and asks for no GPU work;
/// an add is refused exactly when some buffer holds the mesh already.
pub proof fn law_mesh_refusals_change_nothing(v: MeshSystemView, tok: usize, data: Seq<u8>)
    ensures
        v.add_mesh_spec(tok, data).2 is Err <==> v.heap.first_holder(tok) < v.num_buffers(),
        v.update_mesh_spec(tok, data).2 is Err ==> v.update_mesh_spec(tok, data).0 == v
            && v.update_mesh_spec(tok, data).1 == Seq::<MeshCommandView>::empty(),
        v.delete_mesh_spec(tok).2 is Err ==> v.delete_mesh_spec(tok).0 == v
            && v.delete_mesh_spec(tok).1 == Seq::<MeshCommandView>::empty(),
        v.add_mesh_spec(tok, data).2 is Err ==> v.add_mesh_spec(tok, data).0 == v
            && v.add_mesh_spec(tok, data).1 == Seq::<MeshCommandView>::empty(),
{
}

/// Every write of an update or a delete lands inside an existing buffer.
pub proof fn law_writes_within_buffers(v: MeshSystemView, tok: usize, data: Seq<u8>)
    requires
        v.consistent(),
    ensures
        v.update_mesh_spec(tok, data).2 is Ok ==> (v.update_mesh_spec(tok, data).1[0] matches MeshCommandView::WriteInstance {
            position,
            offset,
            ..
        } && position < v.buffers.len() && offset + v.instance_size <= v.buffers[position as int].size),
        v.delete_mesh_spec(tok).2 is Ok ==> (v.delete_mesh_spec(tok).1[0] matches MeshCommandView::WriteInstance {
            position,
            offset,
            ..
        } && position < v.buffers.len() && offset + v.instance_size <= v.buffers[position as int].size),
{
    lemma_first_at_or_after(v.heap.holds(tok), 0, v.num_buffers());
    let p = v.heap.first_holder(tok);
    if p < v.num_buffers() {
        let k = v.heap.segment_indices[p][tok];
        law_slots_within_capacity(v.heap, p, tok);
        MeshSystem::lemma_slot_offset(k as nat, v.heap.buffers_capacity, v.instance_size);
    }
}

/// The write of an added mesh lands inside an existing buffer of the new state.
pub proof fn law_added_write_within_buffer(v: MeshSystemView, tok: usize, data: Seq<u8>)
    requires
        v.consistent(),
        v.can_grow(),
    ensures
        v.add_mesh_spec(tok, data).2 is Ok ==> (v.add_mesh_spec(tok, data).1.last() matches MeshCommandView::WriteInstance {
            position,
            offset,
            ..
        } && position < v.add_mesh_spec(tok, data).0.buffers.len() && offset + v.instance_size
            <= v.add_mesh_spec(tok, data).0.buffers[position as int].size),
{
    lemma_ready(v, tok);
    let r = v.ready();
    let j = r.heap.first_free_buffer();
    if v.add_mesh_spec(tok, data).2 is Ok {
        let h = r.heap.allocate_spec(tok).0;
        let k = r.heap.next_index(j);
        lemma_first_at_or_after(r.heap.has_room(), 0, r.heap.buffers_len.len() as int);
        assert(r.heap.has_room()(j));
        assert(r.heap.buffer_consistent(j));
        assert((k as nat) < r.heap.buffers_capacity) by {
            let f = r.heap.free_indices[j];
            if f.len() > 0 {
                assert(f[f.len() - 1] == k);
            }
        }
        MeshSystem::lemma_slot_offset(k as nat, r.heap.buffers_capacity, r.instance_size);
    }
}

/// Each instance buffer is drawn with the number of slots it has handed out,
/// and those instances lie inside the buffer.
pub proof fn law_draw_counts_match_buffers(v: MeshSystemView)
    requires
        v.consistent(),
    ensures
        v.heap.nums_instances_spec().len() == v.buffers.len(),
        forall|i: int|
            0 <= i < v.buffers.len() ==> v.heap.buffers_len[i] * v.instance_size <= (#[trigger] v.buffers[i]).size,
{
    assert forall|i: int| 0 <= i < v.buffers.len() implies v.heap.buffers_len[i] * v.instance_size
        <= (#[trigger] v.buffers[i]).size by {
        assert(v.heap.buffer_consistent(i));
        let len = v.heap.buffers_len[i] as nat;
        let cap = v.heap.buffers_capacity;
        let size = v.instance_size;
        assert(len * size <= cap * size) by (nonlinear_arith)
            requires
                len <= cap,
        ;
    }
}

/// The position in the commands of scaling the first `k` buffers at which
/// the CPU copy `j` of buffer `p` is written into its new buffer.
proof fn lemma_scaling_writes(v: MeshSystemView, k: nat, p: int, j: int) -> (idx: int)
    requires
        0 <= p < k,
        k <= v.num_buffers(),
        0 <= j < v.cow_data[p].len(),
    ensures
        0 <= idx < v.scale_commands(k).len(),
        v.scale_commands(k)[idx] == MeshSystem::copy_write(
            v.num_buffers() as usize,
            v.instance_size,
            v.cow_data[p][j],
        ),
    decreases k,
{
    let prev = v.scale_commands((k - 1) as nat);
    if p < k - 1 {
        let i = lemma_scaling_writes(v, (k - 1) as nat, p, j);
        assert(v.scale_commands(k)[i] == prev[i]);
        i
    } else {
        let i = prev.len() + 1 + j;
        assert(v.scale_commands(k)[i] == v.rebuild_commands(p)[1 + j]);
        i
    }
}

/// Doubling the heap keeps every mesh in its buffer and slot and every CPU
/// copy, doubles the size of every buffer, and writes every CPU copy into
/// the new buffer of its buffer at its slot.
pub proof fn law_scaling_keeps_instances(v: MeshSystemView)
    requires
        v.consistent(),
        2 * v.buffer_size() <= usize::MAX,
    ensures
        v.scaled().0.heap.segment_indices == v.heap.segment_indices,
        v.scaled().0.cow_data == v.cow_data,
        v.scaled().0.heap.buffers_capacity == 2 * v.heap.buffers_capacity,
        v.scaled().0.buffers.len() == v.buffers.len(),
        forall|p: int|
            0 <= p < v.buffers.len() ==> #[trigger] v.scaled().0.buffers[p].size == 2 * v.buffers[p].size,
        forall|p: int, j: int|
            0 <= p < v.num_buffers() && 0 <= j < v.cow_data[p].len() ==> exists|idx: int|
                0 <= idx < v.scaled().1.len() && #[trigger] v.scaled().1[idx] == MeshSystem::copy_write(
                    v.num_buffers() as usize,
                    v.instance_size,
                    #[trigger] v.cow_data[p][j],
                ),
{
    let n = v.num_buffers();
    assert forall|p: int, j: int|
        0 <= p < n && 0 <= j < v.cow_data[p].len() implies exists|idx: int|
            0 <= idx < v.scaled().1.len() && #[trigger] v.scaled().1[idx] == MeshSystem::copy_write(
                n as usize,
                v.instance_size,
                #[trigger] v.cow_data[p][j],
            ) by {
        let idx = lemma_scaling_writes(v, n as nat, p, j);
        assert(v.scaled().1[idx] == MeshSystem::copy_write(n as usize, v.instance_size, v.cow_data[p][j]));
    }
}

/// After an update the CPU copy of the mesh holds the new bytes at the mesh's
/// slot, so a doubling of the heap afterwards writes the new bytes, not the
/// old ones, into the mesh's new buffer at its slot.
pub proof fn law_update_kept_for_growth(v: MeshSystemView, tok: usize, data: Seq<u8>)
    requires
        v.consistent(),
        data.len() == v.instance_size,
    ensures
        v.update_mesh_spec(tok, data).2 is Ok ==> {
            let w = v.update_mesh_spec(tok, data).0;
            let p = v.heap.first_holder(tok);
            let k = v.heap.segment_indices[p][tok];
            &&& exists|j: int|
                0 <= j < w.cow_data[p].len() && #[trigger] w.cow_data[p][j] == (CowEntryView {
                    mesh_uuid: tok,
                    data,
                    index: k,
                })
            &&& exists|idx: int|
                0 <= idx < w.scaled().1.len() && #[trigger] w.scaled().1[idx]
                    == (MeshCommandView::WriteInstance {
                    position: w.num_buffers() as usize,
                    offset: (k * v.instance_size) as u64,
                    data,
                })
        },
{
    lemma_first_at_or_after(v.heap.holds(tok), 0, v.num_buffers());
    let p = v.heap.first_holder(tok);
    if v.update_mesh_spec(tok, data).2 is Ok {
        let w = v.update_mesh_spec(tok, data).0;
        let k = v.heap.segment_indices[p][tok];
        assert(v.cow_consistent(p));
        assert(cow_has(v.cow_data[p], tok));
        let j = choose|j: int| 0 <= j < v.cow_data[p].len() && #[trigger] v.cow_data[p][j].mesh_uuid == tok;
        assert(w.cow_data[p][j] == (CowEntryView { mesh_uuid: tok, data, index: k }));
        assert(w.num_buffers() == v.num_buffers());
        assert(w.instance_size == v.instance_size);
        let idx = lemma_scaling_writes(w, w.num_buffers() as nat, p, j);
        assert(w.scaled().1[idx] == (MeshCommandView::WriteInstance {
            position: w.num_buffers() as usize,
            offset: (k * v.instance_size) as u64,
            data,
        }));
    }
}

/// A system whose buffers are all full can always grow while the doubled
/// numbers stay within the machine's integers: a doubling is possible when
/// twice the buffer limit, twice the capacity and twice the buffer size fit in
/// a `usize` and the identifiers of the new buffers stay below the largest
/// one; adding a buffer is possible while an identifier is left.
pub proof fn law_growth_possible_within_machine_integers(v: MeshSystemView)
    requires
        v.consistent(),
        v.must_grow(),
    ensures
        v.heap.needs_scaling() && 2 * v.heap.max_buffers_count <= usize::MAX && 2 * v.heap.buffers_capacity
            <= usize::MAX && 2 * v.heap.buffers_capacity * v.instance_size <= usize::MAX && v.next_id
            + v.num_buffers() < usize::MAX ==> v.can_grow(),
        !v.heap.needs_scaling() && v.next_id < usize::MAX ==> v.can_grow(),
{
    assert(2 * v.heap.buffers_capacity * v.instance_size == 2 * (v.heap.buffers_capacity
        * v.instance_size)) by (nonlinear_arith);
}

} // verus!
