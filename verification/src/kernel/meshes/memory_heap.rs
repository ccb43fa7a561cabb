use std::collections::HashMap;
use vstd::prelude::*;
use crate::kernel::meshes::buffers::BufferUUID;

verus! {

broadcast use vstd::std_specs::hash::group_hash_axioms;

/// The first position `j` in `[i, n)` where `pred` holds, or `n` if there is none.
pub open spec fn first_at_or_after(pred: spec_fn(int) -> bool, i: int, n: int) -> int
    decreases n - i,
{
    if i >= n {
        n
    } else if pred(i) {
        i
    } else {
        first_at_or_after(pred, i + 1, n)
    }
}

/// `first_at_or_after` finds the first position where `pred` holds.
pub proof fn lemma_first_at_or_after(pred: spec_fn(int) -> bool, i: int, n: int)
    requires
        i <= n,
    ensures
        i <= first_at_or_after(pred, i, n) <= n,
        first_at_or_after(pred, i, n) < n ==> pred(first_at_or_after(pred, i, n)),
        forall|j: int| i <= j < first_at_or_after(pred, i, n) ==> !#[trigger] pred(j),
    decreases n - i,
{
    if i < n && !pred(i) {
        lemma_first_at_or_after(pred, i + 1, n);
    }
}

/// Number of buffers the heap may hold before it must be scaled.
pub const INITIAL_MAX_BUFFERS: usize = 8;

/// Number of instances one buffer holds before the heap is scaled.
pub const INITIAL_BUFFER_CAPACITY: usize = 8;

/// Slot allocator of the mesh system: instance buffers of a fixed capacity,
/// each with a table from memory-segment token to slot index and a list of
/// slot indices given back for reuse.
pub struct MemoryHeap {
    max_buffers_count: usize,
    buffers_count: usize,
    buffers_capacity: usize,
    buffers_uuid: Vec<BufferUUID>,
    buffers_len: Vec<usize>,
    segment_indices: Vec<HashMap<usize, usize>>,
    free_indices: Vec<Vec<usize>>,
}

/// Abstract state of a `MemoryHeap`, buffer by buffer.
#[verifier::ext_equal]
pub struct MemoryHeapView {
    pub max_buffers_count: nat,
    pub buffers_count: nat,
    pub buffers_capacity: nat,
    pub buffers_uuid: Seq<BufferUUID>,
    /// Number of slots each buffer has handed out (its high-water mark); it
    /// never decreases, and reusing a freed slot does not raise it.
    pub buffers_len: Seq<usize>,
    pub segment_indices: Seq<Map<usize, usize>>,
    pub free_indices: Seq<Seq<usize>>,
}

/// Outcome of a successful operation of the `MemoryHeap`.
#[derive(Clone, Copy, Debug, PartialEq, Eq, Structural)]
pub enum HeapEvent {
    MemoryAllocated { buffer_uuid: BufferUUID, buffer_index: usize },
    MemoryDeallocated { buffer_uuid: BufferUUID, buffer_index: usize },
    MemorySegmentFound { buffer_uuid: BufferUUID, buffer_index: usize },
}

/// Refusals of the `MemoryHeap`.
#[derive(Clone, Copy, Debug, PartialEq, Eq, Structural)]
pub enum HeapError {
    /// Every buffer is full: a buffer must be added.
    OutOfMemmory,
    /// No buffer can be added before the heap is scaled.
    ScalingRequired,
    /// Some buffer holds the token already.
    MemoryOccupied { memory_segment_token: usize },
    /// No buffer holds the token.
    MemorySegmentNotFound { memory_segment_token: usize },
    /// No buffer has the identifier.
    BufferNotFound { uuid: BufferUUID },
    /// A buffer with the identifier exists already.
    BufferAlredyExists { uuid: BufferUUID },
}

impl MemoryHeapView {
    /// Number of buffers.
    pub open spec fn num_buffers(self) -> int {
        self.buffers_uuid.len() as int
    }

    /// Slots of buffer `i` handed out or given back so far.
    pub open spec fn slots_used(self, i: int) -> nat {
        self.segment_indices[i].len() + self.free_indices[i].len()
    }

    /// Buffer `j` has room for one more allocation.
    pub open spec fn has_room(self) -> spec_fn(int) -> bool {
        |j: int| self.buffers_len[j] < self.buffers_capacity
    }

    /// Buffer `j` holds the token.
    pub open spec fn holds(self, tok: usize) -> spec_fn(int) -> bool {
        |j: int| self.segment_indices[j].contains_key(tok)
    }

    /// Buffer `j` has the identifier.
    pub open spec fn named(self, uuid: BufferUUID) -> spec_fn(int) -> bool {
        |j: int| self.buffers_uuid[j] == uuid
    }

    /// The first buffer with room for one more allocation (`num_buffers()` if none).
    pub open spec fn first_free_buffer(self) -> int {
        first_at_or_after(self.has_room(), 0, self.buffers_len.len() as int)
    }

    /// The first buffer that holds the token (`num_buffers()` if none).
    pub open spec fn first_holder(self, tok: usize) -> int {
        first_at_or_after(self.holds(tok), 0, self.segment_indices.len() as int)
    }

    /// The first buffer with the identifier (`num_buffers()` if none).
    pub open spec fn position_of(self, uuid: BufferUUID) -> int {
        first_at_or_after(self.named(uuid), 0, self.buffers_uuid.len() as int)
    }

    /// The slot the next allocation in buffer `i` receives: the most recently
    /// freed one, or else the next never-used one.
    pub open spec fn next_index(self, i: int) -> usize {
        if self.free_indices[i].len() > 0 {
            self.free_indices[i].last()
        } else {
            self.segment_indices[i].len() as usize
        }
    }

    /// The free list of buffer `i` after one allocation.
    pub open spec fn free_after_allocation(self, i: int) -> Seq<usize> {
        if self.free_indices[i].len() > 0 {
            self.free_indices[i].drop_last()
        } else {
            self.free_indices[i]
        }
    }

    /// The slot counts after one allocation in buffer `i`: a fresh slot raises
    /// the count of buffer `i`, a reused one leaves it.
    pub open spec fn len_after_allocation(self, i: int) -> Seq<usize> {
        if self.free_indices[i].len() > 0 {
            self.buffers_len
        } else {
            self.buffers_len.update(i, (self.buffers_len[i] + 1) as usize)
        }
    }

    /// No more buffers can be added without scaling.
    pub open spec fn needs_scaling(self) -> bool {
        self.buffers_count >= self.max_buffers_count
    }

    /// The state after, and the answer of, `allocate_memory(tok)`.
    pub open spec fn allocate_spec(self, tok: usize) -> (MemoryHeapView, Result<HeapEvent, HeapError>) {
        let i = self.first_free_buffer();
        if i >= self.buffers_len.len() {
            (self, Err(HeapError::OutOfMemmory))
        } else if self.first_holder(tok) < self.segment_indices.len() {
            (self, Err(HeapError::MemoryOccupied { memory_segment_token: tok }))
        } else {
            let k = self.next_index(i);
            (
                MemoryHeapView {
                    buffers_len: self.len_after_allocation(i),
                    segment_indices: self.segment_indices.update(
                        i,
                        self.segment_indices[i].insert(tok, k),
                    ),
                    free_indices: self.free_indices.update(i, self.free_after_allocation(i)),
                    ..self
                },
                Ok(HeapEvent::MemoryAllocated { buffer_uuid: self.buffers_uuid[i], buffer_index: k }),
            )
        }
    }

    /// The state after, and the answer of, `deallocate_memory(tok)`.
    pub open spec fn deallocate_spec(self, tok: usize) -> (MemoryHeapView, Result<HeapEvent, HeapError>) {
        let i = self.first_holder(tok);
        if i >= self.segment_indices.len() {
            (self, Err(HeapError::MemorySegmentNotFound { memory_segment_token: tok }))
        } else {
            let k = self.segment_indices[i][tok];
            (
                MemoryHeapView {
                    segment_indices: self.segment_indices.update(i, self.segment_indices[i].remove(tok)),
                    free_indices: self.free_indices.update(i, self.free_indices[i].push(k)),
                    ..self
                },
                Ok(HeapEvent::MemoryDeallocated { buffer_uuid: self.buffers_uuid[i], buffer_index: k }),
            )
        }
    }

    /// What `lookup_memory_segment(tok)` answers.
    pub open spec fn lookup_spec(self, tok: usize) -> Result<HeapEvent, HeapError> {
        let i = self.first_holder(tok);
        if i >= self.segment_indices.len() {
            Err(HeapError::MemorySegmentNotFound { memory_segment_token: tok })
        } else {
            Ok(
                HeapEvent::MemorySegmentFound {
                    buffer_uuid: self.buffers_uuid[i],
                    buffer_index: self.segment_indices[i][tok],
                },
            )
        }
    }

    /// The state after, and the answer of, `expand_memory(uuid)`.
    pub open spec fn expand_spec(self, uuid: BufferUUID) -> (MemoryHeapView, Result<(), HeapError>) {
        if self.needs_scaling() {
            (self, Err(HeapError::ScalingRequired))
        } else {
            (
                MemoryHeapView {
                    buffers_count: self.buffers_count + 1,
                    buffers_uuid: self.buffers_uuid.push(uuid),
                    buffers_len: self.buffers_len.push(0),
                    segment_indices: self.segment_indices.push(Map::empty()),
                    free_indices: self.free_indices.push(Seq::empty()),
                    ..self
                },
                Ok(()),
            )
        }
    }

    /// The state after `scale_memory()`.
    pub open spec fn scale_spec(self) -> MemoryHeapView {
        MemoryHeapView {
            max_buffers_count: 2 * self.max_buffers_count,
            buffers_capacity: 2 * self.buffers_capacity,
            ..self
        }
    }

    /// The state after, and the answer of, `update_buffer_uuid(old_uuid, new_uuid)`.
    pub open spec fn update_uuid_spec(self, old_uuid: BufferUUID, new_uuid: BufferUUID) -> (
        MemoryHeapView,
        Result<(), HeapError>,
    ) {
        let i = self.position_of(old_uuid);
        if i >= self.buffers_uuid.len() {
            (self, Err(HeapError::BufferNotFound { uuid: old_uuid }))
        } else if self.buffers_uuid.contains(new_uuid) {
            (self, Err(HeapError::BufferAlredyExists { uuid: new_uuid }))
        } else {
            (MemoryHeapView { buffers_uuid: self.buffers_uuid.update(i, new_uuid), ..self }, Ok(()))
        }
    }

    /// The number of instances to draw from each buffer.
    pub open spec fn nums_instances_spec(self) -> Seq<u32> {
        self.buffers_len.map_values(|len: usize| len as u32)
    }

    /// Bookkeeping of buffer `i`: it has handed out no more slots than its
    /// capacity, and no fewer than it holds or has freed, no two tokens share a
    /// slot, no slot is both held and free, no slot is free twice, and every slot
    /// index lies below the number of slots handed out so far.
    pub open spec fn buffer_consistent(self, i: int) -> bool {
        &&& self.segment_indices[i].dom().finite()
        &&& self.slots_used(i) <= self.buffers_len[i]
        &&& self.buffers_len[i] <= self.buffers_capacity
        &&& self.free_indices[i].no_duplicates()
        &&& forall|j: int|
            0 <= j < self.free_indices[i].len() ==> (#[trigger] self.free_indices[i][j] as nat)
                < self.slots_used(i)
        &&& forall|tok: usize| #[trigger]
            self.segment_indices[i].contains_key(tok) ==> {
                &&& (self.segment_indices[i][tok] as nat) < self.slots_used(i)
                &&& !self.free_indices[i].contains(self.segment_indices[i][tok])
            }
        &&& forall|t1: usize, t2: usize|
            #![trigger self.segment_indices[i][t1], self.segment_indices[i][t2]]
            self.segment_indices[i].contains_key(t1) && self.segment_indices[i].contains_key(t2)
                && t1 != t2 ==> self.segment_indices[i][t1] != self.segment_indices[i][t2]
    }

    /// No token is held by two buffers.
    pub open spec fn tokens_unique(self) -> bool {
        forall|i: int, j: int, tok: usize|
            #![trigger self.segment_indices[i].contains_key(tok), self.segment_indices[j].contains_key(tok)]
            0 <= i < self.num_buffers() && 0 <= j < self.num_buffers() && i != j
                && self.segment_indices[i].contains_key(tok) ==> !self.segment_indices[j].contains_key(tok)
    }

    /// The bookkeeping invariant: no token is held by two buffers, the limit on buffers equals the capacity of
    /// each buffer (both start at 8 and double together) and the buffers do not
    /// exceed it, the per-buffer tables line up, no buffer has handed out more
    /// slots than its capacity, within a buffer no two tokens share a slot
    /// and no slot is both held and free, and every slot index lies below the
    /// number of slots handed out so far.
    pub open spec fn consistent(self) -> bool {
        &&& self.max_buffers_count == self.buffers_capacity
        &&& self.buffers_count <= self.max_buffers_count
        &&& self.buffers_count == self.buffers_uuid.len()
        &&& self.buffers_len.len() == self.buffers_uuid.len()
        &&& self.segment_indices.len() == self.buffers_uuid.len()
        &&& self.free_indices.len() == self.buffers_uuid.len()
        &&& self.buffers_capacity <= usize::MAX
        &&& forall|i: int| 0 <= i < self.num_buffers() ==> #[trigger] self.buffer_consistent(i)
        &&& self.tokens_unique()
    }
}

impl View for MemoryHeap {
    type V = MemoryHeapView;

    closed spec fn view(&self) -> MemoryHeapView {
        MemoryHeapView {
            max_buffers_count: self.max_buffers_count as nat,
            buffers_count: self.buffers_count as nat,
            buffers_capacity: self.buffers_capacity as nat,
            buffers_uuid: self.buffers_uuid@,
            buffers_len: self.buffers_len@,
            segment_indices: Seq::new(
                self.segment_indices@.len(),
                |i: int| self.segment_indices@[i]@,
            ),
            free_indices: Seq::new(self.free_indices@.len(), |i: int| self.free_indices@[i]@),
        }
    }
}

impl MemoryHeap {
    /// The per-buffer tables have one entry per buffer.
    pub closed spec fn wf(&self) -> bool {
        &&& self.buffers_uuid@.len() == self.buffers_count
        &&& self.buffers_len@.len() == self.buffers_count
        &&& self.segment_indices@.len() == self.buffers_count
        &&& self.free_indices@.len() == self.buffers_count
    }

    /// The number of buffers fits in a `usize`.
    pub proof fn lemma_num_buffers_bounded(&self)
        requires
            self.wf(),
        ensures
            self@.num_buffers() <= usize::MAX,
            self@.buffers_count == self@.num_buffers(),
    {
    }

    /// An empty heap: no buffer, room for 8 buffers of 8 instances.
    pub fn new() -> (r: MemoryHeap)
        ensures
            r.wf(),
            r@.consistent(),
            r@.max_buffers_count == INITIAL_MAX_BUFFERS,
            r@.buffers_count == 0,
            r@.buffers_capacity == INITIAL_BUFFER_CAPACITY,
            r@.buffers_uuid == Seq::<BufferUUID>::empty(),
            r@.buffers_len == Seq::<usize>::empty(),
            r@.segment_indices == Seq::<Map<usize, usize>>::empty(),
            r@.free_indices == Seq::<Seq<usize>>::empty(),
    {
        let r = MemoryHeap {
            max_buffers_count: INITIAL_MAX_BUFFERS,
            buffers_count: 0,
            buffers_capacity: INITIAL_BUFFER_CAPACITY,
            buffers_uuid: Vec::new(),
            buffers_len: Vec::new(),
            segment_indices: Vec::new(),
            free_indices: Vec::new(),
        };
        assert(r@.segment_indices =~= Seq::<Map<usize, usize>>::empty());
        assert(r@.free_indices =~= Seq::<Seq<usize>>::empty());
        r
    }

    /// Gives the token a slot in the first buffer with room: the most recently
    /// freed slot of that buffer, or else its next never-used slot. Refused when
    /// every buffer is full, or else when some buffer holds the token already.
    pub fn allocate_memory(&mut self, memory_segment_token: usize) -> (r: Result<HeapEvent, HeapError>)
        requires
            old(self).wf(),
        ensures
            final(self).wf(),
            final(self)@ == old(self)@.allocate_spec(memory_segment_token).0,
            r == old(self)@.allocate_spec(memory_segment_token).1,
            old(self)@.consistent() ==> final(self)@.consistent(),
    {
        let ghost old_view = self@;
        proof {
            lemma_first_at_or_after(old_view.has_room(), 0, old_view.buffers_len.len() as int);
        }
        let soa = match self.get_index_of_free_buffer() {
            Ok(index) => index,
            Err(error) => {
                return Err(error);
            },
        };
        if self.get_buffer_index_by_memory_segment_token(memory_segment_token).is_ok() {
            return Err(HeapError::MemoryOccupied { memory_segment_token });
        }
        proof {
            lemma_first_at_or_after(old_view.holds(memory_segment_token), 0, old_view.segment_indices.len() as int);
            assert(!old_view.holds(memory_segment_token)(soa as int));
        }
        let buffer_index = match self.free_indices[soa].pop() {
            Some(index) => index,
            None => {
                let served = self.buffers_len[soa] + 1;
                self.buffers_len.set(soa, served);
                self.segment_indices[soa].len()
            },
        };
        self.segment_indices[soa].insert(memory_segment_token, buffer_index);
        proof {
            let i = soa as int;
            let tok = memory_segment_token;
            let k = buffer_index;
            assert(self@.buffers_len =~= old_view.len_after_allocation(i));
            assert(self@.segment_indices =~= old_view.segment_indices.update(
                i,
                old_view.segment_indices[i].insert(tok, k),
            ));
            assert(self@.free_indices =~= old_view.free_indices.update(i, old_view.free_after_allocation(i)));
            assert(self@ =~= old_view.allocate_spec(tok).0);
            if old_view.consistent() {
                let v = self@;
                let m = old_view.segment_indices[i];
                let f = old_view.free_indices[i];
                assert forall|a: int, b: int, t: usize|
                    #![trigger v.segment_indices[a].contains_key(t), v.segment_indices[b].contains_key(t)]
                    0 <= a < v.num_buffers() && 0 <= b < v.num_buffers() && a != b
                        && v.segment_indices[a].contains_key(t) implies !v.segment_indices[b].contains_key(t) by {
                    if t == tok {
                        assert(!old_view.holds(tok)(a));
                        assert(!old_view.holds(tok)(b));
                    } else {
                        assert(old_view.segment_indices[a].contains_key(t));
                        if v.segment_indices[b].contains_key(t) {
                            assert(old_view.segment_indices[b].contains_key(t));
                        }
                    }
                }
                assert(old_view.buffer_consistent(i));
                assert(m.dom().finite());
                assert(v.segment_indices[i].len() == m.len() + 1);
                if f.len() > 0 {
                    assert(f[f.len() - 1] == k);
                    assert(f.contains(k));
                    assert(v.free_indices[i].len() == f.len() - 1);
                }
                assert(v.slots_used(i) >= old_view.slots_used(i));
                assert forall|b: int| 0 <= b < v.num_buffers() implies #[trigger] v.buffer_consistent(b) by {
                    if b == i {
                        let f2 = v.free_indices[i];
                        assert forall|j: int| 0 <= j < f2.len() implies (#[trigger] f2[j] as nat)
                            < v.slots_used(b) by {
                            assert(f2[j] == f[j]);
                        }
                        assert forall|t: usize| #[trigger] v.segment_indices[b].contains_key(t) implies {
                            &&& (v.segment_indices[b][t] as nat) < v.slots_used(b)
                            &&& !v.free_indices[b].contains(v.segment_indices[b][t])
                        } by {
                            if t != tok {
                                assert(m.contains_key(t));
                                if f2.contains(m[t]) {
                                    let j = choose|j: int| 0 <= j < f2.len() && f2[j] == m[t];
                                    assert(f[j] == m[t]);
                                }
                            } else {
                                if f2.contains(k) {
                                    let j = choose|j: int| 0 <= j < f2.len() && f2[j] == k;
                                    assert(f[j] == k);
                                    assert(f[f.len() - 1] == k);
                                }
                            }
                        }
                        assert forall|t1: usize, t2: usize|
                            #![trigger v.segment_indices[b][t1], v.segment_indices[b][t2]]
                            v.segment_indices[b].contains_key(t1) && v.segment_indices[b].contains_key(t2)
                                && t1 != t2 implies v.segment_indices[b][t1] != v.segment_indices[b][t2] by {
                            if t1 == tok {
                                assert(m.contains_key(t2));
                                assert(!f.contains(m[t2]));
                            } else if t2 == tok {
                                assert(m.contains_key(t1));
                                assert(!f.contains(m[t1]));
                            } else {
                                assert(m[t1] != m[t2]);
                            }
                        }
                    } else {
                        assert(old_view.buffer_consistent(b));
                        assert(v.segment_indices[b] == old_view.segment_indices[b]);
                        assert(v.free_indices[b] == old_view.free_indices[b]);
                    }
                }
            }
        }
        Ok(HeapEvent::MemoryAllocated { buffer_uuid: self.buffers_uuid[soa], buffer_index })
    }

    /// Takes the token's slot back into the free list of the first buffer holding it.
    pub fn deallocate_memory(&mut self, memory_segment_token: usize) -> (r: Result<HeapEvent, HeapError>)
        requires
            old(self).wf(),
        ensures
            final(self).wf(),
            final(self)@ == old(self)@.deallocate_spec(memory_segment_token).0,
            r == old(self)@.deallocate_spec(memory_segment_token).1,
            old(self)@.consistent() ==> final(self)@.consistent(),
    {
        let ghost old_view = self@;
        proof {
            lemma_first_at_or_after(
                old_view.holds(memory_segment_token),
                0,
                old_view.segment_indices.len() as int,
            );
        }
        let soa = match self.get_buffer_index_by_memory_segment_token(memory_segment_token) {
            Ok(index) => index,
            Err(error) => {
                return Err(error);
            },
        };
        let buffer_index = self.segment_indices[soa].remove(&memory_segment_token).unwrap();
        self.free_indices[soa].push(buffer_index);
        proof {
            let i = soa as int;
            let tok = memory_segment_token;
            let k = buffer_index;
            assert(self@.segment_indices =~= old_view.segment_indices.update(
                i,
                old_view.segment_indices[i].remove(tok),
            ));
            assert(self@.free_indices =~= old_view.free_indices.update(i, old_view.free_indices[i].push(k)));
            assert(self@ =~= old_view.deallocate_spec(tok).0);
            if old_view.consistent() {
                let v = self@;
                let m = old_view.segment_indices[i];
                let f = old_view.free_indices[i];
                assert forall|a: int, b: int, t: usize|
                    #![trigger v.segment_indices[a].contains_key(t), v.segment_indices[b].contains_key(t)]
                    0 <= a < v.num_buffers() && 0 <= b < v.num_buffers() && a != b
                        && v.segment_indices[a].contains_key(t) implies !v.segment_indices[b].contains_key(t) by {
                    if t == tok {
                        assert(!old_view.holds(tok)(a));
                        assert(!old_view.holds(tok)(b));
                    } else {
                        assert(old_view.segment_indices[a].contains_key(t));
                        if v.segment_indices[b].contains_key(t) {
                            assert(old_view.segment_indices[b].contains_key(t));
                        }
                    }
                }
                assert(old_view.buffer_consistent(i));
                assert(m.dom().finite());
                assert(v.segment_indices[i].len() == m.len() - 1);
                assert(v.slots_used(i) == old_view.slots_used(i));
                assert forall|b: int| 0 <= b < v.num_buffers() implies #[trigger] v.buffer_consistent(b) by {
                    if b == i {
                        let f2 = v.free_indices[i];
                        assert(!f.contains(k));
                        assert forall|j1: int, j2: int|
                            0 <= j1 < f2.len() && 0 <= j2 < f2.len() && j1 != j2 implies f2[j1] != f2[j2] by {
                            if j1 == f.len() as int {
                                assert(f2[j2] == f[j2]);
                            } else if j2 == f.len() as int {
                                assert(f2[j1] == f[j1]);
                            } else {
                                assert(f2[j1] == f[j1]);
                                assert(f2[j2] == f[j2]);
                            }
                        }
                        assert forall|j: int| 0 <= j < f2.len() implies (#[trigger] f2[j] as nat)
                            < v.slots_used(b) by {
                            if j < f.len() {
                                assert(f2[j] == f[j]);
                            }
                        }
                        assert forall|t: usize| #[trigger] v.segment_indices[b].contains_key(t) implies {
                            &&& (v.segment_indices[b][t] as nat) < v.slots_used(b)
                            &&& !v.free_indices[b].contains(v.segment_indices[b][t])
                        } by {
                            assert(m.contains_key(t));
                            assert(m[t] != m[tok]);
                            if f2.contains(m[t]) {
                                let j = choose|j: int| 0 <= j < f2.len() && f2[j] == m[t];
                                if j < f.len() {
                                    assert(f[j] == m[t]);
                                }
                            }
                        }
                        assert forall|t1: usize, t2: usize|
                            #![trigger v.segment_indices[b][t1], v.segment_indices[b][t2]]
                            v.segment_indices[b].contains_key(t1) && v.segment_indices[b].contains_key(t2)
                                && t1 != t2 implies v.segment_indices[b][t1] != v.segment_indices[b][t2] by {
                            assert(m[t1] != m[t2]);
                        }
                    } else {
                        assert(old_view.buffer_consistent(b));
                        assert(v.segment_indices[b] == old_view.segment_indices[b]);
                        assert(v.free_indices[b] == old_view.free_indices[b]);
                    }
                }
            }
        }
        Ok(HeapEvent::MemoryDeallocated { buffer_uuid: self.buffers_uuid[soa], buffer_index })
    }

    /// Where the token's slot is: the first buffer holding it, and the slot index.
    pub fn lookup_memory_segment(&self, memory_segment_token: usize) -> (r: Result<HeapEvent, HeapError>)
        requires
            self.wf(),
        ensures
            r == self@.lookup_spec(memory_segment_token),
    {
        proof {
            lemma_first_at_or_after(self@.holds(memory_segment_token), 0, self@.segment_indices.len() as int);
        }
        let soa = match self.get_buffer_index_by_memory_segment_token(memory_segment_token) {
            Ok(index) => index,
            Err(error) => {
                return Err(error);
            },
        };
        let buffer_index = *self.segment_indices[soa].get(&memory_segment_token).unwrap();
        Ok(HeapEvent::MemorySegmentFound { buffer_uuid: self.buffers_uuid[soa], buffer_index })
    }

    /// Adds an empty buffer with the given identifier, unless the heap must be scaled first.
    pub fn expand_memory(&mut self, buffer_uuid: &BufferUUID) -> (r: Result<(), HeapError>)
        requires
            old(self).wf(),
        ensures
            final(self).wf(),
            final(self)@ == old(self)@.expand_spec(*buffer_uuid).0,
            r == old(self)@.expand_spec(*buffer_uuid).1,
            old(self)@.consistent() ==> final(self)@.consistent(),
    {
        if self.need_memory_scaling() {
            return Err(HeapError::ScalingRequired);
        }
        let ghost old_view = self@;
        self.buffers_count = self.buffers_count + 1;
        self.buffers_uuid.push(*buffer_uuid);
        self.buffers_len.push(0);
        self.segment_indices.push(HashMap::new());
        self.free_indices.push(Vec::new());
        proof {
            assert(self@.segment_indices =~= old_view.segment_indices.push(Map::empty()));
            assert(self@.free_indices =~= old_view.free_indices.push(Seq::empty()));
            assert(self@ =~= old_view.expand_spec(*buffer_uuid).0);
            if old_view.consistent() {
                let v = self@;
                assert forall|b: int| 0 <= b < v.num_buffers() implies #[trigger] v.buffer_consistent(b) by {
                    if b < old_view.num_buffers() {
                        assert(old_view.buffer_consistent(b));
                        assert(v.segment_indices[b] == old_view.segment_indices[b]);
                        assert(v.free_indices[b] == old_view.free_indices[b]);
                    } else {
                        assert(v.segment_indices[b] == Map::<usize, usize>::empty());
                        assert(v.segment_indices[b].dom() =~= Set::<usize>::empty());
                    }
                }
            }
        }
        Ok(())
    }

    /// Doubles both the number of buffers the heap may hold and the capacity of
    /// every buffer.
    pub fn scale_memory(&mut self)
        requires
            old(self).wf(),
            2 * old(self)@.max_buffers_count <= usize::MAX,
            2 * old(self)@.buffers_capacity <= usize::MAX,
        ensures
            final(self).wf(),
            final(self)@ == old(self)@.scale_spec(),
            old(self)@.consistent() ==> final(self)@.consistent(),
    {
        let ghost old_view = self@;
        self.max_buffers_count = self.max_buffers_count * 2;
        self.buffers_capacity = self.buffers_capacity * 2;
        proof {
            assert(self@ =~= old_view.scale_spec());
            if old_view.consistent() {
                let v = self@;
                assert forall|b: int| 0 <= b < v.num_buffers() implies #[trigger] v.buffer_consistent(b) by {
                    assert(old_view.buffer_consistent(b));
                }
            }
        }
    }

    /// Gives the first buffer named `old_uuid` the identifier `new_uuid`,
    /// unless no buffer has `old_uuid` or some buffer has `new_uuid` already.
    pub fn update_buffer_uuid(&mut self, old_uuid: &BufferUUID, new_uuid: &BufferUUID) -> (r: Result<
        (),
        HeapError,
    >)
        requires
            old(self).wf(),
        ensures
            final(self).wf(),
            final(self)@ == old(self)@.update_uuid_spec(*old_uuid, *new_uuid).0,
            r == old(self)@.update_uuid_spec(*old_uuid, *new_uuid).1,
            old(self)@.consistent() ==> final(self)@.consistent(),
    {
        let ghost old_view = self@;
        let ghost pred = self@.named(*old_uuid);
        proof {
            lemma_first_at_or_after(pred, 0, old_view.buffers_uuid.len() as int);
        }
        let mut soa: usize = 0;
        while soa < self.buffers_uuid.len()
            invariant
                self.wf(),
                self@ == old_view,
                pred == self@.named(*old_uuid),
                soa <= self.buffers_uuid@.len(),
                old_view.position_of(*old_uuid) == first_at_or_after(
                    pred,
                    soa as int,
                    self.buffers_uuid@.len() as int,
                ),
            ensures
                soa <= self.buffers_uuid@.len(),
                self@ == old_view,
                old_view.position_of(*old_uuid) == first_at_or_after(
                    pred,
                    soa as int,
                    self.buffers_uuid@.len() as int,
                ),
                soa < self.buffers_uuid@.len() ==> self.buffers_uuid@[soa as int] == *old_uuid,
            decreases self.buffers_uuid@.len() - soa,
        {
            if self.buffers_uuid[soa] == *old_uuid {
                break;
            }
            soa = soa + 1;
        }
        if soa == self.buffers_uuid.len() {
            return Err(HeapError::BufferNotFound { uuid: *old_uuid });
        }
        assert(old_view.position_of(*old_uuid) == soa);
        let mut j: usize = 0;
        while j < self.buffers_uuid.len()
            invariant
                self.wf(),
                self@ == old_view,
                soa < self.buffers_uuid@.len(),
                old_view.position_of(*old_uuid) == soa,
                j <= self.buffers_uuid@.len(),
                forall|k: int| 0 <= k < j ==> self.buffers_uuid@[k] != *new_uuid,
            decreases self.buffers_uuid@.len() - j,
        {
            if self.buffers_uuid[j] == *new_uuid {
                assert(self.buffers_uuid@.contains(*new_uuid));
                return Err(HeapError::BufferAlredyExists { uuid: *new_uuid });
            }
            j = j + 1;
        }
        self.buffers_uuid.set(soa, *new_uuid);
        proof {
            assert(self@ =~= old_view.update_uuid_spec(*old_uuid, *new_uuid).0);
            if old_view.consistent() {
                let v = self@;
                assert forall|b: int| 0 <= b < v.num_buffers() implies #[trigger] v.buffer_consistent(b) by {
                    assert(old_view.buffer_consistent(b));
                }
            }
        }
        Ok(())
    }

    /// The first buffer with room for one more allocation.
    pub(crate) fn get_index_of_free_buffer(&self) -> (r: Result<usize, HeapError>)
        requires
            self.wf(),
        ensures
            self@.first_free_buffer() < self@.num_buffers() ==> r == Ok::<usize, HeapError>(
                self@.first_free_buffer() as usize,
            ),
            self@.first_free_buffer() >= self@.num_buffers() ==> r == Err::<usize, HeapError>(
                HeapError::OutOfMemmory,
            ),
    {
        let ghost pred = self@.has_room();
        let mut index: usize = 0;
        while index < self.buffers_len.len()
            invariant
                self.wf(),
                pred == self@.has_room(),
                index <= self.buffers_len@.len(),
                self@.first_free_buffer() == first_at_or_after(pred, index as int, self.buffers_len@.len() as int),
            decreases self.buffers_len@.len() - index,
        {
            if self.buffers_capacity > self.buffers_len[index] {
                return Ok(index);
            }
            index = index + 1;
        }
        Err(HeapError::OutOfMemmory)
    }

    /// The first buffer that holds the token.
    fn get_buffer_index_by_memory_segment_token(&self, memory_segment_token: usize) -> (r: Result<
        usize,
        HeapError,
    >)
        requires
            self.wf(),
        ensures
            self@.first_holder(memory_segment_token) < self@.num_buffers() ==> r == Ok::<
                usize,
                HeapError,
            >(self@.first_holder(memory_segment_token) as usize),
            self@.first_holder(memory_segment_token) >= self@.num_buffers() ==> r == Err::<
                usize,
                HeapError,
            >(HeapError::MemorySegmentNotFound { memory_segment_token }),
    {
        let ghost pred = self@.holds(memory_segment_token);
        let mut index: usize = 0;
        while index < self.segment_indices.len()
            invariant
                self.wf(),
                pred == self@.holds(memory_segment_token),
                index <= self.segment_indices@.len(),
                self@.first_holder(memory_segment_token) == first_at_or_after(
                    pred,
                    index as int,
                    self.segment_indices@.len() as int,
                ),
            decreases self.segment_indices@.len() - index,
        {
            if self.segment_indices[index].contains_key(&memory_segment_token) {
                return Ok(index);
            }
            index = index + 1;
        }
        Err(HeapError::MemorySegmentNotFound { memory_segment_token })
    }

    /// The identifier of the buffer at position `p`.
    pub fn buffer_uuid(&self, p: usize) -> (r: BufferUUID)
        requires
            self.wf(),
            p < self@.num_buffers(),
        ensures
            r == self@.buffers_uuid[p as int],
    {
        self.buffers_uuid[p]
    }

    /// Number of buffers.
    pub fn num_buffers(&self) -> (r: usize)
        requires
            self.wf(),
        ensures
            r == self@.num_buffers(),
    {
        self.buffers_uuid.len()
    }

    /// The number of buffers the heap may hold before it must be scaled.
    pub fn max_buffers(&self) -> (r: usize)
        ensures
            r == self@.max_buffers_count,
    {
        self.max_buffers_count
    }

    /// The current capacity of every buffer, in instances.
    pub fn get_capacity(&self) -> (r: usize)
        ensures
            r == self@.buffers_capacity,
    {
        self.buffers_capacity
    }

    /// Whether no buffer can be added before the heap is scaled.
    pub fn need_memory_scaling(&self) -> (r: bool)
        ensures
            r == self@.needs_scaling(),
    {
        self.buffers_count >= self.max_buffers_count
    }

    /// The number of instances to draw from each buffer, in buffer order.
    pub fn get_nums_instances(&self) -> (r: Vec<u32>)
        requires
            self.wf(),
        ensures
            r@ == self@.nums_instances_spec(),
    {
        let mut num_instances: Vec<u32> = Vec::with_capacity(self.buffers_len.len());
        let mut i: usize = 0;
        while i < self.buffers_len.len()
            invariant
                i <= self.buffers_len@.len(),
                num_instances@ == self.buffers_len@.take(i as int).map_values(|len: usize| len as u32),
            decreases self.buffers_len@.len() - i,
        {
            #[verifier::truncate]
            let count = self.buffers_len[i] as u32;
            num_instances.push(count);
            i = i + 1;
            assert(self.buffers_len@.take(i as int) =~= self.buffers_len@.take(i - 1).push(
                self.buffers_len@[i - 1],
            ));
            assert(num_instances@ =~= self.buffers_len@.take(i as int).map_values(|len: usize| len as u32));
        }
        assert(self.buffers_len@.take(i as int) =~= self.buffers_len@);
        num_instances
    }
}


/// The first position in `[i, n)` where `pred` holds is `k` when `pred`
/// fails everywhere in `[i, k)` and holds at `k`.
pub proof fn lemma_first_at(pred: spec_fn(int) -> bool, i: int, k: int, n: int)
    requires
        i <= k < n,
        pred(k),
        forall|j: int| i <= j < k ==> !#[trigger] pred(j),
    ensures
        first_at_or_after(pred, i, n) == k,
    decreases k - i,
{
    if i < k {
        lemma_first_at(pred, i + 1, k, n);
    }
}

/// A token held by no buffer is found, after its allocation, at the slot the
/// allocation reported.
pub proof fn law_lookup_after_allocate(h: MemoryHeapView, tok: usize)
    requires
        h.consistent(),
        h.first_holder(tok) >= h.num_buffers(),
    ensures
        h.allocate_spec(tok).1 matches Ok(HeapEvent::MemoryAllocated { buffer_uuid, buffer_index })
            ==> h.allocate_spec(tok).0.lookup_spec(tok) == Ok::<HeapEvent, HeapError>(
            HeapEvent::MemorySegmentFound { buffer_uuid, buffer_index },
        ),
{
    let n = h.num_buffers();
    lemma_first_at_or_after(h.holds(tok), 0, n);
    lemma_first_at_or_after(h.has_room(), 0, n);
    let i = h.first_free_buffer();
    if h.allocate_spec(tok).1 is Ok {
        let h2 = h.allocate_spec(tok).0;
        assert forall|j: int| 0 <= j < i implies !#[trigger] h2.holds(tok)(j) by {
            assert(!h.holds(tok)(j));
        }
        assert(h2.holds(tok)(i));
        lemma_first_at(h2.holds(tok), 0, i, n);
    }
}

/// A token that gave its slot back is found in no buffer.
pub proof fn law_lookup_after_deallocate(h: MemoryHeapView, tok: usize)
    requires
        h.consistent(),
    ensures
        h.deallocate_spec(tok).0.lookup_spec(tok) == Err::<HeapEvent, HeapError>(
            HeapError::MemorySegmentNotFound { memory_segment_token: tok },
        ),
{
    let n = h.num_buffers();
    let h2 = h.deallocate_spec(tok).0;
    lemma_first_at_or_after(h.holds(tok), 0, n);
    lemma_first_at_or_after(h2.holds(tok), 0, n);
    let k = h2.first_holder(tok);
    if k < n {
        assert(h2.holds(tok)(k));
        if h.first_holder(tok) >= n {
            assert(h2 == h);
            assert(!h.holds(tok)(k));
        } else if k == h.first_holder(tok) {
            assert(!h2.segment_indices[k].contains_key(tok));
        } else {
            assert(h2.segment_indices[k] == h.segment_indices[k]);
        }
    }
}

/// Giving a slot back undoes the allocation of a token held by no buffer: the
/// same buffer and slot are reported and the buffer's token table is as before.
pub proof fn law_deallocate_undoes_allocate(h: MemoryHeapView, tok: usize)
    requires
        h.consistent(),
        h.first_holder(tok) >= h.num_buffers(),
    ensures
        h.allocate_spec(tok).1 matches Ok(HeapEvent::MemoryAllocated { buffer_uuid, buffer_index })
            ==> {
            let h2 = h.allocate_spec(tok).0;
            &&& h2.deallocate_spec(tok).1 == Ok::<HeapEvent, HeapError>(
                HeapEvent::MemoryDeallocated { buffer_uuid, buffer_index },
            )
            &&& h2.deallocate_spec(tok).0.segment_indices == h.segment_indices
        },
{
    let n = h.num_buffers();
    lemma_first_at_or_after(h.holds(tok), 0, n);
    lemma_first_at_or_after(h.has_room(), 0, n);
    let i = h.first_free_buffer();
    if h.allocate_spec(tok).1 is Ok {
        let h2 = h.allocate_spec(tok).0;
        assert forall|j: int| 0 <= j < i implies !#[trigger] h2.holds(tok)(j) by {
            assert(!h.holds(tok)(j));
        }
        assert(h2.holds(tok)(i));
        lemma_first_at(h2.holds(tok), 0, i, n);
        assert(!h.segment_indices[i].contains_key(tok)) by {
            assert(!h.holds(tok)(i));
        }
        assert(h2.segment_indices[i].remove(tok) =~= h.segment_indices[i]);
        assert(h2.deallocate_spec(tok).0.segment_indices =~= h.segment_indices);
    }
}

/// The slot given back last in a buffer is the slot handed out next there, so
/// slot indices stay stable for reuse.
pub proof fn law_freed_slot_reused(h: MemoryHeapView, tok: usize, other: usize)
    requires
        h.consistent(),
        h.first_holder(tok) < h.num_buffers(),
        h.first_free_buffer() == h.first_holder(tok),
        tok == other || h.first_holder(other) >= h.num_buffers(),
    ensures
        h.deallocate_spec(tok).0.allocate_spec(other).1 == Ok::<HeapEvent, HeapError>(
            HeapEvent::MemoryAllocated {
                buffer_uuid: h.buffers_uuid[h.first_holder(tok)],
                buffer_index: h.segment_indices[h.first_holder(tok)][tok],
            },
        ),
{
    let n = h.num_buffers();
    lemma_first_at_or_after(h.holds(tok), 0, n);
    let i = h.first_holder(tok);
    let h2 = h.deallocate_spec(tok).0;
    assert(h2.buffers_len == h.buffers_len);
    assert(h2.has_room() == h.has_room());
    assert(h2.first_free_buffer() == h.first_free_buffer());
    law_lookup_after_deallocate(h, tok);
    if other != tok {
        lemma_first_at_or_after(h.holds(other), 0, n);
        lemma_first_at_or_after(h2.holds(other), 0, n);
        let j = h2.first_holder(other);
        if j < n {
            assert(h2.holds(other)(j));
            assert(h.holds(other)(j));
        }
    }
}

/// In a consistent heap every held slot lies within the capacity of the
/// buffers, so writing an instance at its slot stays inside its buffer.
pub proof fn law_slots_within_capacity(h: MemoryHeapView, i: int, tok: usize)
    requires
        h.consistent(),
        0 <= i < h.num_buffers(),
        h.segment_indices[i].contains_key(tok),
    ensures
        (h.segment_indices[i][tok] as nat) < h.buffers_capacity,
{
    assert(h.buffer_consistent(i));
}

/// The number of slots a buffer has handed out never decreases: slots are
/// reused, never compacted.
pub proof fn law_served_counts_never_decrease(
    h: MemoryHeapView,
    tok: usize,
    uuid: BufferUUID,
    old_uuid: BufferUUID,
    new_uuid: BufferUUID,
    i: int,
)
    requires
        h.consistent(),
        0 <= i < h.num_buffers(),
    ensures
        h.allocate_spec(tok).0.buffers_len[i] >= h.buffers_len[i],
        h.deallocate_spec(tok).0.buffers_len[i] == h.buffers_len[i],
        h.expand_spec(uuid).0.buffers_len[i] == h.buffers_len[i],
        h.scale_spec().buffers_len[i] == h.buffers_len[i],
        h.update_uuid_spec(old_uuid, new_uuid).0.buffers_len[i] == h.buffers_len[i],
{
    lemma_first_at_or_after(h.has_room(), 0, h.num_buffers());
}

/// In a consistent heap there is one instance count per buffer, one more
/// after each successful expansion; the buffers never outnumber the capacity
/// of a buffer; and each buffer has handed out at most its capacity and at
/// least as many slots as it holds tokens, its count being that number
/// whenever it fits in a `u32`.
pub proof fn law_buffer_counts_bounded(h: MemoryHeapView, uuid: BufferUUID, i: int)
    requires
        h.consistent(),
    ensures
        h.nums_instances_spec().len() == h.num_buffers(),
        h.num_buffers() <= h.buffers_capacity,
        h.expand_spec(uuid).1 is Ok ==> h.expand_spec(uuid).0.nums_instances_spec().len() == h.num_buffers() + 1,
        0 <= i < h.num_buffers() ==> {
            &&& h.buffers_len[i] <= h.buffers_capacity
            &&& h.segment_indices[i].len() <= h.buffers_len[i]
            &&& h.buffers_len[i] <= u32::MAX ==> h.nums_instances_spec()[i] == h.buffers_len[i]
        },
{
    if 0 <= i < h.num_buffers() {
        assert(h.buffer_consistent(i));
    }
}

/// A token that some buffer holds is refused, with nothing changed, whenever
/// some buffer has room.
pub proof fn law_occupied_token_refused(h: MemoryHeapView, tok: usize)
    requires
        h.consistent(),
        h.first_free_buffer() < h.num_buffers(),
        h.first_holder(tok) < h.num_buffers(),
    ensures
        h.allocate_spec(tok) == (h, Err::<HeapEvent, HeapError>(
            HeapError::MemoryOccupied { memory_segment_token: tok },
        )),
{
}

/// Reusing a freed slot leaves the buffer's count as it was; only a fresh
/// slot raises it, by one.
pub proof fn law_reuse_keeps_count(h: MemoryHeapView, tok: usize)
    requires
        h.consistent(),
        h.allocate_spec(tok).1 is Ok,
    ensures
        ({
            let i = h.first_free_buffer();
            &&& h.free_indices[i].len() > 0 ==> h.allocate_spec(tok).0.buffers_len == h.buffers_len
            &&& h.free_indices[i].len() == 0 ==> h.allocate_spec(tok).0.buffers_len
                == h.buffers_len.update(i, (h.buffers_len[i] + 1) as usize)
        }),
{
}

} // verus!
