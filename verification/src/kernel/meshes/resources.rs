use std::collections::HashMap;
use vstd::prelude::*;
use crate::ids::UuidCounter;
use crate::kernel::meshes::buffers::{BufferError, BufferUUID};

verus! {

broadcast use vstd::std_specs::hash::group_hash_axioms;

/// Record of one GPU instance buffer: its identifier and its size in bytes.
/// The caller holds the GPU buffers in the same order.
#[derive(Clone, Copy, Debug, PartialEq, Eq, Structural)]
pub struct InstanceBuffer {
    pub uuid: BufferUUID,
    pub size: u64,
}

/// The instance buffers of a mesh kind, in drawing order, with the position
/// of each buffer by identifier.
pub struct Resources {
    instance_buffers: Vec<InstanceBuffer>,
    instance_buffers_indices: HashMap<usize, usize>,
}

impl View for Resources {
    type V = Seq<InstanceBuffer>;

    closed spec fn view(&self) -> Seq<InstanceBuffer> {
        self.instance_buffers@
    }
}

/// No identifier occurs twice in the list.
pub open spec fn distinct_ids(buffers: Seq<InstanceBuffer>) -> bool {
    forall|i: int, j: int|
        #![trigger buffers[i].uuid.id_spec(), buffers[j].uuid.id_spec()]
        0 <= i < buffers.len() && 0 <= j < buffers.len() && i != j ==> buffers[i].uuid.id_spec()
            != buffers[j].uuid.id_spec()
}

/// Some buffer has the identifier `id`.
pub open spec fn holds_id(buffers: Seq<InstanceBuffer>, id: usize) -> bool {
    exists|i: int| 0 <= i < buffers.len() && #[trigger] buffers[i].uuid.id_spec() == id
}

impl Resources {
    /// The position table names every buffer at its position, and nothing else.
    pub closed spec fn wf(&self) -> bool {
        &&& distinct_ids(self@)
        &&& forall|i: int|
            0 <= i < self@.len() ==> {
                &&& self.instance_buffers_indices@.contains_key(#[trigger] self@[i].uuid.id_spec())
                &&& self.instance_buffers_indices@[self@[i].uuid.id_spec()] == i
            }
        &&& forall|k: usize| #[trigger]
            self.instance_buffers_indices@.contains_key(k) ==> {
                &&& self.instance_buffers_indices@[k] < self@.len()
                &&& self@[self.instance_buffers_indices@[k] as int].uuid.id_spec() == k
            }
    }

    /// No identifier occurs twice among the buffers.
    pub proof fn lemma_distinct(&self)
        requires
            self.wf(),
        ensures
            distinct_ids(self@),
    {
    }

    /// No instance buffer yet.
    pub fn new() -> (r: Resources)
        ensures
            r.wf(),
            r@ == Seq::<InstanceBuffer>::empty(),
    {
        Resources { instance_buffers: Vec::new(), instance_buffers_indices: HashMap::new() }
    }

    /// Position of the buffer with the identifier, if any.
    fn position(&self, uuid: &BufferUUID) -> (r: Option<usize>)
        requires
            self.wf(),
        ensures
            r matches Some(p) ==> p < self@.len() && self@[p as int].uuid == *uuid,
            r is None ==> !holds_id(self@, uuid.id_spec()),
    {
        match self.instance_buffers_indices.get(&uuid.id()) {
            Some(p) => {
                let p = *p;
                assert(self@[p as int].uuid.id_spec() == uuid.id_spec());
                proof {
                    BufferUUID::lemma_id_determines(self@[p as int].uuid, *uuid);
                }
                Some(p)
            },
            None => None,
        }
    }

    /// Records a new buffer of `size` bytes at the end of the list, under a
    /// fresh identifier taken from the counter.
    pub fn add_instance_buffer(&mut self, counter: &mut UuidCounter, size: u64) -> (r: Result<
        BufferUUID,
        BufferError,
    >)
        requires
            old(self).wf(),
            !holds_id(old(self)@, old(counter).peek()),
        ensures
            final(self).wf(),
            r matches Ok(uuid) && uuid.id_spec() == old(counter).peek()
                && final(self)@ == old(self)@.push(InstanceBuffer { uuid, size }),
            final(counter).peek() == crate::ids::successor(old(counter).peek()),
    {
        let uuid = BufferUUID::new(counter);
        let index = self.instance_buffers.len();
        self.instance_buffers.push(InstanceBuffer { uuid, size });
        self.instance_buffers_indices.insert(uuid.id(), index);
        proof {
            let v = self@;
            assert forall|i: int, j: int|
                #![trigger v[i].uuid.id_spec(), v[j].uuid.id_spec()]
                0 <= i < v.len() && 0 <= j < v.len() && i != j implies v[i].uuid.id_spec()
                    != v[j].uuid.id_spec() by {
                if i == index as int && j < index {
                    assert(!(v[j].uuid.id_spec() == old(counter).peek()));
                } else if j == index as int && i < index {
                    assert(!(v[i].uuid.id_spec() == old(counter).peek()));
                }
            }
        }
        Ok(uuid)
    }

    /// Where to write `data_size` bytes at byte `offset` of the buffer with
    /// the identifier: its position, unless the write would pass its end.
    pub fn update_instance_buffer(&self, uuid: &BufferUUID, offset: u64, data_size: u64) -> (r: Result<
        usize,
        BufferError,
    >)
        requires
            self.wf(),
            offset + data_size <= u64::MAX,
        ensures
            !holds_id(self@, uuid.id_spec()) ==> r == Err::<usize, BufferError>(
                BufferError::BufferNotFound { uuid: *uuid },
            ),
            forall|p: int|
                0 <= p < self@.len() && #[trigger] self@[p].uuid == *uuid ==> r == (if offset + data_size
                    > self@[p].size {
                    Err::<usize, BufferError>(BufferError::OutOfMemory { data_size, buffer_size: self@[p].size })
                } else {
                    Ok::<usize, BufferError>(p as usize)
                }),
    {
        let found = self.position(uuid);
        proof {
            if found is Some {
                let p0 = found->Some_0 as int;
                assert forall|p: int| 0 <= p < self@.len() && #[trigger] self@[p].uuid == *uuid implies p == p0 by {
                    if p != p0 {
                        assert(self@[p].uuid.id_spec() != self@[p0].uuid.id_spec());
                    }
                }
            } else {
                assert forall|p: int| 0 <= p < self@.len() implies #[trigger] self@[p].uuid != *uuid by {
                    if self@[p].uuid == *uuid {
                        assert(holds_id(self@, uuid.id_spec()));
                    }
                }
            }
        }
        match found {
            Some(p) => {
                let buffer_size = self.instance_buffers[p].size;
                if offset + data_size > buffer_size {
                    Err(BufferError::OutOfMemory { data_size, buffer_size })
                } else {
                    Ok(p)
                }
            },
            None => Err(BufferError::BufferNotFound { uuid: *uuid }),
        }
    }

    /// Removes the buffer with the identifier; the buffers after it move one
    /// position down. Answers the position it had.
    pub fn delete_instance_buffer(&mut self, uuid: &BufferUUID) -> (r: Result<usize, BufferError>)
        requires
            old(self).wf(),
        ensures
            final(self).wf(),
            !holds_id(old(self)@, uuid.id_spec()) ==> {
                &&& r == Err::<usize, BufferError>(BufferError::BufferNotFound { uuid: *uuid })
                &&& final(self)@ == old(self)@
            },
            holds_id(old(self)@, uuid.id_spec()) ==> (r matches Ok(p) && p < old(self)@.len()
                && old(self)@[p as int].uuid == *uuid && final(self)@ == old(self)@.remove(p as int)),
    {
        let ghost old_buffers = self@;
        let ghost old_map = self.instance_buffers_indices@;
        let index = match self.instance_buffers_indices.remove(&uuid.id()) {
            Some(index) => index,
            None => {
                assert(self.instance_buffers_indices@ =~= old_map);
                return Err(BufferError::BufferNotFound { uuid: *uuid });
            },
        };
        proof {
            BufferUUID::lemma_id_determines(old_buffers[index as int].uuid, *uuid);
        }
        self.instance_buffers.remove(index);
        let mut q: usize = 0;
        while q < self.instance_buffers.len()
            invariant
                self@ == old_buffers.remove(index as int),
                index < old_buffers.len(),
                distinct_ids(old_buffers),
                old_buffers[index as int].uuid.id_spec() == uuid.id_spec(),
                q <= self@.len(),
                forall|i: int|
                    0 <= i < old_buffers.len() ==> old_map.contains_key(#[trigger] old_buffers[i].uuid.id_spec())
                        && old_map[old_buffers[i].uuid.id_spec()] == i,
                forall|k: usize| #[trigger]
                    old_map.contains_key(k) ==> old_map[k] < old_buffers.len()
                        && old_buffers[old_map[k] as int].uuid.id_spec() == k,
                forall|k: usize| #[trigger]
                    self.instance_buffers_indices@.contains_key(k) <==> old_map.contains_key(k)
                        && k != uuid.id_spec(),
                forall|i: int|
                    0 <= i < q ==> #[trigger] self.instance_buffers_indices@[self@[i].uuid.id_spec()] == i,
                forall|i: int|
                    q <= i < self@.len() ==> #[trigger] self.instance_buffers_indices@[self@[i].uuid.id_spec()]
                        == (if i < index { i } else { i + 1 }),
            decreases self@.len() - q,
        {
            let id = self.instance_buffers[q].uuid.id();
            proof {
                let qi = q as int;
                let oi = if qi < index { qi } else { qi + 1 };
                assert(self@[qi] == old_buffers[oi]);
                assert(old_map.contains_key(old_buffers[oi].uuid.id_spec()));
                assert(old_buffers[oi].uuid.id_spec() != uuid.id_spec());
            }
            let current = *self.instance_buffers_indices.get(&id).unwrap();
            if current > index {
                let ghost before = self.instance_buffers_indices@;
                self.instance_buffers_indices.insert(id, current - 1);
                proof {
                    assert forall|i: int| 0 <= i < self@.len() && i != q implies self@[i].uuid.id_spec() != id by {
                        let oi = if i < index { i } else { i + 1 };
                        let oq = if q < index { q as int } else { q + 1 };
                        assert(self@[i] == old_buffers[oi]);
                        assert(self@[q as int] == old_buffers[oq]);
                    }
                }
            }
            q = q + 1;
        }
        proof {
            let v = self@;
            let m = self.instance_buffers_indices@;
            assert forall|i: int, j: int|
                #![trigger v[i].uuid.id_spec(), v[j].uuid.id_spec()]
                0 <= i < v.len() && 0 <= j < v.len() && i != j implies v[i].uuid.id_spec()
                    != v[j].uuid.id_spec() by {
                let oi = if i < index { i } else { i + 1 };
                let oj = if j < index { j } else { j + 1 };
                assert(v[i] == old_buffers[oi]);
                assert(v[j] == old_buffers[oj]);
            }
            assert forall|i: int| 0 <= i < v.len() implies m.contains_key(#[trigger] v[i].uuid.id_spec())
                && m[v[i].uuid.id_spec()] == i by {
                let oi = if i < index { i } else { i + 1 };
                assert(v[i] == old_buffers[oi]);
                assert(old_map.contains_key(old_buffers[oi].uuid.id_spec()));
            }
            assert forall|k: usize| #[trigger] m.contains_key(k) implies m[k] < v.len()
                && v[m[k] as int].uuid.id_spec() == k by {
                let o = old_map[k] as int;
                assert(old_buffers[o].uuid.id_spec() == k);
                assert(o != index);
                let i = if o < index { o } else { o - 1 };
                assert(v[i] == old_buffers[o]);
                assert(m[v[i].uuid.id_spec()] == i);
            }
        }
        Ok(index)
    }

    /// The buffer records, in drawing order.
    pub fn buffers(&self) -> (r: Vec<InstanceBuffer>)
        ensures
            r@ == self@,
    {
        let mut r: Vec<InstanceBuffer> = Vec::new();
        let mut i: usize = 0;
        while i < self.instance_buffers.len()
            invariant
                i <= self@.len(),
                r@ == self@.take(i as int),
            decreases self@.len() - i,
        {
            r.push(self.instance_buffers[i]);
            i = i + 1;
            assert(r@ =~= self@.take(i as int));
        }
        assert(self@.take(i as int) =~= self@);
        r
    }

    /// Number of instance buffers.
    pub fn len(&self) -> (r: usize)
        ensures
            r == self@.len(),
    {
        self.instance_buffers.len()
    }
}

} // verus!
