use vstd::prelude::*;
use crate::ids::UuidCounter;

verus! {

/// Identifier of an instance buffer of the mesh system.
#[derive(Clone, Copy, Debug, Hash, PartialEq, Eq, Structural)]
pub struct BufferUUID {
    id: usize,
}

impl BufferUUID {
    /// The numeric identifier.
    pub closed spec fn id_spec(&self) -> usize {
        self.id
    }

    /// The identifier with number `id`.
    pub closed spec fn with_id(id: usize) -> BufferUUID {
        BufferUUID { id }
    }

    /// `with_id` builds the identifier with the given number.
    pub proof fn lemma_with_id(id: usize)
        ensures
            BufferUUID::with_id(id).id_spec() == id,
    {
    }

    /// Identifiers with the same number are the same identifier.
    pub proof fn lemma_id_determines(a: BufferUUID, b: BufferUUID)
        ensures
            a.id_spec() == b.id_spec() <==> a == b,
    {
    }

    /// A fresh identifier, taken from the counter.
    pub fn new(counter: &mut UuidCounter) -> (r: BufferUUID)
        ensures
            r == BufferUUID::with_id(old(counter).peek()),
            r.id_spec() == old(counter).peek(),
            final(counter).peek() == crate::ids::successor(old(counter).peek()),
    {
        BufferUUID { id: counter.issue() }
    }

    /// The numeric identifier, as shown in messages (`UUID-<id>`).
    pub fn id(&self) -> (r: usize)
        ensures
            r == self.id_spec(),
    {
        self.id
    }
}

/// Errors of the instance-buffer bookkeeping.
#[derive(Clone, Copy, Debug, PartialEq, Eq, Structural)]
pub enum BufferError {
    /// A write would pass the end of the buffer.
    OutOfMemory { data_size: u64, buffer_size: u64 },
    /// A buffer with the identifier exists already.
    BufferAlredyExists { uuid: BufferUUID },
    /// No buffer has the identifier.
    BufferNotFound { uuid: BufferUUID },
}

} // verus!
