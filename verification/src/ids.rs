use vstd::prelude::*;

verus! {

/// A source of identifiers: it counts up from 1 and wraps around after the
/// largest `usize`, so consecutive identifiers differ.
pub struct UuidCounter {
    next: usize,
}

/// The identifier that follows `id`.
pub open spec fn successor(id: usize) -> usize {
    if id == usize::MAX {
        0
    } else {
        (id + 1) as usize
    }
}

/// The identifier `k` steps after `id`: the one the counter hands out on the
/// `k`-th call after it showed `id`.
pub open spec fn successor_n(id: usize, k: nat) -> usize
    decreases k,
{
    if k == 0 {
        id
    } else {
        successor(successor_n(id, (k - 1) as nat))
    }
}

/// Stepping `k` times adds `k`, wrapping past the largest `usize` to 0.
proof fn lemma_successor_n(id: usize, k: nat)
    requires
        k <= usize::MAX,
    ensures
        successor_n(id, k) == (if id + k <= usize::MAX {
            id + k
        } else {
            id + k - usize::MAX - 1
        }),
    decreases k,
{
    if k > 0 {
        lemma_successor_n(id, (k - 1) as nat);
    }
}

/// A counter hands out different identifiers on any two of its calls as long
/// as they are fewer than `usize::MAX + 1` calls apart: the identifiers of the
/// `i`-th and the `j`-th call after it showed `start` differ.
pub proof fn law_issued_ids_distinct(start: usize, i: nat, j: nat)
    requires
        i < j <= usize::MAX,
    ensures
        successor_n(start, i) != successor_n(start, j),
{
    lemma_successor_n(start, i);
    lemma_successor_n(start, j);
}

impl UuidCounter {
    /// The identifier the next call of `issue` returns.
    pub closed spec fn peek(&self) -> usize {
        self.next
    }

    /// A counter whose first identifier is 1.
    pub fn new() -> (r: UuidCounter)
        ensures
            r.peek() == 1,
    {
        UuidCounter { next: 1 }
    }

    /// The identifier the next call of `issue` returns.
    pub fn next_id(&self) -> (r: usize)
        ensures
            r == self.peek(),
    {
        self.next
    }

    /// Hands out the current identifier and advances the counter.
    pub fn issue(&mut self) -> (r: usize)
        ensures
            r == old(self).peek(),
            final(self).peek() == successor(old(self).peek()),
            final(self).peek() == successor_n(old(self).peek(), 1),
    {
        let id = self.next;
        assert(successor_n(id, 0) == id);
        self.next = self.next.wrapping_add(1);
        id
    }
}

} // verus!
