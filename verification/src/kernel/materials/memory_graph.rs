use std::collections::HashMap;
use vstd::prelude::*;
use crate::kernel::materials::textures::TextureArraySize;

verus! {

broadcast use vstd::std_specs::hash::group_hash_axioms;

/// Number of layers a new texture array starts with.
pub const INITIAL_LAYERS: usize = 8;

/// Largest capacity from which a texture array can no longer be doubled.
pub const MAX_LAYERS: usize = 256;

/// Occupancy of one texture array: its capacity in layers, the number of
/// layers handed out so far, and the layers given back for reuse.
struct MemoryNode {
    capacity: usize,
    len: usize,
    free_layers: Vec<usize>,
}

/// Abstract state of one texture array.
pub struct MemoryNodeView {
    pub capacity: nat,
    pub len: nat,
    pub free_layers: Seq<usize>,
}

impl MemoryNodeView {
    /// No layer can be handed out without scaling the array first.
    pub open spec fn is_full(self) -> bool {
        self.len >= self.capacity && self.free_layers.len() == 0
    }

    /// The layer the next allocation receives: the most recently freed one,
    /// or else the next never-used one.
    pub open spec fn next_layer(self) -> usize {
        if self.free_layers.len() > 0 {
            self.free_layers.last()
        } else {
            self.len as usize
        }
    }

    /// The array after one allocation.
    pub open spec fn after_allocation(self) -> MemoryNodeView {
        if self.free_layers.len() > 0 {
            MemoryNodeView { free_layers: self.free_layers.drop_last(), ..self }
        } else {
            MemoryNodeView { len: self.len + 1, ..self }
        }
    }

    /// The array after layer `layer` was given back.
    pub open spec fn after_release(self, layer: usize) -> MemoryNodeView {
        MemoryNodeView { free_layers: self.free_layers.push(layer), ..self }
    }

    /// Fewer layers are free than were handed out.
    pub open spec fn free_within_bound(self) -> bool {
        self.free_layers.len() <= self.len
    }
}

/// Layer capacities a texture array passes through: 8 doubled up to 256.
pub open spec fn valid_capacity(c: nat) -> bool {
    c == 8 || c == 16 || c == 32 || c == 64 || c == 128 || c == 256
}

/// The usize values below `n`.
spec fn below(n: nat) -> Set<usize> {
    Set::new(|x: usize| (x as nat) < n)
}

proof fn lemma_below_len(n: nat)
    requires
        n <= usize::MAX + 1,
    ensures
        below(n).finite(),
        below(n).len() == n,
    decreases n,
{
    if n == 0 {
        assert(below(0) =~= Set::<usize>::empty());
    } else {
        lemma_below_len((n - 1) as nat);
        assert(below(n) =~= below((n - 1) as nat).insert((n - 1) as usize));
    }
}

/// A duplicate-free sequence of values below `n` has at most `n` entries, and
/// exactly `n` when it holds every value below `n`.
proof fn lemma_bounded_distinct(free: Seq<usize>, n: nat)
    requires
        free.no_duplicates(),
        forall|i: int| 0 <= i < free.len() ==> (#[trigger] free[i] as nat) < n,
        n <= usize::MAX + 1,
    ensures
        free.len() <= n,
        free.len() == n <==> forall|l: usize| (l as nat) < n ==> #[trigger] free.contains(l),
{
    let fs = free.to_set();
    free.unique_seq_to_set();
    lemma_below_len(n);
    assert(fs.subset_of(below(n))) by {
        assert forall|x: usize| #[trigger] fs.contains(x) implies below(n).contains(x) by {
            let i = choose|i: int| 0 <= i < free.len() && free[i] == x;
        }
    }
    vstd::set_lib::lemma_len_subset(fs, below(n));
    if forall|l: usize| (l as nat) < n ==> #[trigger] free.contains(l) {
        assert(below(n).subset_of(fs)) by {
            assert forall|x: usize| #[trigger] below(n).contains(x) implies fs.contains(x) by {
                assert(free.contains(x));
            }
        }
        vstd::set_lib::lemma_len_subset(below(n), fs);
    }
    if free.len() == n {
        vstd::set_lib::lemma_subset_equality(fs, below(n));
        assert forall|l: usize| (l as nat) < n implies #[trigger] free.contains(l) by {
            assert(below(n).contains(l));
            assert(fs.contains(l));
        }
    }
}

impl MemoryNode {
    closed spec fn node_view(&self) -> MemoryNodeView {
        MemoryNodeView {
            capacity: self.capacity as nat,
            len: self.len as nat,
            free_layers: self.free_layers@,
        }
    }
}

/// Layer allocator of the material system: every material (named by its
/// memory-segment token) owns one layer of the texture array of its size class.
pub struct MemoryGraph {
    allocations: HashMap<usize, (TextureArraySize, usize)>,
    memory_nodes: Vec<Option<MemoryNode>>,
}

#[verifier::ext_equal]
/// Abstract state of a `MemoryGraph`: which token owns which layer, and the
/// texture arrays that exist, by size class.
pub struct MemoryGraphView {
    pub allocations: Map<usize, (TextureArraySize, usize)>,
    pub nodes: Map<TextureArraySize, MemoryNodeView>,
}

impl MemoryGraphView {
    /// What `lookup_memory_segment` answers.
    pub open spec fn lookup_spec(self, tok: usize) -> Result<GraphEvent, GraphError> {
        if self.allocations.contains_key(tok) {
            Ok(
                GraphEvent::MemorySegmentFound {
                    texture_array_size: self.allocations[tok].0,
                    texture_layer: self.allocations[tok].1,
                },
            )
        } else {
            Err(GraphError::MemorySegmentNotFound { memory_segment_token: tok })
        }
    }

    /// The state after, and the answer of, `allocate_memory(tok, s)`.
    pub open spec fn allocate_spec(self, tok: usize, s: TextureArraySize) -> (
        MemoryGraphView,
        Result<GraphEvent, GraphError>,
    ) {
        if self.allocations.contains_key(tok) {
            (self, Err(GraphError::MemoryOccupied { memory_segment_token: tok }))
        } else if !self.nodes.contains_key(s) {
            (self, Err(GraphError::TextureArrayNotFound))
        } else if self.nodes[s].is_full() {
            (self, Err(GraphError::OutOfMemmory))
        } else {
            let n = self.nodes[s];
            (
                MemoryGraphView {
                    allocations: self.allocations.insert(tok, (s, n.next_layer())),
                    nodes: self.nodes.insert(s, n.after_allocation()),
                },
                Ok(GraphEvent::MemoryAllocated { texture_layer: n.next_layer() }),
            )
        }
    }

    /// The state after, and the answer of, `deallocate_memory(tok)`.
    pub open spec fn deallocate_spec(self, tok: usize) -> (
        MemoryGraphView,
        Result<GraphEvent, GraphError>,
    ) {
        if !self.allocations.contains_key(tok) {
            (self, Err(GraphError::MemorySegmentNotFound { memory_segment_token: tok }))
        } else {
            let (s, l) = self.allocations[tok];
            (
                MemoryGraphView {
                    allocations: self.allocations.remove(tok),
                    nodes: self.nodes.insert(s, self.nodes[s].after_release(l)),
                },
                Ok(GraphEvent::MemoryDeallocated { texture_array_size: s, texture_layer: l }),
            )
        }
    }

    /// The state after, and the answer of, `expand_memory(s)`.
    pub open spec fn expand_spec(self, s: TextureArraySize) -> (MemoryGraphView, Result<(), GraphError>) {
        if self.nodes.contains_key(s) {
            (self, Err(GraphError::TextureArrayAlreadyExists))
        } else {
            (
                MemoryGraphView {
                    allocations: self.allocations,
                    nodes: self.nodes.insert(
                        s,
                        MemoryNodeView {
                            capacity: INITIAL_LAYERS as nat,
                            len: 0,
                            free_layers: Seq::empty(),
                        },
                    ),
                },
                Ok(()),
            )
        }
    }

    /// The state after, and the answer of, `drop_memory(s)`.
    pub open spec fn drop_spec(self, s: TextureArraySize) -> (MemoryGraphView, Result<(), GraphError>) {
        if self.nodes.contains_key(s) {
            (MemoryGraphView { allocations: self.allocations, nodes: self.nodes.remove(s) }, Ok(()))
        } else {
            (self, Err(GraphError::TextureArrayNotFound))
        }
    }

    /// The state after, and the answer of, `scale_memory(s)`.
    pub open spec fn scale_spec(self, s: TextureArraySize) -> (MemoryGraphView, Result<(), GraphError>) {
        if !self.nodes.contains_key(s) {
            (self, Err(GraphError::TextureArrayNotFound))
        } else if self.nodes[s].capacity >= MAX_LAYERS {
            (self, Err(GraphError::OutOfGPUMemory))
        } else {
            let n = self.nodes[s];
            (
                MemoryGraphView {
                    allocations: self.allocations,
                    nodes: self.nodes.insert(s, MemoryNodeView { capacity: 2 * n.capacity, ..n }),
                },
                Ok(()),
            )
        }
    }

    /// What `can_drop_node(s)` answers.
    pub open spec fn can_drop_spec(self, s: TextureArraySize) -> Result<bool, GraphError> {
        if !self.nodes.contains_key(s) {
            Err(GraphError::TextureArrayNotFound)
        } else {
            Ok(self.nodes[s].free_layers.len() == self.nodes[s].len)
        }
    }

    /// Some token owns layer `layer` of the array of size class `s`.
    pub open spec fn layer_owned(self, s: TextureArraySize, layer: usize) -> bool {
        exists|tok: usize| #[trigger]
            self.allocations.contains_key(tok) && self.allocations[tok] == (s, layer)
    }

    /// Some token owns a layer of the array of size class `s`.
    pub open spec fn has_allocation_of(self, s: TextureArraySize) -> bool {
        exists|tok: usize| #[trigger]
            self.allocations.contains_key(tok) && self.allocations[tok].0 == s
    }

    /// The bookkeeping invariant: every allocation lies inside an existing
    /// array and below its high-water mark, no two tokens share a layer, every
    /// capacity is 8 doubled at most five times, and below the high-water mark
    /// every layer is either owned or free, never both, with no layer free twice.
    pub open spec fn consistent(self) -> bool {
        &&& forall|tok: usize| #[trigger]
            self.allocations.contains_key(tok) ==> {
                let (s, l) = self.allocations[tok];
                &&& self.nodes.contains_key(s)
                &&& (l as nat) < self.nodes[s].len
                &&& !self.nodes[s].free_layers.contains(l)
            }
        &&& forall|t1: usize, t2: usize|
            #![trigger self.allocations[t1], self.allocations[t2]]
            self.allocations.contains_key(t1) && self.allocations.contains_key(t2) && t1 != t2
                ==> self.allocations[t1] != self.allocations[t2]
        &&& forall|s: TextureArraySize| #[trigger]
            self.nodes.contains_key(s) ==> {
                let n = self.nodes[s];
                &&& n.len <= n.capacity
                &&& valid_capacity(n.capacity)
                &&& n.capacity <= usize::MAX
                &&& n.free_layers.no_duplicates()
                &&& forall|i: int|
                    0 <= i < n.free_layers.len() ==> (#[trigger] n.free_layers[i] as nat) < n.len
                &&& forall|l: usize|
                    (l as nat) < n.len && !(#[trigger] n.free_layers.contains(l))
                        ==> self.layer_owned(s, l)
            }
    }
}

impl MemoryGraphView {
    /// In a consistent graph, a texture array has no active layer exactly when
    /// no token owns a layer of it, and never more free layers than used ones.
    pub proof fn lemma_active_layers(self, s: TextureArraySize)
        requires
            self.consistent(),
            self.nodes.contains_key(s),
        ensures
            self.nodes[s].free_within_bound(),
            self.nodes[s].free_layers.len() == self.nodes[s].len <==> !self.has_allocation_of(s),
    {
        let n = self.nodes[s];
        lemma_bounded_distinct(n.free_layers, n.len);
        if self.has_allocation_of(s) {
            let tok = choose|tok: usize| #[trigger]
                self.allocations.contains_key(tok) && self.allocations[tok].0 == s;
            let l = self.allocations[tok].1;
            assert(!n.free_layers.contains(l));
        } else {
            assert forall|l: usize| (l as nat) < n.len implies #[trigger] n.free_layers.contains(l) by {
                if !n.free_layers.contains(l) {
                    assert(self.layer_owned(s, l));
                    let tok = choose|tok: usize| #[trigger]
                        self.allocations.contains_key(tok) && self.allocations[tok] == (s, l);
                    assert(self.allocations[tok].0 == s);
                }
            }
        }
    }
}

impl View for MemoryGraph {
    type V = MemoryGraphView;

    closed spec fn view(&self) -> MemoryGraphView {
        MemoryGraphView {
            allocations: self.allocations@,
            nodes: Map::new(
                |s: TextureArraySize| self.memory_nodes@[s.index_spec() as int] is Some,
                |s: TextureArraySize| self.memory_nodes@[s.index_spec() as int]->Some_0.node_view(),
            ),
        }
    }
}

/// Outcome of a successful operation of the `MemoryGraph`.
#[derive(Clone, Copy, Debug, PartialEq, Eq, Structural)]
pub enum GraphEvent {
    MemoryAllocated { texture_layer: usize },
    MemoryDeallocated { texture_array_size: TextureArraySize, texture_layer: usize },
    MemorySegmentFound { texture_array_size: TextureArraySize, texture_layer: usize },
}

/// Refusals of the `MemoryGraph`.
#[derive(Clone, Copy, Debug, PartialEq, Eq, Structural)]
pub enum GraphError {
    /// Every layer of the texture array is taken: the array must be scaled.
    OutOfMemmory,
    /// The texture array has reached the largest capacity.
    OutOfGPUMemory,
    /// The token owns a layer already.
    MemoryOccupied { memory_segment_token: usize },
    /// The token owns no layer.
    MemorySegmentNotFound { memory_segment_token: usize },
    /// No texture array of the size class exists.
    TextureArrayNotFound,
    /// A texture array of the size class exists already.
    TextureArrayAlreadyExists,
}

impl MemoryGraph {
    /// The slot table has one entry per size class.
    pub closed spec fn wf(&self) -> bool {
        self.memory_nodes@.len() == 10
    }

    /// An empty graph: no texture array, no allocation.
    pub fn new() -> (r: MemoryGraph)
        ensures
            r.wf(),
            r@.allocations == Map::<usize, (TextureArraySize, usize)>::empty(),
            r@.nodes == Map::<TextureArraySize, MemoryNodeView>::empty(),
            r@.consistent(),
    {
        let mut memory_nodes: Vec<Option<MemoryNode>> = Vec::new();
        let mut i: usize = 0;
        while i < 10
            invariant
                i <= 10,
                memory_nodes@.len() == i,
                forall|j: int| 0 <= j < i ==> memory_nodes@[j] is None,
            decreases 10 - i,
        {
            memory_nodes.push(None);
            i = i + 1;
        }
        let r = MemoryGraph { allocations: HashMap::new(), memory_nodes };
        assert(r@.nodes =~= Map::<TextureArraySize, MemoryNodeView>::empty());
        r
    }

    /// Gives the token a layer of the texture array of its size class: the most
    /// recently freed layer, or else the next never-used one.
    pub fn allocate_memory(
        &mut self,
        memory_segment_token: usize,
        texture_array_size: &TextureArraySize,
    ) -> (r: Result<GraphEvent, GraphError>)
        requires
            old(self).wf(),
        ensures
            final(self).wf(),
            final(self)@ == old(self)@.allocate_spec(memory_segment_token, *texture_array_size).0,
            r == old(self)@.allocate_spec(memory_segment_token, *texture_array_size).1,
            old(self)@.consistent() ==> final(self)@.consistent(),
    {
        proof {
            TextureArraySize::lemma_index_injective();
        }
        if self.allocations.contains_key(&memory_segment_token) {
            return Err(GraphError::MemoryOccupied { memory_segment_token });
        }
        let ghost old_view = self@;
        let idx = texture_array_size.to_index();
        let mut node = match self.memory_nodes[idx].take() {
            Some(node) => node,
            None => {
                assert(self.memory_nodes@ =~= old(self).memory_nodes@);
                return Err(GraphError::TextureArrayNotFound);
            },
        };
        if node.len >= node.capacity && node.free_layers.len() == 0 {
            self.memory_nodes.set(idx, Some(node));
            assert(self@.nodes =~= old_view.nodes);
            return Err(GraphError::OutOfMemmory);
        }
        let texture_layer = match node.free_layers.pop() {
            Some(layer) => layer,
            None => {
                let layer = node.len;
                node.len = node.len + 1;
                layer
            },
        };
        self.memory_nodes.set(idx, Some(node));
        self.allocations.insert(memory_segment_token, (*texture_array_size, texture_layer));
        proof {
            let s = *texture_array_size;
            let n = old_view.nodes[s];
            let tok = memory_segment_token;
            let l = texture_layer;
            assert(self@.nodes =~= old_view.nodes.insert(s, n.after_allocation()));
            if old_view.consistent() {
                let v = self@;
                let n2 = n.after_allocation();
                // the handed-out layer was owned by nobody
                assert(!old_view.layer_owned(s, l)) by {
                    if old_view.layer_owned(s, l) {
                        let t = choose|t: usize| #[trigger]
                            old_view.allocations.contains_key(t) && old_view.allocations[t] == (s, l);
                        if n.free_layers.len() > 0 {
                            assert(n.free_layers.contains(l));
                        }
                    }
                }
                assert(old_view.nodes.contains_key(s));
                assert(n.free_layers.no_duplicates());
                if n.free_layers.len() > 0 {
                    assert(n.free_layers[n.free_layers.len() - 1] == l);
                    assert(n.free_layers.contains(l));
                }
                assert(!n2.free_layers.contains(l)) by {
                    if n.free_layers.len() > 0 {
                        if n2.free_layers.contains(l) {
                            let i = choose|i: int| 0 <= i < n2.free_layers.len() && n2.free_layers[i] == l;
                            assert(n2.free_layers[i] == n.free_layers[i]);
                            assert(n.free_layers[n.free_layers.len() - 1] == l);
                        }
                    }
                }
                assert forall|t: usize| #[trigger] v.allocations.contains_key(t) implies {
                    let (s2, l2) = v.allocations[t];
                    &&& v.nodes.contains_key(s2)
                    &&& (l2 as nat) < v.nodes[s2].len
                    &&& !v.nodes[s2].free_layers.contains(l2)
                } by {
                    if t != tok {
                        assert(old_view.allocations.contains_key(t));
                        let (s2, l2) = v.allocations[t];
                        if s2 == s && n.free_layers.len() > 0 {
                            if n2.free_layers.contains(l2) {
                                let i = choose|i: int| 0 <= i < n2.free_layers.len() && n2.free_layers[i] == l2;
                                assert(n.free_layers[i] == l2);
                            }
                        }
                    }
                }
                assert forall|t1: usize, t2: usize|
                    #![trigger v.allocations[t1], v.allocations[t2]]
                    v.allocations.contains_key(t1) && v.allocations.contains_key(t2) && t1 != t2
                        implies v.allocations[t1] != v.allocations[t2] by {
                    if t1 == tok {
                        assert(old_view.allocations.contains_key(t2));
                        if v.allocations[t2] == (s, l) {
                            assert(old_view.allocations[t2] == (s, l));
                        }
                    } else if t2 == tok {
                        assert(old_view.allocations.contains_key(t1));
                        if v.allocations[t1] == (s, l) {
                            assert(old_view.allocations[t1] == (s, l));
                        }
                    } else {
                        assert(old_view.allocations[t1] != old_view.allocations[t2]);
                    }
                }
                assert forall|t: TextureArraySize| #[trigger] v.nodes.contains_key(t) implies {
                    let m = v.nodes[t];
                    &&& m.len <= m.capacity
                    &&& m.free_layers.no_duplicates()
                    &&& forall|i: int|
                        0 <= i < m.free_layers.len() ==> (#[trigger] m.free_layers[i] as nat) < m.len
                    &&& forall|l3: usize|
                        (l3 as nat) < m.len && !(#[trigger] m.free_layers.contains(l3))
                            ==> v.layer_owned(t, l3)
                } by {
                    let m = v.nodes[t];
                    assert(old_view.nodes.contains_key(t));
                    if t == s {
                        if n.free_layers.len() > 0 {
                            assert forall|i: int|
                                0 <= i < m.free_layers.len() implies (#[trigger] m.free_layers[i] as nat) < m.len by {
                                assert(m.free_layers[i] == n.free_layers[i]);
                            }
                        }
                    }
                    assert forall|l3: usize|
                        (l3 as nat) < m.len && !(#[trigger] m.free_layers.contains(l3))
                        implies v.layer_owned(t, l3) by {
                        if t == s && l3 == l {
                            assert(v.allocations.contains_key(tok) && v.allocations[tok] == (t, l3));
                        } else {
                            let old_m = old_view.nodes[t];
                            if t == s && n.free_layers.len() > 0 {
                                if old_m.free_layers.contains(l3) {
                                    let i = choose|i: int| 0 <= i < old_m.free_layers.len() && old_m.free_layers[i] == l3;
                                    if i < old_m.free_layers.len() - 1 {
                                        assert(m.free_layers[i] == l3);
                                    }
                                }
                            }
                            assert(!old_m.free_layers.contains(l3));
                            assert(old_view.layer_owned(t, l3));
                            let w = choose|w: usize| #[trigger]
                                old_view.allocations.contains_key(w) && old_view.allocations[w] == (t, l3);
                            assert(w != tok);
                            assert(v.allocations.contains_key(w) && v.allocations[w] == (t, l3));
                        }
                    }
                }
            }
        }
        Ok(GraphEvent::MemoryAllocated { texture_layer })
    }

    /// Takes the token's layer back into the free list of its texture array.
    pub fn deallocate_memory(&mut self, memory_segment_token: usize) -> (r: Result<
        GraphEvent,
        GraphError,
    >)
        requires
            old(self).wf(),
            old(self)@.allocations.contains_key(memory_segment_token) ==> old(
                self,
            )@.nodes.contains_key(old(self)@.allocations[memory_segment_token].0),
        ensures
            final(self).wf(),
            final(self)@ == old(self)@.deallocate_spec(memory_segment_token).0,
            r == old(self)@.deallocate_spec(memory_segment_token).1,
            old(self)@.consistent() ==> final(self)@.consistent(),
    {
        proof {
            TextureArraySize::lemma_index_injective();
        }
        let ghost old_view = self@;
        let (texture_array_size, texture_layer) = match self.allocations.remove(&memory_segment_token) {
            Some(found) => found,
            None => {
                assert(self@.allocations =~= old_view.allocations);
                assert(self@.nodes =~= old_view.nodes);
                return Err(GraphError::MemorySegmentNotFound { memory_segment_token });
            },
        };
        let idx = texture_array_size.to_index();
        let mut node = self.memory_nodes[idx].take().unwrap();
        node.free_layers.push(texture_layer);
        self.memory_nodes.set(idx, Some(node));
        proof {
            let s = texture_array_size;
            let l = texture_layer;
            let tok = memory_segment_token;
            let n = old_view.nodes[s];
            assert(self@.nodes =~= old_view.nodes.insert(s, n.after_release(l)));
            if old_view.consistent() {
                let v = self@;
                let n2 = n.after_release(l);
                assert forall|t: usize| #[trigger] v.allocations.contains_key(t) implies {
                    let (s2, l2) = v.allocations[t];
                    &&& v.nodes.contains_key(s2)
                    &&& (l2 as nat) < v.nodes[s2].len
                    &&& !v.nodes[s2].free_layers.contains(l2)
                } by {
                    assert(old_view.allocations.contains_key(t));
                    assert(old_view.allocations[t] != old_view.allocations[tok]);
                    let (s2, l2) = v.allocations[t];
                    if s2 == s && n2.free_layers.contains(l2) {
                        let i = choose|i: int| 0 <= i < n2.free_layers.len() && n2.free_layers[i] == l2;
                        if i < n.free_layers.len() {
                            assert(n.free_layers[i] == l2);
                        }
                    }
                }
                assert forall|t1: usize, t2: usize|
                    #![trigger v.allocations[t1], v.allocations[t2]]
                    v.allocations.contains_key(t1) && v.allocations.contains_key(t2) && t1 != t2
                        implies v.allocations[t1] != v.allocations[t2] by {
                    assert(old_view.allocations[t1] != old_view.allocations[t2]);
                }
                assert forall|t: TextureArraySize| #[trigger] v.nodes.contains_key(t) implies {
                    let m = v.nodes[t];
                    &&& m.len <= m.capacity
                    &&& m.free_layers.no_duplicates()
                    &&& forall|i: int|
                        0 <= i < m.free_layers.len() ==> (#[trigger] m.free_layers[i] as nat) < m.len
                    &&& forall|l3: usize|
                        (l3 as nat) < m.len && !(#[trigger] m.free_layers.contains(l3))
                            ==> v.layer_owned(t, l3)
                } by {
                    let m = v.nodes[t];
                    assert(old_view.nodes.contains_key(t));
                    if t == s {
                        assert(!n.free_layers.contains(l));
                        assert forall|i: int, j: int|
                            0 <= i < m.free_layers.len() && 0 <= j < m.free_layers.len() && i != j
                            implies m.free_layers[i] != m.free_layers[j] by {
                            if i == n.free_layers.len() as int {
                                assert(m.free_layers[j] == n.free_layers[j]);
                            } else if j == n.free_layers.len() as int {
                                assert(m.free_layers[i] == n.free_layers[i]);
                            } else {
                                assert(m.free_layers[i] == n.free_layers[i]);
                                assert(m.free_layers[j] == n.free_layers[j]);
                            }
                        }
                        assert forall|i: int|
                            0 <= i < m.free_layers.len() implies (#[trigger] m.free_layers[i] as nat) < m.len by {
                            if i < n.free_layers.len() {
                                assert(m.free_layers[i] == n.free_layers[i]);
                            }
                        }
                    }
                    assert forall|l3: usize|
                        (l3 as nat) < m.len && !(#[trigger] m.free_layers.contains(l3))
                        implies v.layer_owned(t, l3) by {
                        let old_m = old_view.nodes[t];
                        if t == s {
                            assert(l3 != l) by {
                                assert(m.free_layers[m.free_layers.len() - 1] == l);
                            }
                            if old_m.free_layers.contains(l3) {
                                let i = choose|i: int| 0 <= i < old_m.free_layers.len() && old_m.free_layers[i] == l3;
                                assert(m.free_layers[i] == l3);
                            }
                        }
                        assert(!old_m.free_layers.contains(l3));
                        assert(old_view.layer_owned(t, l3));
                        let w = choose|w: usize| #[trigger]
                            old_view.allocations.contains_key(w) && old_view.allocations[w] == (t, l3);
                        assert(w != tok);
                        assert(v.allocations.contains_key(w) && v.allocations[w] == (t, l3));
                    }
                }
            }
        }
        Ok(GraphEvent::MemoryDeallocated { texture_array_size, texture_layer })
    }

    /// Tells whether the texture array of a size class has no active layer,
    /// so that it can be removed.
    pub fn can_drop_node(&self, texture_array_size: &TextureArraySize) -> (r: Result<
        bool,
        GraphError,
    >)
        requires
            self.wf(),
            self@.nodes.contains_key(*texture_array_size) ==> self@.nodes[*texture_array_size].free_within_bound(),
        ensures
            r == self@.can_drop_spec(*texture_array_size),
            self@.consistent() && self@.nodes.contains_key(*texture_array_size) ==> r == Ok::<
                bool,
                GraphError,
            >(!self@.has_allocation_of(*texture_array_size)),
    {
        let idx = texture_array_size.to_index();
        match &self.memory_nodes[idx] {
            Some(node) => {
                proof {
                    if self@.consistent() {
                        self@.lemma_active_layers(*texture_array_size);
                    }
                }
                let active_layers = node.len - node.free_layers.len();
                if active_layers == 0 {
                    Ok(true)
                } else {
                    Ok(false)
                }
            },
            None => Err(GraphError::TextureArrayNotFound),
        }
    }

    /// Where the token's layer is, if it owns one.
    pub fn lookup_memory_segment(&self, memory_segment_token: usize) -> (r: Result<
        GraphEvent,
        GraphError,
    >)
        ensures
            r == self@.lookup_spec(memory_segment_token),
    {
        match self.allocations.get(&memory_segment_token) {
            Some(found) => {
                let (texture_array_size, texture_layer) = *found;
                Ok(GraphEvent::MemorySegmentFound { texture_array_size, texture_layer })
            },
            None => Err(GraphError::MemorySegmentNotFound { memory_segment_token }),
        }
    }

    /// Creates the empty texture array of a size class, with room for 8 layers.
    pub fn expand_memory(&mut self, texture_array_size: &TextureArraySize) -> (r: Result<
        (),
        GraphError,
    >)
        requires
            old(self).wf(),
        ensures
            final(self).wf(),
            final(self)@ == old(self)@.expand_spec(*texture_array_size).0,
            r == old(self)@.expand_spec(*texture_array_size).1,
            old(self)@.consistent() ==> final(self)@.consistent(),
    {
        proof {
            TextureArraySize::lemma_index_injective();
        }
        let idx = texture_array_size.to_index();
        if self.memory_nodes[idx].is_some() {
            return Err(GraphError::TextureArrayAlreadyExists);
        }
        let ghost old_view = self@;
        let node = MemoryNode { capacity: INITIAL_LAYERS, len: 0, free_layers: Vec::new() };
        self.memory_nodes.set(idx, Some(node));
        proof {
            let s = *texture_array_size;
            let nv = MemoryNodeView { capacity: INITIAL_LAYERS as nat, len: 0, free_layers: Seq::empty() };
            assert(self@.nodes =~= old_view.nodes.insert(s, nv));
            if old_view.consistent() {
                let v = self@;
                assert forall|t: TextureArraySize| #[trigger] v.nodes.contains_key(t) implies {
                    let n = v.nodes[t];
                    &&& n.len <= n.capacity
                    &&& n.free_layers.no_duplicates()
                    &&& forall|i: int|
                        0 <= i < n.free_layers.len() ==> (#[trigger] n.free_layers[i] as nat) < n.len
                    &&& forall|l: usize|
                        (l as nat) < n.len && !(#[trigger] n.free_layers.contains(l))
                            ==> v.layer_owned(t, l)
                } by {
                    if t != s {
                        assert(old_view.nodes.contains_key(t));
                        assert forall|l: usize|
                            (l as nat) < v.nodes[t].len && !(#[trigger] v.nodes[t].free_layers.contains(l))
                            implies v.layer_owned(t, l) by {
                            assert(old_view.layer_owned(t, l));
                        }
                    }
                }
            }
        }
        Ok(())
    }

    /// Removes the texture array of a size class.
    pub fn drop_memory(&mut self, texture_array_size: &TextureArraySize) -> (r: Result<
        (),
        GraphError,
    >)
        requires
            old(self).wf(),
        ensures
            final(self).wf(),
            final(self)@ == old(self)@.drop_spec(*texture_array_size).0,
            r == old(self)@.drop_spec(*texture_array_size).1,
            old(self)@.consistent() && !old(self)@.has_allocation_of(*texture_array_size)
                ==> final(self)@.consistent(),
    {
        proof {
            TextureArraySize::lemma_index_injective();
        }
        let idx = texture_array_size.to_index();
        if self.memory_nodes[idx].is_none() {
            return Err(GraphError::TextureArrayNotFound);
        }
        let ghost old_view = self@;
        self.memory_nodes.set(idx, None);
        proof {
            let s = *texture_array_size;
            assert(self@.nodes =~= old_view.nodes.remove(s));
            if old_view.consistent() && !old_view.has_allocation_of(s) {
                let v = self@;
                assert forall|tok: usize| #[trigger] v.allocations.contains_key(tok) implies {
                    let (s2, l) = v.allocations[tok];
                    &&& v.nodes.contains_key(s2)
                    &&& (l as nat) < v.nodes[s2].len
                    &&& !v.nodes[s2].free_layers.contains(l)
                } by {
                    assert(old_view.allocations.contains_key(tok));
                    if v.allocations[tok].0 == s {
                        assert(old_view.has_allocation_of(s));
                    }
                }
                assert forall|t: TextureArraySize| #[trigger] v.nodes.contains_key(t) implies {
                    let n = v.nodes[t];
                    forall|l: usize|
                        (l as nat) < n.len && !(#[trigger] n.free_layers.contains(l))
                            ==> v.layer_owned(t, l)
                } by {
                    assert(old_view.nodes.contains_key(t));
                    assert forall|l: usize|
                        (l as nat) < v.nodes[t].len && !(#[trigger] v.nodes[t].free_layers.contains(l))
                        implies v.layer_owned(t, l) by {
                        assert(old_view.layer_owned(t, l));
                    }
                }
            }
        }
        Ok(())
    }

    /// Doubles the capacity of the texture array of a size class, unless it
    /// holds 256 layers or more already.
    pub fn scale_memory(&mut self, texture_array_size: &TextureArraySize) -> (r: Result<
        (),
        GraphError,
    >)
        requires
            old(self).wf(),
        ensures
            final(self).wf(),
            final(self)@ == old(self)@.scale_spec(*texture_array_size).0,
            r == old(self)@.scale_spec(*texture_array_size).1,
            old(self)@.consistent() ==> final(self)@.consistent(),
    {
        proof {
            TextureArraySize::lemma_index_injective();
        }
        let idx = texture_array_size.to_index();
        let ghost old_view = self@;
        match self.memory_nodes[idx].take() {
            Some(mut node) => {
                if node.capacity >= MAX_LAYERS {
                    self.memory_nodes.set(idx, Some(node));
                    assert(self@.nodes =~= old_view.nodes);
                    return Err(GraphError::OutOfGPUMemory);
                }
                node.capacity = node.capacity * 2;
                self.memory_nodes.set(idx, Some(node));
                proof {
                    let s = *texture_array_size;
                    let n = old_view.nodes[s];
                    assert(self@.nodes =~= old_view.nodes.insert(
                        s,
                        MemoryNodeView { capacity: 2 * n.capacity, ..n },
                    ));
                    if old_view.consistent() {
                        let v = self@;
                        assert(v.allocations == old_view.allocations);
                        assert forall|t: TextureArraySize| #[trigger] v.nodes.contains_key(t)
                            == old_view.nodes.contains_key(t) && (v.nodes.contains_key(t) ==> (
                            v.nodes[t].len == old_view.nodes[t].len && v.nodes[t].free_layers
                                == old_view.nodes[t].free_layers && v.nodes[t].capacity
                                >= old_view.nodes[t].capacity)) by {}
                        assert forall|t: TextureArraySize| #[trigger] v.nodes.contains_key(t) implies {
                            let n = v.nodes[t];
                            forall|l: usize|
                                (l as nat) < n.len && !(#[trigger] n.free_layers.contains(l))
                                    ==> v.layer_owned(t, l)
                        } by {
                            assert(old_view.nodes.contains_key(t));
                            assert(v.nodes[t].len == old_view.nodes[t].len);
                            assert(v.nodes[t].free_layers == old_view.nodes[t].free_layers);
                            assert forall|l: usize|
                                (l as nat) < v.nodes[t].len && !(#[trigger] v.nodes[t].free_layers.contains(l))
                                implies v.layer_owned(t, l) by {
                                assert(old_view.layer_owned(t, l));
                                let tok = choose|tok: usize| #[trigger]
                                    old_view.allocations.contains_key(tok) && old_view.allocations[tok] == (t, l);
                                assert(v.allocations.contains_key(tok) && v.allocations[tok] == (t, l));
                            }
                        }
                    }
                }
                Ok(())
            },
            None => {
                assert(self.memory_nodes@ =~= old(self).memory_nodes@);
                Err(GraphError::TextureArrayNotFound)
            },
        }
    }
}


/// After a fresh token takes layer `l` of class `s`, the owned layers are the
/// ones owned before together with that layer.
pub proof fn lemma_owned_after_insert(
    g: MemoryGraphView,
    g2: MemoryGraphView,
    tok: usize,
    s: TextureArraySize,
    l: usize,
)
    requires
        !g.allocations.contains_key(tok),
        g2.allocations == g.allocations.insert(tok, (s, l)),
    ensures
        forall|s2: TextureArraySize, l2: usize| #[trigger]
            g2.layer_owned(s2, l2) <==> g.layer_owned(s2, l2) || (s2 == s && l2 == l),
{
    assert forall|s2: TextureArraySize, l2: usize| #[trigger]
        g2.layer_owned(s2, l2) <==> g.layer_owned(s2, l2) || (s2 == s && l2 == l) by {
        if g.layer_owned(s2, l2) {
            let t = choose|t: usize| #[trigger] g.allocations.contains_key(t) && g.allocations[t] == (s2, l2);
            assert(g2.allocations.contains_key(t) && g2.allocations[t] == (s2, l2));
        }
        if s2 == s && l2 == l {
            assert(g2.allocations.contains_key(tok) && g2.allocations[tok] == (s2, l2));
        }
        if g2.layer_owned(s2, l2) && !(s2 == s && l2 == l) {
            let t = choose|t: usize| #[trigger] g2.allocations.contains_key(t) && g2.allocations[t] == (s2, l2);
            assert(t != tok);
            assert(g.allocations.contains_key(t) && g.allocations[t] == (s2, l2));
        }
    }
}

/// After a token of a consistent graph gives back its layer `l` of class `s`,
/// the owned layers are the ones owned before except that layer.
pub proof fn lemma_owned_after_remove(g: MemoryGraphView, g2: MemoryGraphView, tok: usize)
    requires
        g.consistent(),
        g.allocations.contains_key(tok),
        g2.allocations == g.allocations.remove(tok),
    ensures
        forall|s2: TextureArraySize, l2: usize| #[trigger]
            g2.layer_owned(s2, l2) <==> g.layer_owned(s2, l2) && (s2, l2) != g.allocations[tok],
{
    assert forall|s2: TextureArraySize, l2: usize| #[trigger]
        g2.layer_owned(s2, l2) <==> g.layer_owned(s2, l2) && (s2, l2) != g.allocations[tok] by {
        if g.layer_owned(s2, l2) && (s2, l2) != g.allocations[tok] {
            let t = choose|t: usize| #[trigger] g.allocations.contains_key(t) && g.allocations[t] == (s2, l2);
            assert(t != tok);
            assert(g2.allocations.contains_key(t) && g2.allocations[t] == (s2, l2));
        }
        if g2.layer_owned(s2, l2) {
            let t = choose|t: usize| #[trigger] g2.allocations.contains_key(t) && g2.allocations[t] == (s2, l2);
            assert(g.allocations.contains_key(t) && g.allocations[t] == (s2, l2));
            assert(t != tok);
            assert(g.allocations[t] != g.allocations[tok]);
        }
    }
}

/// A token that was given a layer is found at that layer by a lookup.
pub proof fn law_lookup_after_allocate(g: MemoryGraphView, tok: usize, s: TextureArraySize)
    ensures
        g.allocate_spec(tok, s).1 matches Ok(GraphEvent::MemoryAllocated { texture_layer })
            ==> g.allocate_spec(tok, s).0.lookup_spec(tok) == Ok::<GraphEvent, GraphError>(
            GraphEvent::MemorySegmentFound { texture_array_size: s, texture_layer },
        ),
{
}

/// A token that gave its layer back is no longer found.
pub proof fn law_lookup_after_deallocate(g: MemoryGraphView, tok: usize)
    ensures
        g.deallocate_spec(tok).0.lookup_spec(tok) == Err::<GraphEvent, GraphError>(
            GraphError::MemorySegmentNotFound { memory_segment_token: tok },
        ),
{
}

/// A refused operation leaves the graph as it was.
pub proof fn law_refusals_change_nothing(g: MemoryGraphView, tok: usize, s: TextureArraySize)
    ensures
        g.allocate_spec(tok, s).1 is Err ==> g.allocate_spec(tok, s).0 == g,
        g.deallocate_spec(tok).1 is Err ==> g.deallocate_spec(tok).0 == g,
        g.expand_spec(s).1 is Err ==> g.expand_spec(s).0 == g,
        g.drop_spec(s).1 is Err ==> g.drop_spec(s).0 == g,
        g.scale_spec(s).1 is Err ==> g.scale_spec(s).0 == g,
{
}

/// A token that already owns a layer cannot be given a second one.
pub proof fn law_occupied_token_refused(g: MemoryGraphView, tok: usize, s: TextureArraySize)
    requires
        g.allocations.contains_key(tok),
    ensures
        g.allocate_spec(tok, s).1 == Err::<GraphEvent, GraphError>(
            GraphError::MemoryOccupied { memory_segment_token: tok },
        ),
{
}

/// Giving a layer back undoes the allocation: the same size class and layer
/// are reported, and the token table is as before the allocation.
pub proof fn law_deallocate_undoes_allocate(g: MemoryGraphView, tok: usize, s: TextureArraySize)
    ensures
        g.allocate_spec(tok, s).1 matches Ok(GraphEvent::MemoryAllocated { texture_layer }) ==> {
            let g2 = g.allocate_spec(tok, s).0;
            &&& g2.deallocate_spec(tok).1 == Ok::<GraphEvent, GraphError>(
                GraphEvent::MemoryDeallocated { texture_array_size: s, texture_layer },
            )
            &&& g2.deallocate_spec(tok).0.allocations == g.allocations
        },
{
    if g.allocate_spec(tok, s).1 is Ok {
        assert(g.allocate_spec(tok, s).0.deallocate_spec(tok).0.allocations =~= g.allocations);
    }
}

/// The layer given back last is the layer handed out next in its size class,
/// so layer indices stay stable for reuse.
pub proof fn law_freed_layer_reused(
    g: MemoryGraphView,
    tok: usize,
    other: usize,
    s: TextureArraySize,
)
    requires
        g.allocations.contains_key(tok),
        g.allocations[tok].0 == s,
        g.nodes.contains_key(s),
        tok == other || !g.allocations.contains_key(other),
    ensures
        g.deallocate_spec(tok).0.allocate_spec(other, s).1 == Ok::<GraphEvent, GraphError>(
            GraphEvent::MemoryAllocated { texture_layer: g.allocations[tok].1 },
        ),
{
    let g2 = g.deallocate_spec(tok).0;
    assert(g2.nodes[s].free_layers.last() == g.allocations[tok].1);
}

/// In a consistent graph no two tokens share a layer, and every owned layer
/// lies within the capacity of its texture array.
pub proof fn law_layers_exclusive_and_in_bounds(g: MemoryGraphView, t1: usize, t2: usize)
    requires
        g.consistent(),
        g.allocations.contains_key(t1),
        g.allocations.contains_key(t2),
    ensures
        t1 != t2 ==> g.allocations[t1] != g.allocations[t2],
        g.nodes.contains_key(g.allocations[t1].0),
        (g.allocations[t1].1 as nat) < g.nodes[g.allocations[t1].0].capacity,
{
}

/// In a consistent graph a texture array may be dropped exactly when no token
/// owns a layer of it.
pub proof fn law_can_drop_iff_unused(g: MemoryGraphView, s: TextureArraySize)
    requires
        g.consistent(),
        g.nodes.contains_key(s),
    ensures
        g.can_drop_spec(s) == Ok::<bool, GraphError>(!g.has_allocation_of(s)),
{
    g.lemma_active_layers(s);
}

} // verus!
