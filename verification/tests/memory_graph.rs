use candybox_gfx::{GraphError, GraphEvent, MemoryGraph, TextureArraySize};

#[test]
fn allocation_needs_a_texture_array() {
    let mut graph = MemoryGraph::new();
    assert_eq!(
        graph.allocate_memory(1, &TextureArraySize::Size16),
        Err(GraphError::TextureArrayNotFound)
    );
    assert_eq!(graph.expand_memory(&TextureArraySize::Size16), Ok(()));
    assert_eq!(
        graph.expand_memory(&TextureArraySize::Size16),
        Err(GraphError::TextureArrayAlreadyExists)
    );
    assert_eq!(
        graph.allocate_memory(1, &TextureArraySize::Size16),
        Ok(GraphEvent::MemoryAllocated { texture_layer: 0 })
    );
    assert_eq!(
        graph.allocate_memory(2, &TextureArraySize::Size16),
        Ok(GraphEvent::MemoryAllocated { texture_layer: 1 })
    );
}

#[test]
fn a_token_owns_one_layer() {
    let mut graph = MemoryGraph::new();
    graph.expand_memory(&TextureArraySize::Size64).unwrap();
    graph.expand_memory(&TextureArraySize::Size16).unwrap();
    graph.allocate_memory(7, &TextureArraySize::Size64).unwrap();
    assert_eq!(
        graph.allocate_memory(7, &TextureArraySize::Size16),
        Err(GraphError::MemoryOccupied { memory_segment_token: 7 })
    );
    assert_eq!(
        graph.lookup_memory_segment(7),
        Ok(GraphEvent::MemorySegmentFound { texture_array_size: TextureArraySize::Size64, texture_layer: 0 })
    );
}

#[test]
fn lookup_and_release_of_unknown_token_are_refused() {
    let mut graph = MemoryGraph::new();
    assert_eq!(
        graph.lookup_memory_segment(3),
        Err(GraphError::MemorySegmentNotFound { memory_segment_token: 3 })
    );
    assert_eq!(
        graph.deallocate_memory(3),
        Err(GraphError::MemorySegmentNotFound { memory_segment_token: 3 })
    );
}

#[test]
fn released_layer_is_handed_out_next() {
    let mut graph = MemoryGraph::new();
    let size = TextureArraySize::Size256;
    graph.expand_memory(&size).unwrap();
    for tok in 0..4 {
        graph.allocate_memory(tok, &size).unwrap();
    }
    assert_eq!(
        graph.deallocate_memory(1),
        Ok(GraphEvent::MemoryDeallocated { texture_array_size: size, texture_layer: 1 })
    );
    assert_eq!(
        graph.lookup_memory_segment(1),
        Err(GraphError::MemorySegmentNotFound { memory_segment_token: 1 })
    );
    assert_eq!(graph.allocate_memory(10, &size), Ok(GraphEvent::MemoryAllocated { texture_layer: 1 }));
    assert_eq!(graph.allocate_memory(11, &size), Ok(GraphEvent::MemoryAllocated { texture_layer: 4 }));
}

#[test]
fn full_array_must_be_scaled_up_to_its_limit() {
    let mut graph = MemoryGraph::new();
    let size = TextureArraySize::Size32;
    graph.expand_memory(&size).unwrap();
    for tok in 0..8 {
        graph.allocate_memory(tok, &size).unwrap();
    }
    assert_eq!(graph.allocate_memory(8, &size), Err(GraphError::OutOfMemmory));
    // 8 -> 16 -> 32 -> 64 -> 128 -> 256
    for _ in 0..5 {
        assert_eq!(graph.scale_memory(&size), Ok(()));
    }
    assert_eq!(graph.scale_memory(&size), Err(GraphError::OutOfGPUMemory));
    assert_eq!(graph.allocate_memory(8, &size), Ok(GraphEvent::MemoryAllocated { texture_layer: 8 }));
    assert_eq!(graph.scale_memory(&TextureArraySize::Size16), Err(GraphError::TextureArrayNotFound));
}

#[test]
fn array_can_be_dropped_only_when_unused() {
    let mut graph = MemoryGraph::new();
    let size = TextureArraySize::Size512;
    assert_eq!(graph.can_drop_node(&size), Err(GraphError::TextureArrayNotFound));
    graph.expand_memory(&size).unwrap();
    assert_eq!(graph.can_drop_node(&size), Ok(true));
    graph.allocate_memory(1, &size).unwrap();
    graph.allocate_memory(2, &size).unwrap();
    assert_eq!(graph.can_drop_node(&size), Ok(false));
    graph.deallocate_memory(1).unwrap();
    assert_eq!(graph.can_drop_node(&size), Ok(false));
    graph.deallocate_memory(2).unwrap();
    assert_eq!(graph.can_drop_node(&size), Ok(true));
    assert_eq!(graph.drop_memory(&size), Ok(()));
    assert_eq!(graph.drop_memory(&size), Err(GraphError::TextureArrayNotFound));
    assert_eq!(graph.allocate_memory(3, &size), Err(GraphError::TextureArrayNotFound));
}

#[test]
fn capacities_double_from_eight_to_256() {
    let mut graph = MemoryGraph::new();
    let size = TextureArraySize::Size16;
    graph.expand_memory(&size).unwrap();
    let mut tok = 0;
    let mut capacity = 8;
    while capacity <= 256 {
        while tok < capacity {
            assert_eq!(graph.allocate_memory(tok, &size), Ok(GraphEvent::MemoryAllocated { texture_layer: tok }));
            tok += 1;
        }
        assert_eq!(graph.allocate_memory(tok, &size), Err(GraphError::OutOfMemmory));
        if capacity == 256 {
            assert_eq!(graph.scale_memory(&size), Err(GraphError::OutOfGPUMemory));
        } else {
            assert_eq!(graph.scale_memory(&size), Ok(()));
        }
        capacity *= 2;
    }
}
