use candybox_gfx::{BufferUUID, HeapError, HeapEvent, MemoryHeap, UuidCounter};

fn uuids(n: usize) -> Vec<BufferUUID> {
    let mut counter = UuidCounter::new();
    (0..n).map(|_| BufferUUID::new(&mut counter)).collect()
}

#[test]
fn empty_heap_is_out_of_memory() {
    let mut heap = MemoryHeap::new();
    assert_eq!(heap.get_capacity(), 8);
    assert!(!heap.need_memory_scaling());
    assert_eq!(heap.allocate_memory(1), Err(HeapError::OutOfMemmory));
    assert!(heap.get_nums_instances().is_empty());
}

#[test]
fn allocations_fill_the_first_buffer_with_room() {
    let ids = uuids(2);
    let mut heap = MemoryHeap::new();
    heap.expand_memory(&ids[0]).unwrap();
    for tok in 0..8 {
        assert_eq!(
            heap.allocate_memory(tok),
            Ok(HeapEvent::MemoryAllocated { buffer_uuid: ids[0], buffer_index: tok })
        );
    }
    assert_eq!(heap.allocate_memory(8), Err(HeapError::OutOfMemmory));
    heap.expand_memory(&ids[1]).unwrap();
    assert_eq!(
        heap.allocate_memory(8),
        Ok(HeapEvent::MemoryAllocated { buffer_uuid: ids[1], buffer_index: 0 })
    );
    assert_eq!(heap.get_nums_instances(), vec![8, 1]);
}

#[test]
fn token_held_by_the_chosen_buffer_is_refused() {
    let ids = uuids(1);
    let mut heap = MemoryHeap::new();
    heap.expand_memory(&ids[0]).unwrap();
    heap.allocate_memory(4).unwrap();
    assert_eq!(heap.allocate_memory(4), Err(HeapError::MemoryOccupied { memory_segment_token: 4 }));
}

#[test]
fn lookup_reports_the_allocated_slot() {
    let ids = uuids(1);
    let mut heap = MemoryHeap::new();
    heap.expand_memory(&ids[0]).unwrap();
    heap.allocate_memory(10).unwrap();
    heap.allocate_memory(11).unwrap();
    assert_eq!(
        heap.lookup_memory_segment(11),
        Ok(HeapEvent::MemorySegmentFound { buffer_uuid: ids[0], buffer_index: 1 })
    );
    assert_eq!(
        heap.lookup_memory_segment(12),
        Err(HeapError::MemorySegmentNotFound { memory_segment_token: 12 })
    );
}

#[test]
fn released_slot_is_reused_and_counts_do_not_shrink() {
    let ids = uuids(1);
    let mut heap = MemoryHeap::new();
    heap.expand_memory(&ids[0]).unwrap();
    for tok in 0..3 {
        heap.allocate_memory(tok).unwrap();
    }
    assert_eq!(
        heap.deallocate_memory(1),
        Ok(HeapEvent::MemoryDeallocated { buffer_uuid: ids[0], buffer_index: 1 })
    );
    assert_eq!(
        heap.deallocate_memory(1),
        Err(HeapError::MemorySegmentNotFound { memory_segment_token: 1 })
    );
    assert_eq!(heap.get_nums_instances(), vec![3]);
    assert_eq!(
        heap.allocate_memory(20),
        Ok(HeapEvent::MemoryAllocated { buffer_uuid: ids[0], buffer_index: 1 })
    );
    // reusing a freed slot does not raise the count
    assert_eq!(heap.get_nums_instances(), vec![3]);
    assert_eq!(
        heap.allocate_memory(21),
        Ok(HeapEvent::MemoryAllocated { buffer_uuid: ids[0], buffer_index: 3 })
    );
    assert_eq!(heap.get_nums_instances(), vec![4]);
}

#[test]
fn ninth_buffer_needs_scaling() {
    let ids = uuids(9);
    let mut heap = MemoryHeap::new();
    for i in 0..8 {
        assert_eq!(heap.expand_memory(&ids[i]), Ok(()));
    }
    assert!(heap.need_memory_scaling());
    assert_eq!(heap.expand_memory(&ids[8]), Err(HeapError::ScalingRequired));
    heap.scale_memory();
    assert_eq!(heap.get_capacity(), 16);
    assert!(!heap.need_memory_scaling());
    assert_eq!(heap.expand_memory(&ids[8]), Ok(()));
}

#[test]
fn buffer_identifiers_can_be_replaced() {
    let ids = uuids(3);
    let mut heap = MemoryHeap::new();
    heap.expand_memory(&ids[0]).unwrap();
    heap.expand_memory(&ids[1]).unwrap();
    heap.allocate_memory(5).unwrap();
    assert_eq!(
        heap.update_buffer_uuid(&ids[0], &ids[1]),
        Err(HeapError::BufferAlredyExists { uuid: ids[1] })
    );
    assert_eq!(
        heap.update_buffer_uuid(&ids[2], &ids[2]),
        Err(HeapError::BufferNotFound { uuid: ids[2] })
    );
    assert_eq!(heap.update_buffer_uuid(&ids[0], &ids[2]), Ok(()));
    assert_eq!(
        heap.lookup_memory_segment(5),
        Ok(HeapEvent::MemorySegmentFound { buffer_uuid: ids[2], buffer_index: 0 })
    );
}

#[test]
fn buffers_never_outnumber_the_capacity() {
    let ids = uuids(24);
    let mut heap = MemoryHeap::new();
    let mut expanded = 0;
    for id in &ids {
        if heap.need_memory_scaling() {
            heap.scale_memory();
        }
        heap.expand_memory(id).unwrap();
        expanded += 1;
        assert_eq!(heap.get_nums_instances().len(), expanded);
        assert!(expanded <= heap.get_capacity());
    }
    assert_eq!(heap.get_capacity(), 32);
}

#[test]
fn token_held_by_another_buffer_is_refused() {
    let ids = uuids(2);
    let mut heap = MemoryHeap::new();
    heap.expand_memory(&ids[0]).unwrap();
    for tok in 0..8 {
        heap.allocate_memory(tok).unwrap();
    }
    heap.expand_memory(&ids[1]).unwrap();
    assert_eq!(heap.allocate_memory(0), Err(HeapError::MemoryOccupied { memory_segment_token: 0 }));
    assert_eq!(heap.get_nums_instances(), vec![8, 0]);
    assert_eq!(
        heap.deallocate_memory(0),
        Ok(HeapEvent::MemoryDeallocated { buffer_uuid: ids[0], buffer_index: 0 })
    );
    assert_eq!(
        heap.lookup_memory_segment(0),
        Err(HeapError::MemorySegmentNotFound { memory_segment_token: 0 })
    );
}

#[test]
fn reused_slot_keeps_the_count() {
    let ids = uuids(1);
    let mut heap = MemoryHeap::new();
    heap.expand_memory(&ids[0]).unwrap();
    heap.allocate_memory(0).unwrap();
    heap.deallocate_memory(0).unwrap();
    heap.allocate_memory(1).unwrap();
    assert_eq!(heap.get_nums_instances(), vec![1]);
}
