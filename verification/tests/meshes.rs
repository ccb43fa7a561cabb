use candybox_gfx::kernel::meshes::resources::InstanceBuffer;
use candybox_gfx::{BufferUUID, MeshCommand, MeshError, MeshSystem, UuidCounter};

const SIZE: usize = 16;

fn bytes(tag: u8) -> Vec<u8> {
    vec![tag; SIZE]
}

fn ids(n: usize) -> Vec<BufferUUID> {
    let mut counter = UuidCounter::new();
    (0..n).map(|_| BufferUUID::new(&mut counter)).collect()
}

#[test]
fn first_mesh_creates_a_buffer_and_writes_slot_zero() {
    let id = ids(1);
    let mut system = MeshSystem::new(SIZE);
    assert!(system.growth_fits());
    let (commands, result) = system.add_mesh(0, bytes(1));
    assert_eq!(result, Ok(()));
    assert_eq!(
        commands,
        vec![
            MeshCommand::CreateInstanceBuffer { uuid: id[0], size: 128 },
            MeshCommand::WriteInstance { position: 0, offset: 0, data: bytes(1) },
        ]
    );
    assert_eq!(system.nums_instances(), vec![1]);
    assert_eq!(system.instance_buffers(), vec![InstanceBuffer { uuid: id[0], size: 128 }]);
    assert_eq!(system.draw_calls(), vec![(0, 1)]);
}

#[test]
fn meshes_fill_slots_in_order_then_a_new_buffer() {
    let id = ids(2);
    let mut system = MeshSystem::new(SIZE);
    for tok in 0..8 {
        let (commands, result) = system.add_mesh(tok, bytes(tok as u8));
        assert_eq!(result, Ok(()));
        assert_eq!(
            commands.last(),
            Some(&MeshCommand::WriteInstance { position: 0, offset: (tok * SIZE) as u64, data: bytes(tok as u8) })
        );
    }
    let (commands, result) = system.add_mesh(8, bytes(8));
    assert_eq!(result, Ok(()));
    assert_eq!(
        commands,
        vec![
            MeshCommand::CreateInstanceBuffer { uuid: id[1], size: 128 },
            MeshCommand::WriteInstance { position: 1, offset: 0, data: bytes(8) },
        ]
    );
    assert_eq!(system.nums_instances(), vec![8, 1]);
    assert_eq!(system.draw_calls(), vec![(0, 8), (1, 1)]);
}

#[test]
fn mesh_already_in_the_chosen_buffer_is_refused() {
    let mut system = MeshSystem::new(SIZE);
    system.add_mesh(3, bytes(1));
    let (commands, result) = system.add_mesh(3, bytes(2));
    assert!(commands.is_empty());
    assert_eq!(result, Err(MeshError::MemoryOccupied { mesh_uuid: 3 }));
    assert_eq!(system.nums_instances(), vec![1]);
}

#[test]
fn updating_rewrites_the_slot_of_the_mesh() {
    let mut system = MeshSystem::new(SIZE);
    system.add_mesh(0, bytes(1));
    system.add_mesh(1, bytes(2));
    let (commands, result) = system.update_mesh(1, bytes(9));
    assert_eq!(result, Ok(()));
    assert_eq!(commands, vec![MeshCommand::WriteInstance { position: 0, offset: 16, data: bytes(9) }]);
    let (commands, result) = system.update_mesh(5, bytes(9));
    assert!(commands.is_empty());
    assert_eq!(result, Err(MeshError::SegmentationFault { mesh_uuid: 5 }));
}

#[test]
fn deleting_zeroes_the_slot_and_the_next_mesh_reuses_it() {
    let mut system = MeshSystem::new(SIZE);
    for tok in 0..3 {
        system.add_mesh(tok, bytes(tok as u8 + 1));
    }
    let (commands, result) = system.delete_mesh(1);
    assert_eq!(result, Ok(()));
    assert_eq!(commands, vec![MeshCommand::WriteInstance { position: 0, offset: 16, data: vec![0; SIZE] }]);
    // drawn instance counts never shrink: slots stay stable
    assert_eq!(system.nums_instances(), vec![3]);
    let (commands, result) = system.delete_mesh(1);
    assert!(commands.is_empty());
    assert_eq!(result, Err(MeshError::SegmentationFault { mesh_uuid: 1 }));
    let (commands, _) = system.add_mesh(7, bytes(7));
    assert_eq!(commands, vec![MeshCommand::WriteInstance { position: 0, offset: 16, data: bytes(7) }]);
    assert_eq!(system.nums_instances(), vec![3]);
}

#[test]
fn update_and_delete_after_add_hit_the_added_slot() {
    let mut system = MeshSystem::new(SIZE);
    for tok in 0..10 {
        system.add_mesh(tok, bytes(1));
    }
    let (added, _) = system.add_mesh(100, bytes(5));
    let (position, offset) = match added.last() {
        Some(MeshCommand::WriteInstance { position, offset, .. }) => (*position, *offset),
        _ => panic!("no write"),
    };
    let (updated, _) = system.update_mesh(100, bytes(6));
    assert_eq!(updated, vec![MeshCommand::WriteInstance { position, offset, data: bytes(6) }]);
    let (deleted, _) = system.delete_mesh(100);
    assert_eq!(deleted, vec![MeshCommand::WriteInstance { position, offset, data: vec![0; SIZE] }]);
}

#[test]
fn full_heap_doubles_and_rewrites_every_instance() {
    let id = ids(16);
    let mut system = MeshSystem::new(SIZE);
    for tok in 0..64 {
        let (_, result) = system.add_mesh(tok, bytes(tok as u8));
        assert_eq!(result, Ok(()));
    }
    assert_eq!(system.nums_instances(), vec![8; 8]);
    let (commands, result) = system.add_mesh(64, bytes(64));
    assert_eq!(result, Ok(()));
    assert_eq!(commands.len(), 8 * 10 + 1);
    for p in 0..8 {
        let block = &commands[p * 10..p * 10 + 10];
        assert_eq!(block[0], MeshCommand::CreateInstanceBuffer { uuid: id[8 + p], size: 256 });
        for j in 0..8 {
            let tok = p * 8 + j;
            assert_eq!(
                block[1 + j],
                MeshCommand::WriteInstance { position: 8, offset: (j * SIZE) as u64, data: bytes(tok as u8) }
            );
        }
        assert_eq!(block[9], MeshCommand::DeleteInstanceBuffer { position: 0 });
    }
    assert_eq!(
        commands[80],
        MeshCommand::WriteInstance { position: 0, offset: 128, data: bytes(64) }
    );
    let buffers = system.instance_buffers();
    assert_eq!(buffers.len(), 8);
    for p in 0..8 {
        assert_eq!(buffers[p], InstanceBuffer { uuid: id[8 + p], size: 256 });
    }
    assert_eq!(system.nums_instances(), vec![9, 8, 8, 8, 8, 8, 8, 8]);
    // meshes keep their slots across the scaling
    let (commands, _) = system.update_mesh(13, bytes(0));
    assert_eq!(commands, vec![MeshCommand::WriteInstance { position: 1, offset: 80, data: bytes(0) }]);
}

#[test]
fn instance_size_is_kept() {
    let system = MeshSystem::new(48);
    assert_eq!(system.instance_size(), 48);
    assert!(system.draw_calls().is_empty());
    assert!(system.instance_buffers().is_empty());
}

#[test]
fn existing_mesh_is_refused_without_growth() {
    let mut system = MeshSystem::new(SIZE);
    for tok in 0..64 {
        system.add_mesh(tok, bytes(1));
    }
    let (commands, result) = system.add_mesh(0, bytes(2));
    assert_eq!(result, Err(MeshError::MemoryOccupied { mesh_uuid: 0 }));
    assert!(commands.is_empty());
    assert_eq!(system.instance_buffers()[0].size, 128);
    assert_eq!(system.nums_instances(), vec![8; 8]);
}

#[test]
fn mesh_in_an_earlier_full_buffer_is_refused() {
    let mut system = MeshSystem::new(SIZE);
    for tok in 0..9 {
        system.add_mesh(tok, bytes(1));
    }
    let (commands, result) = system.add_mesh(2, bytes(2));
    assert!(commands.is_empty());
    assert_eq!(result, Err(MeshError::MemoryOccupied { mesh_uuid: 2 }));
    assert_eq!(system.nums_instances(), vec![8, 1]);
}
