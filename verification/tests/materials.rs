use candybox_gfx::kernel::materials::resources::BindingSource;
use candybox_gfx::kernel::materials::textures::TextureWrite;
use candybox_gfx::{
    GraphError, MaterialCommand, MaterialError, MaterialHandle, MaterialsSystem, TextureArraySize,
    TextureError,
};

fn write(layer: u32, width: u32, height: u32) -> TextureWrite {
    TextureWrite { layer, bytes_per_row: 4 * width, rows_per_image: height, width, height }
}

#[test]
fn first_material_of_a_class_creates_its_array() {
    let mut system = MaterialsSystem::new();
    let (commands, result) = system.add_material(0, (100, 50));
    assert_eq!(result, Ok(()));
    assert_eq!(
        commands,
        vec![
            MaterialCommand::CreateTextureArray { texture_array_size: TextureArraySize::Size128 },
            MaterialCommand::WriteImage { texture_array_size: TextureArraySize::Size128, write: write(0, 100, 50) },
        ]
    );
    assert_eq!(
        system.get_material_handle(0),
        Ok(MaterialHandle { texture_array_index: 3, texture_layer: 0 })
    );
}

#[test]
fn next_material_of_a_class_takes_the_next_layer() {
    let mut system = MaterialsSystem::new();
    system.add_material(0, (128, 128));
    let (commands, result) = system.add_material(1, (65, 65));
    assert_eq!(result, Ok(()));
    assert_eq!(
        commands,
        vec![MaterialCommand::WriteImage { texture_array_size: TextureArraySize::Size128, write: write(1, 65, 65) }]
    );
    assert_eq!(
        system.get_material_handle(1),
        Ok(MaterialHandle { texture_array_index: 3, texture_layer: 1 })
    );
}

#[test]
fn ninth_material_doubles_the_array_copying_active_layers() {
    let mut system = MaterialsSystem::new();
    for uuid in 0..8 {
        let (_, result) = system.add_material(uuid, (16, 16));
        assert_eq!(result, Ok(()));
    }
    let (commands, result) = system.add_material(8, (10, 12));
    assert_eq!(result, Ok(()));
    assert_eq!(
        commands,
        vec![
            MaterialCommand::ScaleTextureArray {
                texture_array_size: TextureArraySize::Size16,
                active_layers: vec![0, 1, 2, 3, 4, 5, 6, 7],
            },
            MaterialCommand::WriteImage { texture_array_size: TextureArraySize::Size16, write: write(8, 10, 12) },
        ]
    );
    assert_eq!(
        system.get_material_handle(8),
        Ok(MaterialHandle { texture_array_index: 0, texture_layer: 8 })
    );
}

#[test]
fn a_class_holds_at_most_256_materials() {
    let mut system = MaterialsSystem::new();
    for uuid in 0..256 {
        let (_, result) = system.add_material(uuid, (1, 1));
        assert_eq!(result, Ok(()));
    }
    let (commands, result) = system.add_material(256, (1, 1));
    assert!(commands.is_empty());
    assert_eq!(result, Err(MaterialError::GraphError(GraphError::OutOfGPUMemory)));
    // other classes are unaffected
    let (_, result) = system.add_material(256, (20, 20));
    assert_eq!(result, Ok(()));
}

#[test]
fn adding_an_existing_material_is_refused() {
    let mut system = MaterialsSystem::new();
    system.add_material(5, (8, 8));
    let (commands, result) = system.add_material(5, (300, 300));
    assert!(commands.is_empty());
    assert_eq!(result, Err(MaterialError::MemoryOccupied { material_uuid: 5 }));
}

#[test]
fn too_large_image_is_refused() {
    let mut system = MaterialsSystem::new();
    let (commands, result) = system.add_material(1, (9000, 10));
    assert!(commands.is_empty());
    assert_eq!(
        result,
        Err(MaterialError::TextureError(TextureError::DimensionsOutOfBounds { dimensions: (9000, 10) }))
    );
    assert_eq!(
        system.get_material_handle(1),
        Err(MaterialError::SegmentationFault { material_uuid: 1 })
    );
}

#[test]
fn deleting_clears_the_layer_and_drops_an_unused_array() {
    let mut system = MaterialsSystem::new();
    system.add_material(0, (40, 40));
    system.add_material(1, (40, 40));
    let (commands, result) = system.delete_material(0);
    assert_eq!(result, Ok(()));
    assert_eq!(
        commands,
        vec![MaterialCommand::ClearImage { texture_array_size: TextureArraySize::Size64, write: write(0, 64, 64) }]
    );
    let (commands, result) = system.delete_material(1);
    assert_eq!(result, Ok(()));
    assert_eq!(
        commands,
        vec![
            MaterialCommand::ClearImage { texture_array_size: TextureArraySize::Size64, write: write(1, 64, 64) },
            MaterialCommand::DeleteTextureArray { texture_array_size: TextureArraySize::Size64 },
        ]
    );
    assert_eq!(
        system.get_material_handle(1),
        Err(MaterialError::SegmentationFault { material_uuid: 1 })
    );
    // the class starts over with a new array
    let (commands, _) = system.add_material(2, (64, 64));
    assert_eq!(
        commands[0],
        MaterialCommand::CreateTextureArray { texture_array_size: TextureArraySize::Size64 }
    );
}

#[test]
fn deleting_an_unknown_material_is_refused() {
    let mut system = MaterialsSystem::new();
    let (commands, result) = system.delete_material(42);
    assert!(commands.is_empty());
    assert_eq!(result, Err(MaterialError::SegmentationFault { material_uuid: 42 }));
}

#[test]
fn freed_layer_is_reused_by_the_next_material() {
    let mut system = MaterialsSystem::new();
    for uuid in 0..3 {
        system.add_material(uuid, (200, 200));
    }
    system.delete_material(1);
    let (commands, _) = system.add_material(9, (256, 1));
    assert_eq!(
        commands,
        vec![MaterialCommand::WriteImage { texture_array_size: TextureArraySize::Size256, write: write(1, 256, 1) }]
    );
}

#[test]
fn updating_writes_the_new_image_into_the_same_layer() {
    let mut system = MaterialsSystem::new();
    system.add_material(0, (30, 30));
    system.add_material(1, (30, 30));
    let (commands, result) = system.update_material(1, (20, 25));
    assert_eq!(result, Ok(()));
    assert_eq!(
        commands,
        vec![MaterialCommand::WriteImage { texture_array_size: TextureArraySize::Size32, write: write(1, 20, 25) }]
    );
    let (commands, result) = system.update_material(7, (20, 25));
    assert!(commands.is_empty());
    assert_eq!(result, Err(MaterialError::SegmentationFault { material_uuid: 7 }));
}

#[test]
fn bind_group_binds_sampler_then_one_texture_per_class() {
    let mut system = MaterialsSystem::new();
    let entries = system.bind_group_entries();
    assert_eq!(entries.len(), 11);
    assert_eq!(entries[0], BindingSource::Sampler);
    assert!(entries[1..].iter().all(|e| *e == BindingSource::DummyTexture));
    system.add_material(0, (1000, 2));
    let entries = system.bind_group_entries();
    assert_eq!(entries[7], BindingSource::TextureArray(TextureArraySize::Size1024));
    assert_eq!(entries[6], BindingSource::DummyTexture);
}

#[test]
fn updating_with_an_image_of_another_size_class_is_refused() {
    let mut system = MaterialsSystem::new();
    system.add_material(0, (16, 16));
    let (commands, result) = system.update_material(0, (1024, 1024));
    assert!(commands.is_empty());
    assert_eq!(
        result,
        Err(MaterialError::TextureError(TextureError::UnexpectedDimensions {
            expected: (16, 16),
            found: (1024, 1024),
        }))
    );
    let (commands, result) = system.update_material(0, (9000, 1));
    assert!(commands.is_empty());
    assert_eq!(
        result,
        Err(MaterialError::TextureError(TextureError::UnexpectedDimensions {
            expected: (16, 16),
            found: (9000, 1),
        }))
    );
    let (_, result) = system.update_material(0, (3, 16));
    assert_eq!(result, Ok(()));
}
