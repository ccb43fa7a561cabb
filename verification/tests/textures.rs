use candybox_gfx::kernel::materials::textures::{TextureArray, TextureWrite};
use candybox_gfx::{TextureArraySize, TextureError};

#[test]
fn size_classes_convert_to_index_side_and_binding() {
    let all = TextureArraySize::all();
    assert_eq!(all.len(), 10);
    let sides = [16u32, 32, 64, 128, 256, 512, 1024, 2048, 4096, 8192];
    for (i, size) in all.iter().enumerate() {
        assert_eq!(size.to_index(), i);
        assert_eq!(size.to_u32(), sides[i]);
        assert_eq!(size.to_binding(), i as u32 + 1);
        assert_eq!(TextureArraySize::from_index(i), Ok(*size));
    }
}

#[test]
fn index_past_last_class_is_refused() {
    assert_eq!(
        TextureArraySize::from_index(10),
        Err(TextureError::TextureArraySizeIndexOutOfBounds { index: 10 })
    );
    assert_eq!(
        TextureArraySize::from_index(usize::MAX),
        Err(TextureError::TextureArraySizeIndexOutOfBounds { index: usize::MAX })
    );
}

#[test]
fn dimensions_choose_the_smallest_fitting_class() {
    assert_eq!(TextureArraySize::from_dimensions((0, 0)), Ok(TextureArraySize::Size16));
    assert_eq!(TextureArraySize::from_dimensions((16, 16)), Ok(TextureArraySize::Size16));
    assert_eq!(TextureArraySize::from_dimensions((17, 3)), Ok(TextureArraySize::Size32));
    assert_eq!(TextureArraySize::from_dimensions((3, 17)), Ok(TextureArraySize::Size32));
    assert_eq!(TextureArraySize::from_dimensions((100, 50)), Ok(TextureArraySize::Size128));
    assert_eq!(TextureArraySize::from_dimensions((1024, 1025)), Ok(TextureArraySize::Size2048));
    assert_eq!(TextureArraySize::from_dimensions((8192, 8192)), Ok(TextureArraySize::Size8192));
}

#[test]
fn exact_side_of_each_class_stays_in_that_class() {
    for size in TextureArraySize::all() {
        let side = size.to_u32();
        assert_eq!(TextureArraySize::from_dimensions((side, side)), Ok(size));
        if side > 16 {
            let below = TextureArraySize::from_index(size.to_index() - 1).unwrap();
            assert_eq!(below.to_u32() * 2, side);
            assert_eq!(TextureArraySize::from_dimensions((side - 1, 1)), Ok(size));
            assert_eq!(TextureArraySize::from_dimensions((below.to_u32() + 1, 1)), Ok(size));
        }
    }
}

#[test]
fn images_larger_than_the_largest_class_are_refused() {
    assert_eq!(
        TextureArraySize::from_dimensions((8193, 1)),
        Err(TextureError::DimensionsOutOfBounds { dimensions: (8193, 1) })
    );
    assert_eq!(
        TextureArraySize::from_dimensions((1, u32::MAX)),
        Err(TextureError::DimensionsOutOfBounds { dimensions: (1, u32::MAX) })
    );
}

#[test]
fn texture_array_starts_with_eight_layers_of_its_side() {
    let array = TextureArray::new(&TextureArraySize::Size64);
    assert_eq!(array.max_layers(), 8);
    assert_eq!(array.dimensions(), (64, 64));
}

#[test]
fn texture_array_scaling_doubles_layers() {
    let mut array = TextureArray::new(&TextureArraySize::Size32);
    array.scale();
    assert_eq!(array.max_layers(), 16);
    array.scale();
    assert_eq!(array.max_layers(), 32);
    assert_eq!(array.dimensions(), (32, 32));
}

#[test]
fn loading_an_image_places_it_in_its_layer() {
    let array = TextureArray::new(&TextureArraySize::Size128);
    let write = array.load_image(3, (100, 50)).unwrap();
    assert_eq!(
        write,
        TextureWrite { layer: 3, bytes_per_row: 400, rows_per_image: 50, width: 100, height: 50 }
    );
    assert!(array.load_image(7, (1, 1)).is_ok());
    // the array holds layers 0..8: layer 8 is past the last one
    assert_eq!(
        array.load_image(8, (1, 1)),
        Err(TextureError::OutOfMemory { data_layer: 8, max_layers: 8 })
    );
}

#[test]
fn clearing_a_layer_covers_the_whole_layer() {
    let array = TextureArray::new(&TextureArraySize::Size16);
    assert_eq!(
        array.clear_image(2),
        Ok(TextureWrite { layer: 2, bytes_per_row: 64, rows_per_image: 16, width: 16, height: 16 })
    );
    assert_eq!(
        array.clear_image(8),
        Err(TextureError::OutOfMemory { data_layer: 8, max_layers: 8 })
    );
    assert_eq!(
        array.clear_image(12),
        Err(TextureError::OutOfMemory { data_layer: 12, max_layers: 8 })
    );
}
