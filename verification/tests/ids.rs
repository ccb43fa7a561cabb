use candybox_gfx::{BufferUUID, Texture, TextureUUID, UuidCounter};
use image::{ImageBuffer, ImageFormat, Rgba};
use std::io::Cursor;

#[test]
fn counter_counts_up_from_one() {
    let mut counter = UuidCounter::new();
    assert_eq!(counter.next_id(), 1);
    assert_eq!(counter.issue(), 1);
    assert_eq!(counter.issue(), 2);
    assert_eq!(counter.next_id(), 3);
}

#[test]
fn buffer_and_texture_identifiers_are_consecutive() {
    let mut counter = UuidCounter::new();
    let a = BufferUUID::new(&mut counter);
    let b = BufferUUID::new(&mut counter);
    assert_eq!((a.id(), b.id()), (1, 2));
    assert_ne!(a, b);
    let mut textures = UuidCounter::new();
    assert_eq!(TextureUUID::new(&mut textures), TextureUUID { id: 1 });
    assert_eq!(TextureUUID::new(&mut textures), TextureUUID { id: 2 });
}

fn png_bytes(width: u32, height: u32) -> Vec<u8> {
    let image: ImageBuffer<Rgba<u8>, Vec<u8>> = ImageBuffer::from_pixel(width, height, Rgba([10, 20, 30, 255]));
    let mut bytes = Cursor::new(Vec::new());
    image.write_to(&mut bytes, ImageFormat::Png).unwrap();
    bytes.into_inner()
}

#[test]
fn texture_decodes_an_encoded_image() {
    let mut counter = UuidCounter::new();
    let texture = Texture::new(&png_bytes(3, 2), &mut counter).unwrap();
    assert_eq!(texture.uuid, 1);
    assert_eq!((texture.image.width(), texture.image.height()), (3, 2));
    assert_eq!(texture.image.to_rgba8().get_pixel(2, 1), &Rgba([10, 20, 30, 255]));
}

#[test]
fn texture_of_unreadable_bytes_is_refused_but_uses_an_identifier() {
    let mut counter = UuidCounter::new();
    assert!(Texture::new(&[1, 2, 3, 4, 5], &mut counter).is_err());
    assert_eq!(counter.next_id(), 2);
    let texture = Texture::new(&png_bytes(1, 1), &mut counter).unwrap();
    assert_eq!(texture.uuid, 2);
}

#[test]
fn many_buffer_identifiers_from_one_counter_differ() {
    let mut counter = UuidCounter::new();
    let ids: Vec<usize> = (0..1000).map(|_| BufferUUID::new(&mut counter).id()).collect();
    let mut sorted = ids.clone();
    sorted.sort();
    sorted.dedup();
    assert_eq!(sorted.len(), 1000);
    assert_eq!(ids[999], 1000);
}
