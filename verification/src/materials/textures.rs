//! Images loaded for materials.

use vstd::prelude::*;
use crate::ids::{UuidCounter, successor};

verus! {

/// An image as the `image` crate holds it.
#[verifier::external_type_specification]
#[verifier::external_body]
pub struct ExDynamicImage(image::DynamicImage);

/// A failure of the `image` crate to read an image.
#[verifier::external_type_specification]
#[verifier::external_body]
pub struct ExImageError(image::ImageError);

/// Calls `image::load_from_memory`, which guesses the format from the leading
/// bytes and decodes the image. Nothing is claimed of the result: whether it
/// succeeds depends on the bytes and also on the format-detection and decoding
/// hooks registered with the `image` crate at that moment, which any code of
/// the process may add to; what a decoded image holds is not stated either.
#[verifier::external_body]
fn load_from_memory(bytes: &[u8]) -> (r: Result<image::DynamicImage, image::ImageError>) {
    image::load_from_memory(bytes)
}

/// Identifier of a texture, taken from a counter.
#[derive(Clone, Copy, Debug, Hash, PartialEq, Eq, Structural)]
pub struct TextureUUID {
    pub id: usize,
}

impl TextureUUID {
    /// A fresh identifier, taken from the counter.
    pub fn new(counter: &mut UuidCounter) -> (r: TextureUUID)
        ensures
            r.id == old(counter).peek(),
            final(counter).peek() == successor(old(counter).peek()),
    {
        TextureUUID { id: counter.issue() }
    }
}

/// A decoded image with the identifier under which it is added as a material.
pub struct Texture {
    pub uuid: usize,
    pub image: image::DynamicImage,
}

impl Texture {
    /// Decodes an image from its encoded bytes, under a fresh identifier. The
    /// identifier is taken from the counter whether or not the bytes decode.
    /// Whether they decode is up to the `image` crate (see `load_from_memory`).
    pub fn new(bytes: &[u8], counter: &mut UuidCounter) -> (r: Result<Texture, image::ImageError>)
        ensures
            final(counter).peek() == successor(old(counter).peek()),
            r matches Ok(texture) ==> texture.uuid == old(counter).peek(),
    {
        let uuid = TextureUUID::new(counter).id;
        let image = match load_from_memory(bytes) {
            Ok(image) => image,
            Err(error) => {
                return Err(error);
            },
        };
        Ok(Texture { uuid, image })
    }
}

} // verus!
