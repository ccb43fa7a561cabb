use vstd::prelude::*;

verus! {

/// Size classes of the texture arrays: square layers of 16 to 8192 pixels.
#[derive(Clone, Copy, Debug, Hash, PartialEq, Eq, Structural)]
pub enum TextureArraySize {
    Size16,
    Size32,
    Size64,
    Size128,
    Size256,
    Size512,
    Size1024,
    Size2048,
    Size4096,
    Size8192,
}

/// Number of size classes.
pub open spec fn num_size_classes() -> nat {
    10
}

impl TextureArraySize {
    /// Position of the size class in the list of all classes (smallest first).
    pub open spec fn index_spec(self) -> nat {
        match self {
            TextureArraySize::Size16 => 0,
            TextureArraySize::Size32 => 1,
            TextureArraySize::Size64 => 2,
            TextureArraySize::Size128 => 3,
            TextureArraySize::Size256 => 4,
            TextureArraySize::Size512 => 5,
            TextureArraySize::Size1024 => 6,
            TextureArraySize::Size2048 => 7,
            TextureArraySize::Size4096 => 8,
            TextureArraySize::Size8192 => 9,
        }
    }

    /// Side length in pixels of one layer of the size class.
    pub open spec fn side_spec(self) -> nat {
        match self {
            TextureArraySize::Size16 => 16,
            TextureArraySize::Size32 => 32,
            TextureArraySize::Size64 => 64,
            TextureArraySize::Size128 => 128,
            TextureArraySize::Size256 => 256,
            TextureArraySize::Size512 => 512,
            TextureArraySize::Size1024 => 1024,
            TextureArraySize::Size2048 => 2048,
            TextureArraySize::Size4096 => 4096,
            TextureArraySize::Size8192 => 8192,
        }
    }

    /// The size class at position `i` (meaningful for `i < 10`).
    pub open spec fn at_index(i: nat) -> TextureArraySize {
        if i == 0 {
            TextureArraySize::Size16
        } else if i == 1 {
            TextureArraySize::Size32
        } else if i == 2 {
            TextureArraySize::Size64
        } else if i == 3 {
            TextureArraySize::Size128
        } else if i == 4 {
            TextureArraySize::Size256
        } else if i == 5 {
            TextureArraySize::Size512
        } else if i == 6 {
            TextureArraySize::Size1024
        } else if i == 7 {
            TextureArraySize::Size2048
        } else if i == 8 {
            TextureArraySize::Size4096
        } else {
            TextureArraySize::Size8192
        }
    }

    /// The larger of the two dimensions of an image.
    pub open spec fn max_dimension(dimensions: (u32, u32)) -> u32 {
        if dimensions.0 >= dimensions.1 {
            dimensions.0
        } else {
            dimensions.1
        }
    }

    /// The smallest size class whose layers hold a square of side `d`
    /// (meaningful for `d <= 8192`).
    pub open spec fn for_dimension(d: int) -> TextureArraySize {
        if d <= 16 {
            TextureArraySize::Size16
        } else if d <= 32 {
            TextureArraySize::Size32
        } else if d <= 64 {
            TextureArraySize::Size64
        } else if d <= 128 {
            TextureArraySize::Size128
        } else if d <= 256 {
            TextureArraySize::Size256
        } else if d <= 512 {
            TextureArraySize::Size512
        } else if d <= 1024 {
            TextureArraySize::Size1024
        } else if d <= 2048 {
            TextureArraySize::Size2048
        } else if d <= 4096 {
            TextureArraySize::Size4096
        } else {
            TextureArraySize::Size8192
        }
    }

    /// `self` is the smallest size class whose layers hold a square of side `d`.
    pub open spec fn smallest_fitting(self, d: int) -> bool {
        &&& d <= self.side_spec()
        &&& forall|t: TextureArraySize| d <= t.side_spec() ==> self.side_spec() <= t.side_spec()
    }

    /// Size classes are told apart by their position, and the position leads back
    /// to the class.
    pub proof fn lemma_index_injective()
        ensures
            forall|s1: TextureArraySize, s2: TextureArraySize|
                #![trigger s1.index_spec(), s2.index_spec()]
                s1.index_spec() == s2.index_spec() ==> s1 == s2,
            forall|s: TextureArraySize| #[trigger]
                TextureArraySize::at_index(s.index_spec()) == s,
            forall|s: TextureArraySize| #[trigger] s.index_spec() < num_size_classes(),
    {
    }

    /// Position of the size class in the list of all size classes.
    pub fn to_index(&self) -> (r: usize)
        ensures
            r == self.index_spec(),
    {
        match self {
            TextureArraySize::Size16 => 0,
            TextureArraySize::Size32 => 1,
            TextureArraySize::Size64 => 2,
            TextureArraySize::Size128 => 3,
            TextureArraySize::Size256 => 4,
            TextureArraySize::Size512 => 5,
            TextureArraySize::Size1024 => 6,
            TextureArraySize::Size2048 => 7,
            TextureArraySize::Size4096 => 8,
            TextureArraySize::Size8192 => 9,
        }
    }

    /// Side length of one layer in pixels.
    pub fn to_u32(&self) -> (r: u32)
        ensures
            r == self.side_spec(),
    {
        match self {
            TextureArraySize::Size16 => 16,
            TextureArraySize::Size32 => 32,
            TextureArraySize::Size64 => 64,
            TextureArraySize::Size128 => 128,
            TextureArraySize::Size256 => 256,
            TextureArraySize::Size512 => 512,
            TextureArraySize::Size1024 => 1024,
            TextureArraySize::Size2048 => 2048,
            TextureArraySize::Size4096 => 4096,
            TextureArraySize::Size8192 => 8192,
        }
    }

    /// The size class at position `index`; an index past the last class is refused.
    pub fn from_index(index: usize) -> (r: Result<TextureArraySize, TextureError>)
        ensures
            index < 10 ==> r == Ok::<TextureArraySize, TextureError>(
                TextureArraySize::at_index(index as nat),
            ),
            index >= 10 ==> r == Err::<TextureArraySize, TextureError>(
                TextureError::TextureArraySizeIndexOutOfBounds { index },
            ),
    {
        match index {
            0 => Ok(TextureArraySize::Size16),
            1 => Ok(TextureArraySize::Size32),
            2 => Ok(TextureArraySize::Size64),
            3 => Ok(TextureArraySize::Size128),
            4 => Ok(TextureArraySize::Size256),
            5 => Ok(TextureArraySize::Size512),
            6 => Ok(TextureArraySize::Size1024),
            7 => Ok(TextureArraySize::Size2048),
            8 => Ok(TextureArraySize::Size4096),
            9 => Ok(TextureArraySize::Size8192),
            _ => Err(TextureError::TextureArraySizeIndexOutOfBounds { index }),
        }
    }

    /// The smallest size class whose layers hold an image of the given
    /// `(width, height)`; images larger than 8192 pixels are refused.
    pub fn from_dimensions(dimensions: (u32, u32)) -> (r: Result<TextureArraySize, TextureError>)
        ensures
            TextureArraySize::max_dimension(dimensions) <= 8192 ==> r == Ok::<
                TextureArraySize,
                TextureError,
            >(TextureArraySize::for_dimension(TextureArraySize::max_dimension(dimensions) as int)),
            TextureArraySize::max_dimension(dimensions) > 8192 ==> r == Err::<
                TextureArraySize,
                TextureError,
            >(TextureError::DimensionsOutOfBounds { dimensions }),
    {
        let max_dimension = if dimensions.0 >= dimensions.1 {
            dimensions.0
        } else {
            dimensions.1
        };
        if max_dimension <= 16 {
            Ok(TextureArraySize::Size16)
        } else if max_dimension <= 32 {
            Ok(TextureArraySize::Size32)
        } else if max_dimension <= 64 {
            Ok(TextureArraySize::Size64)
        } else if max_dimension <= 128 {
            Ok(TextureArraySize::Size128)
        } else if max_dimension <= 256 {
            Ok(TextureArraySize::Size256)
        } else if max_dimension <= 512 {
            Ok(TextureArraySize::Size512)
        } else if max_dimension <= 1024 {
            Ok(TextureArraySize::Size1024)
        } else if max_dimension <= 2048 {
            Ok(TextureArraySize::Size2048)
        } else if max_dimension <= 4096 {
            Ok(TextureArraySize::Size4096)
        } else if max_dimension <= 8192 {
            Ok(TextureArraySize::Size8192)
        } else {
            Err(TextureError::DimensionsOutOfBounds { dimensions })
        }
    }

    /// Binding slot of the size class in the material bind group (slot 0 is the sampler).
    pub fn to_binding(&self) -> (r: u32)
        ensures
            r == self.index_spec() + 1,
    {
        let index = self.to_index();
        index as u32 + 1
    }

    /// All size classes, smallest first.
    pub fn all() -> (r: Vec<TextureArraySize>)
        ensures
            r@.len() == num_size_classes(),
            forall|i: int| 0 <= i < r@.len() ==> (#[trigger] r@[i]).index_spec() == i,
    {
        vec![
            TextureArraySize::Size16,
            TextureArraySize::Size32,
            TextureArraySize::Size64,
            TextureArraySize::Size128,
            TextureArraySize::Size256,
            TextureArraySize::Size512,
            TextureArraySize::Size1024,
            TextureArraySize::Size2048,
            TextureArraySize::Size4096,
            TextureArraySize::Size8192,
        ]
    }
}

/// Number of layers a new texture array holds.
pub const INITIAL_TEXTURE_LAYERS: u32 = 8;

/// Bookkeeping of one texture array of the GPU: its layer capacity and the
/// pixel dimensions of its layers. The GPU texture itself is held by the caller.
pub struct TextureArray {
    max_layers_count: u32,
    dimensions: (u32, u32),
}

/// Abstract state of a texture array.
pub struct TextureArrayView {
    pub max_layers_count: nat,
    pub dimensions: (u32, u32),
}

/// Placement of one layer write on the GPU: the layer, the row pitch in bytes
/// and the extent, as `queue.write_texture` takes them. The data is
/// `rows_per_image` rows of `bytes_per_row` bytes of RGBA pixels.
#[derive(Clone, Copy, Debug, PartialEq, Eq, Structural)]
pub struct TextureWrite {
    pub layer: u32,
    pub bytes_per_row: u32,
    pub rows_per_image: u32,
    pub width: u32,
    pub height: u32,
}

/// The write of an image of `dimensions` pixels into layer `layer`.
pub open spec fn image_write(layer: u32, dimensions: (u32, u32)) -> TextureWrite {
    TextureWrite {
        layer,
        bytes_per_row: (4 * dimensions.0) as u32,
        rows_per_image: dimensions.1,
        width: dimensions.0,
        height: dimensions.1,
    }
}

impl View for TextureArray {
    type V = TextureArrayView;

    closed spec fn view(&self) -> TextureArrayView {
        TextureArrayView { max_layers_count: self.max_layers_count as nat, dimensions: self.dimensions }
    }
}

impl TextureArray {
    /// Layers are at most 8192 pixels wide and high.
    #[verifier::type_invariant]
    spec fn layers_fit(&self) -> bool {
        &&& self.dimensions.0 <= 8192
        &&& self.dimensions.1 <= 8192
    }

    /// An empty texture array of a size class, with room for 8 layers.
    pub fn new(size: &TextureArraySize) -> (r: TextureArray)
        ensures
            r@.max_layers_count == INITIAL_TEXTURE_LAYERS,
            r@.dimensions == (size.side_spec() as u32, size.side_spec() as u32),
    {
        let side = size.to_u32();
        TextureArray { max_layers_count: INITIAL_TEXTURE_LAYERS, dimensions: (side, side) }
    }

    /// Doubles the layer capacity (the caller copies the active layers into a
    /// texture of the new size).
    pub fn scale(&mut self)
        requires
            2 * old(self)@.max_layers_count <= u32::MAX,
        ensures
            final(self)@.max_layers_count == 2 * old(self)@.max_layers_count,
            final(self)@.dimensions == old(self)@.dimensions,
    {
        proof {
            use_type_invariant(&*self);
        }
        self.max_layers_count = self.max_layers_count * 2;
    }

    /// The write of an image into layer `layer`; a layer at or past the capacity
    /// (the array holds layers `0..capacity`) is refused.
    pub fn load_image(&self, layer: u32, image_dimensions: (u32, u32)) -> (r: Result<
        TextureWrite,
        TextureError,
    >)
        requires
            layer < self@.max_layers_count ==> 4 * image_dimensions.0 <= u32::MAX,
        ensures
            layer >= self@.max_layers_count ==> r == Err::<TextureWrite, TextureError>(
                TextureError::OutOfMemory { data_layer: layer, max_layers: self@.max_layers_count as u32 },
            ),
            layer < self@.max_layers_count ==> r == Ok::<TextureWrite, TextureError>(
                image_write(layer, image_dimensions),
            ),
    {
        if layer >= self.max_layers_count {
            return Err(
                TextureError::OutOfMemory { data_layer: layer, max_layers: self.max_layers_count },
            );
        }
        Ok(
            TextureWrite {
                layer,
                bytes_per_row: 4 * image_dimensions.0,
                rows_per_image: image_dimensions.1,
                width: image_dimensions.0,
                height: image_dimensions.1,
            },
        )
    }

    /// The write of transparent pixels over the whole of layer `layer`; a layer
    /// at or past the capacity is refused.
    pub fn clear_image(&self, layer: u32) -> (r: Result<TextureWrite, TextureError>)
        ensures
            layer >= self@.max_layers_count ==> r == Err::<TextureWrite, TextureError>(
                TextureError::OutOfMemory { data_layer: layer, max_layers: self@.max_layers_count as u32 },
            ),
            layer < self@.max_layers_count ==> r == Ok::<TextureWrite, TextureError>(
                image_write(layer, self@.dimensions),
            ),
    {
        proof {
            use_type_invariant(self);
        }
        if layer >= self.max_layers_count {
            return Err(
                TextureError::OutOfMemory { data_layer: layer, max_layers: self.max_layers_count },
            );
        }
        Ok(
            TextureWrite {
                layer,
                bytes_per_row: 4 * self.dimensions.0,
                rows_per_image: self.dimensions.1,
                width: self.dimensions.0,
                height: self.dimensions.1,
            },
        )
    }

    /// The layer capacity.
    pub fn max_layers(&self) -> (r: u32)
        ensures
            r == self@.max_layers_count,
    {
        self.max_layers_count
    }

    /// Width and height of the layers in pixels.
    pub fn dimensions(&self) -> (r: (u32, u32))
        ensures
            r == self@.dimensions,
    {
        self.dimensions
    }
}

/// Errors of the texture bookkeeping.
#[derive(Clone, Copy, Debug, PartialEq, Eq)]
pub enum TextureError {
    /// A layer past the capacity of the texture array was addressed.
    OutOfMemory { data_layer: u32, max_layers: u32 },
    /// An image does not have the dimensions of its texture array.
    UnexpectedDimensions { expected: (u32, u32), found: (u32, u32) },
    /// An image is larger than the largest size class.
    DimensionsOutOfBounds { dimensions: (u32, u32) },
    /// A size-class position past the last class.
    TextureArraySizeIndexOutOfBounds { index: usize },
    /// No texture array of the size class exists.
    TextureArrayNotFound { texture_array_size: TextureArraySize },
    /// A texture array of the size class exists already.
    TextureArrayAlredyExists { texture_array_size: TextureArraySize },
}


/// The size class chosen for an image is the smallest one whose layers hold it.
pub proof fn law_chosen_size_is_smallest_fitting(d: int)
    requires
        0 <= d <= 8192,
    ensures
        TextureArraySize::for_dimension(d).smallest_fitting(d),
{
}

/// The position of a size class leads back to it, and every position below 10
/// is the position of its size class.
pub proof fn law_index_round_trip(s: TextureArraySize, i: nat)
    ensures
        TextureArraySize::at_index(s.index_spec()) == s,
        i < num_size_classes() ==> TextureArraySize::at_index(i).index_spec() == i,
{
}

/// Larger size classes have larger layers: each class doubles the side of the
/// one before it, starting from 16 pixels.
pub proof fn law_sides_double(s: TextureArraySize)
    ensures
        s.index_spec() == 0 ==> s.side_spec() == 16,
        s.index_spec() > 0 ==> s.side_spec() == 2 * TextureArraySize::at_index(
            (s.index_spec() - 1) as nat,
        ).side_spec(),
{
}

/// A square image of exactly the side of a size class is placed in that class.
pub proof fn law_exact_side_fits_own_class(s: TextureArraySize)
    ensures
        TextureArraySize::for_dimension(s.side_spec() as int) == s,
{
}

} // verus!
