use vstd::prelude::*;
use crate::kernel::materials::textures::{
    TextureArray, TextureArraySize, TextureArrayView, TextureError, num_size_classes,
};

verus! {

/// Resource bound at one slot of the material bind group.
#[derive(Clone, Copy, Debug, PartialEq, Eq, Structural)]
pub enum BindingSource {
    /// The texture sampler (slot 0).
    Sampler,
    /// The texture array of a size class.
    TextureArray(TextureArraySize),
    /// The 1x1 placeholder texture, for a size class without an array.
    DummyTexture,
}

/// The texture arrays of the material system, one slot per size class.
pub struct Resources {
    texture_arrays: Vec<Option<TextureArray>>,
}

impl View for Resources {
    type V = Map<TextureArraySize, TextureArrayView>;

    closed spec fn view(&self) -> Map<TextureArraySize, TextureArrayView> {
        Map::new(
            |s: TextureArraySize| self.texture_arrays@[s.index_spec() as int] is Some,
            |s: TextureArraySize| self.texture_arrays@[s.index_spec() as int]->Some_0@,
        )
    }
}

/// The resource bound at slot `binding` of the bind group when the texture
/// arrays are `arrays`.
pub open spec fn binding_source(arrays: Map<TextureArraySize, TextureArrayView>, binding: int) -> BindingSource {
    if binding == 0 {
        BindingSource::Sampler
    } else if arrays.contains_key(TextureArraySize::at_index((binding - 1) as nat)) {
        BindingSource::TextureArray(TextureArraySize::at_index((binding - 1) as nat))
    } else {
        BindingSource::DummyTexture
    }
}

impl Resources {
    /// The slot table has one entry per size class.
    pub closed spec fn wf(&self) -> bool {
        self.texture_arrays@.len() == num_size_classes()
    }

    /// No texture array yet.
    pub fn new() -> (r: Resources)
        ensures
            r.wf(),
            r@ == Map::<TextureArraySize, TextureArrayView>::empty(),
    {
        let mut texture_arrays: Vec<Option<TextureArray>> = Vec::new();
        let mut i: usize = 0;
        while i < 10
            invariant
                i <= 10,
                texture_arrays@.len() == i,
                forall|j: int| 0 <= j < i ==> texture_arrays@[j] is None,
            decreases 10 - i,
        {
            texture_arrays.push(None);
            i = i + 1;
        }
        let r = Resources { texture_arrays };
        assert(r@ =~= Map::<TextureArraySize, TextureArrayView>::empty());
        r
    }

    /// Adds the empty texture array of a size class, unless it exists already.
    pub fn add_texture_array(&mut self, texture_array_size: &TextureArraySize) -> (r: Result<
        (),
        TextureError,
    >)
        requires
            old(self).wf(),
        ensures
            final(self).wf(),
            old(self)@.contains_key(*texture_array_size) ==> {
                &&& r == Err::<(), TextureError>(
                    TextureError::TextureArrayAlredyExists { texture_array_size: *texture_array_size },
                )
                &&& final(self)@ == old(self)@
            },
            !old(self)@.contains_key(*texture_array_size) ==> {
                &&& r == Ok::<(), TextureError>(())
                &&& final(self)@ == old(self)@.insert(
                    *texture_array_size,
                    TextureArrayView {
                        max_layers_count: 8,
                        dimensions: (
                            texture_array_size.side_spec() as u32,
                            texture_array_size.side_spec() as u32,
                        ),
                    },
                )
            },
    {
        proof {
            TextureArraySize::lemma_index_injective();
        }
        let idx = texture_array_size.to_index();
        if self.texture_arrays[idx].is_some() {
            return Err(TextureError::TextureArrayAlredyExists { texture_array_size: *texture_array_size });
        }
        let ghost old_view = self@;
        self.texture_arrays.set(idx, Some(TextureArray::new(texture_array_size)));
        assert(self@ =~= old_view.insert(
            *texture_array_size,
            TextureArrayView {
                max_layers_count: 8,
                dimensions: (texture_array_size.side_spec() as u32, texture_array_size.side_spec() as u32),
            },
        ));
        Ok(())
    }

    /// Doubles the layer capacity of the texture array of a size class.
    pub fn scale_texture_array(&mut self, texture_array_size: &TextureArraySize) -> (r: Result<
        (),
        TextureError,
    >)
        requires
            old(self).wf(),
            old(self)@.contains_key(*texture_array_size) ==> 2 * old(
                self,
            )@[*texture_array_size].max_layers_count <= u32::MAX,
        ensures
            final(self).wf(),
            !old(self)@.contains_key(*texture_array_size) ==> {
                &&& r == Err::<(), TextureError>(
                    TextureError::TextureArrayNotFound { texture_array_size: *texture_array_size },
                )
                &&& final(self)@ == old(self)@
            },
            old(self)@.contains_key(*texture_array_size) ==> {
                let t = old(self)@[*texture_array_size];
                &&& r == Ok::<(), TextureError>(())
                &&& final(self)@ == old(self)@.insert(
                    *texture_array_size,
                    TextureArrayView { max_layers_count: 2 * t.max_layers_count, ..t },
                )
            },
    {
        proof {
            TextureArraySize::lemma_index_injective();
        }
        let idx = texture_array_size.to_index();
        let ghost old_view = self@;
        match self.texture_arrays[idx].take() {
            Some(mut texture_array) => {
                texture_array.scale();
                self.texture_arrays.set(idx, Some(texture_array));
                let ghost t = old_view[*texture_array_size];
                assert(self@ =~= old_view.insert(
                    *texture_array_size,
                    TextureArrayView { max_layers_count: 2 * t.max_layers_count, ..t },
                ));
                Ok(())
            },
            None => {
                assert(self.texture_arrays@ =~= old(self).texture_arrays@);
                Err(TextureError::TextureArrayNotFound { texture_array_size: *texture_array_size })
            },
        }
    }

    /// Removes the texture array of a size class.
    pub fn delete_texture_array(&mut self, texture_array_size: &TextureArraySize) -> (r: Result<
        (),
        TextureError,
    >)
        requires
            old(self).wf(),
        ensures
            final(self).wf(),
            !old(self)@.contains_key(*texture_array_size) ==> {
                &&& r == Err::<(), TextureError>(
                    TextureError::TextureArrayNotFound { texture_array_size: *texture_array_size },
                )
                &&& final(self)@ == old(self)@
            },
            old(self)@.contains_key(*texture_array_size) ==> {
                &&& r == Ok::<(), TextureError>(())
                &&& final(self)@ == old(self)@.remove(*texture_array_size)
            },
    {
        proof {
            TextureArraySize::lemma_index_injective();
        }
        let idx = texture_array_size.to_index();
        if self.texture_arrays[idx].is_none() {
            return Err(TextureError::TextureArrayNotFound { texture_array_size: *texture_array_size });
        }
        let ghost old_view = self@;
        self.texture_arrays.set(idx, None);
        assert(self@ =~= old_view.remove(*texture_array_size));
        Ok(())
    }

    /// The texture array of a size class.
    pub fn get_texture_array(&self, texture_array_size: &TextureArraySize) -> (r: Result<
        &TextureArray,
        TextureError,
    >)
        requires
            self.wf(),
        ensures
            !self@.contains_key(*texture_array_size) ==> r == Err::<&TextureArray, TextureError>(
                TextureError::TextureArrayNotFound { texture_array_size: *texture_array_size },
            ),
            self@.contains_key(*texture_array_size) ==> (r matches Ok(t) && t@ == self@[*texture_array_size]),
    {
        let idx = texture_array_size.to_index();
        match &self.texture_arrays[idx] {
            Some(texture_array) => Ok(texture_array),
            None => Err(TextureError::TextureArrayNotFound { texture_array_size: *texture_array_size }),
        }
    }

    /// What each slot of the material bind group binds: the sampler at slot 0,
    /// then for each size class, smallest first, its texture array or the
    /// placeholder texture.
    pub fn bind_group_entries(&self) -> (r: Vec<BindingSource>)
        requires
            self.wf(),
        ensures
            r@.len() == num_size_classes() + 1,
            forall|b: int| 0 <= b < r@.len() ==> #[trigger] r@[b] == binding_source(self@, b),
    {
        proof {
            TextureArraySize::lemma_index_injective();
        }
        let sizes = TextureArraySize::all();
        let mut entries: Vec<BindingSource> = Vec::new();
        entries.push(BindingSource::Sampler);
        let mut i: usize = 0;
        while i < sizes.len()
            invariant
                self.wf(),
                sizes@.len() == num_size_classes(),
                forall|j: int| 0 <= j < sizes@.len() ==> (#[trigger] sizes@[j]).index_spec() == j,
                i <= sizes@.len(),
                entries@.len() == i + 1,
                forall|b: int| 0 <= b < entries@.len() ==> #[trigger] entries@[b] == binding_source(self@, b),
            decreases sizes@.len() - i,
        {
            let size = sizes[i];
            proof {
                TextureArraySize::lemma_index_injective();
                assert(TextureArraySize::at_index(i as nat) == size);
            }
            let source = match &self.texture_arrays[size.to_index()] {
                Some(_) => BindingSource::TextureArray(size),
                None => BindingSource::DummyTexture,
            };
            entries.push(source);
            i = i + 1;
        }
        entries
    }
}

} // verus!
