use vstd::prelude::*;

use crate::backend::{
    debug_effect, debug_segment, draw_effect, draw_requests, lemma_draw_effect_holds,
    lemma_follows_chain, lemma_follows_refl,
    lemma_issued_while_bound, Backend, RawTexture,
};
use crate::command::final_binding;
use crate::state::lemma_holds_ignores_bindings;
use crate::command::GlCommand;
use crate::config::{DrawConfig, Rgba};
use crate::target::DrawTarget;
use crate::error::{check_texture_size, valid_texture_size, NewTextureError};
use crate::pixels::{cell, flip_rows, gather_rows};

verus! {

/// A two dimensional texture stored in video memory: a view, given by a
/// position and a size, into an image of the renderer's arena.
///
/// Textures are copy-on-write: sharing one is cheap, and a texture that is
/// drawn to while its image is shared, or while it views only part of it,
/// first moves to a copy of its own.
#[derive(Debug)]
pub struct Texture {
    backing: usize,
    position: (u32, u32),
    size: (u32, u32),
}

impl Texture {
    /// The arena slot of the image this texture views.
    pub closed spec fn backing(&self) -> usize {
        self.backing
    }

    /// Where the view starts in its image.
    pub closed spec fn position(&self) -> (u32, u32) {
        self.position
    }

    /// The size of the view.
    pub closed spec fn size(&self) -> (u32, u32) {
        self.size
    }

    /// The image that this texture views.
    pub open spec fn raw(&self, b: &Backend) -> RawTexture {
        b.slot(self.backing() as int)->Some_0
    }

    /// Whether the texture's image is in the arena and its view lies inside it.
    pub open spec fn valid(&self, b: &Backend) -> bool {
        &&& b.slot(self.backing() as int) is Some
        &&& self.position().0 + self.size().0 <= self.raw(b).dimensions.0
        &&& self.position().1 + self.size().1 <= self.raw(b).dimensions.1
    }

    /// Whether drawing to this texture first moves it to a copy: its view is
    /// partial, or other handles share its image.
    pub open spec fn needs_copy(&self, b: &Backend) -> bool {
        self.position() != (0u32, 0u32) || self.size() != self.raw(b).dimensions || self.raw(
            b,
        ).refs != 1
    }

    /// Whether this texture is the only handle of its image, views all of it,
    /// and can be drawn to.
    pub open spec fn is_exclusive_target(&self, b: &Backend) -> bool {
        &&& self.valid(b)
        &&& self.position() == (0u32, 0u32)
        &&& self.size() == self.raw(b).dimensions
        &&& self.raw(b).refs == 1
        &&& self.raw(b).has_framebuffer
    }

    /// A new texture of `dimensions` with undefined contents.
    pub fn new(backend: &mut Backend, dimensions: (u32, u32)) -> (r: Result<Texture, NewTextureError>)
        requires
            old(backend).wf(),
        ensures
            r is Ok <==> valid_texture_size(dimensions, old(backend).constants.max_texture_size),
            r is Err ==> r->Err_0 == (NewTextureError::InvalidTextureSize {
                width: dimensions.0,
                height: dimensions.1,
            }) && *final(backend) == *old(backend),
            r is Ok ==> ({
                let t = r->Ok_0;
                &&& final(backend).wf()
                &&& t.valid(final(backend))
                &&& t.position() == (0u32, 0u32)
                &&& t.size() == dimensions
                &&& old(backend).slot(t.backing() as int) is None
                &&& t.raw(final(backend)) == (RawTexture {
                    dimensions,
                    has_framebuffer: false,
                    refs: 1,
                    depth_dirty: false,
                })
                &&& forall|i: int|
                    i != t.backing() ==> #[trigger] final(backend).slot(i) == old(backend).slot(i)
                &&& final(backend).follows(old(backend))
                &&& final(backend).written_since(old(backend)) == set![Some(t.backing())]
                &&& final(backend).same_setup(old(backend))
            }),
    {
        match backend.create_texture(dimensions, None) {
            Ok(slot) => Ok(Texture { backing: slot, position: (0, 0), size: dimensions }),
            Err(e) => Err(e),
        }
    }

    /// A new texture holding an image of `dimensions`, given as RGBA bytes
    /// row by row, top row first. The rows are uploaded bottom row first, as the
    /// GPU's images start at the bottom.
    pub fn from_image(backend: &mut Backend, dimensions: (u32, u32), pixels: &Vec<u8>) -> (r: Result<
        Texture,
        NewTextureError,
    >)
        requires
            old(backend).wf(),
            pixels@.len() == 4 * dimensions.0 * dimensions.1,
        ensures
            r is Ok <==> valid_texture_size(dimensions, old(backend).constants.max_texture_size),
            r is Err ==> r->Err_0 == (NewTextureError::InvalidTextureSize {
                width: dimensions.0,
                height: dimensions.1,
            }) && *final(backend) == *old(backend),
            r is Ok ==> ({
                let t = r->Ok_0;
                &&& final(backend).wf()
                &&& t.valid(final(backend))
                &&& t.position() == (0u32, 0u32)
                &&& t.size() == dimensions
                &&& old(backend).slot(t.backing() as int) is None
                &&& t.raw(final(backend)) == (RawTexture {
                    dimensions,
                    has_framebuffer: false,
                    refs: 1,
                    depth_dirty: false,
                })
                &&& forall|i: int|
                    i != t.backing() ==> #[trigger] final(backend).slot(i) == old(backend).slot(i)
                &&& final(backend).follows(old(backend))
                &&& final(backend).written_since(old(backend)) == set![Some(t.backing())]
                &&& final(backend).same_setup(old(backend))
                &&& exists|uploaded: Vec<u8>|
                    {
                        &&& #[trigger] final(backend).issued_since(old(backend)).last() == (
                        GlCommand::DefineTexture {
                            slot: t.backing(),
                            dimensions,
                            pixels: Some(uploaded),
                        })
                        &&& uploaded@.len() == pixels@.len()
                        &&& forall|y: int, x: int|
                            0 <= y < dimensions.1 && 0 <= x < 4 * dimensions.0 ==> #[trigger] cell(
                                uploaded@,
                                4 * dimensions.0,
                                y,
                                x,
                            ) == cell(pixels@, 4 * dimensions.0, dimensions.1 - 1 - y, x)
                    }
            }),
    {
        match check_texture_size(dimensions, backend.constants.max_texture_size) {
            Err(e) => {
                return Err(e);
            },
            Ok(()) => {},
        }
        let n = pixels.len();
        assert(4 * dimensions.0 <= n) by (nonlinear_arith)
            requires
                n == 4 * dimensions.0 * dimensions.1,
                dimensions.1 >= 1,
        ;
        let row_len = 4 * (dimensions.0 as usize);
        assert(row_len * dimensions.1 == 4 * dimensions.0 * dimensions.1) by (nonlinear_arith)
            requires
                row_len == 4 * dimensions.0,
        ;
        let uploaded = flip_rows(pixels, row_len, dimensions.1 as usize);
        let slot = match backend.create_texture(dimensions, Some(uploaded)) {
            Ok(slot) => slot,
            Err(e) => {
                return Err(e);
            },
        };
        let t = Texture { backing: slot, position: (0, 0), size: dimensions };
        proof {
            let issued = backend.issued_since(old(backend));
            assert(issued.last() == GlCommand::DefineTexture {
                slot,
                dimensions,
                pixels: Some(uploaded),
            });
        }
        Ok(t)
    }

    /// The part of `self` at `position` of `size`, as a texture sharing the same image.
    pub fn get_section(&self, backend: &mut Backend, position: (u32, u32), size: (u32, u32)) -> (r:
        Texture)
        requires
            old(backend).wf(),
            self.valid(old(backend)),
            position.0 + size.0 <= self.size().0,
            position.1 + size.1 <= self.size().1,
        ensures
            final(backend).wf(),
            r.valid(final(backend)),
            self.valid(final(backend)),
            r.backing() == self.backing(),
            r.position() == ((self.position().0 + position.0) as u32, (self.position().1
                + position.1) as u32),
            r.size() == size,
            final(backend).slot(self.backing() as int) == Some(
                RawTexture {
                    refs: if self.raw(old(backend)).refs == usize::MAX {
                        usize::MAX
                    } else {
                        (self.raw(old(backend)).refs + 1) as usize
                    },
                    ..self.raw(old(backend))
                },
            ),
            forall|i: int| i != self.backing() ==> #[trigger] final(backend).slot(i) == old(backend).slot(i),
            final(backend).state == old(backend).state,
            final(backend).commands == old(backend).commands,
            final(backend).same_setup(old(backend)),
    {
        backend.share(self.backing);
        Texture {
            backing: self.backing,
            position: (self.position.0 + position.0, self.position.1 + position.1),
            size,
        }
    }

    /// Another handle of the same view, sharing the image.
    pub fn share(&self, backend: &mut Backend) -> (r: Texture)
        requires
            old(backend).wf(),
            self.valid(old(backend)),
        ensures
            final(backend).wf(),
            r.valid(final(backend)),
            self.valid(final(backend)),
            r.backing() == self.backing(),
            r.position() == self.position(),
            r.size() == self.size(),
            final(backend).slot(self.backing() as int) == Some(
                RawTexture {
                    refs: if self.raw(old(backend)).refs == usize::MAX {
                        usize::MAX
                    } else {
                        (self.raw(old(backend)).refs + 1) as usize
                    },
                    ..self.raw(old(backend))
                },
            ),
            forall|i: int| i != self.backing() ==> #[trigger] final(backend).slot(i) == old(backend).slot(i),
            final(backend).state == old(backend).state,
            final(backend).commands == old(backend).commands,
            final(backend).same_setup(old(backend)),
    {
        backend.share(self.backing);
        Texture { backing: self.backing, position: self.position, size: self.size }
    }

    /// Gives up this handle; the image is freed with its last handle.
    pub fn release(self, backend: &mut Backend)
        requires
            old(backend).wf(),
            self.valid(old(backend)),
        ensures
            final(backend).wf(),
            final(backend).follows(old(backend)),
            final(backend).written_since(old(backend)) == Set::<Option<usize>>::empty(),
            final(backend).slot(self.backing() as int) == self.raw(old(backend)).after_release(),
            forall|i: int| i != self.backing() ==> #[trigger] final(backend).slot(i) == old(backend).slot(i),
            final(backend).same_setup(old(backend)),
    {
        backend.release(self.backing);
    }

    /// The arena slot of the image this texture views.
    pub fn slot(&self) -> (r: usize)
        ensures
            r == self.backing(),
    {
        self.backing
    }

    /// Where the view starts in its image.
    pub fn view_position(&self) -> (r: (u32, u32))
        ensures
            r == self.position(),
    {
        self.position
    }

    /// The width and height of this texture.
    pub fn dimensions(&self) -> (r: (u32, u32))
        ensures
            r == self.size(),
    {
        self.size
    }

    /// The width of this texture.
    pub fn width(&self) -> (r: u32)
        ensures
            r == self.size().0,
    {
        self.size.0
    }

    /// The height of this texture.
    pub fn height(&self) -> (r: u32)
        ensures
            r == self.size().1,
    {
        self.size.1
    }
}

impl Texture {
    /// Gives this texture an image that it alone views whole and that can be
    /// drawn to: a copy of its view where its view is partial or its image
    /// shared, else its own image, given a framebuffer where it lacks one.
    ///
    /// Where it moves to a copy, the old image keeps this handle's count,
    /// and its slot is returned, to be released once the old image is no
    /// longer read.
    fn materialize(&mut self, backend: &mut Backend) -> (moved_from: Option<usize>)
        requires
            old(backend).wf(),
            old(self).valid(old(backend)),
            old(self).size().0 > 0,
            old(self).size().1 > 0,
        ensures
            final(backend).wf(),
            final(backend).follows(old(backend)),
            final(backend).same_setup(old(backend)),
            final(self).is_exclusive_target(final(backend)),
            final(self).size() == old(self).size(),
            final(backend).written_since(old(backend)).subset_of(set![Some(final(self).backing())]),
            moved_from == (if old(self).needs_copy(old(backend)) {
                Some(old(self).backing())
            } else {
                None
            }),
            moved_from is Some ==> old(backend).slot(final(self).backing() as int) is None,
            moved_from is None ==> final(self).backing() == old(self).backing(),
            old(self).is_exclusive_target(old(backend)) ==> *final(backend) == *old(backend),
            forall|i: int|
                i != final(self).backing() ==> #[trigger] final(backend).slot(i) == old(backend).slot(i),
    {
        let raw = backend.textures[self.backing].unwrap();
        let partial = self.position.0 != 0 || self.position.1 != 0 || self.size.0
            != raw.dimensions.0 || self.size.1 != raw.dimensions.1;
        if partial || raw.refs != 1 {
            let old_backing = self.backing;
            let copy = backend.copy_view(self.backing, self.position, self.size);
            self.backing = copy;
            self.position = (0, 0);
            Some(old_backing)
        } else {
            if !raw.has_framebuffer {
                backend.add_framebuffer(self.backing);
                assert(backend.written_since(old(backend)) =~= set![Some(self.backing)]);
            } else {
                proof {
                    lemma_follows_refl(backend);
                }
            }
            None
        }
    }

    /// Makes this texture the only handle of an image that it views whole and
    /// that can be drawn to, and returns that image's slot; see
    /// [`Texture::needs_copy`] for when it moves to a copy.
    pub fn prepare_as_draw_target(&mut self, backend: &mut Backend) -> (r: usize)
        requires
            old(backend).wf(),
            old(self).valid(old(backend)),
            old(self).size().0 > 0,
            old(self).size().1 > 0,
        ensures
            r == final(self).backing(),
            final(backend).wf(),
            final(backend).follows(old(backend)),
            final(backend).same_setup(old(backend)),
            final(self).is_exclusive_target(final(backend)),
            final(self).size() == old(self).size(),
            final(backend).written_since(old(backend)).subset_of(set![Some(r)]),
            old(self).needs_copy(old(backend)) ==> old(backend).slot(r as int) is None
                && final(backend).slot(old(self).backing() as int) == old(self).raw(
                old(backend),
            ).after_release(),
            !old(self).needs_copy(old(backend)) ==> r == old(self).backing(),
            old(self).is_exclusive_target(old(backend)) ==> *final(backend) == *old(backend),
            forall|i: int|
                i != r && i != old(self).backing() ==> #[trigger] final(backend).slot(i) == old(
                    backend,
                ).slot(i),
    {
        let moved_from = self.materialize(backend);
        let ghost b1 = *backend;
        if let Some(o) = moved_from {
            backend.release(o);
            proof {
                lemma_follows_chain(old(backend), &b1, backend);
                assert(backend.written_since(old(backend)) =~= b1.written_since(old(backend)));
                assert(backend.slot(self.backing as int) == b1.slot(self.backing as int));
            }
        }
        self.backing
    }

    /// Binds this texture's image for reading it back; returns the image's
    /// dimensions, the size of the data the GPU hands back.
    pub fn prepare_image_data(&self, backend: &mut Backend) -> (r: (u32, u32))
        requires
            old(backend).wf(),
            self.valid(old(backend)),
        ensures
            r == self.raw(old(backend)).dimensions,
            final(backend).wf(),
            self.valid(final(backend)),
            final(backend).follows(old(backend)),
            final(backend).written_since(old(backend)) == Set::<Option<usize>>::empty(),
            final(backend).state.texture == Some(self.backing()),
            final(backend).textures == old(backend).textures,
            final(backend).same_setup(old(backend)),
    {
        backend.prepare_image_data(self.backing)
    }

    /// The pixels of this texture as RGBA bytes, row by row, top row first,
    /// taken from `data`: the whole image of `image_dimensions` as the GPU
    /// hands it back, bottom row first.
    pub fn get_image_data(&self, image_dimensions: (u32, u32), data: &Vec<u8>) -> (r: Vec<u8>)
        requires
            self.position().0 + self.size().0 <= image_dimensions.0,
            self.position().1 + self.size().1 <= image_dimensions.1,
            data@.len() == 4 * image_dimensions.0 * image_dimensions.1,
        ensures
            r@.len() == 4 * self.size().0 * self.size().1,
            forall|y: int, x: int|
                0 <= y < self.size().1 && 0 <= x < 4 * self.size().0 ==> #[trigger] cell(
                    r@,
                    4 * self.size().0,
                    y,
                    x,
                ) == cell(
                    data@,
                    4 * image_dimensions.0,
                    image_dimensions.1 - 1 - self.position().1 - y,
                    4 * self.position().0 + x,
                ),
    {
        let (width, height) = image_dimensions;
        if height == 0 || self.size.1 == 0 {
            assert(4 * self.size.0 * self.size.1 == 0) by (nonlinear_arith)
                requires
                    self.size.1 == 0,
            ;
            return Vec::new();
        }
        let n = data.len();
        assert(4 * width <= n) by (nonlinear_arith)
            requires
                n == 4 * width * height,
                height >= 1,
        ;
        let stride = 4 * (width as usize);
        let top = (height - 1 - self.position.1) as usize;
        assert((top + 1) * stride <= data@.len()) by (nonlinear_arith)
            requires
                top + 1 <= height,
                stride == 4 * width,
                data@.len() == 4 * width * height,
        ;
        assert(stride * (self.size.1 as usize) == 4 * width * self.size.1) by (nonlinear_arith)
            requires
                stride == 4 * width,
        ;
        let r = gather_rows(
            data,
            stride,
            top,
            self.size.1 as usize,
            4 * (self.position.0 as usize),
            4 * (self.size.0 as usize),
        );
        assert(self.size.1 * (4 * self.size.0) == 4 * self.size.0 * self.size.1) by (nonlinear_arith);
        r
    }
}

impl Texture {
    /// Draws this texture onto `target`, whose size is `target_dimensions`
    /// in logical pixels of `dpi` physical pixels each.
    pub fn draw_onto(
        &self,
        backend: &mut Backend,
        target: Option<usize>,
        target_dimensions: (u32, u32),
        dpi: u32,
        position: (i32, i32),
        config: &DrawConfig,
    )
        requires
            old(backend).wf(),
            self.valid(old(backend)),
            old(backend).is_target(target),
            target_dimensions.0 * dpi <= u32::MAX,
            target_dimensions.1 * dpi <= u32::MAX,
        ensures
            final(backend).wf(),
            self.valid(final(backend)),
            final(backend).follows(old(backend)),
            final(backend).same_images(old(backend)),
            final(backend).same_setup(old(backend)),
            final(backend).written_since(old(backend)) == set![target],
            forall|i: int|
                target is None || i != target->Some_0 ==> #[trigger] final(backend).slot(i)
                    == old(backend).slot(i),
            target is Some ==> final(backend).slot(target->Some_0 as int) == Some(
                RawTexture {
                    depth_dirty: true,
                    ..old(backend).slot(target->Some_0 as int)->Some_0
                },
            ),
            (final(backend).state, final(backend).issued_since(old(backend))) == draw_effect(
                old(backend).state,
                old(backend).program,
                target,
                ((target_dimensions.0 * dpi) as u32, (target_dimensions.1 * dpi) as u32),
                target_dimensions,
                self.backing(),
                self.raw(old(backend)).dimensions,
                self.position(),
                self.size(),
                position,
                *config,
            ),
    {
        backend.draw(target, target_dimensions, dpi, self.backing, self.position, self.size, position, config);
        proof {
            assert(backend.slot(self.backing as int) is Some);
        }
    }
}

impl DrawTarget for Texture {
    open spec fn valid_target(&self, backend: &Backend) -> bool {
        self.valid(backend) && self.size().0 > 0 && self.size().1 > 0
    }

    fn can_receive(&self, backend: &Backend) -> (r: bool) {
        if self.backing >= backend.textures.len() {
            return false;
        }
        match backend.textures[self.backing] {
            Some(raw) => self.size.0 > 0 && self.size.1 > 0 && (self.position.0 as u64) + (
            self.size.0 as u64) <= raw.dimensions.0 as u64 && (self.position.1 as u64) + (
            self.size.1 as u64) <= raw.dimensions.1 as u64,
            None => false,
        }
    }

    fn receive_draw(
        &mut self,
        backend: &mut Backend,
        texture: &Texture,
        position: (i32, i32),
        config: &DrawConfig,
    )
        ensures
            final(self).is_exclusive_target(final(backend)),
            final(self).size() == old(self).size(),
            final(backend).written_since(old(backend)) == set![Some(final(self).backing())],
            old(self).needs_copy(old(backend)) ==> old(backend).slot(final(self).backing() as int) is None
                && final(backend).slot(old(self).backing() as int) == old(self).raw(
                old(backend),
            ).after_release(),
            !old(self).needs_copy(old(backend)) ==> final(self).backing() == old(self).backing(),
            forall|i: int|
                i != final(self).backing() && i != old(self).backing()
                    ==> #[trigger] final(backend).slot(i) == old(backend).slot(i),
            final(backend).issued_while_bound(
                old(backend),
                GlCommand::DrawQuad,
                Some(final(self).backing()),
            ),
            forall|i: int|
                0 <= i < draw_requests(
                    final(backend).program,
                    ((old(self).size().0 * 1) as u32, (old(self).size().1 * 1) as u32),
                    old(self).size(),
                    texture.raw(old(backend)).dimensions,
                    texture.position(),
                    texture.size(),
                    position,
                    *config,
                ).len() ==> final(backend).state.holds(
                    #[trigger] draw_requests(
                        final(backend).program,
                        ((old(self).size().0 * 1) as u32, (old(self).size().1 * 1) as u32),
                        old(self).size(),
                        texture.raw(old(backend)).dimensions,
                        texture.position(),
                        texture.size(),
                        position,
                        *config,
                    )[i],
                ),
            old(self).is_exclusive_target(old(backend)) ==> (
                final(backend).state,
                final(backend).issued_since(old(backend)),
            ) == draw_effect(
                old(backend).state,
                old(backend).program,
                Some(old(self).backing()),
                ((old(self).size().0 * 1) as u32, (old(self).size().1 * 1) as u32),
                old(self).size(),
                texture.backing(),
                texture.raw(old(backend)).dimensions,
                texture.position(),
                texture.size(),
                position,
                *config,
            ),
    {
        let ghost b0 = *backend;
        let moved_from = self.materialize(backend);
        let ghost b1 = *backend;
        proof {
            if texture.backing != self.backing {
                assert(b1.slot(texture.backing as int) == b0.slot(texture.backing as int));
            } else {
                assert(b0.slot(texture.backing as int) is Some);
                assert(moved_from is None);
                assert(self.raw(&b1).dimensions == self.size);
            }
            assert(texture.valid(&b1));
        }
        assert(self.size.0 * 1 <= u32::MAX && self.size.1 * 1 <= u32::MAX);
        texture.draw_onto(backend, Some(self.backing), self.size, 1, position, config);
        let ghost b2 = *backend;
        proof {
            assert(b2.slot(self.backing as int) is Some);
        }
        if let Some(o) = moved_from {
            proof {
                assert(b2.slot(o as int) == b0.slot(o as int));
            }
            backend.release(o);
        } else {
            proof {
                lemma_follows_refl(backend);
            }
        }
        proof {
            lemma_draw_effect_holds(
                b1.state,
                b1.program,
                Some(self.backing),
                ((self.size.0 * 1) as u32, (self.size.1 * 1) as u32),
                self.size,
                texture.backing(),
                texture.raw(&b1).dimensions,
                texture.position(),
                texture.size(),
                position,
                *config,
            );
            let reqs = draw_requests(
                b1.program,
                ((self.size.0 * 1) as u32, (self.size.1 * 1) as u32),
                self.size,
                texture.raw(&b1).dimensions,
                texture.position(),
                texture.size(),
                position,
                *config,
            );
            assert(texture.raw(&b1).dimensions == texture.raw(&b0).dimensions);
            assert forall|i: int| 0 <= i < reqs.len() implies backend.state.holds(#[trigger] reqs[i]) by {
                if moved_from is Some {
                    lemma_holds_ignores_bindings(b2.state, backend.state, reqs[i]);
                }
            }
        }
        proof {
            lemma_issued_while_bound(&b0, &b1, &b2, backend, GlCommand::DrawQuad);
            lemma_follows_chain(&b0, &b1, &b2);
            lemma_follows_chain(&b0, &b2, backend);
            assert(backend.written_since(&b0) =~= set![Some(self.backing)]);
            if old(self).is_exclusive_target(&b0) {
                assert(b1 == b0);
                assert(*backend == b2);
                assert(backend.issued_since(&b0) == backend.issued_since(&b1));
            }
        }
    }

    fn receive_clear_color(&mut self, backend: &mut Backend, color: Rgba)
        ensures
            final(self).is_exclusive_target(final(backend)),
            final(self).size() == old(self).size(),
            final(backend).written_since(old(backend)) == set![Some(final(self).backing())],
            old(self).needs_copy(old(backend)) ==> old(backend).slot(final(self).backing() as int) is None
                && final(backend).slot(old(self).backing() as int) == old(self).raw(
                old(backend),
            ).after_release(),
            !old(self).needs_copy(old(backend)) ==> final(self).backing() == old(self).backing(),
            forall|i: int|
                i != final(self).backing() && i != old(self).backing()
                    ==> #[trigger] final(backend).slot(i) == old(backend).slot(i),
            final(backend).state.framebuffer == Some(final(self).backing()),
            final(backend).issued_since(old(backend)).last() == GlCommand::ClearColor(color),
            final_binding(final(backend).issued_since(old(backend)).drop_last(), old(backend).state.framebuffer)
                == Some(final(self).backing()),
            old(self).is_exclusive_target(old(backend)) ==> final(backend).issued_since(old(backend))
                == old(backend).state.changes(GlCommand::BindFramebuffer(Some(old(self).backing()))).push(
                GlCommand::ClearColor(color),
            ),
    {
        let ghost b0 = *backend;
        let moved_from = self.materialize(backend);
        let ghost b1 = *backend;
        if let Some(o) = moved_from {
            proof {
                assert(b1.slot(o as int) == b0.slot(o as int));
            }
            backend.release(o);
        } else {
            proof {
                lemma_follows_refl(backend);
            }
        }
        let ghost b2 = *backend;
        proof {
            lemma_follows_chain(&b0, &b1, &b2);
            assert(b2.slot(self.backing as int) == b1.slot(self.backing as int));
            assert forall|i: int|
                i != self.backing && i != old(self).backing() implies #[trigger] b2.slot(i) == b0.slot(i) by {
                assert(b1.slot(i) == b0.slot(i));
            }
        }
        backend.clear_color(Some(self.backing), color);
        proof {
            lemma_follows_refl(backend);
            lemma_issued_while_bound(&b0, &b2, backend, backend, GlCommand::ClearColor(color));
            lemma_follows_chain(&b0, &b2, backend);
            assert(backend.written_since(&b0) =~= set![Some(self.backing)]);
            assert forall|i: int|
                i != self.backing && i != old(self).backing() implies #[trigger] backend.slot(i) == b0.slot(i) by {
                assert(b2.slot(i) == b0.slot(i));
            }
            if old(self).is_exclusive_target(&b0) {
                assert(b2 == b0);
                assert(backend.issued_since(&b0) == backend.issued_since(&b2));
            }
        }
    }

    fn receive_clear_depth(&mut self, backend: &mut Backend)
        ensures
            final(self).is_exclusive_target(final(backend)),
            final(self).size() == old(self).size(),
            final(backend).written_since(old(backend)) == set![Some(final(self).backing())],
            old(self).needs_copy(old(backend)) ==> old(backend).slot(final(self).backing() as int) is None
                && final(backend).slot(old(self).backing() as int) == old(self).raw(
                old(backend),
            ).after_release(),
            !old(self).needs_copy(old(backend)) ==> final(self).backing() == old(self).backing(),
            forall|i: int|
                i != final(self).backing() && i != old(self).backing()
                    ==> #[trigger] final(backend).slot(i) == old(backend).slot(i),
            final(backend).state.framebuffer == Some(final(self).backing()),
            final(backend).issued_since(old(backend)).last() == GlCommand::ClearDepth,
            final_binding(final(backend).issued_since(old(backend)).drop_last(), old(backend).state.framebuffer)
                == Some(final(self).backing()),
            old(self).is_exclusive_target(old(backend)) ==> final(backend).issued_since(old(backend))
                == old(backend).state.changes(GlCommand::BindFramebuffer(Some(old(self).backing()))).push(
                GlCommand::ClearDepth,
            ),
    {
        let ghost b0 = *backend;
        let moved_from = self.materialize(backend);
        let ghost b1 = *backend;
        if let Some(o) = moved_from {
            proof {
                assert(b1.slot(o as int) == b0.slot(o as int));
            }
            backend.release(o);
        } else {
            proof {
                lemma_follows_refl(backend);
            }
        }
        let ghost b2 = *backend;
        proof {
            lemma_follows_chain(&b0, &b1, &b2);
            assert(b2.slot(self.backing as int) == b1.slot(self.backing as int));
            assert forall|i: int|
                i != self.backing && i != old(self).backing() implies #[trigger] b2.slot(i) == b0.slot(i) by {
                assert(b1.slot(i) == b0.slot(i));
            }
        }
        backend.clear_depth(Some(self.backing));
        proof {
            lemma_follows_refl(backend);
            lemma_issued_while_bound(&b0, &b2, backend, backend, GlCommand::ClearDepth);
            lemma_follows_chain(&b0, &b2, backend);
            assert(backend.written_since(&b0) =~= set![Some(self.backing)]);
            assert forall|i: int|
                i != self.backing && i != old(self).backing() implies #[trigger] backend.slot(i) == b0.slot(i) by {
                assert(b2.slot(i) == b0.slot(i));
            }
            if old(self).is_exclusive_target(&b0) {
                assert(b2 == b0);
                assert(backend.issued_since(&b0) == backend.issued_since(&b2));
            }
        }
    }

    fn receive_line(&mut self, backend: &mut Backend, from: (i32, i32), to: (i32, i32), color: Rgba)
        ensures
            final(self).is_exclusive_target(final(backend)),
            final(self).size() == old(self).size(),
            final(backend).written_since(old(backend)) == set![Some(final(self).backing())],
            old(self).needs_copy(old(backend)) ==> old(backend).slot(final(self).backing() as int) is None
                && final(backend).slot(old(self).backing() as int) == old(self).raw(
                old(backend),
            ).after_release(),
            !old(self).needs_copy(old(backend)) ==> final(self).backing() == old(self).backing(),
            forall|i: int|
                i != final(self).backing() && i != old(self).backing()
                    ==> #[trigger] final(backend).slot(i) == old(backend).slot(i),
            final(backend).state.framebuffer == Some(final(self).backing()),
            final(backend).issued_since(old(backend)).last() == (GlCommand::DrawDebug { vertices: 2 }),
            final_binding(final(backend).issued_since(old(backend)).drop_last(), old(backend).state.framebuffer)
                == Some(final(self).backing()),
            old(self).is_exclusive_target(old(backend)) ==> (
                final(backend).state,
                final(backend).issued_since(old(backend)),
            ) == debug_effect(
                old(backend).state,
                old(backend).debug_program,
                false,
                Some(old(self).backing()),
                ((old(self).size().0 * 1) as u32, (old(self).size().1 * 1) as u32),
                debug_segment(false, old(self).size(), from, to),
                color,
            ),
    {
        let ghost b0 = *backend;
        let moved_from = self.materialize(backend);
        let ghost b1 = *backend;
        if let Some(o) = moved_from {
            proof {
                assert(b1.slot(o as int) == b0.slot(o as int));
            }
            backend.release(o);
        } else {
            proof {
                lemma_follows_refl(backend);
            }
        }
        let ghost b2 = *backend;
        proof {
            lemma_follows_chain(&b0, &b1, &b2);
            assert(b2.slot(self.backing as int) == b1.slot(self.backing as int));
            assert forall|i: int|
                i != self.backing && i != old(self).backing() implies #[trigger] b2.slot(i) == b0.slot(i) by {
                assert(b1.slot(i) == b0.slot(i));
            }
        }
        assert(self.size.0 * 1 <= u32::MAX && self.size.1 * 1 <= u32::MAX);
        backend.debug_draw(false, Some(self.backing), self.size, 1, from, to, color);
        proof {
            lemma_follows_refl(backend);
            lemma_issued_while_bound(&b0, &b2, backend, backend, GlCommand::DrawDebug { vertices: 2 });
            lemma_follows_chain(&b0, &b2, backend);
            assert(backend.written_since(&b0) =~= set![Some(self.backing)]);
            assert forall|i: int|
                i != self.backing && i != old(self).backing() implies #[trigger] backend.slot(i) == b0.slot(i) by {
                assert(b2.slot(i) == b0.slot(i));
            }
            if old(self).is_exclusive_target(&b0) {
                assert(b2 == b0);
                assert(backend.issued_since(&b0) == backend.issued_since(&b2));
            }
        }
    }

    fn receive_rectangle(&mut self, backend: &mut Backend, lower_left: (i32, i32), upper_right: (i32, i32), color: Rgba)
        ensures
            final(self).is_exclusive_target(final(backend)),
            final(self).size() == old(self).size(),
            final(backend).written_since(old(backend)) == set![Some(final(self).backing())],
            old(self).needs_copy(old(backend)) ==> old(backend).slot(final(self).backing() as int) is None
                && final(backend).slot(old(self).backing() as int) == old(self).raw(
                old(backend),
            ).after_release(),
            !old(self).needs_copy(old(backend)) ==> final(self).backing() == old(self).backing(),
            forall|i: int|
                i != final(self).backing() && i != old(self).backing()
                    ==> #[trigger] final(backend).slot(i) == old(backend).slot(i),
            final(backend).state.framebuffer == Some(final(self).backing()),
            final(backend).issued_since(old(backend)).last() == (GlCommand::DrawDebug { vertices: 5 }),
            final_binding(final(backend).issued_since(old(backend)).drop_last(), old(backend).state.framebuffer)
                == Some(final(self).backing()),
            old(self).is_exclusive_target(old(backend)) ==> (
                final(backend).state,
                final(backend).issued_since(old(backend)),
            ) == debug_effect(
                old(backend).state,
                old(backend).debug_program,
                true,
                Some(old(self).backing()),
                ((old(self).size().0 * 1) as u32, (old(self).size().1 * 1) as u32),
                debug_segment(true, old(self).size(), lower_left, upper_right),
                color,
            ),
    {
        let ghost b0 = *backend;
        let moved_from = self.materialize(backend);
        let ghost b1 = *backend;
        if let Some(o) = moved_from {
            proof {
                assert(b1.slot(o as int) == b0.slot(o as int));
            }
            backend.release(o);
        } else {
            proof {
                lemma_follows_refl(backend);
            }
        }
        let ghost b2 = *backend;
        proof {
            lemma_follows_chain(&b0, &b1, &b2);
            assert(b2.slot(self.backing as int) == b1.slot(self.backing as int));
            assert forall|i: int|
                i != self.backing && i != old(self).backing() implies #[trigger] b2.slot(i) == b0.slot(i) by {
                assert(b1.slot(i) == b0.slot(i));
            }
        }
        assert(self.size.0 * 1 <= u32::MAX && self.size.1 * 1 <= u32::MAX);
        backend.debug_draw(true, Some(self.backing), self.size, 1, lower_left, upper_right, color);
        proof {
            lemma_follows_refl(backend);
            lemma_issued_while_bound(&b0, &b2, backend, backend, GlCommand::DrawDebug { vertices: 5 });
            lemma_follows_chain(&b0, &b2, backend);
            assert(backend.written_since(&b0) =~= set![Some(self.backing)]);
            assert forall|i: int|
                i != self.backing && i != old(self).backing() implies #[trigger] backend.slot(i) == b0.slot(i) by {
                assert(b2.slot(i) == b0.slot(i));
            }
            if old(self).is_exclusive_target(&b0) {
                assert(b2 == b0);
                assert(backend.issued_since(&b0) == backend.issued_since(&b2));
            }
        }
    }

}

/// A texture whose image another handle also counts is never drawn to in
/// place: the drawing operations move it to a fresh image first, and write
/// only to that image.
pub proof fn lemma_shared_texture_is_copied(b: &Backend, t: &Texture)
    requires
        t.valid(b),
        t.raw(b).refs >= 2,
    ensures
        t.needs_copy(b),
{
}

} // verus!
