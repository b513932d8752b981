use vstd::prelude::*;

use crate::backend::{debug_effect, debug_segment, draw_effect, Backend};
use crate::command::GlCommand;
use crate::config::{DrawConfig, Rgba};
use crate::texture::Texture;

verus! {

/// Something that can be drawn to: the window, a texture, or a decorator
/// around one of them.
pub trait DrawTarget {
    /// Whether `self` can be drawn to through `backend`.
    spec fn valid_target(&self, backend: &Backend) -> bool;

    /// Whether `self` can be drawn to through `backend` now.
    fn can_receive(&self, backend: &Backend) -> (r: bool)
        ensures
            r == self.valid_target(backend),
    ;

    /// Draws `texture` onto `self`, its lower left corner at `position`.
    fn receive_draw(
        &mut self,
        backend: &mut Backend,
        texture: &Texture,
        position: (i32, i32),
        config: &DrawConfig,
    )
        requires
            old(backend).wf(),
            old(self).valid_target(old(backend)),
            texture.valid(old(backend)),
        ensures
            final(backend).wf(),
            final(self).valid_target(final(backend)),
            final(backend).follows(old(backend)),
            final(backend).same_setup(old(backend)),
    ;

    /// Sets each pixel of `self` to `color`.
    fn receive_clear_color(&mut self, backend: &mut Backend, color: Rgba)
        requires
            old(backend).wf(),
            old(self).valid_target(old(backend)),
        ensures
            final(backend).wf(),
            final(self).valid_target(final(backend)),
            final(backend).follows(old(backend)),
            final(backend).same_setup(old(backend)),
    ;

    /// Resets the depth buffer of `self` to `1.0`.
    fn receive_clear_depth(&mut self, backend: &mut Backend)
        requires
            old(backend).wf(),
            old(self).valid_target(old(backend)),
        ensures
            final(backend).wf(),
            final(self).valid_target(final(backend)),
            final(backend).follows(old(backend)),
            final(backend).same_setup(old(backend)),
    ;

    /// Draws a line from `from` to `to`.
    fn receive_line(&mut self, backend: &mut Backend, from: (i32, i32), to: (i32, i32), color: Rgba)
        requires
            old(backend).wf(),
            old(self).valid_target(old(backend)),
        ensures
            final(backend).wf(),
            final(self).valid_target(final(backend)),
            final(backend).follows(old(backend)),
            final(backend).same_setup(old(backend)),
    ;

    /// Draws the outline of the axis-aligned rectangle with corners
    /// `lower_left` and `upper_right`; corners given the other way round are
    /// swapped.
    fn receive_rectangle(
        &mut self,
        backend: &mut Backend,
        lower_left: (i32, i32),
        upper_right: (i32, i32),
        color: Rgba,
    )
        requires
            old(backend).wf(),
            old(self).valid_target(old(backend)),
        ensures
            final(backend).wf(),
            final(self).valid_target(final(backend)),
            final(backend).follows(old(backend)),
            final(backend).same_setup(old(backend)),
    ;
}

/// The window as a draw target.
#[derive(Debug)]
pub struct WindowSurface {
    _private: (),
}

impl WindowSurface {
    /// A handle to the window; the embedding program hands out one at a time.
    pub fn new() -> (r: WindowSurface) {
        WindowSurface { _private: () }
    }
}

impl DrawTarget for WindowSurface {
    open spec fn valid_target(&self, backend: &Backend) -> bool {
        true
    }

    fn can_receive(&self, backend: &Backend) -> (r: bool) {
        true
    }

    fn receive_draw(
        &mut self,
        backend: &mut Backend,
        texture: &Texture,
        position: (i32, i32),
        config: &DrawConfig,
    )
        ensures
            final(backend).written_since(old(backend)) == set![None::<usize>],
            final(backend).same_images(old(backend)),
            (final(backend).state, final(backend).issued_since(old(backend))) == draw_effect(
                old(backend).state,
                old(backend).program,
                None,
                (
                    (old(backend).window_dimensions.0 * old(backend).dpi) as u32,
                    (old(backend).window_dimensions.1 * old(backend).dpi) as u32,
                ),
                old(backend).window_dimensions,
                texture.backing(),
                texture.raw(old(backend)).dimensions,
                texture.position(),
                texture.size(),
                position,
                *config,
            ),
    {
        let dimensions = backend.window_dimensions();
        let dpi = backend.dpi_factor();
        texture.draw_onto(backend, None, dimensions, dpi, position, config);
    }

    fn receive_clear_color(&mut self, backend: &mut Backend, color: Rgba)
        ensures
            final(backend).written_since(old(backend)) == set![None::<usize>],
            final(backend).same_images(old(backend)),
            final(backend).issued_since(old(backend)) == old(backend).state.changes(
                GlCommand::BindFramebuffer(None),
            ).push(GlCommand::ClearColor(color)),
    {
        backend.clear_color(None, color);
        assert(forall|i: int| #[trigger] backend.slot(i) == old(backend).slot(i));
    }

    fn receive_clear_depth(&mut self, backend: &mut Backend)
        ensures
            final(backend).written_since(old(backend)) == set![None::<usize>],
            final(backend).same_images(old(backend)),
            final(backend).issued_since(old(backend)) == old(backend).state.changes(
                GlCommand::BindFramebuffer(None),
            ).push(GlCommand::ClearDepth),
    {
        backend.clear_depth(None);
        assert(forall|i: int| #[trigger] backend.slot(i) == old(backend).slot(i));
    }

    fn receive_line(&mut self, backend: &mut Backend, from: (i32, i32), to: (i32, i32), color: Rgba)
        ensures
            final(backend).written_since(old(backend)) == set![None::<usize>],
            final(backend).same_images(old(backend)),
            (final(backend).state, final(backend).issued_since(old(backend))) == debug_effect(
                old(backend).state,
                old(backend).debug_program,
                false,
                None,
                (
                    (old(backend).window_dimensions.0 * old(backend).dpi) as u32,
                    (old(backend).window_dimensions.1 * old(backend).dpi) as u32,
                ),
                debug_segment(false, old(backend).window_dimensions, from, to),
                color,
            ),
    {
        let dimensions = backend.window_dimensions();
        let dpi = backend.dpi_factor();
        backend.debug_draw(false, None, dimensions, dpi, from, to, color);
    }

    fn receive_rectangle(&mut self, backend: &mut Backend, lower_left: (i32, i32), upper_right: (i32, i32), color: Rgba)
        ensures
            final(backend).written_since(old(backend)) == set![None::<usize>],
            final(backend).same_images(old(backend)),
            (final(backend).state, final(backend).issued_since(old(backend))) == debug_effect(
                old(backend).state,
                old(backend).debug_program,
                true,
                None,
                (
                    (old(backend).window_dimensions.0 * old(backend).dpi) as u32,
                    (old(backend).window_dimensions.1 * old(backend).dpi) as u32,
                ),
                debug_segment(true, old(backend).window_dimensions, lower_left, upper_right),
                color,
            ),
    {
        let dimensions = backend.window_dimensions();
        let dpi = backend.dpi_factor();
        backend.debug_draw(true, None, dimensions, dpi, lower_left, upper_right, color);
    }

}

/// A draw target that scales every draw call: like drawing to a temporary
/// buffer and drawing that buffer with `scale` onto the inner target.
#[derive(Debug)]
pub struct Scaled<T> {
    inner: T,
    scale: (u32, u32),
}

impl<T: DrawTarget> Scaled<T> {
    /// Scales every draw call to `inner` by `scale`.
    pub fn new(inner: T, scale: (u32, u32)) -> (r: Self)
        ensures
            r.inner() == inner,
            r.scale() == scale,
    {
        Self { inner, scale }
    }

    /// The target drawn to.
    pub closed spec fn inner(&self) -> T {
        self.inner
    }

    /// The scale.
    pub closed spec fn scale(&self) -> (u32, u32) {
        self.scale
    }

    /// Where a point lands on the inner target: each coordinate multiplied by
    /// the scale, wrapping on overflow.
    pub fn scale_point(&self, p: (i32, i32)) -> (r: (i32, i32))
        ensures
            r == (vstd::wrapping::i32_specs::wrapping_mul(p.0, self.scale().0 as i32),
                vstd::wrapping::i32_specs::wrapping_mul(p.1, self.scale().1 as i32)),
    {
        (p.0.wrapping_mul(self.scale.0 as i32), p.1.wrapping_mul(self.scale.1 as i32))
    }

    /// `config` with its scale multiplied by this scale, wrapping on overflow.
    pub fn scale_config(&self, config: &DrawConfig) -> (r: DrawConfig)
        ensures
            r == (DrawConfig {
                scale: (
                    vstd::wrapping::u32_specs::wrapping_mul(config.scale.0, self.scale().0),
                    vstd::wrapping::u32_specs::wrapping_mul(config.scale.1, self.scale().1),
                ),
                ..*config
            }),
    {
        DrawConfig {
            scale: (config.scale.0.wrapping_mul(self.scale.0), config.scale.1.wrapping_mul(self.scale.1)),
            ..*config
        }
    }
}

impl<T: DrawTarget> DrawTarget for Scaled<T> {
    closed spec fn valid_target(&self, backend: &Backend) -> bool {
        self.inner.valid_target(backend)
    }

    fn can_receive(&self, backend: &Backend) -> (r: bool) {
        self.inner.can_receive(backend)
    }

    fn receive_draw(
        &mut self,
        backend: &mut Backend,
        texture: &Texture,
        position: (i32, i32),
        config: &DrawConfig,
    ) {
        let position = self.scale_point(position);
        let config = self.scale_config(config);
        self.inner.receive_draw(backend, texture, position, &config);
    }

    fn receive_clear_color(&mut self, backend: &mut Backend, color: Rgba) {
        self.inner.receive_clear_color(backend, color);
    }

    fn receive_clear_depth(&mut self, backend: &mut Backend) {
        self.inner.receive_clear_depth(backend);
    }

    fn receive_line(&mut self, backend: &mut Backend, from: (i32, i32), to: (i32, i32), color: Rgba) {
        let from = self.scale_point(from);
        let to = self.scale_point(to);
        self.inner.receive_line(backend, from, to, color);
    }

    fn receive_rectangle(
        &mut self,
        backend: &mut Backend,
        lower_left: (i32, i32),
        upper_right: (i32, i32),
        color: Rgba,
    ) {
        let lower_left = self.scale_point(lower_left);
        let upper_right = self.scale_point(upper_right);
        self.inner.receive_rectangle(backend, lower_left, upper_right, color);
    }
}

/// A draw target that moves the origin of every draw call to `offset`.
#[derive(Debug)]
pub struct Offset<T> {
    inner: T,
    offset: (i32, i32),
}

impl<T: DrawTarget> Offset<T> {
    /// Moves the origin of every draw call to `inner` to `offset`.
    pub fn new(inner: T, offset: (i32, i32)) -> (r: Self)
        ensures
            r.inner() == inner,
            r.offset() == offset,
    {
        Self { inner, offset }
    }

    /// The target drawn to.
    pub closed spec fn inner(&self) -> T {
        self.inner
    }

    /// The new origin.
    pub closed spec fn offset(&self) -> (i32, i32) {
        self.offset
    }

    /// Where a point lands on the inner target: the offset subtracted,
    /// wrapping on overflow.
    pub fn offset_point(&self, p: (i32, i32)) -> (r: (i32, i32))
        ensures
            r == (vstd::wrapping::i32_specs::wrapping_sub(p.0, self.offset().0),
                vstd::wrapping::i32_specs::wrapping_sub(p.1, self.offset().1)),
    {
        (p.0.wrapping_sub(self.offset.0), p.1.wrapping_sub(self.offset.1))
    }
}

impl<T: DrawTarget> DrawTarget for Offset<T> {
    closed spec fn valid_target(&self, backend: &Backend) -> bool {
        self.inner.valid_target(backend)
    }

    fn can_receive(&self, backend: &Backend) -> (r: bool) {
        self.inner.can_receive(backend)
    }

    fn receive_draw(
        &mut self,
        backend: &mut Backend,
        texture: &Texture,
        position: (i32, i32),
        config: &DrawConfig,
    ) {
        let position = self.offset_point(position);
        self.inner.receive_draw(backend, texture, position, config);
    }

    fn receive_clear_color(&mut self, backend: &mut Backend, color: Rgba) {
        self.inner.receive_clear_color(backend, color);
    }

    fn receive_clear_depth(&mut self, backend: &mut Backend) {
        self.inner.receive_clear_depth(backend);
    }

    fn receive_line(&mut self, backend: &mut Backend, from: (i32, i32), to: (i32, i32), color: Rgba) {
        let from = self.offset_point(from);
        let to = self.offset_point(to);
        self.inner.receive_line(backend, from, to, color);
    }

    fn receive_rectangle(
        &mut self,
        backend: &mut Backend,
        lower_left: (i32, i32),
        upper_right: (i32, i32),
        color: Rgba,
    ) {
        let lower_left = self.offset_point(lower_left);
        let upper_right = self.offset_point(upper_right);
        self.inner.receive_rectangle(backend, lower_left, upper_right, color);
    }
}

} // verus!
