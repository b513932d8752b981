use vstd::prelude::*;

use crate::command::{final_binding, lemma_concat, lemma_push, writes, GlCommand};
use crate::config::{default_config, DebugSegment, DrawConfig, Rgba};
use crate::error::{check_texture_size, valid_texture_size, NewTextureError};
use crate::state::{
    all_state_changes, is_state_change, item, lemma_run_holds_all, lemma_with_keeps, lemma_run_binding, keeps_bindings, lemma_run_keeps_bindings, run, OpenGlState,
};

verus! {

/// One GPU image in the texture arena.
#[derive(Debug, Clone, Copy)]
pub struct RawTexture {
    /// Width and height in texels.
    pub dimensions: (u32, u32),
    /// Whether a framebuffer with a depth buffer renders into this image.
    pub has_framebuffer: bool,
    /// How many texture handles share this image. A count that reaches
    /// `usize::MAX` stays there, and the image is then never freed.
    pub refs: usize,
    /// Whether the image was drawn to since the last frame boundary.
    pub depth_dirty: bool,
}

impl RawTexture {
    /// The slot of an image once one of its handles is released.
    pub open spec fn after_release(self) -> Option<RawTexture> {
        if self.refs == 1 {
            None
        } else if self.refs == usize::MAX {
            Some(self)
        } else {
            Some(RawTexture { refs: (self.refs - 1) as usize, ..self })
        }
    }

    /// The same image, whatever its depth buffer went through.
    pub open spec fn same_image(self, other: RawTexture) -> bool {
        &&& self.dimensions == other.dimensions
        &&& self.has_framebuffer == other.has_framebuffer
        &&& self.refs == other.refs
    }
}

/// Limits of the GPU, read once at startup.
#[derive(Debug, Clone, Copy)]
pub struct GlConstants {
    /// The largest width and height of a texture that can also be drawn to.
    pub max_texture_size: (u32, u32),
}

impl GlConstants {
    /// Loads the limits from the sizes the GPU reports: its largest texture,
    /// its largest renderbuffer and, where it reports them, its largest
    /// framebuffer width and height. A texture must fit all of them.
    pub fn load(texture_size: u32, renderbuffer_size: u32, framebuffer_size: Option<
        (u32, u32),
    >) -> (r: GlConstants)
        ensures
            ({
                let size = if texture_size <= renderbuffer_size {
                    texture_size
                } else {
                    renderbuffer_size
                };
                match framebuffer_size {
                    Some(f) => r.max_texture_size == (
                        if size <= f.0 {
                            size
                        } else {
                            f.0
                        },
                        if size <= f.1 {
                            size
                        } else {
                            f.1
                        },
                    ),
                    None => r.max_texture_size == (size, size),
                }
            }),
    {
        let size = if texture_size <= renderbuffer_size {
            texture_size
        } else {
            renderbuffer_size
        };
        match framebuffer_size {
            Some(f) => GlConstants {
                max_texture_size: (
                    if size <= f.0 {
                        size
                    } else {
                        f.0
                    },
                    if size <= f.1 {
                        size
                    } else {
                        f.1
                    },
                ),
            },
            None => GlConstants { max_texture_size: (size, size) },
        }
    }
}

/// The names of the main program and of its vertex array.
#[derive(Debug, Clone, Copy)]
pub struct Program {
    /// The program.
    pub id: u32,
    /// The vertex array of the unit quad.
    pub vao: u32,
}

/// The names of the debug program and of its two vertex arrays.
#[derive(Debug, Clone, Copy)]
pub struct DebugProgram {
    /// The program.
    pub id: u32,
    /// The vertex array for lines, then the one for rectangles.
    pub vao: [u32; 2],
}

/// The renderer: the mirror of the GPU's state, the texture arena and the
/// commands not yet handed out.
///
/// Its methods keep [`Backend::wf`]; code that changes the fields directly
/// has to keep it too.
#[derive(Debug)]
pub struct Backend {
    /// The mirror of the GPU's state.
    pub state: OpenGlState,
    /// The limits of the GPU.
    pub constants: GlConstants,
    /// The main program.
    pub program: Program,
    /// The debug program.
    pub debug_program: DebugProgram,
    /// The size of the window in logical pixels.
    pub window_dimensions: (u32, u32),
    /// Physical pixels per logical pixel.
    pub dpi: u32,
    /// The texture arena: slot `i` holds an image or is free.
    pub textures: Vec<Option<RawTexture>>,
    /// The commands not yet handed out.
    pub commands: Vec<GlCommand>,
}

impl Backend {
    /// The image in slot `i`, if there is one.
    pub open spec fn slot(&self, i: int) -> Option<RawTexture> {
        if 0 <= i < self.textures@.len() {
            self.textures@[i]
        } else {
            None
        }
    }

    /// Whether `framebuffer` can be drawn to: the window, or an image with a framebuffer.
    pub open spec fn is_target(&self, framebuffer: Option<usize>) -> bool {
        match framebuffer {
            None => true,
            Some(i) => self.slot(i as int) is Some && self.slot(i as int)->Some_0.has_framebuffer,
        }
    }

    /// Whether `raw` may stand in the arena: it has a handle and a valid size.
    pub open spec fn valid_image(&self, raw: RawTexture) -> bool {
        raw.refs >= 1 && valid_texture_size(raw.dimensions, self.constants.max_texture_size)
    }

    /// Every image in the arena has a handle and a valid size.
    pub open spec fn slots_valid(&self) -> bool {
        forall|i: int| #![trigger self.slot(i)] self.slot(i) is Some ==> self.valid_image(self.slot(i)->Some_0)
    }

    /// The invariant of the renderer.
    pub open spec fn wf(&self) -> bool {
        &&& self.dpi >= 1
        &&& self.window_dimensions.0 * self.dpi <= u32::MAX
        &&& self.window_dimensions.1 * self.dpi <= u32::MAX
        &&& self.slots_valid()
        &&& self.is_target(self.state.framebuffer)
        &&& (self.state.texture is Some ==> self.slot(self.state.texture->Some_0 as int) is Some)
    }

    /// The commands issued since `before`.
    pub open spec fn issued_since(&self, before: &Backend) -> Seq<GlCommand> {
        self.commands@.skip(before.commands@.len() as int)
    }

    /// The commands of `before` are still pending, with new ones after them,
    /// and running the new ones leaves the mirrored framebuffer bound.
    pub open spec fn follows(&self, before: &Backend) -> bool {
        &&& before.commands@.len() <= self.commands@.len()
        &&& self.commands@.take(before.commands@.len() as int) == before.commands@
        &&& final_binding(self.issued_since(before), before.state.framebuffer)
            == self.state.framebuffer
    }

    /// Whether `c` is among the commands issued since `before`, issued while
    /// `framebuffer` was bound.
    pub open spec fn issued_while_bound(
        &self,
        before: &Backend,
        c: GlCommand,
        framebuffer: Option<usize>,
    ) -> bool {
        exists|k: int|
            0 <= k < self.issued_since(before).len() && #[trigger] self.issued_since(before)[k] == c
                && final_binding(self.issued_since(before).take(k), before.state.framebuffer)
                == framebuffer
    }

    /// The images that the commands issued since `before` write to.
    pub open spec fn written_since(&self, before: &Backend) -> Set<Option<usize>> {
        writes(self.issued_since(before), before.state.framebuffer)
    }

    /// The arena is unchanged, but for the depth buffers of images.
    pub open spec fn same_images(&self, before: &Backend) -> bool {
        forall|i: int|
            #![trigger self.slot(i)]
            (self.slot(i) is Some) == (before.slot(i) is Some) && (self.slot(i) is Some
                ==> self.slot(i)->Some_0.same_image(before.slot(i)->Some_0))
    }

    /// The parts that no drawing changes.
    pub open spec fn same_setup(&self, before: &Backend) -> bool {
        &&& self.constants == before.constants
        &&& self.program == before.program
        &&& self.debug_program == before.debug_program
        &&& self.window_dimensions == before.window_dimensions
        &&& self.dpi == before.dpi
    }

    /// A renderer over freshly compiled programs, for a window of
    /// `physical_size` pixels at `dpi` pixels per logical pixel; issues the
    /// commands that set the GPU's state to what it mirrors.
    pub fn initialize(
        program: Program,
        debug_program: DebugProgram,
        physical_size: (u32, u32),
        dpi: u32,
        constants: GlConstants,
    ) -> (r: Backend)
        requires
            dpi >= 1,
        ensures
            r.wf(),
            r.window_dimensions == ((physical_size.0 / dpi) as u32, (physical_size.1 / dpi) as u32),
            r.dpi == dpi,
            r.constants == constants,
            r.program == program,
            r.debug_program == debug_program,
            r.state == OpenGlState::initial(program.id, program.vao, r.window_dimensions),
            r.commands@ == OpenGlState::initial_commands(program.id, program.vao, r.window_dimensions),
            forall|i: int| r.slot(i) is None,
    {
        let window_dimensions = (physical_size.0 / dpi, physical_size.1 / dpi);
        assert(window_dimensions.0 * dpi <= physical_size.0) by (nonlinear_arith)
            requires
                window_dimensions.0 == physical_size.0 / dpi,
                dpi >= 1,
        ;
        assert(window_dimensions.1 * dpi <= physical_size.1) by (nonlinear_arith)
            requires
                window_dimensions.1 == physical_size.1 / dpi,
                dpi >= 1,
        ;
        let mut commands: Vec<GlCommand> = Vec::new();
        let state = OpenGlState::new(program.id, program.vao, window_dimensions, &mut commands);
        assert(commands@ =~= OpenGlState::initial_commands(program.id, program.vao, window_dimensions));
        Backend {
            state,
            constants,
            program,
            debug_program,
            window_dimensions,
            dpi,
            textures: Vec::new(),
            commands,
        }
    }

    /// Hands out the pending commands, to be executed in order.
    pub fn take_commands(&mut self) -> (r: Vec<GlCommand>)
        ensures
            r@ == old(self).commands@,
            final(self).commands@ == Seq::<GlCommand>::empty(),
            final(self).state == old(self).state,
            final(self).textures == old(self).textures,
            final(self).same_setup(old(self)),
    {
        let mut r: Vec<GlCommand> = Vec::new();
        std::mem::swap(&mut r, &mut self.commands);
        r
    }

    /// The size of the window in logical pixels.
    pub fn window_dimensions(&self) -> (r: (u32, u32))
        ensures
            r == self.window_dimensions,
    {
        self.window_dimensions
    }

    /// The number of physical pixels per logical pixel.
    pub fn dpi_factor(&self) -> (r: u32)
        ensures
            r == self.dpi,
    {
        self.dpi
    }

    /// The limits of the GPU.
    pub fn constants(&self) -> (r: &GlConstants)
        ensures
            *r == self.constants,
    {
        &self.constants
    }

    /// Records a new size of the window, in physical pixels, and its pixel density.
    pub fn resize_window(&mut self, physical_size: (u32, u32), dpi: u32)
        requires
            old(self).wf(),
            dpi >= 1,
        ensures
            final(self).wf(),
            final(self).window_dimensions == ((physical_size.0 / dpi) as u32, (physical_size.1
                / dpi) as u32),
            final(self).dpi == dpi,
            final(self).state == old(self).state,
            final(self).textures == old(self).textures,
            final(self).commands == old(self).commands,
            final(self).constants == old(self).constants,
    {
        let window_dimensions = (physical_size.0 / dpi, physical_size.1 / dpi);
        assert(window_dimensions.0 * dpi <= physical_size.0) by (nonlinear_arith)
            requires
                window_dimensions.0 == physical_size.0 / dpi,
                dpi >= 1,
        ;
        assert(window_dimensions.1 * dpi <= physical_size.1) by (nonlinear_arith)
            requires
                window_dimensions.1 == physical_size.1 / dpi,
                dpi >= 1,
        ;
        self.window_dimensions = window_dimensions;
        self.dpi = dpi;
        assert(forall|i: int| #[trigger] self.slot(i) == old(self).slot(i));
    }
}

/// Changing one slot keeps every image valid, where the changed slot is
/// free or holds a valid image.
pub proof fn lemma_slots_valid_after_change(b: &Backend, before: &Backend, k: int)
    requires
        before.slots_valid(),
        b.constants == before.constants,
        forall|i: int| i != k ==> #[trigger] b.slot(i) == before.slot(i),
        b.slot(k) is Some ==> b.valid_image(b.slot(k)->Some_0),
    ensures
        b.slots_valid(),
{
    assert forall|i: int| #![trigger b.slot(i)] b.slot(i) is Some implies b.valid_image(
        b.slot(i)->Some_0,
    ) by {
        if i != k {
            assert(before.slot(i) is Some);
        }
    }
}

/// Three steps where the middle one ends with `c`, a command that leaves the
/// binding alone: `c` is issued while the binding the middle step leaves is in
/// place, and it is the last command where the third step issues none.
pub proof fn lemma_issued_while_bound(b0: &Backend, b1: &Backend, b2: &Backend, b3: &Backend, c: GlCommand)
    requires
        b1.follows(b0),
        b2.follows(b1),
        b3.follows(b2),
        b2.issued_since(b1).len() > 0,
        b2.issued_since(b1).last() == c,
        !(c is BindFramebuffer),
        !(c is DeleteTexture),
    ensures
        b3.follows(b0),
        b3.issued_while_bound(b0, c, b2.state.framebuffer),
        b3.issued_since(b2).len() == 0 ==> b3.issued_since(b0).last() == c
            && final_binding(b3.issued_since(b0).drop_last(), b0.state.framebuffer)
            == b2.state.framebuffer,
{
    lemma_follows_chain(b0, b1, b2);
    lemma_follows_chain(b0, b2, b3);
    let a = b1.issued_since(b0);
    let d = b2.issued_since(b1);
    let r = b3.issued_since(b2);
    let all = b3.issued_since(b0);
    assert(all == a + d + r);
    let k = a.len() + d.len() - 1;
    assert(d.drop_last().push(c) =~= d);
    lemma_push(d.drop_last(), c, b1.state.framebuffer);
    assert(all.take(k) =~= a + d.drop_last());
    lemma_concat(a, d.drop_last(), b0.state.framebuffer);
    assert(all[k] == c);
    assert(b3.issued_while_bound(b0, c, b2.state.framebuffer));
    if r.len() == 0 {
        assert(all.drop_last() =~= all.take(k));
    }
}

/// A renderer follows itself, issuing and writing nothing.
pub proof fn lemma_follows_refl(b: &Backend)
    ensures
        b.follows(b),
        b.written_since(b) == Set::<Option<usize>>::empty(),
{
    assert(b.commands@.take(b.commands@.len() as int) =~= b.commands@);
    assert(b.issued_since(b) =~= Seq::<GlCommand>::empty());
}

/// Two steps, one after the other: what they issue is concatenated, what they
/// write is united.
pub proof fn lemma_follows_chain(b0: &Backend, b1: &Backend, b2: &Backend)
    requires
        b1.follows(b0),
        b2.follows(b1),
    ensures
        b2.follows(b0),
        b2.issued_since(b0) == b1.issued_since(b0) + b2.issued_since(b1),
        b2.written_since(b0) == b1.written_since(b0) + b2.written_since(b1),
{
    let n0 = b0.commands@.len() as int;
    assert(b2.commands@.take(n0) =~= b1.commands@.take(n0));
    assert(b2.issued_since(b0) =~= b1.issued_since(b0) + b2.issued_since(b1));
    lemma_concat(b1.issued_since(b0), b2.issued_since(b1), b0.state.framebuffer);
}

impl Backend {
    /// Requests the state change `c` through the mirror.
    fn request(&mut self, c: &GlCommand)
        requires
            is_state_change(*c),
        ensures
            final(self).state == old(self).state.with(*c),
            final(self).commands@ == old(self).commands@ + old(self).state.changes(*c),
            final(self).issued_since(old(self)) == old(self).state.changes(*c),
            final(self).follows(old(self)),
            final(self).written_since(old(self)) == Set::<Option<usize>>::empty(),
            final(self).textures == old(self).textures,
            final(self).same_setup(old(self)),
    {
        let ghost before = *self;
        self.state.update(c, &mut self.commands);
        proof {
            let n = before.commands@.len() as int;
            assert(self.commands@.take(n) =~= before.commands@);
            assert(self.issued_since(&before) =~= before.state.changes(*c));
            lemma_run_binding(before.state, seq![*c]);
            let e = Seq::<GlCommand>::empty();
            assert(e.push(*c) =~= seq![*c]);
            crate::state::lemma_run_push(before.state, e, *c);
            assert(e + before.state.changes(*c) =~= before.state.changes(*c));
            assert(all_state_changes(seq![*c]));
        }
    }

    /// Issues `c`, a command that is no state change and leaves the binding alone.
    fn issue(&mut self, c: GlCommand)
        requires
            !is_state_change(c),
            !(c is BindFramebuffer),
            !(c is DeleteTexture),
        ensures
            final(self).commands@ == old(self).commands@.push(c),
            final(self).issued_since(old(self)) == seq![c],
            final(self).follows(old(self)),
            final(self).written_since(old(self)) == crate::command::command_writes(
                c,
                old(self).state.framebuffer,
            ),
            final(self).state == old(self).state,
            final(self).textures == old(self).textures,
            final(self).same_setup(old(self)),
    {
        let ghost before = *self;
        self.commands.push(c);
        proof {
            let n = before.commands@.len() as int;
            assert(self.commands@.take(n) =~= before.commands@);
            assert(self.issued_since(&before) =~= seq![c]);
            let e = Seq::<GlCommand>::empty();
            assert(e.push(c) =~= seq![c]);
            lemma_push(e, c, before.state.framebuffer);
            assert(Set::<Option<usize>>::empty() + crate::command::command_writes(
                c,
                before.state.framebuffer,
            ) =~= crate::command::command_writes(c, before.state.framebuffer));
        }
    }

    /// Puts `raw` into a free slot, reusing the first one there is.
    fn alloc_slot(&mut self, raw: RawTexture) -> (r: usize)
        ensures
            old(self).slot(r as int) is None,
            final(self).slot(r as int) == Some(raw),
            forall|i: int| i != r ==> #[trigger] final(self).slot(i) == old(self).slot(i),
            final(self).state == old(self).state,
            final(self).commands == old(self).commands,
            final(self).same_setup(old(self)),
    {
        let mut i: usize = 0;
        while i < self.textures.len()
            invariant
                0 <= i <= self.textures@.len(),
                *self == *old(self),
            decreases self.textures@.len() - i,
        {
            if self.textures[i].is_none() {
                self.textures.set(i, Some(raw));
                return i;
            }
            i += 1;
        }
        self.textures.push(Some(raw));
        i
    }

    /// A new image of `dimensions` in a free slot, from `pixels` (rows bottom
    /// first) or with undefined contents; fails where the size is zero or over
    /// the GPU's maximum.
    pub fn create_texture(&mut self, dimensions: (u32, u32), pixels: Option<Vec<u8>>) -> (r: Result<
        usize,
        NewTextureError,
    >)
        requires
            old(self).wf(),
            pixels is Some ==> pixels->Some_0@.len() == 4 * dimensions.0 * dimensions.1,
        ensures
            r is Ok <==> valid_texture_size(dimensions, old(self).constants.max_texture_size),
            r is Err ==> r == Err::<usize, NewTextureError>(
                NewTextureError::InvalidTextureSize { width: dimensions.0, height: dimensions.1 },
            ) && *final(self) == *old(self),
            r is Ok ==> ({
                let slot = r->Ok_0;
                &&& old(self).slot(slot as int) is None
                &&& final(self).slot(slot as int) == Some(
                    RawTexture { dimensions, has_framebuffer: false, refs: 1, depth_dirty: false },
                )
                &&& forall|i: int|
                    i != slot ==> #[trigger] final(self).slot(i) == old(self).slot(i)
                &&& final(self).wf()
                &&& final(self).follows(old(self))
                &&& final(self).written_since(old(self)) == set![Some(slot)]
                &&& final(self).issued_since(old(self)) == seq![GlCommand::CreateTexture(slot)]
                    + old(self).state.changes(GlCommand::BindTexture(Some(slot))) + seq![
                    GlCommand::DefineTexture { slot, dimensions, pixels },
                ]
                &&& final(self).state == old(self).state.with(GlCommand::BindTexture(Some(slot)))
                &&& final(self).same_setup(old(self))
            }),
    {
        match check_texture_size(dimensions, self.constants.max_texture_size) {
            Err(e) => {
                return Err(e);
            },
            Ok(()) => {},
        }
        let ghost b0 = *self;
        let slot = self.alloc_slot(
            RawTexture { dimensions, has_framebuffer: false, refs: 1, depth_dirty: false },
        );
        let ghost b1 = *self;
        proof {
            lemma_follows_refl(&b0);
            assert(b1.issued_since(&b0) =~= b0.issued_since(&b0));
        }
        self.issue(GlCommand::CreateTexture(slot));
        let ghost b2 = *self;
        self.request(&GlCommand::BindTexture(Some(slot)));
        let ghost b3 = *self;
        self.issue(GlCommand::DefineTexture { slot, dimensions, pixels });
        proof {
            lemma_follows_chain(&b0, &b1, &b2);
            lemma_follows_chain(&b0, &b2, &b3);
            lemma_follows_chain(&b0, &b3, self);
            assert(self.issued_since(&b0) =~= b1.issued_since(&b0) + b2.issued_since(&b1)
                + b3.issued_since(&b2) + self.issued_since(&b3)) by {
                assert(b3.issued_since(&b0) =~= b2.issued_since(&b0) + b3.issued_since(&b2));
                assert(b2.issued_since(&b0) =~= b1.issued_since(&b0) + b2.issued_since(&b1));
                assert(self.issued_since(&b0) =~= b3.issued_since(&b0) + self.issued_since(&b3));
            }
            assert(b1.issued_since(&b0) =~= Seq::<GlCommand>::empty());
            assert(self.issued_since(&b0) =~= seq![GlCommand::CreateTexture(slot)]
                + b0.state.changes(GlCommand::BindTexture(Some(slot))) + seq![
                GlCommand::DefineTexture { slot, dimensions, pixels },
            ]);
            assert(self.written_since(&b0) =~= set![Some(slot)]);
            assert forall|i: int| i != slot implies #[trigger] self.slot(i) == b0.slot(i) by {
                assert(b1.slot(i) == b0.slot(i));
            }
            assert(forall|x: int| x != slot as int ==> #[trigger] self.slot(x) == b0.slot(x));
            lemma_slots_valid_after_change(self, &b0, slot as int);
            assert(self.is_target(self.state.framebuffer)) by {
                if self.state.framebuffer is Some {
                    let f = self.state.framebuffer->Some_0 as int;
                    assert(b1.slot(f) == b0.slot(f) || f == slot);
                }
            }
        }
        Ok(slot)
    }
}

/// The requests that a draw makes through the mirror, before binding the
/// source and then the target.
pub open spec fn draw_requests(
    program: Program,
    viewport: (u32, u32),
    target_dimensions: (u32, u32),
    source_texture_dimensions: (u32, u32),
    source_texture_offset: (u32, u32),
    source_dimensions: (u32, u32),
    source_position: (i32, i32),
    config: DrawConfig,
) -> Seq<GlCommand> {
    seq![
        GlCommand::UseProgram(program.id),
        GlCommand::BindVertexArray(program.vao),
        GlCommand::SetBlendMode(config.blend_mode),
    ] + OpenGlState::depth_requests(config.depth) + seq![
        GlCommand::SetColorModulation(config.color_modulation),
        GlCommand::SetTargetDimensions(target_dimensions),
        GlCommand::SetViewport(viewport),
        GlCommand::SetSourceScale(config.scale),
        GlCommand::SetSourceTextureDimensions(source_texture_dimensions),
        GlCommand::SetSourceTextureOffset(source_texture_offset),
        GlCommand::SetSourcePosition(source_position),
        GlCommand::SetSourceDimensions(source_dimensions),
        GlCommand::SetInvertColor(config.invert_color),
        GlCommand::SetFlipVertically(config.flip_vertically),
        GlCommand::SetFlipHorizontally(config.flip_horizontally),
    ]
}

/// The mirrored state after a draw from `s`, and the commands it issues: the
/// requests of [`draw_requests`], the source bound, the target bound, and one quad.
pub open spec fn draw_effect(
    s: OpenGlState,
    program: Program,
    target: Option<usize>,
    viewport: (u32, u32),
    target_dimensions: (u32, u32),
    source: usize,
    source_texture_dimensions: (u32, u32),
    source_texture_offset: (u32, u32),
    source_dimensions: (u32, u32),
    source_position: (i32, i32),
    config: DrawConfig,
) -> (OpenGlState, Seq<GlCommand>) {
    let reqs = draw_requests(
        program,
        viewport,
        target_dimensions,
        source_texture_dimensions,
        source_texture_offset,
        source_dimensions,
        source_position,
        config,
    );
    let (s1, out) = run(s, reqs);
    let s2 = s1.with(GlCommand::BindTexture(Some(source)));
    (
        s2.with(GlCommand::BindFramebuffer(target)),
        (out + s1.changes(GlCommand::BindTexture(Some(source))) + s2.changes(
            GlCommand::BindFramebuffer(target),
        )).push(GlCommand::DrawQuad),
    )
}

/// The requests of a draw set pieces of the mirror of their own.
proof fn lemma_draw_requests_distinct(
    program: Program,
    viewport: (u32, u32),
    target_dimensions: (u32, u32),
    source_texture_dimensions: (u32, u32),
    source_texture_offset: (u32, u32),
    source_dimensions: (u32, u32),
    source_position: (i32, i32),
    config: DrawConfig,
)
    ensures
        ({
            let reqs = draw_requests(
                program,
                viewport,
                target_dimensions,
                source_texture_dimensions,
                source_texture_offset,
                source_dimensions,
                source_position,
                config,
            );
            &&& all_state_changes(reqs)
            &&& forall|i: int, j: int|
                0 <= i < j < reqs.len() ==> item(#[trigger] reqs[i]) != item(#[trigger] reqs[j])
        }),
{
    let reqs = draw_requests(
        program,
        viewport,
        target_dimensions,
        source_texture_dimensions,
        source_texture_offset,
        source_dimensions,
        source_position,
        config,
    );
    let items = reqs.map_values(|c: GlCommand| item(c));
    match config.depth {
        Some(d) => {
            assert(items =~= seq![0int, 1, 4, 5, 6, 11, 2, 3, 9, 12, 13, 14, 15, 16, 17, 18]);
        },
        None => {
            assert(items =~= seq![0int, 1, 4, 5, 11, 2, 3, 9, 12, 13, 14, 15, 16, 17, 18]);
        },
    }
    assert forall|i: int, j: int| 0 <= i < j < reqs.len() implies item(#[trigger] reqs[i]) != item(
        #[trigger] reqs[j],
    ) by {
        assert(items[i] == item(reqs[i]));
        assert(items[j] == item(reqs[j]));
    }
    assert forall|i: int| 0 <= i < reqs.len() implies is_state_change(#[trigger] reqs[i]) by {
        assert(items[i] == item(reqs[i]));
    }
}

/// After a draw, the mirror holds every value the draw asked for.
pub proof fn lemma_draw_effect_holds(
    s: OpenGlState,
    program: Program,
    target: Option<usize>,
    viewport: (u32, u32),
    target_dimensions: (u32, u32),
    source: usize,
    source_texture_dimensions: (u32, u32),
    source_texture_offset: (u32, u32),
    source_dimensions: (u32, u32),
    source_position: (i32, i32),
    config: DrawConfig,
)
    ensures
        ({
            let reqs = draw_requests(
                program,
                viewport,
                target_dimensions,
                source_texture_dimensions,
                source_texture_offset,
                source_dimensions,
                source_position,
                config,
            );
            let t = draw_effect(
                s,
                program,
                target,
                viewport,
                target_dimensions,
                source,
                source_texture_dimensions,
                source_texture_offset,
                source_dimensions,
                source_position,
                config,
            ).0;
            &&& forall|i: int| 0 <= i < reqs.len() ==> t.holds(#[trigger] reqs[i])
            &&& forall|i: int| 0 <= i < reqs.len() ==> keeps_bindings(#[trigger] reqs[i])
            &&& t.texture == Some(source)
            &&& t.framebuffer == target
        }),
{
    let reqs = draw_requests(
        program,
        viewport,
        target_dimensions,
        source_texture_dimensions,
        source_texture_offset,
        source_dimensions,
        source_position,
        config,
    );
    lemma_draw_requests_distinct(
        program,
        viewport,
        target_dimensions,
        source_texture_dimensions,
        source_texture_offset,
        source_dimensions,
        source_position,
        config,
    );
    lemma_run_holds_all(s, reqs);
    let s1 = run(s, reqs).0;
    let bt = GlCommand::BindTexture(Some(source));
    let bf = GlCommand::BindFramebuffer(target);
    let items = reqs.map_values(|c: GlCommand| item(c));
    assert forall|i: int| 0 <= i < reqs.len() implies keeps_bindings(#[trigger] reqs[i]) by {
        assert(items[i] == item(reqs[i]));
        match config.depth {
            Some(d) => {
                assert(items =~= seq![0int, 1, 4, 5, 6, 11, 2, 3, 9, 12, 13, 14, 15, 16, 17, 18]);
            },
            None => {
                assert(items =~= seq![0int, 1, 4, 5, 11, 2, 3, 9, 12, 13, 14, 15, 16, 17, 18]);
            },
        }
    }
    assert forall|i: int| 0 <= i < reqs.len() implies s1.with(bt).with(bf).holds(#[trigger] reqs[i]) by {
        assert(is_state_change(reqs[i]));
        assert(keeps_bindings(reqs[i]));
        lemma_with_keeps(s1, reqs[i], bt);
        lemma_with_keeps(s1.with(bt), reqs[i], bf);
    }
}

/// The segment that a debug line or rectangle from `from` to `to` is drawn
/// along; a rectangle's corners are put in lower left, upper right order.
pub open spec fn debug_segment(rectangle: bool, target_dimensions: (u32, u32), from: (i32, i32), to: (
    i32,
    i32,
)) -> DebugSegment {
    if rectangle {
        DebugSegment {
            from: (
                if from.0 <= to.0 {
                    from.0
                } else {
                    to.0
                },
                if from.1 <= to.1 {
                    from.1
                } else {
                    to.1
                },
            ),
            to: (
                if from.0 <= to.0 {
                    to.0
                } else {
                    from.0
                },
                if from.1 <= to.1 {
                    to.1
                } else {
                    from.1
                },
            ),
            target_dimensions,
        }
    } else {
        DebugSegment { from, to, target_dimensions }
    }
}

/// The requests that a debug draw makes through the mirror, before binding the target.
pub open spec fn debug_requests(
    debug_program: DebugProgram,
    rectangle: bool,
    viewport: (u32, u32),
    segment: DebugSegment,
    color: Rgba,
) -> Seq<GlCommand> {
    seq![
        GlCommand::UseProgram(debug_program.id),
        GlCommand::BindVertexArray(
            if rectangle {
                debug_program.vao[1]
            } else {
                debug_program.vao[0]
            },
        ),
        GlCommand::SetViewport(viewport),
        GlCommand::DisableDepthTest,
        GlCommand::SetDebugColor(color),
        GlCommand::SetDebugSegment(segment),
    ]
}

/// The mirrored state after a debug draw from `s`, and the commands it
/// issues: the requests of [`debug_requests`], the target bound, and one line strip.
pub open spec fn debug_effect(
    s: OpenGlState,
    debug_program: DebugProgram,
    rectangle: bool,
    target: Option<usize>,
    viewport: (u32, u32),
    segment: DebugSegment,
    color: Rgba,
) -> (OpenGlState, Seq<GlCommand>) {
    let (s1, out) = run(s, debug_requests(debug_program, rectangle, viewport, segment, color));
    (
        s1.with(GlCommand::BindFramebuffer(target)),
        (out + s1.changes(GlCommand::BindFramebuffer(target))).push(
            GlCommand::DrawDebug { vertices: if rectangle { 5 } else { 2 } },
        ),
    )
}

impl Backend {
    /// Marks the image that `target` renders into as drawn to in this frame.
    fn mark_drawn(&mut self, target: Option<usize>)
        requires
            old(self).wf(),
            old(self).is_target(target),
        ensures
            final(self).wf(),
            final(self).same_images(old(self)),
            final(self).state == old(self).state,
            final(self).commands == old(self).commands,
            final(self).same_setup(old(self)),
            forall|i: int|
                target is None || i != target->Some_0 ==> #[trigger] final(self).slot(i)
                    == old(self).slot(i),
            target is Some ==> final(self).slot(target->Some_0 as int) == Some(
                RawTexture { depth_dirty: true, ..old(self).slot(target->Some_0 as int)->Some_0 },
            ),
    {
        if let Some(t) = target {
            let raw = self.textures[t].unwrap();
            self.textures.set(t, Some(RawTexture { depth_dirty: true, ..raw }));
            proof {
                assert(forall|x: int| x != t as int ==> #[trigger] self.slot(x) == old(self).slot(x));
                lemma_slots_valid_after_change(self, old(self), t as int);
            }
            assert(self.is_target(self.state.framebuffer)) by {
                if self.state.framebuffer is Some {
                    assert(old(self).slot(self.state.framebuffer->Some_0 as int) is Some);
                }
            }
            assert(self.state.texture is Some ==> old(self).slot(self.state.texture->Some_0 as int) is Some);
        }
    }

    /// Attaches a framebuffer with a depth buffer to the image in `slot`,
    /// leaving it bound.
    pub fn add_framebuffer(&mut self, slot: usize)
        requires
            old(self).wf(),
            old(self).slot(slot as int) is Some,
            !old(self).slot(slot as int)->Some_0.has_framebuffer,
        ensures
            final(self).wf(),
            final(self).slot(slot as int) == Some(
                RawTexture { has_framebuffer: true, ..old(self).slot(slot as int)->Some_0 },
            ),
            forall|i: int| i != slot ==> #[trigger] final(self).slot(i) == old(self).slot(i),
            final(self).follows(old(self)),
            final(self).written_since(old(self)) == set![Some(slot)],
            final(self).issued_since(old(self)) == seq![
                GlCommand::CreateFramebuffer(slot),
                GlCommand::BindFramebuffer(Some(slot)),
                GlCommand::AttachRenderTarget {
                    slot,
                    dimensions: old(self).slot(slot as int)->Some_0.dimensions,
                },
            ],
            final(self).state == old(self).state.with(GlCommand::BindFramebuffer(Some(slot))),
            final(self).same_setup(old(self)),
    {
        let ghost b0 = *self;
        let raw = self.textures[slot].unwrap();
        self.textures.set(slot, Some(RawTexture { has_framebuffer: true, ..raw }));
        let ghost b1 = *self;
        proof {
            lemma_follows_refl(&b0);
            assert(b1.issued_since(&b0) =~= b0.issued_since(&b0));
        }
        self.issue(GlCommand::CreateFramebuffer(slot));
        let ghost b2 = *self;
        self.request(&GlCommand::BindFramebuffer(Some(slot)));
        let ghost b3 = *self;
        self.issue(GlCommand::AttachRenderTarget { slot, dimensions: raw.dimensions });
        proof {
            assert(b0.state.framebuffer != Some(slot));
            lemma_follows_chain(&b0, &b1, &b2);
            lemma_follows_chain(&b0, &b2, &b3);
            lemma_follows_chain(&b0, &b3, self);
            assert(b3.issued_since(&b0) =~= b2.issued_since(&b0) + b3.issued_since(&b2));
            assert(b2.issued_since(&b0) =~= b1.issued_since(&b0) + b2.issued_since(&b1));
            assert(self.issued_since(&b0) =~= b3.issued_since(&b0) + self.issued_since(&b3));
            assert(self.written_since(&b0) =~= set![Some(slot)]);
            assert(forall|x: int| x != slot as int ==> #[trigger] self.slot(x) == b0.slot(x));
            lemma_slots_valid_after_change(self, &b0, slot as int);
            assert(self.state.texture is Some ==> b0.slot(self.state.texture->Some_0 as int) is Some);
        }
    }

    /// Binds `framebuffer` and fills its color buffer with `color`.
    pub fn clear_color(&mut self, framebuffer: Option<usize>, color: Rgba)
        requires
            old(self).wf(),
            old(self).is_target(framebuffer),
        ensures
            final(self).wf(),
            final(self).follows(old(self)),
            final(self).written_since(old(self)) == set![framebuffer],
            final(self).issued_since(old(self)) == old(self).state.changes(
                GlCommand::BindFramebuffer(framebuffer),
            ).push(GlCommand::ClearColor(color)),
            final(self).state == old(self).state.with(GlCommand::BindFramebuffer(framebuffer)),
            final(self).textures == old(self).textures,
            final(self).same_setup(old(self)),
    {
        let ghost b0 = *self;
        self.request(&GlCommand::BindFramebuffer(framebuffer));
        let ghost b1 = *self;
        self.issue(GlCommand::ClearColor(color));
        proof {
            assert(forall|i: int| #[trigger] self.slot(i) == b0.slot(i));
            lemma_follows_chain(&b0, &b1, self);
            assert(self.issued_since(&b0) =~= b1.issued_since(&b0) + self.issued_since(&b1));
            assert(self.written_since(&b0) =~= set![framebuffer]);
        }
    }

    /// Binds `framebuffer` and resets its depth buffer to `1.0`.
    pub fn clear_depth(&mut self, framebuffer: Option<usize>)
        requires
            old(self).wf(),
            old(self).is_target(framebuffer),
        ensures
            final(self).wf(),
            final(self).follows(old(self)),
            final(self).written_since(old(self)) == set![framebuffer],
            final(self).issued_since(old(self)) == old(self).state.changes(
                GlCommand::BindFramebuffer(framebuffer),
            ).push(GlCommand::ClearDepth),
            final(self).state == old(self).state.with(GlCommand::BindFramebuffer(framebuffer)),
            final(self).textures == old(self).textures,
            final(self).same_setup(old(self)),
    {
        let ghost b0 = *self;
        self.request(&GlCommand::BindFramebuffer(framebuffer));
        let ghost b1 = *self;
        self.issue(GlCommand::ClearDepth);
        proof {
            assert(forall|i: int| #[trigger] self.slot(i) == b0.slot(i));
            lemma_follows_chain(&b0, &b1, self);
            assert(self.issued_since(&b0) =~= b1.issued_since(&b0) + self.issued_since(&b1));
            assert(self.written_since(&b0) =~= set![framebuffer]);
        }
    }
}

/// The requests of [`draw_requests`], as a list.
fn build_draw_requests(
    program: Program,
    viewport: (u32, u32),
    target_dimensions: (u32, u32),
    source_texture_dimensions: (u32, u32),
    source_texture_offset: (u32, u32),
    source_dimensions: (u32, u32),
    source_position: (i32, i32),
    config: &DrawConfig,
) -> (r: Vec<GlCommand>)
    ensures
        r@ == draw_requests(
            program,
            viewport,
            target_dimensions,
            source_texture_dimensions,
            source_texture_offset,
            source_dimensions,
            source_position,
            *config,
        ),
        all_state_changes(r@),
        forall|i: int| 0 <= i < r@.len() ==> keeps_bindings(#[trigger] r@[i]),
{
    let mut reqs: Vec<GlCommand> = Vec::new();
    reqs.push(GlCommand::UseProgram(program.id));
    reqs.push(GlCommand::BindVertexArray(program.vao));
    reqs.push(GlCommand::SetBlendMode(config.blend_mode));
    match config.depth {
        Some(d) => {
            reqs.push(GlCommand::EnableDepthTest);
            reqs.push(GlCommand::SetDepth(d));
        },
        None => {
            reqs.push(GlCommand::DisableDepthTest);
        },
    }
    reqs.push(GlCommand::SetColorModulation(config.color_modulation));
    reqs.push(GlCommand::SetTargetDimensions(target_dimensions));
    reqs.push(GlCommand::SetViewport(viewport));
    reqs.push(GlCommand::SetSourceScale(config.scale));
    reqs.push(GlCommand::SetSourceTextureDimensions(source_texture_dimensions));
    reqs.push(GlCommand::SetSourceTextureOffset(source_texture_offset));
    reqs.push(GlCommand::SetSourcePosition(source_position));
    reqs.push(GlCommand::SetSourceDimensions(source_dimensions));
    reqs.push(GlCommand::SetInvertColor(config.invert_color));
    reqs.push(GlCommand::SetFlipVertically(config.flip_vertically));
    reqs.push(GlCommand::SetFlipHorizontally(config.flip_horizontally));
    assert(reqs@ =~= draw_requests(
        program,
        viewport,
        target_dimensions,
        source_texture_dimensions,
        source_texture_offset,
        source_dimensions,
        source_position,
        *config,
    ));
    reqs
}

impl Backend {
    /// Requests each of `reqs` in turn through the mirror.
    fn request_all(&mut self, reqs: &Vec<GlCommand>)
        requires
            all_state_changes(reqs@),
        ensures
            final(self).state == run(old(self).state, reqs@).0,
            final(self).issued_since(old(self)) == run(old(self).state, reqs@).1,
            final(self).follows(old(self)),
            final(self).written_since(old(self)) == Set::<Option<usize>>::empty(),
            final(self).textures == old(self).textures,
            final(self).same_setup(old(self)),
    {
        let ghost before = *self;
        self.state.apply(reqs, &mut self.commands);
        proof {
            let n = before.commands@.len() as int;
            assert(self.commands@.take(n) =~= before.commands@);
            assert(self.issued_since(&before) =~= run(before.state, reqs@).1);
            lemma_run_binding(before.state, reqs@);
        }
    }

    /// Draws `source_dimensions` texels of the image in slot `source`, from
    /// `source_texture_offset` on, at `source_position` of `target`, whose size is
    /// `target_dimensions` in logical pixels of `dpi` physical pixels each.
    ///
    /// Pushes the target, the source and every setting of `config` through the
    /// mirror and draws one quad, whatever the depth: at or beyond `1.0` the
    /// GPU's depth test discards every pixel of it.
    #[verifier::rlimit(60)]
    pub fn draw(
        &mut self,
        target: Option<usize>,
        target_dimensions: (u32, u32),
        dpi: u32,
        source: usize,
        source_texture_offset: (u32, u32),
        source_dimensions: (u32, u32),
        source_position: (i32, i32),
        config: &DrawConfig,
    )
        requires
            old(self).wf(),
            old(self).is_target(target),
            old(self).slot(source as int) is Some,
            target_dimensions.0 * dpi <= u32::MAX,
            target_dimensions.1 * dpi <= u32::MAX,
        ensures
            final(self).wf(),
            final(self).follows(old(self)),
            final(self).same_images(old(self)),
            final(self).same_setup(old(self)),
            forall|i: int|
                target is None || i != target->Some_0 ==> #[trigger] final(self).slot(i)
                    == old(self).slot(i),
            target is Some ==> final(self).slot(target->Some_0 as int) == Some(
                RawTexture { depth_dirty: true, ..old(self).slot(target->Some_0 as int)->Some_0 },
            ),
            (final(self).state, final(self).issued_since(old(self))) == draw_effect(
                old(self).state,
                old(self).program,
                target,
                ((target_dimensions.0 * dpi) as u32, (target_dimensions.1 * dpi) as u32),
                target_dimensions,
                source,
                old(self).slot(source as int)->Some_0.dimensions,
                source_texture_offset,
                source_dimensions,
                source_position,
                *config,
            ),
            final(self).written_since(old(self)) == set![target],
    {
        let ghost b0 = *self;
        let source_texture_dimensions = self.textures[source].unwrap().dimensions;
        let viewport = (target_dimensions.0 * dpi, target_dimensions.1 * dpi);
        let reqs = build_draw_requests(
            self.program,
            viewport,
            target_dimensions,
            source_texture_dimensions,
            source_texture_offset,
            source_dimensions,
            source_position,
            config,
        );
        proof {
            lemma_run_keeps_bindings(b0.state, reqs@);
        }
        self.request_all(&reqs);
        let ghost b1a = *self;
        self.request(&GlCommand::BindTexture(Some(source)));
        let ghost b1 = *self;
        proof {
            lemma_follows_chain(&b0, &b1a, &b1);
            assert(b1.issued_since(&b0) =~= b1a.issued_since(&b0) + b1.issued_since(&b1a));
        }
        self.request(&GlCommand::BindFramebuffer(target));
        let ghost b2 = *self;
        self.issue(GlCommand::DrawQuad);
        let ghost b3 = *self;
        proof {
            assert(forall|i: int| #[trigger] b3.slot(i) == b0.slot(i));
        }
        self.mark_drawn(target);
        proof {
            lemma_follows_chain(&b0, &b1, &b2);
            lemma_follows_chain(&b0, &b2, &b3);
            assert(b2.issued_since(&b0) =~= b1.issued_since(&b0) + b2.issued_since(&b1));
            assert(b3.issued_since(&b0) =~= b2.issued_since(&b0) + b3.issued_since(&b2));
            assert(self.issued_since(&b0) =~= b3.issued_since(&b0));
            assert(self.written_since(&b0) =~= set![target]);
        }
    }

    /// Draws a debug line from `from` to `to`, or the outline of the
    /// rectangle with these corners, onto `target` in `color`, with the depth
    /// test off.
    #[verifier::rlimit(60)]
    pub fn debug_draw(
        &mut self,
        rectangle: bool,
        target: Option<usize>,
        target_dimensions: (u32, u32),
        dpi: u32,
        from: (i32, i32),
        to: (i32, i32),
        color: Rgba,
    )
        requires
            old(self).wf(),
            old(self).is_target(target),
            target_dimensions.0 * dpi <= u32::MAX,
            target_dimensions.1 * dpi <= u32::MAX,
        ensures
            final(self).wf(),
            final(self).follows(old(self)),
            final(self).same_images(old(self)),
            final(self).same_setup(old(self)),
            forall|i: int|
                target is None || i != target->Some_0 ==> #[trigger] final(self).slot(i)
                    == old(self).slot(i),
            (final(self).state, final(self).issued_since(old(self))) == debug_effect(
                old(self).state,
                old(self).debug_program,
                rectangle,
                target,
                ((target_dimensions.0 * dpi) as u32, (target_dimensions.1 * dpi) as u32),
                debug_segment(rectangle, target_dimensions, from, to),
                color,
            ),
            final(self).written_since(old(self)) == set![target],
    {
        let ghost b0 = *self;
        let viewport = (target_dimensions.0 * dpi, target_dimensions.1 * dpi);
        let segment = if rectangle {
            DebugSegment {
                from: (
                    if from.0 <= to.0 {
                        from.0
                    } else {
                        to.0
                    },
                    if from.1 <= to.1 {
                        from.1
                    } else {
                        to.1
                    },
                ),
                to: (
                    if from.0 <= to.0 {
                        to.0
                    } else {
                        from.0
                    },
                    if from.1 <= to.1 {
                        to.1
                    } else {
                        from.1
                    },
                ),
                target_dimensions,
            }
        } else {
            DebugSegment { from, to, target_dimensions }
        };
        let vao = if rectangle {
            self.debug_program.vao[1]
        } else {
            self.debug_program.vao[0]
        };
        let mut reqs: Vec<GlCommand> = Vec::new();
        reqs.push(GlCommand::UseProgram(self.debug_program.id));
        reqs.push(GlCommand::BindVertexArray(vao));
        reqs.push(GlCommand::SetViewport(viewport));
        reqs.push(GlCommand::DisableDepthTest);
        reqs.push(GlCommand::SetDebugColor(color));
        reqs.push(GlCommand::SetDebugSegment(segment));
        proof {
            assert(reqs@ =~= debug_requests(b0.debug_program, rectangle, viewport, segment, color));
            assert(all_state_changes(reqs@));
            lemma_run_keeps_bindings(b0.state, reqs@);
        }
        self.request_all(&reqs);
        let ghost b1 = *self;
        self.request(&GlCommand::BindFramebuffer(target));
        let ghost b2 = *self;
        self.issue(GlCommand::DrawDebug { vertices: if rectangle { 5 } else { 2 } });
        let ghost b3 = *self;
        proof {
            assert(forall|i: int| #[trigger] b3.slot(i) == b0.slot(i));
        }
        self.mark_drawn(target);
        proof {
            lemma_follows_chain(&b0, &b1, &b2);
            lemma_follows_chain(&b0, &b2, &b3);
            assert(b2.issued_since(&b0) =~= b1.issued_since(&b0) + b2.issued_since(&b1));
            assert(b3.issued_since(&b0) =~= b2.issued_since(&b0) + b3.issued_since(&b2));
            assert(self.issued_since(&b0) =~= b3.issued_since(&b0));
            assert(self.written_since(&b0) =~= set![target]);
        }
    }
}

impl Backend {
    /// Counts one more handle of the image in `slot`.
    pub fn share(&mut self, slot: usize)
        requires
            old(self).wf(),
            old(self).slot(slot as int) is Some,
        ensures
            final(self).wf(),
            ({
                let raw = old(self).slot(slot as int)->Some_0;
                final(self).slot(slot as int) == Some(
                    RawTexture {
                        refs: if raw.refs == usize::MAX {
                            usize::MAX
                        } else {
                            (raw.refs + 1) as usize
                        },
                        ..raw
                    },
                )
            }),
            forall|i: int| i != slot ==> #[trigger] final(self).slot(i) == old(self).slot(i),
            final(self).state == old(self).state,
            final(self).commands == old(self).commands,
            final(self).same_setup(old(self)),
    {
        let raw = self.textures[slot].unwrap();
        let refs = if raw.refs == usize::MAX {
            usize::MAX
        } else {
            raw.refs + 1
        };
        self.textures.set(slot, Some(RawTexture { refs, ..raw }));
        proof {
            assert(forall|x: int| x != slot as int ==> #[trigger] self.slot(x) == old(self).slot(x));
            lemma_slots_valid_after_change(self, old(self), slot as int);
        }
        assert(self.is_target(self.state.framebuffer)) by {
            if self.state.framebuffer is Some {
                assert(old(self).slot(self.state.framebuffer->Some_0 as int) is Some);
            }
        }
        assert(self.state.texture is Some ==> old(self).slot(self.state.texture->Some_0 as int) is Some);
    }

    /// Counts one handle of the image in `slot` less, and frees the image with
    /// its framebuffer when none is left; the GPU then falls back to no texture
    /// and the window's framebuffer where they were bound.
    pub fn release(&mut self, slot: usize)
        requires
            old(self).wf(),
            old(self).slot(slot as int) is Some,
        ensures
            final(self).wf(),
            final(self).follows(old(self)),
            final(self).written_since(old(self)) == Set::<Option<usize>>::empty(),
            forall|i: int| i != slot ==> #[trigger] final(self).slot(i) == old(self).slot(i),
            final(self).slot(slot as int) == old(self).slot(slot as int)->Some_0.after_release(),
            final(self).same_setup(old(self)),
            final(self).state == (OpenGlState {
                texture: final(self).state.texture,
                framebuffer: final(self).state.framebuffer,
                ..old(self).state
            }),
            ({
                let raw = old(self).slot(slot as int)->Some_0;
                &&& raw.refs == 1 ==> final(self).slot(slot as int) is None
                    && final(self).issued_since(old(self)) == seq![
                    GlCommand::DeleteTexture { slot, has_framebuffer: raw.has_framebuffer },
                ]
                &&& raw.refs == usize::MAX ==> *final(self) == *old(self)
                &&& 1 < raw.refs < usize::MAX ==> final(self).slot(slot as int) == Some(
                    RawTexture { refs: (raw.refs - 1) as usize, ..raw },
                ) && final(self).state == old(self).state && final(self).commands
                    == old(self).commands
            }),
    {
        let ghost b0 = *self;
        let raw = self.textures[slot].unwrap();
        if raw.refs == usize::MAX {
            proof {
                lemma_follows_refl(self);
            }
            return;
        }
        if raw.refs > 1 {
            self.textures.set(slot, Some(RawTexture { refs: raw.refs - 1, ..raw }));
            proof {
                assert(forall|i: int| i != slot ==> #[trigger] self.slot(i) == b0.slot(i));
                assert(self.issued_since(&b0) =~= b0.issued_since(&b0));
                lemma_follows_refl(&b0);
            }
        } else {
            self.textures.set(slot, None);
            if let Some(t) = self.state.texture {
                if t == slot {
                    self.state.texture = None;
                }
            }
            if let Some(f) = self.state.framebuffer {
                if f == slot {
                    self.state.framebuffer = None;
                }
            }
            self.commands.push(
                GlCommand::DeleteTexture { slot, has_framebuffer: raw.has_framebuffer },
            );
            proof {
                assert(forall|i: int| i != slot ==> #[trigger] self.slot(i) == b0.slot(i));
                let c = GlCommand::DeleteTexture { slot, has_framebuffer: raw.has_framebuffer };
                let n = b0.commands@.len() as int;
                assert(self.commands@.take(n) =~= b0.commands@);
                assert(self.issued_since(&b0) =~= seq![c]);
                let e = Seq::<GlCommand>::empty();
                assert(e.push(c) =~= seq![c]);
                lemma_push(e, c, b0.state.framebuffer);
                assert(Set::<Option<usize>>::empty() + Set::<Option<usize>>::empty()
                    =~= Set::<Option<usize>>::empty());
            }
        }
        proof {
            assert(forall|x: int| x != slot as int ==> #[trigger] self.slot(x) == b0.slot(x));
            lemma_slots_valid_after_change(self, &b0, slot as int);
        }
        assert(self.is_target(self.state.framebuffer)) by {
            if self.state.framebuffer is Some {
                assert(b0.slot(self.state.framebuffer->Some_0 as int) is Some);
            }
        }
        assert(self.state.texture is Some ==> b0.slot(self.state.texture->Some_0 as int) is Some);
    }

    /// Binds the image in `slot` for reading it back, and returns its dimensions.
    pub fn prepare_image_data(&mut self, slot: usize) -> (r: (u32, u32))
        requires
            old(self).wf(),
            old(self).slot(slot as int) is Some,
        ensures
            r == old(self).slot(slot as int)->Some_0.dimensions,
            final(self).wf(),
            final(self).follows(old(self)),
            final(self).written_since(old(self)) == Set::<Option<usize>>::empty(),
            final(self).issued_since(old(self)) == old(self).state.changes(
                GlCommand::BindTexture(Some(slot)),
            ),
            final(self).state.texture == Some(slot),
            final(self).textures == old(self).textures,
            final(self).same_setup(old(self)),
    {
        let ghost b0 = *self;
        self.request(&GlCommand::BindTexture(Some(slot)));
        assert(forall|i: int| #[trigger] self.slot(i) == b0.slot(i));
        self.textures[slot].unwrap().dimensions
    }

    /// Binds the window's framebuffer for reading it back, and returns the
    /// window's size in logical pixels.
    pub fn prepare_screenshot(&mut self) -> (r: (u32, u32))
        requires
            old(self).wf(),
        ensures
            r == old(self).window_dimensions,
            final(self).wf(),
            final(self).follows(old(self)),
            final(self).written_since(old(self)) == Set::<Option<usize>>::empty(),
            final(self).state.framebuffer is None,
            final(self).textures == old(self).textures,
            final(self).same_setup(old(self)),
    {
        let ghost b0 = *self;
        self.request(&GlCommand::BindFramebuffer(None));
        assert(forall|i: int| #[trigger] self.slot(i) == b0.slot(i));
        self.window_dimensions
    }

    /// Ends a frame: resets the depth buffer of every image drawn to since the
    /// last frame boundary, then that of the window, which stays bound.
    pub fn finalize_frame(&mut self)
        requires
            old(self).wf(),
        ensures
            final(self).wf(),
            final(self).follows(old(self)),
            final(self).same_images(old(self)),
            final(self).same_setup(old(self)),
            final(self).state.framebuffer is None,
            final(self).commands@.last() == GlCommand::ClearDepth,
            forall|i: int| #[trigger]
                final(self).slot(i) is Some ==> !final(self).slot(i)->Some_0.depth_dirty,
            final(self).written_since(old(self)).contains(None),
            forall|f: Option<usize>| #[trigger]
                final(self).written_since(old(self)).contains(f) ==> f is None || (old(self).slot(
                    f->Some_0 as int,
                ) is Some && old(self).slot(f->Some_0 as int)->Some_0.depth_dirty),
            forall|i: int|
                #![trigger old(self).slot(i)]
                old(self).slot(i) is Some && old(self).slot(i)->Some_0.depth_dirty && old(self).slot(
                    i,
                )->Some_0.has_framebuffer ==> final(self).written_since(old(self)).contains(
                    Some(i as usize),
                ),
    {
        let ghost b0 = *self;
        proof {
            lemma_follows_refl(self);
        }
        let mut i: usize = 0;
        while i < self.textures.len()
            invariant
                0 <= i <= self.textures@.len(),
                self.textures@.len() == b0.textures@.len(),
                self.wf(),
                self.follows(&b0),
                self.same_images(&b0),
                self.same_setup(&b0),
                forall|j: int| 0 <= j < i ==> #[trigger] self.slot(j) is Some ==> !self.slot(j)->Some_0.depth_dirty,
                forall|j: int| i <= j ==> #[trigger] self.slot(j) == b0.slot(j),
                forall|f: Option<usize>| #[trigger]
                    self.written_since(&b0).contains(f) ==> f is Some && b0.slot(f->Some_0 as int) is Some
                        && b0.slot(f->Some_0 as int)->Some_0.depth_dirty,
                forall|j: int|
                    #![trigger b0.slot(j)]
                    0 <= j < i && b0.slot(j) is Some && b0.slot(j)->Some_0.depth_dirty && b0.slot(
                        j,
                    )->Some_0.has_framebuffer ==> self.written_since(&b0).contains(Some(j as usize)),
            decreases self.textures@.len() - i,
        {
            if let Some(raw) = self.textures[i] {
                if raw.has_framebuffer && raw.depth_dirty {
                    let ghost b1 = *self;
                    assert(self.slot(i as int) == b0.slot(i as int));
                    self.clear_depth(Some(i));
                    let ghost b2 = *self;
                    self.textures.set(i, Some(RawTexture { depth_dirty: false, ..raw }));
                    proof {
                        assert(forall|j: int| #[trigger] b2.slot(j) == b1.slot(j));
                        assert(forall|j: int| j != i ==> #[trigger] self.slot(j) == b2.slot(j));
                        assert(self.issued_since(&b2) =~= b2.issued_since(&b2));
                        lemma_follows_refl(&b2);
                        lemma_follows_chain(&b1, &b2, self);
                        lemma_follows_chain(&b0, &b1, self);
                        assert(forall|x: int| x != i as int ==> #[trigger] self.slot(x) == b1.slot(x));
                        lemma_slots_valid_after_change(self, &b1, i as int);
                        assert(self.is_target(self.state.framebuffer));
                        assert(self.state.texture is Some ==> b1.slot(self.state.texture->Some_0 as int) is Some);
                    }
                } else {
                    let ghost b1 = *self;
                    self.textures.set(i, Some(RawTexture { depth_dirty: false, ..raw }));
                    proof {
                        assert(forall|j: int| j != i ==> #[trigger] self.slot(j) == b1.slot(j));
                        assert(self.issued_since(&b1) =~= b1.issued_since(&b1));
                        lemma_follows_refl(&b1);
                        lemma_follows_chain(&b0, &b1, self);
                        assert(self.written_since(&b1) =~= Set::<Option<usize>>::empty());
                        assert(self.written_since(&b0) =~= b1.written_since(&b0));
                        assert(forall|x: int| x != i as int ==> #[trigger] self.slot(x) == b1.slot(x));
                        lemma_slots_valid_after_change(self, &b1, i as int);
                        assert(self.is_target(self.state.framebuffer)) by {
                            if self.state.framebuffer is Some {
                                assert(b1.slot(self.state.framebuffer->Some_0 as int) is Some);
                            }
                        }
                        assert(self.state.texture is Some ==> b1.slot(self.state.texture->Some_0 as int) is Some);
                    }
                }
            }
            i += 1;
        }
        let ghost b1 = *self;
        self.clear_depth(None);
        proof {
            assert(forall|j: int| #[trigger] self.slot(j) == b1.slot(j));
            lemma_follows_chain(&b0, &b1, self);
            assert forall|j: int|
                #![trigger b0.slot(j)]
                b0.slot(j) is Some && b0.slot(j)->Some_0.depth_dirty && b0.slot(j)->Some_0.has_framebuffer
                    implies self.written_since(&b0).contains(Some(j as usize)) by {
                assert(0 <= j < b0.textures@.len());
                assert(b1.written_since(&b0).contains(Some(j as usize)));
            }
        }
    }
}

/// The mirrored state after copying the view of `size` texels at `offset` of
/// the image in `source` (of `source_dimensions`) into the new slot `r`, and
/// the commands that the copy issues: create and define the image, attach a
/// framebuffer, clear it to transparent, and draw the view at the origin with
/// the default configuration.
pub open spec fn copy_effect(
    s: OpenGlState,
    program: Program,
    r: usize,
    source: usize,
    source_dimensions: (u32, u32),
    offset: (u32, u32),
    size: (u32, u32),
) -> (OpenGlState, Seq<GlCommand>) {
    let s1 = s.with(GlCommand::BindTexture(Some(r)));
    let s2 = s1.with(GlCommand::BindFramebuffer(Some(r)));
    let (s3, drawn) = draw_effect(
        s2,
        program,
        Some(r),
        ((size.0 * 1) as u32, (size.1 * 1) as u32),
        size,
        source,
        source_dimensions,
        offset,
        size,
        (0, 0),
        default_config(),
    );
    (
        s3,
        seq![GlCommand::CreateTexture(r)] + s.changes(GlCommand::BindTexture(Some(r))) + seq![
            GlCommand::DefineTexture { slot: r, dimensions: size, pixels: None },
            GlCommand::CreateFramebuffer(r),
            GlCommand::BindFramebuffer(Some(r)),
            GlCommand::AttachRenderTarget { slot: r, dimensions: size },
            GlCommand::ClearColor(Rgba { r: 0, g: 0, b: 0, a: 0 }),
        ] + drawn,
    )
}

impl Backend {
    /// A new image, with a framebuffer, holding a copy of the `size` texels of
    /// the image in `source` from `offset` on: cleared to transparent, then the
    /// view drawn onto it unscaled at the origin.
    pub fn copy_view(&mut self, source: usize, offset: (u32, u32), size: (u32, u32)) -> (r: usize)
        requires
            old(self).wf(),
            old(self).slot(source as int) is Some,
            offset.0 + size.0 <= old(self).slot(source as int)->Some_0.dimensions.0,
            offset.1 + size.1 <= old(self).slot(source as int)->Some_0.dimensions.1,
            size.0 > 0,
            size.1 > 0,
        ensures
            final(self).wf(),
            old(self).slot(r as int) is None,
            final(self).slot(r as int) == Some(
                RawTexture { dimensions: size, has_framebuffer: true, refs: 1, depth_dirty: true },
            ),
            forall|i: int| i != r ==> #[trigger] final(self).slot(i) == old(self).slot(i),
            final(self).follows(old(self)),
            final(self).written_since(old(self)) == set![Some(r)],
            (final(self).state, final(self).issued_since(old(self))) == copy_effect(
                old(self).state,
                old(self).program,
                r,
                source,
                old(self).slot(source as int)->Some_0.dimensions,
                offset,
                size,
            ),
            final(self).same_setup(old(self)),
    {
        let ghost b0 = *self;
        let r = match self.create_texture(size, None) {
            Ok(r) => r,
            Err(_) => {
                proof {
                    assert(false);
                }
                0
            },
        };
        let ghost b1 = *self;
        self.add_framebuffer(r);
        let ghost b2 = *self;
        self.clear_color(Some(r), Rgba { r: 0, g: 0, b: 0, a: 0 });
        let ghost b3 = *self;
        let config = DrawConfig::default();
        proof {
            assert(source != r);
            assert(b1.slot(source as int) == b0.slot(source as int));
            assert(b2.slot(source as int) == b1.slot(source as int));
            assert(b3.slot(source as int) == b2.slot(source as int));
            assert(b3.slot(r as int) == b2.slot(r as int));
        }
        self.draw(Some(r), size, 1, source, offset, size, (0, 0), &config);
        proof {
            lemma_follows_chain(&b0, &b1, &b2);
            lemma_follows_chain(&b0, &b2, &b3);
            lemma_follows_chain(&b0, &b3, self);
            assert(self.written_since(&b0) =~= set![Some(r)]);
            let s1 = b0.state.with(GlCommand::BindTexture(Some(r)));
            let s2 = s1.with(GlCommand::BindFramebuffer(Some(r)));
            assert(b1.state == s1);
            assert(b2.state == s2);
            assert(s2.holds(GlCommand::BindFramebuffer(Some(r))));
            assert(b2.state.changes(GlCommand::BindFramebuffer(Some(r))) =~= Seq::<GlCommand>::empty());
            assert(b3.state =~= s2);
            assert(b3.issued_since(&b2) =~= seq![GlCommand::ClearColor(Rgba { r: 0, g: 0, b: 0, a: 0 })]);
            assert(b3.slot(source as int) == b0.slot(source as int));
            assert(self.issued_since(&b0) =~= b1.issued_since(&b0) + b2.issued_since(&b1)
                + b3.issued_since(&b2) + self.issued_since(&b3));
            assert(self.issued_since(&b0) =~= copy_effect(
                b0.state,
                b0.program,
                r,
                source,
                b0.slot(source as int)->Some_0.dimensions,
                offset,
                size,
            ).1);
            assert forall|i: int| i != r implies #[trigger] self.slot(i) == b0.slot(i) by {
                assert(b3.slot(i) == b2.slot(i));
                assert(b2.slot(i) == b1.slot(i));
                assert(b1.slot(i) == b0.slot(i));
            }
            assert(self.slot(r as int) == Some(
                RawTexture { dimensions: size, has_framebuffer: true, refs: 1, depth_dirty: true },
            ));
        }
        r
    }

    /// A new image, with a framebuffer, holding a copy of the image in `slot`.
    pub fn clone_as_target(&mut self, slot: usize) -> (r: usize)
        requires
            old(self).wf(),
            old(self).slot(slot as int) is Some,
        ensures
            final(self).wf(),
            old(self).slot(r as int) is None,
            final(self).slot(r as int) == Some(
                RawTexture {
                    dimensions: old(self).slot(slot as int)->Some_0.dimensions,
                    has_framebuffer: true,
                    refs: 1,
                    depth_dirty: true,
                },
            ),
            forall|i: int| i != r ==> #[trigger] final(self).slot(i) == old(self).slot(i),
            final(self).follows(old(self)),
            final(self).written_since(old(self)) == set![Some(r)],
            (final(self).state, final(self).issued_since(old(self))) == copy_effect(
                old(self).state,
                old(self).program,
                r,
                slot,
                old(self).slot(slot as int)->Some_0.dimensions,
                (0, 0),
                old(self).slot(slot as int)->Some_0.dimensions,
            ),
            final(self).same_setup(old(self)),
    {
        let dimensions = self.textures[slot].unwrap().dimensions;
        proof {
            assert(old(self).slot(slot as int)->Some_0.refs >= 1);
        }
        self.copy_view(slot, (0, 0), dimensions)
    }
}

} // verus!
