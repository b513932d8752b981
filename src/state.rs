use vstd::prelude::*;

use crate::command::GlCommand;
use crate::config::{BlendMode, ColorMatrix, DebugSegment, Rgba, matrix_eq};

verus! {

/// The last known value of every piece of GPU state that the renderer changes.
///
/// Every `update_*` method compares the requested value with the mirrored one
/// and asks for a state change only where the two differ.
#[derive(Debug)]
pub struct OpenGlState {
    pub program: u32,
    pub vao: u32,
    pub target_dimensions: (u32, u32),
    pub viewport_dimensions: (u32, u32),
    pub blend_mode: BlendMode,
    pub depth_active: bool,
    pub depth: u32,
    pub framebuffer: Option<usize>,
    pub texture: Option<usize>,
    pub source_scale: (u32, u32),
    pub source_rotation: i32,
    pub color_modulation: ColorMatrix,
    pub source_texture_dimensions: (u32, u32),
    pub source_texture_offset: (u32, u32),
    pub source_position: (i32, i32),
    pub source_dimensions: (u32, u32),
    pub invert_color: bool,
    pub flip_vertically: bool,
    pub flip_horizontally: bool,
    pub debug_color: Rgba,
    /// `None` until a segment has been set: the uniform's first value is not one
    /// that a segment yields.
    pub debug_segment: Option<DebugSegment>,
}

/// Whether `c` asks for a piece of mirrored state to take a value.
pub open spec fn is_state_change(c: GlCommand) -> bool {
    match c {
        GlCommand::UseProgram(_) => true,
        GlCommand::BindVertexArray(_) => true,
        GlCommand::SetTargetDimensions(_) => true,
        GlCommand::SetViewport(_) => true,
        GlCommand::SetBlendMode(_) => true,
        GlCommand::EnableDepthTest => true,
        GlCommand::DisableDepthTest => true,
        GlCommand::SetDepth(_) => true,
        GlCommand::BindFramebuffer(_) => true,
        GlCommand::BindTexture(_) => true,
        GlCommand::SetSourceScale(_) => true,
        GlCommand::SetSourceRotation(_) => true,
        GlCommand::SetColorModulation(_) => true,
        GlCommand::SetSourceTextureDimensions(_) => true,
        GlCommand::SetSourceTextureOffset(_) => true,
        GlCommand::SetSourcePosition(_) => true,
        GlCommand::SetSourceDimensions(_) => true,
        GlCommand::SetInvertColor(_) => true,
        GlCommand::SetFlipVertically(_) => true,
        GlCommand::SetFlipHorizontally(_) => true,
        GlCommand::SetDebugColor(_) => true,
        GlCommand::SetDebugSegment(_) => true,
        _ => false,
    }
}

/// Whether every command of `cmds` is a state change.
pub open spec fn all_state_changes(cmds: Seq<GlCommand>) -> bool {
    forall|i: int| 0 <= i < cmds.len() ==> is_state_change(#[trigger] cmds[i])
}

impl OpenGlState {
    /// Whether the mirrored state already has the value that `c` asks for.
    pub open spec fn holds(self, c: GlCommand) -> bool {
        match c {
            GlCommand::UseProgram(v) => self.program == v,
            GlCommand::BindVertexArray(v) => self.vao == v,
            GlCommand::SetTargetDimensions(v) => self.target_dimensions == v,
            GlCommand::SetViewport(v) => self.viewport_dimensions == v,
            GlCommand::SetBlendMode(v) => self.blend_mode == v,
            GlCommand::EnableDepthTest => self.depth_active,
            GlCommand::DisableDepthTest => !self.depth_active,
            GlCommand::SetDepth(v) => self.depth == v,
            GlCommand::BindFramebuffer(v) => self.framebuffer == v,
            GlCommand::BindTexture(v) => self.texture == v,
            GlCommand::SetSourceScale(v) => self.source_scale == v,
            GlCommand::SetSourceRotation(v) => self.source_rotation == v,
            GlCommand::SetColorModulation(v) => self.color_modulation == v,
            GlCommand::SetSourceTextureDimensions(v) => self.source_texture_dimensions == v,
            GlCommand::SetSourceTextureOffset(v) => self.source_texture_offset == v,
            GlCommand::SetSourcePosition(v) => self.source_position == v,
            GlCommand::SetSourceDimensions(v) => self.source_dimensions == v,
            GlCommand::SetInvertColor(v) => self.invert_color == v,
            GlCommand::SetFlipVertically(v) => self.flip_vertically == v,
            GlCommand::SetFlipHorizontally(v) => self.flip_horizontally == v,
            GlCommand::SetDebugColor(v) => self.debug_color == v,
            GlCommand::SetDebugSegment(v) => self.debug_segment == Some(v),
            _ => false,
        }
    }

    /// The mirrored state once `c` has been executed.
    pub open spec fn with(self, c: GlCommand) -> OpenGlState {
        match c {
            GlCommand::UseProgram(v) => OpenGlState { program: v, ..self },
            GlCommand::BindVertexArray(v) => OpenGlState { vao: v, ..self },
            GlCommand::SetTargetDimensions(v) => OpenGlState { target_dimensions: v, ..self },
            GlCommand::SetViewport(v) => OpenGlState { viewport_dimensions: v, ..self },
            GlCommand::SetBlendMode(v) => OpenGlState { blend_mode: v, ..self },
            GlCommand::EnableDepthTest => OpenGlState { depth_active: true, ..self },
            GlCommand::DisableDepthTest => OpenGlState { depth_active: false, ..self },
            GlCommand::SetDepth(v) => OpenGlState { depth: v, ..self },
            GlCommand::BindFramebuffer(v) => OpenGlState { framebuffer: v, ..self },
            GlCommand::BindTexture(v) => OpenGlState { texture: v, ..self },
            GlCommand::SetSourceScale(v) => OpenGlState { source_scale: v, ..self },
            GlCommand::SetSourceRotation(v) => OpenGlState { source_rotation: v, ..self },
            GlCommand::SetColorModulation(v) => OpenGlState { color_modulation: v, ..self },
            GlCommand::SetSourceTextureDimensions(v) => OpenGlState {
                source_texture_dimensions: v,
                ..self
            },
            GlCommand::SetSourceTextureOffset(v) => OpenGlState { source_texture_offset: v, ..self },
            GlCommand::SetSourcePosition(v) => OpenGlState { source_position: v, ..self },
            GlCommand::SetSourceDimensions(v) => OpenGlState { source_dimensions: v, ..self },
            GlCommand::SetInvertColor(v) => OpenGlState { invert_color: v, ..self },
            GlCommand::SetFlipVertically(v) => OpenGlState { flip_vertically: v, ..self },
            GlCommand::SetFlipHorizontally(v) => OpenGlState { flip_horizontally: v, ..self },
            GlCommand::SetDebugColor(v) => OpenGlState { debug_color: v, ..self },
            GlCommand::SetDebugSegment(v) => OpenGlState { debug_segment: Some(v), ..self },
            _ => self,
        }
    }

    /// What requesting `c` issues: nothing where the value is already there,
    /// else `c` itself.
    pub open spec fn changes(self, c: GlCommand) -> Seq<GlCommand> {
        if self.holds(c) {
            Seq::empty()
        } else {
            seq![c]
        }
    }
}

/// The mirrored state and the issued commands after requesting each of `reqs`
/// in turn, starting from `s`.
pub open spec fn run(s: OpenGlState, reqs: Seq<GlCommand>) -> (OpenGlState, Seq<GlCommand>)
    decreases reqs.len(),
{
    if reqs.len() == 0 {
        (s, Seq::empty())
    } else {
        let (s1, out) = run(s, reqs.drop_last());
        (s1.with(reqs.last()), out + s1.changes(reqs.last()))
    }
}

/// Executing a state change leaves the mirror holding its value.
pub proof fn lemma_with_holds(s: OpenGlState, c: GlCommand)
    requires
        is_state_change(c),
    ensures
        s.with(c).holds(c),
{
    match c {
        GlCommand::SetColorModulation(v) => {},
        GlCommand::SetDebugSegment(v) => {},
        GlCommand::SetDebugColor(v) => {},
        _ => {},
    }
}

/// Requesting a value twice in a row issues at most one command: the second
/// request finds the value in place and issues nothing.
pub proof fn lemma_repeated_request_is_silent(s: OpenGlState, c: GlCommand)
    requires
        is_state_change(c),
    ensures
        run(s, seq![c, c]).1 == run(s, seq![c]).1,
        run(s, seq![c, c]).1.len() <= 1,
        run(s, seq![c, c]).0 == s.with(c),
{
    let e = Seq::<GlCommand>::empty();
    assert(run(s, e) == (s, e));
    lemma_run_push(s, e, c);
    assert(e.push(c) =~= seq![c]);
    lemma_run_push(s, seq![c], c);
    assert(seq![c].push(c) =~= seq![c, c]);
    lemma_with_holds(s, c);
    assert(e + s.changes(c) =~= s.changes(c));
    assert(s.changes(c) + s.with(c).changes(c) =~= s.changes(c));
}

/// One more request after a list.
pub proof fn lemma_run_push(s: OpenGlState, reqs: Seq<GlCommand>, c: GlCommand)
    ensures
        run(s, reqs.push(c)) == (run(s, reqs).0.with(c), run(s, reqs).1 + run(s, reqs).0.changes(c)),
{
    assert(reqs.push(c).drop_last() =~= reqs);
}

/// Which piece of mirrored state a state change sets; enabling and disabling
/// the depth test set the same piece.
pub open spec fn item(c: GlCommand) -> int {
    match c {
        GlCommand::UseProgram(_) => 0,
        GlCommand::BindVertexArray(_) => 1,
        GlCommand::SetTargetDimensions(_) => 2,
        GlCommand::SetViewport(_) => 3,
        GlCommand::SetBlendMode(_) => 4,
        GlCommand::EnableDepthTest => 5,
        GlCommand::DisableDepthTest => 5,
        GlCommand::SetDepth(_) => 6,
        GlCommand::BindFramebuffer(_) => 7,
        GlCommand::BindTexture(_) => 8,
        GlCommand::SetSourceScale(_) => 9,
        GlCommand::SetSourceRotation(_) => 10,
        GlCommand::SetColorModulation(_) => 11,
        GlCommand::SetSourceTextureDimensions(_) => 12,
        GlCommand::SetSourceTextureOffset(_) => 13,
        GlCommand::SetSourcePosition(_) => 14,
        GlCommand::SetSourceDimensions(_) => 15,
        GlCommand::SetInvertColor(_) => 16,
        GlCommand::SetFlipVertically(_) => 17,
        GlCommand::SetFlipHorizontally(_) => 18,
        GlCommand::SetDebugColor(_) => 19,
        GlCommand::SetDebugSegment(_) => 20,
        _ => -1,
    }
}

/// Executing a state change leaves every other piece of the mirror alone.
pub proof fn lemma_with_keeps(s: OpenGlState, c: GlCommand, d: GlCommand)
    requires
        is_state_change(c),
        is_state_change(d),
        item(c) != item(d),
        s.holds(c),
    ensures
        s.with(d).holds(c),
{
}

/// Each request of a list whose requests set pieces of their own holds once
/// the list has run.
pub proof fn lemma_run_holds_all(s: OpenGlState, reqs: Seq<GlCommand>)
    requires
        all_state_changes(reqs),
        forall|i: int, j: int|
            0 <= i < j < reqs.len() ==> item(#[trigger] reqs[i]) != item(#[trigger] reqs[j]),
    ensures
        forall|i: int| 0 <= i < reqs.len() ==> run(s, reqs).0.holds(#[trigger] reqs[i]),
    decreases reqs.len(),
{
    if reqs.len() > 0 {
        let r = reqs.drop_last();
        let c = reqs.last();
        assert(all_state_changes(r)) by {
            assert forall|i: int| 0 <= i < r.len() implies is_state_change(#[trigger] r[i]) by {
                assert(r[i] == reqs[i]);
            }
        }
        assert forall|i: int, j: int| 0 <= i < j < r.len() implies item(#[trigger] r[i]) != item(
            #[trigger] r[j],
        ) by {
            assert(r[i] == reqs[i] && r[j] == reqs[j]);
        }
        lemma_run_holds_all(s, r);
        let s1 = run(s, r).0;
        assert(is_state_change(reqs[reqs.len() - 1]));
        lemma_with_holds(s1, c);
        assert forall|i: int| 0 <= i < reqs.len() implies run(s, reqs).0.holds(#[trigger] reqs[i]) by {
            if i < reqs.len() - 1 {
                assert(r[i] == reqs[i]);
                assert(is_state_change(reqs[i]));
                assert(item(reqs[i]) != item(reqs[reqs.len() - 1]));
                lemma_with_keeps(s1, reqs[i], c);
            }
        }
    }
}

/// Whether `c` leaves the bound framebuffer and the bound texture alone.
pub open spec fn keeps_bindings(c: GlCommand) -> bool {
    !(c is BindFramebuffer) && !(c is BindTexture)
}

/// Requests that bind neither a framebuffer nor a texture leave the mirrored
/// bindings as they were.
pub proof fn lemma_run_keeps_bindings(s: OpenGlState, reqs: Seq<GlCommand>)
    requires
        forall|i: int| 0 <= i < reqs.len() ==> keeps_bindings(#[trigger] reqs[i]),
    ensures
        run(s, reqs).0.framebuffer == s.framebuffer,
        run(s, reqs).0.texture == s.texture,
    decreases reqs.len(),
{
    if reqs.len() > 0 {
        let r = reqs.drop_last();
        assert forall|i: int| 0 <= i < r.len() implies keeps_bindings(#[trigger] r[i]) by {
            assert(r[i] == reqs[i]);
        }
        lemma_run_keeps_bindings(s, r);
        assert(keeps_bindings(reqs[reqs.len() - 1]));
    }
}

/// Two mirrors that differ at most in their bindings agree on every request
/// that binds nothing.
pub proof fn lemma_holds_ignores_bindings(s: OpenGlState, t: OpenGlState, c: GlCommand)
    requires
        t == (OpenGlState { texture: t.texture, framebuffer: t.framebuffer, ..s }),
        keeps_bindings(c),
    ensures
        t.holds(c) == s.holds(c),
{
}

/// A list of state changes never binds nor writes beyond what the mirror records:
/// the framebuffer it leaves bound is the mirrored one, and it writes no image.
pub proof fn lemma_run_binding(s: OpenGlState, reqs: Seq<GlCommand>)
    requires
        all_state_changes(reqs),
    ensures
        crate::command::final_binding(run(s, reqs).1, s.framebuffer) == run(s, reqs).0.framebuffer,
        crate::command::writes(run(s, reqs).1, s.framebuffer) == Set::<Option<usize>>::empty(),
    decreases reqs.len(),
{
    if reqs.len() > 0 {
        let r = reqs.drop_last();
        assert(all_state_changes(r)) by {
            assert forall|i: int| 0 <= i < r.len() implies is_state_change(#[trigger] r[i]) by {
                assert(r[i] == reqs[i]);
            }
        }
        assert(is_state_change(reqs[reqs.len() - 1]));
        lemma_run_binding(s, r);
        let (s1, out) = run(s, r);
        let c = reqs.last();
        crate::command::lemma_concat(out, s1.changes(c), s.framebuffer);
        if !s1.holds(c) {
            crate::command::lemma_push(Seq::empty(), c, s1.framebuffer);
            assert(Seq::<GlCommand>::empty().push(c) =~= seq![c]);
        }
        assert(Set::<Option<usize>>::empty() + Set::<Option<usize>>::empty() =~= Set::<
            Option<usize>,
        >::empty());
    }
}

fn pair_eq(a: (u32, u32), b: (u32, u32)) -> (r: bool)
    ensures
        r == (a == b),
{
    a.0 == b.0 && a.1 == b.1
}

fn signed_pair_eq(a: (i32, i32), b: (i32, i32)) -> (r: bool)
    ensures
        r == (a == b),
{
    a.0 == b.0 && a.1 == b.1
}

fn slot_eq(a: Option<usize>, b: Option<usize>) -> (r: bool)
    ensures
        r == (a == b),
{
    match (a, b) {
        (Some(x), Some(y)) => x == y,
        (None, None) => true,
        _ => false,
    }
}

fn segment_eq(a: Option<DebugSegment>, b: DebugSegment) -> (r: bool)
    ensures
        r == (a == Some(b)),
{
    match a {
        Some(a) => signed_pair_eq(a.from, b.from) && signed_pair_eq(a.to, b.to) && pair_eq(
            a.target_dimensions,
            b.target_dimensions,
        ),
        None => false,
    }
}

impl OpenGlState {
    /// The mirror of the state that [`OpenGlState::new`] sets up.
    pub open spec fn initial(program: u32, vao: u32, window_dimensions: (u32, u32)) -> OpenGlState {
        OpenGlState {
            program,
            vao,
            target_dimensions: window_dimensions,
            viewport_dimensions: window_dimensions,
            blend_mode: BlendMode::Alpha,
            depth_active: false,
            depth: 0,
            framebuffer: None,
            texture: None,
            source_scale: (1, 1),
            source_rotation: 0,
            color_modulation: [[0u32, 0, 0, 0], [0u32, 0, 0, 0], [0u32, 0, 0, 0], [0u32, 0, 0, 0]],
            source_texture_dimensions: (128, 128),
            source_texture_offset: (0, 0),
            source_position: (0, 0),
            source_dimensions: (128, 128),
            invert_color: false,
            flip_vertically: false,
            flip_horizontally: false,
            debug_color: Rgba { r: 0, g: 0, b: 0, a: 0 },
            debug_segment: None,
        }
    }

    /// The commands that [`OpenGlState::new`] issues: every mirrored value
    /// that the GPU does not start with.
    pub open spec fn initial_commands(program: u32, vao: u32, window_dimensions: (u32, u32)) -> Seq<
        GlCommand,
    > {
        seq![
            GlCommand::UseProgram(program),
            GlCommand::BindVertexArray(vao),
            GlCommand::SetTargetDimensions(window_dimensions),
            GlCommand::SetViewport(window_dimensions),
            GlCommand::SetBlendMode(BlendMode::Alpha),
            GlCommand::DisableDepthTest,
            GlCommand::SetDepth(0),
            GlCommand::BindFramebuffer(None),
            GlCommand::BindTexture(None),
            GlCommand::SetSourceScale((1, 1)),
            GlCommand::SetSourceRotation(0),
            GlCommand::SetSourceTextureDimensions((128, 128)),
            GlCommand::SetSourceTextureOffset((0, 0)),
            GlCommand::SetSourcePosition((0, 0)),
            GlCommand::SetSourceDimensions((128, 128)),
            GlCommand::SetInvertColor(false),
            GlCommand::SetFlipVertically(false),
            GlCommand::SetFlipHorizontally(false),
        ]
    }

    /// Sets the GPU's state to known values, with `program` and `vao` bound,
    /// and returns its mirror.
    pub fn new(program: u32, vao: u32, window_dimensions: (u32, u32), out: &mut Vec<GlCommand>) -> (r:
        Self)
        ensures
            r == OpenGlState::initial(program, vao, window_dimensions),
            final(out)@ == old(out)@ + OpenGlState::initial_commands(program, vao, window_dimensions),
    {
        let ghost start = out@;
        out.push(GlCommand::UseProgram(program));
        out.push(GlCommand::BindVertexArray(vao));
        out.push(GlCommand::SetTargetDimensions(window_dimensions));
        out.push(GlCommand::SetViewport(window_dimensions));
        out.push(GlCommand::SetBlendMode(BlendMode::Alpha));
        out.push(GlCommand::DisableDepthTest);
        out.push(GlCommand::SetDepth(0));
        out.push(GlCommand::BindFramebuffer(None));
        out.push(GlCommand::BindTexture(None));
        out.push(GlCommand::SetSourceScale((1, 1)));
        out.push(GlCommand::SetSourceRotation(0));
        out.push(GlCommand::SetSourceTextureDimensions((128, 128)));
        out.push(GlCommand::SetSourceTextureOffset((0, 0)));
        out.push(GlCommand::SetSourcePosition((0, 0)));
        out.push(GlCommand::SetSourceDimensions((128, 128)));
        out.push(GlCommand::SetInvertColor(false));
        out.push(GlCommand::SetFlipVertically(false));
        out.push(GlCommand::SetFlipHorizontally(false));
        assert(out@ =~= start + OpenGlState::initial_commands(program, vao, window_dimensions));
        let r = OpenGlState {
            program,
            vao,
            target_dimensions: window_dimensions,
            viewport_dimensions: window_dimensions,
            blend_mode: BlendMode::Alpha,
            depth_active: false,
            depth: 0,
            framebuffer: None,
            texture: None,
            source_scale: (1, 1),
            source_rotation: 0,
            color_modulation: [[0u32, 0, 0, 0], [0u32, 0, 0, 0], [0u32, 0, 0, 0], [0u32, 0, 0, 0]],
            source_texture_dimensions: (128, 128),
            source_texture_offset: (0, 0),
            source_position: (0, 0),
            source_dimensions: (128, 128),
            invert_color: false,
            flip_vertically: false,
            flip_horizontally: false,
            debug_color: Rgba { r: 0, g: 0, b: 0, a: 0 },
            debug_segment: None,
        };
        r
    }

    /// Requests the state change `c`: issues it and records its value, unless
    /// the value is already in place.
    pub fn update(&mut self, c: &GlCommand, out: &mut Vec<GlCommand>)
        requires
            is_state_change(*c),
        ensures
            *final(self) == old(self).with(*c),
            final(out)@ == old(out)@ + old(self).changes(*c),
    {
        let ghost start = out@;
        let fresh = match c {
            GlCommand::UseProgram(v) => {
                let d = self.program != *v;
                self.program = *v;
                d
            },
            GlCommand::BindVertexArray(v) => {
                let d = self.vao != *v;
                self.vao = *v;
                d
            },
            GlCommand::SetTargetDimensions(v) => {
                let d = !pair_eq(self.target_dimensions, *v);
                self.target_dimensions = *v;
                d
            },
            GlCommand::SetViewport(v) => {
                let d = !pair_eq(self.viewport_dimensions, *v);
                self.viewport_dimensions = *v;
                d
            },
            GlCommand::SetBlendMode(v) => {
                let d = self.blend_mode != *v;
                self.blend_mode = *v;
                d
            },
            GlCommand::EnableDepthTest => {
                let d = !self.depth_active;
                self.depth_active = true;
                d
            },
            GlCommand::DisableDepthTest => {
                let d = self.depth_active;
                self.depth_active = false;
                d
            },
            GlCommand::SetDepth(v) => {
                let d = self.depth != *v;
                self.depth = *v;
                d
            },
            GlCommand::BindFramebuffer(v) => {
                let d = !slot_eq(self.framebuffer, *v);
                self.framebuffer = *v;
                d
            },
            GlCommand::BindTexture(v) => {
                let d = !slot_eq(self.texture, *v);
                self.texture = *v;
                d
            },
            GlCommand::SetSourceScale(v) => {
                let d = !pair_eq(self.source_scale, *v);
                self.source_scale = *v;
                d
            },
            GlCommand::SetSourceRotation(v) => {
                let d = self.source_rotation != *v;
                self.source_rotation = *v;
                d
            },
            GlCommand::SetColorModulation(v) => {
                let d = !matrix_eq(&self.color_modulation, v);
                self.color_modulation = *v;
                d
            },
            GlCommand::SetSourceTextureDimensions(v) => {
                let d = !pair_eq(self.source_texture_dimensions, *v);
                self.source_texture_dimensions = *v;
                d
            },
            GlCommand::SetSourceTextureOffset(v) => {
                let d = !pair_eq(self.source_texture_offset, *v);
                self.source_texture_offset = *v;
                d
            },
            GlCommand::SetSourcePosition(v) => {
                let d = !signed_pair_eq(self.source_position, *v);
                self.source_position = *v;
                d
            },
            GlCommand::SetSourceDimensions(v) => {
                let d = !pair_eq(self.source_dimensions, *v);
                self.source_dimensions = *v;
                d
            },
            GlCommand::SetInvertColor(v) => {
                let d = self.invert_color != *v;
                self.invert_color = *v;
                d
            },
            GlCommand::SetFlipVertically(v) => {
                let d = self.flip_vertically != *v;
                self.flip_vertically = *v;
                d
            },
            GlCommand::SetFlipHorizontally(v) => {
                let d = self.flip_horizontally != *v;
                self.flip_horizontally = *v;
                d
            },
            GlCommand::SetDebugColor(v) => {
                let d = self.debug_color != *v;
                self.debug_color = *v;
                d
            },
            GlCommand::SetDebugSegment(v) => {
                let d = !segment_eq(self.debug_segment, *v);
                self.debug_segment = Some(*v);
                d
            },
            _ => false,
        };
        if fresh {
            out.push(copy_state_change(c));
            assert(out@ =~= start + seq![*c]);
        } else {
            assert(out@ =~= start + Seq::<GlCommand>::empty());
        }
    }

    /// Makes `program` current, unless the mirror shows it in place.
    pub fn update_program(&mut self, program: u32, out: &mut Vec<GlCommand>)
        ensures
            *final(self) == old(self).with(GlCommand::UseProgram(program)),
            final(out)@ == old(out)@ + old(self).changes(GlCommand::UseProgram(program)),
    {
        self.update(&GlCommand::UseProgram(program), out)
    }

    /// Binds the vertex array `vao`, unless the mirror shows it in place.
    pub fn update_vao(&mut self, vao: u32, out: &mut Vec<GlCommand>)
        ensures
            *final(self) == old(self).with(GlCommand::BindVertexArray(vao)),
            final(out)@ == old(out)@ + old(self).changes(GlCommand::BindVertexArray(vao)),
    {
        self.update(&GlCommand::BindVertexArray(vao), out)
    }

    /// Sets the dimensions of the target in pixels, unless the mirror shows it in place.
    pub fn update_target_dimensions(&mut self, target_dimensions: (u32, u32), out: &mut Vec<GlCommand>)
        ensures
            *final(self) == old(self).with(GlCommand::SetTargetDimensions(target_dimensions)),
            final(out)@ == old(out)@ + old(self).changes(GlCommand::SetTargetDimensions(target_dimensions)),
    {
        self.update(&GlCommand::SetTargetDimensions(target_dimensions), out)
    }

    /// Sets the size of the viewport, unless the mirror shows it in place.
    pub fn update_viewport_dimensions(&mut self, viewport_dimensions: (u32, u32), out: &mut Vec<GlCommand>)
        ensures
            *final(self) == old(self).with(GlCommand::SetViewport(viewport_dimensions)),
            final(out)@ == old(out)@ + old(self).changes(GlCommand::SetViewport(viewport_dimensions)),
    {
        self.update(&GlCommand::SetViewport(viewport_dimensions), out)
    }

    /// Sets the blend function, unless the mirror shows it in place.
    pub fn update_blend_mode(&mut self, blend_mode: BlendMode, out: &mut Vec<GlCommand>)
        ensures
            *final(self) == old(self).with(GlCommand::SetBlendMode(blend_mode)),
            final(out)@ == old(out)@ + old(self).changes(GlCommand::SetBlendMode(blend_mode)),
    {
        self.update(&GlCommand::SetBlendMode(blend_mode), out)
    }

    /// Binds the framebuffer of a texture slot, or the window's for `None`, unless the mirror shows it in place.
    pub fn update_framebuffer(&mut self, framebuffer: Option<usize>, out: &mut Vec<GlCommand>)
        ensures
            *final(self) == old(self).with(GlCommand::BindFramebuffer(framebuffer)),
            final(out)@ == old(out)@ + old(self).changes(GlCommand::BindFramebuffer(framebuffer)),
    {
        self.update(&GlCommand::BindFramebuffer(framebuffer), out)
    }

    /// Binds the texture of a slot, unless the mirror shows it in place.
    pub fn update_texture(&mut self, texture: Option<usize>, out: &mut Vec<GlCommand>)
        ensures
            *final(self) == old(self).with(GlCommand::BindTexture(texture)),
            final(out)@ == old(out)@ + old(self).changes(GlCommand::BindTexture(texture)),
    {
        self.update(&GlCommand::BindTexture(texture), out)
    }

    /// Sets the scale of the drawn texture, unless the mirror shows it in place.
    pub fn update_source_scale(&mut self, source_scale: (u32, u32), out: &mut Vec<GlCommand>)
        ensures
            *final(self) == old(self).with(GlCommand::SetSourceScale(source_scale)),
            final(out)@ == old(out)@ + old(self).changes(GlCommand::SetSourceScale(source_scale)),
    {
        self.update(&GlCommand::SetSourceScale(source_scale), out)
    }

    /// Sets the rotation of the drawn texture, in degrees, unless the mirror shows it in place.
    pub fn update_source_rotation(&mut self, source_rotation: i32, out: &mut Vec<GlCommand>)
        ensures
            *final(self) == old(self).with(GlCommand::SetSourceRotation(source_rotation)),
            final(out)@ == old(out)@ + old(self).changes(GlCommand::SetSourceRotation(source_rotation)),
    {
        self.update(&GlCommand::SetSourceRotation(source_rotation), out)
    }

    /// Sets the color modulation matrix, unless the mirror shows it in place.
    pub fn update_color_modulation(&mut self, color_modulation: ColorMatrix, out: &mut Vec<GlCommand>)
        ensures
            *final(self) == old(self).with(GlCommand::SetColorModulation(color_modulation)),
            final(out)@ == old(out)@ + old(self).changes(GlCommand::SetColorModulation(color_modulation)),
    {
        self.update(&GlCommand::SetColorModulation(color_modulation), out)
    }

    /// Sets the dimensions of the whole source texture, unless the mirror shows it in place.
    pub fn update_source_texture_dimensions(&mut self, source_texture_dimensions: (u32, u32), out: &mut Vec<GlCommand>)
        ensures
            *final(self) == old(self).with(GlCommand::SetSourceTextureDimensions(source_texture_dimensions)),
            final(out)@ == old(out)@ + old(self).changes(GlCommand::SetSourceTextureDimensions(source_texture_dimensions)),
    {
        self.update(&GlCommand::SetSourceTextureDimensions(source_texture_dimensions), out)
    }

    /// Sets the offset of the drawn part of the source texture, unless the mirror shows it in place.
    pub fn update_source_texture_offset(&mut self, source_texture_offset: (u32, u32), out: &mut Vec<GlCommand>)
        ensures
            *final(self) == old(self).with(GlCommand::SetSourceTextureOffset(source_texture_offset)),
            final(out)@ == old(out)@ + old(self).changes(GlCommand::SetSourceTextureOffset(source_texture_offset)),
    {
        self.update(&GlCommand::SetSourceTextureOffset(source_texture_offset), out)
    }

    /// Sets the position of the drawn texture on the target, unless the mirror shows it in place.
    pub fn update_source_position(&mut self, source_position: (i32, i32), out: &mut Vec<GlCommand>)
        ensures
            *final(self) == old(self).with(GlCommand::SetSourcePosition(source_position)),
            final(out)@ == old(out)@ + old(self).changes(GlCommand::SetSourcePosition(source_position)),
    {
        self.update(&GlCommand::SetSourcePosition(source_position), out)
    }

    /// Sets the dimensions of the drawn part of the source texture, unless the mirror shows it in place.
    pub fn update_source_dimensions(&mut self, source_dimensions: (u32, u32), out: &mut Vec<GlCommand>)
        ensures
            *final(self) == old(self).with(GlCommand::SetSourceDimensions(source_dimensions)),
            final(out)@ == old(out)@ + old(self).changes(GlCommand::SetSourceDimensions(source_dimensions)),
    {
        self.update(&GlCommand::SetSourceDimensions(source_dimensions), out)
    }

    /// Sets whether colors are inverted, unless the mirror shows it in place.
    pub fn update_invert_color(&mut self, invert_color: bool, out: &mut Vec<GlCommand>)
        ensures
            *final(self) == old(self).with(GlCommand::SetInvertColor(invert_color)),
            final(out)@ == old(out)@ + old(self).changes(GlCommand::SetInvertColor(invert_color)),
    {
        self.update(&GlCommand::SetInvertColor(invert_color), out)
    }

    /// Sets whether the drawn texture is flipped on the y axis, unless the mirror shows it in place.
    pub fn update_flip_vertically(&mut self, flip_vertically: bool, out: &mut Vec<GlCommand>)
        ensures
            *final(self) == old(self).with(GlCommand::SetFlipVertically(flip_vertically)),
            final(out)@ == old(out)@ + old(self).changes(GlCommand::SetFlipVertically(flip_vertically)),
    {
        self.update(&GlCommand::SetFlipVertically(flip_vertically), out)
    }

    /// Sets whether the drawn texture is flipped on the x axis, unless the mirror shows it in place.
    pub fn update_flip_horizontally(&mut self, flip_horizontally: bool, out: &mut Vec<GlCommand>)
        ensures
            *final(self) == old(self).with(GlCommand::SetFlipHorizontally(flip_horizontally)),
            final(out)@ == old(out)@ + old(self).changes(GlCommand::SetFlipHorizontally(flip_horizontally)),
    {
        self.update(&GlCommand::SetFlipHorizontally(flip_horizontally), out)
    }

    /// Sets the color of debug lines, unless the mirror shows it in place.
    pub fn update_debug_color(&mut self, debug_color: Rgba, out: &mut Vec<GlCommand>)
        ensures
            *final(self) == old(self).with(GlCommand::SetDebugColor(debug_color)),
            final(out)@ == old(out)@ + old(self).changes(GlCommand::SetDebugColor(debug_color)),
    {
        self.update(&GlCommand::SetDebugColor(debug_color), out)
    }

    /// Sets the endpoints of debug lines, unless the mirror shows it in place.
    pub fn update_debug_start_end(&mut self, segment: DebugSegment, out: &mut Vec<GlCommand>)
        ensures
            *final(self) == old(self).with(GlCommand::SetDebugSegment(segment)),
            final(out)@ == old(out)@ + old(self).changes(GlCommand::SetDebugSegment(segment)),
    {
        self.update(&GlCommand::SetDebugSegment(segment), out)
    }

    /// Disables the depth test, unless the mirror shows it in place.
    pub fn disable_depth(&mut self, out: &mut Vec<GlCommand>)
        ensures
            *final(self) == old(self).with(GlCommand::DisableDepthTest),
            final(out)@ == old(out)@ + old(self).changes(GlCommand::DisableDepthTest),
    {
        self.update(&GlCommand::DisableDepthTest, out)
    }

    /// The requests that `update_depth` makes: the depth test on and the
    /// depth value for `Some`, the depth test off for `None`.
    pub open spec fn depth_requests(depth: Option<u32>) -> Seq<GlCommand> {
        match depth {
            Some(d) => seq![GlCommand::EnableDepthTest, GlCommand::SetDepth(d)],
            None => seq![GlCommand::DisableDepthTest],
        }
    }

    /// Enables the depth test at `depth`, or disables it for `None`; whether the
    /// test is on is mirrored apart from the depth value.
    pub fn update_depth(&mut self, depth: Option<u32>, out: &mut Vec<GlCommand>)
        ensures
            *final(self) == run(*old(self), OpenGlState::depth_requests(depth)).0,
            final(out)@ == old(out)@ + run(*old(self), OpenGlState::depth_requests(depth)).1,
    {
        let mut reqs: Vec<GlCommand> = Vec::new();
        match depth {
            Some(d) => {
                reqs.push(GlCommand::EnableDepthTest);
                reqs.push(GlCommand::SetDepth(d));
            },
            None => {
                reqs.push(GlCommand::DisableDepthTest);
            },
        }
        assert(reqs@ =~= OpenGlState::depth_requests(depth));
        self.apply(&reqs, out);
    }

    /// Requests each of `reqs` in turn.
    pub fn apply(&mut self, reqs: &Vec<GlCommand>, out: &mut Vec<GlCommand>)
        requires
            all_state_changes(reqs@),
        ensures
            *final(self) == run(*old(self), reqs@).0,
            final(out)@ == old(out)@ + run(*old(self), reqs@).1,
    {
        let ghost s0 = *self;
        let ghost o0 = out@;
        let mut i: usize = 0;
        assert(reqs@.take(0) =~= Seq::<GlCommand>::empty());
        assert(o0 + Seq::<GlCommand>::empty() =~= o0);
        while i < reqs.len()
            invariant
                0 <= i <= reqs@.len(),
                all_state_changes(reqs@),
                *self == run(s0, reqs@.take(i as int)).0,
                out@ == o0 + run(s0, reqs@.take(i as int)).1,
            decreases reqs@.len() - i,
        {
            let ghost prev = out@;
            self.update(&reqs[i], out);
            proof {
                lemma_run_push(s0, reqs@.take(i as int), reqs@[i as int]);
                assert(reqs@.take(i as int).push(reqs@[i as int]) =~= reqs@.take(i + 1));
                let r = run(s0, reqs@.take(i as int));
                assert(o0 + r.1 + r.0.changes(reqs@[i as int]) =~= o0 + (r.1 + r.0.changes(
                    reqs@[i as int],
                )));
            }
            i += 1;
        }
        assert(reqs@.take(i as int) =~= reqs@);
    }
}

/// A copy of a state change; state changes hold only plain values.
fn copy_state_change(c: &GlCommand) -> (r: GlCommand)
    requires
        is_state_change(*c),
    ensures
        r == *c,
{
    match c {
        GlCommand::UseProgram(v) => GlCommand::UseProgram(*v),
        GlCommand::BindVertexArray(v) => GlCommand::BindVertexArray(*v),
        GlCommand::SetTargetDimensions(v) => GlCommand::SetTargetDimensions(*v),
        GlCommand::SetViewport(v) => GlCommand::SetViewport(*v),
        GlCommand::SetBlendMode(v) => GlCommand::SetBlendMode(*v),
        GlCommand::EnableDepthTest => GlCommand::EnableDepthTest,
        GlCommand::DisableDepthTest => GlCommand::DisableDepthTest,
        GlCommand::SetDepth(v) => GlCommand::SetDepth(*v),
        GlCommand::BindFramebuffer(v) => GlCommand::BindFramebuffer(*v),
        GlCommand::BindTexture(v) => GlCommand::BindTexture(*v),
        GlCommand::SetSourceScale(v) => GlCommand::SetSourceScale(*v),
        GlCommand::SetSourceRotation(v) => GlCommand::SetSourceRotation(*v),
        GlCommand::SetColorModulation(v) => GlCommand::SetColorModulation(*v),
        GlCommand::SetSourceTextureDimensions(v) => GlCommand::SetSourceTextureDimensions(*v),
        GlCommand::SetSourceTextureOffset(v) => GlCommand::SetSourceTextureOffset(*v),
        GlCommand::SetSourcePosition(v) => GlCommand::SetSourcePosition(*v),
        GlCommand::SetSourceDimensions(v) => GlCommand::SetSourceDimensions(*v),
        GlCommand::SetInvertColor(v) => GlCommand::SetInvertColor(*v),
        GlCommand::SetFlipVertically(v) => GlCommand::SetFlipVertically(*v),
        GlCommand::SetFlipHorizontally(v) => GlCommand::SetFlipHorizontally(*v),
        GlCommand::SetDebugColor(v) => GlCommand::SetDebugColor(*v),
        GlCommand::SetDebugSegment(v) => GlCommand::SetDebugSegment(*v),
        _ => GlCommand::DisableDepthTest,
    }
}

} // verus!
