use vstd::prelude::*;

use crate::config::{BlendMode, ColorMatrix, DebugSegment, Rgba};

verus! {

/// One step for the GPU, executed in order by the embedding program.
///
/// Textures and their framebuffers are named by their slot in the texture
/// arena; `None` as a framebuffer is the window, `None` as a texture is no
/// texture. Programs and vertex arrays are named by the names the GPU gave
/// them.
#[derive(Debug, PartialEq, Eq)]
pub enum GlCommand {
    /// Makes the program current.
    UseProgram(u32),
    /// Binds the vertex array.
    BindVertexArray(u32),
    /// Sets the `target_dimensions` uniform.
    SetTargetDimensions((u32, u32)),
    /// Sets the viewport to `(0, 0)` and the given size.
    SetViewport((u32, u32)),
    /// Sets the blend function.
    SetBlendMode(BlendMode),
    /// Enables the depth test.
    EnableDepthTest,
    /// Disables the depth test.
    DisableDepthTest,
    /// Sets the `depth` uniform to the float with this bit pattern.
    SetDepth(u32),
    /// Binds the framebuffer of a texture slot, or the window's.
    BindFramebuffer(Option<usize>),
    /// Binds the texture of a slot to the 2D texture target.
    BindTexture(Option<usize>),
    /// Sets the `source_scale` uniform.
    SetSourceScale((u32, u32)),
    /// Sets the `source_rotation` uniform to a rotation by this many degrees.
    SetSourceRotation(i32),
    /// Sets the `color_modulation` uniform.
    SetColorModulation(ColorMatrix),
    /// Sets the `source_texture_dimensions` uniform.
    SetSourceTextureDimensions((u32, u32)),
    /// Sets the `source_texture_offset` uniform.
    SetSourceTextureOffset((u32, u32)),
    /// Sets the `source_position` uniform.
    SetSourcePosition((i32, i32)),
    /// Sets the `source_dimensions` uniform.
    SetSourceDimensions((u32, u32)),
    /// Sets the `invert_color` uniform.
    SetInvertColor(bool),
    /// Sets the `flip_vertically` uniform.
    SetFlipVertically(bool),
    /// Sets the `flip_horizontally` uniform.
    SetFlipHorizontally(bool),
    /// Sets the `line_color` uniform of the debug program.
    SetDebugColor(Rgba),
    /// Sets the `start_end` uniform of the debug program from the segment.
    SetDebugSegment(DebugSegment),
    /// Creates a texture object for the slot.
    CreateTexture(usize),
    /// Gives the slot's texture, which is bound, its nearest-neighbour,
    /// edge-clamped RGBA8 image of the given size: the rows of `pixels`, bottom
    /// row first, or undefined contents.
    DefineTexture { slot: usize, dimensions: (u32, u32), pixels: Option<Vec<u8>> },
    /// Creates a framebuffer object for the slot.
    CreateFramebuffer(usize),
    /// Attaches the slot's texture and a new depth buffer of the given size to
    /// the bound framebuffer, checks that it is complete and clears its depth.
    AttachRenderTarget { slot: usize, dimensions: (u32, u32) },
    /// Fills the color buffer of the bound framebuffer.
    ClearColor(Rgba),
    /// Resets the depth buffer of the bound framebuffer to `1.0`.
    ClearDepth,
    /// Draws the unit quad with the main program as a triangle strip of four vertices.
    DrawQuad,
    /// Draws a line strip of `vertices` vertices with the debug program.
    DrawDebug { vertices: u32 },
    /// Deletes the slot's texture and, if it has one, its framebuffer and depth buffer.
    DeleteTexture { slot: usize, has_framebuffer: bool },
}

/// The framebuffer bound after `c`, where `bound` was bound before.
/// Deleting a bound framebuffer falls back to the window's.
pub open spec fn binding_after(c: GlCommand, bound: Option<usize>) -> Option<usize> {
    match c {
        GlCommand::BindFramebuffer(f) => f,
        GlCommand::DeleteTexture { slot, has_framebuffer } => {
            if has_framebuffer && bound == Some(slot) {
                None
            } else {
                bound
            }
        },
        _ => bound,
    }
}

/// The images whose pixels `c` changes, where `bound` is the bound framebuffer.
pub open spec fn command_writes(c: GlCommand, bound: Option<usize>) -> Set<Option<usize>> {
    match c {
        GlCommand::ClearColor(_) => set![bound],
        GlCommand::ClearDepth => set![bound],
        GlCommand::DrawQuad => set![bound],
        GlCommand::DrawDebug { .. } => set![bound],
        GlCommand::AttachRenderTarget { .. } => set![bound],
        GlCommand::DefineTexture { slot, .. } => set![Some(slot)],
        _ => Set::empty(),
    }
}

/// The framebuffer bound after all of `cmds`, starting from `bound`.
pub open spec fn final_binding(cmds: Seq<GlCommand>, bound: Option<usize>) -> Option<usize>
    decreases cmds.len(),
{
    if cmds.len() == 0 {
        bound
    } else {
        binding_after(cmds.last(), final_binding(cmds.drop_last(), bound))
    }
}

/// The images whose pixels some command of `cmds` changes, starting from `bound`.
pub open spec fn writes(cmds: Seq<GlCommand>, bound: Option<usize>) -> Set<Option<usize>>
    decreases cmds.len(),
{
    if cmds.len() == 0 {
        Set::empty()
    } else {
        writes(cmds.drop_last(), bound) + command_writes(
            cmds.last(),
            final_binding(cmds.drop_last(), bound),
        )
    }
}

/// Running two lists one after the other binds and writes what their
/// concatenation does.
pub proof fn lemma_concat(a: Seq<GlCommand>, b: Seq<GlCommand>, bound: Option<usize>)
    ensures
        final_binding(a + b, bound) == final_binding(b, final_binding(a, bound)),
        writes(a + b, bound) == writes(a, bound) + writes(b, final_binding(a, bound)),
    decreases b.len(),
{
    if b.len() == 0 {
        assert(a + b =~= a);
        assert(writes(a, bound) + Set::empty() =~= writes(a, bound));
    } else {
        lemma_concat(a, b.drop_last(), bound);
        assert((a + b).drop_last() =~= a + b.drop_last());
        assert((a + b).last() == b.last());
        let w1 = writes(a, bound);
        let w2 = writes(b.drop_last(), final_binding(a, bound));
        let w3 = command_writes(b.last(), final_binding(b.drop_last(), final_binding(a, bound)));
        assert(w1 + w2 + w3 =~= w1 + (w2 + w3));
    }
}

/// One command appended to a list.
pub proof fn lemma_push(a: Seq<GlCommand>, c: GlCommand, bound: Option<usize>)
    ensures
        final_binding(a.push(c), bound) == binding_after(c, final_binding(a, bound)),
        writes(a.push(c), bound) == writes(a, bound) + command_writes(c, final_binding(a, bound)),
{
    assert(a.push(c).drop_last() =~= a);
}

} // verus!
