use crow::{BlendMode, DebugSegment, GlCommand, OpenGlState, Rgba, ONE_BITS};

fn fresh() -> (OpenGlState, Vec<GlCommand>) {
    let mut out = Vec::new();
    let state = OpenGlState::new(7, 9, (800, 600), &mut out);
    (state, out)
}

#[test]
fn new_state_issues_setup() {
    let (state, out) = fresh();
    assert_eq!(out.len(), 18);
    assert_eq!(out[0], GlCommand::UseProgram(7));
    assert_eq!(out[1], GlCommand::BindVertexArray(9));
    assert_eq!(out[7], GlCommand::BindFramebuffer(None));
    assert_eq!(state.program, 7);
    assert_eq!(state.framebuffer, None);
}

#[test]
fn repeated_update_issues_one_command() {
    let (mut state, _) = fresh();
    let mut out = Vec::new();
    state.update_program(3, &mut out);
    state.update_program(3, &mut out);
    assert_eq!(out, vec![GlCommand::UseProgram(3)]);

    let mut out = Vec::new();
    state.update_source_position((5, -2), &mut out);
    state.update_source_position((5, -2), &mut out);
    state.update_framebuffer(Some(4), &mut out);
    state.update_framebuffer(Some(4), &mut out);
    assert_eq!(
        out,
        vec![GlCommand::SetSourcePosition((5, -2)), GlCommand::BindFramebuffer(Some(4))]
    );
}

#[test]
fn update_to_cached_value_issues_nothing() {
    let (mut state, _) = fresh();
    let mut out = Vec::new();
    state.update_program(7, &mut out);
    state.update_vao(9, &mut out);
    state.update_blend_mode(BlendMode::Alpha, &mut out);
    state.update_source_scale((1, 1), &mut out);
    state.disable_depth(&mut out);
    assert!(out.is_empty());
}

#[test]
fn depth_toggle_is_cached_apart_from_value() {
    let (mut state, _) = fresh();
    let mut out = Vec::new();
    state.update_depth(Some(0x3F00_0000), &mut out);
    state.update_depth(Some(0x3F00_0000), &mut out);
    state.update_depth(Some(0x3E80_0000), &mut out);
    state.update_depth(None, &mut out);
    state.update_depth(Some(0x3E80_0000), &mut out);
    assert_eq!(
        out,
        vec![
            GlCommand::EnableDepthTest,
            GlCommand::SetDepth(0x3F00_0000),
            GlCommand::SetDepth(0x3E80_0000),
            GlCommand::DisableDepthTest,
            GlCommand::EnableDepthTest,
        ]
    );
}

#[test]
fn color_matrix_compares_every_entry() {
    let (mut state, _) = fresh();
    let mut out = Vec::new();
    let mut m = [[0u32; 4]; 4];
    state.update_color_modulation(m, &mut out);
    assert!(out.is_empty());
    m[3][2] = ONE_BITS;
    state.update_color_modulation(m, &mut out);
    state.update_color_modulation(m, &mut out);
    assert_eq!(out, vec![GlCommand::SetColorModulation(m)]);
}

#[test]
fn debug_uniforms_are_cached() {
    let (mut state, _) = fresh();
    let mut out = Vec::new();
    let seg = DebugSegment { from: (0, 0), to: (0, 0), target_dimensions: (0, 0) };
    state.update_debug_start_end(seg, &mut out);
    state.update_debug_start_end(seg, &mut out);
    let c = Rgba { r: ONE_BITS, g: 0, b: 0, a: ONE_BITS };
    state.update_debug_color(c, &mut out);
    state.update_debug_color(c, &mut out);
    assert_eq!(out, vec![GlCommand::SetDebugSegment(seg), GlCommand::SetDebugColor(c)]);
}
