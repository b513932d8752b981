use crow::{
    check_texture_size, Backend, BlendMode, DebugProgram, DrawConfig, DrawTarget, GlCommand,
    GlConstants, NewTextureError, Program, Rgba, Texture, WindowSurface, ONE_BITS,
};

const HALF_BITS: u32 = 0x3F00_0000;

fn backend() -> Backend {
    let mut b = Backend::initialize(
        Program { id: 1, vao: 2 },
        DebugProgram { id: 3, vao: [4, 5] },
        (720, 480),
        1,
        GlConstants { max_texture_size: (64, 64) },
    );
    b.take_commands();
    b
}

fn red() -> Rgba {
    Rgba { r: ONE_BITS, g: 0, b: 0, a: ONE_BITS }
}

fn green() -> Rgba {
    Rgba { r: 0, g: ONE_BITS, b: 0, a: ONE_BITS }
}

fn blue() -> Rgba {
    Rgba { r: 0, g: 0, b: ONE_BITS, a: ONE_BITS }
}

/// The framebuffers that each `ClearColor`, `DrawQuad` and `DrawDebug` of
/// `cmds` writes to, starting from `bound`.
fn written(cmds: &[GlCommand], mut bound: Option<usize>) -> Vec<(Option<usize>, GlCommand)> {
    let mut out = Vec::new();
    for c in cmds {
        match c {
            GlCommand::BindFramebuffer(f) => bound = *f,
            GlCommand::ClearColor(_) | GlCommand::DrawQuad | GlCommand::DrawDebug { .. } => {
                out.push((bound, copy_write(c)))
            }
            _ => {}
        }
    }
    out
}

fn copy_write(c: &GlCommand) -> GlCommand {
    match c {
        GlCommand::ClearColor(color) => GlCommand::ClearColor(*color),
        GlCommand::DrawQuad => GlCommand::DrawQuad,
        GlCommand::DrawDebug { vertices } => GlCommand::DrawDebug { vertices: *vertices },
        _ => panic!("not a pixel write: {:?}", c),
    }
}

#[test]
fn size_validation() {
    let mut b = backend();
    for dims in [(0, 5), (5, 0), (65, 1), (1, 65), (0, 0), (65, 65)] {
        match Texture::new(&mut b, dims) {
            Err(NewTextureError::InvalidTextureSize { width, height }) => {
                assert_eq!((width, height), dims)
            }
            Ok(_) => panic!("accepted {:?}", dims),
        }
    }
    assert!(b.take_commands().is_empty());
    assert!(Texture::new(&mut b, (1, 1)).is_ok());
    assert!(Texture::new(&mut b, (64, 64)).is_ok());
    assert_eq!(check_texture_size((64, 64), (64, 64)), Ok(()));
    assert_eq!(
        check_texture_size((64, 65), (64, 64)),
        Err(NewTextureError::InvalidTextureSize { width: 64, height: 65 })
    );
}

#[test]
fn new_texture_commands() {
    let mut b = backend();
    let t = Texture::new(&mut b, (32, 16)).unwrap();
    assert_eq!(t.dimensions(), (32, 16));
    assert_eq!((t.width(), t.height()), (32, 16));
    let s = t.slot();
    assert_eq!(
        b.take_commands(),
        vec![
            GlCommand::CreateTexture(s),
            GlCommand::BindTexture(Some(s)),
            GlCommand::DefineTexture { slot: s, dimensions: (32, 16), pixels: None },
        ]
    );
}

#[test]
fn from_image_uploads_rows_bottom_first() {
    let mut b = backend();
    let pixels: Vec<u8> = (0..16).collect();
    let t = Texture::from_image(&mut b, (2, 2), &pixels).unwrap();
    let cmds = b.take_commands();
    let expected: Vec<u8> = vec![8, 9, 10, 11, 12, 13, 14, 15, 0, 1, 2, 3, 4, 5, 6, 7];
    assert_eq!(
        cmds.last(),
        Some(&GlCommand::DefineTexture {
            slot: t.slot(),
            dimensions: (2, 2),
            pixels: Some(expected)
        })
    );
}

#[test]
fn cow_sharing() {
    let mut b = backend();
    let mut original = Texture::new(&mut b, (32, 32)).unwrap();
    original.receive_clear_color(&mut b, red());
    let first = original.slot();
    assert!(b.textures[first].unwrap().has_framebuffer);
    let mut clone = original.share(&mut b);
    assert_eq!(b.textures[first].unwrap().refs, 2);
    let before = b.state.framebuffer;
    b.take_commands();
    clone.receive_clear_color(&mut b, green());
    let cmds = b.take_commands();
    assert_ne!(clone.slot(), first);
    assert_eq!(original.slot(), first);
    assert_eq!(b.textures[first].unwrap().refs, 1);
    for (fb, _) in written(&cmds, before) {
        assert_eq!(fb, Some(clone.slot()));
    }
    assert!(written(&cmds, before).contains(&(Some(clone.slot()), GlCommand::ClearColor(green()))));
    // the original, now alone, is drawn to in place
    let before = b.state.framebuffer;
    original.receive_clear_color(&mut b, blue());
    assert_eq!(original.slot(), first);
    let cmds = b.take_commands();
    assert_eq!(written(&cmds, before), vec![(Some(first), GlCommand::ClearColor(blue()))]);
}

#[test]
fn view_copy_isolation() {
    let mut b = backend();
    let big = Texture::new(&mut b, (48, 16)).unwrap();
    let mut a = big.get_section(&mut b, (0, 0), (16, 16));
    let mut bb = big.get_section(&mut b, (16, 0), (16, 16));
    let mut c = big.get_section(&mut b, (32, 0), (16, 16));
    assert_eq!(b.textures[big.slot()].unwrap().refs, 4);
    assert_eq!(bb.view_position(), (16, 0));
    a.receive_clear_color(&mut b, red());
    bb.receive_clear_color(&mut b, green());
    c.receive_clear_color(&mut b, blue());
    let slots = [a.slot(), bb.slot(), c.slot()];
    assert!(slots.iter().all(|s| *s != big.slot()));
    assert!(slots[0] != slots[1] && slots[1] != slots[2] && slots[0] != slots[2]);
    assert_eq!(b.textures[big.slot()].unwrap().refs, 1);
    b.take_commands();
    let before = b.state.framebuffer;
    c.receive_draw(&mut b, &bb, (0, 8), &DrawConfig::default());
    let flipped = DrawConfig { flip_vertically: true, ..DrawConfig::default() };
    a.receive_draw(&mut b, &c, (8, 0), &flipped);
    let cmds = b.take_commands();
    assert_eq!(
        written(&cmds, before),
        vec![(Some(slots[2]), GlCommand::DrawQuad), (Some(slots[0]), GlCommand::DrawQuad)]
    );
    assert!(cmds.contains(&GlCommand::SetFlipVertically(true)));
    assert!(cmds.contains(&GlCommand::SetSourcePosition((8, 0))));
    assert!(cmds.contains(&GlCommand::BindTexture(Some(slots[2]))));
    assert_eq!((a.slot(), bb.slot(), c.slot()), (slots[0], slots[1], slots[2]));
}

#[test]
fn depth_at_far_plane_is_drawn_and_left_to_the_depth_test() {
    let mut b = backend();
    let t = Texture::new(&mut b, (4, 4)).unwrap();
    let mut surface = WindowSurface::new();
    b.take_commands();
    let config = DrawConfig { depth: Some(ONE_BITS), ..DrawConfig::default() };
    surface.receive_draw(&mut b, &t, (1, 1), &config);
    let cmds = b.take_commands();
    assert!(cmds.contains(&GlCommand::EnableDepthTest));
    assert!(cmds.contains(&GlCommand::SetDepth(ONE_BITS)));
    assert_eq!(cmds.last(), Some(&GlCommand::DrawQuad));
    assert!(b.state.depth_active);
    // the same draw again finds every value in place
    surface.receive_draw(&mut b, &t, (1, 1), &config);
    assert_eq!(b.take_commands(), vec![GlCommand::DrawQuad]);
    let config = DrawConfig { depth: Some(HALF_BITS), ..DrawConfig::default() };
    surface.receive_draw(&mut b, &t, (1, 1), &config);
    assert_eq!(b.take_commands(), vec![GlCommand::SetDepth(HALF_BITS), GlCommand::DrawQuad]);
}

#[test]
fn empty_sections_cannot_be_drawn_to() {
    let mut b = backend();
    let t = Texture::new(&mut b, (4, 4)).unwrap();
    let empty = t.get_section(&mut b, (1, 1), (0, 3));
    assert!(t.can_receive(&b));
    assert!(!empty.can_receive(&b));
    assert!(WindowSurface::new().can_receive(&b));
    // an empty section can still be drawn from
    let mut target = Texture::new(&mut b, (2, 2)).unwrap();
    target.receive_draw(&mut b, &empty, (0, 0), &DrawConfig::default());
    assert!(b.take_commands().contains(&GlCommand::SetSourceDimensions((0, 3))));
}

#[test]
fn exclusive_texture_is_drawn_to_in_place() {
    let mut b = backend();
    let mut t = Texture::new(&mut b, (4, 4)).unwrap();
    t.receive_clear_color(&mut b, red());
    let slot = t.slot();
    b.take_commands();
    let slots_before: Vec<_> = b.textures.iter().map(|s| s.map(|r| (r.dimensions, r.refs))).collect();
    let slot_after = t.prepare_as_draw_target(&mut b);
    assert_eq!(slot_after, slot);
    assert!(b.take_commands().is_empty());
    let slots_after: Vec<_> = b.textures.iter().map(|s| s.map(|r| (r.dimensions, r.refs))).collect();
    assert_eq!(slots_before, slots_after);
    t.receive_clear_depth(&mut b);
    assert_eq!(b.take_commands(), vec![GlCommand::ClearDepth]);
}

#[test]
fn round_trip_readback() {
    let mut b = backend();
    let mut t = Texture::new(&mut b, (3, 2)).unwrap();
    let _other = Texture::new(&mut b, (1, 1)).unwrap();
    t.receive_clear_color(&mut b, red());
    b.take_commands();
    let dims = t.prepare_image_data(&mut b);
    assert_eq!(dims, (3, 2));
    assert_eq!(b.take_commands(), vec![GlCommand::BindTexture(Some(t.slot()))]);
    let data: Vec<u8> = [255u8, 0, 0, 255].iter().cycle().take(24).copied().collect();
    let image = t.get_image_data(dims, &data);
    assert_eq!(image.len(), 24);
    assert!(image.chunks(4).all(|p| p == [255, 0, 0, 255]));
}

#[test]
fn readback_crops_and_flips_a_section() {
    let mut b = backend();
    let big = Texture::new(&mut b, (3, 3)).unwrap();
    let part = big.get_section(&mut b, (1, 0), (2, 2));
    // one byte per channel, rows bottom first: row r, column x has all bytes 10 * r + x
    let mut data = Vec::new();
    for r in 0..3u8 {
        for x in 0..3u8 {
            data.extend_from_slice(&[10 * r + x; 4]);
        }
    }
    let image = part.get_image_data((3, 3), &data);
    let firsts: Vec<u8> = image.chunks(4).map(|p| p[0]).collect();
    // the section's top row is the image's top row (row 2), columns 1 and 2
    assert_eq!(firsts, vec![21, 22, 11, 12]);
}

#[test]
fn color_modulation_scenario() {
    let mut b = backend();
    let mut a = Texture::new(&mut b, (32, 32)).unwrap();
    let mut src = Texture::new(&mut b, (32, 32)).unwrap();
    a.receive_clear_color(&mut b, red());
    src.receive_clear_color(&mut b, Rgba { r: HALF_BITS, g: 0, b: HALF_BITS, a: ONE_BITS });
    b.take_commands();
    let m = [[0, 0, 0, 0], [ONE_BITS, 0, ONE_BITS, 0], [0, 0, 0, 0], [0, 0, 0, ONE_BITS]];
    let config = DrawConfig { color_modulation: m, ..DrawConfig::default() };
    let before = b.state.framebuffer;
    a.receive_draw(&mut b, &src, (16, 16), &config);
    let cmds = b.take_commands();
    assert!(cmds.contains(&GlCommand::SetColorModulation(m)));
    assert!(cmds.contains(&GlCommand::SetSourcePosition((16, 16))));
    assert!(cmds.contains(&GlCommand::SetSourceDimensions((32, 32))));
    assert!(cmds.contains(&GlCommand::SetTargetDimensions((32, 32))));
    assert_eq!(b.state.texture, Some(src.slot()));
    assert_eq!(written(&cmds, before), vec![(Some(a.slot()), GlCommand::DrawQuad)]);
    assert_eq!(b.state.blend_mode, BlendMode::Alpha);
}

#[test]
fn release_frees_and_reuses_slots() {
    let mut b = backend();
    let t = Texture::new(&mut b, (8, 8)).unwrap();
    let s = t.slot();
    let u = t.share(&mut b);
    t.release(&mut b);
    assert_eq!(b.textures[s].unwrap().refs, 1);
    b.take_commands();
    u.release(&mut b);
    assert!(b.textures[s].is_none());
    assert_eq!(
        b.take_commands(),
        vec![GlCommand::DeleteTexture { slot: s, has_framebuffer: false }]
    );
    assert_eq!(b.state.texture, None);
    let v = Texture::new(&mut b, (2, 2)).unwrap();
    assert_eq!(v.slot(), s);
}

#[test]
fn clone_as_target_copies_whole_image() {
    let mut b = backend();
    let t = Texture::new(&mut b, (5, 7)).unwrap();
    let before = b.state.framebuffer;
    b.take_commands();
    let copy = b.clone_as_target(t.slot());
    assert_ne!(copy, t.slot());
    let raw = b.textures[copy].unwrap();
    assert_eq!(raw.dimensions, (5, 7));
    assert!(raw.has_framebuffer);
    assert_eq!(raw.refs, 1);
    let cmds = b.take_commands();
    assert_eq!(
        written(&cmds, before),
        vec![
            (Some(copy), GlCommand::ClearColor(Rgba { r: 0, g: 0, b: 0, a: 0 })),
            (Some(copy), GlCommand::DrawQuad),
        ]
    );
    assert!(cmds.contains(&GlCommand::AttachRenderTarget { slot: copy, dimensions: (5, 7) }));
}

#[test]
fn finalize_frame_resets_drawn_depth_buffers() {
    let mut b = backend();
    let mut t = Texture::new(&mut b, (4, 4)).unwrap();
    let src = Texture::new(&mut b, (2, 2)).unwrap();
    t.receive_draw(&mut b, &src, (0, 0), &DrawConfig::default());
    assert!(b.textures[t.slot()].unwrap().depth_dirty);
    b.take_commands();
    b.finalize_frame();
    let cmds = b.take_commands();
    assert!(!b.textures[t.slot()].unwrap().depth_dirty);
    assert_eq!(
        cmds,
        vec![
            GlCommand::ClearDepth,
            GlCommand::BindFramebuffer(None),
            GlCommand::ClearDepth,
        ]
    );
}

#[test]
fn debug_rectangle_normalizes_corners() {
    let mut b = backend();
    let mut surface = WindowSurface::new();
    surface.receive_rectangle(&mut b, (10, 20), (2, 4), red());
    let cmds = b.take_commands();
    assert!(cmds.contains(&GlCommand::SetDebugSegment(crow::DebugSegment {
        from: (2, 4),
        to: (10, 20),
        target_dimensions: (720, 480),
    })));
    assert!(cmds.contains(&GlCommand::BindVertexArray(5)));
    assert_eq!(cmds.last(), Some(&GlCommand::DrawDebug { vertices: 5 }));
    surface.receive_line(&mut b, (10, 20), (2, 4), red());
    let cmds = b.take_commands();
    assert!(cmds.contains(&GlCommand::SetDebugSegment(crow::DebugSegment {
        from: (10, 20),
        to: (2, 4),
        target_dimensions: (720, 480),
    })));
    assert_eq!(cmds.last(), Some(&GlCommand::DrawDebug { vertices: 2 }));
}

#[test]
fn window_draw_scales_viewport_by_dpi() {
    let mut b = Backend::initialize(
        Program { id: 1, vao: 2 },
        DebugProgram { id: 3, vao: [4, 5] },
        (1440, 960),
        2,
        GlConstants { max_texture_size: (64, 64) },
    );
    assert_eq!(b.window_dimensions(), (720, 480));
    assert_eq!(b.dpi_factor(), 2);
    let t = Texture::new(&mut b, (4, 4)).unwrap();
    b.take_commands();
    WindowSurface::new().receive_draw(&mut b, &t, (0, 0), &DrawConfig::default());
    let cmds = b.take_commands();
    assert_eq!(b.state.target_dimensions, (720, 480));
    assert!(cmds.contains(&GlCommand::SetViewport((1440, 960))));
}

#[test]
fn upload_then_readback_round_trip() {
    let mut b = backend();
    let pixels: Vec<u8> = (0..24).collect();
    let t = Texture::from_image(&mut b, (3, 2), &pixels).unwrap();
    let uploaded = match b.take_commands().pop() {
        Some(GlCommand::DefineTexture { pixels: Some(p), .. }) => p,
        other => panic!("unexpected {:?}", other),
    };
    assert_ne!(uploaded, pixels);
    assert_eq!(t.get_image_data((3, 2), &uploaded), pixels);
}

#[test]
fn from_image_rejects_bad_sizes() {
    let mut b = backend();
    let pixels: Vec<u8> = Vec::new();
    assert_eq!(
        Texture::from_image(&mut b, (0, 7), &pixels).err(),
        Some(NewTextureError::InvalidTextureSize { width: 0, height: 7 })
    );
    assert!(b.take_commands().is_empty());
}
