use crow::{
    flip_rows, gather_rows, Backend, DebugProgram, DrawConfig, DrawTarget, FramePacing,
    GlCommand, GlConstants, Offset, Program, Scaled, Texture, Time, WindowSurface,
};

fn backend() -> Backend {
    let mut b = Backend::initialize(
        Program { id: 1, vao: 2 },
        DebugProgram { id: 3, vao: [4, 5] },
        (100, 100),
        1,
        GlConstants { max_texture_size: (64, 64) },
    );
    b.take_commands();
    b
}

#[test]
fn scaled_multiplies_positions_and_scale() {
    let s = Scaled::new(WindowSurface::new(), (2, 3));
    assert_eq!(s.scale_point((5, -4)), (10, -12));
    let c = s.scale_config(&DrawConfig { scale: (2, 2), ..DrawConfig::default() });
    assert_eq!(c.scale, (4, 6));
    assert_eq!(s.scale_point((i32::MAX, 0)), (i32::MAX.wrapping_mul(2), 0));
}

#[test]
fn offset_moves_the_origin() {
    let o = Offset::new(WindowSurface::new(), (10, -5));
    assert_eq!(o.offset_point((3, 3)), (-7, 8));
}

#[test]
fn decorators_forward_to_the_inner_target() {
    let mut b = backend();
    let t = Texture::new(&mut b, (4, 4)).unwrap();
    b.take_commands();
    let mut target = Offset::new(Scaled::new(WindowSurface::new(), (2, 2)), (1, 1));
    target.receive_draw(&mut b, &t, (3, 4), &DrawConfig::default());
    let cmds = b.take_commands();
    assert!(cmds.contains(&GlCommand::SetSourcePosition((4, 6))));
    assert!(cmds.contains(&GlCommand::SetSourceScale((2, 2))));
    target.receive_line(&mut b, (1, 1), (2, 3), crow::Rgba { r: 0, g: 0, b: 0, a: 0 });
    let cmds = b.take_commands();
    assert!(cmds.contains(&GlCommand::SetDebugSegment(crow::DebugSegment {
        from: (0, 0),
        to: (2, 4),
        target_dimensions: (100, 100),
    })));
}

#[test]
fn flip_rows_reverses_row_order() {
    let data: Vec<u8> = (0..12).collect();
    assert_eq!(flip_rows(&data, 4, 3), vec![8, 9, 10, 11, 4, 5, 6, 7, 0, 1, 2, 3]);
    assert_eq!(flip_rows(&Vec::new(), 4, 0), Vec::<u8>::new());
}

#[test]
fn gather_rows_takes_a_window() {
    let data: Vec<u8> = (0..12).collect();
    // rows of 4 bytes; from row 2 downward, 2 rows, bytes 1..3
    assert_eq!(gather_rows(&data, 4, 2, 2, 1, 2), vec![9, 10, 5, 6]);
}

#[test]
fn time_paces_frames() {
    let mut t = Time::new(50);
    assert_eq!(t.framerate(), 50);
    assert_eq!(t.frame(0), FramePacing::WaitUntil(20_000));
    assert_eq!(t.frame(25_000), FramePacing::WaitUntil(40_000));
    assert_eq!(t.frame(70_000), FramePacing::Restart(10_000));
    assert_eq!(t.frame(0), FramePacing::WaitUntil(20_000));
    t.restart();
    assert_eq!(t.frame(5), FramePacing::WaitUntil(20_000));
    let mut u = Time::new(0);
    assert_eq!(u.frame(123), FramePacing::Unpaced);
}

#[test]
fn constants_take_the_smallest_limit() {
    assert_eq!(GlConstants::load(4096, 2048, None).max_texture_size, (2048, 2048));
    assert_eq!(
        GlConstants::load(4096, 8192, Some((1024, 8192))).max_texture_size,
        (1024, 4096)
    );
}

#[test]
fn resize_window_recomputes_logical_size() {
    let mut b = backend();
    b.resize_window((301, 200), 3);
    assert_eq!(b.window_dimensions(), (100, 66));
    assert_eq!(b.dpi_factor(), 3);
    assert_eq!(b.constants().max_texture_size, (64, 64));
}
