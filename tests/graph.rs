use jetson_monitor::{
    ConfigError, DrawCommand, GraphGeometry, GraphRenderer, LoadStorage, Point, HISTORY_LEN,
    LOAD_SCALE,
};

fn p(x: i32, y: i32) -> Point {
    Point { x, y }
}

fn geometry(step: i32, top_left: Point, bottom_right: Point) -> GraphGeometry {
    GraphGeometry { step, top_left, bottom_right }
}

#[test]
fn dashboard_geometry_shows_the_whole_history() {
    let g = GraphGeometry::dashboard();
    assert_eq!(g.step, 5);
    assert_eq!(g.top_left, p(42, 17));
    assert_eq!(g.bottom_right, p(127, 62));
    assert_eq!(g.plotted_points(), HISTORY_LEN as u64);
    let window = LoadStorage::new(HISTORY_LEN);
    let renderer = GraphRenderer::new(g, &window).unwrap();
    assert_eq!(renderer.plotted_points(), 17);
}

#[test]
fn boundary_mapping() {
    let g = geometry(10, p(0, 0), p(40, 40));
    assert_eq!(g.y_of(0), 40);
    assert_eq!(g.y_of(LOAD_SCALE), 0);
    let d = GraphGeometry::dashboard();
    assert_eq!(d.y_of(0), 62);
    assert_eq!(d.y_of(LOAD_SCALE), 17);
}

#[test]
fn higher_load_is_drawn_higher() {
    let g = geometry(10, p(0, 0), p(40, 40));
    assert!(g.y_of(5000) < g.y_of(2500));
    assert!(g.y_of(2500) < g.y_of(0));
    assert!(g.y_of(LOAD_SCALE) < g.y_of(7500));
}

#[test]
fn heights_round_to_the_nearest_pixel() {
    let d = GraphGeometry::dashboard();
    // 45 pixels at half load is 22.5: the half rounds up.
    assert_eq!(d.y_of(5000), 62 - 23);
    // 45 pixels at 0.01 is 0.45: rounds down.
    assert_eq!(d.y_of(100), 62);
    // 45 pixels at 0.0112 is 0.504: rounds up.
    assert_eq!(d.y_of(112), 61);
}

#[test]
fn samples_above_full_load_are_clamped_to_the_top_edge() {
    let g = geometry(10, p(0, 0), p(40, 40));
    assert_eq!(g.y_of(LOAD_SCALE + 1), 0);
    assert_eq!(g.y_of(u32::MAX), 0);
}

#[test]
fn columns_step_from_the_left_edge() {
    let d = GraphGeometry::dashboard();
    assert_eq!(d.x_of(0), 42);
    assert_eq!(d.x_of(1), 47);
    assert_eq!(d.x_of(16), 122);
}

#[test]
fn mismatched_capacity_is_refused() {
    let window = LoadStorage::new(16);
    let r = GraphRenderer::new(GraphGeometry::dashboard(), &window);
    assert_eq!(r.err(), Some(ConfigError::CapacityMismatch));
}

#[test]
fn invalid_geometry_is_refused() {
    let window = LoadStorage::new(4);
    let zero_step = GraphRenderer::new(geometry(0, p(0, 0), p(40, 40)), &window);
    assert_eq!(zero_step.err(), Some(ConfigError::InvalidGeometry));
    let flat = GraphRenderer::new(geometry(10, p(0, 40), p(40, 40)), &window);
    assert_eq!(flat.err(), Some(ConfigError::InvalidGeometry));
    let reversed = GraphRenderer::new(geometry(10, p(40, 0), p(0, 40)), &window);
    assert_eq!(reversed.err(), Some(ConfigError::InvalidGeometry));
}

#[test]
fn scenario_geometry_with_three_columns_refuses_four_samples() {
    // (30 - 0) / 10 is 3 columns, not the 4 samples of the window.
    let window = LoadStorage::new(4);
    let r = GraphRenderer::new(geometry(10, p(0, 0), p(30, 40)), &window);
    assert_eq!(r.err(), Some(ConfigError::CapacityMismatch));
}

fn scenario_window() -> LoadStorage {
    let mut window = LoadStorage::new(4);
    for v in [0, 2500, 5000, LOAD_SCALE] {
        window.push(v);
    }
    window
}

#[test]
fn end_to_end_scenario() {
    let window = scenario_window();
    let g = geometry(10, p(0, 0), p(40, 40));
    let renderer = GraphRenderer::new(g, &window).unwrap();
    let commands = renderer.render(&window);
    let expected = vec![
        DrawCommand::Frame { top_left: p(0, 0), bottom_right: p(40, 40) },
        DrawCommand::Line { from: p(0, 40), to: p(0, 40) },
        DrawCommand::Line { from: p(0, 40), to: p(10, 30) },
        DrawCommand::Line { from: p(10, 30), to: p(20, 20) },
        DrawCommand::Pixel { at: p(20, 30) },
        DrawCommand::Line { from: p(20, 20), to: p(30, 0) },
        DrawCommand::Pixel { at: p(30, 10) },
        DrawCommand::Pixel { at: p(30, 20) },
        DrawCommand::Pixel { at: p(30, 30) },
    ];
    assert_eq!(commands, expected);
    let plotted: Vec<Point> = commands
        .iter()
        .filter_map(|c| match c {
            DrawCommand::Line { to, .. } => Some(*to),
            _ => None,
        })
        .collect();
    assert_eq!(plotted, vec![p(0, 40), p(10, 30), p(20, 20), p(30, 0)]);
}

#[test]
fn render_twice_gives_the_same_commands() {
    let window = scenario_window();
    let renderer = GraphRenderer::new(geometry(10, p(0, 0), p(40, 40)), &window).unwrap();
    let first = renderer.render(&window);
    let second = renderer.render(&window);
    assert_eq!(first, second);
}

#[test]
fn idle_history_draws_only_the_frame_and_flat_lines() {
    let window = LoadStorage::new(HISTORY_LEN);
    let renderer = GraphRenderer::new(GraphGeometry::dashboard(), &window).unwrap();
    let commands = renderer.render(&window);
    assert_eq!(commands.len(), 1 + HISTORY_LEN);
    assert_eq!(
        commands[0],
        DrawCommand::Frame { top_left: p(42, 17), bottom_right: p(127, 62) }
    );
    assert_eq!(commands[1], DrawCommand::Line { from: p(42, 62), to: p(42, 62) });
    assert_eq!(commands[17], DrawCommand::Line { from: p(117, 62), to: p(122, 62) });
}

#[test]
fn fill_uses_every_step_th_row_below_the_point() {
    let mut window = LoadStorage::new(HISTORY_LEN);
    window.push(LOAD_SCALE);
    let renderer = GraphRenderer::new(GraphGeometry::dashboard(), &window).unwrap();
    let commands = renderer.render(&window);
    let pixels: Vec<Point> = commands
        .iter()
        .filter_map(|c| match c {
            DrawCommand::Pixel { at } => Some(*at),
            _ => None,
        })
        .collect();
    // Rows 17, 22, ..., 57 lie above the bottom edge at 62; row 17 is the point itself.
    let expected: Vec<Point> = (1..9).map(|k| p(122, 17 + 5 * k)).collect();
    assert_eq!(pixels, expected);
    assert_eq!(
        commands[commands.len() - 9],
        DrawCommand::Line { from: p(117, 62), to: p(122, 17) }
    );
}
