use pcb_forge::gerber::{parse_drawing, Aperture, DrawingError, Primitive};
use pcb_forge::geometry::Polarity;
use pcb_forge::toolpath::{MotionCommand, ToolSelection};
use pcb_forge::units::{Length, Power, Velocity};

fn one_mm_laser() -> ToolSelection {
    ToolSelection::Laser {
        point_diameter: Length { nm: 1_000_000 },
        max_power: Power { milliwatts: 10_000 },
        laser_power: Power { milliwatts: 5_000 },
        work_speed: Velocity { nm_per_min: 600_000_000 },
    }
}

// Coordinates below use a 4.6 format in millimeters: raw units are nanometers.
const HEADER: &str = "%MOMM*%\n%FSLAX46Y46*%\n";

fn square_region(x0: i64, y0: i64, x1: i64, y1: i64) -> String {
    format!(
        "G36*\nX{x0}Y{y0}D02*\nX{x1}Y{y0}D01*\nX{x1}Y{y1}D01*\nX{x0}Y{y1}D01*\nX{x0}Y{y0}D01*\nG37*\n"
    )
}

#[test]
fn parser_reads_a_square_region_exactly() {
    let text = format!("{HEADER}{}M02*\n", square_region(0, 0, 10_000_000, 10_000_000));
    let file = parse_drawing(text.as_bytes()).unwrap();
    assert_eq!(file.unit_scale_nm, 1);
    assert_eq!(file.primitives.len(), 1);
    match &file.primitives[0] {
        Primitive::Region { points, polarity } => {
            assert_eq!(*polarity, Polarity::Dark);
            // The repeated closing point is dropped: the boundary is
            // implicitly closed.
            assert_eq!(points.len(), 4);
            assert_eq!((points[0].x, points[0].y), (0, 0));
            assert_eq!((points[2].x, points[2].y), (10_000_000, 10_000_000));
        }
        _ => panic!("expected a region primitive"),
    }
}

#[test]
fn parser_reads_apertures_flashes_and_draws() {
    let text = format!(
        "{HEADER}%ADD10C,0.5*%\n%ADD11R,1.5X0.5*%\nD10*\nX1000000Y2000000D03*\nX3000000Y2000000D01*\nD11*\nX0Y0D03*\nM02*\n"
    );
    let file = parse_drawing(text.as_bytes()).unwrap();
    assert_eq!(file.apertures.len(), 2);
    assert_eq!(file.apertures[0], Aperture::Circle { diameter: Length { nm: 500_000 } });
    assert_eq!(
        file.apertures[1],
        Aperture::Rectangle { width: Length { nm: 1_500_000 }, height: Length { nm: 500_000 } }
    );
    assert_eq!(file.primitives.len(), 3);
    match &file.primitives[1] {
        Primitive::Draw { aperture, start, end, .. } => {
            assert_eq!(*aperture, 0);
            assert_eq!((start.x, start.y), (1_000_000, 2_000_000));
            assert_eq!((end.x, end.y), (3_000_000, 2_000_000));
        }
        _ => panic!("expected a draw primitive"),
    }
}

#[test]
fn clear_polarity_is_tracked() {
    let text = format!(
        "{HEADER}{}%LPC*%\n{}M02*\n",
        square_region(0, 0, 10_000_000, 10_000_000),
        square_region(0, 0, 10_000_000, 10_000_000),
    );
    let file = parse_drawing(text.as_bytes()).unwrap();
    assert_eq!(file.primitives.len(), 2);
    match &file.primitives[1] {
        Primitive::Region { polarity, .. } => assert_eq!(*polarity, Polarity::Clear),
        _ => panic!("expected a region primitive"),
    }
    // A Dark region fully overlapped by a later Clear region of equal shape
    // resolves to an empty polygon set.
    let (_, simplified, _) = file.resolve_geometry();
    assert_eq!(simplified.polygons.len(), 0);
}

#[test]
fn unterminated_region_is_malformed_and_yields_no_output() {
    let text = format!("{HEADER}G36*\nX0Y0D02*\nX1000000Y0D01*\nX1000000Y1000000D01*\nM02*\n");
    let result = parse_drawing(text.as_bytes());
    assert!(matches!(result, Err(DrawingError::MalformedDrawing { .. })));
    // The stage aborts at the parser: no drawing, no geometry, no commands,
    // so no partial output file can be produced.
}

#[test]
fn unknown_command_is_malformed_with_its_line() {
    let text = format!("{HEADER}G99*\nM02*\n");
    match parse_drawing(text.as_bytes()) {
        Err(DrawingError::MalformedDrawing { line }) => assert_eq!(line, 3),
        other => panic!("expected a malformed-drawing failure, got {other:?}"),
    }
}

#[test]
fn macro_aperture_and_arcs_are_unsupported() {
    let text = format!("{HEADER}%AMOUTLINE*%\nM02*\n");
    assert!(matches!(
        parse_drawing(text.as_bytes()),
        Err(DrawingError::UnsupportedFeature { .. })
    ));
    let arcs = format!("{HEADER}%ADD10C,0.5*%\nD10*\nG02X1Y1D01*\nM02*\n");
    assert!(matches!(parse_drawing(arcs.as_bytes()), Err(DrawingError::UnsupportedFeature { .. })));
}

#[test]
fn polygon_apertures_are_read() {
    let text = format!("{HEADER}%ADD12P,1.0X6*%\nD12*\nX0Y0D03*\nM02*\n");
    let file = parse_drawing(text.as_bytes()).unwrap();
    assert_eq!(
        file.apertures[0],
        Aperture::Polygon { diameter: Length { nm: 1_000_000 }, vertices: 6 }
    );
    let too_many = format!("{HEADER}%ADD12P,1.0X99*%\nM02*\n");
    assert!(matches!(
        parse_drawing(too_many.as_bytes()),
        Err(DrawingError::UnsupportedFeature { .. })
    ));
}

#[test]
fn missing_end_marker_is_malformed() {
    let text = format!("{HEADER}{}", square_region(0, 0, 1_000_000, 1_000_000));
    assert!(matches!(
        parse_drawing(text.as_bytes()),
        Err(DrawingError::MalformedDrawing { .. })
    ));
}

/// Walks a command sequence like the machine would, checking the
/// tool-engagement discipline as it goes, and hands back the cut and rapid
/// targets.
fn check_discipline(cmds: &[MotionCommand]) -> (Vec<(i64, i64)>, Vec<(i64, i64)>) {
    let mut on = false;
    let mut cuts = Vec::new();
    let mut rapids = Vec::new();
    for c in cmds {
        match c {
            MotionCommand::RapidMove { target } => {
                assert!(!on, "rapid move with the tool engaged");
                rapids.push((target.x, target.y));
            }
            MotionCommand::CutMove { target, .. } => {
                assert!(on, "cut move with the tool disengaged");
                cuts.push((target.x, target.y));
            }
            MotionCommand::SetToolState { on: next, .. } => on = *next,
            MotionCommand::Comment { .. } => {}
        }
    }
    assert!(!on, "the sequence must end with the tool disengaged");
    (cuts, rapids)
}

#[test]
fn square_engraving_produces_the_expected_raster_lines() {
    // End to end: a 10mm x 10mm square Dark region, a 1mm-diameter laser and
    // a 0.5mm step distance.
    let text = format!("{HEADER}{}M02*\n", square_region(0, 0, 10_000_000, 10_000_000));
    let file = parse_drawing(text.as_bytes()).unwrap();
    let (cmds, warnings) = file.generate_gcode(&one_mm_laser(), Length { nm: 500_000 });
    assert_eq!(warnings, 0);
    let (cuts, _) = check_discipline(&cmds);

    // The raster line count equals ceil(10 / 0.5) = 20: distinct heights of
    // horizontal cut segments.
    let mut ys: Vec<i64> = Vec::new();
    for w in cuts.windows(2) {
        if w[0].1 == w[1].1 && w[0].0 != w[1].0 && !ys.contains(&w[0].1) {
            ys.push(w[0].1);
        }
    }
    assert_eq!(ys.len(), 20);

    // The cut total matches the stated formula: the approach cut, the
    // closed 4-corner outline, and two cuts per raster row.
    assert_eq!(cuts.len(), 1 + 3 + 1 + 2 * 20);

    // Every emitted coordinate stays within the square expanded by at most
    // 0.5mm of tolerance.
    for c in &cmds {
        let t = match c {
            MotionCommand::RapidMove { target } => target,
            MotionCommand::CutMove { target, .. } => target,
            _ => continue,
        };
        assert!(t.x >= -500_000 && t.x <= 10_500_000, "x out of bounds: {}", t.x);
        assert!(t.y >= -500_000 && t.y <= 10_500_000, "y out of bounds: {}", t.y);
    }
}

#[test]
fn two_adjacent_squares_produce_one_rapid_transition() {
    // End to end: two adjacent non-overlapping Dark squares: exactly one
    // rapid transition between their toolpaths, and no cut outside either
    // square's offset boundary.
    let text = format!(
        "{HEADER}{}{}M02*\n",
        square_region(0, 0, 4_000_000, 4_000_000),
        square_region(6_000_000, 0, 10_000_000, 4_000_000),
    );
    let file = parse_drawing(text.as_bytes()).unwrap();
    let (cmds, warnings) = file.generate_gcode(&one_mm_laser(), Length { nm: 500_000 });
    assert_eq!(warnings, 0);
    let (cuts, rapids) = check_discipline(&cmds);

    // One rapid approach per square: the single transition between the two
    // toolpaths plus the initial approach.
    assert_eq!(rapids.len(), 2);

    // Zero cut moves outside either square's offset boundary (inset by the
    // 0.5mm engagement radius).
    for (x, y) in cuts {
        let in_first =
            x >= 500_000 && x <= 3_500_000 && y >= 500_000 && y <= 3_500_000;
        let in_second =
            x >= 6_500_000 && x <= 9_500_000 && y >= 500_000 && y <= 3_500_000;
        assert!(in_first || in_second, "cut outside both offset boundaries: ({x}, {y})");
    }
}

#[test]
fn partial_clear_keeps_the_tool_out_of_the_hole() {
    // A Dark square with a Clear band across its middle: raster rows must
    // split around the cleared area, expanded by the engagement radius.
    let text = format!(
        "{HEADER}{}%LPC*%\n{}%LPD*%\nM02*\n",
        square_region(0, 0, 10_000_000, 10_000_000),
        square_region(4_000_000, 2_000_000, 6_000_000, 8_000_000),
    );
    let file = parse_drawing(text.as_bytes()).unwrap();
    let (cmds, _) = file.generate_gcode(&one_mm_laser(), Length { nm: 500_000 });
    check_discipline(&cmds);
    // Walk the actual motion: an engaged segment runs from the previous
    // position to a cut target.
    let mut last: Option<(i64, i64)> = None;
    let mut engaged_segments = 0;
    for c in &cmds {
        match c {
            MotionCommand::RapidMove { target } => last = Some((target.x, target.y)),
            MotionCommand::CutMove { target, .. } => {
                if let Some((x0, y0)) = last {
                    if y0 == target.y && x0 != target.x && y0 > 1_500_000 && y0 < 8_500_000 {
                        engaged_segments += 1;
                        let lo = x0.min(target.x);
                        let hi = x0.max(target.x);
                        let clear_of_hole = hi <= 3_500_000 || lo >= 6_500_000;
                        assert!(
                            clear_of_hole,
                            "segment [{lo}, {hi}] at y={y0} crosses the cleared band"
                        );
                    }
                }
                last = Some((target.x, target.y));
            }
            _ => {}
        }
    }
    assert!(engaged_segments > 0);
}

#[test]
fn inch_drawings_convert_exactly() {
    // 2.5 format in inches: one raw unit is 254000 nanometers.
    let text = "%MOIN*%\n%FSLAX25Y25*%\n%ADD10C,0.1*%\nD10*\nX100000Y0D03*\nM02*\n";
    let file = parse_drawing(text.as_bytes()).unwrap();
    assert_eq!(file.unit_scale_nm, 254);
    match &file.primitives[0] {
        Primitive::Flash { position, .. } => {
            assert_eq!(position.x, 25_400_000);
            assert_eq!(position.y, 0);
        }
        _ => panic!("expected a flash"),
    }
}

#[test]
fn flashed_circle_is_engraved_within_its_bounds() {
    // A 4mm circle flashed at (5mm, 5mm), engraved with a 1mm laser: every
    // emitted coordinate stays inside the circle's bounding box.
    let text = format!("{HEADER}%ADD10C,4*%\nD10*\nX5000000Y5000000D03*\nM02*\n");
    let file = parse_drawing(text.as_bytes()).unwrap();
    let (cmds, warnings) = file.generate_gcode(&one_mm_laser(), Length { nm: 500_000 });
    assert_eq!(warnings, 0);
    let (cuts, rapids) = check_discipline(&cmds);
    assert!(!cuts.is_empty());
    assert_eq!(rapids.len(), 1);
    for (x, y) in cuts {
        assert!(x >= 3_000_000 && x <= 7_000_000, "x outside the circle's box: {x}");
        assert!(y >= 3_000_000 && y <= 7_000_000, "y outside the circle's box: {y}");
    }
}

#[test]
fn draw_strokes_resolve_to_capsules() {
    let text = format!("{HEADER}%ADD10C,0.5*%\nD10*\nX0Y0D02*\nX4000000Y3000000D01*\nM02*\n");
    let file = parse_drawing(text.as_bytes()).unwrap();
    let (raw, simplified, warnings) = file.resolve_geometry();
    assert_eq!(warnings, 0);
    assert_eq!(raw.polygons.len(), 1);
    assert_eq!(simplified.polygons.len(), 1);
    // The capsule ring stays within the stroke's expanded bounding box.
    for p in &simplified.polygons[0].points {
        assert!(p.x >= -250_000 && p.x <= 4_250_000);
        assert!(p.y >= -250_000 && p.y <= 3_250_000);
    }
}

#[test]
fn bounding_box_of_the_simplified_mask() {
    let text = format!("{HEADER}{}M02*\n", square_region(0, 0, 10_000_000, 5_000_000));
    let file = parse_drawing(text.as_bytes()).unwrap();
    let (mn, mx) = file.calculate_svg_bounds().unwrap();
    assert_eq!((mn.x, mn.y, mx.x, mx.y), (0, 0, 10_000_000, 5_000_000));
    let paths = file.debug_render(true);
    assert_eq!(paths.len(), 1);
    assert_eq!(paths[0].len(), 4);
}
