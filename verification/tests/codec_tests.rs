use pcb_forge::codec::{CodecError, GCodeFile};
use pcb_forge::geometry::Point;
use pcb_forge::toolpath::MotionCommand;

#[test]
fn rapid_move_renders_millimeters_with_six_decimals() {
    let file = GCodeFile::new(vec![MotionCommand::RapidMove {
        target: Point { x: 1_500_000, y: -2_000_000 },
    }]);
    assert_eq!(file.to_bytes().unwrap(), b"G0 X1.500000 Y-2.000000\n".to_vec());
}

#[test]
fn cut_move_renders_depth_and_feed() {
    let file = GCodeFile::new(vec![MotionCommand::CutMove {
        target: Point { x: 250_000, y: 0 },
        depth: Some(-100_000),
        feed: Some(600_000_000),
    }]);
    assert_eq!(
        file.to_bytes().unwrap(),
        b"G1 X0.250000 Y0.000000 Z-0.100000 F600.000000\n".to_vec()
    );
}

#[test]
fn tool_state_and_comment_lines() {
    let file = GCodeFile::new(vec![
        MotionCommand::SetToolState { on: true, level: 800 },
        MotionCommand::Comment { text: b"edge pass".to_vec() },
        MotionCommand::SetToolState { on: false, level: 0 },
    ]);
    assert_eq!(file.to_bytes().unwrap(), b"M3 S800\n; edge pass\nM5\n".to_vec());
}

#[test]
fn same_sequence_renders_byte_identical_output() {
    let commands = vec![
        MotionCommand::RapidMove { target: Point { x: 1, y: 2 } },
        MotionCommand::SetToolState { on: true, level: 5 },
        MotionCommand::CutMove { target: Point { x: 3, y: 4 }, depth: None, feed: None },
        MotionCommand::SetToolState { on: false, level: 0 },
    ];
    let a = GCodeFile::new(commands.clone()).to_bytes().unwrap();
    let b = GCodeFile::new(commands).to_bytes().unwrap();
    assert_eq!(a, b);
}

#[test]
fn out_of_range_coordinate_is_invalid() {
    let file = GCodeFile::new(vec![
        MotionCommand::SetToolState { on: true, level: 1 },
        MotionCommand::CutMove {
            target: Point { x: 2_000_000_000_000_000, y: 0 },
            depth: None,
            feed: None,
        },
    ]);
    assert_eq!(file.to_bytes(), Err(CodecError::InvalidCoordinate { index: 1 }));
}
