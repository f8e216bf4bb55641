use glyph_outline::bbox::get_rect;
use glyph_outline::command::{CommandKind, Position};
use glyph_outline::outline::{
    parse_path, read_command, read_numbers, units_of_bits, OutlineError, SUBUNITS,
};

#[test]
fn whole_numbers_in_sub_units() {
    assert_eq!(SUBUNITS, 64);
    assert_eq!(units_of_bits(0.0f32.to_bits()), Some(0));
    assert_eq!(units_of_bits(1.0f32.to_bits()), Some(64));
    assert_eq!(units_of_bits(2.0f32.to_bits()), Some(128));
    assert_eq!(units_of_bits(10.0f32.to_bits()), Some(640));
    assert_eq!(units_of_bits((-7.0f32).to_bits()), Some(-448));
    assert_eq!(units_of_bits(1000000.0f32.to_bits()), Some(64000000));
}

#[test]
fn fractions_in_sub_units() {
    assert_eq!(units_of_bits(10.5f32.to_bits()), Some(672));
    assert_eq!(units_of_bits((-0.25f32).to_bits()), Some(-16));
    assert_eq!(units_of_bits(0.015625f32.to_bits()), Some(1));
    assert_eq!(units_of_bits(2.515625f32.to_bits()), Some(161));
}

#[test]
fn numbers_round_towards_zero() {
    assert_eq!(units_of_bits(0.0078125f32.to_bits()), Some(0));
    assert_eq!(units_of_bits(0.01f32.to_bits()), Some(0));
    assert_eq!(units_of_bits(3.999f32.to_bits()), Some(255));
    assert_eq!(units_of_bits((-3.999f32).to_bits()), Some(-255));
    assert_eq!(units_of_bits((-0.0f32).to_bits()), Some(0));
    assert_eq!(units_of_bits(1e-40f32.to_bits()), Some(0));
    assert_eq!(units_of_bits(f32::MIN_POSITIVE.to_bits()), Some(0));
}

#[test]
fn numbers_without_sub_units() {
    assert_eq!(units_of_bits(f32::INFINITY.to_bits()), None);
    assert_eq!(units_of_bits(f32::NEG_INFINITY.to_bits()), None);
    assert_eq!(units_of_bits(f32::NAN.to_bits()), None);
    assert_eq!(units_of_bits(f32::MAX.to_bits()), None);
    assert_eq!(units_of_bits(1e30f32.to_bits()), None);
    assert_eq!(units_of_bits(17179869184.0f32.to_bits()), None);
    assert_eq!(units_of_bits((-17179869184.0f32).to_bits()), None);
}

#[test]
fn largest_magnitudes_within_the_range() {
    assert_eq!(units_of_bits(8589934592.0f32.to_bits()), Some(549755813888));
    assert_eq!(units_of_bits((-8589934592.0f32).to_bits()), Some(-549755813888));
    assert_eq!(units_of_bits(15624999936.0f32.to_bits()), Some(999999995904));
    assert_eq!(units_of_bits(15625000960.0f32.to_bits()), None);
}

#[test]
fn lists_of_numbers() {
    let bits = vec![1.0f32.to_bits(), (-2.5f32).to_bits()];
    assert_eq!(read_numbers(&bits), Some(vec![64, -160]));
    assert_eq!(read_numbers(&vec![]), Some(vec![]));
    let bits = vec![1.0f32.to_bits(), f32::NAN.to_bits(), 2.0f32.to_bits()];
    assert_eq!(read_numbers(&bits), None);
}

#[test]
fn commands_from_their_parts() {
    let bits = vec![1.0f32.to_bits(), 2.0f32.to_bits()];
    let command = read_command(CommandKind::Line, Position::Relative, &bits).unwrap();
    assert_eq!(command.kind, CommandKind::Line);
    assert_eq!(command.position, Position::Relative);
    assert_eq!(command.params, vec![64, 128]);
    let command = read_command(CommandKind::Close, Position::Relative, &bits).unwrap();
    assert_eq!(command.kind, CommandKind::Close);
    assert_eq!(command.position, Position::Absolute);
    assert!(command.params.is_empty());
    let bits = vec![f32::INFINITY.to_bits()];
    assert!(read_command(CommandKind::Move, Position::Absolute, &bits).is_none());
    assert!(read_command(CommandKind::Close, Position::Absolute, &bits).is_some());
}

#[test]
fn path_text_with_offsets() {
    let commands = parse_path("M 0,0 l 5,5 l 5,-5").unwrap();
    assert_eq!(commands.len(), 3);
    assert_eq!(commands[0].kind, CommandKind::Move);
    assert_eq!(commands[0].position, Position::Absolute);
    assert_eq!(commands[0].params, vec![0, 0]);
    assert_eq!(commands[1].kind, CommandKind::Line);
    assert_eq!(commands[1].position, Position::Relative);
    assert_eq!(commands[1].params, vec![320, 320]);
    assert_eq!(commands[2].params, vec![320, -320]);
    let rect = get_rect(&commands).unwrap();
    assert_eq!(rect.min, (0, 0));
    assert_eq!(rect.max, (640, 320));
}

#[test]
fn path_text_with_every_kind() {
    let commands =
        parse_path("M1,2 L3,4 H5 V6 Q1,2,3,4 T5,6 C1,2,3,4,5,6 S1,2,3,4 A1,1,0,0,1,5,5 Z").unwrap();
    let kinds: Vec<CommandKind> = commands.iter().map(|c| c.kind).collect();
    assert_eq!(
        kinds,
        vec![
            CommandKind::Move,
            CommandKind::Line,
            CommandKind::HorizontalLine,
            CommandKind::VerticalLine,
            CommandKind::QuadraticCurve,
            CommandKind::SmoothQuadraticCurve,
            CommandKind::CubicCurve,
            CommandKind::SmoothCubicCurve,
            CommandKind::EllipticalArc,
            CommandKind::Close,
        ]
    );
    assert!(commands.iter().all(|c| c.position == Position::Absolute));
    assert_eq!(commands[2].params, vec![320]);
    assert_eq!(commands[6].params, vec![64, 128, 192, 256, 320, 384]);
    assert_eq!(commands[8].params, vec![64, 64, 0, 0, 64, 320, 320]);
    assert!(commands[9].params.is_empty());
}

#[test]
fn path_text_in_lower_case_is_relative() {
    let commands = parse_path("m1,2 c1,2,3,4,5,6 q1,2,3,4 s1,2,3,4 t1,2 z").unwrap();
    assert_eq!(commands.len(), 6);
    assert_eq!(commands[0].position, Position::Relative);
    assert_eq!(commands[1].kind, CommandKind::CubicCurve);
    assert_eq!(commands[1].position, Position::Relative);
    assert_eq!(commands[4].kind, CommandKind::SmoothQuadraticCurve);
    assert_eq!(commands[5].kind, CommandKind::Close);
    assert_eq!(commands[5].position, Position::Absolute);
}

#[test]
fn path_text_with_fractions() {
    let commands = parse_path("M 10.5 -0.25").unwrap();
    assert_eq!(commands[0].params, vec![672, -16]);
}

#[test]
fn empty_path_text_is_an_empty_outline() {
    assert!(parse_path("").unwrap().is_empty());
    assert!(parse_path("   ").unwrap().is_empty());
}

#[test]
fn text_that_is_no_path() {
    assert_eq!(parse_path("M 0,0 ?").unwrap_err(), OutlineError::Malformed);
    assert_eq!(parse_path("1 2 3").unwrap_err(), OutlineError::Malformed);
    assert_eq!(parse_path("X 1 2").unwrap_err(), OutlineError::Malformed);
}

#[test]
fn path_text_with_a_number_out_of_range() {
    assert_eq!(parse_path("M 1e30 0").unwrap_err(), OutlineError::OutOfRange);
    assert_eq!(parse_path("M 0 0 L 0 -1e12").unwrap_err(), OutlineError::OutOfRange);
}
