//! Reading outlines from path text: the text is parsed into segments, and
//! each segment's numbers, taken as their IEEE 754 single-precision bit
//! patterns, become whole sub-units.

use vstd::prelude::*;
use vstd::arithmetic::div_mod::lemma_div_denominator;
use vstd::arithmetic::power2::{lemma_pow2_pos, lemma_pow2_unfold, pow2};
use svg::node::element::path::Command as Segment;
use svg::node::element::path::Position as Mode;
use crate::command::{path_view, PathCommand, CommandKind, CommandView, Position};
use crate::rect::COORD_LIMIT;

verus! {

/// A parsed path command of the `svg` crate. Nothing inside it is visible
/// here; what it holds is read through `segment_view`.
#[verifier::external_type_specification]
#[verifier::external_body]
pub struct ExSegment(svg::node::element::path::Command);

/// What a segment holds: its kind, its addressing mode, and the bit patterns
/// of its numbers in order.
pub ghost struct SegmentView {
    pub kind: CommandKind,
    pub position: Position,
    pub bits: Seq<u32>,
}

/// What a parsed segment holds.
pub uninterp spec fn segment_view(segment: svg::node::element::path::Command) -> SegmentView;

/// What parsing a path text gives: its segments in order, or nothing where
/// the text is not a path.
pub uninterp spec fn parsed_segments(text: Seq<char>) -> Option<Seq<SegmentView>>;

/// What a list of parsed segments holds.
pub open spec fn segments_view(segments: Seq<svg::node::element::path::Command>) -> Seq<
    SegmentView,
> {
    Seq::new(segments.len(), |i: int| segment_view(segments[i]))
}

/// Calls `svg::node::element::path::Data::parse` and turns the parsed data
/// into the list of its commands. Claimed of it: whether the text parses, and
/// what the segments then hold, depends on the text alone.
#[verifier::external_body]
fn parse_segments(text: &str) -> (r: Option<Vec<svg::node::element::path::Command>>)
    ensures
        match r {
            Some(segments) => parsed_segments(text@) == Some(segments_view(segments@)),
            None => parsed_segments(text@) is None,
        },
{
    match svg::node::element::path::Data::parse(text) {
        Ok(data) => Some(data.into()),
        Err(_) => None,
    }
}

/// Tells the variants of `svg::node::element::path::Command` apart. Claimed of
/// it: the kind that a segment's view holds is the one named after its
/// variant.
#[verifier::external_body]
fn segment_kind(segment: &svg::node::element::path::Command) -> (kind: CommandKind)
    ensures
        kind == segment_view(*segment).kind,
{
    match segment {
        Segment::Move(..) => CommandKind::Move,
        Segment::Line(..) => CommandKind::Line,
        Segment::HorizontalLine(..) => CommandKind::HorizontalLine,
        Segment::VerticalLine(..) => CommandKind::VerticalLine,
        Segment::QuadraticCurve(..) => CommandKind::QuadraticCurve,
        Segment::SmoothQuadraticCurve(..) => CommandKind::SmoothQuadraticCurve,
        Segment::CubicCurve(..) => CommandKind::CubicCurve,
        Segment::SmoothCubicCurve(..) => CommandKind::SmoothCubicCurve,
        Segment::EllipticalArc(..) => CommandKind::EllipticalArc,
        Segment::Close => CommandKind::Close,
    }
}

/// Takes the two fields of a `svg::node::element::path::Command` out: its
/// `Position`, and its `Parameters` with each number as the bit pattern that
/// `to_bits` gives. Claimed of it: a segment has no fields exactly where it
/// is a `Close`, and otherwise its view holds these two.
#[verifier::external_body]
fn segment_values(segment: &svg::node::element::path::Command) -> (r: Option<(Position, Vec<u32>)>)
    ensures
        r is None <==> segment_view(*segment).kind == CommandKind::Close,
        r matches Some(pair) ==> segment_view(*segment).position == pair.0 && segment_view(
            *segment,
        ).bits == pair.1@,
{
    let (mode, values) = match segment {
        Segment::Move(m, v) | Segment::Line(m, v) | Segment::HorizontalLine(m, v)
        | Segment::VerticalLine(m, v) | Segment::QuadraticCurve(m, v)
        | Segment::SmoothQuadraticCurve(m, v) | Segment::CubicCurve(m, v)
        | Segment::SmoothCubicCurve(m, v) | Segment::EllipticalArc(m, v) => (m, v),
        Segment::Close => return None,
    };
    let position = match mode {
        Mode::Absolute => Position::Absolute,
        Mode::Relative => Position::Relative,
    };
    Some((position, values.iter().map(|value| value.to_bits()).collect()))
}

/// Sub-units per unit of a path text's numbers.
pub const SUBUNITS: i64 = 64;

/// Why a path text gives no outline.
#[derive(Clone, Copy, Debug, PartialEq, Eq, Structural)]
pub enum OutlineError {
    /// The text is not a path.
    Malformed,
    /// A number is not finite or lies outside the coordinate range.
    OutOfRange,
}

/// The exponent field of a single-precision bit pattern.
pub open spec fn bits_exponent(bits: u32) -> int {
    (bits as int / 0x80_0000) % 256
}

/// The significand of a normal single-precision bit pattern, with its
/// leading one.
pub open spec fn bits_significand(bits: u32) -> int {
    0x80_0000 + (bits as int) % 0x80_0000
}

/// The magnitude, in sub-units and rounded towards zero, of the number with
/// this bit pattern. A normal number is its significand times two to the
/// power of its exponent field less 150; in sixty-fourths that is two to the
/// power of the field less 144. Numbers below the normal range round to
/// zero.
pub open spec fn bits_magnitude(bits: u32) -> int {
    let e = bits_exponent(bits);
    if e == 0 {
        0
    } else if e >= 144 {
        bits_significand(bits) * pow2((e - 144) as nat)
    } else {
        bits_significand(bits) / (pow2((144 - e) as nat) as int)
    }
}

/// The sub-units of the number with this bit pattern, rounded towards zero;
/// none for an infinity, for a pattern that is no number, and for a
/// magnitude beyond the coordinate range.
pub open spec fn bits_units(bits: u32) -> Option<i64> {
    if bits_exponent(bits) == 255 || bits_magnitude(bits) > COORD_LIMIT {
        None
    } else if bits >= 0x8000_0000 {
        Some((-bits_magnitude(bits)) as i64)
    } else {
        Some(bits_magnitude(bits) as i64)
    }
}

/// The sub-units of a list of numbers; none where one of them has none.
pub open spec fn units_of(bits: Seq<u32>) -> Option<Seq<i64>> {
    if forall|i: int| 0 <= i < bits.len() ==> (#[trigger] bits_units(bits[i])) is Some {
        Some(Seq::new(bits.len(), |i: int| bits_units(bits[i])->Some_0))
    } else {
        None
    }
}

/// The command that a segment stands for. A `Close` carries no numbers; it
/// is kept with absolute addressing and no parameters.
pub open spec fn command_of(segment: SegmentView) -> Option<CommandView> {
    if segment.kind == CommandKind::Close {
        Some(
            CommandView {
                kind: CommandKind::Close,
                position: Position::Absolute,
                params: Seq::empty(),
            },
        )
    } else {
        match units_of(segment.bits) {
            Some(params) => Some(
                CommandView { kind: segment.kind, position: segment.position, params },
            ),
            None => None,
        }
    }
}

/// The outline that a list of segments stands for; none where one of its
/// numbers has no sub-units.
pub open spec fn path_of(segments: Seq<SegmentView>) -> Option<Seq<CommandView>> {
    if forall|i: int| 0 <= i < segments.len() ==> (#[trigger] command_of(segments[i])) is Some {
        Some(Seq::new(segments.len(), |i: int| command_of(segments[i])->Some_0))
    } else {
        None
    }
}

/// The outline that a path text stands for.
pub open spec fn outline_of(text: Seq<char>) -> Result<Seq<CommandView>, OutlineError> {
    match parsed_segments(text) {
        None => Err(OutlineError::Malformed),
        Some(segments) => match path_of(segments) {
            None => Err(OutlineError::OutOfRange),
            Some(path) => Ok(path),
        },
    }
}

/// Powers of two do not shrink as the exponent grows.
pub proof fn lemma_pow2_grows(a: nat, b: nat)
    requires
        a <= b,
    ensures
        pow2(a) <= pow2(b),
    decreases b,
{
    if a < b {
        lemma_pow2_grows(a, (b - 1) as nat);
        lemma_pow2_unfold(b);
    }
}

/// A number and its negative have opposite sub-units: setting the sign bit
/// of a bit pattern negates what it stands for.
pub proof fn lemma_sign_bit_negates(bits: u32)
    requires
        bits < 0x8000_0000,
    ensures
        bits_magnitude((bits + 0x8000_0000) as u32) == bits_magnitude(bits),
        bits_units((bits + 0x8000_0000) as u32) == match bits_units(bits) {
            Some(units) => Some((-units) as i64),
            None => None,
        },
{
    let flipped = (bits + 0x8000_0000) as u32;
    assert(bits_exponent(flipped) == bits_exponent(bits));
    assert(bits_significand(flipped) == bits_significand(bits));
    lemma_magnitude_not_negative(bits);
}

/// A magnitude is not negative.
pub proof fn lemma_magnitude_not_negative(bits: u32)
    ensures
        bits_magnitude(bits) >= 0,
{
    let e = bits_exponent(bits);
    let m = bits_significand(bits);
    if e >= 144 {
        lemma_pow2_pos((e - 144) as nat);
        assert(m * pow2((e - 144) as nat) >= 0) by (nonlinear_arith)
            requires
                m > 0,
                pow2((e - 144) as nat) > 0,
        ;
    } else if e > 0 {
        lemma_pow2_pos((144 - e) as nat);
        vstd::arithmetic::div_mod::lemma_div_pos_is_pos(m, pow2((144 - e) as nat) as int);
    }
}

/// The sub-units of the number with this bit pattern, rounded towards zero.
pub fn units_of_bits(bits: u32) -> (r: Option<i64>)
    ensures
        r == bits_units(bits),
{
    let exponent: u32 = (bits / 0x80_0000) % 256;
    let significand: i64 = 0x80_0000 + ((bits % 0x80_0000) as i64);
    if exponent == 255 {
        return None;
    }
    let mut magnitude: i64 = 0;
    if exponent >= 144 {
        let up: u32 = exponent - 144;
        let mut k: u32 = 0;
        magnitude = significand;
        proof {
            assert(pow2(0) == 1) by {
                vstd::arithmetic::power2::lemma2_to64();
            }
        }
        while k < up
            invariant
                k <= up,
                0 < significand < 0x100_0000,
                significand == bits_significand(bits),
                bits_exponent(bits) == up + 144,
                magnitude == significand * pow2(k as nat),
                0 <= magnitude <= COORD_LIMIT,
            decreases up - k,
        {
            proof {
                lemma_pow2_unfold((k + 1) as nat);
                assert(significand * pow2((k + 1) as nat) == 2 * magnitude) by (nonlinear_arith)
                    requires
                        pow2((k + 1) as nat) == 2 * pow2(k as nat),
                        magnitude == significand * pow2(k as nat),
                ;
            }
            if magnitude > COORD_LIMIT / 2 {
                proof {
                    lemma_pow2_grows((k + 1) as nat, up as nat);
                    assert(significand * pow2((k + 1) as nat) <= significand * pow2(up as nat))
                        by (nonlinear_arith)
                        requires
                            0 < significand,
                            pow2((k + 1) as nat) <= pow2(up as nat),
                    ;
                }
                return None;
            }
            magnitude = magnitude * 2;
            k += 1;
        }
    } else if exponent > 0 {
        let down: u32 = 144 - exponent;
        let mut k: u32 = 0;
        magnitude = significand;
        proof {
            assert(pow2(0) == 1) by {
                vstd::arithmetic::power2::lemma2_to64();
            }
        }
        while k < down
            invariant
                k <= down,
                0 < significand < 0x100_0000,
                magnitude == (significand as int) / (pow2(k as nat) as int),
                0 <= magnitude <= significand,
            decreases down - k,
        {
            proof {
                lemma_pow2_unfold((k + 1) as nat);
                lemma_pow2_pos(k as nat);
                lemma_div_denominator(significand as int, pow2(k as nat) as int, 2);
                assert(pow2(k as nat) * 2 == pow2((k + 1) as nat));
            }
            magnitude = magnitude / 2;
            k += 1;
        }
    }
    if bits >= 0x8000_0000 {
        Some(-magnitude)
    } else {
        Some(magnitude)
    }
}

/// The sub-units of a list of numbers given by their bit patterns; none
/// where one of them has none.
pub fn read_numbers(bits: &Vec<u32>) -> (r: Option<Vec<i64>>)
    ensures
        match r {
            Some(units) => units_of(bits@) == Some(units@),
            None => units_of(bits@) is None,
        },
{
    let mut units: Vec<i64> = Vec::new();
    let mut i: usize = 0;
    while i < bits.len()
        invariant
            i <= bits.len(),
            units.len() == i,
            forall|j: int| 0 <= j < i ==> (#[trigger] bits_units(bits[j])) == Some(units[j]),
        decreases bits.len() - i,
    {
        match units_of_bits(bits[i]) {
            Some(value) => {
                units.push(value);
            },
            None => {
                assert(bits_units(bits@[i as int]) is None);
                return None;
            },
        }
        i += 1;
    }
    assert(units@ =~= units_of(bits@)->Some_0);
    Some(units)
}

/// The command of the given kind with the given addressing mode and numbers;
/// for a `Close` both are set aside.
pub fn read_command(kind: CommandKind, position: Position, bits: &Vec<u32>) -> (r: Option<
    PathCommand,
>)
    ensures
        match r {
            Some(command) => command_of(SegmentView { kind, position, bits: bits@ }) == Some(
                command@,
            ),
            None => command_of(SegmentView { kind, position, bits: bits@ }) is None,
        },
{
    match kind {
        CommandKind::Close => Some(
            PathCommand { kind: CommandKind::Close, position: Position::Absolute, params: Vec::new() },
        ),
        _ => match read_numbers(bits) {
            Some(params) => Some(PathCommand { kind, position, params }),
            None => None,
        },
    }
}

/// Reads an outline from path text, with every number in sub-units rounded
/// towards zero.
pub fn parse_path(text: &str) -> (r: Result<Vec<PathCommand>, OutlineError>)
    ensures
        match r {
            Ok(commands) => outline_of(text@) == Ok::<Seq<CommandView>, OutlineError>(
                path_view(commands@),
            ),
            Err(e) => outline_of(text@) == Err::<Seq<CommandView>, OutlineError>(e),
        },
{
    let segments = match parse_segments(text) {
        Some(segments) => segments,
        None => {
            return Err(OutlineError::Malformed);
        },
    };
    let ghost views = segments_view(segments@);
    let mut commands: Vec<PathCommand> = Vec::new();
    let mut i: usize = 0;
    while i < segments.len()
        invariant
            i <= segments.len(),
            views == segments_view(segments@),
            parsed_segments(text@) == Some(views),
            commands.len() == i,
            forall|j: int| 0 <= j < i ==> (#[trigger] command_of(views[j])) == Some(commands[j]@),
        decreases segments.len() - i,
    {
        let kind = segment_kind(&segments[i]);
        let command = match segment_values(&segments[i]) {
            Some(pair) => {
                assert(views[i as int] == SegmentView { kind, position: pair.0, bits: pair.1@ });
                read_command(kind, pair.0, &pair.1)
            },
            None => {
                let none: Vec<u32> = Vec::new();
                read_command(kind, Position::Absolute, &none)
            },
        };
        match command {
            Some(command) => {
                assert(command_of(views[i as int]) == Some(command@));
                commands.push(command);
            },
            None => {
                assert(command_of(views[i as int]) is None);
                return Err(OutlineError::OutOfRange);
            },
        }
        i += 1;
    }
    assert(path_view(commands@) =~= path_of(views)->Some_0);
    Ok(commands)
}

} // verus!
