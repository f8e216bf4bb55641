//! Path commands and the uniform walk over them.

use vstd::prelude::*;
use crate::rect::point_in_range;

verus! {

/// How a command's coordinates are to be read.
#[derive(Clone, Copy, Debug, PartialEq, Eq, Structural)]
pub enum Position {
    /// Coordinates in the outline's frame.
    Absolute,
    /// Offsets from the current pen position.
    Relative,
}

/// The kinds of path command.
#[derive(Clone, Copy, Debug, PartialEq, Eq, Structural)]
pub enum CommandKind {
    Move,
    Line,
    HorizontalLine,
    VerticalLine,
    QuadraticCurve,
    SmoothQuadraticCurve,
    CubicCurve,
    SmoothCubicCurve,
    EllipticalArc,
    Close,
}

/// One path command: its kind, its addressing mode and its flattened
/// parameters. A `Close` carries no coordinates; its other fields are kept as
/// they are.
#[derive(Debug)]
pub struct PathCommand {
    pub kind: CommandKind,
    pub position: Position,
    pub params: Vec<i64>,
}

/// The mathematical value of a command.
pub ghost struct CommandView {
    pub kind: CommandKind,
    pub position: Position,
    pub params: Seq<i64>,
}

impl View for PathCommand {
    type V = CommandView;

    open spec fn view(&self) -> CommandView {
        CommandView { kind: self.kind, position: self.position, params: self.params@ }
    }
}

/// The mathematical value of a command sequence.
pub open spec fn path_view(commands: Seq<PathCommand>) -> Seq<CommandView> {
    Seq::new(commands.len(), |i: int| commands[i]@)
}

/// What the walk hands out for one point-bearing command.
#[derive(Debug)]
pub struct Visit {
    pub position: Position,
    pub points: Vec<(i64, i64)>,
    pub group_size: usize,
}

/// The mathematical value of a visit.
pub ghost struct VisitView {
    pub position: Position,
    pub points: Seq<(i64, i64)>,
    pub group_size: nat,
}

impl View for Visit {
    type V = VisitView;

    open spec fn view(&self) -> VisitView {
        VisitView {
            position: self.position,
            points: self.points@,
            group_size: self.group_size as nat,
        }
    }
}

/// Whether the walk visits commands of this kind: moves, lines and the four
/// curve kinds. The others pass through untouched.
pub open spec fn point_bearing(kind: CommandKind) -> bool {
    match kind {
        CommandKind::Move
        | CommandKind::Line
        | CommandKind::QuadraticCurve
        | CommandKind::SmoothQuadraticCurve
        | CommandKind::CubicCurve
        | CommandKind::SmoothCubicCurve => true,
        _ => false,
    }
}

/// How many coordinate pairs make up one group of a command of this kind.
pub open spec fn group_size(kind: CommandKind) -> nat {
    match kind {
        CommandKind::QuadraticCurve => 2,
        CommandKind::CubicCurve => 3,
        CommandKind::SmoothCubicCurve => 2,
        _ => 1,
    }
}

/// The points that a flattened parameter list holds: adjacent values paired
/// in order, an odd trailing value left out.
pub open spec fn points_of(params: Seq<i64>) -> Seq<(i64, i64)> {
    Seq::new((params.len() / 2) as nat, |i: int| (params[2 * i], params[2 * i + 1]))
}

/// What the walk yields for one command.
pub open spec fn visit_of(c: CommandView) -> Option<VisitView> {
    if point_bearing(c.kind) {
        Some(
            VisitView {
                position: c.position,
                points: points_of(c.params),
                group_size: group_size(c.kind),
            },
        )
    } else {
        None
    }
}

/// Every point lies within the coordinate range.
pub open spec fn points_in_range(points: Seq<(i64, i64)>) -> bool {
    forall|j: int| 0 <= j < points.len() ==> point_in_range(#[trigger] points[j])
}

/// Every decoded point of every point-bearing command lies within the
/// coordinate range.
pub open spec fn path_in_range(commands: Seq<CommandView>) -> bool {
    forall|i: int|
        0 <= i < commands.len() ==> match visit_of(#[trigger] commands[i]) {
            Some(v) => points_in_range(v.points),
            None => true,
        }
}

/// Whether the walk visits commands of this kind.
pub fn is_point_bearing(kind: CommandKind) -> (b: bool)
    ensures
        b == point_bearing(kind),
{
    match kind {
        CommandKind::Move => true,
        CommandKind::Line => true,
        CommandKind::QuadraticCurve => true,
        CommandKind::SmoothQuadraticCurve => true,
        CommandKind::CubicCurve => true,
        CommandKind::SmoothCubicCurve => true,
        _ => false,
    }
}

/// The number of coordinate pairs in one group of a command of this kind.
pub fn point_pair_size(kind: CommandKind) -> (n: usize)
    ensures
        n == group_size(kind),
        1 <= n <= 3,
{
    match kind {
        CommandKind::QuadraticCurve => 2,
        CommandKind::CubicCurve => 3,
        CommandKind::SmoothCubicCurve => 2,
        _ => 1,
    }
}

/// Pairs adjacent parameters into points, dropping an odd trailing value.
pub fn decode_points(params: &Vec<i64>) -> (points: Vec<(i64, i64)>)
    ensures
        points@ == points_of(params@),
{
    let mut points: Vec<(i64, i64)> = Vec::new();
    let pairs: usize = params.len() / 2;
    let mut i: usize = 0;
    while i < pairs
        invariant
            pairs == params.len() / 2,
            i <= pairs,
            points.len() == i,
            forall|j: int| 0 <= j < i ==> points[j] == (params[2 * j], params[2 * j + 1]),
        decreases pairs - i,
    {
        points.push((params[2 * i], params[2 * i + 1]));
        i += 1;
    }
    assert(points@ =~= points_of(params@));
    points
}

/// Walks the commands in order. For every point-bearing command the result
/// holds, at the command's index, its addressing mode, its decoded points and
/// its group size; at the index of any other command it holds `None`.
pub fn for_each_command(commands: &Vec<PathCommand>) -> (visits: Vec<Option<Visit>>)
    ensures
        visits.len() == commands.len(),
        forall|i: int|
            0 <= i < commands.len() ==> (match #[trigger] visits[i] {
                Some(v) => Some(v@),
                None => None,
            }) == visit_of(commands[i]@),
{
    let mut visits: Vec<Option<Visit>> = Vec::new();
    let mut i: usize = 0;
    while i < commands.len()
        invariant
            i <= commands.len(),
            visits.len() == i,
            forall|j: int|
                0 <= j < i ==> (match #[trigger] visits[j] {
                    Some(v) => Some(v@),
                    None => None,
                }) == visit_of(commands[j]@),
        decreases commands.len() - i,
    {
        let command = &commands[i];
        if is_point_bearing(command.kind) {
            let points = decode_points(&command.params);
            let visit = Visit {
                position: command.position,
                points,
                group_size: point_pair_size(command.kind),
            };
            visits.push(Some(visit));
        } else {
            visits.push(None);
        }
        i += 1;
    }
    visits
}

} // verus!
