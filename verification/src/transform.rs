//! The transform that flips an outline vertically about the top of a
//! reference box and centres it horizontally within that box.

use vstd::prelude::*;
use crate::bbox::PathError;
use crate::command::{
    for_each_command, path_in_range, path_view, point_bearing, points_in_range, visit_of, PathCommand,
    CommandView, Position, Visit,
};
use crate::rect::{in_range, point_in_range, Rect, COORD_FLOOR, COORD_LIMIT};

verus! {

/// Half of `v`, rounded towards zero.
pub open spec fn half(v: int) -> int {
    if v >= 0 {
        v / 2
    } else {
        -((-v) / 2)
    }
}

/// The horizontal shift that centres a glyph of advance `width` within the
/// reference box and moves it to the box's origin.
pub open spec fn horizontal_offset(rect: Rect, width: int) -> int {
    half(rect.spec_width() - width) + rect.min.0
}

/// Where the transform sends one point. An absolute point is shifted
/// horizontally and mirrored about the top of the reference box; an offset
/// keeps its horizontal part and has its vertical part negated.
pub open spec fn flip_point(position: Position, rect: Rect, width: int, p: (int, int)) -> (
    int,
    int,
) {
    match position {
        Position::Absolute => (horizontal_offset(rect, width) + p.0 - rect.min.0, rect.max.1 - p.1),
        Position::Relative => (p.0, -p.1),
    }
}

/// The flattened parameters of the transformed points, in the points' order.
pub open spec fn flipped_params(
    position: Position,
    rect: Rect,
    width: int,
    points: Seq<(i64, i64)>,
) -> Seq<i64> {
    Seq::new(
        2 * points.len(),
        |i: int|
            {
                let p = points[i / 2];
                let q = flip_point(position, rect, width, (p.0 as int, p.1 as int));
                if i % 2 == 0 {
                    q.0 as i64
                } else {
                    q.1 as i64
                }
            },
    )
}

/// The transformed command: a point-bearing command gets the transformed
/// parameters, any other stays as it is.
pub open spec fn flipped_command(c: CommandView, rect: Rect, width: int) -> CommandView {
    match visit_of(c) {
        Some(v) => CommandView {
            kind: c.kind,
            position: c.position,
            params: flipped_params(v.position, rect, width, v.points),
        },
        None => c,
    }
}

/// The transformed outline, command by command.
pub open spec fn flipped_path(commands: Seq<CommandView>, rect: Rect, width: int) -> Seq<
    CommandView,
> {
    Seq::new(commands.len(), |i: int| flipped_command(commands[i], rect, width))
}

/// The inputs on which the transform is carried out: the reference box, the
/// advance width and all decoded points lie within the coordinate range.
pub open spec fn transformable(commands: Seq<CommandView>, rect: Rect, width: int) -> bool {
    rect.wf() && in_range(width) && path_in_range(commands)
}

/// Whether every point lies within the coordinate range.
pub fn check_points(points: &Vec<(i64, i64)>) -> (b: bool)
    ensures
        b == points_in_range(points@),
{
    let mut j: usize = 0;
    while j < points.len()
        invariant
            j <= points.len(),
            forall|k: int| 0 <= k < j ==> point_in_range(#[trigger] points[k]),
        decreases points.len() - j,
    {
        let p = points[j];
        if p.0 < COORD_FLOOR || p.0 > COORD_LIMIT || p.1 < COORD_FLOOR || p.1 > COORD_LIMIT {
            return false;
        }
        j += 1;
    }
    true
}

/// The horizontal shift for a glyph of advance `width` in the reference box.
pub fn offset_for(rect: Rect, width: i64) -> (offset: i64)
    requires
        rect.wf(),
        in_range(width as int),
    ensures
        offset == horizontal_offset(rect, width as int),
{
    let slack: i64 = rect.width() - width;
    let centred: i64 = if slack >= 0 {
        slack / 2
    } else {
        -((-slack) / 2)
    };
    centred + rect.min.0
}

/// Transforms the points of one visit and flattens them again.
pub fn flip_points(visit: &Visit, rect: Rect, width: i64) -> (params: Vec<i64>)
    requires
        rect.wf(),
        in_range(width as int),
        points_in_range(visit.points@),
    ensures
        params@ == flipped_params(visit.position, rect, width as int, visit.points@),
{
    let offset: i64 = offset_for(rect, width);
    let mut params: Vec<i64> = Vec::new();
    let mut j: usize = 0;
    while j < visit.points.len()
        invariant
            j <= visit.points.len(),
            rect.wf(),
            in_range(width as int),
            points_in_range(visit.points@),
            offset == horizontal_offset(rect, width as int),
            params.len() == 2 * j,
            forall|k: int|
                0 <= k < 2 * j ==> params[k] == flipped_params(
                    visit.position,
                    rect,
                    width as int,
                    visit.points@,
                )[k],
        decreases visit.points.len() - j,
    {
        let p = visit.points[j];
        assert(point_in_range(visit.points@[j as int]));
        match visit.position {
            Position::Absolute => {
                params.push(offset + p.0 - rect.min.0);
                params.push(rect.max.1 - p.1);
            },
            Position::Relative => {
                params.push(p.0);
                params.push(-p.1);
            },
        }
        j += 1;
    }
    assert(params@ =~= flipped_params(visit.position, rect, width as int, visit.points@));
    params
}

/// Rewrites every point of the outline in place: absolute points are shifted
/// by the centring offset and mirrored about the top of `rect`, offsets have
/// their vertical part negated. Commands that are not point-bearing, and on
/// point-bearing ones everything but the parameters, stay as they are. Where
/// a coordinate, the box or the width lies outside the coordinate range the
/// outline is left untouched.
pub fn flip_and_align_path(commands: &mut Vec<PathCommand>, rect: Rect, width: i64) -> (r: Result<
    (),
    PathError,
>)
    ensures
        transformable(path_view(old(commands)@), rect, width as int) ==> r is Ok && path_view(
            final(commands)@,
        ) == flipped_path(path_view(old(commands)@), rect, width as int),
        !transformable(path_view(old(commands)@), rect, width as int) ==> r == Err::<
            (),
            PathError,
        >(PathError::OutOfRange) && final(commands)@ == old(commands)@,
{
    let ghost before = path_view(commands@);
    if !rect.in_bounds() || width < COORD_FLOOR || width > COORD_LIMIT {
        return Err(PathError::OutOfRange);
    }
    let visits = for_each_command(commands);
    let mut i: usize = 0;
    while i < visits.len()
        invariant
            i <= visits.len(),
            visits.len() == commands.len(),
            before == path_view(commands@),
            forall|j: int|
                0 <= j < commands.len() ==> (match #[trigger] visits[j] {
                    Some(v) => Some(v@),
                    None => None,
                }) == visit_of(commands[j]@),
            forall|j: int|
                0 <= j < i ==> match visit_of(#[trigger] before[j]) {
                    Some(v) => points_in_range(v.points),
                    None => true,
                },
        decreases visits.len() - i,
    {
        assert(before[i as int] == commands[i as int]@);
        match &visits[i] {
            Some(visit) => {
                if !check_points(&visit.points) {
                    return Err(PathError::OutOfRange);
                }
            },
            None => {},
        }
        i += 1;
    }
    let mut i: usize = 0;
    while i < visits.len()
        invariant
            i <= visits.len(),
            visits.len() == commands.len(),
            before.len() == commands.len(),
            rect.wf(),
            in_range(width as int),
            path_in_range(before),
            forall|j: int|
                0 <= j < commands.len() ==> (match #[trigger] visits[j] {
                    Some(v) => Some(v@),
                    None => None,
                }) == visit_of(before[j]),
            forall|j: int|
                0 <= j < i ==> (#[trigger] commands[j])@ == flipped_command(
                    before[j],
                    rect,
                    width as int,
                ),
            forall|j: int| i <= j < commands.len() ==> (#[trigger] commands[j])@ == before[j],
        decreases visits.len() - i,
    {
        match &visits[i] {
            Some(visit) => {
                assert(visit_of(before[i as int]) == Some(visit@));
                let params = flip_points(visit, rect, width);
                let kind = commands[i].kind;
                let position = commands[i].position;
                commands.set(i, PathCommand { kind, position, params });
            },
            None => {},
        }
        i += 1;
    }
    assert(path_view(commands@) =~= flipped_path(before, rect, width as int));
    Ok(())
}

/// The offset is the slack between the reference width and the glyph's own
/// width, halved, plus the box's left bound; so an absolute point moves
/// horizontally by the halved slack alone, and by exactly half the slack
/// where the slack is even.
pub proof fn lemma_width_centring(rect: Rect, width: int, p: (int, int))
    ensures
        horizontal_offset(rect, width) == half(rect.spec_width() - width) + rect.min.0,
        flip_point(Position::Absolute, rect, width, p).0 == p.0 + half(rect.spec_width() - width),
        (rect.spec_width() - width) % 2 == 0 ==> 2 * half(rect.spec_width() - width)
            == rect.spec_width() - width,
{
}

/// An absolute point's new height is the top of the reference box minus its
/// old height, whatever the width; transforming twice with the same box
/// gives the old height back.
pub proof fn lemma_flip_absolute(rect: Rect, width: int, p: (int, int))
    ensures
        flip_point(Position::Absolute, rect, width, p).1 == rect.max.1 - p.1,
        flip_point(
            Position::Absolute,
            rect,
            width,
            flip_point(Position::Absolute, rect, width, p),
        ).1 == p.1,
{
}

/// An offset keeps its horizontal part and has its vertical part negated,
/// whatever the reference box and the width.
pub proof fn lemma_flip_relative(rect: Rect, width: int, delta: (int, int))
    ensures
        flip_point(Position::Relative, rect, width, delta) == (delta.0, -delta.1),
{
}

/// The transform changes no command's kind or addressing mode, keeps the
/// number of commands, and gives every point-bearing command two parameters
/// for each of its decoded points.
pub proof fn lemma_flipped_shape(commands: Seq<CommandView>, rect: Rect, width: int, i: int)
    requires
        0 <= i < commands.len(),
    ensures
        flipped_path(commands, rect, width).len() == commands.len(),
        flipped_path(commands, rect, width)[i].kind == commands[i].kind,
        flipped_path(commands, rect, width)[i].position == commands[i].position,
        !point_bearing(commands[i].kind) ==> flipped_path(commands, rect, width)[i] == commands[i],
        point_bearing(commands[i].kind) ==> flipped_path(commands, rect, width)[i].params.len()
            == 2 * (commands[i].params.len() / 2),
{
}

} // verus!
