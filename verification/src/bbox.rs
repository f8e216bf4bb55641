//! Bounding-box extraction: the box of the pen positions that an outline's
//! commands end their point groups on.

use vstd::prelude::*;
use crate::command::{
    for_each_command, group_size, path_in_range, path_view, point_bearing, points_in_range,
    points_of, visit_of, PathCommand, CommandView, Position, Visit, VisitView,
};
use crate::rect::{in_range, point_in_range, Rect, COORD_FLOOR, COORD_LIMIT};

verus! {

/// Why an outline cannot be measured or rewritten.
#[derive(Clone, Copy, Debug, PartialEq, Eq, Structural)]
pub enum PathError {
    /// An offset was met before any absolute point had set the pen position.
    RelativeBeforeAbsolute,
    /// A coordinate left the range that the geometry works on.
    OutOfRange,
}

/// The state of a measuring pass: the pen position, once an absolute point
/// has set it, and the box of the positions met so far.
#[derive(Clone, Copy, Debug)]
pub struct Scan {
    pub cursor: Option<(i64, i64)>,
    pub rect: Rect,
}

impl Scan {
    /// The state before any command: no pen position, the empty box.
    pub open spec fn start() -> Scan {
        Scan { cursor: None, rect: Rect::spec_new() }
    }

    /// The pen position and the box lie within the coordinate range.
    pub open spec fn wf(self) -> bool {
        self.rect.wf() && match self.cursor {
            Some(c) => point_in_range(c),
            None => true,
        }
    }
}

/// The pen position after a sampled point: the point itself where it is
/// absolute, the old position moved by it where it is an offset.
pub open spec fn resolve(cursor: Option<(i64, i64)>, position: Position, point: (i64, i64)) -> (
    int,
    int,
) {
    match position {
        Position::Absolute => (point.0 as int, point.1 as int),
        Position::Relative => match cursor {
            Some(c) => (c.0 + point.0, c.1 + point.1),
            None => (point.0 as int, point.1 as int),
        },
    }
}

/// One sampled point: the pen moves to the resolved position and the box
/// grows to cover it. An offset without a pen position, and a position
/// outside the coordinate range, are errors.
pub open spec fn sample_step(s: Scan, position: Position, point: (i64, i64)) -> Result<
    Scan,
    PathError,
> {
    let p = resolve(s.cursor, position, point);
    if position == Position::Relative && s.cursor is None {
        Err(PathError::RelativeBeforeAbsolute)
    } else if !(in_range(p.0) && in_range(p.1)) {
        Err(PathError::OutOfRange)
    } else {
        let q = (p.0 as i64, p.1 as i64);
        Ok(Scan { cursor: Some(q), rect: s.rect.spec_extend(q) })
    }
}

/// The first `k` samples of a visit: the last point of each of its first `k`
/// point groups, in order. The first error ends the pass.
pub open spec fn scan_samples(
    s: Scan,
    position: Position,
    points: Seq<(i64, i64)>,
    size: nat,
    k: nat,
) -> Result<Scan, PathError>
    decreases k,
{
    if k == 0 {
        Ok(s)
    } else {
        match scan_samples(s, position, points, size, (k - 1) as nat) {
            Err(e) => Err(e),
            Ok(t) => sample_step(t, position, points[k * size - 1]),
        }
    }
}

/// All samples of a visit: one for each complete point group.
pub open spec fn scan_visit(s: Scan, v: VisitView) -> Result<Scan, PathError> {
    scan_samples(s, v.position, v.points, v.group_size, v.points.len() / v.group_size)
}

/// The measuring pass over the first `n` commands. Commands that are not
/// point-bearing leave the state as it is.
pub open spec fn scan_path(commands: Seq<CommandView>, n: nat) -> Result<Scan, PathError>
    decreases n,
{
    if n == 0 {
        Ok(Scan::start())
    } else {
        match scan_path(commands, (n - 1) as nat) {
            Err(e) => Err(e),
            Ok(s) => match visit_of(commands[n - 1]) {
                Some(v) => scan_visit(s, v),
                None => Ok(s),
            },
        }
    }
}

/// The bounding box of an outline, or the first error of its measuring pass.
pub open spec fn bounding_box(commands: Seq<CommandView>) -> Result<Rect, PathError> {
    match scan_path(commands, commands.len()) {
        Ok(s) => Ok(s.rect),
        Err(e) => Err(e),
    }
}

/// An error among the first `k` samples is the result for any longer prefix.
pub proof fn lemma_samples_error_stays(
    s: Scan,
    position: Position,
    points: Seq<(i64, i64)>,
    size: nat,
    k: nat,
    m: nat,
)
    requires
        k <= m,
        scan_samples(s, position, points, size, k) is Err,
    ensures
        scan_samples(s, position, points, size, m) == scan_samples(s, position, points, size, k),
    decreases m,
{
    if k < m {
        lemma_samples_error_stays(s, position, points, size, k, (m - 1) as nat);
    }
}

/// An error among the first `n` commands is the result for any longer prefix.
pub proof fn lemma_path_error_stays(commands: Seq<CommandView>, n: nat, m: nat)
    requires
        n <= m,
        scan_path(commands, n) is Err,
    ensures
        scan_path(commands, m) == scan_path(commands, n),
    decreases m,
{
    if n < m {
        lemma_path_error_stays(commands, n, (m - 1) as nat);
    }
}

/// Applies one sampled point to a measuring state.
pub fn sample(s: Scan, position: Position, point: (i64, i64)) -> (r: Result<Scan, PathError>)
    requires
        s.wf(),
    ensures
        r == sample_step(s, position, point),
        r is Ok ==> r->Ok_0.wf(),
{
    let target: (i64, i64) = match position {
        Position::Absolute => {
            if point.0 < COORD_FLOOR || point.0 > COORD_LIMIT || point.1 < COORD_FLOOR || point.1
                > COORD_LIMIT {
                return Err(PathError::OutOfRange);
            }
            point
        },
        Position::Relative => {
            match s.cursor {
                None => {
                    return Err(PathError::RelativeBeforeAbsolute);
                },
                Some(c) => {
                    if point.0 < COORD_FLOOR - c.0 || point.0 > COORD_LIMIT - c.0 || point.1
                        < COORD_FLOOR - c.1 || point.1 > COORD_LIMIT - c.1 {
                        return Err(PathError::OutOfRange);
                    }
                    (c.0 + point.0, c.1 + point.1)
                },
            }
        },
    };
    let mut rect = s.rect;
    rect.extend(target);
    Ok(Scan { cursor: Some(target), rect })
}

/// Applies the samples of one visit to a measuring state: the last point of
/// each complete point group, in order.
pub fn sample_visit(s: Scan, visit: &Visit) -> (r: Result<Scan, PathError>)
    requires
        s.wf(),
        1 <= visit.group_size,
    ensures
        r == scan_visit(s, visit@),
        r is Ok ==> r->Ok_0.wf(),
{
    let size: usize = visit.group_size;
    let count: usize = visit.points.len() / size;
    let mut state = s;
    let mut k: usize = 0;
    while k < count
        invariant
            1 <= size,
            size == visit.group_size,
            count == visit.points.len() / size,
            k <= count,
            state.wf(),
            scan_samples(s, visit.position, visit.points@, size as nat, k as nat) == Ok::<
                Scan,
                PathError,
            >(state),
        decreases count - k,
    {
        assert((k + 1) * size <= visit.points.len()) by (nonlinear_arith)
            requires
                k + 1 <= count,
                count == visit.points.len() / size,
                1 <= size,
        ;
        assert((k + 1) * size == k * size + size) by (nonlinear_arith);
        assert(k * size >= 0) by (nonlinear_arith)
            requires
                k >= 0,
                size >= 1,
        ;
        let index: usize = k * size + (size - 1);
        match sample(state, visit.position, visit.points[index]) {
            Err(e) => {
                proof {
                    lemma_samples_error_stays(
                        s,
                        visit.position,
                        visit.points@,
                        size as nat,
                        (k + 1) as nat,
                        count as nat,
                    );
                }
                return Err(e);
            },
            Ok(next) => {
                state = next;
            },
        }
        k += 1;
    }
    Ok(state)
}

/// Measures an outline: the box of the pen positions that its point groups
/// end on, with offsets resolved against the running pen position.
pub fn get_rect(commands: &Vec<PathCommand>) -> (r: Result<Rect, PathError>)
    ensures
        r == bounding_box(path_view(commands@)),
        r is Ok ==> r->Ok_0.wf(),
{
    let visits = for_each_command(commands);
    let ghost path = path_view(commands@);
    let mut state = Scan { cursor: None, rect: Rect::new() };
    let mut i: usize = 0;
    while i < visits.len()
        invariant
            i <= visits.len(),
            visits.len() == commands.len(),
            path == path_view(commands@),
            forall|j: int|
                0 <= j < commands.len() ==> (match #[trigger] visits[j] {
                    Some(v) => Some(v@),
                    None => None,
                }) == visit_of(commands[j]@),
            state.wf(),
            scan_path(path, i as nat) == Ok::<Scan, PathError>(state),
        decreases visits.len() - i,
    {
        assert(path[i as int] == commands[i as int]@);
        match &visits[i] {
            Some(visit) => {
                match sample_visit(state, visit) {
                    Err(e) => {
                        proof {
                            lemma_path_error_stays(path, (i + 1) as nat, path.len());
                        }
                        return Err(e);
                    },
                    Ok(next) => {
                        state = next;
                    },
                }
            },
            None => {},
        }
        i += 1;
    }
    Ok(state.rect)
}

/// The sampled points of a visit's first `k` point groups, added to `seen`.
pub open spec fn visit_samples(
    seen: Set<(i64, i64)>,
    points: Seq<(i64, i64)>,
    size: nat,
    k: nat,
) -> Set<(i64, i64)>
    decreases k,
{
    if k == 0 {
        seen
    } else {
        visit_samples(seen, points, size, (k - 1) as nat).insert(points[k * size - 1])
    }
}

/// The sampled points of the first `n` commands.
pub open spec fn path_samples(commands: Seq<CommandView>, n: nat) -> Set<(i64, i64)>
    decreases n,
{
    if n == 0 {
        Set::empty()
    } else {
        let seen = path_samples(commands, (n - 1) as nat);
        match visit_of(commands[n - 1]) {
            Some(v) => visit_samples(
                seen,
                v.points,
                v.group_size,
                v.points.len() / v.group_size,
            ),
            None => seen,
        }
    }
}

/// `rect` is the literal box of `seen`: it covers every point of the set and
/// each of its four bounds is a coordinate of some point of the set; for the
/// empty set it is the empty box.
pub open spec fn tight(rect: Rect, seen: Set<(i64, i64)>) -> bool {
    &&& forall|p: (i64, i64)| seen.contains(p) ==> rect.covers(p)
    &&& if exists|p: (i64, i64)| seen.contains(p) {
        &&& exists|p: (i64, i64)| seen.contains(p) && p.0 == rect.min.0
        &&& exists|p: (i64, i64)| seen.contains(p) && p.1 == rect.min.1
        &&& exists|p: (i64, i64)| seen.contains(p) && p.0 == rect.max.0
        &&& exists|p: (i64, i64)| seen.contains(p) && p.1 == rect.max.1
    } else {
        rect == Rect::spec_new()
    }
}

/// Every point-bearing command is addressed absolutely.
pub open spec fn all_absolute(commands: Seq<CommandView>) -> bool {
    forall|i: int|
        0 <= i < commands.len() && point_bearing((#[trigger] commands[i]).kind) ==> commands[i].position
            == Position::Absolute
}

/// Growing the literal box of a set by an in-range point gives the literal
/// box of the set with that point added.
pub proof fn lemma_tight_extend(rect: Rect, seen: Set<(i64, i64)>, point: (i64, i64))
    requires
        tight(rect, seen),
        point_in_range(point),
    ensures
        tight(rect.spec_extend(point), seen.insert(point)),
{
    let grown = rect.spec_extend(point);
    let more = seen.insert(point);
    assert(more.contains(point));
    if exists|p: (i64, i64)| seen.contains(p) {
        let a = choose|p: (i64, i64)| seen.contains(p) && p.0 == rect.min.0;
        let b = choose|p: (i64, i64)| seen.contains(p) && p.1 == rect.min.1;
        let c = choose|p: (i64, i64)| seen.contains(p) && p.0 == rect.max.0;
        let d = choose|p: (i64, i64)| seen.contains(p) && p.1 == rect.max.1;
        let a2 = if grown.min.0 == rect.min.0 { a } else { point };
        let b2 = if grown.min.1 == rect.min.1 { b } else { point };
        let c2 = if grown.max.0 == rect.max.0 { c } else { point };
        let d2 = if grown.max.1 == rect.max.1 { d } else { point };
        assert(more.contains(a2) && a2.0 == grown.min.0);
        assert(more.contains(b2) && b2.1 == grown.min.1);
        assert(more.contains(c2) && c2.0 == grown.max.0);
        assert(more.contains(d2) && d2.1 == grown.max.1);
    } else {
        assert(more.contains(point) && point.0 == grown.min.0);
        assert(more.contains(point) && point.1 == grown.min.1);
        assert(more.contains(point) && point.0 == grown.max.0);
        assert(more.contains(point) && point.1 == grown.max.1);
    }
}

/// The first `k` samples of an absolute visit with in-range points succeed,
/// and keep the box the literal box of the points sampled so far.
pub proof fn lemma_absolute_visit(
    s: Scan,
    seen: Set<(i64, i64)>,
    points: Seq<(i64, i64)>,
    size: nat,
    k: nat,
)
    requires
        tight(s.rect, seen),
        1 <= size,
        k <= points.len() / size,
        forall|j: int| 0 <= j < points.len() ==> point_in_range(#[trigger] points[j]),
    ensures
        scan_samples(s, Position::Absolute, points, size, k) is Ok,
        tight(
            scan_samples(s, Position::Absolute, points, size, k)->Ok_0.rect,
            visit_samples(seen, points, size, k),
        ),
    decreases k,
{
    if k > 0 {
        lemma_absolute_visit(s, seen, points, size, (k - 1) as nat);
        assert(1 <= k * size <= points.len()) by (nonlinear_arith)
            requires
                1 <= k,
                1 <= size,
                k <= points.len() / size,
        ;
        let t = scan_samples(s, Position::Absolute, points, size, (k - 1) as nat)->Ok_0;
        let p = points[k * size - 1];
        assert(point_in_range(p));
        lemma_tight_extend(t.rect, visit_samples(seen, points, size, (k - 1) as nat), p);
    }
}

/// For an outline of absolute commands whose points lie within the
/// coordinate range, the measuring pass over the first `n` commands succeeds
/// and its box is the literal box of the points sampled in them.
pub proof fn lemma_absolute_prefix(commands: Seq<CommandView>, n: nat)
    requires
        all_absolute(commands),
        path_in_range(commands),
        n <= commands.len(),
    ensures
        scan_path(commands, n) is Ok,
        tight(scan_path(commands, n)->Ok_0.rect, path_samples(commands, n)),
    decreases n,
{
    if n > 0 {
        lemma_absolute_prefix(commands, (n - 1) as nat);
        let s = scan_path(commands, (n - 1) as nat)->Ok_0;
        let c = commands[n - 1];
        match visit_of(c) {
            Some(v) => {
                assert(points_in_range(v.points));
                lemma_absolute_visit(
                    s,
                    path_samples(commands, (n - 1) as nat),
                    v.points,
                    v.group_size,
                    v.points.len() / v.group_size,
                );
            },
            None => {},
        }
    }
}

/// For an outline of absolute commands whose points lie within the
/// coordinate range, the bounding box is the literal box of all sampled
/// points: it covers each of them and each bound is one of their
/// coordinates.
pub proof fn lemma_absolute_bounding_box(commands: Seq<CommandView>)
    requires
        all_absolute(commands),
        path_in_range(commands),
    ensures
        bounding_box(commands) is Ok,
        tight(bounding_box(commands)->Ok_0, path_samples(commands, commands.len())),
{
    lemma_absolute_prefix(commands, commands.len());
}

/// An offset moves the pen from where it stands: with the pen at `c`, the
/// sample `delta` puts it at `c + delta` and grows the box to cover that
/// position, provided it lies within the coordinate range.
pub proof fn lemma_relative_resolution(s: Scan, c: (i64, i64), delta: (i64, i64))
    requires
        s.cursor == Some(c),
        in_range(c.0 + delta.0),
        in_range(c.1 + delta.1),
    ensures
        sample_step(s, Position::Relative, delta) == Ok::<Scan, PathError>(
            Scan {
                cursor: Some(((c.0 + delta.0) as i64, (c.1 + delta.1) as i64)),
                rect: s.rect.spec_extend(((c.0 + delta.0) as i64, (c.1 + delta.1) as i64)),
            },
        ),
{
}

/// Commands that are not point-bearing leave the measuring pass at its start.
pub proof fn lemma_untouched_prefix(commands: Seq<CommandView>, n: nat)
    requires
        n <= commands.len(),
        forall|j: int| 0 <= j < n ==> !point_bearing((#[trigger] commands[j]).kind),
    ensures
        scan_path(commands, n) == Ok::<Scan, PathError>(Scan::start()),
    decreases n,
{
    if n > 0 {
        lemma_untouched_prefix(commands, (n - 1) as nat);
    }
}

/// An outline whose first point-bearing command is an offset with at least
/// one complete point group cannot be measured: there is no pen position to
/// move.
pub proof fn lemma_relative_first_fails(commands: Seq<CommandView>, i: int)
    requires
        0 <= i < commands.len(),
        forall|j: int| 0 <= j < i ==> !point_bearing((#[trigger] commands[j]).kind),
        point_bearing(commands[i].kind),
        commands[i].position == Position::Relative,
        points_of(commands[i].params).len() >= group_size(commands[i].kind),
    ensures
        bounding_box(commands) == Err::<Rect, PathError>(PathError::RelativeBeforeAbsolute),
{
    lemma_untouched_prefix(commands, i as nat);
    let v = visit_of(commands[i])->Some_0;
    let count = v.points.len() / v.group_size;
    assert(count >= 1) by (nonlinear_arith)
        requires
            count == v.points.len() / v.group_size,
            v.points.len() >= v.group_size,
            v.group_size >= 1,
    ;
    assert(scan_samples(Scan::start(), v.position, v.points, v.group_size, 0) == Ok::<
        Scan,
        PathError,
    >(Scan::start()));
    assert(scan_samples(Scan::start(), v.position, v.points, v.group_size, 1) == Err::<
        Scan,
        PathError,
    >(PathError::RelativeBeforeAbsolute));
    lemma_samples_error_stays(Scan::start(), v.position, v.points, v.group_size, 1, count);
    assert(scan_path(commands, (i + 1) as nat) == Err::<Scan, PathError>(
        PathError::RelativeBeforeAbsolute,
    ));
    lemma_path_error_stays(commands, (i + 1) as nat, commands.len());
}

} // verus!
