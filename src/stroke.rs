use vstd::prelude::*;
use crate::vector::{Point, Vector, cross, spec_rotate_cw, spec_rotate_ccw};

verus! {

/// One piece of output geometry.
#[derive(Clone, Debug, PartialEq)]
pub enum Primitive {
    /// The segment from `from` to `to`, displaced by `offset` scaled to half of
    /// `diameter`.
    Line { from: Point, to: Point, offset: Vector, diameter: u64 },
    /// The arc around `center` with radius half of `diameter`, running
    /// counter-clockwise from the direction `start` to the direction `end`.
    Arc { center: Point, start: Vector, end: Vector, diameter: u64 },
    /// A polyline through `points`, in order.
    Polyline { points: Vec<Point> },
    /// An instance of the symbol of aperture `aperture` placed at `location`.
    Placement { aperture: i32, location: Point },
}

/// Every point of the path lies within the coordinate limit.
pub open spec fn all_in_range(path: Seq<Point>) -> bool {
    forall|i: int| 0 <= i < path.len() ==> (#[trigger] path[i]).in_range()
}

/// Some two consecutive points of `path` coincide.
pub open spec fn has_coincident(path: Seq<Point>) -> bool {
    exists|i: int| 0 <= i < path.len() - 1 && #[trigger] path[i] == path[i + 1]
}

/// The vector from `a` to `b`.
pub open spec fn vec_of(a: Point, b: Point) -> Vector {
    Vector { x: (b.x - a.x) as i64, y: (b.y - a.y) as i64 }
}

/// The offset edge of segment `a`-`b` on the side that `cw` picks.
pub open spec fn offset_line(a: Point, b: Point, cw: bool, diameter: u64) -> Primitive {
    let v = vec_of(a, b);
    Primitive::Line {
        from: a,
        to: b,
        offset: if cw { spec_rotate_cw(v) } else { spec_rotate_ccw(v) },
        diameter,
    }
}

/// The arc joining the offset edges at the joint `b` between `a` and `c`, on the
/// outer side of the turn.
pub open spec fn corner_arc(a: Point, b: Point, c: Point, diameter: u64) -> Primitive {
    let u = vec_of(b, a);
    let w = vec_of(b, c);
    if cross(u, w) > 0 {
        Primitive::Arc { center: b, start: spec_rotate_cw(w), end: spec_rotate_ccw(u), diameter }
    } else {
        Primitive::Arc { center: b, start: spec_rotate_cw(u), end: spec_rotate_ccw(w), diameter }
    }
}

/// The half-circle cap at the end point `center` of a path whose neighbouring
/// point is `toward`.
pub open spec fn cap_arc(center: Point, toward: Point, diameter: u64) -> Primitive {
    let v = vec_of(center, toward);
    Primitive::Arc { center, start: spec_rotate_cw(v), end: spec_rotate_ccw(v), diameter }
}

/// Element `k` of the outline of `path`: for each segment its two offset edges,
/// followed by the corner arc at its end when another segment follows; then the
/// cap at the first point and the cap at the last point.
pub open spec fn stroke_element(path: Seq<Point>, diameter: u64, k: int) -> Primitive {
    let n = path.len() as int;
    if k < 3 * n - 4 {
        let i = k / 3;
        if k % 3 == 0 {
            offset_line(path[i], path[i + 1], true, diameter)
        } else if k % 3 == 1 {
            offset_line(path[i], path[i + 1], false, diameter)
        } else {
            corner_arc(path[i], path[i + 1], path[i + 2], diameter)
        }
    } else if k == 3 * n - 4 {
        cap_arc(path[0], path[1], diameter)
    } else {
        cap_arc(path[n - 1], path[n - 2], diameter)
    }
}

/// The outline of a path of at least two points stroked by a round pen.
pub open spec fn stroke_outline(path: Seq<Point>, diameter: u64) -> Seq<Primitive> {
    Seq::new((3 * path.len() - 2) as nat, |k: int| stroke_element(path, diameter, k))
}

fn offset_lines(a: &Point, b: &Point, diameter: u64) -> (r: (Primitive, Primitive))
    requires
        a.in_range(),
        b.in_range(),
    ensures
        r.0 == offset_line(*a, *b, true, diameter),
        r.1 == offset_line(*a, *b, false, diameter),
{
    let v = Vector::from_points(a, b);
    (
        Primitive::Line { from: *a, to: *b, offset: v.get_rotate_cw(), diameter },
        Primitive::Line { from: *a, to: *b, offset: v.get_rotate_ccw(), diameter },
    )
}

/// The arc at the joint `point_b` between `point_a` and `point_c`, on the outer
/// side of the turn.
pub fn interpolation_arc(point_a: &Point, point_b: &Point, point_c: &Point, diameter: u64) -> (r:
    Primitive)
    requires
        point_a.in_range(),
        point_b.in_range(),
        point_c.in_range(),
    ensures
        r == corner_arc(*point_a, *point_b, *point_c, diameter),
{
    let u = Vector::from_points(point_b, point_a);
    let w = Vector::from_points(point_b, point_c);
    if u.turns_past_half(&w) {
        Primitive::Arc { center: *point_b, start: w.get_rotate_cw(), end: u.get_rotate_ccw(), diameter }
    } else {
        Primitive::Arc { center: *point_b, start: u.get_rotate_cw(), end: w.get_rotate_ccw(), diameter }
    }
}

/// The half-circle cap at `center`, the end of a path whose neighbouring point
/// is `toward`.
pub fn end_cap(center: &Point, toward: &Point, diameter: u64) -> (r: Primitive)
    requires
        center.in_range(),
        toward.in_range(),
    ensures
        r == cap_arc(*center, *toward, diameter),
{
    let v = Vector::from_points(center, toward);
    Primitive::Arc { center: *center, start: v.get_rotate_cw(), end: v.get_rotate_ccw(), diameter }
}

/// Appends the outline of `coord_list` stroked by a round pen of `diameter`.
pub fn add_circle_interpolation(drawing: &mut Vec<Primitive>, coord_list: &Vec<Point>, diameter: u64)
    requires
        coord_list@.len() >= 2,
        all_in_range(coord_list@),
        !has_coincident(coord_list@),
        diameter > 0,
    ensures
        final(drawing)@ == old(drawing)@ + stroke_outline(coord_list@, diameter),
{
    let len = coord_list.len();
    let ghost path = coord_list@;
    let ghost start = drawing@;
    let mut i: usize = 0;
    while i + 2 < len
        invariant
            path == coord_list@,
            len == path.len(),
            len >= 2,
            all_in_range(path),
            i + 2 <= len,
            drawing@ == start + Seq::new((3 * i) as nat, |k: int| stroke_element(path, diameter, k)),
        decreases len - i,
    {
        let (cw_line, ccw_line) = offset_lines(&coord_list[i], &coord_list[i + 1], diameter);
        let arc = interpolation_arc(&coord_list[i], &coord_list[i + 1], &coord_list[i + 2], diameter);
        drawing.push(cw_line);
        drawing.push(ccw_line);
        drawing.push(arc);
        proof {
            let k0 = 3 * i as int;
            assert(k0 / 3 == i && k0 % 3 == 0);
            assert((k0 + 1) / 3 == i && (k0 + 1) % 3 == 1);
            assert((k0 + 2) / 3 == i && (k0 + 2) % 3 == 2);
            assert(drawing@ =~= start + Seq::new((3 * (i + 1)) as nat, |k: int| stroke_element(path, diameter, k)));
        }
        i = i + 1;
    }
    let (cw_line, ccw_line) = offset_lines(&coord_list[i], &coord_list[i + 1], diameter);
    drawing.push(cw_line);
    drawing.push(ccw_line);
    let first = end_cap(&coord_list[0], &coord_list[1], diameter);
    drawing.push(first);
    let last = end_cap(&coord_list[len - 1], &coord_list[len - 2], diameter);
    drawing.push(last);
    proof {
        let k0 = 3 * i as int;
        assert(k0 / 3 == i && k0 % 3 == 0);
        assert((k0 + 1) / 3 == i && (k0 + 1) % 3 == 1);
        assert(drawing@ =~= start + stroke_outline(path, diameter));
    }
}

/// The number of offset edges in `s`.
pub open spec fn count_lines(s: Seq<Primitive>) -> nat
    decreases s.len(),
{
    if s.len() == 0 {
        0
    } else {
        count_lines(s.drop_last()) + if s.last() is Line { 1nat } else { 0nat }
    }
}

/// The number of arcs in `s`.
pub open spec fn count_arcs(s: Seq<Primitive>) -> nat
    decreases s.len(),
{
    if s.len() == 0 {
        0
    } else {
        count_arcs(s.drop_last()) + if s.last() is Arc { 1nat } else { 0nat }
    }
}

proof fn lemma_outline_prefix_counts(path: Seq<Point>, diameter: u64, i: int)
    requires
        path.len() >= 2,
        0 <= i <= path.len() - 2,
    ensures
        count_lines(stroke_outline(path, diameter).take(3 * i)) == 2 * i,
        count_arcs(stroke_outline(path, diameter).take(3 * i)) == i,
    decreases i,
{
    let o = stroke_outline(path, diameter);
    if i == 0 {
        assert(o.take(0) =~= Seq::<Primitive>::empty());
    } else {
        lemma_outline_prefix_counts(path, diameter, i - 1);
        lemma_stroke_shape(path, diameter);
        let k = 3 * (i - 1);
        let t0 = o.take(k);
        let t1 = o.take(k + 1);
        let t2 = o.take(k + 2);
        let t3 = o.take(k + 3);
        assert(t3.drop_last() =~= t2 && t3.last() == o[k + 2]);
        assert(t2.drop_last() =~= t1 && t2.last() == o[k + 1]);
        assert(t1.drop_last() =~= t0 && t1.last() == o[k]);
        assert(o[k] is Line && o[k + 1] is Line && o[k + 2] is Arc);
        assert(count_lines(t1) == count_lines(t0) + 1);
        assert(count_lines(t2) == count_lines(t1) + 1);
        assert(count_lines(t3) == count_lines(t2));
        assert(count_arcs(t1) == count_arcs(t0));
        assert(count_arcs(t2) == count_arcs(t1));
        assert(count_arcs(t3) == count_arcs(t2) + 1);
    }
}

/// Counted, the outline of a path of `n` points holds `2 * (n - 1)` offset
/// edges and `n` arcs: `n - 2` corner arcs and the two caps, which come last.
pub proof fn lemma_stroke_counts(path: Seq<Point>, diameter: u64)
    requires
        path.len() >= 2,
    ensures
        ({
            let n = path.len() as int;
            let o = stroke_outline(path, diameter);
            &&& count_lines(o) == 2 * (n - 1)
            &&& count_arcs(o) == n
            &&& count_arcs(o.take(3 * n - 4)) == n - 2
            &&& o[3 * n - 4] == cap_arc(path[0], path[1], diameter)
            &&& o[3 * n - 3] == cap_arc(path[n - 1], path[n - 2], diameter)
        }),
{
    let n = path.len() as int;
    let o = stroke_outline(path, diameter);
    lemma_stroke_shape(path, diameter);
    lemma_outline_prefix_counts(path, diameter, n - 2);
    let k = 3 * n - 6;
    let t0 = o.take(k);
    let t1 = o.take(k + 1);
    let t2 = o.take(k + 2);
    let t3 = o.take(k + 3);
    assert(t1.drop_last() =~= t0 && t1.last() == o[k]);
    assert(t2.drop_last() =~= t1 && t2.last() == o[k + 1]);
    assert(t3.drop_last() =~= t2 && t3.last() == o[k + 2]);
    assert(o.drop_last() =~= t3 && o.last() == o[k + 3]);
    assert(o[k] is Line && o[k + 1] is Line && o[k + 2] is Arc && o[k + 3] is Arc);
    assert(count_lines(t1) == count_lines(t0) + 1);
    assert(count_lines(t2) == count_lines(t1) + 1);
    assert(count_lines(t3) == count_lines(t2));
    assert(count_lines(o) == count_lines(t3));
    assert(count_arcs(t1) == count_arcs(t0));
    assert(count_arcs(t2) == count_arcs(t1));
    assert(count_arcs(t3) == count_arcs(t2) + 1);
    assert(count_arcs(o) == count_arcs(t3) + 1);
}

/// The points of `path` in reverse order.
pub open spec fn reversed(path: Seq<Point>) -> Seq<Point> {
    Seq::new(path.len(), |i: int| path[path.len() - 1 - i])
}

/// `l` and `m` are offset edges covering the same segment on the same side,
/// walked in opposite directions.
pub open spec fn same_edge(l: Primitive, m: Primitive) -> bool {
    match (l, m) {
        (
            Primitive::Line { from: f1, to: t1, offset: o1, diameter: d1 },
            Primitive::Line { from: f2, to: t2, offset: o2, diameter: d2 },
        ) => f1 == t2 && t1 == f2 && o1 == o2 && d1 == d2,
        _ => false,
    }
}

/// The outline of a path of `n` points has `3 * n - 2` elements: the two offset
/// edges of each of the `n - 1` segments, one corner arc at each of the `n - 2`
/// interior points, and a cap at each end, and nothing else.
pub proof fn lemma_stroke_shape(path: Seq<Point>, diameter: u64)
    requires
        path.len() >= 2,
    ensures
        ({
            let n = path.len() as int;
            let o = stroke_outline(path, diameter);
            &&& o.len() == 3 * n - 2
            &&& forall|i: int| 0 <= i < n - 1 ==> #[trigger] o[3 * i] == offset_line(path[i], path[i + 1], true, diameter)
                && o[3 * i + 1] == offset_line(path[i], path[i + 1], false, diameter)
            &&& forall|i: int| 1 <= i < n - 1 ==> #[trigger] o[3 * i - 1] == corner_arc(path[i - 1], path[i], path[i + 1], diameter)
            &&& o[3 * n - 4] == cap_arc(path[0], path[1], diameter)
            &&& o[3 * n - 3] == cap_arc(path[n - 1], path[n - 2], diameter)
            &&& forall|k: int| 0 <= k < o.len() ==> ((#[trigger] o[k] is Line) <==> (k < 3 * n - 4 && k % 3 != 2))
        }),
{
    let n = path.len() as int;
    let o = stroke_outline(path, diameter);
    assert forall|i: int| 0 <= i < n - 1 implies #[trigger] o[3 * i] == offset_line(path[i], path[i + 1], true, diameter)
        && o[3 * i + 1] == offset_line(path[i], path[i + 1], false, diameter) by {
        assert((3 * i) / 3 == i && (3 * i) % 3 == 0);
        assert((3 * i + 1) / 3 == i && (3 * i + 1) % 3 == 1);
    }
    assert forall|i: int| 1 <= i < n - 1 implies #[trigger] o[3 * i - 1] == corner_arc(path[i - 1], path[i], path[i + 1], diameter) by {
        assert((3 * i - 1) / 3 == i - 1 && (3 * i - 1) % 3 == 2);
    }
}

/// Stroking a path and stroking it reversed give the same offset edges, each
/// walked the other way, the same caps, and the same corner arc at every
/// interior point where the path turns.
pub proof fn lemma_stroke_reversal(path: Seq<Point>, diameter: u64)
    requires
        path.len() >= 2,
        all_in_range(path),
    ensures
        ({
            let n = path.len() as int;
            let o = stroke_outline(path, diameter);
            let r = stroke_outline(reversed(path), diameter);
            &&& r.len() == o.len()
            &&& forall|i: int| 0 <= i < n - 1 ==> same_edge(#[trigger] r[3 * (n - 2 - i)], o[3 * i + 1])
                && same_edge(r[3 * (n - 2 - i) + 1], o[3 * i])
            &&& forall|i: int| 1 <= i < n - 1 && cross(vec_of(path[i], path[i - 1]), vec_of(path[i], path[i + 1])) != 0
                ==> #[trigger] r[3 * (n - 1 - i) - 1] == o[3 * i - 1]
            &&& r[3 * n - 4] == o[3 * n - 3]
            &&& r[3 * n - 3] == o[3 * n - 4]
        }),
{
    let n = path.len() as int;
    let q = reversed(path);
    lemma_stroke_shape(path, diameter);
    lemma_stroke_shape(q, diameter);
    let o = stroke_outline(path, diameter);
    let r = stroke_outline(q, diameter);
    assert forall|i: int| 0 <= i < n - 1 implies same_edge(#[trigger] r[3 * (n - 2 - i)], o[3 * i + 1])
        && same_edge(r[3 * (n - 2 - i) + 1], o[3 * i]) by {
        let j = n - 2 - i;
        assert(q[j] == path[i + 1] && q[j + 1] == path[i]);
        assert(path[i].in_range() && path[i + 1].in_range());
    }
    assert forall|i: int| 1 <= i < n - 1 && cross(vec_of(path[i], path[i - 1]), vec_of(path[i], path[i + 1])) != 0
        implies #[trigger] r[3 * (n - 1 - i) - 1] == o[3 * i - 1] by {
        let j = n - 1 - i;
        assert(q[j - 1] == path[i + 1] && q[j] == path[i] && q[j + 1] == path[i - 1]);
        let u = vec_of(path[i], path[i - 1]);
        let w = vec_of(path[i], path[i + 1]);
        assert(cross(w, u) == -cross(u, w)) by (nonlinear_arith);
    }
    assert(q[0] == path[n - 1] && q[1] == path[n - 2] && q[n - 1] == path[0] && q[n - 2] == path[1]);
}

} // verus!
