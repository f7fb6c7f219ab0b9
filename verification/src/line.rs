//! Stroke meshes: which vertices a stroke is drawn with, and in what order.
use vstd::arithmetic::div_mod::{lemma_mod_self_0, lemma_small_mod};
use vstd::arithmetic::power2::{lemma2_to64, lemma_pow2_strictly_increases, pow2};
use vstd::bits::lemma_u32_shl_is_mul;
use vstd::prelude::*;

use crate::point::Point;

verus! {

/// Lowest subdivision level of a cap.
pub const MIN_LEVEL: u32 = 2;

/// Highest subdivision level of a cap.
pub const MAX_LEVEL: u32 = 12;

/// The subdivision level used for a point of the given detail: the detail,
/// brought into `MIN_LEVEL ..= MAX_LEVEL`.
pub open spec fn level(detail: u32) -> nat {
    if detail < MIN_LEVEL {
        MIN_LEVEL as nat
    } else if detail > MAX_LEVEL {
        MAX_LEVEL as nat
    } else {
        detail as nat
    }
}

/// The number of wedges in the cap of a point of the given detail:
/// two to the power of its level.
pub open spec fn wedge_count(detail: u32) -> nat {
    pow2(level(detail))
}

/// Number of wedges that approximate the cap of a point of the given detail.
pub fn get_number(detail: u32) -> (num: u32)
    ensures
        num == wedge_count(detail),
        4 <= num <= 4096,
{
    let shift: u32 = if detail < MIN_LEVEL {
        MIN_LEVEL
    } else if detail > MAX_LEVEL {
        MAX_LEVEL
    } else {
        detail
    };
    proof {
        lemma_wedge_count_bounds(detail);
        lemma_u32_shl_is_mul(1, shift);
    }
    1u32 << shift
}

/// Every cap has at least 4 and at most 4096 wedges.
pub proof fn lemma_wedge_count_bounds(detail: u32)
    ensures
        4 <= wedge_count(detail) <= 4096,
{
    lemma2_to64();
    if level(detail) > 2 {
        lemma_pow2_strictly_increases(2, level(detail));
    }
    if level(detail) < 12 {
        lemma_pow2_strictly_increases(level(detail), 12);
    }
}

/// The number of wedges of a cap is a power of two.
pub proof fn lemma_wedge_count_power_of_two(detail: u32)
    ensures
        exists|k: nat| 2 <= k <= 12 && wedge_count(detail) == pow2(k),
{
    assert(2 <= level(detail) <= 12 && wedge_count(detail) == pow2(level(detail)));
}

/// A point of higher detail never gets fewer wedges.
pub proof fn lemma_wedge_count_monotone(low: u32, high: u32)
    requires
        low <= high,
    ensures
        wedge_count(low) <= wedge_count(high),
{
    if level(low) < level(high) {
        lemma_pow2_strictly_increases(level(low), level(high));
    }
}

/// The side of a segment, seen from its earlier point towards its later one.
#[derive(Clone, Copy, Debug, PartialEq, Eq, Structural)]
pub enum Side {
    Left,
    Right,
}

/// One vertex of a stroke mesh, described by its place in the stroke's
/// geometry. `point` is always the index of the stroke point that the vertex
/// belongs to: it is placed relative to that point's position, at most that
/// point's radius away, and it carries that point's colour.
#[derive(Clone, Copy, Debug, PartialEq, Eq, Structural)]
pub enum Vertex {
    /// The centre of the point's cap.
    Center { point: usize },
    /// On the rim of the point's cap, `step` steps of a `steps`-th of a full
    /// turn counter-clockwise from the positive x direction.
    Rim { point: usize, step: u32, steps: u32 },
    /// Where an outer tangent common to the caps of `point` and of the
    /// neighbouring point `other` touches the cap of `point`, on the given
    /// side of the segment between the two.
    Tangent { point: usize, other: usize, side: Side },
}

impl Vertex {
    /// Index of the stroke point that the vertex belongs to.
    pub open spec fn anchor(self) -> usize {
        match self {
            Vertex::Center { point } => point,
            Vertex::Rim { point, .. } => point,
            Vertex::Tangent { point, .. } => point,
        }
    }

    /// Index of the stroke point that the vertex belongs to.
    pub fn point(&self) -> (index: usize)
        ensures
            index == self.anchor(),
    {
        match self {
            Vertex::Center { point } => *point,
            Vertex::Rim { point, .. } => *point,
            Vertex::Tangent { point, .. } => *point,
        }
    }
}

/// The `k`-th vertex of the cap of stroke point `point`, drawn with `steps`
/// wedges. Wedge `k / 3` is the triangle of the centre, rim step `k / 3` and
/// rim step `k / 3 + 1`, in this order.
pub open spec fn cap_vertex(point: usize, steps: u32, k: int) -> Vertex {
    if k % 3 == 0 {
        Vertex::Center { point }
    } else if k % 3 == 1 {
        Vertex::Rim { point, step: (k / 3) as u32, steps }
    } else {
        Vertex::Rim { point, step: (k / 3 + 1) as u32, steps }
    }
}

/// The cap of stroke point `point` as a fan of `steps` wedges.
pub open spec fn cap(point: usize, steps: u32) -> Seq<Vertex> {
    Seq::new(3 * steps as nat, |k: int| cap_vertex(point, steps, k))
}

/// Appends the cap of `point`, which is the stroke's point number `index`,
/// to `vertex_v`.
pub fn point_to_vertex(vertex_v: &mut Vec<Vertex>, index: usize, point: &Point)
    ensures
        final(vertex_v)@ == old(vertex_v)@ + cap(index, wedge_count(point.detail) as u32),
{
    let num = get_number(point.detail);
    let mut i: u32 = 0;
    while i < num
        invariant
            i <= num <= 4096,
            vertex_v@ == old(vertex_v)@ + cap(index, num).subrange(0, 3 * i),
        decreases num - i,
    {
        vertex_v.push(Vertex::Center { point: index });
        vertex_v.push(Vertex::Rim { point: index, step: i, steps: num });
        vertex_v.push(Vertex::Rim { point: index, step: i + 1, steps: num });
        i += 1;
    }
}

/// The quad that bridges the caps of stroke points `later - 1` and `later`,
/// as two triangles. With `a`, `b` the left tangent points on the earlier and
/// on the later cap and `c`, `d` the right ones, the triangles are `a c b`
/// and `b c d`.
pub open spec fn join(later: usize) -> Seq<Vertex>
    recommends
        later >= 1,
{
    let earlier = (later - 1) as usize;
    let a = Vertex::Tangent { point: earlier, other: later, side: Side::Left };
    let b = Vertex::Tangent { point: later, other: earlier, side: Side::Left };
    let c = Vertex::Tangent { point: earlier, other: later, side: Side::Right };
    let d = Vertex::Tangent { point: later, other: earlier, side: Side::Right };
    seq![a, c, b, b, c, d]
}

/// The mesh of a stroke: the cap of its first point, then for each further
/// point its cap, followed at once by the join with the point before it.
pub open spec fn mesh(points: Seq<Point>) -> Seq<Vertex>
    decreases points.len(),
{
    if points.len() == 0 {
        Seq::empty()
    } else {
        let last = points.len() - 1;
        let upto = mesh(points.drop_last()) + cap(
            last as usize,
            wedge_count(points[last].detail) as u32,
        );
        if last == 0 {
            upto
        } else {
            upto + join(last as usize)
        }
    }
}

/// The number of wedges in all the caps of a stroke together.
pub open spec fn wedge_total(points: Seq<Point>) -> nat
    decreases points.len(),
{
    if points.len() == 0 {
        0
    } else {
        wedge_total(points.drop_last()) + wedge_count(points.last().detail)
    }
}

/// Builds the mesh of the stroke that runs through `point_v`.
pub fn point_v_to_vertex_v(point_v: &Vec<Point>) -> (vertex_v: Vec<Vertex>)
    ensures
        vertex_v@ == mesh(point_v@),
{
    let mut vertex_v: Vec<Vertex> = Vec::new();
    let mut i: usize = 0;
    while i < point_v.len()
        invariant
            i <= point_v.len(),
            vertex_v@ == mesh(point_v@.subrange(0, i as int)),
        decreases point_v.len() - i,
    {
        proof {
            assert(point_v@.subrange(0, i + 1).drop_last() == point_v@.subrange(0, i as int));
        }
        point_to_vertex(&mut vertex_v, i, &point_v[i]);
        if i > 0 {
            let a = Vertex::Tangent { point: i - 1, other: i, side: Side::Left };
            let b = Vertex::Tangent { point: i, other: i - 1, side: Side::Left };
            let c = Vertex::Tangent { point: i - 1, other: i, side: Side::Right };
            let d = Vertex::Tangent { point: i, other: i - 1, side: Side::Right };
            vertex_v.push(a);
            vertex_v.push(c);
            vertex_v.push(b);
            vertex_v.push(b);
            vertex_v.push(c);
            vertex_v.push(d);
        }
        i += 1;
    }
    proof {
        assert(point_v@.subrange(0, i as int) == point_v@);
    }
    vertex_v
}

/// The cap of a point has three vertices for each of its wedges.
pub proof fn lemma_cap_len(point: usize, detail: u32)
    ensures
        cap(point, wedge_count(detail) as u32).len() == 3 * wedge_count(detail),
{
    lemma_wedge_count_bounds(detail);
}

/// A stroke of `n >= 1` points is drawn with three vertices for each wedge of
/// each cap and six for each of its `n - 1` joins.
pub proof fn lemma_mesh_len(points: Seq<Point>)
    ensures
        points.len() == 0 ==> mesh(points).len() == 0,
        points.len() >= 1 ==> mesh(points).len() == 3 * wedge_total(points) + 6 * (points.len()
            - 1),
    decreases points.len(),
{
    if points.len() > 0 {
        let last = points.len() - 1;
        let before = mesh(points.drop_last());
        let fan = cap(last as usize, wedge_count(points[last].detail) as u32);
        lemma_mesh_len(points.drop_last());
        lemma_cap_len(last as usize, points[last].detail);
        assert(wedge_total(points) == wedge_total(points.drop_last()) + wedge_count(
            points[last].detail,
        ));
        if last == 0 {
            assert(mesh(points) == before + fan);
        } else {
            assert(join(last as usize).len() == 6);
            assert(mesh(points) == before + fan + join(last as usize));
        }
    }
}

/// The vertices of a mesh come in threes: each three in a row are one
/// triangle.
pub proof fn lemma_mesh_triangles(points: Seq<Point>)
    ensures
        mesh(points).len() % 3 == 0,
{
    lemma_mesh_len(points);
    if points.len() >= 1 {
        let third = wedge_total(points) + 2 * (points.len() - 1);
        assert(mesh(points).len() == 3 * third);
    }
}

/// Two vertices mark the same spot on the rim of the same cap: they are a
/// whole number of turns apart.
pub open spec fn same_rim_spot(v: Vertex, w: Vertex) -> bool {
    match (v, w) {
        (
            Vertex::Rim { point: p, step: s, steps: n },
            Vertex::Rim { point: q, step: t, steps: m },
        ) => p == q && n == m && n > 0 && s % n == t % n,
        _ => false,
    }
}

/// Wedge `w` of `fan` is a triangle of the centre of the cap of `point` and
/// two rim spots, one step apart, and it ends on the rim where the next
/// wedge begins. The wedge after the last one is the first.
pub open spec fn wedge_closes(fan: Seq<Vertex>, point: usize, steps: u32, w: int) -> bool {
    &&& fan[3 * w] == Vertex::Center { point }
    &&& fan[3 * w + 1] == Vertex::Rim { point, step: w as u32, steps }
    &&& fan[3 * w + 2] == Vertex::Rim { point, step: (w + 1) as u32, steps }
    &&& same_rim_spot(fan[3 * w + 2], fan[3 * ((w + 1) % (steps as int)) + 1])
}

/// `fan` is a closed fan of `steps` wedges around the centre of `point`.
pub open spec fn closed_fan(fan: Seq<Vertex>, point: usize, steps: u32) -> bool {
    &&& fan.len() == 3 * steps
    &&& forall|w: int| 0 <= w < steps ==> #[trigger] wedge_closes(fan, point, steps, w)
}

/// A cap is a closed fan.
pub proof fn lemma_cap_closed(point: usize, steps: u32)
    requires
        steps >= 1,
    ensures
        closed_fan(cap(point, steps), point, steps),
{
    let fan = cap(point, steps);
    assert forall|w: int| 0 <= w < steps implies #[trigger] wedge_closes(fan, point, steps, w) by {
        let next = (w + 1) % (steps as int);
        if w + 1 == steps {
            lemma_mod_self_0(steps as int);
            lemma_small_mod(0, steps as nat);
        } else {
            lemma_small_mod((w + 1) as nat, steps as nat);
        }
        assert(next == if w + 1 == steps { 0 } else { w + 1 });
        assert(fan[3 * w + 2] == cap_vertex(point, steps, 3 * w + 2));
        assert(fan[3 * next + 1] == cap_vertex(point, steps, 3 * next + 1));
    }
}

/// The mesh of a stroke of a single point is the point's cap and nothing
/// else: three vertices for each of its wedges, which form a closed fan.
pub proof fn lemma_single_point_mesh(point: Point)
    ensures
        mesh(seq![point]) == cap(0, wedge_count(point.detail) as u32),
        mesh(seq![point]).len() == 3 * wedge_count(point.detail),
        closed_fan(mesh(seq![point]), 0, wedge_count(point.detail) as u32),
{
    let points = seq![point];
    lemma_wedge_count_bounds(point.detail);
    assert(points.drop_last() == Seq::<Point>::empty());
    assert(mesh(points.drop_last()) == Seq::<Vertex>::empty());
    assert(mesh(points) == cap(0, wedge_count(point.detail) as u32));
    lemma_cap_closed(0, wedge_count(point.detail) as u32);
}

impl Vertex {
    /// The vertex can be placed in the stroke through `points`: the points
    /// it names exist, a rim spot is counted in the steps of its own point's
    /// cap, and a tangent runs between neighbours.
    pub open spec fn fits(self, points: Seq<Point>) -> bool {
        match self {
            Vertex::Center { point } => point < points.len(),
            Vertex::Rim { point, step, steps } => {
                &&& point < points.len()
                &&& steps == wedge_count(points[point as int].detail)
                &&& step <= steps
            },
            Vertex::Tangent { point, other, side } => {
                &&& point < points.len()
                &&& other < points.len()
                &&& (point + 1 == other || other + 1 == point)
            },
        }
    }
}

/// Every vertex of a stroke's mesh can be placed in that stroke.
pub proof fn lemma_mesh_fits(points: Seq<Point>)
    requires
        points.len() <= usize::MAX,
    ensures
        forall|k: int| 0 <= k < mesh(points).len() ==> (#[trigger] mesh(points)[k]).fits(points),
    decreases points.len(),
{
    if points.len() > 0 {
        let last = points.len() - 1;
        let before = points.drop_last();
        let steps = wedge_count(points[last].detail) as u32;
        lemma_mesh_fits(before);
        lemma_mesh_len(before);
        lemma_wedge_count_bounds(points[last].detail);
        assert forall|k: int| 0 <= k < mesh(points).len() implies (#[trigger] mesh(points)[k]).fits(
            points,
        ) by {
            let done = mesh(before).len();
            if k < done {
                assert(mesh(points)[k] == mesh(before)[k]);
                assert(mesh(before)[k].fits(before));
            } else if k < done + 3 * steps {
                assert(mesh(points)[k] == cap_vertex(last as usize, steps, k - done));
            } else {
                assert(mesh(points)[k] == join(last as usize)[k - done - 3 * steps]);
            }
        }
    }
}

/// A stroke: the points it runs through, in the order in which they were
/// sampled. A stroke starts with one point and only ever grows.
pub struct Line {
    points: Vec<Point>,
}

impl View for Line {
    type V = Seq<Point>;

    closed spec fn view(&self) -> Seq<Point> {
        self.points@
    }
}

impl Line {
    /// A stroke that consists of `point` alone.
    pub fn new(point: Point) -> (line: Line)
        ensures
            line@ == seq![point],
    {
        let mut points: Vec<Point> = Vec::new();
        points.push(point);
        Line { points }
    }

    /// Continues the stroke to `point`.
    pub fn push_point(&mut self, point: Point)
        ensures
            final(self)@ == old(self)@.push(point),
    {
        self.points.push(point);
    }

    /// The points of the stroke, first to last.
    pub fn points(&self) -> (points: &Vec<Point>)
        ensures
            points@ == self@,
    {
        &self.points
    }
}

/// The mesh of one stroke, ready to be drawn.
pub struct LineBuffer {
    vertices: Vec<Vertex>,
    line: Ghost<Seq<Point>>,
}

impl View for LineBuffer {
    type V = Seq<Vertex>;

    closed spec fn view(&self) -> Seq<Vertex> {
        self.vertices@
    }
}

impl LineBuffer {
    /// The points of the stroke that the mesh was built for.
    pub closed spec fn source(&self) -> Seq<Point> {
        self.line@
    }

    /// A buffer holds the mesh of its stroke, whole and unchanged.
    #[verifier::type_invariant]
    pub open spec fn wf(&self) -> bool {
        self@ == mesh(self.source())
    }

    /// Builds the mesh of `line`.
    pub fn new(line: &Line) -> (buffer: LineBuffer)
        ensures
            buffer.source() == line@,
            buffer@ == mesh(line@),
    {
        let points = line.points();
        LineBuffer { vertices: point_v_to_vertex_v(points), line: Ghost(points@) }
    }

    /// The vertices of the mesh. Each three in a row are one triangle.
    pub fn vertices(&self) -> (vertices: &Vec<Vertex>)
        ensures
            vertices@ == self@,
            vertices@ == mesh(self.source()),
    {
        proof {
            use_type_invariant(self);
        }
        &self.vertices
    }

    /// The number of vertices of the mesh.
    pub fn count(&self) -> (count: usize)
        ensures
            count == self@.len(),
            count == mesh(self.source()).len(),
            count % 3 == 0,
    {
        proof {
            use_type_invariant(self);
            lemma_mesh_triangles(self.line@);
        }
        self.vertices.len()
    }
}

} // verus!
