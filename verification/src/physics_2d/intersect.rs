//! Where the outlines of two shapes of the lattice meet. Each shape is placed
//! by the position of the body that it belongs to, and turned by quarter
//! turns, which keep it on the lattice.

use vstd::prelude::*;

use crate::math_2d::laws;
use crate::math_2d::matrix;
use crate::math_2d::vector;
use crate::math_2d::vector::Intersection;
use crate::math_2d::Fraction;
use crate::math_2d::Matrix;
use crate::math_2d::Vector;
use crate::physics_2d::shape;
use crate::physics_2d::shape::PairTest;
use crate::physics_2d::shape::Shape;

verus! {

/// The largest magnitude of a coordinate of a shape or of a body's position
/// for which the outlines are compared: `2^59`, so that the sums of
/// coordinates that the comparison takes fit in 64 bits.
pub const REACH: i64 = 0x0800_0000_0000_0000;

/// A point where two outlines meet, given without rounding: the point of the
/// plane `from + at * along`. For a pixel, `along` is the zero vector.
#[derive(Clone, Copy, Debug, PartialEq, Eq, Structural)]
pub struct Crossing {
    pub from: Vector,
    pub along: Vector,
    pub at: Fraction,
}

/// Both coordinates lie within [`REACH`].
pub open spec fn within_reach(v: Vector) -> bool {
    -REACH <= v.x <= REACH && -REACH <= v.y <= REACH
}

/// The vector `v` moved by `dx` and `dy`.
pub open spec fn moved(v: Vector, dx: int, dy: int) -> Vector {
    Vector { x: (v.x + dx) as i64, y: (v.y + dy) as i64 }
}

/// The sum of two vectors.
pub open spec fn plus(a: Vector, b: Vector) -> Vector {
    moved(a, b.x as int, b.y as int)
}

/// The difference of two vectors.
pub open spec fn minus(a: Vector, b: Vector) -> Vector {
    moved(a, -b.x, -b.y)
}

/// The points of an intersection on the segment that starts in `from` and
/// runs along `along`: none, the point, or the two ends of the stretch.
pub open spec fn crossings(from: Vector, along: Vector, hit: Intersection) -> Seq<Crossing> {
    match hit {
        Intersection::Disjoint => Seq::empty(),
        Intersection::Point(r) => seq![Crossing { from, along, at: r }],
        Intersection::Line(r, t) => seq![
            Crossing { from, along, at: r },
            Crossing { from, along, at: t },
        ],
    }
}

/// Where the segment from `origin` along `v1` meets the segment from
/// `other_from` along `v2`, as points of the first.
pub open spec fn segments_meet(origin: Vector, v1: Vector, other_from: Vector, v2: Vector) -> Seq<
    Crossing,
> {
    crossings(origin, v1, vector::spec_intersection(v1, v2, minus(other_from, origin)))
}

/// The four edges of the rectangle about `center` that reaches `width` to
/// either side and `height` up and down, each as the corner it starts from
/// and the vector along it: the bottom and the left edge from the bottom left
/// corner, the top and the right edge from the top right corner.
pub open spec fn rect_edges(center: Vector, width: u32, height: u32) -> Seq<(Vector, Vector)> {
    let bottom_left = moved(center, -width, height as int);
    let top_right = moved(center, width as int, -height);
    seq![
        (bottom_left, Vector { x: (2 * width) as i64, y: 0 }),
        (bottom_left, Vector { x: 0, y: (-2 * height) as i64 }),
        (top_right, Vector { x: (-2 * width) as i64, y: 0 }),
        (top_right, Vector { x: 0, y: (2 * height) as i64 }),
    ]
}

/// Where the segment from `origin` along `v1` meets the outline of a
/// rectangle: its points on the four edges, edge after edge.
pub open spec fn segment_meets_rect(
    origin: Vector,
    v1: Vector,
    center: Vector,
    width: u32,
    height: u32,
) -> Seq<Crossing> {
    let edges = rect_edges(center, width, height);
    segments_meet(origin, v1, edges[0].0, edges[0].1) + segments_meet(
        origin,
        v1,
        edges[1].0,
        edges[1].1,
    ) + segments_meet(origin, v1, edges[2].0, edges[2].1) + segments_meet(
        origin,
        v1,
        edges[3].0,
        edges[3].1,
    )
}

/// Where the outlines of two rectangles meet: the points of each edge of
/// the first on the outline of the second, edge after edge.
pub open spec fn rect_meets_rect(
    center: Vector,
    width: u32,
    height: u32,
    other_center: Vector,
    other_width: u32,
    other_height: u32,
) -> Seq<Crossing> {
    let edges = rect_edges(center, width, height);
    segment_meets_rect(edges[0].0, edges[0].1, other_center, other_width, other_height)
        + segment_meets_rect(edges[1].0, edges[1].1, other_center, other_width, other_height)
        + segment_meets_rect(edges[2].0, edges[2].1, other_center, other_width, other_height)
        + segment_meets_rect(edges[3].0, edges[3].1, other_center, other_width, other_height)
}

/// The point `place` as a crossing.
pub open spec fn at_place(place: Vector) -> Crossing {
    Crossing { from: place, along: Vector { x: 0, y: 0 }, at: Fraction::zero() }
}

/// The point `place` lies on the outline of the rectangle about `center`,
/// on one of its edges between the corners.
pub open spec fn on_rect(place: Vector, center: Vector, width: u32, height: u32) -> bool {
    let dx = vector::magnitude(place.x - center.x);
    let dy = vector::magnitude(place.y - center.y);
    (dx == width && dy < height) || (dy == height && dx < width)
}

/// The point `place` lies on the ellipse about `center` with the semi-axes
/// `a` along `x` and `b` along `y`: `(dx / a)^2 + (dy / b)^2 = 1`, cleared
/// of denominators.
pub open spec fn on_ellipse(place: Vector, center: Vector, a: u32, b: u32) -> bool {
    let dx = place.x - center.x;
    let dy = place.y - center.y;
    (b * b) * (dx * dx) + (a * a) * (dy * dy) == (a * a) * (b * b)
}

/// The tests that are decided on the lattice. A line meets an ellipse in
/// points that are no fractions, so that the three tests with an ellipse
/// and an outline are not among them.
pub open spec fn on_lattice(test: PairTest) -> bool {
    !(test is LineEllipse || test is RectEllipse || test is EllipseEllipse)
}

impl Shape {
    /// All coordinates of the shape lie within [`REACH`].
    pub open spec fn reachable(&self) -> bool {
        match self {
            Shape::Pixel(position) => within_reach(*position),
            Shape::Ellipse(center, _, _) => within_reach(*center),
            Shape::Rect(center, _, _) => within_reach(*center),
            Shape::Line(start, end) => within_reach(*start) && within_reach(*end),
        }
    }

    /// Where a line meets a line, as points of the first.
    pub open spec fn spec_intersect_line_line(
        l1: Shape,
        l1_pos: Vector,
        l2: Shape,
        l2_pos: Vector,
    ) -> Seq<Crossing> {
        segments_meet(
            plus(l1_pos, l1->Line_0),
            minus(l1->Line_1, l1->Line_0),
            plus(l2_pos, l2->Line_0),
            minus(l2->Line_1, l2->Line_0),
        )
    }

    /// Where a line meets a pixel: the pixel as a segment without length.
    pub open spec fn spec_intersect_line_pixel(l: Shape, l_pos: Vector, p: Shape, p_pos: Vector) -> Seq<
        Crossing,
    > {
        segments_meet(
            plus(l_pos, l->Line_0),
            minus(l->Line_1, l->Line_0),
            plus(p_pos, p->Pixel_0),
            Vector { x: 0, y: 0 },
        )
    }

    /// Where a line meets the outline of a rectangle.
    pub open spec fn spec_intersect_line_rect(l: Shape, l_pos: Vector, r: Shape, r_pos: Vector) -> Seq<
        Crossing,
    > {
        segment_meets_rect(
            plus(l_pos, l->Line_0),
            minus(l->Line_1, l->Line_0),
            plus(r_pos, r->Rect_0),
            r->Rect_1,
            r->Rect_2,
        )
    }

    /// Where two pixels meet: the place of the first, if it is the place of
    /// the second too.
    pub open spec fn spec_intersect_pixel_pixel(
        p1: Shape,
        p1_pos: Vector,
        p2: Shape,
        p2_pos: Vector,
    ) -> Seq<Crossing> {
        if plus(p1_pos, p1->Pixel_0) == plus(p2_pos, p2->Pixel_0) {
            seq![at_place(plus(p1_pos, p1->Pixel_0))]
        } else {
            Seq::empty()
        }
    }

    /// Where a pixel meets the outline of a rectangle: its place, if it lies
    /// on an edge.
    pub open spec fn spec_intersect_pixel_rect(p: Shape, p_pos: Vector, r: Shape, r_pos: Vector) -> Seq<
        Crossing,
    > {
        if on_rect(plus(p_pos, p->Pixel_0), plus(r_pos, r->Rect_0), r->Rect_1, r->Rect_2) {
            seq![at_place(plus(p_pos, p->Pixel_0))]
        } else {
            Seq::empty()
        }
    }

    /// Where a pixel meets an ellipse: its place, if it lies on the ellipse.
    pub open spec fn spec_intersect_pixel_ellipse(
        p: Shape,
        p_pos: Vector,
        e: Shape,
        e_pos: Vector,
    ) -> Seq<Crossing> {
        if on_ellipse(plus(p_pos, p->Pixel_0), plus(e_pos, e->Ellipse_0), e->Ellipse_1, e->Ellipse_2) {
            seq![at_place(plus(p_pos, p->Pixel_0))]
        } else {
            Seq::empty()
        }
    }

    /// Where the outlines of two rectangles meet.
    pub open spec fn spec_intersect_rect_rect(
        r1: Shape,
        r1_pos: Vector,
        r2: Shape,
        r2_pos: Vector,
    ) -> Seq<Crossing> {
        rect_meets_rect(
            plus(r1_pos, r1->Rect_0),
            r1->Rect_1,
            r1->Rect_2,
            plus(r2_pos, r2->Rect_0),
            r2->Rect_1,
            r2->Rect_2,
        )
    }

    /// Where the outlines of two shapes meet: what the test for their pair
    /// finds, with the shapes in the order of the test.
    pub open spec fn spec_intersection(
        &self,
        self_pos: Vector,
        other: Shape,
        other_pos: Vector,
    ) -> Seq<Crossing> {
        let pairing = shape::spec_pairing(self.spec_kind(), other.spec_kind());
        let (first, first_pos, second, second_pos) = if pairing.swapped {
            (other, other_pos, *self, self_pos)
        } else {
            (*self, self_pos, other, other_pos)
        };
        match pairing.test {
            PairTest::LineLine => Shape::spec_intersect_line_line(
                first,
                first_pos,
                second,
                second_pos,
            ),
            PairTest::LinePixel => Shape::spec_intersect_line_pixel(
                first,
                first_pos,
                second,
                second_pos,
            ),
            PairTest::LineRect => Shape::spec_intersect_line_rect(
                first,
                first_pos,
                second,
                second_pos,
            ),
            PairTest::PixelPixel => Shape::spec_intersect_pixel_pixel(
                first,
                first_pos,
                second,
                second_pos,
            ),
            PairTest::PixelRect => Shape::spec_intersect_pixel_rect(
                first,
                first_pos,
                second,
                second_pos,
            ),
            PairTest::PixelEllipse => Shape::spec_intersect_pixel_ellipse(
                first,
                first_pos,
                second,
                second_pos,
            ),
            PairTest::RectRect => Shape::spec_intersect_rect_rect(
                first,
                first_pos,
                second,
                second_pos,
            ),
            _ => Seq::empty(),
        }
    }
}

/// The outlines of two shapes of different kinds meet in the same points
/// whichever shape is named first.
pub proof fn lemma_intersection_of_kinds_symmetric(
    first: Shape,
    first_pos: Vector,
    second: Shape,
    second_pos: Vector,
)
    requires
        first.spec_kind() != second.spec_kind(),
    ensures
        first.spec_intersection(first_pos, second, second_pos) == second.spec_intersection(
            second_pos,
            first,
            first_pos,
        ),
{
}

/// The segment from `origin` along `v1` lies apart from the rectangle about
/// `center` along one of the axes.
pub open spec fn segment_apart_from_rect(
    origin: Vector,
    v1: Vector,
    center: Vector,
    width: u32,
    height: u32,
) -> bool {
    ||| laws::spans_apart(
        origin.x as int,
        origin.x + v1.x,
        center.x - width,
        center.x + width,
    )
    ||| laws::spans_apart(
        origin.y as int,
        origin.y + v1.y,
        center.y - height,
        center.y + height,
    )
}

/// The two rectangles lie apart along one of the axes.
pub open spec fn rects_apart(
    center: Vector,
    width: u32,
    height: u32,
    other_center: Vector,
    other_width: u32,
    other_height: u32,
) -> bool {
    ||| center.x + width < other_center.x - other_width
    ||| other_center.x + other_width < center.x - width
    ||| center.y + height < other_center.y - other_height
    ||| other_center.y + other_height < center.y - height
}

/// A segment that lies apart from a rectangle does not meet its outline.
pub proof fn lemma_segment_apart_from_rect(
    origin: Vector,
    v1: Vector,
    center: Vector,
    width: u32,
    height: u32,
)
    requires
        -2 * REACH - 0x1_0000_0000 <= origin.x <= 2 * REACH + 0x1_0000_0000,
        -2 * REACH - 0x1_0000_0000 <= origin.y <= 2 * REACH + 0x1_0000_0000,
        -2 * REACH <= center.x <= 2 * REACH,
        -2 * REACH <= center.y <= 2 * REACH,
        segment_apart_from_rect(origin, v1, center, width, height),
    ensures
        segment_meets_rect(origin, v1, center, width, height) == Seq::<Crossing>::empty(),
{
    let edges = rect_edges(center, width, height);
    assert forall|i: int| 0 <= i < 4 implies segments_meet(
        origin,
        v1,
        (#[trigger] edges[i]).0,
        edges[i].1,
    ) == Seq::<Crossing>::empty() by {
        let from = edges[i].0;
        let along = edges[i].1;
        let support = minus(from, origin);
        assert(center.x - width <= from.x <= center.x + width && center.x - width <= from.x
            + along.x <= center.x + width);
        assert(center.y - height <= from.y <= center.y + height && center.y - height <= from.y
            + along.y <= center.y + height);
        assert(support.x == from.x - origin.x && support.y == from.y - origin.y);
        assert(laws::boxes_apart(v1, along, support));
        laws::lemma_segments_apart_do_not_meet(v1, along, support);
    }
    assert(edges[0] == edges[0] && edges[1] == edges[1] && edges[2] == edges[2] && edges[3]
        == edges[3]);
    assert(segment_meets_rect(origin, v1, center, width, height) =~= Seq::<Crossing>::empty());
}

/// Rectangles that lie apart do not meet.
pub proof fn lemma_rects_apart_do_not_meet(
    center: Vector,
    width: u32,
    height: u32,
    other_center: Vector,
    other_width: u32,
    other_height: u32,
)
    requires
        -2 * REACH <= center.x <= 2 * REACH,
        -2 * REACH <= center.y <= 2 * REACH,
        -2 * REACH <= other_center.x <= 2 * REACH,
        -2 * REACH <= other_center.y <= 2 * REACH,
        rects_apart(center, width, height, other_center, other_width, other_height),
    ensures
        rect_meets_rect(center, width, height, other_center, other_width, other_height)
            == Seq::<Crossing>::empty(),
{
    let edges = rect_edges(center, width, height);
    assert forall|i: int| 0 <= i < 4 implies segment_meets_rect(
        (#[trigger] edges[i]).0,
        edges[i].1,
        other_center,
        other_width,
        other_height,
    ) == Seq::<Crossing>::empty() by {
        let from = edges[i].0;
        let along = edges[i].1;
        assert(center.x - width <= from.x <= center.x + width && center.x - width <= from.x
            + along.x <= center.x + width);
        assert(center.y - height <= from.y <= center.y + height && center.y - height <= from.y
            + along.y <= center.y + height);
        lemma_segment_apart_from_rect(from, along, other_center, other_width, other_height);
    }
    assert(edges[0] == edges[0] && edges[1] == edges[1] && edges[2] == edges[2] && edges[3]
        == edges[3]);
    assert(rect_meets_rect(center, width, height, other_center, other_width, other_height)
        =~= Seq::<Crossing>::empty());
}

/// The points in which an edge meets itself: its two ends.
proof fn lemma_edge_meets_itself(from: Vector, along: Vector)
    requires
        along.x != 0 || along.y != 0,
    ensures
        segments_meet(from, along, from, along) == seq![
            Crossing { from, along, at: Fraction::zero() },
            Crossing { from, along, at: Fraction::one() },
        ],
{
    assert(minus(from, from) == Vector { x: 0, y: 0 });
    laws::lemma_segment_meets_itself(along);
    assert(segments_meet(from, along, from, along) =~= seq![
        Crossing { from, along, at: Fraction::zero() },
        Crossing { from, along, at: Fraction::one() },
    ]);
}

/// What one part of a sequence holds, the whole holds.
proof fn lemma_part_is_held(
    before: Seq<Crossing>,
    part: Seq<Crossing>,
    after: Seq<Crossing>,
    crossing: Crossing,
)
    requires
        part.contains(crossing),
    ensures
        (before + part + after).contains(crossing),
{
    let i = choose|i: int| 0 <= i < part.len() && part[i] == crossing;
    assert((before + part + after)[before.len() + i] == crossing);
}

/// A rectangle with a width and a height that is laid on itself meets
/// itself in its four corners, at the least: the two ends of its bottom
/// edge and the two ends of its top edge are among the points found.
pub proof fn lemma_rect_meets_itself_in_its_corners(center: Vector, width: u32, height: u32)
    requires
        -2 * REACH <= center.x <= 2 * REACH,
        -2 * REACH <= center.y <= 2 * REACH,
        width > 0,
        height > 0,
    ensures
        ({
            let found = rect_meets_rect(center, width, height, center, width, height);
            let bottom = rect_edges(center, width, height)[0];
            let top = rect_edges(center, width, height)[2];
            &&& found.contains(Crossing { from: bottom.0, along: bottom.1, at: Fraction::zero() })
            &&& found.contains(Crossing { from: bottom.0, along: bottom.1, at: Fraction::one() })
            &&& found.contains(Crossing { from: top.0, along: top.1, at: Fraction::zero() })
            &&& found.contains(Crossing { from: top.0, along: top.1, at: Fraction::one() })
        }),
{
    let edges = rect_edges(center, width, height);
    let bottom = edges[0];
    let top = edges[2];
    let empty = Seq::<Crossing>::empty();
    // the bottom edge on itself
    lemma_edge_meets_itself(bottom.0, bottom.1);
    let on_bottom = segments_meet(bottom.0, bottom.1, bottom.0, bottom.1);
    assert(on_bottom[0] == (Crossing { from: bottom.0, along: bottom.1, at: Fraction::zero() }));
    assert(on_bottom[1] == (Crossing { from: bottom.0, along: bottom.1, at: Fraction::one() }));
    let bottom_rest = segments_meet(bottom.0, bottom.1, edges[1].0, edges[1].1) + segments_meet(
        bottom.0,
        bottom.1,
        edges[2].0,
        edges[2].1,
    ) + segments_meet(bottom.0, bottom.1, edges[3].0, edges[3].1);
    let of_bottom = segment_meets_rect(bottom.0, bottom.1, center, width, height);
    assert(of_bottom =~= empty + on_bottom + bottom_rest);
    // the top edge on itself
    lemma_edge_meets_itself(top.0, top.1);
    let on_top = segments_meet(top.0, top.1, top.0, top.1);
    assert(on_top[0] == (Crossing { from: top.0, along: top.1, at: Fraction::zero() }));
    assert(on_top[1] == (Crossing { from: top.0, along: top.1, at: Fraction::one() }));
    let top_before = segments_meet(top.0, top.1, edges[0].0, edges[0].1) + segments_meet(
        top.0,
        top.1,
        edges[1].0,
        edges[1].1,
    );
    let top_after = segments_meet(top.0, top.1, edges[3].0, edges[3].1);
    let of_top = segment_meets_rect(top.0, top.1, center, width, height);
    assert(of_top =~= top_before + on_top + top_after);
    // all four edges
    let of_left = segment_meets_rect(edges[1].0, edges[1].1, center, width, height);
    let of_right = segment_meets_rect(edges[3].0, edges[3].1, center, width, height);
    let found = rect_meets_rect(center, width, height, center, width, height);
    assert(found =~= empty + of_bottom + (of_left + of_top + of_right));
    assert(found =~= (of_bottom + of_left) + of_top + of_right);
    lemma_part_is_held(empty, on_bottom, bottom_rest, on_bottom[0]);
    lemma_part_is_held(empty, on_bottom, bottom_rest, on_bottom[1]);
    lemma_part_is_held(empty, of_bottom, of_left + of_top + of_right, on_bottom[0]);
    lemma_part_is_held(empty, of_bottom, of_left + of_top + of_right, on_bottom[1]);
    lemma_part_is_held(top_before, on_top, top_after, on_top[0]);
    lemma_part_is_held(top_before, on_top, top_after, on_top[1]);
    lemma_part_is_held(of_bottom + of_left, of_top, of_right, on_top[0]);
    lemma_part_is_held(of_bottom + of_left, of_top, of_right, on_top[1]);
}

/// Two rectangles that lie apart as they are placed do not meet, whichever
/// is named first.
pub proof fn lemma_rectangles_apart(r1: Shape, r1_pos: Vector, r2: Shape, r2_pos: Vector)
    requires
        r1 is Rect,
        r2 is Rect,
        r1.reachable(),
        r2.reachable(),
        within_reach(r1_pos),
        within_reach(r2_pos),
        rects_apart(
            plus(r1_pos, r1->Rect_0),
            r1->Rect_1,
            r1->Rect_2,
            plus(r2_pos, r2->Rect_0),
            r2->Rect_1,
            r2->Rect_2,
        ),
    ensures
        r1.spec_intersection(r1_pos, r2, r2_pos) == Seq::<Crossing>::empty(),
        r2.spec_intersection(r2_pos, r1, r1_pos) == Seq::<Crossing>::empty(),
{
    lemma_rects_apart_do_not_meet(
        plus(r1_pos, r1->Rect_0),
        r1->Rect_1,
        r1->Rect_2,
        plus(r2_pos, r2->Rect_0),
        r2->Rect_1,
        r2->Rect_2,
    );
    lemma_rects_apart_do_not_meet(
        plus(r2_pos, r2->Rect_0),
        r2->Rect_1,
        r2->Rect_2,
        plus(r1_pos, r1->Rect_0),
        r1->Rect_1,
        r1->Rect_2,
    );
}

/// The sum of two vectors within reach.
fn sum(a: &Vector, b: &Vector) -> (v: Vector)
    requires
        within_reach(*a),
        within_reach(*b),
    ensures
        v == plus(*a, *b),
        -2 * REACH <= v.x <= 2 * REACH,
        -2 * REACH <= v.y <= 2 * REACH,
{
    Vector::new(a.x + b.x, a.y + b.y)
}

/// The difference of two vectors within reach.
fn difference(a: &Vector, b: &Vector) -> (v: Vector)
    requires
        within_reach(*a),
        within_reach(*b),
    ensures
        v == minus(*a, *b),
        -2 * REACH <= v.x <= 2 * REACH,
        -2 * REACH <= v.y <= 2 * REACH,
{
    Vector::new(a.x - b.x, a.y - b.y)
}

/// See [`crossings`].
fn crossings_of(from: &Vector, along: &Vector, hit: Intersection) -> (points: Vec<Crossing>)
    ensures
        points@ == crossings(*from, *along, hit),
{
    let points = match hit {
        Intersection::Disjoint => Vec::new(),
        Intersection::Point(r) => vec![Crossing { from: *from, along: *along, at: r }],
        Intersection::Line(r, t) => vec![
            Crossing { from: *from, along: *along, at: r },
            Crossing { from: *from, along: *along, at: t },
        ],
    };
    assert(points@ =~= crossings(*from, *along, hit));
    points
}

/// See [`segments_meet`].
fn segment_on_segment(origin: &Vector, v1: &Vector, other_from: &Vector, v2: &Vector) -> (points:
    Vec<Crossing>)
    requires
        vector::fits(other_from.x - origin.x),
        vector::fits(other_from.y - origin.y),
    ensures
        points@ == segments_meet(*origin, *v1, *other_from, *v2),
{
    let support = Vector::new(other_from.x - origin.x, other_from.y - origin.y);
    crossings_of(origin, v1, v1.intersection(v2, &support))
}

/// See [`rect_edges`].
fn edges_of(center: &Vector, width: u32, height: u32) -> (edges: [(Vector, Vector); 4])
    requires
        -2 * REACH <= center.x <= 2 * REACH,
        -2 * REACH <= center.y <= 2 * REACH,
    ensures
        edges@ == rect_edges(*center, width, height),
{
    let w: i64 = width as i64;
    let h: i64 = height as i64;
    let bottom_left = Vector::new(center.x - w, center.y + h);
    let top_right = Vector::new(center.x + w, center.y - h);
    let edges = [
        (bottom_left, Vector::new(2 * w, 0)),
        (bottom_left, Vector::new(0, 0 - 2 * h)),
        (top_right, Vector::new(0 - 2 * w, 0)),
        (top_right, Vector::new(0, 2 * h)),
    ];
    assert(edges@ =~= rect_edges(*center, width, height));
    edges
}

/// See [`segment_meets_rect`].
fn segment_on_rect(origin: &Vector, v1: &Vector, center: &Vector, width: u32, height: u32) -> (points:
    Vec<Crossing>)
    requires
        -2 * REACH - 0x1_0000_0000 <= origin.x <= 2 * REACH + 0x1_0000_0000,
        -2 * REACH - 0x1_0000_0000 <= origin.y <= 2 * REACH + 0x1_0000_0000,
        -2 * REACH <= center.x <= 2 * REACH,
        -2 * REACH <= center.y <= 2 * REACH,
    ensures
        points@ == segment_meets_rect(*origin, *v1, *center, width, height),
{
    let edges = edges_of(center, width, height);
    let mut points = segment_on_segment(origin, v1, &edges[0].0, &edges[0].1);
    let mut found = segment_on_segment(origin, v1, &edges[1].0, &edges[1].1);
    points.append(&mut found);
    let mut found = segment_on_segment(origin, v1, &edges[2].0, &edges[2].1);
    points.append(&mut found);
    let mut found = segment_on_segment(origin, v1, &edges[3].0, &edges[3].1);
    points.append(&mut found);
    points
}

/// See [`on_ellipse`].
fn lies_on_ellipse(place: &Vector, center: &Vector, a: u32, b: u32) -> (on: bool)
    ensures
        on == on_ellipse(*place, *center, a, b),
{
    let dx: i128 = place.x as i128 - center.x as i128;
    let dy: i128 = place.y as i128 - center.y as i128;
    let far_x: u128 = if dx < 0 {
        (-dx) as u128
    } else {
        dx as u128
    };
    let far_y: u128 = if dy < 0 {
        (-dy) as u128
    } else {
        dy as u128
    };
    let ghost (gx, gy, ga, gb) = (dx as int, dy as int, a as int, b as int);
    proof {
        assert(gx * gx == far_x * far_x && gy * gy == far_y * far_y) by (nonlinear_arith)
            requires
                far_x == gx || far_x == -gx,
                far_y == gy || far_y == -gy,
        ;
        assert(0 <= ga * ga <= 0xffff_ffff * 0xffff_ffff && 0 <= gb * gb <= 0xffff_ffff
            * 0xffff_ffff) by (nonlinear_arith)
            requires
                0 <= ga <= 0xffff_ffff,
                0 <= gb <= 0xffff_ffff,
        ;
    }
    let aa: u128 = (a as u128) * (a as u128);
    let bb: u128 = (b as u128) * (b as u128);
    if a == 0 || b == 0 {
        proof {
            assert((gb * gb) * (gx * gx) + (ga * ga) * (gy * gy) == (ga * ga) * (gb * gb) <==> (ga
                == 0 || gy == 0) && (gb == 0 || gx == 0)) by (nonlinear_arith)
                requires
                    ga == 0 || gb == 0,
            ;
        }
        (a == 0 || dy == 0) && (b == 0 || dx == 0)
    } else if far_x > a as u128 || far_y > b as u128 {
        proof {
            if far_x > ga {
                assert(far_x * far_x > ga * ga) by (nonlinear_arith)
                    requires
                        far_x > ga,
                        ga > 0,
                ;
            }
            if far_y > gb {
                assert(far_y * far_y > gb * gb) by (nonlinear_arith)
                    requires
                        far_y > gb,
                        gb > 0,
                ;
            }
            assert((gb * gb) * (gx * gx) + (ga * ga) * (gy * gy) > (ga * ga) * (gb * gb))
                by (nonlinear_arith)
                requires
                    ga > 0,
                    gb > 0,
                    gx * gx > ga * ga || gy * gy > gb * gb,
                    gx * gx >= 0,
                    gy * gy >= 0,
            ;
        }
        false
    } else {
        proof {
            assert(far_x * far_x <= ga * ga && far_y * far_y <= gb * gb) by (nonlinear_arith)
                requires
                    0 <= far_x <= ga,
                    0 <= far_y <= gb,
            ;
            assert((gb * gb) * (far_x * far_x) <= (gb * gb) * (ga * ga) && (ga * ga) * (far_y
                * far_y) <= (ga * ga) * (gb * gb) && (gb * gb) * (ga * ga) <= (0xffff_ffff
                * 0xffff_ffff) * (0xffff_ffff * 0xffff_ffff) && (ga * ga) * (gb * gb) == (gb * gb)
                * (ga * ga) && 0 <= (gb * gb) * (far_x * far_x) && 0 <= (ga * ga) * (far_y * far_y))
                by (nonlinear_arith)
                requires
                    0 <= far_x * far_x <= ga * ga,
                    0 <= far_y * far_y <= gb * gb,
                    0 <= ga * ga <= 0xffff_ffff * 0xffff_ffff,
                    0 <= gb * gb <= 0xffff_ffff * 0xffff_ffff,
            ;
        }
        let xx: u128 = far_x * far_x;
        let yy: u128 = far_y * far_y;
        bb * xx == aa * bb - aa * yy
    }
}

impl Shape {
    /// Where a line meets a line, as points of the first.
    pub fn intersect_line_line(l1: &Shape, l1_pos: &Vector, l2: &Shape, l2_pos: &Vector) -> (points:
        Vec<Crossing>)
        requires
            l1 is Line,
            l2 is Line,
            l1.reachable(),
            l2.reachable(),
            within_reach(*l1_pos),
            within_reach(*l2_pos),
        ensures
            points@ == Shape::spec_intersect_line_line(*l1, *l1_pos, *l2, *l2_pos),
    {
        match (l1, l2) {
            (Shape::Line(start, end), Shape::Line(other_start, other_end)) => {
                let origin = sum(l1_pos, start);
                let v1 = difference(end, start);
                let other_from = sum(l2_pos, other_start);
                let v2 = difference(other_end, other_start);
                segment_on_segment(&origin, &v1, &other_from, &v2)
            },
            _ => vstd::pervasive::unreached(),
        }
    }

    /// Where a line meets a pixel, as points of the line.
    pub fn intersect_line_pixel(l: &Shape, l_pos: &Vector, p: &Shape, p_pos: &Vector) -> (points:
        Vec<Crossing>)
        requires
            l is Line,
            p is Pixel,
            l.reachable(),
            p.reachable(),
            within_reach(*l_pos),
            within_reach(*p_pos),
        ensures
            points@ == Shape::spec_intersect_line_pixel(*l, *l_pos, *p, *p_pos),
    {
        match (l, p) {
            (Shape::Line(start, end), Shape::Pixel(pos)) => {
                let origin = sum(l_pos, start);
                let v1 = difference(end, start);
                let place = sum(p_pos, pos);
                segment_on_segment(&origin, &v1, &place, &Vector::zero())
            },
            _ => vstd::pervasive::unreached(),
        }
    }

    /// Where a line meets the outline of a rectangle, as points of the
    /// line.
    pub fn intersect_line_rect(l: &Shape, l_pos: &Vector, r: &Shape, r_pos: &Vector) -> (points:
        Vec<Crossing>)
        requires
            l is Line,
            r is Rect,
            l.reachable(),
            r.reachable(),
            within_reach(*l_pos),
            within_reach(*r_pos),
        ensures
            points@ == Shape::spec_intersect_line_rect(*l, *l_pos, *r, *r_pos),
    {
        match (l, r) {
            (Shape::Line(start, end), Shape::Rect(center, width, height)) => {
                let origin = sum(l_pos, start);
                let v1 = difference(end, start);
                let placed = sum(r_pos, center);
                segment_on_rect(&origin, &v1, &placed, *width, *height)
            },
            _ => vstd::pervasive::unreached(),
        }
    }

    /// Where a pixel meets the outline of a rectangle.
    pub fn intersect_pixel_rect(p: &Shape, p_pos: &Vector, r: &Shape, r_pos: &Vector) -> (points:
        Vec<Crossing>)
        requires
            p is Pixel,
            r is Rect,
            p.reachable(),
            r.reachable(),
            within_reach(*p_pos),
            within_reach(*r_pos),
        ensures
            points@ == Shape::spec_intersect_pixel_rect(*p, *p_pos, *r, *r_pos),
    {
        match (p, r) {
            (Shape::Pixel(pos), Shape::Rect(center, width, height)) => {
                let place = sum(p_pos, pos);
                let placed = sum(r_pos, center);
                let dx: i64 = place.x - placed.x;
                let dy: i64 = place.y - placed.y;
                let far_x: i64 = if dx < 0 {
                    -dx
                } else {
                    dx
                };
                let far_y: i64 = if dy < 0 {
                    -dy
                } else {
                    dy
                };
                let w: i64 = *width as i64;
                let h: i64 = *height as i64;
                let points = if (far_x == w && far_y < h) || (far_y == h && far_x < w) {
                    vec![Crossing { from: place, along: Vector::zero(), at: Fraction::zero() }]
                } else {
                    Vec::new()
                };
                assert(points@ =~= Shape::spec_intersect_pixel_rect(*p, *p_pos, *r, *r_pos));
                points
            },
            _ => vstd::pervasive::unreached(),
        }
    }

    /// Where a pixel meets an ellipse.
    pub fn intersect_pixel_ellipse(p: &Shape, p_pos: &Vector, e: &Shape, e_pos: &Vector) -> (points:
        Vec<Crossing>)
        requires
            p is Pixel,
            e is Ellipse,
            p.reachable(),
            e.reachable(),
            within_reach(*p_pos),
            within_reach(*e_pos),
        ensures
            points@ == Shape::spec_intersect_pixel_ellipse(*p, *p_pos, *e, *e_pos),
    {
        match (p, e) {
            (Shape::Pixel(pos), Shape::Ellipse(center, a, b)) => {
                let place = sum(p_pos, pos);
                let placed = sum(e_pos, center);
                let points = if lies_on_ellipse(&place, &placed, *a, *b) {
                    vec![Crossing { from: place, along: Vector::zero(), at: Fraction::zero() }]
                } else {
                    Vec::new()
                };
                assert(points@ =~= Shape::spec_intersect_pixel_ellipse(*p, *p_pos, *e, *e_pos));
                points
            },
            _ => vstd::pervasive::unreached(),
        }
    }

    /// Where the outlines of two rectangles meet, as points of the edges of
    /// the first.
    pub fn intersect_rect_rect(r1: &Shape, r1_pos: &Vector, r2: &Shape, r2_pos: &Vector) -> (points:
        Vec<Crossing>)
        requires
            r1 is Rect,
            r2 is Rect,
            r1.reachable(),
            r2.reachable(),
            within_reach(*r1_pos),
            within_reach(*r2_pos),
        ensures
            points@ == Shape::spec_intersect_rect_rect(*r1, *r1_pos, *r2, *r2_pos),
    {
        match (r1, r2) {
            (Shape::Rect(center, width, height), Shape::Rect(other_center, other_width, other_height)) => {
                let placed = sum(r1_pos, center);
                let other_placed = sum(r2_pos, other_center);
                let edges = edges_of(&placed, *width, *height);
                let mut points = segment_on_rect(
                    &edges[0].0,
                    &edges[0].1,
                    &other_placed,
                    *other_width,
                    *other_height,
                );
                let mut found = segment_on_rect(
                    &edges[1].0,
                    &edges[1].1,
                    &other_placed,
                    *other_width,
                    *other_height,
                );
                points.append(&mut found);
                let mut found = segment_on_rect(
                    &edges[2].0,
                    &edges[2].1,
                    &other_placed,
                    *other_width,
                    *other_height,
                );
                points.append(&mut found);
                let mut found = segment_on_rect(
                    &edges[3].0,
                    &edges[3].1,
                    &other_placed,
                    *other_width,
                    *other_height,
                );
                points.append(&mut found);
                points
            },
            _ => vstd::pervasive::unreached(),
        }
    }

    /// Whether the pair of `self` and `other` is decided on the lattice,
    /// see [`on_lattice`].
    pub fn meets_on_lattice(&self, other: &Shape) -> (decided: bool)
        ensures
            decided == on_lattice(shape::spec_pairing(self.spec_kind(), other.spec_kind()).test),
    {
        match self.pairing(other).test {
            PairTest::LineEllipse | PairTest::RectEllipse | PairTest::EllipseEllipse => false,
            _ => true,
        }
    }

    /// Where the outlines of `self` and `other` meet as the shapes stand, or
    /// nothing where they do not meet. The test for the pair gets the two
    /// shapes in its own order, whichever of them is `self`.
    pub fn intersection_unturned(&self, self_pos: &Vector, other: &Shape, other_pos: &Vector) -> (points:
        Option<Vec<Crossing>>)
        requires
            self.reachable(),
            other.reachable(),
            within_reach(*self_pos),
            within_reach(*other_pos),
            on_lattice(shape::spec_pairing(self.spec_kind(), other.spec_kind()).test),
        ensures
            self.spec_intersection(*self_pos, *other, *other_pos).len() == 0 ==> points is None,
            self.spec_intersection(*self_pos, *other, *other_pos).len() > 0 ==> points is Some
                && points->Some_0@ == self.spec_intersection(*self_pos, *other, *other_pos),
    {
        let pairing = self.pairing(other);
        let (first, first_pos, second, second_pos) = if pairing.swapped {
            (other, other_pos, self, self_pos)
        } else {
            (self, self_pos, other, other_pos)
        };
        proof {
            shape::lemma_pairing_symmetric(self.spec_kind(), other.spec_kind());
        }
        let intersection_points = match pairing.test {
            PairTest::LineLine => Shape::intersect_line_line(first, first_pos, second, second_pos),
            PairTest::LinePixel => Shape::intersect_line_pixel(
                first,
                first_pos,
                second,
                second_pos,
            ),
            PairTest::LineRect => Shape::intersect_line_rect(first, first_pos, second, second_pos),
            PairTest::PixelPixel => Shape::intersect_pixel_pixel(
                first,
                first_pos,
                second,
                second_pos,
            ),
            PairTest::PixelRect => Shape::intersect_pixel_rect(
                first,
                first_pos,
                second,
                second_pos,
            ),
            PairTest::PixelEllipse => Shape::intersect_pixel_ellipse(
                first,
                first_pos,
                second,
                second_pos,
            ),
            PairTest::RectRect => Shape::intersect_rect_rect(first, first_pos, second, second_pos),
            _ => vstd::pervasive::unreached(),
        };
        shape::found(intersection_points)
    }

    /// The shape can be turned by `turns` quarter turns on the lattice. A
    /// line turns about its middle, so that an odd number of quarter turns
    /// needs a line whose middle is a point of the lattice.
    pub open spec fn turns_on_lattice(&self, turns: int) -> bool {
        match self {
            Shape::Line(start, end) => turns % 2 == 0 || ((end.x - start.x) % 2 == 0 && (end.y
                - start.y) % 2 == 0),
            _ => true,
        }
    }

    /// The shape as it stands after `turns` quarter turns about its middle. A
    /// pixel stays as it is, a rectangle and an ellipse change their two
    /// dimensions with every quarter turn, and the ends of a line turn about
    /// its middle.
    pub open spec fn spec_turned(&self, turns: int) -> Shape {
        match self {
            Shape::Pixel(position) => Shape::Pixel(*position),
            Shape::Ellipse(center, a, b) => if turns % 2 == 0 {
                Shape::Ellipse(*center, *a, *b)
            } else {
                Shape::Ellipse(*center, *b, *a)
            },
            Shape::Rect(center, width, height) => if turns % 2 == 0 {
                Shape::Rect(*center, *width, *height)
            } else {
                Shape::Rect(*center, *height, *width)
            },
            Shape::Line(start, end) => if turns % 4 == 0 {
                Shape::Line(*start, *end)
            } else if turns % 4 == 2 {
                Shape::Line(*end, *start)
            } else {
                let half = Vector {
                    x: ((end.x - start.x) / 2) as i64,
                    y: ((end.y - start.y) / 2) as i64,
                };
                let middle = plus(*start, half);
                let arm = matrix::turned(half, turns);
                Shape::Line(minus(middle, arm), plus(middle, arm))
            },
        }
    }

    /// The shape as it stands after it was turned by `degree` degrees, for a
    /// whole number of quarter turns, see [`Shape::spec_turned`].
    pub fn turned(&self, degree: i64) -> (shape: Shape)
        requires
            degree % 90 == 0,
            self.reachable(),
            self.turns_on_lattice(degree as int / 90),
        ensures
            shape == self.spec_turned(degree as int / 90),
            shape.spec_kind() == self.spec_kind(),
    {
        let rotation = Matrix::rotation_degree(degree);
        let ghost turns = degree as int / 90;
        let even = rotation.b == 0;
        let unturned = rotation.a == 1;
        match self {
            Shape::Pixel(position) => Shape::Pixel(*position),
            Shape::Ellipse(center, a, b) => if even {
                Shape::Ellipse(*center, *a, *b)
            } else {
                Shape::Ellipse(*center, *b, *a)
            },
            Shape::Rect(center, width, height) => if even {
                Shape::Rect(*center, *width, *height)
            } else {
                Shape::Rect(*center, *height, *width)
            },
            Shape::Line(start, end) => if even {
                if unturned {
                    Shape::Line(*start, *end)
                } else {
                    Shape::Line(*end, *start)
                }
            } else {
                let half = Vector::new((end.x - start.x) / 2, (end.y - start.y) / 2);
                let middle = Vector::new(start.x + half.x, start.y + half.y);
                let arm = half.rotate_degree(degree);
                assert(-REACH <= arm.x <= REACH && -REACH <= arm.y <= REACH) by (nonlinear_arith)
                    requires
                        arm.x == rotation.a * half.x + rotation.b * half.y,
                        arm.y == rotation.c * half.x + rotation.d * half.y,
                        rotation.a == 0,
                        rotation.d == 0,
                        (rotation.b == 1 && rotation.c == -1) || (rotation.b == -1 && rotation.c
                            == 1),
                        -REACH <= half.x <= REACH,
                        -REACH <= half.y <= REACH,
                ;
                Shape::Line(
                    Vector::new(middle.x - arm.x, middle.y - arm.y),
                    Vector::new(middle.x + arm.x, middle.y + arm.y),
                )
            },
        }
    }

    /// Where the outlines of `self` and `other` meet, or nothing where they
    /// do not meet: each shape is turned by its angle, a whole number of
    /// quarter turns, and placed by the position of its body. The test for
    /// the pair gets the two shapes in its own order, whichever of them is
    /// `self`.
    pub fn intersection(
        &self,
        self_pos: &Vector,
        self_degree: i64,
        other: &Shape,
        other_pos: &Vector,
        other_degree: i64,
    ) -> (points: Option<Vec<Crossing>>)
        requires
            self_degree % 90 == 0,
            other_degree % 90 == 0,
            self.reachable(),
            other.reachable(),
            self.turns_on_lattice(self_degree as int / 90),
            other.turns_on_lattice(other_degree as int / 90),
            self.spec_turned(self_degree as int / 90).reachable(),
            other.spec_turned(other_degree as int / 90).reachable(),
            within_reach(*self_pos),
            within_reach(*other_pos),
            on_lattice(shape::spec_pairing(self.spec_kind(), other.spec_kind()).test),
        ensures
            self.spec_turned(self_degree as int / 90).spec_intersection(
                *self_pos,
                other.spec_turned(other_degree as int / 90),
                *other_pos,
            ).len() == 0 ==> points is None,
            self.spec_turned(self_degree as int / 90).spec_intersection(
                *self_pos,
                other.spec_turned(other_degree as int / 90),
                *other_pos,
            ).len() > 0 ==> points is Some && points->Some_0@ == self.spec_turned(
                self_degree as int / 90,
            ).spec_intersection(*self_pos, other.spec_turned(other_degree as int / 90), *other_pos),
    {
        let first = self.turned(self_degree);
        let second = other.turned(other_degree);
        first.intersection_unturned(self_pos, &second, other_pos)
    }

    /// Where two pixels meet: the place of the first, if it is the place of
    /// the second too, and no point else.
    pub fn intersect_pixel_pixel(p1: &Shape, p1_pos: &Vector, p2: &Shape, p2_pos: &Vector) -> (points:
        Vec<Crossing>)
        requires
            p1 is Pixel,
            p2 is Pixel,
            p1.reachable(),
            p2.reachable(),
            within_reach(*p1_pos),
            within_reach(*p2_pos),
        ensures
            points@ == Shape::spec_intersect_pixel_pixel(*p1, *p1_pos, *p2, *p2_pos),
    {
        match (p1, p2) {
            (Shape::Pixel(pos1), Shape::Pixel(pos2)) => {
                let place = sum(p1_pos, pos1);
                let other_place = sum(p2_pos, pos2);
                let points = if place.x == other_place.x && place.y == other_place.y {
                    vec![Crossing { from: place, along: Vector::zero(), at: Fraction::zero() }]
                } else {
                    Vec::new()
                };
                assert(points@ =~= Shape::spec_intersect_pixel_pixel(*p1, *p1_pos, *p2, *p2_pos));
                points
            },
            _ => vstd::pervasive::unreached(),
        }
    }
}

} // verus!
