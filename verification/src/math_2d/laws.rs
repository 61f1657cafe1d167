//! What holds of the intersection of two segments whichever of them is taken
//! as the first.

use vstd::prelude::*;

use crate::math_2d::fraction;
use crate::math_2d::fraction::Fraction;
use crate::math_2d::vector;
use crate::math_2d::vector::Intersection;
use crate::math_2d::vector::Vector;

verus! {

/// The vector that leads back: from the start of the second segment to the
/// start of the first.
pub open spec fn reversed(support: Vector) -> Vector {
    Vector { x: (-support.x) as i64, y: (-support.y) as i64 }
}

/// The squared length of a vector.
pub open spec fn length_squared(v: Vector) -> int {
    vector::dot(v, v)
}

/// The three vectors lie on one line through the origin.
pub open spec fn on_one_line(v1: Vector, v2: Vector, support: Vector) -> bool {
    vector::cross(v1, v2) == 0 && vector::cross(support, v1) == 0 && vector::cross(support, v2) == 0
}

/// The direction classes tell the two vectors apart as their angle does: they
/// count as opposite exactly where the vectors point against each other.
pub open spec fn told_apart(a: Vector, b: Vector) -> bool {
    vector::opposed(a, b) <==> vector::dot(a, b) < 0
}

/// The point with the parameter `r` on the first segment is the point with
/// the parameter `t` on the second: `r * v1 = support + t * v2`, cleared of
/// denominators.
pub open spec fn same_point(v1: Vector, r: Fraction, v2: Vector, t: Fraction, support: Vector) -> bool {
    &&& r.num * t.den * v1.x == r.den * t.den * support.x + t.num * r.den * v2.x
    &&& r.num * t.den * v1.y == r.den * t.den * support.y + t.num * r.den * v2.y
}

/// Every parameter that the intersection holds lies between zero and one.
pub open spec fn within_segment(hit: Intersection) -> bool {
    match hit {
        Intersection::Disjoint => true,
        Intersection::Point(r) => r.is_parameter(),
        Intersection::Line(r, t) => r.is_parameter() && t.is_parameter(),
    }
}

/// The lengths of vectors of one line are to each other as their extents.
pub proof fn lemma_extents_measure_lengths(a: Vector, b: Vector, vertical: bool)
    requires
        vector::cross(a, b) == 0,
        vertical ==> a.x == 0 && b.x == 0,
        !vertical ==> a.x != 0 || b.x != 0,
    ensures
        vector::extent(a, vertical) * vector::extent(a, vertical) * length_squared(b) == vector::extent(b, vertical)
            * vector::extent(b, vertical) * length_squared(a),
{
    let (ax, ay, bx, by) = (a.x as int, a.y as int, b.x as int, b.y as int);
    if vertical {
        assert(vector::magnitude(ay) * vector::magnitude(ay) == ay * ay) by (nonlinear_arith);
        assert(vector::magnitude(by) * vector::magnitude(by) == by * by) by (nonlinear_arith);
        assert(ay * ay * (bx * bx + by * by) == by * by * (ax * ax + ay * ay)) by (nonlinear_arith)
            requires
                ax == 0,
                bx == 0,
        ;
    } else {
        assert(vector::magnitude(ax) * vector::magnitude(ax) == ax * ax) by (nonlinear_arith);
        assert(vector::magnitude(bx) * vector::magnitude(bx) == bx * bx) by (nonlinear_arith);
        assert(ax * ax * (by * by) == bx * bx * (ay * ay)) by (nonlinear_arith)
            requires
                ax * by == ay * bx,
        ;
        assert(ax * ax * (bx * bx + by * by) == bx * bx * (ax * ax + ay * ay)) by (nonlinear_arith)
            requires
                ax * ax * (by * by) == bx * bx * (ay * ay),
        ;
    }
}

/// Every parameter of an intersection lies on the first segment.
pub proof fn lemma_intersection_within_segment(v1: Vector, v2: Vector, support: Vector)
    ensures
        within_segment(vector::spec_intersection(v1, v2, support)),
{
    let det = vector::cross(v1, v2);
    let along_self = vector::cross(support, v2);
    vector::lemma_cross_bounds(v1, v2);
    vector::lemma_cross_bounds(support, v2);
    if det == 0 {
        lemma_overlap_within_segment(v1, v2, support);
    } else if det > 0 {
        if 0 <= along_self <= det {
            fraction::lemma_reduced_value(along_self, det);
        }
    } else {
        if det <= along_self <= 0 {
            fraction::lemma_reduced_value(-along_self, -det);
        }
    }
}

/// Every parameter of a shared stretch lies on the first segment.
pub proof fn lemma_overlap_within_segment(v1: Vector, v2: Vector, support: Vector)
    ensures
        within_segment(vector::spec_overlap_area(v1, v2, support)),
{
    let vertical = v1.x == 0 && v2.x == 0 && support.x == 0;
    let a = vector::extent(v1, vertical);
    let b = vector::extent(v2, vertical);
    let c = vector::extent(support, vertical);
    if a > 0 {
        if c <= a {
            fraction::lemma_reduced_value(c, a);
        }
        if b <= a {
            fraction::lemma_reduced_value(b, a);
        }
        if 0 <= b - c <= a {
            fraction::lemma_reduced_value(b - c, a);
        }
        if 0 <= c - b <= a {
            fraction::lemma_reduced_value(c - b, a);
        }
        if 0 <= a - (b - (c - a)) <= a {
            fraction::lemma_reduced_value(a - (b - (c - a)), a);
        }
    }
}

/// Turning the support round turns both of its cross products round.
proof fn lemma_reversed_cross(support: Vector, v: Vector)
    requires
        support.x > i64::MIN,
        support.y > i64::MIN,
    ensures
        vector::cross(reversed(support), v) == -vector::cross(support, v),
        vector::dot(v, reversed(support)) == -vector::dot(v, support),
{
    let (sx, sy, vx, vy) = (support.x as int, support.y as int, v.x as int, v.y as int);
    assert((-sx) * vy - (-sy) * vx == -(sx * vy - sy * vx)) by (nonlinear_arith);
    assert(vx * (-sx) + vy * (-sy) == -(vx * sx + vy * sy)) by (nonlinear_arith);
}

/// The cross product changes its sign with the order of the vectors.
proof fn lemma_cross_turned(a: Vector, b: Vector)
    ensures
        vector::cross(b, a) == -vector::cross(a, b),
{
    let (ax, ay, bx, by) = (a.x as int, a.y as int, b.x as int, b.y as int);
    assert(bx * ay - by * ax == -(ax * by - ay * bx)) by (nonlinear_arith);
}

/// Four factors in another order.
proof fn lemma_regroup(a: int, b: int, c: int, d: int)
    ensures
        ((a * b) * c) * d == (a * d) * (b * c),
        (a * b) * (c * d) == (b * c) * (a * d),
        (a * b) * (c * d) == (a * c) * (b * d),
{
    assert(((a * b) * c) * d == (a * d) * (b * c)) by (nonlinear_arith);
    assert((a * b) * (c * d) == (b * c) * (a * d)) by (nonlinear_arith);
    assert((a * b) * (c * d) == (a * c) * (b * d)) by (nonlinear_arith);
}

/// The solution of `r * v1 = support + t * v2` by cross products, in one
/// coordinate `c`: with `det = vector::cross(v1, v2)`, `vector::cross(support, v2) * c1` is
/// `cs * det + vector::cross(support, v1) * c2`.
proof fn lemma_cramer(x1: int, y1: int, x2: int, y2: int, sx: int, sy: int)
    ensures
        (sx * y2 - sy * x2) * x1 == sx * (x1 * y2 - y1 * x2) + (sx * y1 - sy * x1) * x2,
        (sx * y2 - sy * x2) * y1 == sy * (x1 * y2 - y1 * x2) + (sx * y1 - sy * x1) * y2,
{
    let m1 = (sx * y2) * x1;
    let m2 = (sy * x2) * x1;
    let m3 = (sx * y1) * x2;
    assert((sx * y2 - sy * x2) * x1 == m1 - m2) by (nonlinear_arith)
        requires
            m1 == (sx * y2) * x1,
            m2 == (sy * x2) * x1,
    ;
    assert(sx * (x1 * y2 - y1 * x2) == m1 - m3) by (nonlinear_arith)
        requires
            m1 == (sx * y2) * x1,
            m3 == (sx * y1) * x2,
    ;
    assert((sx * y1 - sy * x1) * x2 == m3 - m2) by (nonlinear_arith)
        requires
            m3 == (sx * y1) * x2,
            m2 == (sy * x2) * x1,
    ;
    let n1 = (sx * y2) * y1;
    let n2 = (sy * x2) * y1;
    let n3 = (sy * x1) * y2;
    assert((sx * y2 - sy * x2) * y1 == n1 - n2) by (nonlinear_arith)
        requires
            n1 == (sx * y2) * y1,
            n2 == (sy * x2) * y1,
    ;
    assert(sy * (x1 * y2 - y1 * x2) == n3 - n2) by (nonlinear_arith)
        requires
            n3 == (sy * x1) * y2,
            n2 == (sy * x2) * y1,
    ;
    assert((sx * y1 - sy * x1) * y2 == n1 - n3) by (nonlinear_arith)
        requires
            n1 == (sx * y2) * y1,
            n3 == (sy * x1) * y2,
    ;
}

/// For lines that cross, the parameters of the crossing point satisfy the
/// equation of the two segments. `sign` is 1 or -1 and makes the determinant
/// positive.
proof fn lemma_crossing_point(
    v1: Vector,
    v2: Vector,
    support: Vector,
    r: Fraction,
    t: Fraction,
    sign: int,
)
    requires
        sign == 1 || sign == -1,
        vector::cross(v1, v2) != 0,
        r.num * (sign * vector::cross(v1, v2)) == (sign * vector::cross(support, v2)) * r.den,
        t.num * (sign * vector::cross(v1, v2)) == (sign * vector::cross(support, v1)) * t.den,
    ensures
        same_point(v1, r, v2, t, support),
{
    let (x1, y1, x2, y2, sx, sy) = (
        v1.x as int,
        v1.y as int,
        v2.x as int,
        v2.y as int,
        support.x as int,
        support.y as int,
    );
    let (rn, rd, tn, td) = (r.num as int, r.den as int, t.num as int, t.den as int);
    let det = sign * vector::cross(v1, v2);
    let along_self = sign * vector::cross(support, v2);
    let along_other = sign * vector::cross(support, v1);
    lemma_cramer(x1, y1, x2, y2, sx, sy);
    assert(det != 0) by (nonlinear_arith)
        requires
            det == sign * vector::cross(v1, v2),
            sign == 1 || sign == -1,
            vector::cross(v1, v2) != 0,
    ;
    assert(along_self * x1 == sx * det + along_other * x2) by (nonlinear_arith)
        requires
            vector::cross(support, v2) * x1 == sx * vector::cross(v1, v2) + vector::cross(support, v1) * x2,
            det == sign * vector::cross(v1, v2),
            along_self == sign * vector::cross(support, v2),
            along_other == sign * vector::cross(support, v1),
            sign == 1 || sign == -1,
    ;
    assert(along_self * y1 == sy * det + along_other * y2) by (nonlinear_arith)
        requires
            vector::cross(support, v2) * y1 == sy * vector::cross(v1, v2) + vector::cross(support, v1) * y2,
            det == sign * vector::cross(v1, v2),
            along_self == sign * vector::cross(support, v2),
            along_other == sign * vector::cross(support, v1),
            sign == 1 || sign == -1,
    ;
    lemma_scaled_combination(rn, rd, tn, td, det, along_self, along_other, x1, x2, sx);
    lemma_scaled_combination(rn, rd, tn, td, det, along_self, along_other, y1, y2, sy);
}

/// One coordinate of [`lemma_crossing_point`]: an equation that holds after
/// it was multiplied by the determinant holds before.
proof fn lemma_scaled_combination(
    rn: int,
    rd: int,
    tn: int,
    td: int,
    det: int,
    along_self: int,
    along_other: int,
    c1: int,
    c2: int,
    cs: int,
)
    requires
        det != 0,
        rn * det == along_self * rd,
        tn * det == along_other * td,
        along_self * c1 == cs * det + along_other * c2,
    ensures
        rn * td * c1 == rd * td * cs + tn * rd * c2,
{
    let left = (rn * td) * c1;
    let first = (rd * td) * cs;
    let second = (tn * rd) * c2;
    // left * det == (rd * td) * (along_self * c1)
    lemma_regroup(rn, td, c1, det);
    assert(left * det == (rn * det) * (td * c1));
    lemma_regroup(along_self, rd, td, c1);
    assert((along_self * rd) * (td * c1) == (rd * td) * (along_self * c1));
    // the equation, multiplied by rd * td
    assert((rd * td) * (along_self * c1) == (rd * td) * (cs * det) + (rd * td) * (along_other * c2))
        by (nonlinear_arith)
        requires
            along_self * c1 == cs * det + along_other * c2,
    ;
    // first * det == (rd * td) * (cs * det)
    assert(first * det == (rd * td) * (cs * det)) by (nonlinear_arith)
        requires
            first == (rd * td) * cs,
    ;
    // second * det == (rd * td) * (along_other * c2)
    lemma_regroup(tn, rd, c2, det);
    assert(second * det == (tn * det) * (rd * c2));
    lemma_regroup(along_other, td, rd, c2);
    assert((along_other * td) * (rd * c2) == (td * rd) * (along_other * c2));
    assert(td * rd == rd * td) by (nonlinear_arith);
    assert(left * det == (first + second) * det) by (nonlinear_arith)
        requires
            left * det == first * det + second * det,
    ;
    assert(left == first + second) by (nonlinear_arith)
        requires
            left * det == (first + second) * det,
            det != 0,
    ;
}

/// The coordinate by which the vectors of one line are compared: `y` on a
/// vertical line, `x` on any other.
spec fn coordinate(v: Vector, vertical: bool) -> int {
    if vertical {
        v.y as int
    } else {
        v.x as int
    }
}

/// Two direction classes are opposite to each other or neither is.
pub proof fn lemma_opposed_is_mutual(a: Vector, b: Vector)
    ensures
        vector::opposed(a, b) == vector::opposed(b, a),
{
    assert(vector::magnitude(a.y as int) * vector::magnitude(b.x as int) == vector::magnitude(b.x as int) * vector::magnitude(
        a.y as int,
    )) by (nonlinear_arith);
    assert(vector::magnitude(b.y as int) * vector::magnitude(a.x as int) == vector::magnitude(a.x as int) * vector::magnitude(
        b.y as int,
    )) by (nonlinear_arith);
}

/// On one line, the dot product of two vectors has the sign of the product of
/// their coordinates.
proof fn lemma_dot_sign(u: Vector, w: Vector, vertical: bool)
    requires
        vector::cross(u, w) == 0,
        vertical ==> u.x == 0 && w.x == 0,
        !vertical ==> u.x != 0,
    ensures
        vector::dot(u, w) < 0 <==> (coordinate(u, vertical) > 0 && coordinate(w, vertical) < 0) || (
        coordinate(u, vertical) < 0 && coordinate(w, vertical) > 0),
        vector::dot(u, w) > 0 <==> (coordinate(u, vertical) > 0 && coordinate(w, vertical) > 0) || (
        coordinate(u, vertical) < 0 && coordinate(w, vertical) < 0),
{
    let (ux, uy, wx, wy) = (u.x as int, u.y as int, w.x as int, w.y as int);
    if vertical {
        assert(ux * wx == 0) by (nonlinear_arith)
            requires
                ux == 0,
        ;
        assert((uy * wy < 0 <==> (uy > 0 && wy < 0) || (uy < 0 && wy > 0)) && (uy * wy > 0 <==> (uy
            > 0 && wy > 0) || (uy < 0 && wy < 0))) by (nonlinear_arith);
    } else {
        let d = ux * wx + uy * wy;
        let len = ux * ux + uy * uy;
        assert(len > 0) by (nonlinear_arith)
            requires
                len == ux * ux + uy * uy,
                ux != 0,
        ;
        assert(d * ux == wx * len) by (nonlinear_arith)
            requires
                d == ux * wx + uy * wy,
                len == ux * ux + uy * uy,
                ux * wy - uy * wx == 0,
        ;
        assert((d < 0 <==> (ux > 0 && wx < 0) || (ux < 0 && wx > 0)) && (d > 0 <==> (ux > 0 && wx
            > 0) || (ux < 0 && wx < 0))) by (nonlinear_arith)
            requires
                d * ux == wx * len,
                len > 0,
                ux != 0,
        ;
    }
}

/// On one line, an equation between the vectors that holds in the
/// coordinate they are compared by holds in both coordinates.
proof fn lemma_collinear_combination(
    v1: Vector,
    v2: Vector,
    support: Vector,
    alpha: int,
    beta: int,
    gamma: int,
    vertical: bool,
)
    requires
        on_one_line(v1, v2, support),
        vertical ==> v1.x == 0 && v2.x == 0 && support.x == 0,
        !vertical ==> v1.x != 0,
        alpha * coordinate(v1, vertical) == beta * coordinate(support, vertical) + gamma
            * coordinate(v2, vertical),
    ensures
        alpha * v1.x == beta * support.x + gamma * v2.x,
        alpha * v1.y == beta * support.y + gamma * v2.y,
{
    let (x1, y1, x2, y2, sx, sy) = (
        v1.x as int,
        v1.y as int,
        v2.x as int,
        v2.y as int,
        support.x as int,
        support.y as int,
    );
    if vertical {
        assert(alpha * x1 == 0 && beta * sx == 0 && gamma * x2 == 0) by (nonlinear_arith)
            requires
                x1 == 0,
                sx == 0,
                x2 == 0,
        ;
    } else {
        let right = beta * sy + gamma * y2;
        assert(x1 * right == beta * (x1 * sy) + gamma * (x1 * y2)) by (nonlinear_arith)
            requires
                right == beta * sy + gamma * y2,
        ;
        assert(beta * (y1 * sx) + gamma * (y1 * x2) == y1 * (beta * sx + gamma * x2))
            by (nonlinear_arith);
        assert(x1 * sy == y1 * sx) by (nonlinear_arith)
            requires
                sx * y1 - sy * x1 == 0,
        ;
        assert(x1 * y2 == y1 * x2) by (nonlinear_arith)
            requires
                x1 * y2 - y1 * x2 == 0,
        ;
        assert(y1 * (alpha * x1) == x1 * (alpha * y1)) by (nonlinear_arith);
        assert(alpha * y1 == right) by (nonlinear_arith)
            requires
                x1 * right == x1 * (alpha * y1),
                x1 != 0,
        ;
    }
}

/// Vectors of one line are told apart by their direction classes: the
/// classes are opposite exactly where the vectors point against each other.
pub proof fn lemma_told_apart_on_one_line(a: Vector, b: Vector)
    requires
        vector::cross(a, b) == 0,
    ensures
        told_apart(a, b),
{
    let (ax, ay, bx, by) = (a.x as int, a.y as int, b.x as int, b.y as int);
    let d = ax * bx + ay * by;
    assert(vector::magnitude(ay) * vector::magnitude(bx) == vector::magnitude(by)
        * vector::magnitude(ax)) by (nonlinear_arith)
        requires
            ax * by - ay * bx == 0,
    ;
    // the signs of the products that make the dot product
    assert((ax * bx > 0 <==> (ax > 0 && bx > 0) || (ax < 0 && bx < 0)) && (ax * bx < 0 <==> (ax > 0
        && bx < 0) || (ax < 0 && bx > 0)) && (ay * by > 0 <==> (ay > 0 && by > 0) || (ay < 0 && by
        < 0)) && (ay * by < 0 <==> (ay > 0 && by < 0) || (ay < 0 && by > 0))) by (nonlinear_arith);
    // on one line both products have one sign
    assert(!(ax * bx > 0 && ay * by < 0) && !(ax * bx < 0 && ay * by > 0)) by (nonlinear_arith)
        requires
            ax * by - ay * bx == 0,
    ;
    if d < 0 && ax != 0 && ay != 0 {
        assert(bx != 0 && by != 0) by (nonlinear_arith)
            requires
                ax * by - ay * bx == 0,
                ax * bx + ay * by < 0,
                ax != 0,
                ay != 0,
        ;
    }
    if d < 0 && ax == 0 {
        assert(bx == 0) by (nonlinear_arith)
            requires
                ax * by - ay * bx == 0,
                ax * bx + ay * by < 0,
                ax == 0,
        ;
    }
    if d < 0 && ay == 0 {
        assert(by == 0) by (nonlinear_arith)
            requires
                ax * by - ay * bx == 0,
                ax * bx + ay * by < 0,
                ay == 0,
        ;
    }
}

/// The fraction `n / 1`.
spec fn whole(n: int) -> Fraction {
    Fraction { num: n as u128, den: 1 }
}

/// On one line, two ends of segments are one point of the plane if they are
/// one in the coordinate that the vectors are compared by. `rn` and `tn` are
/// zero for the start and one for the end of a segment.
proof fn lemma_same_point_at_ends(
    v1: Vector,
    v2: Vector,
    support: Vector,
    rn: int,
    tn: int,
    vertical: bool,
)
    requires
        on_one_line(v1, v2, support),
        vertical ==> v1.x == 0 && v2.x == 0 && support.x == 0,
        !vertical ==> v1.x != 0,
        0 <= rn <= 1,
        0 <= tn <= 1,
        rn * coordinate(v1, vertical) == coordinate(support, vertical) + tn * coordinate(
            v2,
            vertical,
        ),
    ensures
        same_point(v1, whole(rn), v2, whole(tn), support),
        whole(0) == Fraction::zero(),
        whole(1) == Fraction::one(),
{
    assert(rn * coordinate(v1, vertical) == 1 * coordinate(support, vertical) + tn * coordinate(
        v2,
        vertical,
    ));
    lemma_collinear_combination(v1, v2, support, rn, 1, tn, vertical);
    let (x1, y1, x2, y2, sx, sy) = (
        v1.x as int,
        v1.y as int,
        v2.x as int,
        v2.y as int,
        support.x as int,
        support.y as int,
    );
    let r = whole(rn);
    let t = whole(tn);
    assert(r.num == rn && r.den == 1 && t.num == tn && t.den == 1);
    assert(rn * 1 * x1 == 1 * 1 * sx + tn * 1 * x2 && rn * 1 * y1 == 1 * 1 * sy + tn * 1 * y2)
        by (nonlinear_arith)
        requires
            rn * x1 == 1 * sx + tn * x2,
            rn * y1 == 1 * sy + tn * y2,
    ;
}

/// Both intersections are of one kind, and where they are points, they are
/// one point of the plane.
pub open spec fn agree(
    v1: Vector,
    there: Intersection,
    v2: Vector,
    back: Intersection,
    support: Vector,
) -> bool {
    match there {
        Intersection::Disjoint => back is Disjoint,
        Intersection::Point(r) => match back {
            Intersection::Point(t) => same_point(v1, r, v2, t, support),
            _ => false,
        },
        Intersection::Line(_, _) => back is Line,
    }
}

/// Segments of one line share a stretch, a point or nothing whichever of them
/// is taken as the first, provided that neither is a single point.
#[verifier::spinoff_prover]
proof fn lemma_overlap_symmetric(v1: Vector, v2: Vector, support: Vector)
    requires
        support.x > i64::MIN,
        support.y > i64::MIN,
        on_one_line(v1, v2, support),
        v1.x != 0 || v1.y != 0,
        v2.x != 0 || v2.y != 0,
    ensures
        agree(
            v1,
            vector::spec_overlap_area(v1, v2, support),
            v2,
            vector::spec_overlap_area(v2, v1, reversed(support)),
            support,
        ),
{
    let back_support = reversed(support);
    let vertical = v1.x == 0 && v2.x == 0 && support.x == 0;
    let (x1, y1, x2, y2, sx, sy) = (
        v1.x as int,
        v1.y as int,
        v2.x as int,
        v2.y as int,
        support.x as int,
        support.y as int,
    );
    if !vertical {
        assert(x1 != 0 && x2 != 0) by (nonlinear_arith)
            requires
                x1 * y2 - y1 * x2 == 0,
                sx * y1 - sy * x1 == 0,
                sx * y2 - sy * x2 == 0,
                x1 != 0 || y1 != 0,
                x2 != 0 || y2 != 0,
                x1 != 0 || x2 != 0 || sx != 0,
        ;
    }
    lemma_reversed_cross(support, v1);
    lemma_reversed_cross(support, v2);
    lemma_cross_turned(v1, v2);
    lemma_cross_turned(support, v2);
    lemma_cross_turned(support, v1);
    lemma_cross_turned(back_support, v2);
    lemma_told_apart_on_one_line(v1, v2);
    lemma_told_apart_on_one_line(v1, support);
    lemma_told_apart_on_one_line(v2, back_support);
    lemma_opposed_is_mutual(v1, v2);
    lemma_dot_sign(v1, v2, vertical);
    lemma_dot_sign(v1, support, vertical);
    lemma_dot_sign(v2, support, vertical);
    let p = coordinate(v1, vertical);
    let q = coordinate(v2, vertical);
    let r = coordinate(support, vertical);
    let a = vector::extent(v1, vertical);
    let b = vector::extent(v2, vertical);
    let c = vector::extent(support, vertical);
    assert(a == vector::magnitude(p) && b == vector::magnitude(q) && c == vector::magnitude(r));
    assert(vector::extent(back_support, vertical) == c);
    assert(p != 0 && q != 0);
    let line_direction = !vector::opposed(v1, v2);
    let support_direction = !vector::opposed(v1, support);
    let back_direction = !vector::opposed(v2, back_support);
    assert(line_direction <==> (p > 0 && q > 0) || (p < 0 && q < 0));
    assert(support_direction <==> !((p > 0 && r < 0) || (p < 0 && r > 0)));
    assert(back_direction <==> !((q > 0 && r > 0) || (q < 0 && r < 0)));
    let there = vector::spec_overlap_area(v1, v2, support);
    let back = vector::spec_overlap_area(v2, v1, back_support);
    let one = Fraction::one();
    let zero = Fraction::zero();
    if line_direction && support_direction {
        if a < c {
            assert(there is Disjoint && back is Disjoint);
        } else if a == c {
            assert(there == Intersection::Point(one));
            assert(back == Intersection::Point(zero));
            assert(p == r);
            assert(1 * p == r + 0 * q);
            lemma_same_point_at_ends(v1, v2, support, 1, 0, vertical);
            assert(same_point(v1, one, v2, zero, support));
            assert(agree(v1, there, v2, back, support));
        } else {
            assert(there is Line && back is Line);
        }
    } else if !line_direction && !support_direction {
        assert(there is Disjoint && back is Disjoint);
    } else if line_direction && !support_direction {
        if c > b {
            assert(there is Disjoint && back is Disjoint);
        } else if c == b {
            assert(there == Intersection::Point(zero));
            assert(back == Intersection::Point(one));
            assert(r + q == 0);
            assert(0 * p == r + 1 * q);
            lemma_same_point_at_ends(v1, v2, support, 0, 1, vertical);
            assert(same_point(v1, zero, v2, one, support));
            assert(agree(v1, there, v2, back, support));
        } else {
            assert(there is Line && back is Line);
        }
    } else {
        if a < c {
            if b < c - a {
                assert(there is Disjoint && back is Disjoint);
            } else if b == c - a {
                assert(there == Intersection::Point(one));
                assert(back == Intersection::Point(one));
                assert(p == r + q);
                assert(1 * p == r + 1 * q);
                lemma_same_point_at_ends(v1, v2, support, 1, 1, vertical);
                assert(same_point(v1, one, v2, one, support));
                assert(agree(v1, there, v2, back, support));
            } else {
                assert(there is Line && back is Line);
            }
        } else {
            if c == 0 {
                assert(there == Intersection::Point(zero));
                assert(back == Intersection::Point(zero));
                assert(r == 0);
                assert(0 * p == r + 0 * q);
                lemma_same_point_at_ends(v1, v2, support, 0, 0, vertical);
                assert(same_point(v1, zero, v2, zero, support));
                assert(agree(v1, there, v2, back, support));
            } else {
                assert(there is Line && back is Line);
            }
        }
    }
}

/// Two segments meet in the same way whichever of them is taken as the
/// first: the intersection of the segment `v1` with the segment `v2` that
/// starts at `support`, and that of the segment `v2` with the segment `v1` that
/// starts at the reversed support, are both empty, both a point or both a
/// stretch, and two points are one point of the plane, each given by its
/// parameter on its own segment.
///
/// For segments of one line this holds where neither is a single point.
#[verifier::spinoff_prover]
pub proof fn lemma_intersection_symmetric(v1: Vector, v2: Vector, support: Vector)
    requires
        support.x > i64::MIN,
        support.y > i64::MIN,
        on_one_line(v1, v2, support) ==> (v1.x != 0 || v1.y != 0) && (v2.x != 0 || v2.y != 0),
    ensures
        agree(
            v1,
            vector::spec_intersection(v1, v2, support),
            v2,
            vector::spec_intersection(v2, v1, reversed(support)),
            support,
        ),
{
    let back_support = reversed(support);
    lemma_reversed_cross(support, v1);
    lemma_reversed_cross(support, v2);
    lemma_cross_turned(v1, v2);
    let det = vector::cross(v1, v2);
    let along_self = vector::cross(support, v2);
    let along_other = vector::cross(support, v1);
    assert(vector::cross(v2, v1) == -det);
    assert(vector::cross(back_support, v1) == -along_other);
    assert(vector::cross(back_support, v2) == -along_self);
    vector::lemma_cross_bounds(v1, v2);
    vector::lemma_cross_bounds(support, v1);
    vector::lemma_cross_bounds(support, v2);
    if det == 0 {
        if along_other == 0 && along_self == 0 {
            lemma_overlap_symmetric(v1, v2, support);
        }
    } else if det > 0 {
        if 0 <= along_other <= det && 0 <= along_self <= det {
            let r = fraction::reduced(along_self, det);
            let t = fraction::reduced(along_other, det);
            fraction::lemma_reduced_value(along_self, det);
            fraction::lemma_reduced_value(along_other, det);
            assert(vector::spec_intersection(v1, v2, support) == Intersection::Point(r));
            assert(vector::spec_intersection(v2, v1, back_support) == Intersection::Point(t));
            assert(r.num * (1 * det) == (1 * along_self) * r.den) by (nonlinear_arith)
                requires
                    r.num * det == along_self * r.den,
            ;
            assert(t.num * (1 * det) == (1 * along_other) * t.den) by (nonlinear_arith)
                requires
                    t.num * det == along_other * t.den,
            ;
            lemma_crossing_point(v1, v2, support, r, t, 1);
        }
    } else {
        if det <= along_other <= 0 && det <= along_self <= 0 {
            let r = fraction::reduced(-along_self, -det);
            let t = fraction::reduced(-along_other, -det);
            fraction::lemma_reduced_value(-along_self, -det);
            fraction::lemma_reduced_value(-along_other, -det);
            assert(vector::spec_intersection(v1, v2, support) == Intersection::Point(r));
            assert(vector::spec_intersection(v2, v1, back_support) == Intersection::Point(t));
            assert(r.num * (-1 * det) == (-1 * along_self) * r.den) by (nonlinear_arith)
                requires
                    r.num * (-det) == (-along_self) * r.den,
            ;
            assert(t.num * (-1 * det) == (-1 * along_other) * t.den) by (nonlinear_arith)
                requires
                    t.num * (-det) == (-along_other) * t.den,
            ;
            lemma_crossing_point(v1, v2, support, r, t, -1);
        }
    }
}

/// The segments cross in the point with the parameter `rn / rd` on the
/// first and `tn / td` on the second, both between zero and one:
/// `(rn / rd) * v1 = support + (tn / td) * v2`, cleared of denominators.
pub open spec fn crossing_at(
    v1: Vector,
    v2: Vector,
    support: Vector,
    rn: int,
    rd: int,
    tn: int,
    td: int,
) -> bool {
    &&& 0 <= rn <= rd
    &&& 0 < rd
    &&& 0 <= tn <= td
    &&& 0 < td
    &&& rn * td * v1.x == rd * td * support.x + tn * rd * v2.x
    &&& rn * td * v1.y == rd * td * support.y + tn * rd * v2.y
}

/// `p * y - q * x` for the two sides of an equation between vectors: what is
/// left of the equation `alpha * a = beta * b + gamma * c` after both sides
/// were crossed with `(x, y)`.
proof fn lemma_crossed_equation(
    alpha: int,
    beta: int,
    gamma: int,
    ax: int,
    ay: int,
    bx: int,
    by: int,
    cx: int,
    cy: int,
    x: int,
    y: int,
)
    requires
        alpha * ax == beta * bx + gamma * cx,
        alpha * ay == beta * by + gamma * cy,
    ensures
        alpha * (ax * y - ay * x) == beta * (bx * y - by * x) + gamma * (cx * y - cy * x),
{
    assert((alpha * ax) * y - (alpha * ay) * x == alpha * (ax * y - ay * x)) by (nonlinear_arith);
    assert((beta * bx) * y - (beta * by) * x == beta * (bx * y - by * x)) by (nonlinear_arith);
    assert((gamma * cx) * y - (gamma * cy) * x == gamma * (cx * y - cy * x)) by (nonlinear_arith);
    let (p, q, u, w) = (beta * bx, gamma * cx, beta * by, gamma * cy);
    assert((p + q) * y - (u + w) * x == (p * y - u * x) + (q * y - w * x)) by (nonlinear_arith);
}

/// Segments that are not parallel and cross have their crossing found: the
/// intersection is the point with the parameter of the crossing on the first
/// segment.
#[verifier::spinoff_prover]
pub proof fn lemma_crossing_is_found(
    v1: Vector,
    v2: Vector,
    support: Vector,
    rn: int,
    rd: int,
    tn: int,
    td: int,
)
    requires
        vector::cross(v1, v2) != 0,
        crossing_at(v1, v2, support, rn, rd, tn, td),
    ensures
        vector::spec_intersection(v1, v2, support) is Point,
        vector::spec_intersection(v1, v2, support)->Point_0.num * rd == rn
            * vector::spec_intersection(v1, v2, support)->Point_0.den,
{
    let (x1, y1, x2, y2, sx, sy) = (
        v1.x as int,
        v1.y as int,
        v2.x as int,
        v2.y as int,
        support.x as int,
        support.y as int,
    );
    let det = vector::cross(v1, v2);
    let along_self = vector::cross(support, v2);
    let along_other = vector::cross(support, v1);
    vector::lemma_cross_bounds(v1, v2);
    vector::lemma_cross_bounds(support, v2);
    vector::lemma_cross_bounds(support, v1);
    // crossed with v2, the equation leaves the parameter of the first segment
    lemma_crossed_equation(rn * td, rd * td, tn * rd, x1, y1, sx, sy, x2, y2, x2, y2);
    assert(x2 * y2 - y2 * x2 == 0) by (nonlinear_arith);
    assert((rn * td) * det == (rd * td) * along_self) by (nonlinear_arith)
        requires
            (rn * td) * (x1 * y2 - y1 * x2) == (rd * td) * (sx * y2 - sy * x2) + (tn * rd) * (x2
                * y2 - y2 * x2),
            x2 * y2 - y2 * x2 == 0,
            det == x1 * y2 - y1 * x2,
            along_self == sx * y2 - sy * x2,
    ;
    assert(rn * det == rd * along_self) by (nonlinear_arith)
        requires
            (rn * td) * det == (rd * td) * along_self,
            td > 0,
    ;
    // crossed with v1, it leaves the parameter of the second
    lemma_crossed_equation(rn * td, rd * td, tn * rd, x1, y1, sx, sy, x2, y2, x1, y1);
    assert(x1 * y1 - y1 * x1 == 0) by (nonlinear_arith);
    assert(x2 * y1 - y2 * x1 == -det) by (nonlinear_arith)
        requires
            det == x1 * y2 - y1 * x2,
    ;
    assert((rd * td) * along_other == (tn * rd) * det) by (nonlinear_arith)
        requires
            (rn * td) * (x1 * y1 - y1 * x1) == (rd * td) * (sx * y1 - sy * x1) + (tn * rd) * (x2
                * y1 - y2 * x1),
            x1 * y1 - y1 * x1 == 0,
            x2 * y1 - y2 * x1 == -det,
            along_other == sx * y1 - sy * x1,
    ;
    assert(td * along_other == tn * det) by (nonlinear_arith)
        requires
            (rd * td) * along_other == (tn * rd) * det,
            rd > 0,
    ;
    // both parameters lie between zero and one
    if det > 0 {
        assert(0 <= along_self <= det && 0 <= along_other <= det) by (nonlinear_arith)
            requires
                rn * det == rd * along_self,
                td * along_other == tn * det,
                0 <= rn <= rd,
                0 < rd,
                0 <= tn <= td,
                0 < td,
                det > 0,
        ;
        let r = fraction::reduced(along_self, det);
        fraction::lemma_reduced_value(along_self, det);
        assert(r.num * rd == rn * r.den) by (nonlinear_arith)
            requires
                r.num * det == along_self * r.den,
                rn * det == rd * along_self,
                det > 0,
        ;
    } else {
        assert(det <= along_self <= 0 && det <= along_other <= 0) by (nonlinear_arith)
            requires
                rn * det == rd * along_self,
                td * along_other == tn * det,
                0 <= rn <= rd,
                0 < rd,
                0 <= tn <= td,
                0 < td,
                det < 0,
        ;
        let r = fraction::reduced(-along_self, -det);
        fraction::lemma_reduced_value(-along_self, -det);
        assert(r.num * rd == rn * r.den) by (nonlinear_arith)
            requires
                r.num * (-det) == (-along_self) * r.den,
                rn * det == rd * along_self,
                det < 0,
        ;
    }
}

/// For segments that are not parallel, the parameter on the second segment
/// of the point in which the lines through them meet, as far as it is not
/// negative.
pub open spec fn parameter_on_second(v1: Vector, v2: Vector, support: Vector) -> Fraction {
    fraction::reduced(
        vector::magnitude(vector::cross(support, v1)),
        vector::magnitude(vector::cross(v1, v2)),
    )
}

/// A point that is found is a crossing: segments that are not parallel and
/// whose intersection is a point cross in that point, which has the
/// parameter [`parameter_on_second`] on the second segment.
pub proof fn lemma_point_is_a_crossing(v1: Vector, v2: Vector, support: Vector)
    requires
        vector::cross(v1, v2) != 0,
        vector::spec_intersection(v1, v2, support) is Point,
    ensures
        crossing_at(
            v1,
            v2,
            support,
            vector::spec_intersection(v1, v2, support)->Point_0.num as int,
            vector::spec_intersection(v1, v2, support)->Point_0.den as int,
            parameter_on_second(v1, v2, support).num as int,
            parameter_on_second(v1, v2, support).den as int,
        ),
{
    let det = vector::cross(v1, v2);
    let along_self = vector::cross(support, v2);
    let along_other = vector::cross(support, v1);
    vector::lemma_cross_bounds(v1, v2);
    vector::lemma_cross_bounds(support, v2);
    vector::lemma_cross_bounds(support, v1);
    if det > 0 {
        let r = fraction::reduced(along_self, det);
        let t = fraction::reduced(along_other, det);
        fraction::lemma_reduced_value(along_self, det);
        fraction::lemma_reduced_value(along_other, det);
        assert(r.num * (1 * det) == (1 * along_self) * r.den) by (nonlinear_arith)
            requires
                r.num * det == along_self * r.den,
        ;
        assert(t.num * (1 * det) == (1 * along_other) * t.den) by (nonlinear_arith)
            requires
                t.num * det == along_other * t.den,
        ;
        lemma_crossing_point(v1, v2, support, r, t, 1);
        assert(vector::spec_intersection(v1, v2, support) == Intersection::Point(r));
        assert(crossing_at(
            v1,
            v2,
            support,
            r.num as int,
            r.den as int,
            t.num as int,
            t.den as int,
        ));
    } else {
        let r = fraction::reduced(-along_self, -det);
        let t = fraction::reduced(-along_other, -det);
        fraction::lemma_reduced_value(-along_self, -det);
        fraction::lemma_reduced_value(-along_other, -det);
        assert(r.num * (-1 * det) == (-1 * along_self) * r.den) by (nonlinear_arith)
            requires
                r.num * (-det) == (-along_self) * r.den,
        ;
        assert(t.num * (-1 * det) == (-1 * along_other) * t.den) by (nonlinear_arith)
            requires
                t.num * (-det) == (-along_other) * t.den,
        ;
        lemma_crossing_point(v1, v2, support, r, t, -1);
        assert(vector::spec_intersection(v1, v2, support) == Intersection::Point(r));
        assert(crossing_at(
            v1,
            v2,
            support,
            r.num as int,
            r.den as int,
            t.num as int,
            t.den as int,
        ));
    }
}

/// The numbers from `a` to `b` and those from `c` to `d`, in whichever order
/// the ends of each pair are given, have no number in common.
pub open spec fn spans_apart(a: int, b: int, c: int, d: int) -> bool {
    ||| (a < c && a < d && b < c && b < d)
    ||| (c < a && c < b && d < a && d < b)
}

/// The segment from the origin to `v1` and the segment from `support` to
/// `support + v2` lie apart along one of the axes.
pub open spec fn boxes_apart(v1: Vector, v2: Vector, support: Vector) -> bool {
    ||| spans_apart(0, v1.x as int, support.x as int, support.x + v2.x)
    ||| spans_apart(0, v1.y as int, support.y as int, support.y + v2.y)
}

/// One coordinate of a crossing lies on both segments, so that the segments
/// are not apart in this coordinate.
proof fn lemma_crossing_within_spans(
    rn: int,
    rd: int,
    tn: int,
    td: int,
    c1: int,
    c2: int,
    cs: int,
)
    requires
        0 <= rn <= rd,
        0 < rd,
        0 <= tn <= td,
        0 < td,
        rn * td * c1 == rd * td * cs + tn * rd * c2,
    ensures
        !spans_apart(0, c1, cs, cs + c2),
{
    let scale = rd * td;
    assert(scale > 0) by (nonlinear_arith)
        requires
            scale == rd * td,
            rd > 0,
            td > 0,
    ;
    let left = rn * td * c1;
    let right = rd * td * cs + tn * rd * c2;
    // the point on the first segment lies between its ends
    assert((c1 >= 0 ==> 0 <= left <= scale * c1) && (c1 <= 0 ==> scale * c1 <= left <= 0))
        by (nonlinear_arith)
        requires
            left == rn * td * c1,
            scale == rd * td,
            0 <= rn <= rd,
            td > 0,
    ;
    // and so does the point on the second
    assert((c2 >= 0 ==> scale * cs <= right <= scale * (cs + c2)) && (c2 <= 0 ==> scale * (cs + c2)
        <= right <= scale * cs)) by (nonlinear_arith)
        requires
            right == rd * td * cs + tn * rd * c2,
            scale == rd * td,
            0 <= tn <= td,
            rd > 0,
    ;
    if spans_apart(0, c1, cs, cs + c2) {
        assert(false) by (nonlinear_arith)
            requires
                left == right,
                scale > 0,
                (c1 >= 0 ==> 0 <= left <= scale * c1) && (c1 <= 0 ==> scale * c1 <= left <= 0),
                (c2 >= 0 ==> scale * cs <= right <= scale * (cs + c2)) && (c2 <= 0 ==> scale * (cs
                    + c2) <= right <= scale * cs),
                (0 < cs && 0 < cs + c2 && c1 < cs && c1 < cs + c2) || (cs < 0 && cs < c1 && cs + c2
                    < 0 && cs + c2 < c1),
        ;
    }
}

/// On a line that is neither upright nor level, segments that lie apart in
/// one coordinate lie apart in the other: `(dx, dy)` is a vector of the line
/// with both coordinates not zero.
proof fn lemma_apart_in_both(
    dx: int,
    dy: int,
    x1: int,
    y1: int,
    x2: int,
    y2: int,
    sx: int,
    sy: int,
)
    requires
        dx != 0,
        y1 * dx == x1 * dy,
        y2 * dx == x2 * dy,
        sy * dx == sx * dy,
        spans_apart(0, y1, sy, sy + y2),
    ensures
        spans_apart(0, x1, sx, sx + x2),
{
    let ey = sy + y2;
    let ex = sx + x2;
    assert(ey * dx == ex * dy) by (nonlinear_arith)
        requires
            ey == sy + y2,
            ex == sx + x2,
            y2 * dx == x2 * dy,
            sy * dx == sx * dy,
    ;
    assert(dy != 0) by (nonlinear_arith)
        requires
            dx != 0,
            y1 * dx == x1 * dy,
            ey * dx == ex * dy,
            sy * dx == sx * dy,
            (0 < sy && 0 < ey && y1 < sy && y1 < ey) || (sy < 0 && sy < y1 && ey < 0 && ey < y1),
    ;
    lemma_order_on_line(dx, dy, 0, 0, sy, sx);
    lemma_order_on_line(dx, dy, 0, 0, ey, ex);
    lemma_order_on_line(dx, dy, y1, x1, sy, sx);
    lemma_order_on_line(dx, dy, y1, x1, ey, ex);
    lemma_order_on_line(dx, dy, sy, sx, 0, 0);
    lemma_order_on_line(dx, dy, ey, ex, 0, 0);
    lemma_order_on_line(dx, dy, sy, sx, y1, x1);
    lemma_order_on_line(dx, dy, ey, ex, y1, x1);
}

/// On a line that is neither upright nor level, the order of two points in
/// one coordinate is their order in the other where the line rises, and the
/// opposite order where it falls.
proof fn lemma_order_on_line(dx: int, dy: int, u: int, ux: int, v: int, vx: int)
    requires
        dx != 0,
        dy != 0,
        u * dx == ux * dy,
        v * dx == vx * dy,
    ensures
        u < v ==> (if (dx > 0) == (dy > 0) {
            ux < vx
        } else {
            vx < ux
        }),
{
    if u < v {
        assert(if (dx > 0) == (dy > 0) {
            ux < vx
        } else {
            vx < ux
        }) by (nonlinear_arith)
            requires
                u * dx == ux * dy,
                v * dx == vx * dy,
                u < v,
                dx != 0,
                dy != 0,
        ;
    }
}

/// On one line, the direction classes of two vectors are opposite exactly
/// where the coordinates that they are compared by have opposite signs.
proof fn lemma_opposed_by_coordinates(u: Vector, w: Vector, vertical: bool)
    requires
        vector::cross(u, w) == 0,
        vertical ==> u.x == 0 && w.x == 0,
        !vertical ==> (u.x == 0 ==> u.y == 0),
    ensures
        vector::opposed(u, w) <==> (coordinate(u, vertical) > 0 && coordinate(w, vertical) < 0)
            || (coordinate(u, vertical) < 0 && coordinate(w, vertical) > 0),
{
    lemma_told_apart_on_one_line(u, w);
    if !vertical && u.x == 0 {
        assert(vector::dot(u, w) == 0) by (nonlinear_arith)
            requires
                u.x == 0,
                u.y == 0,
                vector::dot(u, w) == u.x * w.x + u.y * w.y,
        ;
    } else {
        lemma_dot_sign(u, w, vertical);
    }
}

/// Segments of one line that lie apart along an axis share nothing.
#[verifier::spinoff_prover]
proof fn lemma_overlap_apart(v1: Vector, v2: Vector, support: Vector)
    requires
        on_one_line(v1, v2, support),
        boxes_apart(v1, v2, support),
    ensures
        vector::spec_overlap_area(v1, v2, support) is Disjoint,
{
    let vertical = v1.x == 0 && v2.x == 0 && support.x == 0;
    let (x1, y1, x2, y2, sx, sy) = (
        v1.x as int,
        v1.y as int,
        v2.x as int,
        v2.y as int,
        support.x as int,
        support.y as int,
    );
    lemma_cross_turned(v1, v2);
    lemma_cross_turned(support, v1);
    lemma_cross_turned(support, v2);
    let p = coordinate(v1, vertical);
    let q = coordinate(v2, vertical);
    let r = coordinate(support, vertical);
    if !vertical {
        // a vector of the line with an `x` that is not zero
        let (dx, dy) = if x1 != 0 {
            (x1, y1)
        } else if x2 != 0 {
            (x2, y2)
        } else {
            (sx, sy)
        };
        assert(y1 * dx == x1 * dy && y2 * dx == x2 * dy && sy * dx == sx * dy) by (nonlinear_arith)
            requires
                x1 * y2 - y1 * x2 == 0,
                sx * y1 - sy * x1 == 0,
                sx * y2 - sy * x2 == 0,
                (dx == x1 && dy == y1) || (dx == x2 && dy == y2) || (dx == sx && dy == sy),
        ;
        assert((x1 == 0 ==> y1 == 0) && (x2 == 0 ==> y2 == 0) && (sx == 0 ==> sy == 0))
            by (nonlinear_arith)
            requires
                y1 * dx == x1 * dy,
                y2 * dx == x2 * dy,
                sy * dx == sx * dy,
                dx != 0,
        ;
        if !spans_apart(0, x1, sx, sx + x2) {
            lemma_apart_in_both(dx, dy, x1, y1, x2, y2, sx, sy);
        }
    }
    assert(spans_apart(0, p, r, r + q));
    lemma_opposed_by_coordinates(v1, v2, vertical);
    lemma_opposed_by_coordinates(v1, support, vertical);
    let a = vector::extent(v1, vertical);
    let b = vector::extent(v2, vertical);
    let c = vector::extent(support, vertical);
    assert(a == vector::magnitude(p) && b == vector::magnitude(q) && c == vector::magnitude(r));
    let line_direction = !vector::opposed(v1, v2);
    let support_direction = !vector::opposed(v1, support);
    assert(line_direction <==> !((p > 0 && q < 0) || (p < 0 && q > 0)));
    assert(support_direction <==> !((p > 0 && r < 0) || (p < 0 && r > 0)));
    if line_direction && support_direction {
        assert(a < c);
    } else if line_direction && !support_direction {
        assert(c > b);
    } else if !line_direction && support_direction {
        assert(a < c && b < c - a);
    }
}

/// Segments that lie apart along an axis do not meet.
pub proof fn lemma_segments_apart_do_not_meet(v1: Vector, v2: Vector, support: Vector)
    requires
        boxes_apart(v1, v2, support),
    ensures
        vector::spec_intersection(v1, v2, support) is Disjoint,
{
    if vector::cross(v1, v2) != 0 {
        if vector::spec_intersection(v1, v2, support) is Point {
            lemma_point_is_a_crossing(v1, v2, support);
            let r = vector::spec_intersection(v1, v2, support)->Point_0;
            let t = parameter_on_second(v1, v2, support);
            lemma_crossing_within_spans(
                r.num as int,
                r.den as int,
                t.num as int,
                t.den as int,
                v1.x as int,
                v2.x as int,
                support.x as int,
            );
            lemma_crossing_within_spans(
                r.num as int,
                r.den as int,
                t.num as int,
                t.den as int,
                v1.y as int,
                v2.y as int,
                support.y as int,
            );
        }
    } else if on_one_line(v1, v2, support) {
        lemma_overlap_apart(v1, v2, support);
    }
}

/// A segment that is not a single point meets itself along its whole
/// length.
pub proof fn lemma_segment_meets_itself(v: Vector)
    requires
        v.x != 0 || v.y != 0,
    ensures
        vector::spec_intersection(v, v, Vector { x: 0, y: 0 }) == Intersection::Line(
            Fraction::zero(),
            Fraction::one(),
        ),
{
    let origin = Vector { x: 0, y: 0 };
    let (x, y) = (v.x as int, v.y as int);
    assert(vector::cross(v, v) == 0 && vector::cross(origin, v) == 0) by (nonlinear_arith)
        requires
            vector::cross(v, v) == x * y - y * x,
            vector::cross(origin, v) == 0 * y - 0 * x,
    ;
    assert(vector::dot(v, v) > 0 && vector::dot(v, origin) == 0) by (nonlinear_arith)
        requires
            vector::dot(v, v) == x * x + y * y,
            vector::dot(v, origin) == x * 0 + y * 0,
            x != 0 || y != 0,
    ;
    lemma_told_apart_on_one_line(v, v);
    lemma_told_apart_on_one_line(v, origin);
    let vertical = v.x == 0;
    let a = vector::extent(v, vertical);
    assert(a > 0);
    assert(fraction::gcd(0, a as nat) == a && fraction::gcd(a as nat, a as nat) == a) by {
        reveal_with_fuel(fraction::gcd, 3);
        assert(a as nat % a as nat == 0) by (nonlinear_arith)
            requires
                a > 0,
        ;
        assert(0nat % a as nat == 0) by (nonlinear_arith)
            requires
                a > 0,
        ;
    }
    assert(0int / a == 0 && a / a == 1) by (nonlinear_arith)
        requires
            a > 0,
    ;
    assert(fraction::reduced(0, a) == Fraction::zero());
    assert(fraction::reduced(a, a) == Fraction::one());
}

} // verus!
