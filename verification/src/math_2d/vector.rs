use vstd::prelude::*;
use vstd::string::StringExecFns;

use crate::math_2d::fraction;
use crate::math_2d::fraction::Fraction;
use crate::text;
use crate::text::push_signed_decimal;

verus! {

/// A vector of the integer lattice, or a point of it seen from the origin.
#[derive(Clone, Copy, Debug, PartialEq, Eq, Structural)]
pub struct Vector {
    pub x: i64,
    pub y: i64,
}

/// Where two segments meet. The first segment runs from the origin to `v1`;
/// a parameter `r` names its point `r * v1`.
#[derive(Clone, Copy, Debug, PartialEq, Eq, Structural)]
pub enum Intersection {
    /// The segments do not meet.
    Disjoint,
    /// They meet in the one point with the parameter `r`.
    Point(Fraction),
    /// They lie on one line and share the stretch between the parameters `r`
    /// and `t`.
    Line(Fraction, Fraction),
}

impl Intersection {
    /// Every parameter lies between zero and one, both included, and is a
    /// fraction in lowest terms.
    pub open spec fn wf(&self) -> bool {
        match self {
            Intersection::Disjoint => true,
            Intersection::Point(r) => r.wf() && r.is_parameter(),
            Intersection::Line(r, t) => r.wf() && r.is_parameter() && t.wf() && t.is_parameter(),
        }
    }
}

/// The four combinations of signs that the coordinates of a vector can have.
/// A vector along an axis belongs to the quadrant that begins with this half
/// of the axis, so that the quadrants of a vector and of its negative lie
/// across the origin: right with a `y` of zero is top right, up with an `x`
/// of zero top left, left bottom left and down bottom right. The zero vector
/// counts as top right.
#[derive(Clone, Copy, Debug, PartialEq, Eq, Structural)]
pub enum Quadrant {
    TopRight,
    TopLeft,
    BottomLeft,
    BottomRight,
}

/// The direction class of a vector: its quadrant, and its steepness as the
/// fraction `rise / run` of the magnitudes of `y` and `x`. A `run` of zero
/// stands for the one infinite steepness, which the zero vector has too.
#[derive(Clone, Copy, Debug)]
pub struct SlopeQuadrant {
    pub quadrant: Quadrant,
    pub rise: u64,
    pub run: u64,
}

/// The magnitude of an integer.
pub open spec fn magnitude(n: int) -> int {
    if n < 0 {
        -n
    } else {
        n
    }
}

/// The cross product: zero exactly for vectors on one line through the origin.
pub open spec fn cross(a: Vector, b: Vector) -> int {
    a.x * b.y - a.y * b.x
}

/// The dot product.
pub open spec fn dot(a: Vector, b: Vector) -> int {
    a.x * b.x + a.y * b.y
}

/// The quadrant of a vector.
pub open spec fn quadrant_of(v: Vector) -> Quadrant {
    if v.x > 0 && v.y >= 0 {
        Quadrant::TopRight
    } else if v.x <= 0 && v.y > 0 {
        Quadrant::TopLeft
    } else if v.x < 0 && v.y <= 0 {
        Quadrant::BottomLeft
    } else if v.x >= 0 && v.y < 0 {
        Quadrant::BottomRight
    } else {
        Quadrant::TopRight
    }
}

/// The quadrant across the origin.
pub open spec fn opposite_quadrant(q: Quadrant) -> Quadrant {
    match q {
        Quadrant::BottomLeft => Quadrant::TopRight,
        Quadrant::BottomRight => Quadrant::TopLeft,
        Quadrant::TopLeft => Quadrant::BottomRight,
        Quadrant::TopRight => Quadrant::BottomLeft,
    }
}

/// Both vectors are equally steep: `|y / x|` is the same for both, where a
/// zero `x` gives the one infinite steepness.
pub open spec fn equally_steep(a: Vector, b: Vector) -> bool {
    &&& (a.x == 0) == (b.x == 0)
    &&& magnitude(a.y as int) * magnitude(b.x as int) == magnitude(b.y as int) * magnitude(
        a.x as int,
    )
}

/// The direction classes of the two vectors are opposite: the quadrants lie
/// across the origin and the steepness is the same.
pub open spec fn opposed(a: Vector, b: Vector) -> bool {
    opposite_quadrant(quadrant_of(a)) == quadrant_of(b) && equally_steep(a, b)
}

/// How far a vector of a line through the origin reaches: along `y` for a
/// vertical line, along `x` for any other. The lengths of vectors of one line
/// are to each other as these numbers.
pub open spec fn extent(v: Vector, vertical: bool) -> int {
    if vertical {
        magnitude(v.y as int)
    } else {
        magnitude(v.x as int)
    }
}

/// The stretch that two segments of one line share, by the directions and
/// lengths of the first segment `v1`, of the second segment `v2`, and of
/// `support`, which leads from the start of the first to the start of the
/// second. The three vectors lie on one line through the origin.
///
/// Lengths are compared by [`extent`], and a vector points with `v1` unless
/// the direction classes of the two are [`opposed`]. There are four cases:
/// - `v2` and `support` point with `v1`: nothing if the support is longer
///   than `v1`, the end of `v1` if it is as long, else the stretch from the
///   support to the length of `v2`, and no further than the end of `v1`;
/// - both point against `v1`: nothing;
/// - `v2` points with `v1` and `support` against it: nothing if the support
///   is longer than `v2`, the start of `v1` if it is as long, else the
///   stretch from the start to where `v2` ends, and no further than the end
///   of `v1`;
/// - `v2` points against `v1` and `support` with it: nothing if `v2` ends
///   before it reaches `v1`, one end of `v1` if it just reaches it, else the
///   stretch from where `v2` ends, and not before the start of `v1`, to the
///   support, and no further than the end of `v1`.
pub open spec fn spec_overlap_area(v1: Vector, v2: Vector, support: Vector) -> Intersection {
    let vertical = v1.x == 0 && v2.x == 0 && support.x == 0;
    let self_len = extent(v1, vertical);
    let other_len = extent(v2, vertical);
    let support_len = extent(support, vertical);
    let line_direction = !opposed(v1, v2);
    let support_direction = !opposed(v1, support);
    if line_direction && support_direction {
        if self_len < support_len {
            Intersection::Disjoint
        } else if self_len == support_len {
            Intersection::Point(Fraction::one())
        } else if self_len < other_len {
            Intersection::Line(fraction::reduced(support_len, self_len), Fraction::one())
        } else {
            Intersection::Line(
                fraction::reduced(support_len, self_len),
                fraction::reduced(other_len, self_len),
            )
        }
    } else if !line_direction && !support_direction {
        Intersection::Disjoint
    } else if line_direction && !support_direction {
        if support_len > other_len {
            Intersection::Disjoint
        } else if support_len == other_len {
            Intersection::Point(Fraction::zero())
        } else if support_len + self_len > other_len {
            Intersection::Line(
                Fraction::zero(),
                fraction::reduced(other_len - support_len, self_len),
            )
        } else {
            Intersection::Line(Fraction::zero(), Fraction::one())
        }
    } else {
        if self_len < support_len {
            let gap = support_len - self_len;
            if other_len < gap {
                Intersection::Disjoint
            } else if other_len == gap {
                Intersection::Point(Fraction::one())
            } else if other_len - gap >= self_len {
                Intersection::Line(Fraction::zero(), Fraction::one())
            } else {
                Intersection::Line(
                    fraction::reduced(self_len - (other_len - gap), self_len),
                    Fraction::one(),
                )
            }
        } else {
            if support_len == 0 {
                Intersection::Point(Fraction::zero())
            } else if other_len >= support_len {
                Intersection::Line(Fraction::zero(), fraction::reduced(support_len, self_len))
            } else {
                Intersection::Line(
                    fraction::reduced(support_len - other_len, self_len),
                    fraction::reduced(support_len, self_len),
                )
            }
        }
    }
}

/// Where the segment from the origin to `v1` meets the segment from `support`
/// to `support + v2`.
///
/// Where the two are not parallel, the lines through them meet in one point,
/// `r * v1 = support + t * v2` with `r = cross(support, v2) / cross(v1, v2)`
/// and `t = cross(support, v1) / cross(v1, v2)`; the segments meet there if
/// both parameters lie between zero and one. Where they are parallel, they
/// meet only if `support` lies on their line too, and then as
/// [`spec_overlap_area`] says.
pub open spec fn spec_intersection(v1: Vector, v2: Vector, support: Vector) -> Intersection {
    let det = cross(v1, v2);
    let along_self = cross(support, v2);
    let along_other = cross(support, v1);
    if det == 0 {
        if along_other != 0 || along_self != 0 {
            Intersection::Disjoint
        } else {
            spec_overlap_area(v1, v2, support)
        }
    } else if det > 0 {
        if 0 <= along_other <= det && 0 <= along_self <= det {
            Intersection::Point(fraction::reduced(along_self, det))
        } else {
            Intersection::Disjoint
        }
    } else {
        if det <= along_other <= 0 && det <= along_self <= 0 {
            Intersection::Point(fraction::reduced(-along_self, -det))
        } else {
            Intersection::Disjoint
        }
    }
}

/// The product of two 64-bit numbers stays well inside 128 bits.
pub proof fn lemma_product_bounds(a: int, b: int)
    requires
        -0x8000_0000_0000_0000 <= a < 0x8000_0000_0000_0000,
        -0x8000_0000_0000_0000 <= b < 0x8000_0000_0000_0000,
    ensures
        -0x4000_0000_0000_0000_0000_0000_0000_0000 + 0x8000_0000_0000_0000 <= a * b
            <= 0x4000_0000_0000_0000_0000_0000_0000_0000,
{
    let m = 0x8000_0000_0000_0000int;
    assert(a * b <= m * m && a * b >= -(m * m) + m) by (nonlinear_arith)
        requires
            -m <= a < m,
            -m <= b < m,
            m > 0,
    ;
    assert(m * m == 0x4000_0000_0000_0000_0000_0000_0000_0000) by (nonlinear_arith)
        requires
            m == 0x8000_0000_0000_0000,
    ;
}

/// The cross product of two lattice vectors fits in 128 bits.
pub proof fn lemma_cross_bounds(a: Vector, b: Vector)
    ensures
        -0x7fff_ffff_ffff_ffff_8000_0000_0000_0000 <= cross(a, b)
            <= 0x7fff_ffff_ffff_ffff_8000_0000_0000_0000,
{
    lemma_product_bounds(a.x as int, b.y as int);
    lemma_product_bounds(a.y as int, b.x as int);
}

/// The magnitude of a 64-bit number.
fn magnitude_of(n: i64) -> (m: u64)
    ensures
        m == magnitude(n as int),
{
    if n >= 0 {
        n as u64
    } else if n == i64::MIN {
        0x8000_0000_0000_0000
    } else {
        (-n) as u64
    }
}

impl SlopeQuadrant {
    /// The direction class across the origin: the opposite quadrant with the
    /// same steepness.
    pub fn opposite(&self) -> (across: SlopeQuadrant)
        ensures
            across.quadrant == opposite_quadrant(self.quadrant),
            across.rise == self.rise,
            across.run == self.run,
    {
        let quadrant = match self.quadrant {
            Quadrant::BottomLeft => Quadrant::TopRight,
            Quadrant::BottomRight => Quadrant::TopLeft,
            Quadrant::TopLeft => Quadrant::BottomRight,
            Quadrant::TopRight => Quadrant::BottomLeft,
        };
        SlopeQuadrant { quadrant, rise: self.rise, run: self.run }
    }

    /// Whether `other` is the direction class across the origin.
    pub fn is_opposite(&self, other: &SlopeQuadrant) -> (across: bool)
        ensures
            across == (opposite_quadrant(self.quadrant) == other.quadrant && (self.run == 0) == (
            other.run == 0) && self.rise * other.run == other.rise * self.run),
    {
        let turned = self.opposite();
        let same_quadrant = match (turned.quadrant, other.quadrant) {
            (Quadrant::TopRight, Quadrant::TopRight) => true,
            (Quadrant::TopLeft, Quadrant::TopLeft) => true,
            (Quadrant::BottomLeft, Quadrant::BottomLeft) => true,
            (Quadrant::BottomRight, Quadrant::BottomRight) => true,
            _ => false,
        };
        assert(self.rise * other.run <= 0xffff_ffff_ffff_ffff * 0xffff_ffff_ffff_ffff
            && other.rise * self.run <= 0xffff_ffff_ffff_ffff * 0xffff_ffff_ffff_ffff)
            by (nonlinear_arith)
            requires
                self.rise <= 0xffff_ffff_ffff_ffff,
                self.run <= 0xffff_ffff_ffff_ffff,
                other.rise <= 0xffff_ffff_ffff_ffff,
                other.run <= 0xffff_ffff_ffff_ffff,
        ;
        same_quadrant && (turned.run == 0) == (other.run == 0) && (turned.rise as u128) * (
        other.run as u128) == (other.rise as u128) * (turned.run as u128)
    }
}

impl Vector {
    pub fn new(x: i64, y: i64) -> (v: Self)
        ensures
            v.x == x,
            v.y == y,
    {
        Self { x, y }
    }

    pub fn zero() -> (v: Self)
        ensures
            v.x == 0,
            v.y == 0,
    {
        Self { x: 0, y: 0 }
    }

    pub fn scalar(value: i64) -> (v: Self)
        ensures
            v.x == value,
            v.y == value,
    {
        Self { x: value, y: value }
    }

    /// The vector as text: `(1, -2)`.
    pub open spec fn text(&self) -> Seq<char> {
        "("@ + text::signed_decimal(self.x as int) + ", "@ + text::signed_decimal(self.y as int) + ")"@
    }

    pub fn to_string(&self) -> (text: String)
        ensures
            text@ == self.text(),
    {
        let mut text = String::from_str("(");
        push_signed_decimal(&mut text, self.x);
        text.append(", ");
        push_signed_decimal(&mut text, self.y);
        text.append(")");
        text
    }

    /// The cross product with `other`.
    pub fn cross(&self, other: &Vector) -> (product: i128)
        ensures
            product == cross(*self, *other),
            -0x7fff_ffff_ffff_ffff_8000_0000_0000_0000 <= product
                <= 0x7fff_ffff_ffff_ffff_8000_0000_0000_0000,
    {
        proof {
            lemma_product_bounds(self.x as int, other.y as int);
            lemma_product_bounds(self.y as int, other.x as int);
        }
        (self.x as i128) * (other.y as i128) - (self.y as i128) * (other.x as i128)
    }

    /// The direction class of the vector.
    pub fn slope(&self) -> (class: SlopeQuadrant)
        ensures
            class.quadrant == quadrant_of(*self),
            class.rise == magnitude(self.y as int),
            class.run == magnitude(self.x as int),
    {
        let quadrant = if self.x > 0 && self.y >= 0 {
            Quadrant::TopRight
        } else if self.x <= 0 && self.y > 0 {
            Quadrant::TopLeft
        } else if self.x < 0 && self.y <= 0 {
            Quadrant::BottomLeft
        } else if self.x >= 0 && self.y < 0 {
            Quadrant::BottomRight
        } else {
            Quadrant::TopRight
        };
        SlopeQuadrant { quadrant, rise: magnitude_of(self.y), run: magnitude_of(self.x) }
    }

    /// The stretch that the segment from the origin to `self` shares with the
    /// segment from `support` to `support + other`, for segments of one line.
    pub fn overlap_area(&self, other: &Vector, support: &Vector) -> (shared: Intersection)
        ensures
            shared == spec_overlap_area(*self, *other, *support),
            shared.wf(),
    {
        proof {
            crate::math_2d::laws::lemma_overlap_within_segment(*self, *other, *support);
        }
        let vertical = self.x == 0 && other.x == 0 && support.x == 0;
        let self_len: u64 = if vertical {
            magnitude_of(self.y)
        } else {
            magnitude_of(self.x)
        };
        let other_len: u64 = if vertical {
            magnitude_of(other.y)
        } else {
            magnitude_of(other.x)
        };
        let support_len: u64 = if vertical {
            magnitude_of(support.y)
        } else {
            magnitude_of(support.x)
        };
        let self_slope = self.slope();
        let line_direction = !self_slope.is_opposite(&other.slope());
        let support_direction = !self_slope.is_opposite(&support.slope());
        if line_direction && support_direction {
            if self_len < support_len {
                Intersection::Disjoint
            } else if self_len == support_len {
                Intersection::Point(Fraction::one())
            } else if self_len < other_len {
                Intersection::Line(
                    Fraction::new(support_len as u128, self_len as u128),
                    Fraction::one(),
                )
            } else {
                Intersection::Line(
                    Fraction::new(support_len as u128, self_len as u128),
                    Fraction::new(other_len as u128, self_len as u128),
                )
            }
        } else if !line_direction && !support_direction {
            Intersection::Disjoint
        } else if line_direction && !support_direction {
            if support_len > other_len {
                Intersection::Disjoint
            } else if support_len == other_len {
                Intersection::Point(Fraction::zero())
            } else if support_len as u128 + self_len as u128 > other_len as u128 {
                Intersection::Line(
                    Fraction::zero(),
                    Fraction::new((other_len - support_len) as u128, self_len as u128),
                )
            } else {
                Intersection::Line(Fraction::zero(), Fraction::one())
            }
        } else {
            if self_len < support_len {
                let gap: u64 = support_len - self_len;
                if other_len < gap {
                    Intersection::Disjoint
                } else if other_len == gap {
                    Intersection::Point(Fraction::one())
                } else if other_len - gap >= self_len {
                    Intersection::Line(Fraction::zero(), Fraction::one())
                } else {
                    Intersection::Line(
                        Fraction::new((self_len - (other_len - gap)) as u128, self_len as u128),
                        Fraction::one(),
                    )
                }
            } else {
                if support_len == 0 {
                    Intersection::Point(Fraction::zero())
                } else if other_len >= support_len {
                    Intersection::Line(
                        Fraction::zero(),
                        Fraction::new(support_len as u128, self_len as u128),
                    )
                } else {
                    Intersection::Line(
                        Fraction::new((support_len - other_len) as u128, self_len as u128),
                        Fraction::new(support_len as u128, self_len as u128),
                    )
                }
            }
        }
    }

    /// Where the segment from the origin to `self` meets the segment from
    /// `support` to `support + other`. The parameter of a point, and the two
    /// of a shared stretch, are those of the first segment, in lowest terms.
    pub fn intersection(&self, other: &Vector, support: &Vector) -> (hit: Intersection)
        ensures
            hit == spec_intersection(*self, *other, *support),
            hit.wf(),
    {
        proof {
            crate::math_2d::laws::lemma_intersection_within_segment(*self, *other, *support);
        }
        let det = self.cross(other);
        let along_self = support.cross(other);
        let along_other = support.cross(self);
        if det == 0 {
            if along_other != 0 || along_self != 0 {
                Intersection::Disjoint
            } else {
                self.overlap_area(other, support)
            }
        } else if det > 0 {
            if 0 <= along_other && along_other <= det && 0 <= along_self && along_self <= det {
                Intersection::Point(Fraction::new(along_self as u128, det as u128))
            } else {
                Intersection::Disjoint
            }
        } else {
            if det <= along_other && along_other <= 0 && det <= along_self && along_self <= 0 {
                Intersection::Point(Fraction::new((-along_self) as u128, (-det) as u128))
            } else {
                Intersection::Disjoint
            }
        }
    }
}

/// The coordinates of the sum, of the difference, of the negation and of the
/// multiple fit in 64 bits.
pub open spec fn fits(n: int) -> bool {
    i64::MIN <= n <= i64::MAX
}

impl Vector {
    /// The vector with both coordinates rounded to whole numbers: on the
    /// lattice, the vector itself.
    pub fn round(&self) -> (v: Vector)
        ensures
            v == *self,
    {
        *self
    }

    /// The vector with the magnitudes of both coordinates.
    pub fn abs(&self) -> (v: Vector)
        requires
            self.x > i64::MIN,
            self.y > i64::MIN,
        ensures
            v.x == magnitude(self.x as int),
            v.y == magnitude(self.y as int),
    {
        Vector {
            x: if self.x < 0 {
                -self.x
            } else {
                self.x
            },
            y: if self.y < 0 {
                -self.y
            } else {
                self.y
            },
        }
    }
}

/// The number fits in 128 bits. Of all dot products of lattice vectors only
/// that of `(i64::MIN, i64::MIN)` with itself does not.
pub open spec fn fits128(n: int) -> bool {
    i128::MIN <= n <= i128::MAX
}

impl Default for Vector {
    fn default() -> (v: Vector)
        ensures
            v.x == 0,
            v.y == 0,
    {
        Vector::zero()
    }
}

impl core::ops::Add for Vector {
    type Output = Vector;

    fn add(self, rhs: Vector) -> (sum: Vector) {
        Vector { x: self.x + rhs.x, y: self.y + rhs.y }
    }
}

impl vstd::std_specs::ops::AddSpecImpl for Vector {
    open spec fn obeys_add_spec() -> bool {
        true
    }

    open spec fn add_req(self, rhs: Vector) -> bool {
        fits(self.x + rhs.x) && fits(self.y + rhs.y)
    }

    open spec fn add_spec(self, rhs: Vector) -> Vector {
        Vector { x: (self.x + rhs.x) as i64, y: (self.y + rhs.y) as i64 }
    }
}

impl core::ops::Sub for Vector {
    type Output = Vector;

    fn sub(self, rhs: Vector) -> (difference: Vector) {
        Vector { x: self.x - rhs.x, y: self.y - rhs.y }
    }
}

impl vstd::std_specs::ops::SubSpecImpl for Vector {
    open spec fn obeys_sub_spec() -> bool {
        true
    }

    open spec fn sub_req(self, rhs: Vector) -> bool {
        fits(self.x - rhs.x) && fits(self.y - rhs.y)
    }

    open spec fn sub_spec(self, rhs: Vector) -> Vector {
        Vector { x: (self.x - rhs.x) as i64, y: (self.y - rhs.y) as i64 }
    }
}

impl core::ops::Neg for Vector {
    type Output = Vector;

    fn neg(self) -> (negated: Vector) {
        Vector { x: -self.x, y: -self.y }
    }
}

impl vstd::std_specs::ops::NegSpecImpl for Vector {
    open spec fn obeys_neg_spec() -> bool {
        true
    }

    open spec fn neg_req(self) -> bool {
        fits(-self.x) && fits(-self.y)
    }

    open spec fn neg_spec(self) -> Vector {
        Vector { x: (-self.x) as i64, y: (-self.y) as i64 }
    }
}

/// The multiple of a vector.
impl core::ops::Mul<i64> for Vector {
    type Output = Vector;

    fn mul(self, rhs: i64) -> (multiple: Vector) {
        Vector { x: self.x * rhs, y: self.y * rhs }
    }
}

impl vstd::std_specs::ops::MulSpecImpl<i64> for Vector {
    open spec fn obeys_mul_spec() -> bool {
        true
    }

    open spec fn mul_req(self, rhs: i64) -> bool {
        fits(self.x * rhs) && fits(self.y * rhs)
    }

    open spec fn mul_spec(self, rhs: i64) -> Vector {
        Vector { x: (self.x * rhs) as i64, y: (self.y * rhs) as i64 }
    }
}

/// The multiple of a vector, with the factor in front.
impl core::ops::Mul<Vector> for i64 {
    type Output = Vector;

    fn mul(self, rhs: Vector) -> (multiple: Vector) {
        Vector { x: self * rhs.x, y: self * rhs.y }
    }
}

impl vstd::std_specs::ops::MulSpecImpl<Vector> for i64 {
    open spec fn obeys_mul_spec() -> bool {
        true
    }

    open spec fn mul_req(self, rhs: Vector) -> bool {
        fits(self * rhs.x) && fits(self * rhs.y)
    }

    open spec fn mul_spec(self, rhs: Vector) -> Vector {
        Vector { x: (self * rhs.x) as i64, y: (self * rhs.y) as i64 }
    }
}

/// The dot product.
impl core::ops::Mul<Vector> for Vector {
    type Output = i128;

    fn mul(self, rhs: Vector) -> (product: i128) {
        proof {
            lemma_product_bounds(self.x as int, rhs.x as int);
            lemma_product_bounds(self.y as int, rhs.y as int);
        }
        (self.x as i128) * (rhs.x as i128) + (self.y as i128) * (rhs.y as i128)
    }
}

impl vstd::std_specs::ops::MulSpecImpl<Vector> for Vector {
    open spec fn obeys_mul_spec() -> bool {
        true
    }

    open spec fn mul_req(self, rhs: Vector) -> bool {
        fits128(dot(self, rhs))
    }

    open spec fn mul_spec(self, rhs: Vector) -> i128 {
        dot(self, rhs) as i128
    }
}

impl core::ops::AddAssign for Vector {
    fn add_assign(&mut self, rhs: Vector)
        requires
            fits(old(self).x + rhs.x),
            fits(old(self).y + rhs.y),
        ensures
            final(self).x == old(self).x + rhs.x,
            final(self).y == old(self).y + rhs.y,
    {
        self.x = self.x + rhs.x;
        self.y = self.y + rhs.y;
    }
}

impl core::ops::SubAssign for Vector {
    fn sub_assign(&mut self, rhs: Vector)
        requires
            fits(old(self).x - rhs.x),
            fits(old(self).y - rhs.y),
        ensures
            final(self).x == old(self).x - rhs.x,
            final(self).y == old(self).y - rhs.y,
    {
        self.x = self.x - rhs.x;
        self.y = self.y - rhs.y;
    }
}

impl core::ops::MulAssign<i64> for Vector {
    fn mul_assign(&mut self, rhs: i64)
        requires
            fits(old(self).x * rhs),
            fits(old(self).y * rhs),
        ensures
            final(self).x == old(self).x * rhs,
            final(self).y == old(self).y * rhs,
    {
        self.x = self.x * rhs;
        self.y = self.y * rhs;
    }
}

} // verus!
