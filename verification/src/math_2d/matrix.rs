use vstd::prelude::*;
use vstd::string::StringExecFns;

use crate::math_2d::vector;
use crate::math_2d::vector::Vector;
use crate::text;
use crate::text::push_signed_decimal;

verus! {

/// A matrix of whole numbers:
///
/// ```text
/// (a b
///  c d)
/// ```
#[derive(Clone, Copy, Debug, PartialEq, Eq, Structural)]
pub struct Matrix {
    pub a: i64,
    pub b: i64,
    pub c: i64,
    pub d: i64,
}

/// The four entries of the sum, of the difference or of the multiple fit in
/// 64 bits.
pub open spec fn all_fit(a: int, b: int, c: int, d: int) -> bool {
    vector::fits(a) && vector::fits(b) && vector::fits(c) && vector::fits(d)
}

/// The matrix with the given entries, each of which fits in 64 bits.
pub open spec fn matrix_of(a: int, b: int, c: int, d: int) -> Matrix {
    Matrix { a: a as i64, b: b as i64, c: c as i64, d: d as i64 }
}

/// The rotation by a number of quarter turns, counter-clockwise where `y`
/// points upwards: the matrix of the cosine and the sine of the angle, which
/// are whole numbers for these angles.
pub open spec fn quarter_rotation(turns: int) -> Matrix {
    if turns % 4 == 0 {
        Matrix { a: 1, b: 0, c: 0, d: 1 }
    } else if turns % 4 == 1 {
        Matrix { a: 0, b: -1i64, c: 1, d: 0 }
    } else if turns % 4 == 2 {
        Matrix { a: -1i64, b: 0, c: 0, d: -1i64 }
    } else {
        Matrix { a: 0, b: 1, c: -1i64, d: 0 }
    }
}

/// The product of two matrices, entry by entry.
pub open spec fn product(m: Matrix, n: Matrix) -> (int, int, int, int) {
    (m.a * n.a + m.b * n.c, m.a * n.b + m.b * n.d, m.c * n.a + m.d * n.c, m.c * n.b + m.d * n.d)
}

/// The image of a vector under a matrix, coordinate by coordinate.
pub open spec fn image(m: Matrix, v: Vector) -> (int, int) {
    (m.a * v.x + m.b * v.y, m.c * v.x + m.d * v.y)
}

/// Quarter turns add up: the product of two rotations is the rotation by the
/// sum of their turns.
pub proof fn lemma_quarter_rotations_compose(first: int, second: int)
    ensures
        product(quarter_rotation(first), quarter_rotation(second)) == (
            quarter_rotation(first + second).a as int,
            quarter_rotation(first + second).b as int,
            quarter_rotation(first + second).c as int,
            quarter_rotation(first + second).d as int,
        ),
{
    assert((first + second) % 4 == ((first % 4) + (second % 4)) % 4) by {
        vstd::arithmetic::div_mod::lemma_add_mod_noop(first, second, 4);
    }
}

/// A rotation by quarter turns keeps the dot product of two vectors, and so
/// their lengths and the angle between them.
pub proof fn lemma_quarter_rotation_keeps_dot(turns: int, v: Vector, w: Vector)
    ensures
        image(quarter_rotation(turns), v).0 * image(quarter_rotation(turns), w).0 + image(
            quarter_rotation(turns),
            v,
        ).1 * image(quarter_rotation(turns), w).1 == vector::dot(v, w),
{
    let (vx, vy, wx, wy) = (v.x as int, v.y as int, w.x as int, w.y as int);
    assert((-vy) * (-wy) + vx * wx == vx * wx + vy * wy) by (nonlinear_arith);
    assert((-vx) * (-wx) + (-vy) * (-wy) == vx * wx + vy * wy) by (nonlinear_arith);
    assert(vy * wy + (-vx) * (-wx) == vx * wx + vy * wy) by (nonlinear_arith);
    let m = quarter_rotation(turns);
    assert(m.a * vx + m.b * vy == if turns % 4 == 0 {
        vx
    } else if turns % 4 == 1 {
        -vy
    } else if turns % 4 == 2 {
        -vx
    } else {
        vy
    }) by (nonlinear_arith)
        requires
            (m.a == 1 && m.b == 0 && turns % 4 == 0) || (m.a == 0 && m.b == -1 && turns % 4 == 1)
                || (m.a == -1 && m.b == 0 && turns % 4 == 2) || (m.a == 0 && m.b == 1 && turns % 4
                == 3),
    ;
    assert(m.c * vx + m.d * vy == if turns % 4 == 0 {
        vy
    } else if turns % 4 == 1 {
        vx
    } else if turns % 4 == 2 {
        -vy
    } else {
        -vx
    }) by (nonlinear_arith)
        requires
            (m.c == 0 && m.d == 1 && turns % 4 == 0) || (m.c == 1 && m.d == 0 && turns % 4 == 1)
                || (m.c == 0 && m.d == -1 && turns % 4 == 2) || (m.c == -1 && m.d == 0 && turns % 4
                == 3),
    ;
    assert(m.a * wx + m.b * wy == if turns % 4 == 0 {
        wx
    } else if turns % 4 == 1 {
        -wy
    } else if turns % 4 == 2 {
        -wx
    } else {
        wy
    }) by (nonlinear_arith)
        requires
            (m.a == 1 && m.b == 0 && turns % 4 == 0) || (m.a == 0 && m.b == -1 && turns % 4 == 1)
                || (m.a == -1 && m.b == 0 && turns % 4 == 2) || (m.a == 0 && m.b == 1 && turns % 4
                == 3),
    ;
    assert(m.c * wx + m.d * wy == if turns % 4 == 0 {
        wy
    } else if turns % 4 == 1 {
        wx
    } else if turns % 4 == 2 {
        -wy
    } else {
        -wx
    }) by (nonlinear_arith)
        requires
            (m.c == 0 && m.d == 1 && turns % 4 == 0) || (m.c == 1 && m.d == 0 && turns % 4 == 1)
                || (m.c == 0 && m.d == -1 && turns % 4 == 2) || (m.c == -1 && m.d == 0 && turns % 4
                == 3),
    ;
}

impl Matrix {
    pub fn new(a: i64, b: i64, c: i64, d: i64) -> (m: Self)
        ensures
            m == (Matrix { a, b, c, d }),
    {
        Self { a, b, c, d }
    }

    pub fn zero() -> (m: Self)
        ensures
            m == (Matrix { a: 0, b: 0, c: 0, d: 0 }),
    {
        Self::new(0, 0, 0, 0)
    }

    pub fn unity() -> (m: Self)
        ensures
            m == (Matrix { a: 1, b: 0, c: 0, d: 1 }),
    {
        Self::new(1, 0, 0, 1)
    }

    pub fn scalar(value: i64) -> (m: Self)
        ensures
            m == (Matrix { a: value, b: value, c: value, d: value }),
    {
        Self { a: value, b: value, c: value, d: value }
    }

    /// The rotation by `degree` degrees, for a whole number of quarter
    /// turns.
    pub fn rotation_degree(degree: i64) -> (m: Self)
        requires
            degree % 90 == 0,
        ensures
            m == quarter_rotation(degree as int / 90),
    {
        let wide: i128 = degree as i128;
        let turns: i128 = if wide >= 0 {
            wide / 90
        } else {
            let back: i128 = (-wide) / 90;
            assert(-back == degree as int / 90) by (nonlinear_arith)
                requires
                    back == (-(degree as int)) / 90,
                    degree as int % 90 == 0,
            ;
            -back
        };
        let rest: i128 = if turns >= 0 {
            turns % 4
        } else {
            let behind: i128 = (-turns) % 4;
            assert((turns as int) % 4 == (4 - behind) % 4) by (nonlinear_arith)
                requires
                    behind == (-(turns as int)) % 4,
            ;
            (4 - behind) % 4
        };
        if rest == 0 {
            Self::new(1, 0, 0, 1)
        } else if rest == 1 {
            Self::new(0, -1, 1, 0)
        } else if rest == 2 {
            Self::new(-1, 0, 0, -1)
        } else {
            Self::new(0, 1, -1, 0)
        }
    }

    /// The matrix as text: `((1, 0), (0, 1))`.
    pub open spec fn text(&self) -> Seq<char> {
        "(("@ + text::signed_decimal(self.a as int) + ", "@ + text::signed_decimal(self.b as int)
            + "), ("@ + text::signed_decimal(self.c as int) + ", "@ + text::signed_decimal(
            self.d as int,
        ) + "))"@
    }

    pub fn to_string(&self) -> (text: String)
        ensures
            text@ == self.text(),
    {
        let mut text = String::from_str("((");
        push_signed_decimal(&mut text, self.a);
        text.append(", ");
        push_signed_decimal(&mut text, self.b);
        text.append("), (");
        push_signed_decimal(&mut text, self.c);
        text.append(", ");
        push_signed_decimal(&mut text, self.d);
        text.append("))");
        text
    }
}

impl core::ops::Add for Matrix {
    type Output = Matrix;

    fn add(self, rhs: Matrix) -> (sum: Matrix) {
        Matrix { a: self.a + rhs.a, b: self.b + rhs.b, c: self.c + rhs.c, d: self.d + rhs.d }
    }
}

impl vstd::std_specs::ops::AddSpecImpl for Matrix {
    open spec fn obeys_add_spec() -> bool {
        true
    }

    open spec fn add_req(self, rhs: Matrix) -> bool {
        all_fit(self.a + rhs.a, self.b + rhs.b, self.c + rhs.c, self.d + rhs.d)
    }

    open spec fn add_spec(self, rhs: Matrix) -> Matrix {
        matrix_of(self.a + rhs.a, self.b + rhs.b, self.c + rhs.c, self.d + rhs.d)
    }
}

impl core::ops::Sub for Matrix {
    type Output = Matrix;

    fn sub(self, rhs: Matrix) -> (difference: Matrix) {
        Matrix { a: self.a - rhs.a, b: self.b - rhs.b, c: self.c - rhs.c, d: self.d - rhs.d }
    }
}

impl vstd::std_specs::ops::SubSpecImpl for Matrix {
    open spec fn obeys_sub_spec() -> bool {
        true
    }

    open spec fn sub_req(self, rhs: Matrix) -> bool {
        all_fit(self.a - rhs.a, self.b - rhs.b, self.c - rhs.c, self.d - rhs.d)
    }

    open spec fn sub_spec(self, rhs: Matrix) -> Matrix {
        matrix_of(self.a - rhs.a, self.b - rhs.b, self.c - rhs.c, self.d - rhs.d)
    }
}

impl core::ops::Neg for Matrix {
    type Output = Matrix;

    fn neg(self) -> (negated: Matrix) {
        Matrix { a: -self.a, b: -self.b, c: -self.c, d: -self.d }
    }
}

impl vstd::std_specs::ops::NegSpecImpl for Matrix {
    open spec fn obeys_neg_spec() -> bool {
        true
    }

    open spec fn neg_req(self) -> bool {
        all_fit(-self.a, -self.b, -self.c, -self.d)
    }

    open spec fn neg_spec(self) -> Matrix {
        matrix_of(-self.a, -self.b, -self.c, -self.d)
    }
}

/// One entry of a product: `p * q + r * s`, for a sum that fits in 64 bits.
fn entry(p: i64, q: i64, r: i64, s: i64) -> (sum: i64)
    requires
        vector::fits(p * q + r * s),
    ensures
        sum == p * q + r * s,
{
    proof {
        vector::lemma_product_bounds(p as int, q as int);
        vector::lemma_product_bounds(r as int, s as int);
    }
    let wide: i128 = (p as i128) * (q as i128) + (r as i128) * (s as i128);
    wide as i64
}

/// The product of two matrices.
impl core::ops::Mul for Matrix {
    type Output = Matrix;

    fn mul(self, rhs: Matrix) -> (product: Matrix) {
        Matrix {
            a: entry(self.a, rhs.a, self.b, rhs.c),
            b: entry(self.a, rhs.b, self.b, rhs.d),
            c: entry(self.c, rhs.a, self.d, rhs.c),
            d: entry(self.c, rhs.b, self.d, rhs.d),
        }
    }
}

impl vstd::std_specs::ops::MulSpecImpl for Matrix {
    open spec fn obeys_mul_spec() -> bool {
        true
    }

    open spec fn mul_req(self, rhs: Matrix) -> bool {
        all_fit(product(self, rhs).0, product(self, rhs).1, product(self, rhs).2, product(
            self,
            rhs,
        ).3)
    }

    open spec fn mul_spec(self, rhs: Matrix) -> Matrix {
        matrix_of(product(self, rhs).0, product(self, rhs).1, product(self, rhs).2, product(
            self,
            rhs,
        ).3)
    }
}

/// The multiple of a matrix.
impl core::ops::Mul<i64> for Matrix {
    type Output = Matrix;

    fn mul(self, rhs: i64) -> (multiple: Matrix) {
        Matrix { a: self.a * rhs, b: self.b * rhs, c: self.c * rhs, d: self.d * rhs }
    }
}

impl vstd::std_specs::ops::MulSpecImpl<i64> for Matrix {
    open spec fn obeys_mul_spec() -> bool {
        true
    }

    open spec fn mul_req(self, rhs: i64) -> bool {
        all_fit(self.a * rhs, self.b * rhs, self.c * rhs, self.d * rhs)
    }

    open spec fn mul_spec(self, rhs: i64) -> Matrix {
        matrix_of(self.a * rhs, self.b * rhs, self.c * rhs, self.d * rhs)
    }
}

/// The multiple of a matrix, with the factor in front.
impl core::ops::Mul<Matrix> for i64 {
    type Output = Matrix;

    fn mul(self, rhs: Matrix) -> (multiple: Matrix) {
        Matrix { a: self * rhs.a, b: self * rhs.b, c: self * rhs.c, d: self * rhs.d }
    }
}

impl vstd::std_specs::ops::MulSpecImpl<Matrix> for i64 {
    open spec fn obeys_mul_spec() -> bool {
        true
    }

    open spec fn mul_req(self, rhs: Matrix) -> bool {
        all_fit(self * rhs.a, self * rhs.b, self * rhs.c, self * rhs.d)
    }

    open spec fn mul_spec(self, rhs: Matrix) -> Matrix {
        matrix_of(self * rhs.a, self * rhs.b, self * rhs.c, self * rhs.d)
    }
}

/// The image of a vector under a matrix.
impl core::ops::Mul<Vector> for Matrix {
    type Output = Vector;

    fn mul(self, rhs: Vector) -> (image: Vector) {
        Vector { x: entry(self.a, rhs.x, self.b, rhs.y), y: entry(self.c, rhs.x, self.d, rhs.y) }
    }
}

impl vstd::std_specs::ops::MulSpecImpl<Vector> for Matrix {
    open spec fn obeys_mul_spec() -> bool {
        true
    }

    open spec fn mul_req(self, rhs: Vector) -> bool {
        vector::fits(image(self, rhs).0) && vector::fits(image(self, rhs).1)
    }

    open spec fn mul_spec(self, rhs: Vector) -> Vector {
        Vector { x: image(self, rhs).0 as i64, y: image(self, rhs).1 as i64 }
    }
}

impl core::ops::AddAssign for Matrix {
    fn add_assign(&mut self, rhs: Matrix)
        requires
            all_fit(
                old(self).a + rhs.a,
                old(self).b + rhs.b,
                old(self).c + rhs.c,
                old(self).d + rhs.d,
            ),
        ensures
            *final(self) == matrix_of(
                old(self).a + rhs.a,
                old(self).b + rhs.b,
                old(self).c + rhs.c,
                old(self).d + rhs.d,
            ),
    {
        self.a = self.a + rhs.a;
        self.b = self.b + rhs.b;
        self.c = self.c + rhs.c;
        self.d = self.d + rhs.d;
    }
}

impl core::ops::SubAssign for Matrix {
    fn sub_assign(&mut self, rhs: Matrix)
        requires
            all_fit(
                old(self).a - rhs.a,
                old(self).b - rhs.b,
                old(self).c - rhs.c,
                old(self).d - rhs.d,
            ),
        ensures
            *final(self) == matrix_of(
                old(self).a - rhs.a,
                old(self).b - rhs.b,
                old(self).c - rhs.c,
                old(self).d - rhs.d,
            ),
    {
        self.a = self.a - rhs.a;
        self.b = self.b - rhs.b;
        self.c = self.c - rhs.c;
        self.d = self.d - rhs.d;
    }
}

impl core::ops::MulAssign for Matrix {
    fn mul_assign(&mut self, rhs: Matrix)
        requires
            all_fit(
                product(*old(self), rhs).0,
                product(*old(self), rhs).1,
                product(*old(self), rhs).2,
                product(*old(self), rhs).3,
            ),
        ensures
            *final(self) == matrix_of(
                product(*old(self), rhs).0,
                product(*old(self), rhs).1,
                product(*old(self), rhs).2,
                product(*old(self), rhs).3,
            ),
    {
        let a = entry(self.a, rhs.a, self.b, rhs.c);
        let b = entry(self.a, rhs.b, self.b, rhs.d);
        let c = entry(self.c, rhs.a, self.d, rhs.c);
        let d = entry(self.c, rhs.b, self.d, rhs.d);
        self.a = a;
        self.b = b;
        self.c = c;
        self.d = d;
    }
}

impl core::ops::MulAssign<i64> for Matrix {
    fn mul_assign(&mut self, rhs: i64)
        requires
            all_fit(old(self).a * rhs, old(self).b * rhs, old(self).c * rhs, old(self).d * rhs),
        ensures
            *final(self) == matrix_of(
                old(self).a * rhs,
                old(self).b * rhs,
                old(self).c * rhs,
                old(self).d * rhs,
            ),
    {
        self.a = self.a * rhs;
        self.b = self.b * rhs;
        self.c = self.c * rhs;
        self.d = self.d * rhs;
    }
}

/// The vector turned by a number of quarter turns about the origin.
pub open spec fn turned(v: Vector, turns: int) -> Vector {
    Vector {
        x: image(quarter_rotation(turns), v).0 as i64,
        y: image(quarter_rotation(turns), v).1 as i64,
    }
}

/// The vector turned by a number of quarter turns about `origin`.
pub open spec fn turned_around(v: Vector, turns: int, origin: Vector) -> Vector {
    let arm = turned(Vector { x: (v.x - origin.x) as i64, y: (v.y - origin.y) as i64 }, turns);
    Vector { x: (arm.x + origin.x) as i64, y: (arm.y + origin.y) as i64 }
}

impl Vector {
    /// The vector turned by `degree` degrees about the origin, for a whole
    /// number of quarter turns.
    pub fn rotate_degree(&self, degree: i64) -> (v: Vector)
        requires
            degree % 90 == 0,
            self.x > i64::MIN,
            self.y > i64::MIN,
        ensures
            v == turned(*self, degree as int / 90),
            v.x == image(quarter_rotation(degree as int / 90), *self).0,
            v.y == image(quarter_rotation(degree as int / 90), *self).1,
    {
        let rotation = Matrix::rotation_degree(degree);
        assert(rotation.a * self.x + rotation.b * self.y == if rotation.a != 0 {
            rotation.a * self.x
        } else {
            rotation.b * self.y
        } && rotation.c * self.x + rotation.d * self.y == if rotation.c != 0 {
            rotation.c * self.x
        } else {
            rotation.d * self.y
        }) by (nonlinear_arith)
            requires
                (rotation.a == 0 && rotation.d == 0) || (rotation.b == 0 && rotation.c == 0),
        ;
        assert(vector::fits(rotation.a * self.x + rotation.b * self.y) && vector::fits(
            rotation.c * self.x + rotation.d * self.y,
        )) by (nonlinear_arith)
            requires
                (rotation.a == 0 && rotation.d == 0 && (rotation.b == 1 || rotation.b == -1) && (
                rotation.c == 1 || rotation.c == -1)) || (rotation.b == 0 && rotation.c == 0 && (
                rotation.a == 1 || rotation.a == -1) && (rotation.d == 1 || rotation.d == -1)),
                i64::MIN < self.x <= i64::MAX,
                i64::MIN < self.y <= i64::MAX,
        ;
        rotation * *self
    }

    /// The vector turned by `degree` degrees about `origin`, for a whole
    /// number of quarter turns.
    pub fn rotate_degree_around(&self, degree: i64, origin: &Vector) -> (v: Vector)
        requires
            degree % 90 == 0,
            i64::MIN < self.x - origin.x <= i64::MAX,
            i64::MIN < self.y - origin.y <= i64::MAX,
            vector::fits(
                image(
                    quarter_rotation(degree as int / 90),
                    Vector { x: (self.x - origin.x) as i64, y: (self.y - origin.y) as i64 },
                ).0 + origin.x,
            ),
            vector::fits(
                image(
                    quarter_rotation(degree as int / 90),
                    Vector { x: (self.x - origin.x) as i64, y: (self.y - origin.y) as i64 },
                ).1 + origin.y,
            ),
        ensures
            v == turned_around(*self, degree as int / 90, *origin),
    {
        let arm = Vector::new(self.x - origin.x, self.y - origin.y);
        let turned = arm.rotate_degree(degree);
        Vector::new(turned.x + origin.x, turned.y + origin.y)
    }
}

} // verus!
