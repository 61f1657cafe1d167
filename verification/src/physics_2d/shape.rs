use vstd::prelude::*;

use crate::math_2d::Vector;

verus! {

/// The shape of an object. The positions are relative to the object. For
/// collision, `Rect` and `Ellipse` are hollow: only their outline counts.
#[derive(Clone, Copy, Debug, PartialEq, Eq, Structural)]
pub enum Shape {
    /// `Pixel(position)`
    Pixel(Vector),
    /// `Ellipse(center, a, b)`, with the two semi-axes
    Ellipse(Vector, u32, u32),
    /// `Rect(center, width, height)`
    Rect(Vector, u32, u32),
    /// `Line(start, end)`
    Line(Vector, Vector),
}

/// Which of the four shapes a shape is.
#[derive(Clone, Copy, Debug, PartialEq, Eq, Structural)]
pub enum ShapeKind {
    Pixel,
    Ellipse,
    Rect,
    Line,
}

/// The tests that decide whether two shapes meet, one for each pair of kinds
/// whatever its order. Each is named by the kind of its first operand, then
/// that of its second.
#[derive(Clone, Copy, Debug, PartialEq, Eq, Structural)]
pub enum PairTest {
    LineLine,
    LinePixel,
    LineRect,
    LineEllipse,
    PixelPixel,
    PixelRect,
    PixelEllipse,
    RectRect,
    RectEllipse,
    /// No test exists for two ellipses.
    EllipseEllipse,
}

/// The test for a pair of shapes, and the order in which it takes them.
#[derive(Clone, Copy, Debug, PartialEq, Eq, Structural)]
pub struct Pairing {
    pub test: PairTest,
    /// The test takes the second shape of the pair as its first operand.
    pub swapped: bool,
}

/// The place of a kind in the order in which the tests take their operands:
/// lines first, then pixels, rectangles, ellipses.
pub open spec fn rank(kind: ShapeKind) -> int {
    match kind {
        ShapeKind::Line => 0,
        ShapeKind::Pixel => 1,
        ShapeKind::Rect => 2,
        ShapeKind::Ellipse => 3,
    }
}

/// The kind of the first operand of a test.
pub open spec fn first_kind(test: PairTest) -> ShapeKind {
    match test {
        PairTest::LineLine | PairTest::LinePixel | PairTest::LineRect | PairTest::LineEllipse =>
            ShapeKind::Line,
        PairTest::PixelPixel | PairTest::PixelRect | PairTest::PixelEllipse => ShapeKind::Pixel,
        PairTest::RectRect | PairTest::RectEllipse => ShapeKind::Rect,
        PairTest::EllipseEllipse => ShapeKind::Ellipse,
    }
}

/// The kind of the second operand of a test.
pub open spec fn second_kind(test: PairTest) -> ShapeKind {
    match test {
        PairTest::LineLine => ShapeKind::Line,
        PairTest::LinePixel | PairTest::PixelPixel => ShapeKind::Pixel,
        PairTest::LineRect | PairTest::PixelRect | PairTest::RectRect => ShapeKind::Rect,
        PairTest::LineEllipse | PairTest::PixelEllipse | PairTest::RectEllipse
        | PairTest::EllipseEllipse => ShapeKind::Ellipse,
    }
}

/// The pairing for shapes of the kinds `first` and `second`: the one test
/// whose operands have these two kinds, with the pair swapped where the second
/// kind comes before the first in the order of [`rank`].
pub open spec fn spec_pairing(first: ShapeKind, second: ShapeKind) -> Pairing {
    let swapped = rank(second) < rank(first);
    let (low, high) = if swapped {
        (second, first)
    } else {
        (first, second)
    };
    Pairing {
        test: match (low, high) {
            (ShapeKind::Line, ShapeKind::Line) => PairTest::LineLine,
            (ShapeKind::Line, ShapeKind::Pixel) => PairTest::LinePixel,
            (ShapeKind::Line, ShapeKind::Rect) => PairTest::LineRect,
            (ShapeKind::Line, ShapeKind::Ellipse) => PairTest::LineEllipse,
            (ShapeKind::Pixel, ShapeKind::Pixel) => PairTest::PixelPixel,
            (ShapeKind::Pixel, ShapeKind::Rect) => PairTest::PixelRect,
            (ShapeKind::Pixel, ShapeKind::Ellipse) => PairTest::PixelEllipse,
            (ShapeKind::Rect, ShapeKind::Rect) => PairTest::RectRect,
            (ShapeKind::Rect, ShapeKind::Ellipse) => PairTest::RectEllipse,
            _ => PairTest::EllipseEllipse,
        },
        swapped,
    }
}

/// The kind of the shape that a pairing hands to its test as the first
/// operand, for a pair of the kinds `first` and `second`.
pub open spec fn first_operand(pairing: Pairing, first: ShapeKind, second: ShapeKind) -> ShapeKind {
    if pairing.swapped {
        second
    } else {
        first
    }
}

/// The kind of the shape that a pairing hands to its test as the second
/// operand.
pub open spec fn second_operand(pairing: Pairing, first: ShapeKind, second: ShapeKind) -> ShapeKind {
    if pairing.swapped {
        first
    } else {
        second
    }
}

/// A pair of shapes goes to the same test in either order, and the test
/// gets each shape in the same place: the choice does not depend on which
/// shape the caller named first. The operands have the kinds that the test
/// is for.
pub proof fn lemma_pairing_symmetric(first: ShapeKind, second: ShapeKind)
    ensures
        spec_pairing(first, second).test == spec_pairing(second, first).test,
        first_operand(spec_pairing(first, second), first, second) == first_operand(
            spec_pairing(second, first),
            second,
            first,
        ),
        second_operand(spec_pairing(first, second), first, second) == second_operand(
            spec_pairing(second, first),
            second,
            first,
        ),
        first_operand(spec_pairing(first, second), first, second) == first_kind(
            spec_pairing(first, second).test,
        ),
        second_operand(spec_pairing(first, second), first, second) == second_kind(
            spec_pairing(first, second).test,
        ),
{
}

impl Shape {
    /// Which of the four shapes this is.
    pub open spec fn spec_kind(&self) -> ShapeKind {
        match self {
            Shape::Pixel(_) => ShapeKind::Pixel,
            Shape::Ellipse(_, _, _) => ShapeKind::Ellipse,
            Shape::Rect(_, _, _) => ShapeKind::Rect,
            Shape::Line(_, _) => ShapeKind::Line,
        }
    }

    #[verifier::when_used_as_spec(spec_kind)]
    pub fn kind(&self) -> (kind: ShapeKind)
        ensures
            kind == self.spec_kind(),
    {
        match self {
            Shape::Pixel(_) => ShapeKind::Pixel,
            Shape::Ellipse(_, _, _) => ShapeKind::Ellipse,
            Shape::Rect(_, _, _) => ShapeKind::Rect,
            Shape::Line(_, _) => ShapeKind::Line,
        }
    }

    /// The test that decides whether `self` and `other` meet, and whether it
    /// takes them in this order or the other way round.
    pub fn pairing(&self, other: &Shape) -> (pairing: Pairing)
        ensures
            pairing == spec_pairing(self.kind(), other.kind()),
    {
        self.kind().pairing(other.kind())
    }
}

impl ShapeKind {
    /// The test that decides whether shapes of the kinds `self` and `other`
    /// meet, and whether it takes them in this order or the other way round.
    pub fn pairing(self, other: ShapeKind) -> (pairing: Pairing)
        ensures
            pairing == spec_pairing(self, other),
    {
        match self {
            ShapeKind::Line => match other {
                ShapeKind::Line => Pairing { test: PairTest::LineLine, swapped: false },
                ShapeKind::Pixel => Pairing { test: PairTest::LinePixel, swapped: false },
                ShapeKind::Rect => Pairing { test: PairTest::LineRect, swapped: false },
                ShapeKind::Ellipse => Pairing { test: PairTest::LineEllipse, swapped: false },
            },
            ShapeKind::Pixel => match other {
                ShapeKind::Line => Pairing { test: PairTest::LinePixel, swapped: true },
                ShapeKind::Pixel => Pairing { test: PairTest::PixelPixel, swapped: false },
                ShapeKind::Rect => Pairing { test: PairTest::PixelRect, swapped: false },
                ShapeKind::Ellipse => Pairing { test: PairTest::PixelEllipse, swapped: false },
            },
            ShapeKind::Rect => match other {
                ShapeKind::Line => Pairing { test: PairTest::LineRect, swapped: true },
                ShapeKind::Pixel => Pairing { test: PairTest::PixelRect, swapped: true },
                ShapeKind::Rect => Pairing { test: PairTest::RectRect, swapped: false },
                ShapeKind::Ellipse => Pairing { test: PairTest::RectEllipse, swapped: false },
            },
            ShapeKind::Ellipse => match other {
                ShapeKind::Line => Pairing { test: PairTest::LineEllipse, swapped: true },
                ShapeKind::Pixel => Pairing { test: PairTest::PixelEllipse, swapped: true },
                ShapeKind::Rect => Pairing { test: PairTest::RectEllipse, swapped: true },
                ShapeKind::Ellipse => Pairing { test: PairTest::EllipseEllipse, swapped: false },
            },
        }
    }
}

/// The points found, or nothing where none was found.
pub fn found<T>(intersection_points: Vec<T>) -> (result: Option<Vec<T>>)
    ensures
        intersection_points@.len() == 0 ==> result is None,
        intersection_points@.len() > 0 ==> result == Some(intersection_points),
{
    if intersection_points.len() == 0 {
        None
    } else {
        Some(intersection_points)
    }
}

} // verus!
