use vstd::prelude::*;

use vstd::string::StringExecFns;

use crate::math_2d::Vector;
use crate::text;
use crate::text::push_decimal;

verus! {

/// The place of a pixel in a buffer: column and row, counted from the top
/// left.
#[derive(Clone, Copy, Debug, PartialEq, Eq, Structural)]
pub struct Position {
    pub x: u32,
    pub y: u32,
}

impl Position {
    pub fn new(x: u32, y: u32) -> (position: Self)
        ensures
            position.x == x,
            position.y == y,
    {
        Self { x, y }
    }

    /// The position as text: `(x: 1, y: 2)`.
    pub open spec fn text(&self) -> Seq<char> {
        "(x: "@ + text::decimal(self.x as nat) + ", y: "@ + text::decimal(self.y as nat) + ")"@
    }

    pub fn to_string(&self) -> (text: String)
        ensures
            text@ == self.text(),
    {
        let mut text = String::from_str("(x: ");
        push_decimal(&mut text, self.x as u128);
        text.append(", y: ");
        push_decimal(&mut text, self.y as u128);
        text.append(")");
        text
    }

    /// The lattice point can be a position: both coordinates are in the
    /// range of `u32`.
    pub open spec fn holds(vector: Vector) -> bool {
        0 <= vector.x <= u32::MAX && 0 <= vector.y <= u32::MAX
    }

    /// The position of a lattice point whose coordinates are in range.
    pub fn from_vector(vector: Vector) -> (position: Self)
        requires
            Position::holds(vector),
        ensures
            position.x == vector.x,
            position.y == vector.y,
    {
        Position::new(vector.x as u32, vector.y as u32)
    }

    /// The position of a lattice point, if its coordinates are in range.
    pub fn try_from_vector(vector: Vector) -> (position: Option<Self>)
        ensures
            Position::holds(vector) ==> position == Some(Position { x: vector.x as u32, y: vector.y as u32 }),
            !Position::holds(vector) ==> position is None,
    {
        if 0 <= vector.x && vector.x <= 0xffff_ffff && 0 <= vector.y && vector.y <= 0xffff_ffff {
            Some(Position::from_vector(vector))
        } else {
            None
        }
    }
}

} // verus!
