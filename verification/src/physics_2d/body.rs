use vstd::prelude::*;

use crate::math_2d::Vector;

verus! {

/// The bits of an identifier that hold the version and the variant.
pub const ID_FORMAT_MASK: u128 = 0x0000_0000_0000_f000_c000_0000_0000_0000;

/// Version 4 (random) in the version bits, the variant of RFC 9562 in the
/// variant bits.
pub const ID_FORMAT_RANDOM: u128 = 0x0000_0000_0000_4000_8000_0000_0000_0000;

/// What the broad phase reads of a body: the identifier that makes it this
/// body and no other, the lattice point where it stands, and whether it takes
/// part in collisions. Two handles are equal when their identifiers are,
/// whatever else they hold.
#[derive(Clone, Copy, Debug)]
pub struct BodyHandle {
    pub id: u128,
    pub position: Vector,
    pub has_collision: bool,
}

/// `Uuid::new_v4` of the `uuid` crate, read as the number that
/// `Uuid::as_u128` gives. The identifier is random; all that is claimed of it
/// is its format, which `new_v4` sets in every identifier it makes: version 4
/// and the RFC variant.
#[verifier::external_body]
fn random_id() -> (id: u128)
    ensures
        id & ID_FORMAT_MASK == ID_FORMAT_RANDOM,
{
    uuid::Uuid::new_v4().as_u128()
}

impl BodyHandle {
    /// A handle with a new random identifier for a body at `position`.
    pub fn new(position: Vector, has_collision: bool) -> (handle: Self)
        ensures
            handle.position == position,
            handle.has_collision == has_collision,
            handle.id & ID_FORMAT_MASK == ID_FORMAT_RANDOM,
    {
        Self { id: random_id(), position, has_collision }
    }

    /// The handle of the body `id` at `position`.
    pub fn with_id(id: u128, position: Vector, has_collision: bool) -> (handle: Self)
        ensures
            handle.id == id,
            handle.position == position,
            handle.has_collision == has_collision,
    {
        Self { id, position, has_collision }
    }

    pub fn id(&self) -> (id: u128)
        ensures
            id == self.id,
    {
        self.id
    }

    pub fn position(&self) -> (position: Vector)
        ensures
            position == self.position,
    {
        self.position
    }

    pub fn has_collision(&self) -> (has_collision: bool)
        ensures
            has_collision == self.has_collision,
    {
        self.has_collision
    }

    /// The same body at another place.
    pub fn moved_to(&self, position: Vector) -> (handle: Self)
        ensures
            handle.id == self.id,
            handle.position == position,
            handle.has_collision == self.has_collision,
    {
        Self { id: self.id, position, has_collision: self.has_collision }
    }
}

impl PartialEq for BodyHandle {
    fn eq(&self, other: &Self) -> (equal: bool) {
        self.id == other.id
    }
}

impl Eq for BodyHandle {

}

impl vstd::std_specs::cmp::PartialEqSpecImpl for BodyHandle {
    open spec fn obeys_eq_spec() -> bool {
        true
    }

    open spec fn eq_spec(&self, other: &Self) -> bool {
        self.id == other.id
    }
}

} // verus!
