//! Bodies as the broad phase sees them, the layers that group them, the
//! shapes, and where the outlines of two shapes meet.

pub mod body;
pub mod collision;
pub mod intersect;
pub mod shape;

pub use body::BodyHandle;
pub use collision::CollisionLayer;
pub use collision::LayerView;
pub use intersect::Crossing;
pub use shape::PairTest;
pub use shape::Pairing;
pub use shape::Shape;
pub use shape::ShapeKind;
