use rusty_tree::math_2d::Vector;
use rusty_tree::physics_2d::body::ID_FORMAT_MASK;
use rusty_tree::physics_2d::body::ID_FORMAT_RANDOM;
use rusty_tree::physics_2d::BodyHandle;
use rusty_tree::physics_2d::CollisionLayer;
use rusty_tree::PhysicalSize;

#[test]
fn bodies_equal() {
    let b1 = BodyHandle::new(Vector::zero(), false);
    let b2 = BodyHandle::new(Vector::zero(), false);
    let mut b3 = BodyHandle::new(Vector::zero(), false);
    b3.id = b1.id;

    assert_eq!(&b2, &b2);
    assert_eq!(b2, b2);
    assert_ne!(b1, b2);
    assert_eq!(&b1, &b3);
    assert_eq!(b1, b3);
}

#[test]
fn bodies_are_equal_wherever_they_stand() {
    let b1 = BodyHandle::new(Vector::zero(), true);
    let moved = b1.moved_to(Vector::new(100, -3));
    assert_eq!(b1, moved);
    assert_eq!(moved.position(), Vector::new(100, -3));
    assert_eq!(moved.id(), b1.id());
    assert_ne!(
        BodyHandle::with_id(1, Vector::zero(), true),
        BodyHandle::with_id(2, Vector::zero(), true)
    );
}

#[test]
fn new_bodies_get_random_identifiers() {
    let position = Vector::new(3, 4);
    let b1 = BodyHandle::new(position, true);
    let b2 = BodyHandle::new(position, true);
    assert_eq!(b1.position, position);
    assert_ne!(b1.id, b2.id);
    assert_eq!(b1.id & ID_FORMAT_MASK, ID_FORMAT_RANDOM);
    assert_eq!(b2.id & ID_FORMAT_MASK, ID_FORMAT_RANDOM);
    // version 4, variant 10
    assert_eq!((b1.id >> 76) & 0xf, 4);
    assert_eq!((b1.id >> 62) & 0x3, 2);
}

#[test]
fn add_to_layer() {
    let b1 = BodyHandle::new(Vector::zero(), false);
    let b2 = BodyHandle::new(Vector::scalar(20), false);
    let b3 = BodyHandle::new(Vector::scalar(100), false);
    let b4 = BodyHandle::new(Vector::new(0, 20), false);

    let mut collision_layer =
        CollisionLayer::new(PhysicalSize::new(100, 100), PhysicalSize::new(10, 10));
    assert!(collision_layer.add_body(b1.clone(), true));
    assert!(collision_layer.add_body(b2.clone(), false));
    assert!(collision_layer.add_body(b3.clone(), true));
    assert!(collision_layer.add_body(b4.clone(), false));
    assert!(!collision_layer.add_body(b3.clone(), false));

    assert!(!collision_layer.remove_body(&b3, Some(false)));
    assert!(collision_layer.remove_body(&b3, Some(true)));
    assert!(!collision_layer.remove_body(&b3, Some(false)));
    assert!(!collision_layer.remove_body(&b3, Some(true)));
    assert!(collision_layer.remove_body(&b2, Some(false)));
    assert!(!collision_layer.remove_body(&b2, None));
    assert!(collision_layer.remove_body(&b1, None));
    assert!(collision_layer.remove_body(&b4, None));
}

#[test]
fn a_body_is_in_one_group_only() {
    let body = BodyHandle::with_id(7, Vector::new(5, 5), true);
    let mut layer = CollisionLayer::new(PhysicalSize::new(10, 10), PhysicalSize::new(5, 5));
    assert!(!layer.contains(&body));
    assert!(layer.add_body(body, true));
    assert!(layer.contains(&body));
    // neither as an actor nor as an obstacle again
    assert!(!layer.add_body(body, false));
    assert!(!layer.add_body(body, true));
    // the wrong group does not release it, and it stays in the grid
    assert!(!layer.remove_body(&body, Some(false)));
    assert!(layer.contains(&body));
    // no group named: released
    assert!(layer.remove_body(&body, None));
    assert!(!layer.contains(&body));
    assert!(!layer.remove_body(&body, None));
    // free again for the other group
    assert!(layer.add_body(body, false));
    assert!(!layer.remove_body(&body, Some(true)));
    assert!(layer.remove_body(&body, None));
}

#[test]
fn removal_without_a_group_finds_actors_too() {
    let actor = BodyHandle::with_id(1, Vector::new(1, 1), true);
    let obstacle = BodyHandle::with_id(2, Vector::new(1, 1), true);
    let mut layer = CollisionLayer::new(PhysicalSize::new(10, 10), PhysicalSize::new(5, 5));
    assert!(layer.add_body(actor, false));
    assert!(layer.add_body(obstacle, true));
    assert!(layer.remove_body(&actor, None));
    assert!(layer.remove_body(&obstacle, None));
    assert!(!layer.remove_body(&actor, Some(false)));
}

// A body that has moved is asked for in the bucket of its new position:
// the caller removes it before it moves.
#[test]
fn a_moved_body_is_not_found() {
    let body = BodyHandle::with_id(7, Vector::new(0, 0), true);
    let mut layer = CollisionLayer::new(PhysicalSize::new(10, 10), PhysicalSize::new(5, 5));
    assert!(layer.add_body(body, true));
    let moved = body.moved_to(Vector::new(9, 9));
    assert!(!layer.remove_body(&moved, None));
    assert!(layer.remove_body(&body, None));
}
