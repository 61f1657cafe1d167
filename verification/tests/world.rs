use rusty_tree::math_2d::Vector;
use rusty_tree::physics_2d::BodyHandle;
use rusty_tree::world::CollisionSpecifier;
use rusty_tree::world::World;
use rusty_tree::PhysicalSize;

fn world(layers: usize) -> World {
    World::new(PhysicalSize::new(100, 100), PhysicalSize::new(10, 10), layers)
}

fn ids(world: &World) -> Vec<u128> {
    world.bodies().iter().map(|body| body.id).collect()
}

#[test]
fn bodies_are_kept_in_the_order_they_came() {
    let mut world = world(1);
    let a = BodyHandle::with_id(1, Vector::new(1, 1), false);
    let b = BodyHandle::with_id(2, Vector::new(2, 2), true);
    let c = BodyHandle::with_id(3, Vector::new(3, 3), true);
    world.add_body(a, None);
    world.add_body(b, Some(CollisionSpecifier::new(0, Some(true))));
    world.add_body(c, None);
    assert_eq!(ids(&world), vec![1, 2, 3]);
    world.remove_body(&b, None);
    assert_eq!(ids(&world), vec![1, 3]);
    world.remove_body(&b, None);
    assert_eq!(ids(&world), vec![1, 3]);
    world.remove_body(&a, None);
    world.remove_body(&c, None);
    assert_eq!(ids(&world), Vec::<u128>::new());
}

#[test]
fn only_the_first_of_equal_bodies_leaves() {
    let mut world = world(0);
    let a = BodyHandle::with_id(1, Vector::new(1, 1), false);
    let b = BodyHandle::with_id(2, Vector::new(2, 2), false);
    world.add_body(a, None);
    world.add_body(b, None);
    world.add_body(a.moved_to(Vector::new(9, 9)), None);
    world.remove_body(&a, None);
    assert_eq!(ids(&world), vec![2, 1]);
    assert_eq!(world.bodies()[1].position, Vector::new(9, 9));
}

#[test]
fn a_body_enters_and_leaves_the_layer_named() {
    let mut world = world(2);
    assert_eq!(world.layer_count(), 2);
    let body = BodyHandle::with_id(7, Vector::new(50, 50), true);
    world.add_body(body, Some(CollisionSpecifier::new(1, Some(false))));
    assert!(!world.layer(0).contains(&body));
    assert!(world.layer(1).contains(&body));
    // the wrong group does not release it from its layer
    world.remove_body(&body, Some(CollisionSpecifier::new(1, Some(true))));
    assert!(world.layer(1).contains(&body));
    assert_eq!(ids(&world), Vec::<u128>::new());
    // its own group does
    world.remove_body(&body, Some(CollisionSpecifier::new(1, Some(false))));
    assert!(!world.layer(1).contains(&body));
}

#[test]
fn without_a_specifier_the_first_layer_that_holds_the_body_lets_it_go() {
    let mut world = world(3);
    let body = BodyHandle::with_id(7, Vector::new(50, 50), true);
    world.add_body(body, Some(CollisionSpecifier::new(1, Some(true))));
    world.add_body(body, Some(CollisionSpecifier::new(2, Some(false))));
    assert_eq!(ids(&world), vec![7, 7]);
    world.remove_body(&body, None);
    assert!(!world.layer(1).contains(&body));
    assert!(world.layer(2).contains(&body));
    assert_eq!(ids(&world), vec![7]);
    world.remove_body(&body, None);
    assert!(!world.layer(2).contains(&body));
    assert_eq!(ids(&world), Vec::<u128>::new());
}

#[test]
fn a_body_without_collision_enters_no_layer() {
    let mut world = world(1);
    let ghost = BodyHandle::with_id(7, Vector::new(50, 50), false);
    let solid = BodyHandle::with_id(7, Vector::new(50, 50), true);
    // the specifier of a body without collision is not looked at
    world.add_body(ghost, Some(CollisionSpecifier::new(5, None)));
    world.remove_body(&ghost, Some(CollisionSpecifier::new(5, None)));
    assert!(!world.layer(0).contains(&solid));
    world.add_body(solid, Some(CollisionSpecifier::new(0, Some(true))));
    assert!(world.layer(0).contains(&solid));
    assert_eq!(ids(&world), vec![7]);
}
