use rusty_tree::math_2d::Vector;
use rusty_tree::position::Position;

#[test]
fn create() {
    let p1 = Position::new(1, 1);
    let p2 = Position::from_vector(Vector::new(1, 1));

    assert_eq!(p1, Position { x: 1, y: 1 });
    assert_eq!(p1, p2);
}

#[test]
fn position_display() {
    let f = Position::new(1, 2).to_string();
    assert_eq!(f, "(x: 1, y: 2)");
}

#[test]
fn position_display_of_large_numbers() {
    assert_eq!(
        Position::new(0, u32::MAX).to_string(),
        "(x: 0, y: 4294967295)"
    );
    assert_eq!(Position::new(10, 909).to_string(), "(x: 10, y: 909)");
}

#[test]
fn position_of_a_vector_out_of_range() {
    assert_eq!(Position::try_from_vector(Vector::new(-1, 0)), None);
    assert_eq!(Position::try_from_vector(Vector::new(0, -1)), None);
    assert_eq!(
        Position::try_from_vector(Vector::new(u32::MAX as i64 + 1, 0)),
        None
    );
    assert_eq!(
        Position::try_from_vector(Vector::new(u32::MAX as i64, 7)),
        Some(Position::new(u32::MAX, 7))
    );
}
