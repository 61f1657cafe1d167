use rusty_tree::math_2d::Vector;
use rusty_tree::spatial_hashgrid::SpatialHashgrid;
use rusty_tree::PhysicalSize;

#[test]
fn spatial_hash() {
    let mut grid = SpatialHashgrid::new(PhysicalSize::new(2, 2), PhysicalSize::new(1, 1));

    for x in 0..=2 {
        for y in 0..=2 {
            grid.insert(format!("({}, {})", x, y), &Vector::new(x, y));
        }
    }

    // one position of each bucket
    assert_eq!(grid.get_cell(&Vector::new(0, 0)).len(), 1);
    assert_eq!(grid.get_cell(&Vector::new(1, 0)).len(), 2);
    assert_eq!(grid.get_cell(&Vector::new(0, 1)).len(), 2);
    assert_eq!(grid.get_cell(&Vector::new(1, 1)).len(), 4);
}

#[test]
fn get_cell() {
    let mut grid = SpatialHashgrid::new(PhysicalSize::new(2, 2), PhysicalSize::new(1, 1));

    let el = format!("({}, {})", 0, 0);
    let pos = Vector::new(0, 0);

    grid.insert(el.clone(), &pos);

    assert!(grid.contains(&el, &pos));

    let cell: Vec<&String> = grid.get_cell(&pos);
    assert!(cell.contains(&&el));

    let f = format!("{:?}", cell);

    let expected = "[\"(0, 0)\"]";
    assert_eq!(expected, f);
}

#[test]
fn insert_then_remove_round_trip() {
    let mut grid: SpatialHashgrid<u32> =
        SpatialHashgrid::new(PhysicalSize::new(2, 2), PhysicalSize::new(1, 1));
    let position = Vector::new(1, 1);
    assert!(grid.insert(7, &position));
    assert!(grid.remove(&7, &position));
    assert!(!grid.contains(&7, &position));
    assert!(grid.get_cell(&position).is_empty());
}

#[test]
fn second_insert_at_the_same_position_changes_nothing() {
    let mut grid: SpatialHashgrid<u32> =
        SpatialHashgrid::new(PhysicalSize::new(4, 4), PhysicalSize::new(2, 2));
    let position = Vector::new(3, 3);
    assert!(grid.insert(7, &position));
    assert!(!grid.insert(7, &position));
    assert_eq!(grid.get_cell(&position), vec![&7]);
    assert!(grid.remove(&7, &position));
    assert!(!grid.remove(&7, &position));
}

// The grid does not know where an element lies. A caller who asks with
// another position than the one used at insertion asks another bucket.
#[test]
fn removal_at_another_position_misses_the_element() {
    let mut grid: SpatialHashgrid<u32> =
        SpatialHashgrid::new(PhysicalSize::new(2, 2), PhysicalSize::new(1, 1));
    assert!(grid.insert(7, &Vector::new(0, 0)));
    assert!(!grid.remove(&7, &Vector::new(2, 2)));
    assert!(grid.contains(&7, &Vector::new(0, 0)));
}

#[test]
fn bucket_counts_of_the_lattice_points() {
    let mut grid: SpatialHashgrid<(i64, i64)> =
        SpatialHashgrid::new(PhysicalSize::new(2, 2), PhysicalSize::new(1, 1));
    for x in 0..=2 {
        for y in 0..=2 {
            assert!(grid.insert((x, y), &Vector::new(x, y)));
        }
    }
    // the corner bucket holds (0, 0) alone
    assert_eq!(grid.get_cell(&Vector::new(0, 0)), vec![&(0, 0)]);
    // the edge buckets hold two points each
    let mut right = grid.get_cell(&Vector::new(2, 0));
    right.sort();
    assert_eq!(right, vec![&(1, 0), &(2, 0)]);
    let mut below = grid.get_cell(&Vector::new(0, 2));
    below.sort();
    assert_eq!(below, vec![&(0, 1), &(0, 2)]);
    // the last bucket holds the four points with both coordinates positive
    let mut inner = grid.get_cell(&Vector::new(2, 2));
    inner.sort();
    assert_eq!(inner, vec![&(1, 1), &(1, 2), &(2, 1), &(2, 2)]);
}

#[test]
fn positions_beyond_the_far_edge_fall_into_the_last_cell() {
    let mut grid: SpatialHashgrid<u32> =
        SpatialHashgrid::new(PhysicalSize::new(100, 100), PhysicalSize::new(10, 10));
    assert!(grid.insert(1, &Vector::new(100, 100)));
    assert!(grid.contains(&1, &Vector::new(1000, 1000)));
    assert!(grid.contains(&1, &Vector::new(81, 81)));
    assert!(grid.contains(&1, &Vector::new(i64::MAX, i64::MAX)));
    assert!(!grid.contains(&1, &Vector::new(80, 80)));
}

#[test]
fn a_position_on_a_cell_edge_belongs_to_the_cell_before() {
    let mut grid: SpatialHashgrid<u32> =
        SpatialHashgrid::new(PhysicalSize::new(100, 100), PhysicalSize::new(10, 10));
    // 10 / 10 rounds up to cell 1, 11 / 10 to cell 2
    assert!(grid.insert(1, &Vector::new(10, 0)));
    assert!(grid.contains(&1, &Vector::new(1, 0)));
    assert!(!grid.contains(&1, &Vector::new(11, 0)));
    assert!(!grid.contains(&1, &Vector::new(0, 0)));
}

#[test]
fn negative_positions() {
    let mut grid: SpatialHashgrid<u32> =
        SpatialHashgrid::new(PhysicalSize::new(4, 4), PhysicalSize::new(1, 1));
    // both coordinates negative: the index is brought up to the first bucket
    assert!(grid.insert(1, &Vector::new(-5, -5)));
    assert!(grid.contains(&1, &Vector::new(0, 0)));
    assert!(grid.contains(&1, &Vector::new(i64::MIN, i64::MIN)));
    // a negative column is taken off the row's first index: -1 + 2 * 4 = 7
    assert!(grid.insert(2, &Vector::new(-1, 2)));
    assert!(grid.contains(&2, &Vector::new(3, 1)));
}

#[test]
fn cells_that_do_not_divide_the_area() {
    // 5 / 2 rounds up to 3 cells each way
    let mut grid: SpatialHashgrid<u32> =
        SpatialHashgrid::new(PhysicalSize::new(5, 5), PhysicalSize::new(2, 2));
    assert!(grid.insert(1, &Vector::new(5, 5)));
    assert!(grid.contains(&1, &Vector::new(3, 3)));
    assert!(!grid.contains(&1, &Vector::new(2, 2)));
    assert!(grid.insert(2, &Vector::new(2, 2)));
    assert!(grid.contains(&2, &Vector::new(1, 1)));
}

#[test]
fn bucket_indices_of_the_lattice_points() {
    let grid: SpatialHashgrid<u32> =
        SpatialHashgrid::new(PhysicalSize::new(2, 2), PhysicalSize::new(1, 1));
    let index = |x: i64, y: i64| grid.spatial_hash(&Vector::new(x, y));
    assert_eq!(index(0, 0), 0);
    assert_eq!([index(1, 0), index(2, 0)], [1, 1]);
    assert_eq!([index(0, 1), index(0, 2)], [2, 2]);
    assert_eq!([index(1, 1), index(1, 2), index(2, 1), index(2, 2)], [3, 3, 3, 3]);
    // 3 columns of 4 rows: the index is the column plus three times the row
    let wide: SpatialHashgrid<u32> =
        SpatialHashgrid::new(PhysicalSize::new(30, 40), PhysicalSize::new(10, 10));
    assert_eq!(wide.spatial_hash(&Vector::new(5, 15)), 1 + 3 * 2);
    assert_eq!(wide.spatial_hash(&Vector::new(10, 20)), 1 + 3 * 2);
    assert_eq!(wide.spatial_hash(&Vector::new(11, 21)), 2 + 3 * 3);
    assert_eq!(wide.spatial_hash(&Vector::new(30, 40)), 11);
    assert_eq!(wide.spatial_hash(&Vector::new(31, 41)), 11);
}
