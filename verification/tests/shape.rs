use rusty_tree::math_2d::Fraction;
use rusty_tree::math_2d::Vector;
use rusty_tree::physics_2d::Crossing;
use rusty_tree::physics_2d::shape::found;
use rusty_tree::physics_2d::PairTest;
use rusty_tree::physics_2d::Pairing;
use rusty_tree::physics_2d::Shape;
use rusty_tree::physics_2d::ShapeKind;

fn shapes() -> [Shape; 4] {
    [
        Shape::Line(Vector::zero(), Vector::new(1, 1)),
        Shape::Pixel(Vector::zero()),
        Shape::Rect(Vector::zero(), 2, 3),
        Shape::Ellipse(Vector::zero(), 2, 3),
    ]
}

#[test]
fn kinds() {
    let [line, pixel, rect, ellipse] = shapes();
    assert_eq!(line.kind(), ShapeKind::Line);
    assert_eq!(pixel.kind(), ShapeKind::Pixel);
    assert_eq!(rect.kind(), ShapeKind::Rect);
    assert_eq!(ellipse.kind(), ShapeKind::Ellipse);
}

#[test]
fn pairings() {
    let [line, pixel, rect, ellipse] = shapes();
    let keep = |test| Pairing {
        test,
        swapped: false,
    };
    let swap = |test| Pairing {
        test,
        swapped: true,
    };
    assert_eq!(line.pairing(&line), keep(PairTest::LineLine));
    assert_eq!(line.pairing(&pixel), keep(PairTest::LinePixel));
    assert_eq!(line.pairing(&rect), keep(PairTest::LineRect));
    assert_eq!(line.pairing(&ellipse), keep(PairTest::LineEllipse));
    assert_eq!(pixel.pairing(&line), swap(PairTest::LinePixel));
    assert_eq!(pixel.pairing(&pixel), keep(PairTest::PixelPixel));
    assert_eq!(pixel.pairing(&rect), keep(PairTest::PixelRect));
    assert_eq!(pixel.pairing(&ellipse), keep(PairTest::PixelEllipse));
    assert_eq!(rect.pairing(&line), swap(PairTest::LineRect));
    assert_eq!(rect.pairing(&pixel), swap(PairTest::PixelRect));
    assert_eq!(rect.pairing(&rect), keep(PairTest::RectRect));
    assert_eq!(rect.pairing(&ellipse), keep(PairTest::RectEllipse));
    assert_eq!(ellipse.pairing(&line), swap(PairTest::LineEllipse));
    assert_eq!(ellipse.pairing(&pixel), swap(PairTest::PixelEllipse));
    assert_eq!(ellipse.pairing(&rect), swap(PairTest::RectEllipse));
    assert_eq!(ellipse.pairing(&ellipse), keep(PairTest::EllipseEllipse));
}

#[test]
fn pairing_does_not_depend_on_the_order() {
    for first in shapes() {
        for second in shapes() {
            let there = first.pairing(&second);
            let back = second.pairing(&first);
            assert_eq!(there.test, back.test);
            if first.kind() != second.kind() {
                assert_ne!(there.swapped, back.swapped);
            }
        }
    }
}

#[test]
fn shapes_are_equal_by_their_parts() {
    assert_eq!(
        Shape::Rect(Vector::new(1, 2), 3, 4),
        Shape::Rect(Vector::new(1, 2), 3, 4)
    );
    assert_ne!(
        Shape::Rect(Vector::new(1, 2), 3, 4),
        Shape::Ellipse(Vector::new(1, 2), 3, 4)
    );
    assert_ne!(
        Shape::Line(Vector::zero(), Vector::new(1, 2)),
        Shape::Line(Vector::new(1, 2), Vector::zero())
    );
}

#[test]
fn no_points_found_is_nothing() {
    assert_eq!(found(Vec::<Vector>::new()), None);
    assert_eq!(
        found(vec![Vector::new(1, 2)]),
        Some(vec![Vector::new(1, 2)])
    );
}

#[test]
fn kinds_pair_as_their_shapes_do() {
    for first in shapes() {
        for second in shapes() {
            assert_eq!(
                first.kind().pairing(second.kind()),
                first.pairing(&second)
            );
        }
    }
}

fn pixel_at(place: Vector) -> Crossing {
    Crossing {
        from: place,
        along: Vector::zero(),
        at: Fraction::zero(),
    }
}

// The point of the plane that a crossing stands for.
fn point(crossing: &Crossing) -> (f64, f64) {
    let at = crossing.at.num as f64 / crossing.at.den as f64;
    (
        crossing.from.x as f64 + at * crossing.along.x as f64,
        crossing.from.y as f64 + at * crossing.along.y as f64,
    )
}

fn points(crossings: Option<Vec<Crossing>>) -> Vec<(f64, f64)> {
    crossings.unwrap_or_default().iter().map(point).collect()
}

#[test]
fn pixels_meet_where_they_lie_on_each_other() {
    let first = Shape::Pixel(Vector::new(1, 2));
    let second = Shape::Pixel(Vector::new(-3, 5));
    assert_eq!(
        Shape::intersect_pixel_pixel(&first, &Vector::new(10, 10), &second, &Vector::new(14, 7)),
        vec![pixel_at(Vector::new(11, 12))]
    );
    assert_eq!(
        Shape::intersect_pixel_pixel(&first, &Vector::new(10, 10), &second, &Vector::new(14, 8)),
        vec![]
    );
    assert_eq!(
        first.intersection_unturned(&Vector::zero(), &first, &Vector::zero()),
        Some(vec![pixel_at(Vector::new(1, 2))])
    );
    assert_eq!(
        first.intersection_unturned(&Vector::zero(), &second, &Vector::zero()),
        None
    );
}

#[test]
fn lines_cross_in_a_point_of_the_first() {
    // from (0, 0) to (10, 10), and from (0, 10) to (10, 0), both moved by their bodies
    let rising = Shape::Line(Vector::new(-2, -2), Vector::new(8, 8));
    let falling = Shape::Line(Vector::new(0, 0), Vector::new(10, -10));
    let hit = rising.intersection_unturned(&Vector::new(2, 2), &falling, &Vector::new(0, 10));
    assert_eq!(
        hit,
        Some(vec![Crossing {
            from: Vector::new(0, 0),
            along: Vector::new(10, 10),
            at: Fraction { num: 1, den: 2 },
        }])
    );
    assert_eq!(points(hit), vec![(5.0, 5.0)]);
    // the other way round, the point is given on the falling line
    let back = falling.intersection_unturned(&Vector::new(0, 10), &rising, &Vector::new(2, 2));
    assert_eq!(points(back), vec![(5.0, 5.0)]);
    assert_eq!(
        rising.intersection_unturned(&Vector::new(2, 2), &falling, &Vector::new(0, 30)),
        None
    );
}

#[test]
fn lines_of_one_line_share_a_stretch() {
    let long = Shape::Line(Vector::new(0, 0), Vector::new(10, 10));
    let short = Shape::Line(Vector::new(0, 0), Vector::new(-4, -4));
    // the short line runs back from (6, 6) to (2, 2)
    assert_eq!(
        points(long.intersection_unturned(&Vector::zero(), &short, &Vector::new(6, 6))),
        vec![(2.0, 2.0), (6.0, 6.0)]
    );
}

#[test]
fn a_pixel_on_a_line() {
    let line = Shape::Line(Vector::new(0, 0), Vector::new(4, 8));
    let pixel = Shape::Pixel(Vector::new(1, 2));
    // beside the line
    assert_eq!(
        line.intersection_unturned(&Vector::zero(), &pixel, &Vector::new(1, 0)),
        None
    );
    assert_eq!(
        pixel.intersection_unturned(&Vector::new(1, 0), &line, &Vector::zero()),
        None
    );
    // ahead of the line
    assert_eq!(
        line.intersection_unturned(&Vector::zero(), &pixel, &Vector::new(4, 8)),
        None
    );
    // on its end: the line ends where the pixel lies
    assert_eq!(
        points(line.intersection_unturned(&Vector::zero(), &pixel, &Vector::new(3, 6))),
        vec![(4.0, 8.0)]
    );
    // in whichever order the two are named
    assert_eq!(
        pixel.intersection_unturned(&Vector::new(3, 6), &line, &Vector::zero()),
        line.intersection_unturned(&Vector::zero(), &pixel, &Vector::new(3, 6))
    );
}

#[test]
fn a_line_through_a_rectangle() {
    // the rectangle reaches from (-2, -1) to (2, 1)
    let rect = Shape::Rect(Vector::zero(), 2, 1);
    let line = Shape::Line(Vector::new(-4, 0), Vector::new(4, 0));
    // the left edge first, then the right edge
    assert_eq!(
        points(line.intersection_unturned(&Vector::zero(), &rect, &Vector::zero())),
        vec![(-2.0, 0.0), (2.0, 0.0)]
    );
    assert_eq!(
        rect.intersection_unturned(&Vector::zero(), &line, &Vector::zero()),
        line.intersection_unturned(&Vector::zero(), &rect, &Vector::zero())
    );
    // a line inside the rectangle does not touch its outline
    let inside = Shape::Line(Vector::new(-1, 0), Vector::new(1, 0));
    assert_eq!(
        inside.intersection_unturned(&Vector::zero(), &rect, &Vector::zero()),
        None
    );
    // a line beside it neither
    assert_eq!(
        line.intersection_unturned(&Vector::new(0, 5), &rect, &Vector::zero()),
        None
    );
}

#[test]
fn a_pixel_on_the_outline_of_a_rectangle() {
    let rect = Shape::Rect(Vector::new(10, 10), 2, 1);
    let pixel = Shape::Pixel(Vector::zero());
    let on = |x: i64, y: i64| {
        pixel
            .intersection_unturned(&Vector::new(x, y), &rect, &Vector::zero())
            .is_some()
    };
    // on the left and right edges, between the corners
    assert!(on(8, 10));
    assert!(on(12, 10));
    // on the top and bottom edges
    assert!(on(10, 9));
    assert!(on(11, 11));
    assert!(on(9, 11));
    // the corners are on no edge
    assert!(!on(8, 9));
    assert!(!on(12, 11));
    // inside and outside
    assert!(!on(10, 10));
    assert!(!on(13, 10));
    assert_eq!(
        pixel.intersection_unturned(&Vector::new(8, 10), &rect, &Vector::zero()),
        Some(vec![pixel_at(Vector::new(8, 10))])
    );
    assert_eq!(
        rect.intersection_unturned(&Vector::zero(), &pixel, &Vector::new(8, 10)),
        Some(vec![pixel_at(Vector::new(8, 10))])
    );
}

#[test]
fn a_pixel_on_an_ellipse() {
    let ellipse = Shape::Ellipse(Vector::zero(), 5, 3);
    let pixel = Shape::Pixel(Vector::zero());
    let on = |x: i64, y: i64| {
        pixel
            .intersection_unturned(&Vector::new(x, y), &ellipse, &Vector::new(100, 100))
            .is_some()
    };
    assert!(on(105, 100));
    assert!(on(95, 100));
    assert!(on(100, 103));
    assert!(on(100, 97));
    assert!(!on(100, 100));
    assert!(!on(103, 102));
    assert!(!on(106, 100));
    // (4 / 5)^2 + (3 / 5)^2 = 1 on the circle of radius 5
    let circle = Shape::Ellipse(Vector::zero(), 5, 5);
    assert_eq!(
        Shape::Pixel(Vector::new(4, -3)).intersection_unturned(&Vector::zero(), &circle, &Vector::zero()),
        Some(vec![pixel_at(Vector::new(4, -3))])
    );
    assert_eq!(
        circle.intersection_unturned(&Vector::zero(), &Shape::Pixel(Vector::new(-3, 4)), &Vector::zero()),
        Some(vec![pixel_at(Vector::new(-3, 4))])
    );
    // the largest ellipse
    let huge = Shape::Ellipse(Vector::zero(), u32::MAX, u32::MAX);
    assert!(Shape::Pixel(Vector::new(0, u32::MAX as i64))
        .intersection_unturned(&Vector::zero(), &huge, &Vector::zero())
        .is_some());
    assert!(Shape::Pixel(Vector::new(1, u32::MAX as i64))
        .intersection_unturned(&Vector::zero(), &huge, &Vector::zero())
        .is_none());
}

#[test]
fn rectangles_on_each_other_meet_in_their_corners() {
    // from (-2, -1) to (2, 1)
    let rect = Shape::Rect(Vector::zero(), 2, 1);
    let found = points(rect.intersection_unturned(&Vector::new(7, 7), &rect, &Vector::new(7, 7)));
    for corner in [(5.0, 6.0), (9.0, 6.0), (5.0, 8.0), (9.0, 8.0)] {
        assert!(found.contains(&corner));
    }
    // each edge finds its two ends on the edge it lies on and on the two
    // edges that start there
    assert_eq!(found.len(), 16);
    assert!(found.iter().all(|point| [(5.0, 6.0), (9.0, 6.0), (5.0, 8.0), (9.0, 8.0)]
        .contains(point)));
}

#[test]
fn rectangles_apart_do_not_meet() {
    let rect = Shape::Rect(Vector::zero(), 2, 1);
    assert_eq!(
        rect.intersection_unturned(&Vector::zero(), &rect, &Vector::new(100, 100)),
        None
    );
    assert_eq!(
        rect.intersection_unturned(&Vector::zero(), &rect, &Vector::new(5, 0)),
        None
    );
    // rectangles of different sizes with edges on one line
    let wide = Shape::Rect(Vector::zero(), 10, 1);
    let narrow = Shape::Rect(Vector::zero(), 1, 1);
    for x in [-12, 12] {
        assert_eq!(
            wide.intersection_unturned(&Vector::zero(), &narrow, &Vector::new(x, 0)),
            None
        );
        assert_eq!(
            narrow.intersection_unturned(&Vector::new(x, 0), &wide, &Vector::zero()),
            None
        );
    }
    // one inside the other
    let small = Shape::Rect(Vector::zero(), 1, 1);
    let large = Shape::Rect(Vector::zero(), 5, 5);
    assert_eq!(
        small.intersection_unturned(&Vector::zero(), &large, &Vector::zero()),
        None
    );
}

#[test]
fn rectangles_that_overlap_meet_where_their_outlines_cross() {
    // from (-2, -2) to (2, 2), and the same moved by (2, 2)
    let rect = Shape::Rect(Vector::zero(), 2, 2);
    assert_eq!(
        rect.intersection_unturned(&Vector::zero(), &rect, &Vector::new(2, 2)),
        Some(vec![
            Crossing {
                from: Vector::new(-2, 2),
                along: Vector::new(4, 0),
                at: Fraction { num: 1, den: 2 },
            },
            Crossing {
                from: Vector::new(2, -2),
                along: Vector::new(0, 4),
                at: Fraction { num: 1, den: 2 },
            },
        ])
    );
    // seen from the second, its left edge comes before its top edge
    assert_eq!(
        points(rect.intersection_unturned(&Vector::new(2, 2), &rect, &Vector::zero())),
        vec![(0.0, 2.0), (2.0, 0.0)]
    );
}

#[test]
fn pairs_with_an_ellipse_and_an_outline_are_not_decided_on_the_lattice() {
    let [line, pixel, rect, ellipse] = shapes();
    assert!(!line.meets_on_lattice(&ellipse));
    assert!(!ellipse.meets_on_lattice(&line));
    assert!(!rect.meets_on_lattice(&ellipse));
    assert!(!ellipse.meets_on_lattice(&rect));
    assert!(!ellipse.meets_on_lattice(&ellipse));
    assert!(pixel.meets_on_lattice(&ellipse));
    assert!(ellipse.meets_on_lattice(&pixel));
    assert!(line.meets_on_lattice(&rect));
    assert!(rect.meets_on_lattice(&rect));
    assert!(line.meets_on_lattice(&line));
}

#[test]
fn shapes_turn_by_quarter_turns() {
    let rect = Shape::Rect(Vector::new(1, 1), 2, 5);
    assert_eq!(rect.turned(0), rect);
    assert_eq!(rect.turned(90), Shape::Rect(Vector::new(1, 1), 5, 2));
    assert_eq!(rect.turned(180), rect);
    assert_eq!(rect.turned(-90), Shape::Rect(Vector::new(1, 1), 5, 2));
    let ellipse = Shape::Ellipse(Vector::zero(), 2, 5);
    assert_eq!(ellipse.turned(270), Shape::Ellipse(Vector::zero(), 5, 2));
    assert_eq!(ellipse.turned(360), ellipse);
    let pixel = Shape::Pixel(Vector::new(3, 4));
    assert_eq!(pixel.turned(90), pixel);
    // a line from (0, 0) to (4, 2) turns about (2, 1)
    let line = Shape::Line(Vector::new(0, 0), Vector::new(4, 2));
    assert_eq!(line.turned(0), line);
    assert_eq!(
        line.turned(90),
        Shape::Line(Vector::new(3, -1), Vector::new(1, 3))
    );
    assert_eq!(
        line.turned(180),
        Shape::Line(Vector::new(4, 2), Vector::new(0, 0))
    );
    assert_eq!(
        line.turned(270),
        Shape::Line(Vector::new(1, 3), Vector::new(3, -1))
    );
    assert_eq!(line.turned(-90), line.turned(270));
    // a line whose middle is no point of the lattice turns by half turns
    let odd = Shape::Line(Vector::new(0, 0), Vector::new(-3, 1));
    assert_eq!(
        odd.turned(180),
        Shape::Line(Vector::new(-3, 1), Vector::new(0, 0))
    );
    // towards negative coordinates
    let back = Shape::Line(Vector::new(0, 0), Vector::new(-4, -2));
    assert_eq!(
        back.turned(90),
        Shape::Line(Vector::new(-3, 1), Vector::new(-1, -3))
    );
}

#[test]
fn turned_shapes_meet_as_they_stand_after_the_turn() {
    // the rectangle reaches from (-2, -1) to (2, 1), and after a quarter
    // turn from (-1, -2) to (1, 2)
    let rect = Shape::Rect(Vector::zero(), 2, 1);
    let line = Shape::Line(Vector::new(-4, 0), Vector::new(4, 0));
    assert_eq!(
        points(line.intersection(&Vector::zero(), 0, &rect, &Vector::zero(), 0)),
        vec![(-2.0, 0.0), (2.0, 0.0)]
    );
    assert_eq!(
        points(line.intersection(&Vector::zero(), 0, &rect, &Vector::zero(), 90)),
        vec![(-1.0, 0.0), (1.0, 0.0)]
    );
    // the line turned upright meets the top and the bottom edge
    assert_eq!(
        points(line.intersection(&Vector::zero(), 90, &rect, &Vector::zero(), 0)),
        vec![(0.0, 1.0), (0.0, -1.0)]
    );
    assert_eq!(
        rect.intersection(&Vector::zero(), 0, &line, &Vector::zero(), 90),
        line.intersection(&Vector::zero(), 90, &rect, &Vector::zero(), 0)
    );
    // a pixel on the long side of an ellipse
    let ellipse = Shape::Ellipse(Vector::zero(), 5, 3);
    let pixel = Shape::Pixel(Vector::new(0, 5));
    assert_eq!(
        pixel.intersection(&Vector::zero(), 0, &ellipse, &Vector::zero(), 0),
        None
    );
    assert_eq!(
        pixel.intersection(&Vector::zero(), 0, &ellipse, &Vector::zero(), 90),
        Some(vec![pixel_at(Vector::new(0, 5))])
    );
}
