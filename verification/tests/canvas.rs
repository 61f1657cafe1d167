use rusty_tree::buffer::Buffer;
use rusty_tree::buffer::SimpleBuffer;
use rusty_tree::canvas::Canvas;
use rusty_tree::canvas::Drawable;
use rusty_tree::color::Color;
use rusty_tree::position::Position;
use rusty_tree::PhysicalSize;

#[test]
pub fn draw_line() {
    let size = PhysicalSize::new(10, 10);
    let mut canvas = Canvas::new_with_simplebuffer(size);
    canvas.clear(Color::new_rgba(100, 100, 100, 100).to_slice());

    let middle = Position::new(size.width / 2, size.height / 2);
    let bottom_right = Position::new(size.width - 1, size.height - 1);
    let top_left = Position::new(0, 0);
    let middle_left = Position::new(0, size.height / 2);
    let top_right = Position::new(size.width - 1, 0);
    let top_middle = Position::new(size.width / 2, 0);
    let bottom_left = Position::new(0, size.height - 1);

    canvas.set_draw_color(Color::from_str("green"));
    canvas.draw_line(&middle, &bottom_right);

    canvas.set_draw_color(Color::from_str("white"));
    canvas.draw_line(&top_left, &middle);

    canvas.set_draw_color(Color::from_str("blue"));
    canvas.draw_line(&middle_left, &top_right);

    canvas.set_draw_color(Color::from_str("red"));
    canvas.draw_line(&top_middle, &bottom_left);

    let s = canvas.buffer().to_string();

    let expect = "SimpleBuffer (10x10): [\
        [255, 255, 255, 255][100, 100, 100, 100][100, 100, 100, 100][100, 100, 100, 100][100, 100, 100, 100][255, 0, 0, 255][100, 100, 100, 100][100, 100, 100, 100][100, 100, 100, 100][0, 0, 255, 255]\
        [100, 100, 100, 100][255, 255, 255, 255][100, 100, 100, 100][100, 100, 100, 100][100, 100, 100, 100][255, 0, 0, 255][100, 100, 100, 100][0, 0, 255, 255][0, 0, 255, 255][100, 100, 100, 100]\
        [100, 100, 100, 100][100, 100, 100, 100][255, 255, 255, 255][100, 100, 100, 100][255, 0, 0, 255][0, 0, 255, 255][0, 0, 255, 255][100, 100, 100, 100][100, 100, 100, 100][100, 100, 100, 100]\
        [100, 100, 100, 100][100, 100, 100, 100][100, 100, 100, 100][0, 0, 255, 255][255, 0, 0, 255][100, 100, 100, 100][100, 100, 100, 100][100, 100, 100, 100][100, 100, 100, 100][100, 100, 100, 100]\
        [100, 100, 100, 100][0, 0, 255, 255][0, 0, 255, 255][255, 0, 0, 255][255, 255, 255, 255][100, 100, 100, 100][100, 100, 100, 100][100, 100, 100, 100][100, 100, 100, 100][100, 100, 100, 100]\
        [0, 0, 255, 255][100, 100, 100, 100][255, 0, 0, 255][100, 100, 100, 100][100, 100, 100, 100][255, 255, 255, 255][100, 100, 100, 100][100, 100, 100, 100][100, 100, 100, 100][100, 100, 100, 100]\
        [100, 100, 100, 100][100, 100, 100, 100][255, 0, 0, 255][100, 100, 100, 100][100, 100, 100, 100][100, 100, 100, 100][0, 255, 0, 255][100, 100, 100, 100][100, 100, 100, 100][100, 100, 100, 100]\
        [100, 100, 100, 100][255, 0, 0, 255][100, 100, 100, 100][100, 100, 100, 100][100, 100, 100, 100][100, 100, 100, 100][100, 100, 100, 100][0, 255, 0, 255][100, 100, 100, 100][100, 100, 100, 100]\
        [100, 100, 100, 100][255, 0, 0, 255][100, 100, 100, 100][100, 100, 100, 100][100, 100, 100, 100][100, 100, 100, 100][100, 100, 100, 100][100, 100, 100, 100][0, 255, 0, 255][100, 100, 100, 100]\
        [255, 0, 0, 255][100, 100, 100, 100][100, 100, 100, 100][100, 100, 100, 100][100, 100, 100, 100][100, 100, 100, 100][100, 100, 100, 100][100, 100, 100, 100][100, 100, 100, 100][0, 255, 0, 255]\
        ]";

    assert_eq!(expect, s);
}

fn red_pixels(canvas: &Canvas<SimpleBuffer>) -> Vec<(u32, u32)> {
    let width = canvas.get_width();
    let mut found = vec![];
    for y in 0..canvas.get_height() {
        for x in 0..width {
            if canvas.buffer().get_pixel(x as usize, y as usize) == Ok([255, 0, 0, 255]) {
                found.push((x, y));
            }
        }
    }
    found
}

fn red_line(size: (u32, u32), start: (u32, u32), end: (u32, u32)) -> Vec<(u32, u32)> {
    let mut canvas = Canvas::new_with_simplebuffer(PhysicalSize::new(size.0, size.1));
    canvas.set_draw_color(Color::from_str("red"));
    canvas.draw_line(&Position::new(start.0, start.1), &Position::new(end.0, end.1));
    red_pixels(&canvas)
}

#[test]
fn vertical_and_horizontal_lines() {
    assert_eq!(
        red_line((4, 4), (1, 0), (1, 3)),
        vec![(1, 0), (1, 1), (1, 2), (1, 3)]
    );
    assert_eq!(
        red_line((4, 4), (1, 3), (1, 0)),
        vec![(1, 0), (1, 1), (1, 2), (1, 3)]
    );
    assert_eq!(
        red_line((4, 4), (0, 2), (3, 2)),
        vec![(0, 2), (1, 2), (2, 2), (3, 2)]
    );
    assert_eq!(red_line((4, 4), (2, 2), (2, 2)), vec![(2, 2)]);
}

#[test]
fn steep_lines_fill_their_columns() {
    // two columns for six rows: the first column takes the row of the start,
    // the second the rows up to the end
    assert_eq!(
        red_line((3, 6), (0, 0), (1, 5)),
        vec![(0, 0), (1, 1), (1, 2), (1, 3), (1, 4), (1, 5)]
    );
    // halves are rounded away from zero: 1 * 1 / 2 gives row 1 in column 1
    assert_eq!(
        red_line((3, 3), (0, 0), (2, 1)),
        vec![(0, 0), (1, 1), (2, 1)]
    );
    // a falling line: rows are listed from the top
    assert_eq!(
        red_line((3, 3), (0, 1), (2, 0)),
        vec![(1, 0), (2, 0), (0, 1)]
    );
}

#[test]
fn lines_are_cut_at_the_canvas() {
    assert_eq!(
        red_line((2, 2), (0, 0), (5, 5)),
        vec![(0, 0), (1, 1)]
    );
    assert_eq!(red_line((2, 2), (3, 0), (5, 1)), vec![]);
    assert_eq!(red_line((2, 2), (0, 5), (1, 5)), vec![]);
    assert_eq!(
        red_line((2, 3), (1, 0), (1, 9)),
        vec![(1, 0), (1, 1), (1, 2)]
    );
}

#[test]
fn set_pixel_paints_one_pixel() {
    let mut canvas = Canvas::new_with_simplebuffer(PhysicalSize::new(2, 2));
    canvas.set_pixel(&Position::new(1, 0), &Color::new_rgba(1, 2, 3, 255));
    assert_eq!(
        canvas.as_slice().to_vec(),
        vec![0, 0, 0, 0, 1, 2, 3, 255, 0, 0, 0, 0, 0, 0, 0, 0]
    );
    canvas.set_pixel(&Position::new(0, 1), &Color::new_rgba(9, 9, 9, 255));
    assert_eq!(
        canvas.as_slice().to_vec(),
        vec![0, 0, 0, 0, 1, 2, 3, 255, 9, 9, 9, 255, 0, 0, 0, 0]
    );
}

#[test]
fn fill_pixel_lays_a_translucent_colour_over_the_pixel() {
    let mut bytes = vec![100u8, 100, 100, 100, 7, 7, 7, 7];
    Canvas::<SimpleBuffer>::fill_pixel(&mut bytes, 0, 0, 2, [200, 0, 255, 51]);
    assert_eq!(bytes, vec![120, 80, 131, 131, 7, 7, 7, 7]);
    Canvas::<SimpleBuffer>::fill_pixel(&mut bytes, 1, 0, 2, [1, 2, 3, 255]);
    assert_eq!(bytes, vec![120, 80, 131, 131, 1, 2, 3, 255]);
}

#[test]
fn new_canvas() {
    let mut canvas = Canvas::new_with_simplebuffer(PhysicalSize::new(3, 2));
    assert_eq!(canvas.get_width(), 3);
    assert_eq!(canvas.get_height(), 2);
    assert_eq!(canvas.get_draw_color(), Color::RGBA(0, 0, 0, 255));
    assert_eq!(canvas.get_fill_color(), Color::RGBA(255, 255, 255, 255));
    assert_eq!(canvas.as_slice().len(), 24);
    assert!(canvas.as_slice().iter().all(|byte| *byte == 0));
    assert!(canvas.render().is_err());
}

#[test]
fn resize_canvas() {
    let mut canvas = Canvas::new_with_simplebuffer(PhysicalSize::new(1, 1));
    canvas.set_fill_color(Color::from_str("red"));
    canvas.resize(PhysicalSize::new(2, 3));
    assert_eq!(canvas.get_width(), 2);
    assert_eq!(canvas.get_height(), 3);
    assert_eq!(canvas.as_slice().len(), 24);
    assert_eq!(canvas.get_fill_color(), Color::RGBA(255, 0, 0, 255));
}

#[test]
fn canvas_on_a_given_buffer() {
    let mut buffer = SimpleBuffer::new(PhysicalSize::new(1, 1));
    buffer.clear([4, 3, 2, 1]);
    let mut canvas = Canvas::new_from_buffer(PhysicalSize::new(1, 1), Box::new(buffer));
    assert_eq!(canvas.as_slice().to_vec(), vec![4, 3, 2, 1]);
}
