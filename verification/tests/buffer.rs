use rusty_tree::buffer::Buffer;
use rusty_tree::buffer::SimpleBuffer;
use rusty_tree::color::Color;
use rusty_tree::PhysicalSize;

#[test]
fn buffer_length() {
    let w = 1;
    let h = 2;
    let mut buffer = SimpleBuffer::new(PhysicalSize::new(w, h));

    assert!(buffer.buffer().len() as u32 == w * h * 4)
}

#[test]
fn debug() {
    let buffer = SimpleBuffer::new(PhysicalSize::new(1, 2));

    let s = buffer.to_string();

    assert_eq!("SimpleBuffer (1x2): [[0, 0, 0, 0][0, 0, 0, 0]]", s);
}

#[test]
fn get_pixel() {
    let mut buffer = SimpleBuffer::new(PhysicalSize::new(1, 2));
    buffer.buffer()[4] = 255;

    let pixel = buffer.get_pixel(0, 1).unwrap();

    assert_eq!(pixel[0], 255);
    assert_eq!(pixel[1], 0);
    assert_eq!(pixel[2], 0);
    assert_eq!(pixel[3], 0);
}

#[test]
fn clear() {
    let mut buffer = SimpleBuffer::new(PhysicalSize::new(1, 2));
    buffer.clear(Color::new_rgba(200, 200, 200, 200).to_slice());

    assert!(buffer.buffer().iter().all(|v| *v == 200_u8))
}

#[test]
fn resize() {
    let mut buffer = SimpleBuffer::new(PhysicalSize::new(1, 1));
    buffer.resize(PhysicalSize::new(1, 2));

    let s = buffer.to_string();

    assert_eq!("SimpleBuffer (1x2): [[0, 0, 0, 0][0, 0, 0, 0]]", s);
}

#[test]
#[should_panic(expected = "feed the `buffer()` somewhere that can render")]
fn render() {
    let buffer = SimpleBuffer::new(PhysicalSize::new(1, 2));

    buffer.render().unwrap()
}

#[test]
fn render_says_why_it_cannot() {
    let buffer = SimpleBuffer::new(PhysicalSize::new(1, 2));
    let message = buffer.render().unwrap_err();
    assert!(message.starts_with("SimpleBuffer tries to render, but it cannot do that."));
    assert!(message.ends_with("implement your own Buffer."));
}

#[test]
fn get_pixel_beyond_the_buffer() {
    let buffer = SimpleBuffer::new(PhysicalSize::new(1, 2));
    assert_eq!(
        buffer.get_pixel(0, 2),
        Err(String::from(
            "Index out of bounds. Buffer is only 8 bytes big, but index is 8"
        ))
    );
    assert_eq!(
        buffer.get_pixel(1, 1),
        Err(String::from(
            "Index out of bounds. Buffer is only 8 bytes big, but index is 8"
        ))
    );
    assert_eq!(buffer.get_pixel(0, 1), Ok([0, 0, 0, 0]));
    assert!(buffer.get_pixel(usize::MAX, usize::MAX).is_err());
}

#[test]
fn clear_repeats_the_four_bytes() {
    let mut buffer = SimpleBuffer::new(PhysicalSize::new(2, 1));
    buffer.clear([1, 2, 3, 4]);
    assert_eq!(buffer.buffer().to_vec(), vec![1, 2, 3, 4, 1, 2, 3, 4]);
    assert_eq!(buffer.to_string(), "SimpleBuffer (2x1): [[1, 2, 3, 4][1, 2, 3, 4]]");
}

#[test]
fn empty_buffer() {
    let mut buffer = SimpleBuffer::new(PhysicalSize::new(0, 5));
    assert_eq!(buffer.buffer().len(), 0);
    assert_eq!(buffer.to_string(), "SimpleBuffer (0x5): []");
}
