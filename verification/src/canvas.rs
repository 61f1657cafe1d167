use vstd::prelude::*;

use crate::buffer::Buffer;
use crate::buffer::SimpleBuffer;
use crate::color::Color;
use crate::position::Position;
use crate::PhysicalSize;

verus! {

/// The index of the first byte of the pixel in column `x` of row `y`, in a
/// buffer whose rows hold `buffer_width` pixels.
pub open spec fn pixel_index(x: int, y: int, buffer_width: int) -> int {
    (buffer_width * y + x) * 4
}

/// The four bytes that a pixel holds after `color` was painted on it. An
/// opaque colour replaces what was there; any other is laid over it as
/// [`Color::spec_blend`] says.
pub open spec fn paint(color: Seq<u8>, under: Seq<u8>) -> Seq<u8> {
    if color[3] != 255 {
        Color::RGBA(color[0], color[1], color[2], color[3]).spec_blend(
            &Color::RGBA(under[0], under[1], under[2], under[3]),
        ).channels()
    } else {
        color
    }
}

/// The bytes after `color` was painted on the pixel that starts at `index`.
pub open spec fn painted(bytes: Seq<u8>, index: int, color: Seq<u8>) -> Seq<u8> {
    Seq::new(
        bytes.len(),
        |i: int|
            if index <= i < index + 4 {
                paint(color, bytes.subrange(index, index + 4))[i - index]
            } else {
                bytes[i]
            },
    )
}

/// The quotient `n / d` rounded to the nearest whole number, a half away from
/// zero.
pub open spec fn round_div(n: int, d: int) -> int {
    if n >= 0 {
        (2 * n + d) / (2 * d)
    } else {
        -((2 * (-n) + d) / (2 * d))
    }
}

/// The two ends of a line in the order in which it is drawn: from left to
/// right, and a vertical line from its lower end upwards.
pub open spec fn drawn_from(start: Position, end: Position) -> (Position, Position) {
    let (from, to) = if start.x > end.x {
        (end, start)
    } else {
        (start, end)
    };
    if from.x == to.x && to.y > from.y {
        (to, from)
    } else {
        (from, to)
    }
}

/// The row that the line from `from` to `to` reaches in column `x`: the row
/// of `from` plus the rise up to this column, rounded. For a vertical line it
/// is row zero, from which the column is then cut to the line.
pub open spec fn row_at(from: Position, to: Position, x: int) -> int {
    if from.x == to.x {
        0
    } else {
        from.y + round_div((x - from.x) * (to.y - from.y), to.x - from.x)
    }
}

/// The lowest and the highest row that the line paints in column `x`. The
/// column takes the rows between the row reached in the column before and
/// the row reached in this one, without the row that the column before has
/// painted already, and none beyond the line's ends or the last row.
pub open spec fn rows_at(from: Position, to: Position, height: int, x: int) -> (int, int) {
    let before = if x == from.x {
        from.y as int
    } else {
        row_at(from, to, x - 1)
    };
    let here = row_at(from, to, x);
    let (low, high) = if before > here {
        (here, before)
    } else {
        (before, here)
    };
    let falling = to.y < from.y;
    let (low, high) = if high > low && x != from.x {
        if falling {
            (low, high - 1)
        } else {
            (low + 1, high)
        }
    } else {
        (low, high)
    };
    let (least, most) = if from.y > to.y {
        (to.y as int, if from.y < height - 1 {
            from.y as int
        } else {
            height - 1
        })
    } else {
        (from.y as int, if to.y < height - 1 {
            to.y as int
        } else {
            height - 1
        })
    };
    (if low > least {
        low
    } else {
        least
    }, if high < most {
        high
    } else {
        most
    })
}

/// The line from `start` to `end` paints the pixel in column `x` of row `y`
/// of a surface of the given size.
pub open spec fn on_line(
    start: Position,
    end: Position,
    size: PhysicalSize<u32>,
    x: int,
    y: int,
) -> bool {
    let (from, to) = drawn_from(start, end);
    &&& from.x <= x <= to.x
    &&& x <= size.width - 1
    &&& rows_at(from, to, size.height as int, x).0 <= y <= rows_at(
        from,
        to,
        size.height as int,
        x,
    ).1
}

/// The bytes after the line from `start` to `end` was drawn with `color`:
/// the colour is painted on every pixel of the line, see [`paint`], and all
/// other pixels are as before.
pub open spec fn with_line(
    bytes: Seq<u8>,
    size: PhysicalSize<u32>,
    start: Position,
    end: Position,
    color: Seq<u8>,
) -> Seq<u8> {
    Seq::new(
        bytes.len(),
        |i: int|
            if on_line(start, end, size, (i / 4) % (size.width as int), (i / 4) / (
            size.width as int)) {
                paint(color, bytes.subrange(i / 4 * 4, i / 4 * 4 + 4))[i % 4]
            } else {
                bytes[i]
            },
    )
}

/// The bytes while a line is drawn: as [`with_line`], but only the pixels
/// before column `x`, and those of column `x` before row `y`, are painted.
pub open spec fn with_line_up_to(
    bytes: Seq<u8>,
    size: PhysicalSize<u32>,
    start: Position,
    end: Position,
    color: Seq<u8>,
    x: int,
    y: int,
) -> Seq<u8> {
    Seq::new(
        bytes.len(),
        |i: int|
            {
                let column = (i / 4) % (size.width as int);
                let row = (i / 4) / (size.width as int);
                if on_line(start, end, size, column, row) && (column < x || (column == x && row
                    < y)) {
                    paint(color, bytes.subrange(i / 4 * 4, i / 4 * 4 + 4))[i % 4]
                } else {
                    bytes[i]
                }
            },
    )
}

/// A surface of pixels that can be drawn on, with positions of type `T`.
pub trait Drawable<T> {
    fn set_draw_color(&mut self, color: Color);

    fn set_fill_color(&mut self, color: Color);

    fn get_width(&self) -> u32;

    fn get_height(&self) -> u32;

    fn render(&self) -> Result<(), String>;

    fn clear(&mut self, clear_value: [u8; 4]);

    /// The surface has a pixel at `position`.
    open spec fn holds(&self, position: &T) -> bool {
        arbitrary()
    }

    fn set_pixel(&mut self, position: &T, color: &Color)
        requires
            old(self).holds(position),
    ;

    /// The surface has pixels to draw on.
    open spec fn can_draw(&self) -> bool {
        arbitrary()
    }

    /// Draws the line between the two positions, as far as it lies on the
    /// surface.
    fn draw_line(&mut self, start: &T, end: &T)
        requires
            old(self).can_draw(),
    ;
}

/// Pixels in a buffer, with the colours to draw and to fill with.
pub struct Canvas<B: Buffer> {
    size: PhysicalSize<u32>,
    buffer: Box<B>,
    draw_color: Color,
    fill_color: Color,
}

impl Canvas<SimpleBuffer> {
    /// A canvas of the given size on a `SimpleBuffer`: all bytes zero, black
    /// to draw with and white to fill with.
    pub fn new_with_simplebuffer(buffer_size: PhysicalSize<u32>) -> (canvas: Self)
        requires
            crate::buffer::byte_len(buffer_size) <= u32::MAX,
        ensures
            canvas.wf(),
            canvas.size() == buffer_size,
            canvas.bytes() == crate::buffer::blank(crate::buffer::byte_len(buffer_size) as nat),
            canvas.draw_color() == Color::RGBA(0, 0, 0, 255),
            canvas.fill_color() == Color::RGBA(255, 255, 255, 255),
    {
        let buffer = Box::new(SimpleBuffer::new(buffer_size));
        Self::new_from_buffer(buffer_size, buffer)
    }
}

impl<B: Buffer> Canvas<B> {
    /// The buffer that the canvas draws into.
    pub closed spec fn spec_buffer(&self) -> B {
        *self.buffer
    }

    /// The bytes of the canvas: four for each pixel, row after row.
    pub closed spec fn bytes(&self) -> Seq<u8> {
        self.buffer.bytes()
    }

    pub closed spec fn size(&self) -> PhysicalSize<u32> {
        self.size
    }

    pub closed spec fn draw_color(&self) -> Color {
        self.draw_color
    }

    pub closed spec fn fill_color(&self) -> Color {
        self.fill_color
    }

    /// The buffer has the bytes of the canvas's size.
    pub open spec fn wf(&self) -> bool {
        self.bytes().len() == crate::buffer::byte_len(self.size()) && self.bytes().len()
            <= u32::MAX
    }

    /// A canvas of the given size on `buffer`, black to draw with and white
    /// to fill with.
    pub fn new_from_buffer(buffer_size: PhysicalSize<u32>, buffer: Box<B>) -> (canvas: Self)
        ensures
            canvas.size() == buffer_size,
            canvas.bytes() == buffer.bytes(),
            canvas.wf() <==> buffer.bytes().len() == crate::buffer::byte_len(buffer_size)
                && buffer.bytes().len() <= u32::MAX,
            canvas.draw_color() == Color::RGBA(0, 0, 0, 255),
            canvas.fill_color() == Color::RGBA(255, 255, 255, 255),
    {
        proof {
            reveal_strlit("black");
            reveal_strlit("white");
            reveal_strlit("red");
            reveal_strlit("blue");
            reveal_strlit("green");
            reveal_strlit("purple");
            reveal_strlit("whine_red");
            assert("white"@[0] != "black"@[0]);
        }
        Self {
            size: buffer_size,
            buffer,
            draw_color: Color::from_str("black"),
            fill_color: Color::from_str("white"),
        }
    }

    /// The buffer of the canvas.
    pub fn buffer(&self) -> (buffer: &B)
        ensures
            *buffer == self.spec_buffer(),
            buffer.bytes() == self.bytes(),
    {
        &*self.buffer
    }

    /// The bytes of the canvas, to read and to write.
    pub fn as_slice(&mut self) -> (bytes: &mut [u8])
        ensures
            bytes@ == old(self).bytes(),
            final(self).bytes() == final(bytes)@,
            final(self).size() == old(self).size(),
            final(self).draw_color() == old(self).draw_color(),
            final(self).fill_color() == old(self).fill_color(),
    {
        self.buffer.buffer()
    }

    /// Paints `color` on the pixel in column `x` of row `y` of a buffer whose
    /// rows hold `buffer_width` pixels.
    pub fn fill_pixel(buffer: &mut [u8], x: u32, y: u32, buffer_width: u32, color: [u8; 4])
        requires
            pixel_index(x as int, y as int, buffer_width as int) + 4 <= old(buffer)@.len(),
            pixel_index(x as int, y as int, buffer_width as int) + 4 <= u32::MAX,
        ensures
            final(buffer)@ == painted(
                old(buffer)@,
                pixel_index(x as int, y as int, buffer_width as int),
                color@,
            ),
    {
        assert(buffer_width * y >= 0 && buffer_width * y + x <= (buffer_width * y + x) * 4)
            by (nonlinear_arith)
            requires
                buffer_width >= 0,
                y >= 0,
                x >= 0,
        ;
        let index = ((buffer_width * y + x) * 4) as usize;
        let mixed = if color[3] != 255 {
            let below = [buffer[index], buffer[index + 1], buffer[index + 2], buffer[index + 3]];
            Color::rgba_from_slice(&color).blend(&Color::rgba_from_slice(&below)).to_slice()
        } else {
            color
        };
        buffer[index] = mixed[0];
        buffer[index + 1] = mixed[1];
        buffer[index + 2] = mixed[2];
        buffer[index + 3] = mixed[3];
        assert(mixed@ =~= paint(color@, old(buffer)@.subrange(index as int, index + 4)));
        assert(buffer@ =~= painted(old(buffer)@, index as int, color@));
    }

    /// Gives the canvas the size `buffer_size`.
    pub fn resize(&mut self, buffer_size: PhysicalSize<u32>)
        requires
            crate::buffer::byte_len(buffer_size) <= u32::MAX,
        ensures
            final(self).wf(),
            final(self).size() == buffer_size,
            final(self).draw_color() == old(self).draw_color(),
            final(self).fill_color() == old(self).fill_color(),
    {
        self.size = buffer_size;
        self.buffer.resize(buffer_size)
    }

    pub fn get_draw_color(&self) -> (color: Color)
        ensures
            color == self.draw_color(),
    {
        self.draw_color.clone()
    }

    pub fn get_fill_color(&self) -> (color: Color)
        ensures
            color == self.fill_color(),
    {
        self.fill_color.clone()
    }
}

impl<B: Buffer> Drawable<Position> for Canvas<B> {
    fn set_draw_color(&mut self, color: Color)
        ensures
            final(self).draw_color() == color,
            final(self).fill_color() == old(self).fill_color(),
            final(self).size() == old(self).size(),
            final(self).bytes() == old(self).bytes(),
    {
        self.draw_color = color
    }

    fn set_fill_color(&mut self, color: Color)
        ensures
            final(self).fill_color() == color,
            final(self).draw_color() == old(self).draw_color(),
            final(self).size() == old(self).size(),
            final(self).bytes() == old(self).bytes(),
    {
        self.fill_color = color
    }

    /// What the buffer answers to `render`: the canvas hands on the answer
    /// of its own buffer, whatever this kind of buffer may answer.
    fn render(&self) -> (shown: Result<(), String>)
        ensures
            call_ensures(B::render, (&self.spec_buffer(),), shown),
    {
        self.buffer.render()
    }

    /// The canvas is as large as its buffer, and `position` lies on it.
    open spec fn holds(&self, position: &Position) -> bool {
        self.wf() && position.x < self.size().width && position.y < self.size().height
    }

    /// Paints `color` on the pixel at `position`, see [`painted`].
    fn set_pixel(&mut self, position: &Position, color: &Color)
        ensures
            final(self).bytes() == painted(
                old(self).bytes(),
                pixel_index(position.x as int, position.y as int, old(self).size().width as int),
                color.channels(),
            ),
            final(self).size() == old(self).size(),
            final(self).draw_color() == old(self).draw_color(),
            final(self).fill_color() == old(self).fill_color(),
    {
        proof {
            lemma_pixel_in_buffer(
                position.x as int,
                position.y as int,
                self.size.width as int,
                self.size.height as int,
            );
        }
        let buffer_width = self.size.width;
        Self::fill_pixel(
            self.buffer.buffer(),
            position.x,
            position.y,
            buffer_width,
            color.to_slice(),
        )
    }

    fn get_width(&self) -> (width: u32)
        ensures
            width == self.size().width,
    {
        self.size.width
    }

    fn get_height(&self) -> (height: u32)
        ensures
            height == self.size().height,
    {
        self.size.height
    }

    /// The canvas is as large as its buffer and has a pixel.
    open spec fn can_draw(&self) -> bool {
        self.wf() && self.size().width > 0 && self.size().height > 0
    }

    /// Draws the line between the two positions with the colour to draw
    /// with, as far as it lies on the canvas, see [`with_line`].
    #[verifier::spinoff_prover]
    fn draw_line(&mut self, start: &Position, end: &Position)
        ensures
            final(self).bytes() == with_line(
                old(self).bytes(),
                old(self).size(),
                *start,
                *end,
                old(self).draw_color().channels(),
            ),
            final(self).size() == old(self).size(),
            final(self).draw_color() == old(self).draw_color(),
            final(self).fill_color() == old(self).fill_color(),
    {
        let size = self.size;
        let width = self.size.width - 1;
        let height = self.size.height - 1;
        let color = self.draw_color.to_slice();
        let buffer = self.buffer.buffer();
        let ghost before = buffer@;
        let ghost tint = color@;
        let ghost first = *start;
        let ghost second = *end;

        let (start, end) = if start.x > end.x {
            (*end, *start)
        } else {
            (*start, *end)
        };
        let (start, end) = if start.x == end.x && end.y > start.y {
            (end, start)
        } else {
            (start, end)
        };
        assert(drawn_from(first, second) == (start, end));
        let falling = end.y < start.y;
        let mut last_y: u32 = start.y;

        let (y_min, y_max) = if start.y > end.y {
            (end.y, if start.y < height {
                start.y
            } else {
                height
            })
        } else {
            (start.y, if end.y < height {
                end.y
            } else {
                height
            })
        };
        let x_last: u32 = if end.x < width {
            end.x
        } else {
            width
        };
        assert(with_line_up_to(before, size, first, second, tint, start.x as int, 0) =~= before);
        let mut x: u32 = start.x;
        while x <= x_last
            invariant
                size.width > 0,
                size.height > 0,
                width == size.width - 1,
                height == size.height - 1,
                before.len() == size.width * size.height * 4,
                before.len() <= u32::MAX,
                buffer@.len() == before.len(),
                tint == color@,
                drawn_from(first, second) == (start, end),
                falling == (end.y < start.y),
                start.x <= end.x,
                x_last <= width,
                x_last <= end.x,
                x_last == end.x || x_last == width,
                start.x <= x,
                x <= x_last + 1 || x == start.x,
                y_max <= height,
                (y_min as int, y_max as int) == (if start.y > end.y {
                    (end.y as int, if start.y < height {
                        start.y as int
                    } else {
                        height as int
                    })
                } else {
                    (start.y as int, if end.y < height {
                        end.y as int
                    } else {
                        height as int
                    })
                }),
                last_y == (if x == start.x {
                    start.y as int
                } else {
                    row_at(start, end, x - 1)
                }),
                buffer@ == with_line_up_to(before, size, first, second, tint, x as int, 0),
            decreases x_last + 1 - x,
        {
            let here: u32 = row_reached(&start, &end, x);
            let (low, high) = if last_y > here {
                (here, last_y)
            } else {
                (last_y, here)
            };
            let (low, high) = if high > low && x != start.x {
                if falling {
                    (low, high - 1)
                } else {
                    (low + 1, high)
                }
            } else {
                (low, high)
            };
            let y_first: u32 = if low > y_min {
                low
            } else {
                y_min
            };
            let y_last: u32 = if high < y_max {
                high
            } else {
                y_max
            };
            assert((y_first as int, y_last as int) == rows_at(start, end, size.height as int, x as int));
            assert(buffer@ =~= with_line_up_to(
                before,
                size,
                first,
                second,
                tint,
                x as int,
                y_first as int,
            ));
            let mut y: u32 = y_first;
            while y <= y_last
                invariant
                    size.width > 0,
                    size.height > 0,
                    width == size.width - 1,
                    height == size.height - 1,
                    before.len() == size.width * size.height * 4,
                    before.len() <= u32::MAX,
                    buffer@.len() == before.len(),
                    tint == color@,
                    drawn_from(first, second) == (start, end),
                    start.x <= x <= x_last,
                    x_last <= width,
                    x_last <= end.x,
                    y_last <= height,
                    (y_first as int, y_last as int) == rows_at(
                        start,
                        end,
                        size.height as int,
                        x as int,
                    ),
                    y_first <= y,
                    y <= y_last + 1 || y == y_first,
                    buffer@ == with_line_up_to(
                        before,
                        size,
                        first,
                        second,
                        tint,
                        x as int,
                        y as int,
                    ),
                decreases y_last + 1 - y,
            {
                proof {
                    lemma_pixel_in_buffer(
                        x as int,
                        y as int,
                        size.width as int,
                        size.height as int,
                    );
                }
                let ghost earlier = buffer@;
                Self::fill_pixel(buffer, x, y, size.width, color);
                proof {
                    let index = pixel_index(x as int, y as int, size.width as int);
                    let later = with_line_up_to(
                        before,
                        size,
                        first,
                        second,
                        tint,
                        x as int,
                        y + 1,
                    );
                    assert(on_line(first, second, size, x as int, y as int));
                    assert forall|i: int| 0 <= i < before.len() implies #[trigger] buffer@[i]
                        == later[i] by {
                        lemma_pixel_of_byte(i, x as int, y as int, size.width as int);
                        if index <= i < index + 4 {
                            assert(earlier.subrange(index, index + 4) =~= before.subrange(
                                index,
                                index + 4,
                            )) by {
                                assert forall|k: int| index <= k < index + 4 implies earlier[k]
                                    == before[k] by {
                                    lemma_pixel_of_byte(k, x as int, y as int, size.width as int);
                                }
                            }
                        }
                    }
                    assert(buffer@ =~= later);
                }
                y = y + 1;
            }
            assert(buffer@ =~= with_line_up_to(before, size, first, second, tint, x + 1, 0));
            last_y = here;
            x = x + 1;
        }
        assert(buffer@ =~= with_line(before, size, first, second, tint));
    }

    /// Sets every pixel of the canvas to `clear_value`.
    fn clear(&mut self, clear_value: [u8; 4])
        ensures
            final(self).bytes() == crate::buffer::cleared(old(self).bytes().len(), clear_value),
            final(self).size() == old(self).size(),
            final(self).draw_color() == old(self).draw_color(),
            final(self).fill_color() == old(self).fill_color(),
    {
        self.buffer.clear(clear_value)
    }
}

/// The four bytes of a pixel of a buffer lie inside the buffer.
pub proof fn lemma_pixel_in_buffer(x: int, y: int, width: int, height: int)
    requires
        0 <= x < width,
        0 <= y < height,
    ensures
        0 <= pixel_index(x, y, width),
        pixel_index(x, y, width) + 4 <= width * height * 4,
{
    assert(0 <= width * y + x && width * y + x + 1 <= width * height) by (nonlinear_arith)
        requires
            0 <= x < width,
            0 <= y < height,
    ;
}

/// The byte `i` belongs to the pixel in column `x` of row `y` exactly if it
/// is one of the four bytes from that pixel's index on.
pub proof fn lemma_pixel_of_byte(i: int, x: int, y: int, width: int)
    requires
        0 <= i,
        0 <= x < width,
        0 <= y,
    ensures
        pixel_index(x, y, width) <= i < pixel_index(x, y, width) + 4 <==> (i / 4) % width == x && (
        i / 4) / width == y,
        pixel_index(x, y, width) <= i < pixel_index(x, y, width) + 4 ==> i / 4 * 4 == pixel_index(
            x,
            y,
            width,
        ) && i % 4 == i - pixel_index(x, y, width),
{
    let pixel = i / 4;
    let index = pixel_index(x, y, width);
    vstd::arithmetic::div_mod::lemma_fundamental_div_mod(pixel, width);
    vstd::arithmetic::div_mod::lemma_mod_bound(pixel, width);
    if index <= i < index + 4 {
        assert(pixel == width * y + x);
        vstd::arithmetic::div_mod::lemma_fundamental_div_mod_converse(pixel, width, y, x);
    }
    if pixel % width == x && pixel / width == y {
        assert(pixel == width * y + x);
    }
}

/// The rounded quotient of a part of the rise is no larger than the rise.
proof fn lemma_round_div_bound(step: int, rise: int, run: int)
    requires
        0 <= step <= run,
        0 < run,
    ensures
        rise >= 0 ==> 0 <= round_div(step * rise, run) <= rise,
        rise < 0 ==> rise <= round_div(step * rise, run) <= 0,
{
    let size = if rise >= 0 {
        rise
    } else {
        -rise
    };
    let n = step * size;
    assert(0 <= n <= run * size) by (nonlinear_arith)
        requires
            n == step * size,
            0 <= step <= run,
            size >= 0,
    ;
    let q = (2 * n + run) / (2 * run);
    assert(0 <= q <= size) by (nonlinear_arith)
        requires
            q == (2 * n + run) / (2 * run),
            0 <= n <= run * size,
            run > 0,
            size >= 0,
    ;
    if rise >= 0 {
        assert(step * rise == n);
    } else {
        assert(step * rise == -n) by (nonlinear_arith)
            requires
                n == step * size,
                size == -rise,
        ;
        if n == 0 {
            assert(round_div(0, run) == 0) by (nonlinear_arith)
                requires
                    run > 0,
            ;
        }
    }
}

/// The row that the line from `from` to `to` reaches in column `x`.
fn row_reached(from: &Position, to: &Position, x: u32) -> (row: u32)
    requires
        from.x <= x <= to.x,
    ensures
        row == row_at(*from, *to, x as int),
{
    if from.x == to.x {
        0
    } else {
        let run: i128 = to.x as i128 - from.x as i128;
        let rise: i128 = to.y as i128 - from.y as i128;
        let step: i128 = x as i128 - from.x as i128;
        proof {
            lemma_round_div_bound(step as int, rise as int, run as int);
            assert(-0x1_0000_0000 * 0x1_0000_0000 <= step * rise <= 0x1_0000_0000 * 0x1_0000_0000)
                by (nonlinear_arith)
                requires
                    0 <= step <= 0xffff_ffff,
                    -0xffff_ffff <= rise <= 0xffff_ffff,
            ;
        }
        let part: i128 = step * rise;
        let rounded: i128 = if part >= 0 {
            (2 * part + run) / (2 * run)
        } else {
            -((2 * (-part) + run) / (2 * run))
        };
        (from.y as i128 + rounded) as u32
    }
}

} // verus!
