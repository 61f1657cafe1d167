use vstd::prelude::*;
use vstd::string::StringExecFns;

use crate::text::push_decimal;
use crate::PhysicalSize;

verus! {

/// The bytes after every pixel was set to `clear_value`: its four bytes,
/// again and again.
pub open spec fn cleared(len: nat, clear_value: [u8; 4]) -> Seq<u8> {
    Seq::new(len, |i: int| clear_value[i % 4])
}

/// `len` bytes of zero.
pub open spec fn blank(len: nat) -> Seq<u8> {
    Seq::new(len, |i: int| 0u8)
}

/// The number of bytes of a buffer of the given size: four for each pixel.
pub open spec fn byte_len(buffer_size: PhysicalSize<u32>) -> int {
    buffer_size.width * buffer_size.height * 4
}

/// The memory that a canvas draws into: four bytes for each pixel, row after
/// row.
pub trait Buffer {
    /// The bytes of the buffer. An implementation says what they are; one
    /// that is not verified need not, and nothing is known of its bytes.
    open spec fn bytes(&self) -> Seq<u8> {
        arbitrary()
    }

    /// The bytes of the buffer, to read and to write.
    fn buffer(&mut self) -> (bytes: &mut [u8])
        ensures
            bytes@ == old(self).bytes(),
            final(self).bytes() == final(bytes)@,
    ;

    /// Sets every pixel to `clear_value`.
    fn clear(&mut self, clear_value: [u8; 4])
        ensures
            final(self).bytes() == cleared(old(self).bytes().len(), clear_value),
    {
        let bytes = self.buffer();
        let len = bytes.len();
        let mut i: usize = 0;
        while i < len
            invariant
                bytes@.len() == len,
                i <= len,
                forall|j: int| 0 <= j < i ==> bytes@[j] == clear_value[j % 4],
            decreases len - i,
        {
            bytes[i] = clear_value[i % 4];
            i += 1;
        }
        assert(bytes@ =~= cleared(len as nat, clear_value));
    }

    /// Gives the buffer the bytes for `buffer_size`.
    fn resize(&mut self, buffer_size: PhysicalSize<u32>)
        requires
            byte_len(buffer_size) <= u32::MAX,
        ensures
            final(self).bytes().len() == byte_len(buffer_size),
    ;

    /// Shows what the buffer holds, or says why that cannot be done.
    fn render(&self) -> (shown: Result<(), String>);
}

/// A buffer that only holds its bytes.
pub struct SimpleBuffer {
    width: u32,
    height: u32,
    buffer: Vec<u8>,
}

/// The text of the bytes from `from` on, four to a pixel: `[0, 0, 0, 0]` for
/// each pixel, and the bytes that are left over in brackets of their own.
pub open spec fn pixels_text(bytes: Seq<u8>, from: int) -> Seq<char>
    decreases bytes.len() + 4 - from,
{
    if from >= bytes.len() || from < 0 {
        Seq::empty()
    } else {
        "["@ + bytes_text(bytes, from, from + 4) + "]"@ + pixels_text(bytes, from + 4)
    }
}

/// The text of the bytes between `from` and `to`, with a comma and a blank
/// between two of them.
pub open spec fn bytes_text(bytes: Seq<u8>, from: int, to: int) -> Seq<char>
    decreases to - from,
{
    if from >= to || from >= bytes.len() || from < 0 {
        Seq::empty()
    } else if from + 1 >= to || from + 1 >= bytes.len() {
        crate::text::decimal(bytes[from] as nat)
    } else {
        crate::text::decimal(bytes[from] as nat) + ", "@ + bytes_text(bytes, from + 1, to)
    }
}

/// What `render` of a `SimpleBuffer` answers.
pub open spec fn cannot_render() -> Seq<char> {
    "SimpleBuffer tries to render, but it cannot do that. This is only a SimpleBuffer to hold data. If you want to render it, feed the `buffer()` somewhere that can render or implement your own Buffer."@
}

impl SimpleBuffer {
    pub closed spec fn width(&self) -> u32 {
        self.width
    }

    pub closed spec fn height(&self) -> u32 {
        self.height
    }

    /// The buffer for `buffer_size`, all bytes zero.
    pub fn new(buffer_size: PhysicalSize<u32>) -> (buffer: Self)
        requires
            byte_len(buffer_size) <= u32::MAX,
        ensures
            buffer.width() == buffer_size.width,
            buffer.height() == buffer_size.height,
            buffer.bytes() == blank(byte_len(buffer_size) as nat),
    {
        let buffer = Self {
            width: buffer_size.width,
            height: buffer_size.height,
            buffer: zeroes(buffer_size),
        };
        buffer
    }

    /// The index of the first byte of the pixel in column `x` of row `y`.
    pub open spec fn pixel_index(&self, x: usize, y: usize) -> int {
        (self.width() * y + x) * 4
    }

    /// The four bytes of the pixel in column `x` of row `y`, or the reason
    /// why there is no such pixel.
    pub fn get_pixel(&self, x: usize, y: usize) -> (pixel: Result<[u8; 4], String>)
        ensures
            self.pixel_index(x, y) + 4 <= self.bytes().len() ==> pixel is Ok && pixel->Ok_0@
                == self.bytes().subrange(self.pixel_index(x, y), self.pixel_index(x, y) + 4),
            self.pixel_index(x, y) + 4 > self.bytes().len() ==> pixel is Err && pixel->Err_0@
                == "Index out of bounds. Buffer is only "@ + crate::text::decimal(
                (self.width() * self.height() * 4) as nat,
            ) + " bytes big, but index is "@ + crate::text::decimal(self.pixel_index(x, y) as nat),
    {
        assert(self.width * y <= 0xffff_ffff * 0xffff_ffff_ffff_ffff) by (nonlinear_arith)
            requires
                self.width <= 0xffff_ffff,
                y <= 0xffff_ffff_ffff_ffff,
        ;
        let index: u128 = (self.width as u128 * y as u128 + x as u128) * 4;
        if index + 4 <= self.buffer.len() as u128 {
            let first = index as usize;
            let pixel = [
                self.buffer[first],
                self.buffer[first + 1],
                self.buffer[first + 2],
                self.buffer[first + 3],
            ];
            assert(pixel@ =~= self.bytes().subrange(
                self.pixel_index(x, y),
                self.pixel_index(x, y) + 4,
            ));
            Ok(pixel)
        } else {
            assert(self.width * self.height <= 0xffff_ffff * 0xffff_ffff) by (nonlinear_arith)
                requires
                    self.width <= 0xffff_ffff,
                    self.height <= 0xffff_ffff,
            ;
            let mut message = String::from_str("Index out of bounds. Buffer is only ");
            push_decimal(&mut message, self.width as u128 * self.height as u128 * 4);
            message.append(" bytes big, but index is ");
            push_decimal(&mut message, index);
            Err(message)
        }
    }

    /// The buffer as text: its size, then the bytes of every pixel.
    pub open spec fn text(&self) -> Seq<char> {
        "SimpleBuffer ("@ + crate::text::decimal(self.width() as nat) + "x"@
            + crate::text::decimal(self.height() as nat) + "): ["@ + pixels_text(self.bytes(), 0)
            + "]"@
    }

    #[verifier::spinoff_prover]
    pub fn to_string(&self) -> (text: String)
        ensures
            text@ == self.text(),
    {
        let mut text = String::from_str("SimpleBuffer (");
        push_decimal(&mut text, self.width as u128);
        text.append("x");
        push_decimal(&mut text, self.height as u128);
        text.append("): [");
        let ghost head = text@;
        let len = self.buffer.len();
        let mut from: usize = 0;
        while from < len
            invariant
                len == self.buffer@.len(),
                from <= len || from - len < 4,
                text@ + pixels_text(self.buffer@, from as int) == head + pixels_text(
                    self.buffer@,
                    0,
                ),
            decreases len + 4 - from,
        {
            let ghost before = text@;
            text.append("[");
            let mut at: usize = from;
            let to: usize = if len - from < 4 {
                len
            } else {
                from + 4
            };
            while at < to
                invariant
                    len == self.buffer@.len(),
                    from <= at <= to <= len,
                    to <= from + 4,
                    to == from + 4 || to == len,
                    at == from ==> text@ == before + "["@,
                    text@ + (if at == from || at >= to {
                        Seq::<char>::empty()
                    } else {
                        ", "@
                    }) + bytes_text(self.buffer@, at as int, from + 4) == before + "["@
                        + bytes_text(self.buffer@, from as int, from + 4),
                decreases to - at,
            {
                if at > from {
                    text.append(", ");
                }
                push_decimal(&mut text, self.buffer[at] as u128);
                proof {
                    let rest = bytes_text(self.buffer@, at as int, from + 4);
                    let own = crate::text::decimal(self.buffer@[at as int] as nat);
                    if at + 1 < to {
                        assert(rest == own + ", "@ + bytes_text(
                            self.buffer@,
                            at + 1,
                            from + 4,
                        ));
                    } else {
                        assert(rest == own);
                        assert(bytes_text(self.buffer@, at + 1, from + 4) =~= Seq::<char>::empty());
                    }
                    assert(text@ + (if at + 1 >= to {
                        Seq::<char>::empty()
                    } else {
                        ", "@
                    }) + bytes_text(self.buffer@, at + 1, from + 4) =~= before + "["@ + bytes_text(
                        self.buffer@,
                        from as int,
                        from + 4,
                    ));
                }
                at += 1;
            }
            text.append("]");
            proof {
                assert(bytes_text(self.buffer@, to as int, from + 4) =~= Seq::<char>::empty());
                assert(text@ =~= before + "["@ + bytes_text(self.buffer@, from as int, from + 4)
                    + "]"@);
                assert(pixels_text(self.buffer@, from as int) == "["@ + bytes_text(
                    self.buffer@,
                    from as int,
                    from + 4,
                ) + "]"@ + pixels_text(self.buffer@, from + 4));
                assert(text@ + pixels_text(self.buffer@, from + 4) =~= before + pixels_text(
                    self.buffer@,
                    from as int,
                ));
            }
            from = if len - from < 4 {
                len
            } else {
                from + 4
            };
            proof {
                assert(pixels_text(self.buffer@, len as int) =~= Seq::<char>::empty());
            }
        }
        proof {
            assert(pixels_text(self.buffer@, from as int) =~= Seq::<char>::empty());
            assert(text@ =~= head + pixels_text(self.buffer@, 0));
        }
        text.append("]");
        text
    }
}

/// The zero bytes of a buffer of the given size.
fn zeroes(buffer_size: PhysicalSize<u32>) -> (bytes: Vec<u8>)
    requires
        byte_len(buffer_size) <= u32::MAX,
    ensures
        bytes@ == blank(byte_len(buffer_size) as nat),
{
    assert(buffer_size.width * buffer_size.height <= u32::MAX) by (nonlinear_arith)
        requires
            buffer_size.width * buffer_size.height * 4 <= u32::MAX,
            buffer_size.width >= 0,
            buffer_size.height >= 0,
    ;
    let len: usize = (buffer_size.width * buffer_size.height * 4) as usize;
    let mut bytes: Vec<u8> = Vec::new();
    let mut i: usize = 0;
    while i < len
        invariant
            i <= len,
            bytes@.len() == i,
            forall|j: int| 0 <= j < i ==> bytes@[j] == 0,
        decreases len - i,
    {
        bytes.push(0);
        i += 1;
    }
    assert(bytes@ =~= blank(len as nat));
    bytes
}

impl Buffer for SimpleBuffer {
    closed spec fn bytes(&self) -> Seq<u8> {
        self.buffer@
    }

    fn buffer(&mut self) -> (bytes: &mut [u8])
        ensures
            final(self).width() == old(self).width(),
            final(self).height() == old(self).height(),
    {
        self.buffer.as_mut_slice()
    }

    /// Gives the buffer the size `buffer_size`; all bytes are zero again.
    fn resize(&mut self, buffer_size: PhysicalSize<u32>)
        ensures
            final(self).width() == buffer_size.width,
            final(self).height() == buffer_size.height,
            final(self).bytes() == blank(byte_len(buffer_size) as nat),
    {
        self.buffer = zeroes(buffer_size);
        self.width = buffer_size.width;
        self.height = buffer_size.height;
    }

    /// A `SimpleBuffer` cannot be shown, and says so.
    fn render(&self) -> (shown: Result<(), String>)
        ensures
            shown is Err,
            shown->Err_0@ == cannot_render(),
    {
        Err(
            String::from_str(
                "SimpleBuffer tries to render, but it cannot do that. This is only a SimpleBuffer to hold data. If you want to render it, feed the `buffer()` somewhere that can render or implement your own Buffer.",
            ),
        )
    }
}

} // verus!
