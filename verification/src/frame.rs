//! The picture that a render fills: rows of colour triples, top row first.
use vstd::prelude::*;
use crate::vec3::Vec3;

verus! {

/// A picture of `width` by `height` pixels, each three bytes of red, green and
/// blue. The pixels are kept in an `image::RgbImage`.
#[verifier::external_body]
pub struct Frame {
    inner: image::RgbImage,
}

/// The rows of a frame from the top, each row its pixels from the left.
pub uninterp spec fn frame_rows(frame: Frame) -> Seq<Seq<(u8, u8, u8)>>;

/// The number of pixels in one row of a frame.
pub uninterp spec fn frame_width(frame: Frame) -> u32;

/// The bytes of rows of `width` pixels: red, green and blue of the first pixel of
/// the first row, then of the second pixel, and so on, row after row.
pub open spec fn channel_bytes(rows: Seq<Seq<(u8, u8, u8)>>, width: nat) -> Seq<u8> {
    Seq::new(
        3 * width * rows.len(),
        |i: int|
            {
                let pixel = rows[(i / 3) / (width as int)][(i / 3) % (width as int)];
                if i % 3 == 0 {
                    pixel.0
                } else if i % 3 == 1 {
                    pixel.1
                } else {
                    pixel.2
                }
            },
    )
}

/// A row of `width` black pixels.
pub open spec fn black_row(width: nat) -> Seq<(u8, u8, u8)> {
    Seq::new(width, |x: int| (0u8, 0u8, 0u8))
}

/// The three bytes that a colour becomes, channel by channel.
pub open spec fn quantized(color: Vec3) -> (u8, u8, u8) {
    (color.x.byte() as u8, color.y.byte() as u8, color.z.byte() as u8)
}

/// The pixels that a row of colours becomes.
pub open spec fn quantized_row(row: Seq<Vec3>) -> Seq<(u8, u8, u8)> {
    Seq::new(row.len(), |x: int| quantized(row[x]))
}

impl Frame {
    /// `image::ImageBuffer::new`: a picture of the given size with every channel
    /// zero. The outside function panics when the three bytes per pixel do not
    /// fit a vector, which the precondition leaves out.
    #[verifier::external_body]
    fn blank(width: u32, height: u32) -> (frame: Frame)
        requires
            3 * width * height <= isize::MAX,
        ensures
            frame_width(frame) == width,
            frame_rows(frame) == Seq::new(height as nat, |y: int| black_row(width as nat)),
    {
        Frame { inner: image::ImageBuffer::new(width, height) }
    }

    /// `image::ImageBuffer::width`.
    #[verifier::external_body]
    fn buffer_width(&self) -> (w: u32)
        ensures
            w == frame_width(*self),
    {
        self.inner.width()
    }

    /// `image::ImageBuffer::height`: the number of rows.
    #[verifier::external_body]
    fn buffer_height(&self) -> (h: u32)
        ensures
            h == frame_rows(*self).len(),
    {
        self.inner.height()
    }

    /// `image::ImageBuffer::put_pixel`: overwrites the pixel in column `x` of row
    /// `y`, counted from the top, and leaves the size and every other pixel as
    /// they were. The outside function panics outside the picture, which the
    /// precondition leaves out.
    #[verifier::external_body]
    fn put_pixel(&mut self, x: u32, y: u32, r: u8, g: u8, b: u8)
        requires
            x < frame_width(*old(self)),
            y < frame_rows(*old(self)).len(),
        ensures
            frame_width(*final(self)) == frame_width(*old(self)),
            frame_rows(*final(self)) == frame_rows(*old(self)).update(
                y as int,
                frame_rows(*old(self))[y as int].update(x as int, (r, g, b)),
            ),
    {
        self.inner.put_pixel(x, y, image::Rgb([r, g, b]))
    }

    /// `image::ImageBuffer::into_raw`: the bytes behind the picture, three per
    /// pixel in the order of the pixels.
    #[verifier::external_body]
    fn raw_bytes(self) -> (bytes: Vec<u8>)
        ensures
            bytes@ == channel_bytes(frame_rows(self), frame_width(self) as nat),
    {
        self.inner.into_raw()
    }

    /// Whether every row has `width` pixels.
    pub open spec fn wf(self) -> bool {
        forall|y: int|
            0 <= y < frame_rows(self).len() ==> (#[trigger] frame_rows(self)[y]).len() == frame_width(
                self,
            )
    }

    /// The number of rows.
    pub open spec fn rows(self) -> nat {
        frame_rows(self).len()
    }

    /// The row of the picture, counted from the top, that holds sample row `y`,
    /// counted from the bottom.
    pub open spec fn row_of(self, y: int) -> int {
        self.rows() - y - 1
    }

    /// A black picture of the given size.
    pub fn new(width: u32, height: u32) -> (frame: Frame)
        requires
            3 * width * height <= isize::MAX,
        ensures
            frame.wf(),
            frame_width(frame) == width,
            frame_rows(frame) == Seq::new(height as nat, |y: int| black_row(width as nat)),
    {
        Frame::blank(width, height)
    }

    /// The number of pixels in a row.
    pub fn width(&self) -> (w: u32)
        ensures
            w == frame_width(*self),
    {
        self.buffer_width()
    }

    /// The number of rows.
    pub fn height(&self) -> (h: u32)
        ensures
            h == self.rows(),
    {
        self.buffer_height()
    }

    /// Stores a colour at column `x` of sample row `y`. Sample rows are counted
    /// from the bottom, so the pixel lands in row `height - y - 1` of the picture.
    /// Each channel is cut down to a byte.
    pub fn put_color(&mut self, x: u32, y: u32, color: &Vec3)
        requires
            old(self).wf(),
            x < frame_width(*old(self)),
            y < old(self).rows(),
        ensures
            final(self).wf(),
            frame_width(*final(self)) == frame_width(*old(self)),
            frame_rows(*final(self)) == frame_rows(*old(self)).update(
                old(self).row_of(y as int),
                frame_rows(*old(self))[old(self).row_of(y as int)].update(
                    x as int,
                    quantized(*color),
                ),
            ),
    {
        let height: u32 = self.buffer_height();
        let row: u32 = height - y - 1;
        self.put_pixel(x, row, color.x.to_byte(), color.y.to_byte(), color.z.to_byte());
    }

    /// Stores one sample row: `row[x]` goes to column `x` of row
    /// `height - y - 1` of the picture. The other rows stay as they were.
    pub fn store_row(&mut self, y: u32, row: &Vec<Vec3>)
        requires
            old(self).wf(),
            y < old(self).rows(),
            row.len() == frame_width(*old(self)),
        ensures
            final(self).wf(),
            frame_width(*final(self)) == frame_width(*old(self)),
            frame_rows(*final(self)) == frame_rows(*old(self)).update(
                old(self).row_of(y as int),
                quantized_row(row@),
            ),
    {
        let width: u32 = self.buffer_width();
        let ghost target: int = self.row_of(y as int);
        let mut x: u32 = 0;
        proof {
            let untouched = Seq::new(
                width as nat,
                |k: int|
                    if k < x {
                        quantized(row@[k])
                    } else {
                        frame_rows(*self)[target][k]
                    },
            );
            assert(untouched == frame_rows(*self)[target]);
            assert(frame_rows(*self) == frame_rows(*self).update(target, untouched));
        }
        while x < width
            invariant
                0 <= x <= width,
                width == row.len(),
                width == frame_width(*old(self)),
                y < old(self).rows(),
                target == old(self).row_of(y as int),
                old(self).wf(),
                self.wf(),
                frame_width(*self) == width,
                frame_rows(*self) == frame_rows(*old(self)).update(
                    target,
                    Seq::new(
                        width as nat,
                        |k: int|
                            if k < x {
                                quantized(row@[k])
                            } else {
                                frame_rows(*old(self))[target][k]
                            },
                    ),
                ),
            decreases width - x,
        {
            let ghost before = frame_rows(*self);
            self.put_color(x, y, &row[x as usize]);
            proof {
                let filled = Seq::new(
                    width as nat,
                    |k: int|
                        if k < x + 1 {
                            quantized(row@[k])
                        } else {
                            frame_rows(*old(self))[target][k]
                        },
                );
                assert(before[target].update(x as int, quantized(row@[x as int])) == filled);
                assert(frame_rows(*self) == frame_rows(*old(self)).update(target, filled));
            }
            x = x + 1;
        }
        proof {
            assert(frame_rows(*self)[target] == quantized_row(row@));
            assert(frame_rows(*self) == frame_rows(*old(self)).update(target, quantized_row(row@)));
        }
    }

    /// The bytes of the picture: three per pixel, row by row from the top.
    pub fn into_raw(self) -> (bytes: Vec<u8>)
        ensures
            bytes@ == channel_bytes(frame_rows(self), frame_width(self) as nat),
    {
        self.raw_bytes()
    }
}

} // verus!
