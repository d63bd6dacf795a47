//! Camera pictures as plain bytes, and the two operations that prepare a
//! picture for the spectrum: mirroring and cutting out the window.

use crate::config::ImageConfig;
use vstd::prelude::*;

verus! {

/// A picture of `width` by `height` pixels, three bytes (red, green, blue)
/// per pixel, row after row from the top.
#[derive(Debug, PartialEq, Eq, Clone)]
pub struct RgbFrame {
    pub width: u32,
    pub height: u32,
    pub data: Vec<u8>,
}

/// Why no window could be cut from a picture.
#[derive(Debug, PartialEq, Eq, Structural, Clone, Copy)]
pub enum WindowError {
    /// The window reaches beyond the picture.
    OutOfBounds,
}

impl RgbFrame {
    /// The bytes are exactly those of `width * height` pixels.
    pub open spec fn wf(&self) -> bool {
        self.data@.len() == self.width * self.height * 3
    }

    /// The byte of one channel (0 red, 1 green, 2 blue) of the pixel in
    /// column `x` of row `y`.
    pub open spec fn channel_at(&self, x: int, y: int, channel: int) -> u8 {
        self.data@[(y * self.width + x) * 3 + channel]
    }

    /// A picture from its bytes; nothing where their number does not fit the
    /// extent.
    pub fn new(width: u32, height: u32, data: Vec<u8>) -> (frame: Option<Self>)
        ensures
            frame.is_some() <==> data@.len() == width * height * 3,
            frame.is_some() ==> frame.unwrap().wf() && frame.unwrap().width == width
                && frame.unwrap().height == height && frame.unwrap().data@ == data@,
    {
        assert(width * height <= 0xffff_ffff * 0xffff_ffff) by (nonlinear_arith)
            requires
                0 <= width <= 0xffff_ffff,
                0 <= height <= 0xffff_ffff,
        ;
        let expected: u128 = (width as u128) * (height as u128) * 3;
        if data.len() as u128 == expected {
            Some(Self { width, height, data })
        } else {
            None
        }
    }

    /// The byte of one channel of one pixel.
    pub fn get(&self, x: u32, y: u32, channel: usize) -> (value: u8)
        requires
            self.wf(),
            x < self.width,
            y < self.height,
            channel < 3,
        ensures
            value == self.channel_at(x as int, y as int, channel as int),
    {
        let len = self.data.len();
        proof {
            lemma_pixel_index(
                self.width as int,
                self.height as int,
                x as int,
                y as int,
                channel as int,
            );
            assert((y * self.width + x) * 3 + channel < len);
            assert(y * self.width <= (y * self.width + x) * 3 + channel);
        }
        let row: usize = y as usize * self.width as usize;
        let index: usize = (row + x as usize) * 3 + channel;
        self.data[index]
    }
}

/// Every byte of a pixel inside the picture lies inside the picture's bytes.
pub proof fn lemma_pixel_index(width: int, height: int, x: int, y: int, channel: int)
    requires
        0 <= x < width,
        0 <= y < height,
        0 <= channel < 3,
    ensures
        0 <= y * width <= y * width + x < width * height,
        0 <= (y * width + x) * 3 + channel < width * height * 3,
{
    assert(0 <= y * width && y * width + width <= height * width && height * width == width
        * height) by (nonlinear_arith)
        requires
            0 <= y < height,
            0 < width,
    ;
}

/// The picture mirrored left to right, by `image::imageops::flip_horizontal`.
/// Taken on trust: the result has the extent of the picture, and its pixel
/// in column `x` is the picture's pixel in column `width - 1 - x` of the same
/// row.
#[verifier::external_body]
fn flip_horizontal(frame: &RgbFrame) -> (flipped: RgbFrame)
    requires
        frame.wf(),
    ensures
        flipped.wf(),
        flipped.width == frame.width,
        flipped.height == frame.height,
        forall|x: int, y: int, c: int|
            0 <= x < frame.width && 0 <= y < frame.height && 0 <= c < 3
                ==> #[trigger] flipped.channel_at(x, y, c) == frame.channel_at(
                frame.width - 1 - x,
                y,
                c,
            ),
{
    let buffer: image::ImageBuffer<image::Rgb<u8>, Vec<u8>> = image::ImageBuffer::from_raw(
        frame.width,
        frame.height,
        frame.data.clone(),
    ).unwrap();
    let out = image::imageops::flip_horizontal(&buffer);
    RgbFrame { width: out.width(), height: out.height(), data: out.into_raw() }
}

/// `mirrored` is `frame` with left and right exchanged.
pub open spec fn is_mirror_of(mirrored: RgbFrame, frame: RgbFrame) -> bool {
    &&& mirrored.wf()
    &&& mirrored.width == frame.width
    &&& mirrored.height == frame.height
    &&& forall|x: int, y: int, c: int|
        0 <= x < frame.width && 0 <= y < frame.height && 0 <= c < 3
            ==> #[trigger] mirrored.channel_at(x, y, c) == frame.channel_at(
            frame.width - 1 - x,
            y,
            c,
        )
}

/// The picture with left and right exchanged.
pub fn mirror(frame: &RgbFrame) -> (mirrored: RgbFrame)
    requires
        frame.wf(),
    ensures
        is_mirror_of(mirrored, *frame),
{
    flip_horizontal(frame)
}

/// The rectangle of `width` by `height` pixels whose top left corner is the
/// pixel in column `x` of row `y`, by `image::GenericImageView::view` and
/// `image::SubImage::to_image`. Taken on trust: the result has the asked
/// extent, and its pixel in column `i` of row `j` is the picture's pixel in
/// column `x + i` of row `y + j`. The rectangle has to lie inside the
/// picture, as `view` stops the program where it does not.
#[verifier::external_body]
fn crop(frame: &RgbFrame, x: u32, y: u32, width: u32, height: u32) -> (window: RgbFrame)
    requires
        frame.wf(),
        x + width <= frame.width,
        y + height <= frame.height,
    ensures
        window.wf(),
        window.width == width,
        window.height == height,
        forall|i: int, j: int, c: int|
            0 <= i < width && 0 <= j < height && 0 <= c < 3 ==> #[trigger] window.channel_at(
                i,
                j,
                c,
            ) == frame.channel_at(x + i, y + j, c),
{
    let buffer: image::ImageBuffer<image::Rgb<u8>, Vec<u8>> = image::ImageBuffer::from_raw(
        frame.width,
        frame.height,
        frame.data.clone(),
    ).unwrap();
    let out = image::GenericImageView::view(&buffer, x, y, width, height).to_image();
    RgbFrame { width: out.width(), height: out.height(), data: out.into_raw() }
}

/// The byte that the window of `config` shows in column `i` of row `j`:
/// taken from the picture, or from its mirror image where `config` says so.
pub open spec fn window_channel_at(
    frame: RgbFrame,
    config: ImageConfig,
    i: int,
    j: int,
    c: int,
) -> u8 {
    let x = config.window.offset.x + i;
    let y = config.window.offset.y + j;
    if config.flip {
        frame.channel_at(frame.width - 1 - x, y, c)
    } else {
        frame.channel_at(x, y, c)
    }
}

/// Cuts the configured window from a picture, mirroring the picture first
/// where the configuration asks for it. A window that reaches beyond the
/// picture is refused.
pub fn extract_window(frame: &RgbFrame, config: &ImageConfig) -> (window: Result<
    RgbFrame,
    WindowError,
>)
    requires
        frame.wf(),
    ensures
        window.is_ok() <==> config.fits(frame.width, frame.height),
        window == Err::<RgbFrame, WindowError>(WindowError::OutOfBounds) || window.is_ok(),
        window.is_ok() ==> {
            let w = window.unwrap();
            &&& w.wf()
            &&& w.width == config.window.size.x
            &&& w.height == config.window.size.y
            &&& forall|i: int, j: int, c: int|
                0 <= i < w.width && 0 <= j < w.height && 0 <= c < 3 ==> #[trigger] w.channel_at(
                    i,
                    j,
                    c,
                ) == window_channel_at(*frame, *config, i, j, c)
        },
{
    let x = config.window.offset.x;
    let y = config.window.offset.y;
    let width = config.window.size.x;
    let height = config.window.size.y;
    if x as u64 + width as u64 > frame.width as u64 || y as u64 + height as u64
        > frame.height as u64 {
        return Err(WindowError::OutOfBounds);
    }
    if config.flip {
        let flipped = flip_horizontal(frame);
        let w = crop(&flipped, x, y, width, height);
        assert forall|i: int, j: int, c: int|
            0 <= i < w.width && 0 <= j < w.height && 0 <= c < 3 implies #[trigger] w.channel_at(
            i,
            j,
            c,
        ) == window_channel_at(*frame, *config, i, j, c) by {
            assert(w.channel_at(i, j, c) == flipped.channel_at(x + i, y + j, c));
        }
        Ok(w)
    } else {
        Ok(crop(frame, x, y, width, height))
    }
}

} // verus!
