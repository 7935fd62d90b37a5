use vstd::prelude::*;

use crate::options::{channel_offset, Channel};

verus! {

/// The mathematical content of an RGBA image: its size and its bytes,
/// four per pixel, row after row.
pub struct FrameView {
    pub width: nat,
    pub height: nat,
    pub data: Seq<u8>,
}

impl FrameView {
    /// A frame has at least one pixel, at most `u32::MAX` pixels a side,
    /// and exactly four bytes per pixel.
    pub open spec fn valid(self) -> bool {
        &&& 0 < self.width <= u32::MAX
        &&& 0 < self.height <= u32::MAX
        &&& self.data.len() == 4 * self.width * self.height
    }

    /// The byte of channel `channel` (0 red, 1 green, 2 blue, 3 alpha)
    /// of the pixel in column `x` and row `y`.
    pub open spec fn byte(self, x: int, y: int, channel: int) -> int {
        self.data[4 * (y * self.width + x) + channel] as int
    }

    /// The intensity of a colour channel at a pixel.
    pub open spec fn intensity(self, x: int, y: int, channel: Channel) -> int {
        self.byte(x, y, channel_offset(channel))
    }
}

/// An RGBA image with eight bits per channel.
pub struct RgbaFrame {
    width: u32,
    height: u32,
    data: Vec<u8>,
}

impl View for RgbaFrame {
    type V = FrameView;

    closed spec fn view(&self) -> FrameView {
        FrameView { width: self.width as nat, height: self.height as nat, data: self.data@ }
    }
}

/// A pixel inside the frame has its four bytes inside the buffer.
proof fn lemma_pixel_in_buffer(x: int, y: int, w: int, h: int)
    requires
        0 <= x < w,
        0 <= y < h,
    ensures
        0 <= y * w + x < w * h,
        4 * (y * w + x) + 3 < 4 * w * h,
        0 <= y * w,
{
    assert(4 * (w * h) == 4 * w * h) by (nonlinear_arith);
    assert(y * w + x < w * h) by (nonlinear_arith)
        requires
            0 <= x < w,
            0 <= y < h,
    ;
    assert(0 <= y * w) by (nonlinear_arith)
        requires
            0 <= y,
            0 <= w,
    ;
}

/// Why a picture could not be turned into a frame.
#[derive(Debug, Copy, Clone, PartialEq, Eq, Structural)]
pub enum FrameError {
    /// The bytes are not a picture in the format that the file name names.
    Undecodable,
    /// The picture has no pixel, or its buffer does not hold four bytes per pixel.
    BadDimensions,
}

/// What decoding `bytes` as the format named by the extension of `path`,
/// then converting to eight-bit RGBA, gives: width, height and pixel bytes,
/// or `None` where the decoder fails.
pub uninterp spec fn decoded_rgba(bytes: Seq<u8>, path: Seq<char>) -> Option<(u32, u32, Seq<u8>)>;

/// Decodes with the `image` crate: `ImageFormat::from_path` picks the format
/// from the extension of `path` (no extension, or an unknown one, fails), then
/// `ImageReader::with_format(..).decode()` decodes `bytes`, and `to_rgba8`,
/// `dimensions` and `into_raw` hand out the RGBA picture. The contract claims
/// only that the result is `decoded_rgba` of the two arguments: decoding is a
/// function of the bytes and of the format alone.
#[verifier::external_body]
fn decode_rgba(bytes: &[u8], path: &str) -> (res: Option<(u32, u32, Vec<u8>)>)
    ensures
        match res {
            Some((w, h, data)) => decoded_rgba(bytes@, path@) == Some((w, h, data@)),
            None => decoded_rgba(bytes@, path@) is None,
        },
{
    let format = image::ImageFormat::from_path(std::path::Path::new(path)).ok()?;
    let reader = image::ImageReader::with_format(std::io::Cursor::new(bytes), format);
    let rgba = reader.decode().ok()?.to_rgba8();
    let (w, h) = rgba.dimensions();
    Some((w, h, rgba.into_raw()))
}

impl RgbaFrame {
    /// Every frame has at least one pixel and four bytes per pixel.
    #[verifier::type_invariant]
    pub open spec fn inv(&self) -> bool {
        self@.valid()
    }

    /// Makes a frame of `width` by `height` pixels from their RGBA bytes,
    /// row after row; `None` where the frame would have no pixel or the
    /// bytes are not four per pixel.
    pub fn new(width: u32, height: u32, data: Vec<u8>) -> (res: Option<RgbaFrame>)
        ensures
            res is Some <==> (width > 0 && height > 0 && data@.len() == 4 * width * height),
            res matches Some(f) ==> f@ == (FrameView {
                width: width as nat,
                height: height as nat,
                data: data@,
            }),
    {
        if width == 0 || height == 0 {
            return None;
        }
        let w = width as usize;
        let h = height as usize;
        if data.len() % 4 != 0 || data.len() / 4 % w != 0 || data.len() / 4 / w != h {
            proof {
                if data@.len() == 4 * width * height {
                    lemma_exact_buffer(data@.len() as int, w as int, h as int);
                }
            }
            return None;
        }
        proof {
            lemma_buffer_from_division(data@.len() as int, w as int, h as int);
        }
        Some(RgbaFrame { width, height, data })
    }

    /// Decodes a picture file's bytes, in the format that the extension of
    /// `path` names, into a frame.
    pub fn decode(bytes: &[u8], path: &str) -> (res: Result<RgbaFrame, FrameError>)
        ensures
            match decoded_rgba(bytes@, path@) {
                None => res == Err::<RgbaFrame, FrameError>(FrameError::Undecodable),
                Some((w, h, data)) => if w > 0 && h > 0 && data.len() == 4 * w * h {
                    res matches Ok(f) && f@ == (FrameView {
                        width: w as nat,
                        height: h as nat,
                        data,
                    })
                } else {
                    res == Err::<RgbaFrame, FrameError>(FrameError::BadDimensions)
                },
            },
    {
        match decode_rgba(bytes, path) {
            None => Err(FrameError::Undecodable),
            Some((w, h, data)) => match RgbaFrame::new(w, h, data) {
                Some(f) => Ok(f),
                None => Err(FrameError::BadDimensions),
            },
        }
    }

    /// A copy of the frame.
    pub fn copy(&self) -> (c: RgbaFrame)
        ensures
            c@ == self@,
    {
        proof {
            use_type_invariant(self);
        }
        let mut data: Vec<u8> = Vec::new();
        let n = self.data.len();
        for i in 0..n
            invariant
                n == self.data@.len(),
                data@ == self.data@.subrange(0, i as int),
        {
            data.push(self.data[i]);
        }
        assert(data@ =~= self.data@);
        RgbaFrame { width: self.width, height: self.height, data }
    }

    pub fn width(&self) -> (w: u32)
        ensures
            w == self@.width,
    {
        self.width
    }

    pub fn height(&self) -> (h: u32)
        ensures
            h == self@.height,
    {
        self.height
    }

    /// The RGBA bytes, row after row.
    pub fn data(&self) -> (d: &Vec<u8>)
        ensures
            d@ == self@.data,
    {
        &self.data
    }

    /// The intensity of a colour channel at the pixel in column `x`, row `y`.
    pub fn intensity(&self, x: u32, y: u32, channel: Channel) -> (v: u8)
        requires
            x < self@.width,
            y < self@.height,
        ensures
            v == self@.intensity(x as int, y as int, channel),
    {
        // The buffer's length, a usize, bounds every index computed below.
        let _buffer_len = self.data.len();
        proof {
            use_type_invariant(self);
            lemma_pixel_in_buffer(x as int, y as int, self.width as int, self.height as int);
        }
        let offset: usize = match channel {
            Channel::Red => 0,
            Channel::Green => 1,
        };
        let index = 4 * (y as usize * self.width as usize + x as usize) + offset;
        self.data[index]
    }
}

/// A buffer of `w * h` pixels passes the size test of `RgbaFrame::new`.
proof fn lemma_exact_buffer(len: int, w: int, h: int)
    requires
        w > 0,
        h > 0,
        len == 4 * w * h,
    ensures
        len % 4 == 0,
        len / 4 % w == 0,
        len / 4 / w == h,
{
    assert(len == (w * h) * 4) by (nonlinear_arith)
        requires
            len == 4 * w * h,
    ;
    vstd::arithmetic::div_mod::lemma_mod_multiples_basic(w * h, 4);
    vstd::arithmetic::div_mod::lemma_div_multiples_vanish(w * h, 4);
    assert(len / 4 == w * h);
    assert(w * h == h * w) by (nonlinear_arith);
    vstd::arithmetic::div_mod::lemma_mod_multiples_basic(h, w);
    vstd::arithmetic::div_mod::lemma_div_multiples_vanish(h, w);
}

/// A buffer that passes the size test of `RgbaFrame::new` holds `w * h` pixels.
proof fn lemma_buffer_from_division(len: int, w: int, h: int)
    requires
        w > 0,
        len >= 0,
        len % 4 == 0,
        len / 4 % w == 0,
        len / 4 / w == h,
    ensures
        len == 4 * w * h,
{
    vstd::arithmetic::div_mod::lemma_fundamental_div_mod(len, 4);
    vstd::arithmetic::div_mod::lemma_fundamental_div_mod(len / 4, w);
    assert(len == 4 * (w * h)) by (nonlinear_arith)
        requires
            len == 4 * (len / 4) + len % 4,
            len % 4 == 0,
            len / 4 == w * (len / 4 / w) + len / 4 % w,
            len / 4 % w == 0,
            len / 4 / w == h,
    ;
    assert(4 * (w * h) == 4 * w * h) by (nonlinear_arith);
}

/// The RGBA buffer of a `w` by `h` picture whose channel `ch` (0 red,
/// 1 green, 2 blue, 3 alpha) at column `x`, row `y` is `g(x, y, ch)`:
/// byte `k` belongs to pixel `k / 4`, which lies in row `(k / 4) / w` and
/// column `(k / 4) % w`, and holds its channel `k % 4`.
pub open spec fn rgba_buffer(w: nat, h: nat, g: spec_fn(int, int, int) -> u8) -> Seq<u8> {
    Seq::new(4 * w * h, |k: int| g((k / 4) % (w as int), (k / 4) / (w as int), k % 4))
}

/// Reading a pixel of a picture gives that very pixel's bytes, at any
/// size: the red intensity is its first byte and the green its second.
pub proof fn law_intensity_reads_its_pixel(
    w: nat,
    h: nat,
    g: spec_fn(int, int, int) -> u8,
    x: int,
    y: int,
)
    requires
        0 < w <= u32::MAX,
        0 < h <= u32::MAX,
        0 <= x < w,
        0 <= y < h,
    ensures
        ({
            let f = FrameView { width: w, height: h, data: rgba_buffer(w, h, g) };
            &&& f.valid()
            &&& forall|ch: int| 0 <= ch < 4 ==> #[trigger] f.byte(x, y, ch) == g(x, y, ch)
            &&& f.intensity(x, y, Channel::Red) == g(x, y, 0)
            &&& f.intensity(x, y, Channel::Green) == g(x, y, 1)
        }),
{
    let f = FrameView { width: w, height: h, data: rgba_buffer(w, h, g) };
    lemma_pixel_in_buffer(x, y, w as int, h as int);
    let q = y * w + x;
    vstd::arithmetic::div_mod::lemma_fundamental_div_mod_converse(q, w as int, y, x);
    assert forall|ch: int| 0 <= ch < 4 implies #[trigger] f.byte(x, y, ch) == g(x, y, ch) by {
        let k = 4 * q + ch;
        vstd::arithmetic::div_mod::lemma_fundamental_div_mod_converse(k, 4, q, ch);
        assert(k < 4 * w * h);
        assert(f.data[k] == g((k / 4) % (w as int), (k / 4) / (w as int), k % 4));
    }
    assert(f.byte(x, y, 0) == g(x, y, 0));
    assert(f.byte(x, y, 1) == g(x, y, 1));
}

} // verus!
