//! The decoded pixel buffer: dimensions, the decoded color type, and every
//! pixel as 16-bit RGBA samples.
//!
//! Eight-bit data `x` is held as `x * 257`, so converting back to 8 bits with
//! `(v + 128) / 257` returns `x` exactly; grey channels are replicated into
//! R, G and B, and an absent alpha channel reads as opaque.

use vstd::prelude::*;

verus! {

/// The color type an image was decoded as.
#[derive(Debug, Clone, Copy, PartialEq, Eq)]
pub enum ColorType {
    L8,
    La8,
    Rgb8,
    Rgba8,
    L16,
    La16,
    Rgb16,
    Rgba16,
    Rgb32F,
    Rgba32F,
}

impl ColorType {
    /// Number of channels per pixel.
    pub open spec fn spec_channel_count(self) -> u8 {
        match self {
            ColorType::L8 | ColorType::L16 => 1,
            ColorType::La8 | ColorType::La16 => 2,
            ColorType::Rgb8 | ColorType::Rgb16 | ColorType::Rgb32F => 3,
            ColorType::Rgba8 | ColorType::Rgba16 | ColorType::Rgba32F => 4,
        }
    }

    /// Bytes per pixel.
    pub open spec fn spec_bytes_per_pixel(self) -> u8 {
        match self {
            ColorType::L8 => 1,
            ColorType::La8 => 2,
            ColorType::Rgb8 => 3,
            ColorType::Rgba8 => 4,
            ColorType::L16 => 2,
            ColorType::La16 => 4,
            ColorType::Rgb16 => 6,
            ColorType::Rgba16 => 8,
            ColorType::Rgb32F => 12,
            ColorType::Rgba32F => 16,
        }
    }

    /// Whether the color type carries an alpha channel.
    pub open spec fn spec_has_alpha(self) -> bool {
        match self {
            ColorType::La8 | ColorType::Rgba8 | ColorType::La16 | ColorType::Rgba16
            | ColorType::Rgba32F => true,
            _ => false,
        }
    }

    /// Number of channels per pixel.
    pub fn channel_count(self) -> (n: u8)
        ensures
            n == self.spec_channel_count(),
    {
        match self {
            ColorType::L8 | ColorType::L16 => 1,
            ColorType::La8 | ColorType::La16 => 2,
            ColorType::Rgb8 | ColorType::Rgb16 | ColorType::Rgb32F => 3,
            ColorType::Rgba8 | ColorType::Rgba16 | ColorType::Rgba32F => 4,
        }
    }

    /// Bits per pixel (all channels).
    pub fn bits_per_pixel(self) -> (n: u16)
        ensures
            n == self.spec_bytes_per_pixel() * 8,
    {
        let b: u16 = match self {
            ColorType::L8 => 1,
            ColorType::La8 => 2,
            ColorType::Rgb8 => 3,
            ColorType::Rgba8 => 4,
            ColorType::L16 => 2,
            ColorType::La16 => 4,
            ColorType::Rgb16 => 6,
            ColorType::Rgba16 => 8,
            ColorType::Rgb32F => 12,
            ColorType::Rgba32F => 16,
        };
        b * 8
    }

    /// Whether the color type carries an alpha channel.
    pub fn has_alpha(self) -> (b: bool)
        ensures
            b == self.spec_has_alpha(),
    {
        match self {
            ColorType::La8 | ColorType::Rgba8 | ColorType::La16 | ColorType::Rgba16
            | ColorType::Rgba32F => true,
            _ => false,
        }
    }
}

/// Bits per channel of `ct`: bits per pixel over the channel count.
pub open spec fn spec_bit_depth(ct: ColorType) -> u8 {
    ((ct.spec_bytes_per_pixel() * 8) as int / (ct.spec_channel_count() as int)) as u8
}

/// Bits per channel for a [`ColorType`] (e.g. `Rgb8`/`Rgba8` -> 8, `Rgb16`
/// -> 16).
pub fn color_type_bit_depth(ct: ColorType) -> (d: u8)
    ensures
        d == spec_bit_depth(ct),
{
    let channels = ct.channel_count() as u16;
    if channels == 0 {
        return 0;
    }
    (ct.bits_per_pixel() / channels) as u8
}

/// The 8-bit value of a 16-bit sample.
pub open spec fn to8(v: u16) -> u8 {
    ((v as int + 128) / 257) as u8
}

/// The 16-bit sample holding the 8-bit value `x`.
pub open spec fn to16(x: u8) -> u16 {
    (x as int * 257) as u16
}

/// The mathematical value of a [`PixelBuffer`].
#[verifier::ext_equal]
pub struct PixelModel {
    pub width: u32,
    pub height: u32,
    pub color: ColorType,
    /// Interleaved RGBA samples, row-major, `4 * width * height` of them.
    pub samples: Seq<u16>,
}

impl PixelModel {
    /// Index of channel `c` of the pixel at `(x, y)`.
    pub open spec fn index(self, x: int, y: int, c: int) -> int {
        (y * self.width + x) * 4 + c
    }

    /// Channel `c` of the pixel at `(x, y)`.
    pub open spec fn at(self, x: int, y: int, c: int) -> u16 {
        self.samples[self.index(x, y, c)]
    }
}

/// A decoded image: dimensions, the decoded color type, and 16-bit RGBA
/// samples.
#[derive(Debug)]
pub struct PixelBuffer {
    width: u32,
    height: u32,
    color: ColorType,
    samples: Vec<u16>,
}

impl View for PixelBuffer {
    type V = PixelModel;

    closed spec fn view(&self) -> PixelModel {
        PixelModel {
            width: self.width,
            height: self.height,
            color: self.color,
            samples: self.samples@,
        }
    }
}

/// The number of pixels of a `w` x `h` image.
pub open spec fn npix(w: u32, h: u32) -> int {
    (w as int) * (h as int)
}

/// Whether `m` describes a consistent buffer (four samples per pixel).
pub open spec fn pixels_wf(m: PixelModel) -> bool {
    m.samples.len() == 4 * npix(m.width, m.height)
}

impl PixelBuffer {
    #[verifier::type_invariant]
    closed spec fn inv(self) -> bool {
        self.samples@.len() == 4 * npix(self.width, self.height)
    }

    /// A buffer from 16-bit RGBA samples; `None` when the sample count is not
    /// `4 * width * height`.
    pub fn from_rgba16(width: u32, height: u32, color: ColorType, samples: Vec<u16>) -> (r:
        Option<PixelBuffer>)
        ensures
            match r {
                Some(p) => p@ == (PixelModel { width, height, color, samples: samples@ })
                    && samples@.len() == 4 * npix(width, height),
                None => samples@.len() != 4 * npix(width, height),
            },
    {
        let n = samples.len() as u128;
        assert(npix(width, height) <= 0xFFFF_FFFF_FFFF_FFFF) by (nonlinear_arith)
            requires
                width <= 0xFFFF_FFFF,
                height <= 0xFFFF_FFFF,
        ;
        let want = 4 * ((width as u128) * (height as u128));
        if n != want {
            return None;
        }
        Some(PixelBuffer { width, height, color, samples })
    }

    /// A buffer from 16-bit RGBA samples whose count is already known to be
    /// `4 * width * height`.
    pub fn from_samples(width: u32, height: u32, color: ColorType, samples: Vec<u16>) -> (p: PixelBuffer)
        requires
            samples@.len() == 4 * npix(width, height),
        ensures
            p@ == (PixelModel { width, height, color, samples: samples@ }),
    {
        PixelBuffer { width, height, color, samples }
    }

    /// A buffer from 8-bit RGBA data (`4 * width * height` bytes); `None` on a
    /// length mismatch.
    pub fn from_rgba8(width: u32, height: u32, data: Vec<u8>) -> (r: Option<PixelBuffer>)
        ensures
            match r {
                Some(p) => p@.width == width && p@.height == height && p@.color == ColorType::Rgba8
                    && p@.samples == Seq::new(data@.len(), |i: int| to16(data@[i])),
                None => data@.len() != 4 * npix(width, height),
            },
    {
        let mut samples: Vec<u16> = Vec::new();
        let mut i: usize = 0;
        while i < data.len()
            invariant
                i <= data@.len(),
                samples@ == Seq::new(i as nat, |k: int| to16(data@[k])),
            decreases data@.len() - i,
        {
            samples.push(data[i] as u16 * 257);
            assert(samples@ =~= Seq::new((i + 1) as nat, |k: int| to16(data@[k])));
            i = i + 1;
        }
        PixelBuffer::from_rgba16(width, height, ColorType::Rgba8, samples)
    }

    /// A buffer from 8-bit RGB data (`3 * width * height` bytes), opaque;
    /// `None` on a length mismatch.
    pub fn from_rgb8(width: u32, height: u32, data: Vec<u8>) -> (r: Option<PixelBuffer>)
        ensures
            match r {
                Some(p) => p@.width == width && p@.height == height && p@.color == ColorType::Rgb8
                    && p@.samples.len() == 4 * data@.len() / 3 && forall|k: int, c: int|
                    0 <= k < data@.len() / 3 && 0 <= c < 4 ==> #[trigger] p@.samples[4 * k + c]
                        == if c == 3 {
                        65535u16
                    } else {
                        to16(data@[3 * k + c])
                    },
                None => data@.len() != 3 * npix(width, height),
            },
    {
        if data.len() % 3 != 0 {
            return None;
        }
        let n = data.len() / 3;
        let mut samples: Vec<u16> = Vec::new();
        let mut k: usize = 0;
        while k < n
            invariant
                k <= n,
                n == data@.len() / 3,
                3 * n == data@.len(),
                data@.len() <= usize::MAX,
                data@.len() % 3 == 0,
                samples@.len() == 4 * k,
                forall|j: int, c: int|
                    0 <= j < k && 0 <= c < 4 ==> #[trigger] samples@[4 * j + c] == if c == 3 {
                        65535u16
                    } else {
                        to16(data@[3 * j + c])
                    },
            decreases n - k,
        {
            samples.push(data[3 * k] as u16 * 257);
            samples.push(data[3 * k + 1] as u16 * 257);
            samples.push(data[3 * k + 2] as u16 * 257);
            samples.push(65535u16);
            k = k + 1;
        }
        PixelBuffer::from_rgba16(width, height, ColorType::Rgb8, samples)
    }

    /// Width in pixels.
    pub fn width(&self) -> (w: u32)
        ensures
            w == self@.width,
    {
        self.width
    }

    /// Height in pixels.
    pub fn height(&self) -> (h: u32)
        ensures
            h == self@.height,
    {
        self.height
    }

    /// The color type the pixels were decoded as.
    pub fn color(&self) -> (c: ColorType)
        ensures
            c == self@.color,
    {
        self.color
    }

    /// The 16-bit RGBA samples.
    pub fn samples(&self) -> (s: &Vec<u16>)
        ensures
            s@ == self@.samples,
            pixels_wf(self@),
    {
        proof {
            use_type_invariant(self);
        }
        &self.samples
    }

    /// All pixels as 8-bit RGBA bytes, row-major.
    pub fn to_rgba8(&self) -> (out: Vec<u8>)
        ensures
            out@ == Seq::new(self@.samples.len(), |i: int| to8(self@.samples[i])),
    {
        let mut out: Vec<u8> = Vec::new();
        let mut i: usize = 0;
        while i < self.samples.len()
            invariant
                i <= self.samples@.len(),
                out@ == Seq::new(i as nat, |k: int| to8(self.samples@[k])),
            decreases self.samples@.len() - i,
        {
            let v = self.samples[i];
            out.push(((v as u32 + 128) / 257) as u8);
            assert(out@ =~= Seq::new((i + 1) as nat, |k: int| to8(self.samples@[k])));
            i = i + 1;
        }
        out
    }

    /// The 8-bit RGBA value of the pixel at `(x, y)`.
    pub fn rgba8_at(&self, x: u32, y: u32) -> (px: [u8; 4])
        requires
            x < self@.width,
            y < self@.height,
        ensures
            px@ == seq![
                to8(self@.at(x as int, y as int, 0)),
                to8(self@.at(x as int, y as int, 1)),
                to8(self@.at(x as int, y as int, 2)),
                to8(self@.at(x as int, y as int, 3)),
            ],
    {
        proof {
            use_type_invariant(self);
            lemma_pixel_index(self@, x as int, y as int);
        }
        let _n = self.samples.len();
        let base = ((y as usize) * (self.width as usize) + (x as usize)) * 4;
        let r = ((self.samples[base] as u32 + 128) / 257) as u8;
        let g = ((self.samples[base + 1] as u32 + 128) / 257) as u8;
        let b = ((self.samples[base + 2] as u32 + 128) / 257) as u8;
        let a = ((self.samples[base + 3] as u32 + 128) / 257) as u8;
        let px = [r, g, b, a];
        assert(px@ =~= seq![r, g, b, a]);
        px
    }
}

/// The index of a pixel's first channel lies inside a consistent buffer.
pub proof fn lemma_pixel_index(m: PixelModel, x: int, y: int)
    requires
        pixels_wf(m),
        0 <= x < m.width,
        0 <= y < m.height,
    ensures
        0 <= y * m.width,
        0 <= m.index(x, y, 0),
        m.index(x, y, 3) < m.samples.len(),
        m.index(x, y, 0) == (y * m.width + x) * 4,
{
    assert((y * m.width + x) * 4 + 3 < 4 * npix(m.width, m.height) && 0 <= y * m.width)
        by (nonlinear_arith)
        requires
            0 <= x < m.width,
            0 <= y < m.height,
    ;
}

} // verus!
