//! Encoding an image's pixels to bytes in an output format.
//!
//! The pixels are laid out the way the `image` crate's encoders take them
//! (the decoded color type's channels, at 8 or 16 bits); the encode itself
//! is a call into that crate whose result is named by a spec function of the
//! laid-out pixels and the format.

use std::io::Cursor;

use ::image::DynamicImage::{
    ImageLuma16, ImageLuma8, ImageLumaA16, ImageLumaA8, ImageRgb16, ImageRgb8, ImageRgba16, ImageRgba8,
};
use ::image::ImageBuffer as Buf;

use crate::image::pixels::{npix, pixels_wf, to8, ColorType, PixelBuffer, PixelModel};
use crate::image::{Image, ImageFormat};
use crate::sink::SinkError;
use crate::strings::push_str;
use vstd::prelude::*;
use EncodeData::{La16, La8, Rgb16, Rgb8, Rgba16, Rgba8, L16, L8};

verus! {

/// The channel values of an image, laid out for an encoder in its color
/// type: luma, luma + alpha, RGB or RGBA, at 8 or 16 bits.
pub enum EncodeData {
    L8(Vec<u8>),
    La8(Vec<u8>),
    Rgb8(Vec<u8>),
    Rgba8(Vec<u8>),
    L16(Vec<u16>),
    La16(Vec<u16>),
    Rgb16(Vec<u16>),
    Rgba16(Vec<u16>),
}

/// Pixels laid out for an encoder.
pub struct EncodeBuffer {
    pub width: u32,
    pub height: u32,
    pub data: EncodeData,
}

/// The model of laid-out channel values: 8-bit values widened to `u16`,
/// with the layout's channel count and bit depth.
pub struct EncodeModel {
    pub width: u32,
    pub height: u32,
    pub channels: nat,
    pub sixteen: bool,
    pub values: Seq<u16>,
}

/// The 8-bit values as 16-bit ones (no scaling).
pub open spec fn widen(v: Seq<u8>) -> Seq<u16> {
    Seq::new(v.len(), |i: int| v[i] as u16)
}

impl View for EncodeBuffer {
    type V = EncodeModel;

    open spec fn view(&self) -> EncodeModel {
        let (channels, sixteen, values) = match self.data {
            EncodeData::L8(v) => (1nat, false, widen(v@)),
            EncodeData::La8(v) => (2nat, false, widen(v@)),
            EncodeData::Rgb8(v) => (3nat, false, widen(v@)),
            EncodeData::Rgba8(v) => (4nat, false, widen(v@)),
            EncodeData::L16(v) => (1nat, true, v@),
            EncodeData::La16(v) => (2nat, true, v@),
            EncodeData::Rgb16(v) => (3nat, true, v@),
            EncodeData::Rgba16(v) => (4nat, true, v@),
        };
        EncodeModel { width: self.width, height: self.height, channels, sixteen, values }
    }
}

/// Whether a layout holds exactly one value per channel of every pixel.
pub open spec fn encode_wf(m: EncodeModel) -> bool {
    &&& 1 <= m.channels <= 4
    &&& m.values.len() == m.channels * npix(m.width, m.height)
}

/// The RGBA sample indices a color type keeps, in order.
pub open spec fn kept_channels(c: ColorType) -> Seq<int> {
    match c {
        ColorType::L8 | ColorType::L16 => seq![0int],
        ColorType::La8 | ColorType::La16 => seq![0int, 3],
        ColorType::Rgb8 | ColorType::Rgb16 | ColorType::Rgb32F => seq![0int, 1, 2],
        ColorType::Rgba8 | ColorType::Rgba16 | ColorType::Rgba32F => seq![0int, 1, 2, 3],
    }
}

/// Whether a color type is laid out at 8 bits per channel.
pub open spec fn eight_bit(c: ColorType) -> bool {
    c == ColorType::L8 || c == ColorType::La8 || c == ColorType::Rgb8 || c == ColorType::Rgba8
}

/// The value of one kept channel: the 16-bit sample, or its 8-bit value.
pub open spec fn channel_value(sample: u16, eight: bool) -> u16 {
    if eight {
        to8(sample) as u16
    } else {
        sample
    }
}

/// The kept channels of the first `n` pixels of `samples`, pixel by pixel.
pub open spec fn kept_values(samples: Seq<u16>, cs: Seq<int>, eight: bool, n: nat) -> Seq<u16>
    decreases n,
{
    if n == 0 {
        Seq::empty()
    } else {
        let p = (n - 1) as int;
        kept_values(samples, cs, eight, (n - 1) as nat) + Seq::new(
            cs.len(),
            |j: int| channel_value(samples[4 * p + cs[j]], eight),
        )
    }
}

/// The layout of a decoded image: its color type's channels (floating-point
/// color types at 16 bits), each pixel in order.
pub open spec fn spec_encode_model(m: PixelModel) -> EncodeModel {
    let cs = kept_channels(m.color);
    EncodeModel {
        width: m.width,
        height: m.height,
        channels: cs.len(),
        sixteen: !eight_bit(m.color),
        values: kept_values(m.samples, cs, eight_bit(m.color), npix(m.width, m.height) as nat),
    }
}

proof fn lemma_kept_len(samples: Seq<u16>, cs: Seq<int>, eight: bool, n: nat)
    ensures
        kept_values(samples, cs, eight, n).len() == cs.len() * n,
    decreases n,
{
    if n > 0 {
        lemma_kept_len(samples, cs, eight, (n - 1) as nat);
        assert(cs.len() * n == cs.len() * (n - 1) + cs.len()) by (nonlinear_arith)
            requires
                n > 0,
        ;
    } else {
        assert(cs.len() * n == 0) by (nonlinear_arith)
            requires
                n == 0,
        ;
    }
}

/// Lay out a decoded image's pixels for an encoder.
fn encode_values(p: &PixelBuffer, cs: &Vec<usize>, eight: bool) -> (v: Vec<u16>)
    requires
        pixels_wf(p@),
        forall|j: int| 0 <= j < cs@.len() ==> #[trigger] cs@[j] < 4,
        1 <= cs@.len() <= 4,
    ensures
        v@ == kept_values(p@.samples, Seq::new(cs@.len(), |j: int| cs@[j] as int), eight, npix(p@.width, p@.height) as nat),
{
    let ghost csi = Seq::new(cs@.len(), |j: int| cs@[j] as int);
    let s = p.samples();
    let n: usize = s.len() / 4;
    assert(n == npix(p@.width, p@.height));
    assert(s@.len() == s.len());
    let mut out: Vec<u16> = Vec::new();
    let mut i: usize = 0;
    while i < n
        invariant
            s@.len() <= usize::MAX,
            s@ == p@.samples,
            s@.len() == 4 * n,
            i <= n,
            csi == Seq::new(cs@.len(), |j: int| cs@[j] as int),
            forall|j: int| 0 <= j < cs@.len() ==> #[trigger] cs@[j] < 4,
            out@ == kept_values(p@.samples, csi, eight, i as nat),
        decreases n - i,
    {
        let ghost before = out@;
        let mut j: usize = 0;
        while j < cs.len()
            invariant
                s@.len() <= usize::MAX,
                s@ == p@.samples,
                s@.len() == 4 * n,
                i < n,
                j <= cs@.len(),
                csi == Seq::new(cs@.len(), |k: int| cs@[k] as int),
                forall|k: int| 0 <= k < cs@.len() ==> #[trigger] cs@[k] < 4,
                out@ == before + Seq::new(j as nat, |k: int| channel_value(s@[4 * i + csi[k]], eight)),
            decreases cs@.len() - j,
        {
            assert(cs@[j as int] < 4);
            assert(4 * i + 4 <= s@.len());
            let v = s[4 * i + cs[j]];
            let c: u16 = if eight {
                ((v as u32 + 128) / 257) as u16
            } else {
                v
            };
            out.push(c);
            assert(out@ =~= before + Seq::new((j + 1) as nat, |k: int| channel_value(s@[4 * i + csi[k]], eight)));
            j = j + 1;
        }
        assert(out@ =~= kept_values(p@.samples, csi, eight, (i + 1) as nat));
        i = i + 1;
    }
    out
}

fn narrow(v: Vec<u16>) -> (r: Vec<u8>)
    requires
        forall|i: int| 0 <= i < v@.len() ==> #[trigger] v@[i] < 256,
    ensures
        widen(r@) == v@,
{
    let mut r: Vec<u8> = Vec::new();
    let mut i: usize = 0;
    while i < v.len()
        invariant
            i <= v@.len(),
            forall|k: int| 0 <= k < v@.len() ==> #[trigger] v@[k] < 256,
            r@.len() == i,
            widen(r@) == v@.take(i as int),
        decreases v@.len() - i,
    {
        let x = v[i];
        assert(x < 256);
        let b = x as u8;
        assert(b as u16 == x);
        let ghost old_r = r@;
        r.push(b);
        assert forall|k: int| 0 <= k < i + 1 implies #[trigger] widen(r@)[k] == v@.take(i + 1)[k] by {
            if k < i {
                assert(r@[k] == old_r[k]);
                assert(widen(old_r)[k] == v@.take(i as int)[k]);
            }
        }
        assert(widen(r@) =~= v@.take(i + 1));
        i = i + 1;
    }
    assert(v@.take(i as int) =~= v@);
    r
}

proof fn lemma_kept_eight_bounded(samples: Seq<u16>, cs: Seq<int>, n: nat)
    ensures
        forall|i: int| 0 <= i < kept_values(samples, cs, true, n).len() ==> #[trigger] kept_values(samples, cs, true, n)[i] < 256,
    decreases n,
{
    if n > 0 {
        lemma_kept_eight_bounded(samples, cs, (n - 1) as nat);
        let prev = kept_values(samples, cs, true, (n - 1) as nat);
        let all = kept_values(samples, cs, true, n);
        assert forall|i: int| 0 <= i < all.len() implies #[trigger] all[i] < 256 by {
            if i < prev.len() {
                assert(all[i] == prev[i]);
            }
        }
    }
}

/// Lay out an image's pixels for an encoder (see [`spec_encode_model`]).
pub fn encode_buffer(p: &PixelBuffer) -> (b: EncodeBuffer)
    ensures
        b@ == spec_encode_model(p@),
        encode_wf(b@),
{
    let _samples = p.samples();
    let color = p.color();
    let mut cs: Vec<usize> = Vec::new();
    match color {
        ColorType::L8 | ColorType::L16 => {
            cs.push(0);
        },
        ColorType::La8 | ColorType::La16 => {
            cs.push(0);
            cs.push(3);
        },
        ColorType::Rgb8 | ColorType::Rgb16 | ColorType::Rgb32F => {
            cs.push(0);
            cs.push(1);
            cs.push(2);
        },
        _ => {
            cs.push(0);
            cs.push(1);
            cs.push(2);
            cs.push(3);
        },
    }
    let ghost csi = Seq::new(cs@.len(), |j: int| cs@[j] as int);
    assert(csi =~= kept_channels(p@.color));
    let eight = match color {
        ColorType::L8 | ColorType::La8 | ColorType::Rgb8 | ColorType::Rgba8 => true,
        _ => false,
    };
    let values = encode_values(p, &cs, eight);
    proof {
        lemma_kept_len(p@.samples, csi, eight, npix(p@.width, p@.height) as nat);
        if eight {
            lemma_kept_eight_bounded(p@.samples, csi, npix(p@.width, p@.height) as nat);
        }
    }
    let (width, height) = (p.width(), p.height());
    let data = match color {
        ColorType::L8 => EncodeData::L8(narrow(values)),
        ColorType::La8 => EncodeData::La8(narrow(values)),
        ColorType::Rgb8 => EncodeData::Rgb8(narrow(values)),
        ColorType::Rgba8 => EncodeData::Rgba8(narrow(values)),
        ColorType::L16 => EncodeData::L16(values),
        ColorType::La16 => EncodeData::La16(values),
        ColorType::Rgb16 | ColorType::Rgb32F => EncodeData::Rgb16(values),
        _ => EncodeData::Rgba16(values),
    };
    EncodeBuffer { width, height, data }
}

// ── The encoders ────────────────────────────────────────────────────────────

/// What the JPEG encoder at a quality makes of laid-out pixels: the bytes,
/// or the encoder's error message.
pub uninterp spec fn jpeg_at_quality(m: EncodeModel, quality: u8) -> Result<Seq<u8>, Seq<char>>;

/// What `DynamicImage::write_to` makes of laid-out pixels in the format
/// whose extension is `ext`: the bytes, or the encoder's error message.
pub uninterp spec fn encoded_in(m: EncodeModel, ext: Seq<char>) -> Result<Seq<u8>, Seq<char>>;

/// The extensions `image::ImageFormat::from_extension` maps to a format,
/// one per format.
pub open spec fn encoder_extension(ext: Seq<char>) -> bool {
    ext == "png"@ || ext == "jpg"@ || ext == "gif"@ || ext == "webp"@ || ext == "pnm"@ || ext
        == "tiff"@ || ext == "tga"@ || ext == "dds"@ || ext == "bmp"@ || ext == "ico"@ || ext
        == "hdr"@ || ext == "exr"@ || ext == "ff"@ || ext == "avif"@ || ext == "qoi"@
}

/// The plain value of an encoder's result.
pub open spec fn bytes_outcome(r: Result<Vec<u8>, String>) -> Result<Seq<u8>, Seq<char>> {
    match r {
        Ok(v) => Ok(v@),
        Err(e) => Err(e@),
    }
}

/// `ImageBuffer::from_raw` into the matching `DynamicImage` variant: the
/// laid-out values become the image's buffer unchanged. A consistent layout
/// holds exactly the values `from_raw` asks for, so it is accepted.
#[verifier::external_body]
fn dynamic_of(w: u32, h: u32, data: EncodeData) -> (d: ::image::DynamicImage)
    requires
        encode_wf(EncodeBuffer { width: w, height: h, data }@),
{
    match data {
        L8(v) => ImageLuma8(Buf::from_raw(w, h, v).unwrap()),
        La8(v) => ImageLumaA8(Buf::from_raw(w, h, v).unwrap()),
        Rgb8(v) => ImageRgb8(Buf::from_raw(w, h, v).unwrap()),
        Rgba8(v) => ImageRgba8(Buf::from_raw(w, h, v).unwrap()),
        L16(v) => ImageLuma16(Buf::from_raw(w, h, v).unwrap()),
        La16(v) => ImageLumaA16(Buf::from_raw(w, h, v).unwrap()),
        Rgb16(v) => ImageRgb16(Buf::from_raw(w, h, v).unwrap()),
        Rgba16(v) => ImageRgba16(Buf::from_raw(w, h, v).unwrap()),
    }
}

/// `JpegEncoder::new_with_quality` driven by `DynamicImage::write_with_encoder`:
/// the JPEG bytes of the pixels at `quality`, or the error's message; named
/// by [`jpeg_at_quality`].
#[verifier::external_body]
pub(crate) fn encode_jpeg_at(buf: EncodeBuffer, quality: u8) -> (r: Result<Vec<u8>, String>)
    requires
        encode_wf(buf@),
    ensures
        bytes_outcome(r) == jpeg_at_quality(buf@, quality),
{
    let mut out = Cursor::new(Vec::new());
    let encoder = ::image::codecs::jpeg::JpegEncoder::new_with_quality(&mut out, quality);
    dynamic_of(buf.width, buf.height, buf.data).write_with_encoder(encoder).map_err(|e| e.to_string())?;
    Ok(out.into_inner())
}

/// `DynamicImage::write_to` in the format `ImageFormat::from_extension(ext)`
/// names: the encoded bytes (each format's default encoder; WebP is
/// lossless), or the error's message; named by [`encoded_in`].
#[verifier::external_body]
fn encode_as(buf: EncodeBuffer, ext: &str) -> (r: Result<Vec<u8>, String>)
    requires
        encode_wf(buf@),
        encoder_extension(ext@),
    ensures
        bytes_outcome(r) == encoded_in(buf@, ext@),
{
    let format = ::image::ImageFormat::from_extension(ext).unwrap();
    let mut out = Cursor::new(Vec::new());
    dynamic_of(buf.width, buf.height, buf.data).write_to(&mut out, format).map_err(|e| e.to_string())?;
    Ok(out.into_inner())
}

/// A JPEG quality clamped to `1..=100`.
pub open spec fn clamp_quality(q: u8) -> u8 {
    if q < 1 {
        1
    } else if q > 100 {
        100
    } else {
        q
    }
}

/// The message of the `image` crate for a format it has no encoder for.
pub open spec fn pcx_unsupported() -> Seq<char> {
    "The image format `Pcx` is not supported"@
}

/// Whether `r` is the sink's account of an encoder result `e`: the bytes,
/// or [`SinkError::Encode`] with the encoder's message.
pub open spec fn reports(r: Result<Vec<u8>, SinkError>, e: Result<Seq<u8>, Seq<char>>) -> bool {
    match e {
        Ok(b) => r matches Ok(v) && v@ == b,
        Err(m) => r matches Err(SinkError::Encode(s)) && s@ == m,
    }
}

/// Encode an image's pixels in `format`. A JPEG with a `quality` is encoded
/// at that quality clamped to `1..=100`; AVIF encoding is not built
/// ([`SinkError::CodecNotBuilt`]); every other case uses the format's
/// default encoder (WebP: lossless), and the quality is ignored.
pub fn encode_to_bytes(img: &Image, format: ImageFormat, quality: Option<u8>) -> (r: Result<Vec<u8>, SinkError>)
    ensures
        ({
            let m = spec_encode_model(img@.pixels);
            if format == ImageFormat::Jpeg && quality is Some {
                reports(r, jpeg_at_quality(m, clamp_quality(quality.unwrap())))
            } else if format == ImageFormat::Avif {
                r == Err::<Vec<u8>, SinkError>(SinkError::CodecNotBuilt { codec: "avif", feature: "avif" })
            } else if format == ImageFormat::Pcx {
                reports(r, Err(pcx_unsupported()))
            } else {
                reports(r, encoded_in(m, crate::sink::spec_extension_for_format(format)))
            }
        }),
{
    let buf = encode_buffer(img.pixels());
    if let ImageFormat::Jpeg = format {
        if let Some(q) = quality {
            let q = if q < 1 {
                1
            } else if q > 100 {
                100
            } else {
                q
            };
            return match encode_jpeg_at(buf, q) {
                Ok(v) => Ok(v),
                Err(e) => Err(SinkError::Encode(e)),
            };
        }
    }
    match format {
        ImageFormat::Avif => Err(SinkError::CodecNotBuilt { codec: "avif", feature: "avif" }),
        ImageFormat::Pcx => {
            let mut m = String::new();
            push_str(&mut m, "The image format `Pcx` is not supported");
            proof {
                reveal_strlit("The image format `Pcx` is not supported");
            }
            Err(SinkError::Encode(m))
        },
        _ => {
            let ext = crate::sink::extension_for_format(format);
            proof {
                reveal_strlit("png");
                reveal_strlit("jpg");
                reveal_strlit("gif");
                reveal_strlit("webp");
                reveal_strlit("pnm");
                reveal_strlit("tiff");
                reveal_strlit("tga");
                reveal_strlit("dds");
                reveal_strlit("bmp");
                reveal_strlit("ico");
                reveal_strlit("hdr");
                reveal_strlit("exr");
                reveal_strlit("ff");
                reveal_strlit("qoi");
            }
            match encode_as(buf, ext) {
                Ok(v) => Ok(v),
                Err(e) => Err(SinkError::Encode(e)),
            }
        },
    }
}

} // verus!
