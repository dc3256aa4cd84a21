//! The calls into the `image` crate: decoding, encoding, resizing and
//! thumbnailing raw sample buffers. Each result is named by a spec function
//! of the call's arguments.
use crate::datatypes::{ColorType, ImageFormat};
use image::{ColorType as ImgColor, ImageBuffer, ImageFormat as ImgFormat, Luma, LumaA, Rgb, Rgba};
use image::imageops::FilterType;
use vstd::prelude::*;

verus! {

/// What the decoder hands back: the pixel layout (channel count and which
/// sample buffer is present), the dimensions and the raw samples. Float
/// samples are kept as their IEEE-754 bit patterns.
pub struct RawImage {
    pub channels: u8,
    pub width: u32,
    pub height: u32,
    pub samples_u8: Option<Vec<u8>>,
    pub samples_u16: Option<Vec<u16>>,
    pub samples_f32_bits: Option<Vec<u32>>,
}

/// The plain values of a [`RawImage`].
#[verifier::ext_equal]
pub struct RawImageView {
    pub channels: u8,
    pub width: u32,
    pub height: u32,
    pub samples_u8: Option<Seq<u8>>,
    pub samples_u16: Option<Seq<u16>>,
    pub samples_f32_bits: Option<Seq<u32>>,
}

pub open spec fn opt_vec_view<T>(v: Option<Vec<T>>) -> Option<Seq<T>> {
    match v {
        Some(x) => Some(x@),
        None => None,
    }
}

impl View for RawImage {
    type V = RawImageView;

    open spec fn view(&self) -> RawImageView {
        RawImageView {
            channels: self.channels,
            width: self.width,
            height: self.height,
            samples_u8: opt_vec_view(self.samples_u8),
            samples_u16: opt_vec_view(self.samples_u16),
            samples_f32_bits: opt_vec_view(self.samples_f32_bits),
        }
    }
}

/// The number of samples an image of these dimensions needs.
pub open spec fn samples_needed(width: u32, height: u32, channels: int) -> int {
    channels * width * height
}

/// An image of these dimensions and channel count fits in the given number
/// of samples, and its sample count is addressable.
pub open spec fn fits(width: u32, height: u32, channels: int, len: int) -> bool {
    &&& samples_needed(width, height, channels) <= len
    &&& samples_needed(width, height, channels) <= usize::MAX
}

/// What holds of every decoded image: exactly one sample buffer is present,
/// its sample type admits the channel count (1 to 4 for 8- and 16-bit
/// samples, 3 or 4 for float samples), and it holds the whole image.
pub open spec fn raw_image_wf(v: RawImageView) -> bool {
    match (v.samples_u8, v.samples_u16, v.samples_f32_bits) {
        (Some(s), None, None) => 1 <= v.channels <= 4 && fits(v.width, v.height, v.channels as int, s.len() as int),
        (None, Some(s), None) => 1 <= v.channels <= 4 && fits(v.width, v.height, v.channels as int, s.len() as int),
        (None, None, Some(s)) => 3 <= v.channels <= 4 && fits(v.width, v.height, v.channels as int, s.len() as int),
        _ => false,
    }
}

/// The image that `image::load_from_memory` decodes from these bytes, or
/// the text of the error it reports.
pub uninterp spec fn decoded_image(bytes: Seq<u8>) -> Result<RawImageView, Seq<char>>;

/// The bytes that `image::write_buffer_with_format` writes for these
/// samples, or the text of the error it reports.
pub uninterp spec fn encoded_image(
    samples: Seq<u8>,
    width: u32,
    height: u32,
    color: ColorType,
    format: ImageFormat,
) -> Result<Seq<u8>, Seq<char>>;

/// The samples of `image::imageops::resize` (triangle filter) applied to an
/// 8-bit image with the given channel count, resized to `new_width` by `new_height`.
pub uninterp spec fn resized_samples(
    channels: u8,
    width: u32,
    height: u32,
    samples: Seq<u8>,
    new_width: u32,
    new_height: u32,
) -> Seq<u8>;

/// The samples of `image::imageops::thumbnail` applied to an 8-bit image
/// with the given channel count, shrunk to `new_width` by `new_height`.
pub uninterp spec fn thumbnail_samples(
    channels: u8,
    width: u32,
    height: u32,
    samples: Seq<u8>,
    new_width: u32,
    new_height: u32,
) -> Seq<u8>;

/// A cursor that starts at position zero of `old` and writes `new` leaves
/// `new` followed by whatever of `old` lies beyond it.
pub open spec fn overwrite(old: Seq<u8>, new: Seq<u8>) -> Seq<u8> {
    if new.len() >= old.len() {
        new
    } else {
        new + old.subrange(new.len() as int, old.len() as int)
    }
}

/// The colour types with 8-bit samples, and their channel counts.
pub open spec fn color_channels_u8(c: ColorType) -> int {
    match c {
        ColorType::L8 => 1,
        ColorType::La8 => 2,
        ColorType::Rgb8 => 3,
        ColorType::Rgba8 => 4,
        _ => 0,
    }
}

/// When `resize` runs without a panic: the result must be addressable and,
/// unless the size stays the same (then the image is copied), so must the
/// intermediate float buffer (`width` by `new_height`, four channels).
pub open spec fn resize_defined(width: u32, height: u32, channels: int, new_width: u32, new_height: u32) -> bool {
    &&& samples_needed(new_width, new_height, channels) <= usize::MAX
    &&& ((new_width == width && new_height == height) || samples_needed(width, new_height, 4)
        <= usize::MAX)
}

/// The most source columns (or rows) `thumbnail` sums for one output pixel
/// when `len` pixels shrink to `new_len`: the ratio rounded up, plus slack
/// for the `f32` rounding of the window's edges (at most two pixels, and one
/// more per 2^22 source pixels), and never more than `len`.
pub open spec fn thumbnail_window(len: u32, new_len: u32) -> int {
    let w = (len + new_len - 1) / (new_len as int) + 3 + len / 4194304u32;
    if w < len {
        w
    } else {
        len as int
    }
}

/// When `thumbnail` runs without a panic or an overflow of its 32-bit
/// arithmetic: the result must be addressable, and for each output pixel the
/// sum of one window of byte samples, plus half the window's size, must fit
/// in a `u32`. With an empty target no window is summed. Windows that cover
/// a fraction of a pixel are averaged in `f32` and cast back to a byte with
/// `expect`. This contract takes that weighted average of byte samples to
/// stay within a byte after rounding, and does not state it as a condition.
pub open spec fn thumbnail_defined(width: u32, height: u32, channels: int, new_width: u32, new_height: u32) -> bool {
    &&& samples_needed(new_width, new_height, channels) <= usize::MAX
    &&& (new_width > 0 && new_height > 0 ==> 256 * thumbnail_window(width, new_width)
        * thumbnail_window(height, new_height) <= u32::MAX)
}

/// The bytes per pixel the BMP encoder writes for an 8-bit colour type
/// (grey pixels are written as one palette index, alpha dropped).
pub open spec fn bmp_pixel_bytes(c: ColorType) -> int {
    match c {
        ColorType::Rgb8 => 3,
        ColorType::Rgba8 => 4,
        _ => 1,
    }
}

/// The padding the BMP encoder adds to each row to reach a multiple of four bytes.
pub open spec fn bmp_row_pad(width: u32, c: ColorType) -> int {
    (4 - (width * bmp_pixel_bytes(c)) % 4) % 4
}

/// The bytes of the BMP file and info headers and of the grey palette.
pub open spec fn bmp_header_bytes(c: ColorType) -> int {
    14 + (if c == ColorType::Rgba8 { 108int } else { 40int }) + (if c == ColorType::L8 || c
        == ColorType::La8 {
        1024int
    } else {
        0int
    })
}

/// When the BMP encoder's unchecked `u32` arithmetic does not overflow: the
/// row length in written bytes; the total padding, which it computes once
/// the pixel bytes are known to fit; and, for grey with alpha, once the file
/// size is known to fit, the two-byte stride and the last sample's offset.
pub open spec fn bmp_sizes_fit(width: u32, height: u32, c: ColorType) -> bool {
    let row = width * bmp_pixel_bytes(c);
    let pad = bmp_row_pad(width, c);
    &&& row <= u32::MAX
    &&& (row * height <= u32::MAX ==> height * pad <= u32::MAX)
    &&& (c == ColorType::La8 && row * height + height * pad + bmp_header_bytes(c) <= u32::MAX ==> {
        &&& 2 * width <= u32::MAX
        &&& (width > 0 && height > 0 ==> 2 * width * height - 2 <= u32::MAX)
    })
}

/// Whether the BMP encoder's `u32` size arithmetic stays in range for an
/// image of these dimensions and colour type ([`bmp_sizes_fit`]).
pub fn bmp_sizes_ok(width: u32, height: u32, c: ColorType) -> (r: bool)
    ensures
        r == bmp_sizes_fit(width, height, c),
{
    let bpb: u128 = match c {
        ColorType::Rgb8 => 3,
        ColorType::Rgba8 => 4,
        _ => 1,
    };
    let w = width as u128;
    let h = height as u128;
    let max: u128 = 0xffff_ffff;
    assert(w * bpb <= 4 * 0xffff_ffff) by (nonlinear_arith)
        requires
            w <= 0xffff_ffff,
            bpb <= 4,
    ;
    let row = w * bpb;
    let pad = (4 - row % 4) % 4;
    assert(row * h <= 4 * 0xffff_ffff * 0xffff_ffff) by (nonlinear_arith)
        requires
            row <= 4 * 0xffff_ffff,
            h <= 0xffff_ffff,
    ;
    assert(h * pad <= 3 * 0xffff_ffff) by (nonlinear_arith)
        requires
            pad <= 3,
            h <= 0xffff_ffff,
    ;
    assert(2 * w * h <= 2 * 0xffff_ffff * 0xffff_ffff) by (nonlinear_arith)
        requires
            w <= 0xffff_ffff,
            h <= 0xffff_ffff,
    ;
    let headers: u128 = 14 + (if matches!(c, ColorType::Rgba8) {
        108
    } else {
        40
    }) + (if matches!(c, ColorType::L8) || matches!(c, ColorType::La8) {
        1024
    } else {
        0
    });
    let fits_row = row <= max;
    let fits_pad = !(row * h <= max) || h * pad <= max;
    let grey_alpha_reached = matches!(c, ColorType::La8) && row * h + h * pad + headers <= max;
    let fits_stride = if !grey_alpha_reached {
        true
    } else if 2 * w > max {
        false
    } else if w > 0 && h > 0 {
        assert(2 * w * h >= 2) by (nonlinear_arith)
            requires
                w >= 1,
                h >= 1,
        ;
        2 * w * h - 2 <= max
    } else {
        true
    };
    fits_row && fits_pad && fits_stride
}

/// When `image::write_buffer_with_format` runs without a panic on a buffer
/// that holds exactly the image: only the BMP encoder does size arithmetic
/// that can overflow.
pub open spec fn encode_defined(width: u32, height: u32, c: ColorType, format: ImageFormat) -> bool {
    format == ImageFormat::BMP ==> bmp_sizes_fit(width, height, c)
}

/// What `image::imageops::resize` returns for an 8-bit image: when the size
/// is unchanged, a copy of the image's pixels (the first
/// `channels * width * height` samples); otherwise the triangle-filtered
/// samples.
pub open spec fn resize_result(
    channels: u8,
    width: u32,
    height: u32,
    samples: Seq<u8>,
    new_width: u32,
    new_height: u32,
) -> Seq<u8> {
    if new_width == width && new_height == height {
        samples.subrange(0, samples_needed(width, height, channels as int))
    } else {
        resized_samples(channels, width, height, samples, new_width, new_height)
    }
}

/// `image::load_from_memory`: decodes the bytes into their raw samples, or
/// gives the `Display` text of the error. The decoded image meets
/// [`raw_image_wf`], as the variants of `DynamicImage` and the invariant of
/// `ImageBuffer` show.
#[verifier::external_body]
pub(crate) fn load_from_memory(bytes: &[u8]) -> (r: Result<RawImage, String>)
    ensures
        r matches Ok(raw) ==> decoded_image(bytes@) is Ok && decoded_image(bytes@)->Ok_0 == raw@
            && raw_image_wf(raw@),
        r matches Err(t) ==> decoded_image(bytes@) is Err && decoded_image(bytes@)->Err_0 == t@,
{
    let img = image::load_from_memory(bytes).map_err(|e| e.to_string())?;
    Ok(RawImage {
        channels: img.color().channel_count(),
        width: img.width(),
        height: img.height(),
        samples_u8: img.as_flat_samples_u8().map(|f| f.samples.to_vec()),
        samples_u16: img.as_flat_samples_u16().map(|f| f.samples.to_vec()),
        samples_f32_bits: img.as_flat_samples_f32().map(|f| f.samples.iter().map(|v| v.to_bits()).collect()),
    })
}

/// `image::write_buffer_with_format` through a cursor over `out`:
/// writes the encoded image from position zero of `out`, or gives the
/// `Display` text of the error (writing into a vector cannot fail, so every
/// error is the encoder's). The encoders
/// assert that the buffer holds exactly `width * height` pixels, and the
/// BMP encoder's size arithmetic must not overflow. What `out`
/// holds after an error is not stated.
#[verifier::external_body]
pub(crate) fn write_buffer_with_format(
    out: &mut Vec<u8>,
    buf: &[u8],
    width: u32,
    height: u32,
    color: ColorType,
    format: ImageFormat,
) -> (r: Result<(), String>)
    requires
        color_channels_u8(color) > 0,
        buf@.len() == samples_needed(width, height, color_channels_u8(color)),
        encode_defined(width, height, color, format),
    ensures
        r is Ok <==> encoded_image(buf@, width, height, color, format) is Ok,
        r is Ok ==> final(out)@ == overwrite(old(out)@, encoded_image(buf@, width, height, color, format)->Ok_0),
        r matches Err(t) ==> encoded_image(buf@, width, height, color, format)->Err_0 == t@,
{
    let color = match color {
        ColorType::L8 => ImgColor::L8, ColorType::La8 => ImgColor::La8, ColorType::Rgb8 => ImgColor::Rgb8,
        ColorType::Rgba8 => ImgColor::Rgba8, ColorType::L16 => ImgColor::L16, ColorType::La16 => ImgColor::La16,
        ColorType::Rgb16 => ImgColor::Rgb16, ColorType::Rgba16 => ImgColor::Rgba16,
        ColorType::Rgb32F => ImgColor::Rgb32F, ColorType::Rgba32F => ImgColor::Rgba32F,
    };
    let format = match format {
        ImageFormat::PNG => ImgFormat::Png, ImageFormat::JPEG => ImgFormat::Jpeg, ImageFormat::TIFF => ImgFormat::Tiff,
        ImageFormat::GIF => ImgFormat::Gif, ImageFormat::BMP => ImgFormat::Bmp,
    };
    let mut writer = std::io::Cursor::new(out);
    image::write_buffer_with_format(&mut writer, buf, width, height, color, format).map_err(|e| e.to_string())
}

/// `image::imageops::resize` with the triangle filter on a one-channel
/// 8-bit image; the result has exactly `new_width * new_height` samples. When the size
/// is unchanged it copies the image's pixels.
#[verifier::external_body]
pub(crate) fn resize_luma8(width: u32, height: u32, data: &[u8], new_width: u32, new_height: u32) -> (r: Vec<u8>)
    requires
        fits(width, height, 1, data@.len() as int),
        resize_defined(width, height, 1, new_width, new_height),
    ensures
        new_width == width && new_height == height ==> r@ == data@.subrange(
            0,
            samples_needed(width, height, 1),
        ),
        !(new_width == width && new_height == height) ==> r@ == resized_samples(
            1,
            width,
            height,
            data@,
            new_width,
            new_height,
        ),
        r@.len() == samples_needed(new_width, new_height, 1),
{
    let img = ImageBuffer::<Luma<u8>, &[u8]>::from_raw(width, height, data).unwrap();
    image::imageops::resize(&img, new_width, new_height, FilterType::Triangle).into_raw()
}

/// `image::imageops::resize` with the triangle filter on a two-channel
/// 8-bit image; the result has exactly `2 * new_width * new_height` samples. When the size
/// is unchanged it copies the image's pixels.
#[verifier::external_body]
pub(crate) fn resize_luma_alpha8(width: u32, height: u32, data: &[u8], new_width: u32, new_height: u32) -> (r: Vec<u8>)
    requires
        fits(width, height, 2, data@.len() as int),
        resize_defined(width, height, 2, new_width, new_height),
    ensures
        new_width == width && new_height == height ==> r@ == data@.subrange(
            0,
            samples_needed(width, height, 2),
        ),
        !(new_width == width && new_height == height) ==> r@ == resized_samples(
            2,
            width,
            height,
            data@,
            new_width,
            new_height,
        ),
        r@.len() == samples_needed(new_width, new_height, 2),
{
    let img = ImageBuffer::<LumaA<u8>, &[u8]>::from_raw(width, height, data).unwrap();
    image::imageops::resize(&img, new_width, new_height, FilterType::Triangle).into_raw()
}

/// `image::imageops::resize` with the triangle filter on a three-channel
/// 8-bit image; the result has exactly `3 * new_width * new_height` samples. When the size
/// is unchanged it copies the image's pixels.
#[verifier::external_body]
pub(crate) fn resize_rgb8(width: u32, height: u32, data: &[u8], new_width: u32, new_height: u32) -> (r: Vec<u8>)
    requires
        fits(width, height, 3, data@.len() as int),
        resize_defined(width, height, 3, new_width, new_height),
    ensures
        new_width == width && new_height == height ==> r@ == data@.subrange(
            0,
            samples_needed(width, height, 3),
        ),
        !(new_width == width && new_height == height) ==> r@ == resized_samples(
            3,
            width,
            height,
            data@,
            new_width,
            new_height,
        ),
        r@.len() == samples_needed(new_width, new_height, 3),
{
    let img = ImageBuffer::<Rgb<u8>, &[u8]>::from_raw(width, height, data).unwrap();
    image::imageops::resize(&img, new_width, new_height, FilterType::Triangle).into_raw()
}

/// `image::imageops::resize` with the triangle filter on a four-channel
/// 8-bit image; the result has exactly `4 * new_width * new_height` samples. When the size
/// is unchanged it copies the image's pixels.
#[verifier::external_body]
pub(crate) fn resize_rgba8(width: u32, height: u32, data: &[u8], new_width: u32, new_height: u32) -> (r: Vec<u8>)
    requires
        fits(width, height, 4, data@.len() as int),
        resize_defined(width, height, 4, new_width, new_height),
    ensures
        new_width == width && new_height == height ==> r@ == data@.subrange(
            0,
            samples_needed(width, height, 4),
        ),
        !(new_width == width && new_height == height) ==> r@ == resized_samples(
            4,
            width,
            height,
            data@,
            new_width,
            new_height,
        ),
        r@.len() == samples_needed(new_width, new_height, 4),
{
    let img = ImageBuffer::<Rgba<u8>, &[u8]>::from_raw(width, height, data).unwrap();
    image::imageops::resize(&img, new_width, new_height, FilterType::Triangle).into_raw()
}

/// `image::imageops::thumbnail` on a one-channel 8-bit image; the result has
/// exactly `new_width * new_height` samples.
#[verifier::external_body]
pub(crate) fn thumbnail_luma8(width: u32, height: u32, data: &[u8], new_width: u32, new_height: u32) -> (r: Vec<u8>)
    requires
        fits(width, height, 1, data@.len() as int),
        thumbnail_defined(width, height, 1, new_width, new_height),
    ensures
        r@ == thumbnail_samples(1, width, height, data@, new_width, new_height),
        r@.len() == samples_needed(new_width, new_height, 1),
{
    let img = ImageBuffer::<Luma<u8>, &[u8]>::from_raw(width, height, data).unwrap();
    image::imageops::thumbnail(&img, new_width, new_height).into_raw()
}

/// `image::imageops::thumbnail` on a two-channel 8-bit image; the result has
/// exactly `2 * new_width * new_height` samples.
#[verifier::external_body]
pub(crate) fn thumbnail_luma_alpha8(width: u32, height: u32, data: &[u8], new_width: u32, new_height: u32) -> (r: Vec<u8>)
    requires
        fits(width, height, 2, data@.len() as int),
        thumbnail_defined(width, height, 2, new_width, new_height),
    ensures
        r@ == thumbnail_samples(2, width, height, data@, new_width, new_height),
        r@.len() == samples_needed(new_width, new_height, 2),
{
    let img = ImageBuffer::<LumaA<u8>, &[u8]>::from_raw(width, height, data).unwrap();
    image::imageops::thumbnail(&img, new_width, new_height).into_raw()
}

/// `image::imageops::thumbnail` on a three-channel 8-bit image; the result
/// has exactly `3 * new_width * new_height` samples.
#[verifier::external_body]
pub(crate) fn thumbnail_rgb8(width: u32, height: u32, data: &[u8], new_width: u32, new_height: u32) -> (r: Vec<u8>)
    requires
        fits(width, height, 3, data@.len() as int),
        thumbnail_defined(width, height, 3, new_width, new_height),
    ensures
        r@ == thumbnail_samples(3, width, height, data@, new_width, new_height),
        r@.len() == samples_needed(new_width, new_height, 3),
{
    let img = ImageBuffer::<Rgb<u8>, &[u8]>::from_raw(width, height, data).unwrap();
    image::imageops::thumbnail(&img, new_width, new_height).into_raw()
}

/// `image::imageops::thumbnail` on a four-channel 8-bit image; the result
/// has exactly `4 * new_width * new_height` samples.
#[verifier::external_body]
pub(crate) fn thumbnail_rgba8(width: u32, height: u32, data: &[u8], new_width: u32, new_height: u32) -> (r: Vec<u8>)
    requires
        fits(width, height, 4, data@.len() as int),
        thumbnail_defined(width, height, 4, new_width, new_height),
    ensures
        r@ == thumbnail_samples(4, width, height, data@, new_width, new_height),
        r@.len() == samples_needed(new_width, new_height, 4),
{
    let img = ImageBuffer::<Rgba<u8>, &[u8]>::from_raw(width, height, data).unwrap();
    image::imageops::thumbnail(&img, new_width, new_height).into_raw()
}

} // verus!
