//! A single image: its pixel layout, dimensions and raw samples, with the
//! per-image operations (decode, encode, resize, thumbnail).
use crate::datatypes::{
    format_name, mode_channels, mode_is_f32, mode_is_u16, mode_is_u8,
    ColorType, DaftError, DaftResult, ImageFormat, ImageMode,
};
use crate::image_codec::{
    color_channels_u8, decoded_image, encode_defined, encoded_image, fits, load_from_memory, overwrite, raw_image_wf, resize_defined,
    resize_luma8, resize_luma_alpha8, resize_rgb8, resize_rgba8, resize_result, resized_samples, samples_needed,
    thumbnail_defined, thumbnail_luma8, thumbnail_luma_alpha8, thumbnail_rgb8, thumbnail_rgba8,
    thumbnail_samples, write_buffer_with_format, RawImage, RawImageView,
};
use vstd::prelude::*;

verus! {

/// The raw samples of an image, row by row, `channels` samples per pixel.
/// The buffer may hold more samples than the image needs.
pub struct ImageBuf<T> {
    pub width: u32,
    pub height: u32,
    pub data: Vec<T>,
}

/// An image of one of the supported pixel layouts. Float samples are held
/// as their IEEE-754 bit patterns.
pub enum DaftImageBuffer {
    L(ImageBuf<u8>),
    LA(ImageBuf<u8>),
    RGB(ImageBuf<u8>),
    RGBA(ImageBuf<u8>),
    L16(ImageBuf<u16>),
    LA16(ImageBuf<u16>),
    RGB16(ImageBuf<u16>),
    RGBA16(ImageBuf<u16>),
    RGB32F(ImageBuf<u32>),
    RGBA32F(ImageBuf<u32>),
}

/// The plain values of an image. Only the sample sequence of the mode's
/// sample type is used; the other two are empty.
#[verifier::ext_equal]
pub struct ImageView {
    pub mode: ImageMode,
    pub width: u32,
    pub height: u32,
    pub samples8: Seq<u8>,
    pub samples16: Seq<u16>,
    pub samples32: Seq<u32>,
}

pub open spec fn view_u8(mode: ImageMode, b: ImageBuf<u8>) -> ImageView {
    ImageView {
        mode,
        width: b.width,
        height: b.height,
        samples8: b.data@,
        samples16: Seq::empty(),
        samples32: Seq::empty(),
    }
}

pub open spec fn view_u16(mode: ImageMode, b: ImageBuf<u16>) -> ImageView {
    ImageView {
        mode,
        width: b.width,
        height: b.height,
        samples8: Seq::empty(),
        samples16: b.data@,
        samples32: Seq::empty(),
    }
}

pub open spec fn view_u32(mode: ImageMode, b: ImageBuf<u32>) -> ImageView {
    ImageView {
        mode,
        width: b.width,
        height: b.height,
        samples8: Seq::empty(),
        samples16: Seq::empty(),
        samples32: b.data@,
    }
}

impl View for DaftImageBuffer {
    type V = ImageView;

    open spec fn view(&self) -> ImageView {
        match self {
            DaftImageBuffer::L(b) => view_u8(ImageMode::L, *b),
            DaftImageBuffer::LA(b) => view_u8(ImageMode::LA, *b),
            DaftImageBuffer::RGB(b) => view_u8(ImageMode::RGB, *b),
            DaftImageBuffer::RGBA(b) => view_u8(ImageMode::RGBA, *b),
            DaftImageBuffer::L16(b) => view_u16(ImageMode::L16, *b),
            DaftImageBuffer::LA16(b) => view_u16(ImageMode::LA16, *b),
            DaftImageBuffer::RGB16(b) => view_u16(ImageMode::RGB16, *b),
            DaftImageBuffer::RGBA16(b) => view_u16(ImageMode::RGBA16, *b),
            DaftImageBuffer::RGB32F(b) => view_u32(ImageMode::RGB32F, *b),
            DaftImageBuffer::RGBA32F(b) => view_u32(ImageMode::RGBA32F, *b),
        }
    }
}

/// The number of samples held by an image view, in its mode's sample type.
pub open spec fn view_sample_len(v: ImageView) -> int {
    if mode_is_u8(v.mode) {
        v.samples8.len() as int
    } else if mode_is_u16(v.mode) {
        v.samples16.len() as int
    } else {
        v.samples32.len() as int
    }
}

/// An image view is well formed when only its mode's sample sequence is
/// used and that sequence holds the whole image.
pub open spec fn view_wf(v: ImageView) -> bool {
    &&& fits(v.width, v.height, mode_channels(v.mode) as int, view_sample_len(v))
    &&& (!mode_is_u8(v.mode) ==> v.samples8.len() == 0)
    &&& (!mode_is_u16(v.mode) ==> v.samples16.len() == 0)
    &&& (!mode_is_f32(v.mode) ==> v.samples32.len() == 0)
}

/// The colour type of each mode.
pub open spec fn mode_color(m: ImageMode) -> ColorType {
    match m {
        ImageMode::L => ColorType::L8,
        ImageMode::LA => ColorType::La8,
        ImageMode::RGB => ColorType::Rgb8,
        ImageMode::RGBA => ColorType::Rgba8,
        ImageMode::L16 => ColorType::L16,
        ImageMode::LA16 => ColorType::La16,
        ImageMode::RGB16 => ColorType::Rgb16,
        ImageMode::RGBA16 => ColorType::Rgba16,
        ImageMode::RGB32F => ColorType::Rgb32F,
        ImageMode::RGBA32F => ColorType::Rgba32F,
    }
}

/// The image a decoded raw image stands for: its channel count and sample
/// type select the mode.
pub open spec fn raw_to_view(r: RawImageView) -> ImageView {
    let mode = if r.samples_u8 is Some {
        if r.channels == 1 {
            ImageMode::L
        } else if r.channels == 2 {
            ImageMode::LA
        } else if r.channels == 3 {
            ImageMode::RGB
        } else {
            ImageMode::RGBA
        }
    } else if r.samples_u16 is Some {
        if r.channels == 1 {
            ImageMode::L16
        } else if r.channels == 2 {
            ImageMode::LA16
        } else if r.channels == 3 {
            ImageMode::RGB16
        } else {
            ImageMode::RGBA16
        }
    } else if r.channels == 3 {
        ImageMode::RGB32F
    } else {
        ImageMode::RGBA32F
    };
    ImageView {
        mode,
        width: r.width,
        height: r.height,
        samples8: match r.samples_u8 {
            Some(s) => s,
            None => Seq::empty(),
        },
        samples16: match r.samples_u16 {
            Some(s) => s,
            None => Seq::empty(),
        },
        samples32: match r.samples_f32_bits {
            Some(s) => s,
            None => Seq::empty(),
        },
    }
}

/// An 8-bit image of the given mode and dimensions with these samples.
pub open spec fn u8_view(mode: ImageMode, width: u32, height: u32, samples: Seq<u8>) -> ImageView {
    ImageView {
        mode,
        width,
        height,
        samples8: samples,
        samples16: Seq::empty(),
        samples32: Seq::empty(),
    }
}

/// The message of a failed decode: a fixed prefix and the decoder's error text.
pub open spec fn decode_failure_message(detail: Seq<char>) -> Seq<char> {
    "Decoding image from bytes failed: "@ + detail
}

/// The message of a failed encode: a fixed prefix naming the file format,
/// and the encoder's error text.
pub open spec fn encode_failure_message(f: ImageFormat, detail: Seq<char>) -> Seq<char> {
    "Encoding image into file format "@ + format_name(f)@ + " failed: "@ + detail
}

/// The image `resize` makes of an 8-bit image.
pub open spec fn resized_view(v: ImageView, w: u32, h: u32) -> ImageView {
    u8_view(
        v.mode,
        w,
        h,
        resize_result(mode_channels(v.mode) as u8, v.width, v.height, v.samples8, w, h),
    )
}

/// The image `thumbnail` makes of an 8-bit image.
pub open spec fn thumbnail_view(v: ImageView, w: u32, h: u32) -> ImageView {
    u8_view(
        v.mode,
        w,
        h,
        thumbnail_samples(mode_channels(v.mode) as u8, v.width, v.height, v.samples8, w, h),
    )
}

/// Moves an owned sample buffer into an image buffer of the same
/// dimensions. The samples must hold the whole image.
pub fn image_buffer_vec_to_cow<T>(width: u32, height: u32, channels: u16, data: Vec<T>) -> (r:
    ImageBuf<T>)
    requires
        fits(width, height, channels as int, data@.len() as int),
    ensures
        r.width == width,
        r.height == height,
        r.data@ == data@,
        fits(r.width, r.height, channels as int, r.data@.len() as int),
{
    ImageBuf { width, height, data }
}

impl DaftImageBuffer {
    /// The image is well formed: its samples hold the whole image.
    pub open spec fn wf(&self) -> bool {
        view_wf(self@)
    }

    pub fn height(&self) -> (r: u32)
        ensures
            r == self@.height,
    {
        match self {
            DaftImageBuffer::L(b) => b.height,
            DaftImageBuffer::LA(b) => b.height,
            DaftImageBuffer::RGB(b) => b.height,
            DaftImageBuffer::RGBA(b) => b.height,
            DaftImageBuffer::L16(b) => b.height,
            DaftImageBuffer::LA16(b) => b.height,
            DaftImageBuffer::RGB16(b) => b.height,
            DaftImageBuffer::RGBA16(b) => b.height,
            DaftImageBuffer::RGB32F(b) => b.height,
            DaftImageBuffer::RGBA32F(b) => b.height,
        }
    }

    pub fn width(&self) -> (r: u32)
        ensures
            r == self@.width,
    {
        match self {
            DaftImageBuffer::L(b) => b.width,
            DaftImageBuffer::LA(b) => b.width,
            DaftImageBuffer::RGB(b) => b.width,
            DaftImageBuffer::RGBA(b) => b.width,
            DaftImageBuffer::L16(b) => b.width,
            DaftImageBuffer::LA16(b) => b.width,
            DaftImageBuffer::RGB16(b) => b.width,
            DaftImageBuffer::RGBA16(b) => b.width,
            DaftImageBuffer::RGB32F(b) => b.width,
            DaftImageBuffer::RGBA32F(b) => b.width,
        }
    }

    /// The samples of an 8-bit image.
    pub fn as_u8_slice(&self) -> (r: &[u8])
        requires
            mode_is_u8(self@.mode),
        ensures
            r@ == self@.samples8,
    {
        match self {
            DaftImageBuffer::L(b) => b.data.as_slice(),
            DaftImageBuffer::LA(b) => b.data.as_slice(),
            DaftImageBuffer::RGB(b) => b.data.as_slice(),
            DaftImageBuffer::RGBA(b) => b.data.as_slice(),
            _ => {
                proof {
                    assert(false);
                }
                &[]
            },
        }
    }

    pub fn color(&self) -> (r: ColorType)
        ensures
            r == mode_color(self@.mode),
    {
        match self {
            DaftImageBuffer::L(..) => ColorType::L8,
            DaftImageBuffer::LA(..) => ColorType::La8,
            DaftImageBuffer::RGB(..) => ColorType::Rgb8,
            DaftImageBuffer::RGBA(..) => ColorType::Rgba8,
            DaftImageBuffer::L16(..) => ColorType::L16,
            DaftImageBuffer::LA16(..) => ColorType::La16,
            DaftImageBuffer::RGB16(..) => ColorType::Rgb16,
            DaftImageBuffer::RGBA16(..) => ColorType::Rgba16,
            DaftImageBuffer::RGB32F(..) => ColorType::Rgb32F,
            DaftImageBuffer::RGBA32F(..) => ColorType::Rgba32F,
        }
    }

    pub fn mode(&self) -> (r: ImageMode)
        ensures
            r == self@.mode,
    {
        match self.color() {
            ColorType::L8 => ImageMode::L,
            ColorType::La8 => ImageMode::LA,
            ColorType::Rgb8 => ImageMode::RGB,
            ColorType::Rgba8 => ImageMode::RGBA,
            ColorType::L16 => ImageMode::L16,
            ColorType::La16 => ImageMode::LA16,
            ColorType::Rgb16 => ImageMode::RGB16,
            ColorType::Rgba16 => ImageMode::RGBA16,
            ColorType::Rgb32F => ImageMode::RGB32F,
            ColorType::Rgba32F => ImageMode::RGBA32F,
        }
    }

    /// The image a decoded raw image stands for, in the buffer variant of
    /// its channel count and sample type.
    pub fn from_raw_image(raw: RawImage) -> (r: DaftImageBuffer)
        requires
            raw_image_wf(raw@),
        ensures
            r@ =~= raw_to_view(raw@),
            r.wf(),
            mode_channels(r@.mode) == raw.channels,
            r@.width == raw.width && r@.height == raw.height,
    {
        proof {
            law_decoded_layout(raw@);
        }
        let RawImage { channels, width, height, samples_u8, samples_u16, samples_f32_bits } = raw;
        match (samples_u8, samples_u16, samples_f32_bits) {
            (Some(data), None, None) => {
                let b = image_buffer_vec_to_cow(width, height, channels as u16, data);
                if channels == 1 {
                    DaftImageBuffer::L(b)
                } else if channels == 2 {
                    DaftImageBuffer::LA(b)
                } else if channels == 3 {
                    DaftImageBuffer::RGB(b)
                } else {
                    DaftImageBuffer::RGBA(b)
                }
            },
            (None, Some(data), None) => {
                let b = image_buffer_vec_to_cow(width, height, channels as u16, data);
                if channels == 1 {
                    DaftImageBuffer::L16(b)
                } else if channels == 2 {
                    DaftImageBuffer::LA16(b)
                } else if channels == 3 {
                    DaftImageBuffer::RGB16(b)
                } else {
                    DaftImageBuffer::RGBA16(b)
                }
            },
            (None, None, Some(data)) => {
                let b = image_buffer_vec_to_cow(width, height, channels as u16, data);
                if channels == 3 {
                    DaftImageBuffer::RGB32F(b)
                } else {
                    DaftImageBuffer::RGBA32F(b)
                }
            },
            _ => {
                proof {
                    assert(false);
                }
                DaftImageBuffer::L(ImageBuf { width: 0, height: 0, data: Vec::new() })
            },
        }
    }

    /// Decodes an image from the bytes of an image file.
    pub fn decode(bytes: &[u8]) -> (r: DaftResult<DaftImageBuffer>)
        ensures
            r is Ok <==> decoded_image(bytes@) is Ok,
            r matches Ok(b) ==> b@ =~= raw_to_view(decoded_image(bytes@)->Ok_0) && b.wf(),
            r matches Ok(b) ==> mode_channels(b@.mode) == decoded_image(bytes@)->Ok_0.channels
                && b@.width == decoded_image(bytes@)->Ok_0.width && b@.height == decoded_image(
                bytes@,
            )->Ok_0.height,
            r matches Err(e) ==> e matches DaftError::ValueError(m) && m@ == decode_failure_message(
                decoded_image(bytes@)->Err_0,
            ),
    {
        match load_from_memory(bytes) {
            Ok(raw) => Ok(DaftImageBuffer::from_raw_image(raw)),
            Err(detail) => {
                let mut msg = String::from_str("Decoding image from bytes failed: ");
                msg.append(detail.as_str());
                Err(DaftError::ValueError(msg))
            },
        }
    }

    /// Shrinks an 8-bit image to `w` by `h` pixels.
    pub fn thumbnail(&self, w: u32, h: u32) -> (r: DaftImageBuffer)
        requires
            self.wf(),
            mode_is_u8(self@.mode),
            thumbnail_defined(self@.width, self@.height, mode_channels(self@.mode) as int, w, h),
        ensures
            r@ =~= thumbnail_view(self@, w, h),
            r@.samples8.len() == samples_needed(w, h, mode_channels(self@.mode) as int),
            r.wf(),
            r@.mode == self@.mode && r@.width == w && r@.height == h,
            r@.samples8 == thumbnail_samples(
                mode_channels(self@.mode) as u8,
                self@.width,
                self@.height,
                self@.samples8,
                w,
                h,
            ),
    {
        match self {
            DaftImageBuffer::L(b) => {
                let out = thumbnail_luma8(b.width, b.height, b.data.as_slice(), w, h);
                DaftImageBuffer::L(image_buffer_vec_to_cow(w, h, 1, out))
            },
            DaftImageBuffer::LA(b) => {
                let out = thumbnail_luma_alpha8(b.width, b.height, b.data.as_slice(), w, h);
                DaftImageBuffer::LA(image_buffer_vec_to_cow(w, h, 2, out))
            },
            DaftImageBuffer::RGB(b) => {
                let out = thumbnail_rgb8(b.width, b.height, b.data.as_slice(), w, h);
                DaftImageBuffer::RGB(image_buffer_vec_to_cow(w, h, 3, out))
            },
            DaftImageBuffer::RGBA(b) => {
                let out = thumbnail_rgba8(b.width, b.height, b.data.as_slice(), w, h);
                DaftImageBuffer::RGBA(image_buffer_vec_to_cow(w, h, 4, out))
            },
            _ => {
                proof {
                    assert(false);
                }
                DaftImageBuffer::L(ImageBuf { width: 0, height: 0, data: Vec::new() })
            },
        }
    }

    /// Encodes an 8-bit image into the given file format, writing the file's
    /// bytes from the start of `out`.
    pub fn encode(&self, image_format: ImageFormat, out: &mut Vec<u8>) -> (r: DaftResult<()>)
        requires
            mode_is_u8(self@.mode),
            self@.samples8.len() == samples_needed(
                self@.width,
                self@.height,
                mode_channels(self@.mode) as int,
            ),
            encode_defined(self@.width, self@.height, mode_color(self@.mode), image_format),
        ensures
            r is Ok <==> encoded_image(
                self@.samples8,
                self@.width,
                self@.height,
                mode_color(self@.mode),
                image_format,
            ) is Ok,
            r is Ok ==> final(out)@ == overwrite(
                old(out)@,
                encoded_image(
                    self@.samples8,
                    self@.width,
                    self@.height,
                    mode_color(self@.mode),
                    image_format,
                )->Ok_0,
            ),
            r matches Err(e) ==> e matches DaftError::ValueError(m) && m@ == encode_failure_message(
                image_format,
                encoded_image(
                    self@.samples8,
                    self@.width,
                    self@.height,
                    mode_color(self@.mode),
                    image_format,
                )->Err_0,
            ),
    {
        let res = write_buffer_with_format(
            out,
            self.as_u8_slice(),
            self.width(),
            self.height(),
            self.color(),
            image_format,
        );
        match res {
            Ok(()) => Ok(()),
            Err(detail) => {
                let mut msg = String::from_str("Encoding image into file format ");
                msg.append(image_format.name());
                msg.append(" failed: ");
                msg.append(detail.as_str());
                Err(DaftError::ValueError(msg))
            },
        }
    }

    /// Resizes an 8-bit image to `w` by `h` pixels with the triangle filter.
    pub fn resize(&self, w: u32, h: u32) -> (r: DaftImageBuffer)
        requires
            self.wf(),
            mode_is_u8(self@.mode),
            resize_defined(self@.width, self@.height, mode_channels(self@.mode) as int, w, h),
        ensures
            r@ =~= resized_view(self@, w, h),
            r@.samples8.len() == samples_needed(w, h, mode_channels(self@.mode) as int),
            r.wf(),
            w == self@.width && h == self@.height && self@.samples8.len() == samples_needed(
                w,
                h,
                mode_channels(self@.mode) as int,
            ) ==> r@ == self@,
            r@.mode == self@.mode && r@.width == w && r@.height == h,
            !(w == self@.width && h == self@.height) ==> r@.samples8 == resized_samples(
                mode_channels(self@.mode) as u8,
                self@.width,
                self@.height,
                self@.samples8,
                w,
                h,
            ),
    {
        proof {
            if w == self@.width && h == self@.height && self@.samples8.len() == samples_needed(
                w,
                h,
                mode_channels(self@.mode) as int,
            ) {
                law_resize_same_size(self@);
            }
        }
        match self {
            DaftImageBuffer::L(b) => {
                let out = resize_luma8(b.width, b.height, b.data.as_slice(), w, h);
                DaftImageBuffer::L(image_buffer_vec_to_cow(w, h, 1, out))
            },
            DaftImageBuffer::LA(b) => {
                let out = resize_luma_alpha8(b.width, b.height, b.data.as_slice(), w, h);
                DaftImageBuffer::LA(image_buffer_vec_to_cow(w, h, 2, out))
            },
            DaftImageBuffer::RGB(b) => {
                let out = resize_rgb8(b.width, b.height, b.data.as_slice(), w, h);
                DaftImageBuffer::RGB(image_buffer_vec_to_cow(w, h, 3, out))
            },
            DaftImageBuffer::RGBA(b) => {
                let out = resize_rgba8(b.width, b.height, b.data.as_slice(), w, h);
                DaftImageBuffer::RGBA(image_buffer_vec_to_cow(w, h, 4, out))
            },
            _ => {
                proof {
                    assert(false);
                }
                DaftImageBuffer::L(ImageBuf { width: 0, height: 0, data: Vec::new() })
            },
        }
    }
}

/// Resizing an 8-bit image to its own size gives back the same image,
/// when its samples are exactly the image.
pub proof fn law_resize_same_size(v: ImageView)
    requires
        view_wf(v),
        mode_is_u8(v.mode),
        v.samples8.len() == samples_needed(v.width, v.height, mode_channels(v.mode) as int),
    ensures
        resized_view(v, v.width, v.height) == v,
{
    assert(v.samples8.subrange(0, v.samples8.len() as int) =~= v.samples8);
    assert(v.samples16 =~= Seq::<u16>::empty());
    assert(v.samples32 =~= Seq::<u32>::empty());
    assert(resized_view(v, v.width, v.height) =~= v);
}

/// A decoded image keeps the decoder's pixel layout: its mode has the
/// decoder's channel count and sample type, and it has the decoder's
/// dimensions and samples.
pub proof fn law_decoded_layout(r: RawImageView)
    requires
        raw_image_wf(r),
    ensures
        mode_channels(raw_to_view(r).mode) == r.channels,
        mode_is_u8(raw_to_view(r).mode) <==> r.samples_u8 is Some,
        mode_is_u16(raw_to_view(r).mode) <==> r.samples_u16 is Some,
        mode_is_f32(raw_to_view(r).mode) <==> r.samples_f32_bits is Some,
        raw_to_view(r).width == r.width,
        raw_to_view(r).height == r.height,
        r.samples_u8 matches Some(s) ==> raw_to_view(r).samples8 == s,
        r.samples_u16 matches Some(s) ==> raw_to_view(r).samples16 == s,
        r.samples_f32_bits matches Some(s) ==> raw_to_view(r).samples32 == s,
{
}

/// A thumbnail is taken of the source image as it stands, with its own
/// width, height and samples, to exactly the requested size, and keeps the
/// source's mode.
pub proof fn law_thumbnail_of_source(v: ImageView, w: u32, h: u32)
    ensures
        thumbnail_view(v, w, h).mode == v.mode,
        thumbnail_view(v, w, h).width == w,
        thumbnail_view(v, w, h).height == h,
        thumbnail_view(v, w, h).samples8 == thumbnail_samples(
            mode_channels(v.mode) as u8,
            v.width,
            v.height,
            v.samples8,
            w,
            h,
        ),
{
}

/// A resized image is taken of the source image as it stands, with its own
/// width, height and samples, to exactly the requested size, and keeps the
/// source's mode; when the size changes its samples are the filter's.
pub proof fn law_resize_of_source(v: ImageView, w: u32, h: u32)
    ensures
        resized_view(v, w, h).mode == v.mode,
        resized_view(v, w, h).width == w,
        resized_view(v, w, h).height == h,
        !(w == v.width && h == v.height) ==> resized_view(v, w, h).samples8 == resized_samples(
            mode_channels(v.mode) as u8,
            v.width,
            v.height,
            v.samples8,
            w,
            h,
        ),
{
}

/// The colour type of an 8-bit mode has that mode's channel count; the
/// other modes have colour types the 8-bit encoders do not take.
pub proof fn law_mode_color_channels(m: ImageMode)
    ensures
        mode_is_u8(m) ==> color_channels_u8(mode_color(m)) == mode_channels(m),
        !mode_is_u8(m) ==> color_channels_u8(mode_color(m)) == 0,
{
}

} // verus!
