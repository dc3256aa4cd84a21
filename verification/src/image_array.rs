//! Columns of images in a columnar layout: one row per image, with the
//! samples of all images concatenated and per-row offsets, channel counts,
//! heights, widths, mode codes and validity.
use crate::arrow_support::{
    bitmap_bits, bitmap_clone, bitmap_from_mutable, bitmap_get_bit, bitmap_new_zeroed,
    byte_lists_new, byte_lists_offsets, byte_lists_offsets_slice, byte_lists_validity,
    byte_lists_values, byte_lists_values_slice, count_unset, mutable_bitmap_bits,
    mutable_bitmap_push, mutable_bitmap_unset_bits, mutable_bitmap_with_capacity, offsets_try_from,
    offsets_valid, opt_bitmap_bits, total_bytes, u16_column_new, u16_column_slice,
    u16_column_validity, u16_column_values, u32_column_new, u32_column_slice, u32_column_validity,
    u32_column_values, u8_column_new, u8_column_slice, u8_column_validity, u8_column_values,
    ByteLists, U16Column, U32Column, U8Column,
};
use crate::binary_array::{opt_vec_bytes, rows_view, BinaryArray};
use crate::datatypes::{
    dtype_name, lemma_mode_code_roundtrip, mode_channels, mode_code,
    mode_dtype, mode_is_u8, mode_of_code, ColorType, DaftError, DaftResult, DataType, Field, ImageFormat, ImageMode,
};
use crate::image_buffer::{
    decode_failure_message, encode_failure_message, image_buffer_vec_to_cow, law_resize_same_size, mode_color, raw_to_view, resized_view, u8_view, view_wf,
    DaftImageBuffer, ImageView,
};
use crate::image_codec::{bmp_sizes_ok, decoded_image, encode_defined, encoded_image, fits, resize_defined, samples_needed};
use arrow2::bitmap::Bitmap;
use vstd::prelude::*;

verus! {

/// The columns an image array is built from.
pub struct ImageArrayVecs<T> {
    pub data: Vec<T>,
    pub channels: Vec<u16>,
    pub heights: Vec<u32>,
    pub widths: Vec<u32>,
    pub modes: Vec<u8>,
    pub offsets: Vec<i64>,
    pub validity: Option<Bitmap>,
}

/// A column of images, held as Arrow arrays. Row `i` holds the samples of
/// list `i` of `data`, described by `channels[i]`, `heights[i]`, `widths[i]`
/// and the mode code `modes[i]`, and is null where the validity bitmap has
/// an unset bit; every child array carries the same validity.
pub struct ImageArray {
    field: Field,
    data: ByteLists,
    channels: U16Column,
    heights: U32Column,
    widths: U32Column,
    modes: U8Column,
    validity: Option<Bitmap>,
}

/// The plain values of an image array.
#[verifier::ext_equal]
pub struct ImageArrayView {
    pub name: Seq<char>,
    pub dtype: DataType,
    pub data: Seq<u8>,
    pub offsets: Seq<i64>,
    pub channels: Seq<u16>,
    pub heights: Seq<u32>,
    pub widths: Seq<u32>,
    pub modes: Seq<u8>,
    pub validity: Option<Seq<bool>>,
}

pub open spec fn opt_image_view(b: Option<DaftImageBuffer>) -> Option<ImageView> {
    match b {
        Some(x) => Some(x@),
        None => None,
    }
}

/// The views of a sequence of optional images.
pub open spec fn buffers_view(inputs: Seq<Option<DaftImageBuffer>>) -> Seq<Option<ImageView>> {
    inputs.map_values(|b: Option<DaftImageBuffer>| opt_image_view(b))
}

/// The 8-bit samples of an optional image (none for a null row).
pub open spec fn row_samples(b: Option<ImageView>) -> Seq<u8> {
    match b {
        Some(v) => v.samples8,
        None => Seq::empty(),
    }
}

/// The number of 8-bit samples of some optional images.
pub open spec fn total_samples(imgs: Seq<Option<ImageView>>) -> int
    decreases imgs.len(),
{
    if imgs.len() == 0 {
        0
    } else {
        total_samples(imgs.drop_last()) + row_samples(imgs.last()).len()
    }
}

/// The image type of a column whose samples are bytes.
pub open spec fn image_u8_type(mode: Option<ImageMode>) -> DataType {
    DataType::Image(Box::new(DataType::UInt8), mode)
}

impl ImageArrayView {
    /// The number of rows.
    pub open spec fn len(self) -> int {
        self.offsets.len() - 1
    }

    pub open spec fn is_valid(self, i: int) -> bool {
        match self.validity {
            Some(b) => b[i],
            None => true,
        }
    }

    /// The samples of row `i`.
    pub open spec fn row_bytes(self, i: int) -> Seq<u8> {
        self.data.subrange(self.offsets[i] as int, self.offsets[i + 1] as int)
    }

    /// The mode of row `i`, when its code names one.
    pub open spec fn row_mode(self, i: int) -> Option<ImageMode> {
        mode_of_code(self.modes[i])
    }

    /// The image row `i` holds.
    pub open spec fn row_image(self, i: int) -> ImageView {
        u8_view(self.row_mode(i)->0, self.widths[i], self.heights[i], self.row_bytes(i))
    }

    /// The image mode the column's type declares, if any.
    pub open spec fn image_mode(self) -> Option<ImageMode> {
        match self.dtype {
            DataType::Image(_, m) => m,
            _ => None,
        }
    }

    /// The column's type declares byte samples.
    pub open spec fn inner_is_u8(self) -> bool {
        match self.dtype {
            DataType::Image(inner, _) => *inner == DataType::UInt8,
            _ => false,
        }
    }

    /// Row `i` can be read back as an image: it is null, or the column holds
    /// bytes, its mode code names an 8-bit mode whose channel count is the
    /// row's, and its samples hold the whole image.
    pub open spec fn row_readable(self, i: int) -> bool {
        self.is_valid(i) ==> {
            &&& self.inner_is_u8()
            &&& self.row_mode(i) matches Some(m)
            &&& mode_is_u8(m)
            &&& mode_channels(m) == self.channels[i]
            &&& fits(self.widths[i], self.heights[i], self.channels[i] as int, self.row_bytes(i).len() as int)
        }
    }

    /// Every row can be read back as an image.
    pub open spec fn all_readable(self) -> bool {
        forall|i: int| 0 <= i < self.len() ==> #[trigger] self.row_readable(i)
    }

    /// The layout invariant: an image type, valid offsets within the data,
    /// and one entry per row in every other column.
    pub open spec fn wf(self) -> bool {
        &&& self.dtype is Image
        &&& offsets_valid(self.offsets)
        &&& self.offsets.last() <= self.data.len()
        &&& self.channels.len() == self.len()
        &&& self.heights.len() == self.len()
        &&& self.widths.len() == self.len()
        &&& self.modes.len() == self.len()
        &&& (self.validity matches Some(b) ==> b.len() == self.len())
    }

    /// The column holds these images, in order, under this name and declared
    /// mode. When the images have no samples at all, every row is null.
    pub open spec fn holds_images(self, name: Seq<char>, imgs: Seq<Option<ImageView>>, mode: Option<ImageMode>) -> bool {
        &&& self.wf()
        &&& self.name == name
        &&& self.dtype == image_u8_type(mode)
        &&& self.len() == imgs.len()
        &&& if total_samples(imgs) == 0 {
            &&& self == null_view(name, image_u8_type(mode), imgs.len())
            &&& forall|i: int| 0 <= i < self.len() ==> !#[trigger] self.is_valid(i)
        } else {
            &&& self.offsets[0] == 0
            &&& self.offsets.last() == self.data.len()
            &&& (self.validity is None <==> forall|i: int|
                0 <= i < imgs.len() ==> #[trigger] imgs[i] is Some)
            &&& forall|i: int|
                0 <= i < self.len() ==> (#[trigger] imgs[i] is None ==> {
                    &&& self.modes[i] == mode_code(ImageMode::L)
                    &&& self.channels[i] == 1
                    &&& self.widths[i] == 0
                    &&& self.heights[i] == 0
                    &&& self.row_bytes(i).len() == 0
                })
            &&& forall|i: int|
                0 <= i < self.len() ==> {
                    &&& (#[trigger] self.is_valid(i) <==> imgs[i] is Some)
                    &&& (imgs[i] matches Some(v) ==> {
                        &&& self.row_mode(i) == Some(v.mode)
                        &&& self.channels[i] == mode_channels(v.mode)
                        &&& self.widths[i] == v.width
                        &&& self.heights[i] == v.height
                        &&& self.row_bytes(i) == v.samples8
                    })
                }
        }
    }
}

/// The view of an array in which every one of `n` rows is null.
pub open spec fn null_view(name: Seq<char>, dtype: DataType, n: nat) -> ImageArrayView {
    ImageArrayView {
        name,
        dtype,
        data: Seq::empty(),
        offsets: Seq::new(n + 1, |_i: int| 0i64),
        channels: Seq::new(n, |_i: int| 0u16),
        heights: Seq::new(n, |_i: int| 0u32),
        widths: Seq::new(n, |_i: int| 0u32),
        modes: Seq::new(n, |_i: int| 0u8),
        validity: Some(Seq::new(n, |_i: int| false)),
    }
}

/// The view of an array built from these columns.
pub open spec fn vecs_view(name: Seq<char>, dtype: DataType, vecs: ImageArrayVecs<u8>) -> ImageArrayView {
    ImageArrayView {
        name,
        dtype,
        data: vecs.data@,
        offsets: vecs.offsets@,
        channels: vecs.channels@,
        heights: vecs.heights@,
        widths: vecs.widths@,
        modes: vecs.modes@,
        validity: opt_bitmap_bits(vecs.validity),
    }
}

/// The images `resize` makes of the rows of an array: the resized image of
/// each non-null row, `None` for each null row.
pub open spec fn resized_images(v: ImageArrayView, w: u32, h: u32) -> Seq<Option<ImageView>> {
    Seq::new(
        v.len() as nat,
        |i: int|
            if v.is_valid(i) {
                Some(resized_view(v.row_image(i), w, h))
            } else {
                None
            },
    )
}

/// The number of samples the first `n` rows of an array have once resized
/// to `w` by `h` pixels.
pub open spec fn resized_total(v: ImageArrayView, w: u32, h: u32, n: int) -> int
    decreases n,
{
    if n <= 0 {
        0
    } else {
        resized_total(v, w, h, n - 1) + if v.is_valid(n - 1) {
            samples_needed(w, h, v.channels[n - 1] as int)
        } else {
            0
        }
    }
}

/// Row `i` can be read back and, when it holds an image, can be resized to
/// `w` by `h` pixels without a panic.
pub open spec fn row_resizable(v: ImageArrayView, i: int, w: u32, h: u32) -> bool {
    &&& v.row_readable(i)
    &&& (v.is_valid(i) ==> resize_defined(v.widths[i], v.heights[i], v.channels[i] as int, w, h))
}

/// `resize` can run on the column: there is room for one offset more than
/// there are rows, every row can be resized, and the resized samples
/// together are addressable by `i64` offsets.
pub open spec fn resize_ready(v: ImageArrayView, w: u32, h: u32) -> bool {
    &&& v.len() < usize::MAX
    &&& forall|i: int| 0 <= i < v.len() ==> #[trigger] row_resizable(v, i, w, h)
    &&& resized_total(v, w, h, v.len()) <= i64::MAX
}

/// What `resize` gives: the column holding the resized images under the same
/// name and declared mode, each of whose rows can be read back and holds
/// exactly its image's samples; with a positive size, the same null rows.
pub open spec fn resize_outcome(v: ImageArrayView, w: u32, h: u32, a: ImageArrayView) -> bool {
    &&& a.holds_images(v.name, resized_images(v, w, h), v.image_mode())
    &&& a.all_readable()
    &&& forall|i: int| 0 <= i < a.len() ==> #[trigger] row_exact(a, i)
    &&& (w > 0 && h > 0 ==> forall|i: int|
        0 <= i < a.len() ==> (#[trigger] a.is_valid(i) <==> v.is_valid(i)))
}

/// Row `i` is null, or it holds exactly the samples its image needs, as the
/// encoders demand.
pub open spec fn row_exact(v: ImageArrayView, i: int) -> bool {
    v.is_valid(i) ==> v.row_bytes(i).len() == samples_needed(
        v.widths[i],
        v.heights[i],
        v.channels[i] as int,
    )
}

/// The outcome of encoding row `i`: `Some(None)` for a null row,
/// `Some(Some(bytes))` for the encoded file, `None` when the encoder fails.
pub open spec fn encoded_row(v: ImageArrayView, i: int, f: ImageFormat) -> Option<Option<Seq<u8>>> {
    if !v.is_valid(i) {
        Some(None)
    } else {
        match encoded_image(
            v.row_bytes(i),
            v.widths[i],
            v.heights[i],
            mode_color(v.row_mode(i)->0),
            f,
        ) {
            Ok(b) => Some(Some(b)),
            Err(_) => None,
        }
    }
}

/// The encoder's error text for row `i`, when encoding it fails.
pub open spec fn row_encode_error(v: ImageArrayView, i: int, f: ImageFormat) -> Seq<char> {
    encoded_image(
        v.row_bytes(i),
        v.widths[i],
        v.heights[i],
        mode_color(v.row_mode(i)->0),
        f,
    )->Err_0
}

/// The error `encode` gives when a row fails: the value error of the
/// first row whose encoding fails, with that row's encoder text.
pub open spec fn encode_failure_error(v: ImageArrayView, f: ImageFormat, e: DaftError) -> bool {
    e matches DaftError::ValueError(m) && exists|k: int|
        first_encode_failure(v, f, k) && m@ == encode_failure_message(
            f,
            #[trigger] row_encode_error(v, k, f),
        )
}

/// Row `i` can be read back, holds exactly its image's samples, and has a
/// size the encoder for `f` can handle.
pub open spec fn row_encodable(v: ImageArrayView, i: int, f: ImageFormat) -> bool {
    &&& v.row_readable(i)
    &&& row_exact(v, i)
    &&& row_encode_defined(v, i, f)
}

/// `encode` can run on the column: every row can be read back, holds
/// exactly its image's samples and has a size the encoder can handle, and,
/// when every row encodes, the files together are addressable by `i64`
/// offsets.
pub open spec fn encode_ready(v: ImageArrayView, f: ImageFormat) -> bool {
    &&& v.all_readable()
    &&& forall|i: int| 0 <= i < v.len() ==> #[trigger] row_exact(v, i)
    &&& forall|i: int| 0 <= i < v.len() ==> #[trigger] row_encode_defined(v, i, f)
    &&& all_encode(v, f) ==> total_bytes(encoded_rows(v, f)) <= i64::MAX
}

/// Row `k` is the first row whose encoding fails.
pub open spec fn first_encode_failure(v: ImageArrayView, f: ImageFormat, k: int) -> bool {
    &&& 0 <= k < v.len()
    &&& encoded_row(v, k, f) is None
    &&& forall|j: int| 0 <= j < k ==> (#[trigger] encoded_row(v, j, f)) is Some
}

/// Row `i` is null, or its size is one the encoder for format `f` can
/// handle without overflowing.
pub open spec fn row_encode_defined(v: ImageArrayView, i: int, f: ImageFormat) -> bool {
    v.is_valid(i) ==> encode_defined(v.widths[i], v.heights[i], mode_color(v.row_mode(i)->0), f)
}

/// Every row encodes.
pub open spec fn all_encode(v: ImageArrayView, f: ImageFormat) -> bool {
    forall|i: int| 0 <= i < v.len() ==> (#[trigger] encoded_row(v, i, f)) is Some
}

/// The rows of the encoded column.
pub open spec fn encoded_rows(v: ImageArrayView, f: ImageFormat) -> Seq<Option<Seq<u8>>> {
    Seq::new(v.len() as nat, |i: int| encoded_row(v, i, f)->0)
}

/// How decoding a binary column ends: a row fails to decode (with the
/// decoder's error text), a decoded image's sample type differs from the
/// first image's (with both types, the new one first), or every row decodes
/// (with the images, `None` for null rows, and the sample type of the first
/// image if any).
pub enum DecodeScan {
    Failed(Seq<char>),
    Mismatch(DataType, DataType),
    Decoded(Seq<Option<ImageView>>, Option<DataType>),
}

/// The message when two decoded images have different sample types.
pub open spec fn mismatch_message(t: DataType, cached: DataType) -> Seq<char> {
    "All images in a column must have the same dtype, but got: "@ + dtype_name(t)@ + " and "@
        + dtype_name(cached)@
}

/// Whether decoding ended as `scan`, with the error it gives: the decode
/// failure's or the mismatch's value error.
pub open spec fn decode_error_matches(scan: DecodeScan, e: DaftError) -> bool {
    match scan {
        DecodeScan::Failed(t) => e matches DaftError::ValueError(m) && m@ == decode_failure_message(t),
        DecodeScan::Mismatch(t, c) => e matches DaftError::ValueError(m) && m@ == mismatch_message(
            t,
            c,
        ),
        DecodeScan::Decoded(..) => false,
    }
}

/// Decodes the rows in order, stopping at the first failure or mismatch.
pub open spec fn decode_scan(rows: Seq<Option<Seq<u8>>>) -> DecodeScan
    decreases rows.len(),
{
    if rows.len() == 0 {
        DecodeScan::Decoded(Seq::empty(), None)
    } else {
        match decode_scan(rows.drop_last()) {
            DecodeScan::Decoded(imgs, cached) => match rows.last() {
                None => DecodeScan::Decoded(imgs.push(None), cached),
                Some(bytes) => match decoded_image(bytes) {
                    Err(t) => DecodeScan::Failed(t),
                    Ok(raw) => {
                        let v = raw_to_view(raw);
                        let t = mode_dtype(v.mode);
                        match cached {
                            Some(c) => if c != t {
                                DecodeScan::Mismatch(t, c)
                            } else {
                                DecodeScan::Decoded(imgs.push(Some(v)), cached)
                            },
                            None => DecodeScan::Decoded(imgs.push(Some(v)), Some(t)),
                        }
                    },
                },
            },
            other => other,
        }
    }
}

/// Decoding the rows does not end in an image type the column cannot hold:
/// it fails, or the images are 8-bit (or there are none) and their samples
/// are addressable by `i64` offsets.
pub open spec fn decode_supported(rows: Seq<Option<Seq<u8>>>) -> bool {
    match decode_scan(rows) {
        DecodeScan::Decoded(imgs, cached) => {
            &&& (cached is None || cached == Some(DataType::UInt8))
            &&& total_samples(imgs) <= i64::MAX
        },
        _ => true,
    }
}

/// Once decoding stops with an error, longer prefixes stop with the same error.
proof fn lemma_scan_sticky(rows: Seq<Option<Seq<u8>>>, i: int, j: int)
    requires
        0 <= i <= j <= rows.len(),
        !(decode_scan(rows.take(i)) is Decoded),
    ensures
        decode_scan(rows.take(j)) == decode_scan(rows.take(i)),
    decreases j - i,
{
    if i < j {
        lemma_scan_sticky(rows, i, j - 1);
        assert(rows.take(j).drop_last() =~= rows.take(j - 1));
    }
}

impl View for ImageArray {
    type V = ImageArrayView;

    closed spec fn view(&self) -> ImageArrayView {
        ImageArrayView {
            name: self.field.name@,
            dtype: self.field.dtype,
            data: byte_lists_values(self.data),
            offsets: byte_lists_offsets(self.data),
            channels: u16_column_values(self.channels),
            heights: u32_column_values(self.heights),
            widths: u32_column_values(self.widths),
            modes: u8_column_values(self.modes),
            validity: opt_bitmap_bits(self.validity),
        }
    }
}

/// A bitmap with no unset bits has every bit set.
proof fn lemma_no_unset_all_set(s: Seq<bool>)
    requires
        count_unset(s) == 0,
    ensures
        forall|i: int| 0 <= i < s.len() ==> #[trigger] s[i],
    decreases s.len(),
{
    if s.len() > 0 {
        lemma_no_unset_all_set(s.drop_last());
        assert forall|i: int| 0 <= i < s.len() implies #[trigger] s[i] by {
            if i < s.len() - 1 {
                assert(s.drop_last()[i] == s[i]);
            }
        }
    }
}

/// A bitmap with an unset bit has a position where the bit is unset.
proof fn lemma_unset_witness(s: Seq<bool>)
    requires
        count_unset(s) > 0,
    ensures
        exists|i: int| 0 <= i < s.len() && !s[i],
    decreases s.len(),
{
    if s.last() {
        lemma_unset_witness(s.drop_last());
        let i = choose|i: int| 0 <= i < s.drop_last().len() && !s.drop_last()[i];
        assert(s[i] == s.drop_last()[i]);
    } else {
        assert(!s[s.len() - 1]);
    }
}

/// The samples of a prefix never outnumber those of a longer prefix.
proof fn lemma_total_prefix(imgs: Seq<Option<ImageView>>, i: int, j: int)
    requires
        0 <= i <= j <= imgs.len(),
    ensures
        total_samples(imgs.take(i)) <= total_samples(imgs.take(j)),
    decreases j - i,
{
    if i < j {
        lemma_total_prefix(imgs, i, j - 1);
        assert(imgs.take(j).drop_last() =~= imgs.take(j - 1));
    }
}

/// The resized total of the first `n` rows is never negative.
proof fn lemma_resized_total_nonneg(v: ImageArrayView, w: u32, h: u32, n: int)
    ensures
        resized_total(v, w, h, n) >= 0,
    decreases n,
{
    if n > 0 {
        lemma_resized_total_nonneg(v, w, h, n - 1);
        let c = v.channels[n - 1] as int;
        assert(samples_needed(w, h, c) >= 0) by (nonlinear_arith)
            requires
                c >= 0,
                samples_needed(w, h, c) == c * w * h,
        ;
    }
}

/// The resized total of a prefix never exceeds that of a longer prefix.
proof fn lemma_resized_total_mono(v: ImageArrayView, w: u32, h: u32, i: int, j: int)
    requires
        0 <= i <= j,
    ensures
        resized_total(v, w, h, i) <= resized_total(v, w, h, j),
    decreases j - i,
{
    if i < j {
        lemma_resized_total_mono(v, w, h, i, j - 1);
        let c = v.channels[j - 1] as int;
        assert(samples_needed(w, h, c) >= 0) by (nonlinear_arith)
            requires
                c >= 0,
                samples_needed(w, h, c) == c * w * h,
        ;
    }
}

/// Each non-null row's resized samples count toward the resized total.
proof fn lemma_resized_total_row(v: ImageArrayView, w: u32, h: u32, n: int, k: int)
    requires
        0 <= k < n,
        v.is_valid(k),
    ensures
        resized_total(v, w, h, n) >= samples_needed(w, h, v.channels[k] as int),
    decreases n,
{
    let c = v.channels[n - 1] as int;
    assert(samples_needed(w, h, c) >= 0) by (nonlinear_arith)
        requires
            c >= 0,
            samples_needed(w, h, c) == c * w * h,
    ;
    if k == n - 1 {
        lemma_resized_total_nonneg(v, w, h, n - 1);
    } else {
        lemma_resized_total_row(v, w, h, n - 1, k);
    }
}

/// The samples of one row count toward the samples of all rows.
proof fn lemma_total_row(imgs: Seq<Option<ImageView>>, k: int)
    requires
        0 <= k < imgs.len(),
    ensures
        total_samples(imgs) >= row_samples(imgs[k]).len(),
    decreases imgs.len(),
{
    lemma_total_prefix(imgs, 0, imgs.len() - 1);
    assert(imgs.take(0) =~= Seq::<Option<ImageView>>::empty());
    assert(imgs.take(imgs.len() - 1) =~= imgs.drop_last());
    if k < imgs.len() - 1 {
        lemma_total_row(imgs.drop_last(), k);
        assert(imgs.drop_last()[k] == imgs[k]);
    }
}

/// Appends the bytes of `src` to `dst`.
fn append_bytes(dst: &mut Vec<u8>, src: &[u8])
    ensures
        final(dst)@ == old(dst)@ + src@,
{
    let ghost start = dst@;
    let mut j: usize = 0;
    while j < src.len()
        invariant
            j <= src@.len(),
            dst@ == start + src@.take(j as int),
        decreases src@.len() - j,
    {
        dst.push(src[j]);
        j = j + 1;
        assert(start + src@.take(j as int) =~= (start + src@.take(j - 1)).push(src@[j - 1]));
    }
    assert(src@.take(src@.len() as int) =~= src@);
}

/// Copies `src[start..end]` into a new vector.
fn copy_range(src: &[u8], start: usize, end: usize) -> (r: Vec<u8>)
    requires
        start <= end <= src@.len(),
    ensures
        r@ == src@.subrange(start as int, end as int),
{
    let mut out: Vec<u8> = Vec::new();
    let mut j: usize = start;
    while j < end
        invariant
            start <= j <= end <= src@.len(),
            out@ == src@.subrange(start as int, j as int),
        decreases end - j,
    {
        out.push(src[j]);
        j = j + 1;
        assert(src@.subrange(start as int, j as int) =~= src@.subrange(start as int, j - 1).push(
            src@[j - 1],
        ));
    }
    out
}

/// A copy of an optional validity bitmap.
fn clone_validity(v: &Option<Bitmap>) -> (r: Option<Bitmap>)
    ensures
        opt_bitmap_bits(r) == opt_bitmap_bits(*v),
{
    match v {
        Some(b) => Some(bitmap_clone(b)),
        None => None,
    }
}

/// `n` copies of `v`.
fn filled<T: Copy>(n: usize, v: T) -> (r: Vec<T>)
    ensures
        r@ == Seq::new(n as nat, |_i: int| v),
{
    let mut out: Vec<T> = Vec::new();
    let mut j: usize = 0;
    while j < n
        invariant
            j <= n,
            out@ == Seq::new(j as nat, |_i: int| v),
        decreases n - j,
    {
        out.push(v);
        j = j + 1;
        assert(out@ =~= Seq::new(j as nat, |_i: int| v));
    }
    out
}

impl ImageArray {
    #[verifier::type_invariant]
    spec fn inv(self) -> bool {
        &&& self@.wf()
        &&& byte_lists_validity(self.data) == self@.validity
        &&& u16_column_validity(self.channels) == self@.validity
        &&& u32_column_validity(self.heights) == self@.validity
        &&& u32_column_validity(self.widths) == self@.validity
        &&& u8_column_validity(self.modes) == self@.validity
    }

    /// Every image array meets the layout invariant of its view; callers
    /// call this to learn it (it does nothing at run time).
    pub fn establish_wf(&self)
        ensures
            self@.wf(),
    {
        proof {
            use_type_invariant(self);
        }
    }

    /// The number of rows.
    pub fn len(&self) -> (r: usize)
        ensures
            r == self@.len(),
    {
        proof {
            use_type_invariant(self);
        }
        u16_column_slice(&self.channels).len()
    }

    /// The column's name.
    pub fn name(&self) -> (r: &str)
        ensures
            r@ == self@.name,
    {
        self.field.name.as_str()
    }

    /// The column's field: its name and type.
    pub fn field(&self) -> (r: &Field)
        ensures
            r.name@ == self@.name,
            r.dtype == self@.dtype,
    {
        &self.field
    }

    /// Whether row `idx` holds an image.
    pub fn is_valid(&self, idx: usize) -> (r: bool)
        requires
            idx < self@.len(),
        ensures
            r == self@.is_valid(idx as int),
    {
        proof {
            use_type_invariant(self);
        }
        match &self.validity {
            None => true,
            Some(b) => bitmap_get_bit(b, idx),
        }
    }

    /// The image mode the column's type declares, if every image shares one.
    pub fn image_mode(&self) -> (r: &Option<ImageMode>)
        ensures
            *r == self@.image_mode(),
    {
        proof {
            use_type_invariant(self);
        }
        match &self.field.dtype {
            DataType::Image(_, mode) => mode,
            _ => {
                proof {
                    assert(false);
                }
                &None
            },
        }
    }

    /// The offsets and the concatenated samples of all rows.
    pub fn data_array(&self) -> (r: (&[i64], &[u8]))
        ensures
            r.0@ == self@.offsets,
            r.1@ == self@.data,
    {
        (byte_lists_offsets_slice(&self.data), byte_lists_values_slice(&self.data))
    }

    /// The channel count of every row.
    pub fn channel_array(&self) -> (r: &[u16])
        ensures
            r@ == self@.channels,
    {
        u16_column_slice(&self.channels)
    }

    /// The height of every row.
    pub fn height_array(&self) -> (r: &[u32])
        ensures
            r@ == self@.heights,
    {
        u32_column_slice(&self.heights)
    }

    /// The width of every row.
    pub fn width_array(&self) -> (r: &[u32])
        ensures
            r@ == self@.widths,
    {
        u32_column_slice(&self.widths)
    }

    /// The mode code of every row.
    pub fn mode_array(&self) -> (r: &[u8])
        ensures
            r@ == self@.modes,
    {
        u8_column_slice(&self.modes)
    }

    /// The validity bitmap, when some row is null.
    pub fn validity(&self) -> (r: &Option<Bitmap>)
        ensures
            opt_bitmap_bits(*r) == self@.validity,
    {
        &self.validity
    }

    /// Builds an image array from its columns. When there are no samples
    /// at all, the result is `n` null rows, `n` being the length of the
    /// channel column; otherwise the offsets must meet Arrow's offsets
    /// invariant, else the error is Arrow's.
    pub fn from_vecs(name: &str, data_type: DataType, vecs: ImageArrayVecs<u8>) -> (r: DaftResult<
        ImageArray,
    >)
        requires
            data_type is Image,
            vecs.data@.len() == 0 ==> vecs.channels@.len() < usize::MAX,
            vecs.data@.len() > 0 ==> (match data_type {
                DataType::Image(inner, _) => *inner == DataType::UInt8,
                _ => false,
            }),
            vecs.data@.len() > 0 && offsets_valid(vecs.offsets@) ==> vecs_view(
                name@,
                data_type,
                vecs,
            ).wf(),
        ensures
            r is Ok <==> (vecs.data@.len() == 0 || offsets_valid(vecs.offsets@)),
            r matches Ok(a) ==> a@.wf(),
            r matches Ok(a) ==> a@ == (if vecs.data@.len() == 0 {
                null_view(name@, data_type, vecs.channels@.len())
            } else {
                vecs_view(name@, data_type, vecs)
            }),
            r matches Err(e) ==> e is ArrowError,
    {
        if vecs.data.len() == 0 {
            let n = vecs.channels.len();
            let offsets = match offsets_try_from(filled(n + 1, 0i64)) {
                Ok(o) => o,
                Err(e) => {
                    return Err(DaftError::ArrowError(e));
                },
            };
            let validity = bitmap_new_zeroed(n);
            let a = ImageArray {
                field: Field::new(name, data_type),
                data: byte_lists_new(offsets, Vec::new(), Some(bitmap_clone(&validity))),
                channels: u16_column_new(filled(n, 0u16), Some(bitmap_clone(&validity))),
                heights: u32_column_new(filled(n, 0u32), Some(bitmap_clone(&validity))),
                widths: u32_column_new(filled(n, 0u32), Some(bitmap_clone(&validity))),
                modes: u8_column_new(filled(n, 0u8), Some(bitmap_clone(&validity))),
                validity: Some(validity),
            };
            proof {
                use_type_invariant(&a);
                assert(a@ =~= null_view(name@, data_type, vecs.channels@.len()));
            }
            return Ok(a);
        }
        let ImageArrayVecs { data, channels, heights, widths, modes, offsets, validity } = vecs;
        let offsets = match offsets_try_from(offsets) {
            Ok(o) => o,
            Err(e) => {
                return Err(DaftError::ArrowError(e));
            },
        };
        let a = ImageArray {
            field: Field::new(name, data_type),
            data: byte_lists_new(offsets, data, clone_validity(&validity)),
            channels: u16_column_new(channels, clone_validity(&validity)),
            heights: u32_column_new(heights, clone_validity(&validity)),
            widths: u32_column_new(widths, clone_validity(&validity)),
            modes: u8_column_new(modes, clone_validity(&validity)),
            validity,
        };
        proof {
            use_type_invariant(&a);
            assert(a@ =~= vecs_view(name@, data_type, vecs));
        }
        Ok(a)
    }

    /// The image in row `idx`, or `None` when the row is null.
    pub fn as_image_obj(&self, idx: usize) -> (r: Option<DaftImageBuffer>)
        requires
            idx < self@.len(),
            self@.row_readable(idx as int),
        ensures
            r is None <==> !self@.is_valid(idx as int),
            r matches Some(b) ==> b@ =~= self@.row_image(idx as int) && b.wf(),
    {
        proof {
            use_type_invariant(self);
        }
        if !self.is_valid(idx) {
            return None;
        }
        let offs = byte_lists_offsets_slice(&self.data);
        let values = byte_lists_values_slice(&self.data);
        let dlen = values.len();
        proof {
            let o = offs@;
            assert(o[0] <= o[idx as int] <= o[idx + 1] <= o[o.len() - 1]);
            assert(o[idx + 1] <= dlen);
        }
        let start = offs[idx] as usize;
        let end = offs[idx + 1] as usize;
        let slice_data = copy_range(values, start, end);
        let c = u16_column_slice(&self.channels)[idx];
        let h = u32_column_slice(&self.heights)[idx];
        let w = u32_column_slice(&self.widths)[idx];
        let m = match ImageMode::from_u8(u8_column_slice(&self.modes)[idx]) {
            Some(m) => m,
            None => {
                proof {
                    assert(false);
                }
                return None;
            },
        };
        let b = image_buffer_vec_to_cow(w, h, c, slice_data);
        let result = match m {
            ImageMode::L => DaftImageBuffer::L(b),
            ImageMode::LA => DaftImageBuffer::LA(b),
            ImageMode::RGB => DaftImageBuffer::RGB(b),
            ImageMode::RGBA => DaftImageBuffer::RGBA(b),
            _ => {
                proof {
                    assert(false);
                }
                return None;
            },
        };
        Some(result)
    }

    /// Builds a column of 8-bit images from optional images (`None` is a
    /// null row), declaring the given image mode. When the images have no
    /// samples at all, every row is null. There must be room for one offset
    /// more than there are rows, and the samples of all images together must
    /// be addressable by `i64` offsets: past those limits the offset
    /// arithmetic overflows.
    pub fn from_daft_image_buffers(
        name: &str,
        inputs: &[Option<DaftImageBuffer>],
        image_mode: &Option<ImageMode>,
    ) -> (r: DaftResult<ImageArray>)
        requires
            inputs@.len() < usize::MAX,
            forall|i: int|
                0 <= i < inputs@.len() ==> (#[trigger] inputs@[i] matches Some(b) ==> mode_is_u8(
                    b@.mode,
                )),
            total_samples(buffers_view(inputs@)) <= i64::MAX,
        ensures
            r matches Ok(a) && a@.holds_images(name@, buffers_view(inputs@), *image_mode),
    {
        let n = inputs.len();
        let ghost imgs = buffers_view(inputs@);
        let mut data: Vec<u8> = Vec::new();
        let mut heights: Vec<u32> = Vec::new();
        let mut channels: Vec<u16> = Vec::new();
        let mut modes: Vec<u8> = Vec::new();
        let mut widths: Vec<u32> = Vec::new();
        let mut offsets: Vec<i64> = Vec::new();
        offsets.push(0i64);
        let mut validity = mutable_bitmap_with_capacity(n);
        let mut i: usize = 0;
        proof {
            assert(imgs.take(0) =~= Seq::<Option<ImageView>>::empty());
            assert(imgs.take(n as int) =~= imgs);
        }
        while i < n
            invariant
                n == inputs@.len(),
                n < usize::MAX,
                imgs == buffers_view(inputs@),
                imgs.len() == n,
                imgs.take(n as int) == imgs,
                forall|k: int|
                    0 <= k < inputs@.len() ==> (#[trigger] inputs@[k] matches Some(b) ==> mode_is_u8(
                        b@.mode,
                    )),
                total_samples(imgs) <= i64::MAX,
                i <= n,
                offsets@.len() == i + 1,
                heights@.len() == i,
                widths@.len() == i,
                modes@.len() == i,
                channels@.len() == i,
                offsets@[0] == 0,
                forall|a: int, b: int| 0 <= a <= b <= i ==> offsets@[a] <= offsets@[b],
                offsets@[i as int] == data@.len(),
                data@.len() == total_samples(imgs.take(i as int)),
                mutable_bitmap_bits(validity).len() == i,
                forall|k: int|
                    0 <= k < i ==> #[trigger] mutable_bitmap_bits(validity)[k] == (imgs[k] is Some),
                forall|k: int|
                    0 <= k < i ==> (#[trigger] imgs[k] is None ==> {
                        &&& modes@[k] == mode_code(ImageMode::L)
                        &&& channels@[k] == 1
                        &&& widths@[k] == 0
                        &&& heights@[k] == 0
                        &&& offsets@[k + 1] == offsets@[k]
                    }),
                forall|k: int|
                    0 <= k < i ==> (#[trigger] imgs[k] matches Some(v) ==> {
                        &&& mode_of_code(modes@[k]) == Some(v.mode)
                        &&& channels@[k] == mode_channels(v.mode)
                        &&& widths@[k] == v.width
                        &&& heights@[k] == v.height
                        &&& data@.subrange(offsets@[k] as int, offsets@[k + 1] as int)
                            == v.samples8
                    }),
            decreases n - i,
        {
            let ghost old_data = data@;
            let ghost old_offsets = offsets@;
            let ghost old_bits = mutable_bitmap_bits(validity);
            proof {
                assert(imgs[i as int] == opt_image_view(inputs@[i as int]));
                assert(imgs.take(i + 1).drop_last() =~= imgs.take(i as int));
                lemma_total_prefix(imgs, i + 1, n as int);
            }
            let last = offsets[i];
            match &inputs[i] {
                Some(b) => {
                    mutable_bitmap_push(&mut validity, true);
                    let m = b.mode();
                    heights.push(b.height());
                    widths.push(b.width());
                    modes.push(m.to_u8());
                    channels.push(m.num_channels());
                    let buf = b.as_u8_slice();
                    append_bytes(&mut data, buf);
                    offsets.push(last + buf.len() as i64);
                    proof {
                        assert forall|k: int| 0 <= k < i implies #[trigger] data@.subrange(
                            offsets@[k] as int,
                            offsets@[k + 1] as int,
                        ) == old_data.subrange(offsets@[k] as int, offsets@[k + 1] as int) by {
                            assert(offsets@[k] <= offsets@[k + 1] <= old_offsets[i as int]);
                            assert(data@.subrange(offsets@[k] as int, offsets@[k + 1] as int)
                                =~= old_data.subrange(offsets@[k] as int, offsets@[k + 1] as int));
                        }
                        assert(data@.subrange(offsets@[i as int] as int, offsets@[i + 1] as int)
                            =~= buf@);
                        lemma_mode_code_roundtrip(m);
                    }
                },
                None => {
                    mutable_bitmap_push(&mut validity, false);
                    heights.push(0u32);
                    widths.push(0u32);
                    modes.push(ImageMode::L.to_u8());
                    channels.push(ImageMode::L.num_channels());
                    offsets.push(last);
                },
            }
            i = i + 1;
            proof {
                assert forall|a: int, b: int| 0 <= a <= b <= i implies offsets@[a] <= offsets@[b] by {
                    if b == i && a < i {
                        assert(old_offsets[a] <= old_offsets[i - 1]);
                    }
                }
                assert forall|k: int| 0 <= k < i implies #[trigger] mutable_bitmap_bits(validity)[k]
                    == (imgs[k] is Some) by {
                    if k < i - 1 {
                        assert(mutable_bitmap_bits(validity)[k] == old_bits[k]);
                    }
                }
            }
        }
        let unset = mutable_bitmap_unset_bits(&validity);
        let ghost bits = mutable_bitmap_bits(validity);
        let validity_opt = if unset == 0 {
            proof {
                lemma_no_unset_all_set(bits);
            }
            None
        } else {
            proof {
                lemma_unset_witness(bits);
                let k = choose|k: int| 0 <= k < bits.len() && !bits[k];
                assert(imgs[k] is None);
            }
            Some(bitmap_from_mutable(validity))
        };
        let data_type = DataType::Image(Box::new(DataType::UInt8), *image_mode);
        let vecs = ImageArrayVecs {
            data,
            channels,
            heights,
            widths,
            modes,
            offsets,
            validity: validity_opt,
        };
        let ghost vv = vecs_view(name@, data_type, vecs);
        proof {
            assert(vv.wf());
        }
        let r = ImageArray::from_vecs(name, data_type, vecs);
        proof {
            let a = r->Ok_0;
            if total_samples(imgs) != 0 {
                if unset == 0 {
                    assert forall|k: int| 0 <= k < imgs.len() implies #[trigger] imgs[k] is Some by {
                        assert(bits[k]);
                    }
                }
                assert forall|k: int| 0 <= k < a@.len() implies {
                    &&& (#[trigger] a@.is_valid(k) <==> imgs[k] is Some)
                    &&& (imgs[k] matches Some(v) ==> {
                        &&& a@.row_mode(k) == Some(v.mode)
                        &&& a@.channels[k] == mode_channels(v.mode)
                        &&& a@.widths[k] == v.width
                        &&& a@.heights[k] == v.height
                        &&& a@.row_bytes(k) == v.samples8
                    })
                } by {
                    if unset == 0 {
                        assert(bits[k]);
                    }
                }
            }
        }
        r
    }

    /// The samples row `idx` needs and the samples it holds.
    fn row_sizes(&self, idx: usize) -> (r: (u128, u128))
        requires
            idx < self@.len(),
        ensures
            r.0 == samples_needed(self@.widths[idx as int], self@.heights[idx as int], self@.channels[idx as int] as int),
            r.1 == self@.row_bytes(idx as int).len(),
    {
        proof {
            use_type_invariant(self);
        }
        let offs = byte_lists_offsets_slice(&self.data);
        let _olen = offs.len();
        proof {
            let o = offs@;
            assert(o == self@.offsets);
            assert(o.len() == self@.len() + 1);
            assert(0 <= o[0] <= o[idx as int] <= o[idx + 1] <= o[o.len() - 1]);
        }
        let held = (offs[idx + 1] - offs[idx]) as u128;
        let c = u16_column_slice(&self.channels)[idx] as u128;
        let w = u32_column_slice(&self.widths)[idx] as u128;
        let h = u32_column_slice(&self.heights)[idx] as u128;
        assert(c * w <= 0xffff * 0xffff_ffff && c * w * h <= 0xffff * 0xffff_ffff * 0xffff_ffff)
            by (nonlinear_arith)
            requires
                c <= 0xffff,
                w <= 0xffff_ffff,
                h <= 0xffff_ffff,
        ;
        (c * w * h, held)
    }

    /// Whether row `idx` can be read back as an image.
    fn check_row_readable(&self, idx: usize) -> (r: bool)
        requires
            idx < self@.len(),
        ensures
            r == self@.row_readable(idx as int),
    {
        proof {
            use_type_invariant(self);
        }
        if !self.is_valid(idx) {
            return true;
        }
        let inner_u8 = match &self.field.dtype {
            DataType::Image(inner, _) => inner.equals(&DataType::UInt8),
            _ => false,
        };
        if !inner_u8 {
            return false;
        }
        let m = match ImageMode::from_u8(u8_column_slice(&self.modes)[idx]) {
            Some(m) => m,
            None => {
                return false;
            },
        };
        if !m.is_u8() || m.num_channels() != u16_column_slice(&self.channels)[idx] {
            return false;
        }
        let (need, held) = self.row_sizes(idx);
        need <= held && need <= usize::MAX as u128
    }

    /// Whether row `idx` can be read back, holds exactly its image's
    /// samples, and has a size the encoder for `f` can handle.
    fn check_row_encodable(&self, idx: usize, f: ImageFormat) -> (r: bool)
        requires
            idx < self@.len(),
        ensures
            r == row_encodable(self@, idx as int, f),
    {
        proof {
            use_type_invariant(self);
        }
        if !self.check_row_readable(idx) {
            return false;
        }
        if !self.is_valid(idx) {
            return true;
        }
        let (need, held) = self.row_sizes(idx);
        if need != held {
            return false;
        }
        match f {
            ImageFormat::BMP => {
                let color = match ImageMode::from_u8(u8_column_slice(&self.modes)[idx]) {
                    Some(ImageMode::L) => ColorType::L8,
                    Some(ImageMode::LA) => ColorType::La8,
                    Some(ImageMode::RGB) => ColorType::Rgb8,
                    _ => ColorType::Rgba8,
                };
                bmp_sizes_ok(
                    u32_column_slice(&self.widths)[idx],
                    u32_column_slice(&self.heights)[idx],
                    color,
                )
            },
            _ => true,
        }
    }

    /// Encodes every row in order, stopping at the first row whose encoding
    /// fails; null rows give `None`.
    fn encode_rows(&self, image_format: ImageFormat) -> (r: DaftResult<Vec<Option<Vec<u8>>>>)
        requires
            self@.all_readable(),
            forall|i: int| 0 <= i < self@.len() ==> #[trigger] row_exact(self@, i),
            forall|i: int|
                0 <= i < self@.len() ==> #[trigger] row_encode_defined(self@, i, image_format),
        ensures
            r is Ok <==> all_encode(self@, image_format),
            r matches Ok(rows) ==> rows_view(rows@) == encoded_rows(self@, image_format),
            r matches Err(e) ==> encode_failure_error(self@, image_format, e),
    {
        let n = self.len();
        let ghost rows = encoded_rows(self@, image_format);
        let mut result: Vec<Option<Vec<u8>>> = Vec::new();
        let mut i: usize = 0;
        while i < n
            invariant
                n == self@.len(),
                self@.all_readable(),
                forall|k: int| 0 <= k < self@.len() ==> #[trigger] row_exact(self@, k),
                forall|k: int|
                    0 <= k < self@.len() ==> #[trigger] row_encode_defined(self@, k, image_format),
                rows == encoded_rows(self@, image_format),
                i <= n,
                result@.len() == i,
                forall|k: int| 0 <= k < i ==> (#[trigger] encoded_row(self@, k, image_format)) is Some,
                forall|k: int| 0 <= k < i ==> #[trigger] opt_vec_bytes(result@[k]) == rows[k],
            decreases n - i,
        {
            proof {
                assert(self@.row_readable(i as int));
                assert(row_exact(self@, i as int));
                assert(row_encode_defined(self@, i as int, image_format));
            }
            match self.as_image_obj(i) {
                Some(img) => {
                    let mut buf: Vec<u8> = Vec::new();
                    match img.encode(image_format, &mut buf) {
                        Ok(()) => {
                            result.push(Some(buf));
                        },
                        Err(e) => {
                            proof {
                                assert(img@ == self@.row_image(i as int));
                                assert(encoded_row(self@, i as int, image_format) is None);
                                assert(first_encode_failure(self@, image_format, i as int));
                                assert(row_encode_error(self@, i as int, image_format) == encoded_image(
                                    img@.samples8,
                                    img@.width,
                                    img@.height,
                                    mode_color(img@.mode),
                                    image_format,
                                )->Err_0);
                            }
                            return Err(e);
                        },
                    }
                },
                None => {
                    result.push(None);
                },
            }
            i = i + 1;
        }
        proof {
            assert(rows_view(result@) =~= rows);
        }
        Ok(result)
    }

    /// Encodes every image of the column into the given file format; null
    /// rows stay null. Fails with the first row's encoder error. When every
    /// row encodes, the files together must be addressable by `i64` offsets:
    /// past that limit the binary column's offsets overflow.
    pub fn encode(&self, image_format: ImageFormat) -> (r: DaftResult<BinaryArray>)
        requires
            encode_ready(self@, image_format),
        ensures
            r is Ok <==> all_encode(self@, image_format),
            r matches Ok(b) ==> b@.name == self@.name && b@.rows == encoded_rows(
                self@,
                image_format,
            ),
            r matches Ok(b) ==> forall|i: int|
                0 <= i < self@.len() ==> #[trigger] b@.rows[i] == if self@.is_valid(i) {
                    Some(
                        encoded_image(
                            self@.row_image(i).samples8,
                            self@.row_image(i).width,
                            self@.row_image(i).height,
                            mode_color(self@.row_image(i).mode),
                            image_format,
                        )->Ok_0,
                    )
                } else {
                    None
                },
            r matches Err(e) ==> encode_failure_error(self@, image_format, e),
    {
        let r = match self.encode_rows(image_format) {
            Ok(rows) => BinaryArray::from_values(self.name(), rows),
            Err(e) => Err(e),
        };
        proof {
            if r is Ok {
                let b = r->Ok_0;
                assert forall|i: int| 0 <= i < self@.len() implies #[trigger] b@.rows[i] == if self@.is_valid(
                    i,
                ) {
                    Some(
                        encoded_image(
                            self@.row_image(i).samples8,
                            self@.row_image(i).width,
                            self@.row_image(i).height,
                            mode_color(self@.row_image(i).mode),
                            image_format,
                        )->Ok_0,
                    )
                } else {
                    None
                } by {
                    law_encoded_row_is_row_image(self@, image_format, i);
                    assert(encoded_row(self@, i, image_format) is Some);
                }
            }
        }
        r
    }

    /// Encodes the column as [`ImageArray::encode`] does when it can run;
    /// `None` when it cannot: a row cannot be read back, does not hold
    /// exactly its image's samples, or has a size the encoder cannot handle,
    /// or the encoded files together are more than `i64` offsets can address.
    pub fn try_encode(&self, image_format: ImageFormat) -> (r: Option<DaftResult<BinaryArray>>)
        ensures
            r is Some <==> encode_ready(self@, image_format),
            r matches Some(res) ==> (res is Ok <==> all_encode(self@, image_format)),
            r matches Some(Ok(b)) ==> b@.name == self@.name && b@.rows == encoded_rows(
                self@,
                image_format,
            ),
            r matches Some(Err(e)) ==> encode_failure_error(self@, image_format, e),
    {
        let n = self.len();
        let mut i: usize = 0;
        while i < n
            invariant
                n == self@.len(),
                i <= n,
                forall|k: int| 0 <= k < i ==> #[trigger] row_encodable(self@, k, image_format),
            decreases n - i,
        {
            if !self.check_row_encodable(i, image_format) {
                return None;
            }
            i = i + 1;
        }
        proof {
            assert forall|k: int| 0 <= k < self@.len() implies #[trigger] self@.row_readable(k) by {
                assert(row_encodable(self@, k, image_format));
            }
            assert forall|k: int| 0 <= k < self@.len() implies #[trigger] row_exact(self@, k) by {
                assert(row_encodable(self@, k, image_format));
            }
            assert forall|k: int| 0 <= k < self@.len() implies #[trigger] row_encode_defined(
                self@,
                k,
                image_format,
            ) by {
                assert(row_encodable(self@, k, image_format));
            }
        }
        match self.encode_rows(image_format) {
            Ok(rows) => match BinaryArray::from_values(self.name(), rows) {
                Ok(b) => Some(Ok(b)),
                Err(_) => None,
            },
            Err(e) => Some(Err(e)),
        }
    }

    /// Resizes every image of the column to `w` by `h` pixels with the
    /// triangle filter; null rows stay null and the declared mode is kept.
    pub fn resize(&self, w: u32, h: u32) -> (r: DaftResult<ImageArray>)
        requires
            self@.all_readable(),
            self@.len() < usize::MAX,
            forall|i: int|
                0 <= i < self@.len() ==> (#[trigger] self@.is_valid(i) ==> resize_defined(
                    self@.widths[i],
                    self@.heights[i],
                    self@.channels[i] as int,
                    w,
                    h,
                )),
            resized_total(self@, w, h, self@.len()) <= i64::MAX,
        ensures
            r matches Ok(a) && a@.holds_images(
                self@.name,
                resized_images(self@, w, h),
                self@.image_mode(),
            ),
            r matches Ok(a) && a@.all_readable(),
            r matches Ok(a) && forall|i: int| 0 <= i < a@.len() ==> #[trigger] row_exact(a@, i),
            w > 0 && h > 0 ==> (r matches Ok(a) && forall|i: int|
                0 <= i < a@.len() ==> (#[trigger] a@.is_valid(i) <==> self@.is_valid(i))),
    {
        let n = self.len();
        let ghost imgs = resized_images(self@, w, h);
        let mut result: Vec<Option<DaftImageBuffer>> = Vec::new();
        let mut i: usize = 0;
        while i < n
            invariant
                n == self@.len(),
                self@.all_readable(),
                forall|k: int|
                    0 <= k < self@.len() ==> (#[trigger] self@.is_valid(k) ==> resize_defined(
                        self@.widths[k],
                        self@.heights[k],
                        self@.channels[k] as int,
                        w,
                        h,
                    )),
                imgs == resized_images(self@, w, h),
                i <= n,
                result@.len() == i,
                forall|k: int| 0 <= k < i ==> #[trigger] opt_image_view(result@[k]) == imgs[k],
                forall|k: int|
                    0 <= k < i ==> (#[trigger] result@[k] matches Some(b) ==> mode_is_u8(b@.mode)
                        && b.wf() && b@.samples8.len() == samples_needed(
                        w,
                        h,
                        mode_channels(b@.mode) as int,
                    )),
                total_samples(buffers_view(result@)) == resized_total(self@, w, h, i as int),
            decreases n - i,
        {
            proof {
                assert(self@.row_readable(i as int));
            }
            let ghost old_result = result@;
            let img = self.as_image_obj(i);
            let out = match img {
                Some(b) => Some(b.resize(w, h)),
                None => None,
            };
            result.push(out);
            proof {
                assert(buffers_view(result@).drop_last() =~= buffers_view(old_result));
            }
            i = i + 1;
        }
        proof {
            assert(buffers_view(result@) =~= imgs);
        }
        let r = Self::from_daft_image_buffers(self.name(), result.as_slice(), self.image_mode());
        proof {
            let a = r->Ok_0;
            if total_samples(imgs) > 0 {
                assert forall|k: int| 0 <= k < imgs.len() implies (#[trigger] imgs[k] matches Some(v)
                    ==> view_wf(v) && mode_is_u8(v.mode)) by {
                    assert(opt_image_view(result@[k]) == imgs[k]);
                }
                law_images_roundtrip(a@, self@.name, imgs, self@.image_mode());
            }
            assert forall|k: int| 0 <= k < a@.len() implies #[trigger] row_exact(a@, k) by {
                if a@.is_valid(k) {
                    assert(opt_image_view(result@[k]) == imgs[k]);
                }
            }
            if w > 0 && h > 0 && total_samples(imgs) == 0 {
                assert forall|k: int| 0 <= k < n implies !#[trigger] self@.is_valid(k) by {
                    if self@.is_valid(k) {
                        assert(self@.row_readable(k));
                        lemma_resized_total_row(self@, w, h, n as int, k);
                        let c = self@.channels[k] as int;
                        assert(c >= 1);
                        assert(samples_needed(w, h, c) >= 1) by (nonlinear_arith)
                            requires
                                c >= 1,
                                w >= 1,
                                h >= 1,
                                samples_needed(w, h, c) == c * w * h,
                        ;
                    }
                }
            }
        }
        r
    }

    /// Resizes the column as [`ImageArray::resize`] does when it can run;
    /// `None` when it cannot: the column has `usize::MAX` rows, a row cannot
    /// be read back, a resized image (or the filter's intermediate buffer)
    /// would not be addressable, or the resized samples together are more
    /// than `i64` offsets can address.
    pub fn try_resize(&self, w: u32, h: u32) -> (r: Option<DaftResult<ImageArray>>)
        ensures
            r is Some <==> resize_ready(self@, w, h),
            r matches Some(res) ==> (res matches Ok(a) && resize_outcome(self@, w, h, a@)),
    {
        proof {
            use_type_invariant(self);
        }
        let n = self.len();
        if n == usize::MAX {
            return None;
        }
        let mut total: u128 = 0;
        let mut i: usize = 0;
        while i < n
            invariant
                n == self@.len(),
                n < usize::MAX,
                self@.wf(),
                i <= n,
                total == resized_total(self@, w, h, i as int),
                total <= i64::MAX,
                forall|k: int| 0 <= k < i ==> #[trigger] row_resizable(self@, k, w, h),
            decreases n - i,
        {
            if !self.check_row_readable(i) {
                proof {
                    assert(!row_resizable(self@, i as int, w, h));
                }
                return None;
            }
            if self.is_valid(i) {
                let c = u16_column_slice(&self.channels)[i] as u128;
                let wi = u32_column_slice(&self.widths)[i];
                let hi = u32_column_slice(&self.heights)[i];
                let (w2, h2) = (w as u128, h as u128);
                assert(c * w2 <= 0xffff * 0xffff_ffff && c * w2 * h2 <= 0xffff * 0xffff_ffff
                    * 0xffff_ffff) by (nonlinear_arith)
                    requires
                        c <= 0xffff,
                        w2 <= 0xffff_ffff,
                        h2 <= 0xffff_ffff,
                ;
                let need = c * w2 * h2;
                if need > usize::MAX as u128 {
                    proof {
                        assert(!row_resizable(self@, i as int, w, h));
                    }
                    return None;
                }
                if !(w == wi && h == hi) {
                    let wi2 = wi as u128;
                    assert(4 * wi2 * h2 <= 4 * 0xffff_ffff * 0xffff_ffff) by (nonlinear_arith)
                        requires
                            wi2 <= 0xffff_ffff,
                            h2 <= 0xffff_ffff,
                    ;
                    if 4 * wi2 * h2 > usize::MAX as u128 {
                        proof {
                            assert(!row_resizable(self@, i as int, w, h));
                        }
                        return None;
                    }
                }
                if need > 0x7fff_ffff_ffff_ffffu128 - total {
                    proof {
                        lemma_resized_total_mono(self@, w, h, i + 1, n as int);
                    }
                    return None;
                }
                total = total + need;
            }
            i = i + 1;
        }
        proof {
            assert forall|k: int| 0 <= k < self@.len() implies #[trigger] self@.row_readable(k) by {
                assert(row_resizable(self@, k, w, h));
            }
            assert forall|k: int| 0 <= k < self@.len() && #[trigger] self@.is_valid(k) implies resize_defined(
                self@.widths[k],
                self@.heights[k],
                self@.channels[k] as int,
                w,
                h,
            ) by {
                assert(row_resizable(self@, k, w, h));
            }
        }
        Some(self.resize(w, h))
    }
}

impl BinaryArray {
    /// Decodes every row, in order, checking that all images share one
    /// sample type; null rows decode to `None`.
    fn decode_all(&self) -> (r: DaftResult<(Vec<Option<DaftImageBuffer>>, Option<DataType>)>)
        ensures
            match decode_scan(self@.rows) {
                DecodeScan::Decoded(imgs, cached) => r matches Ok((bufs, c)) && {
                    &&& buffers_view(bufs@) == imgs
                    &&& bufs@.len() == self@.rows.len()
                    &&& c == cached
                    &&& forall|k: int|
                        0 <= k < bufs@.len() ==> (#[trigger] bufs@[k] matches Some(b) ==> b.wf()
                            && c == Some(mode_dtype(b@.mode)))
                },
                other => r matches Err(e) && decode_error_matches(other, e),
            },
    {
        let n = self.len();
        let ghost rows = self@.rows;
        let mut bufs: Vec<Option<DaftImageBuffer>> = Vec::new();
        let mut cached: Option<DataType> = None;
        let mut i: usize = 0;
        proof {
            assert(rows.take(0) =~= Seq::<Option<Seq<u8>>>::empty());
            assert(rows.take(n as int) =~= rows);
            assert(buffers_view(bufs@) =~= Seq::<Option<ImageView>>::empty());
        }
        while i < n
            invariant
                n == rows.len(),
                rows == self@.rows,
                rows.take(n as int) == rows,
                i <= n,
                decode_scan(rows.take(i as int)) == DecodeScan::Decoded(buffers_view(bufs@), cached),
                bufs@.len() == i,
                forall|k: int|
                    0 <= k < bufs@.len() ==> (#[trigger] bufs@[k] matches Some(b) ==> b.wf() && cached
                        == Some(mode_dtype(b@.mode))),
            decreases n - i,
        {
            let ghost old_bufs = bufs@;
            proof {
                assert(rows.take(i + 1).drop_last() =~= rows.take(i as int));
                assert(rows.take(i + 1).last() == rows[i as int]);
            }
            let row = self.get(i);
            let img_buf = match row {
                Some(bytes) => match DaftImageBuffer::decode(bytes) {
                    Ok(b) => Some(b),
                    Err(e) => {
                        proof {
                            lemma_scan_sticky(rows, i + 1, n as int);
                        }
                        return Err(e);
                    },
                },
                None => None,
            };
            match &img_buf {
                Some(b) => {
                    let t = b.mode().get_dtype();
                    match &cached {
                        Some(c) => {
                            if !t.equals(c) {
                                proof {
                                    lemma_scan_sticky(rows, i + 1, n as int);
                                }
                                let mut msg = String::from_str(
                                    "All images in a column must have the same dtype, but got: ",
                                );
                                msg.append(t.name());
                                msg.append(" and ");
                                msg.append(c.name());
                                return Err(DaftError::ValueError(msg));
                            }
                        },
                        None => {
                            cached = Some(t);
                        },
                    }
                },
                None => {},
            }
            bufs.push(img_buf);
            proof {
                assert(buffers_view(bufs@) =~= buffers_view(old_bufs).push(opt_image_view(img_buf)));
            }
            i = i + 1;
        }
        Ok((bufs, cached))
    }

    /// Decodes every row into an image column of 8-bit images (null rows stay
    /// null). Fails on the first row that does not decode, or when two images
    /// have different sample types.
    pub fn image_decode(&self) -> (r: DaftResult<ImageArray>)
        requires
            self@.rows.len() < usize::MAX,
            decode_supported(self@.rows),
        ensures
            match decode_scan(self@.rows) {
                DecodeScan::Decoded(imgs, _) => r matches Ok(a) && a@.holds_images(
                    self@.name,
                    imgs,
                    None,
                ) && a@.all_readable(),
                other => r matches Err(e) && decode_error_matches(other, e),
            },
    {
        let (img_bufs, cached) = match self.decode_all() {
            Ok(x) => x,
            Err(e) => {
                return Err(e);
            },
        };
        let cached_dtype = match cached {
            Some(t) => t,
            None => DataType::UInt8,
        };
        match cached_dtype {
            DataType::UInt8 => {
                proof {
                    assert forall|k: int| 0 <= k < img_bufs@.len() implies (#[trigger] img_bufs@[k] matches Some(
                        b,
                    ) ==> mode_is_u8(b@.mode)) by {
                        assert(buffers_view(img_bufs@)[k] == opt_image_view(img_bufs@[k]));
                    }
                }
                let r = ImageArray::from_daft_image_buffers(
                    self.name(),
                    img_bufs.as_slice(),
                    &None,
                );
                proof {
                    let a = r->Ok_0;
                    let imgs = buffers_view(img_bufs@);
                    if total_samples(imgs) > 0 {
                        assert forall|k: int| 0 <= k < imgs.len() implies (#[trigger] imgs[k] matches Some(
                            v,
                        ) ==> view_wf(v) && mode_is_u8(v.mode)) by {
                            assert(imgs[k] == opt_image_view(img_bufs@[k]));
                        }
                        law_images_roundtrip(a@, self@.name, imgs, None);
                    }
                }
                r
            },
            _ => {
                proof {
                    assert(false);
                }
                Err(DaftError::ValueError(String::from_str("unsupported image sample type")))
            },
        }
    }

    /// Whether [`BinaryArray::image_decode`] can run on this column: whether
    /// decoding ends in an error, or in 8-bit images (or none) whose samples
    /// `i64` offsets can address.
    pub fn image_decode_supported(&self) -> (r: bool)
        ensures
            r == decode_supported(self@.rows),
    {
        let (bufs, cached) = match self.decode_all() {
            Ok(x) => x,
            Err(_) => {
                return true;
            },
        };
        let is_u8 = match &cached {
            None => true,
            Some(DataType::UInt8) => true,
            Some(_) => false,
        };
        if !is_u8 {
            return false;
        }
        let ghost imgs = buffers_view(bufs@);
        proof {
            assert(decode_scan(self@.rows) matches DecodeScan::Decoded(imgs2, c2) && imgs2 == imgs
                && c2 == cached);
        }
        let mut total: u64 = 0;
        let mut i: usize = 0;
        proof {
            assert(imgs.take(0) =~= Seq::<Option<ImageView>>::empty());
            assert(imgs.take(bufs@.len() as int) =~= imgs);
        }
        while i < bufs.len()
            invariant
                imgs == buffers_view(bufs@),
                decode_scan(self@.rows) == DecodeScan::Decoded(imgs, cached),
                imgs.len() == bufs@.len(),
                imgs.take(bufs@.len() as int) == imgs,
                i <= bufs@.len(),
                cached is None || cached == Some(DataType::UInt8),
                forall|k: int|
                    0 <= k < bufs@.len() ==> (#[trigger] bufs@[k] matches Some(b) ==> b.wf()
                        && cached == Some(mode_dtype(b@.mode))),
                total == total_samples(imgs.take(i as int)),
                total <= i64::MAX,
            decreases bufs@.len() - i,
        {
            proof {
                assert(imgs.take(i + 1).drop_last() =~= imgs.take(i as int));
                assert(imgs[i as int] == opt_image_view(bufs@[i as int]));
            }
            match &bufs[i] {
                Some(b) => {
                    let l = b.as_u8_slice().len() as u64;
                    proof {
                        assert(total_samples(imgs.take(i + 1)) == total + l);
                    }
                    if l > 0x7fff_ffff_ffff_ffffu64 - total {
                        proof {
                            lemma_total_prefix(imgs, i + 1, bufs@.len() as int);
                        }
                        return false;
                    }
                    total = total + l;
                },
                None => {},
            }
            i = i + 1;
        }
        true
    }

    /// Decodes the column as [`BinaryArray::image_decode`] does when it can
    /// run; `None` when it cannot: the column has `usize::MAX` rows, or its
    /// images are not 8-bit or their samples are not addressable by `i64`
    /// offsets.
    pub fn try_image_decode(&self) -> (r: Option<DaftResult<ImageArray>>)
        ensures
            r is Some <==> (self@.rows.len() < usize::MAX && decode_supported(self@.rows)),
            r matches Some(res) ==> match decode_scan(self@.rows) {
                DecodeScan::Decoded(imgs, _) => res matches Ok(a) && a@.holds_images(
                    self@.name,
                    imgs,
                    None,
                ) && a@.all_readable(),
                other => res matches Err(e) && decode_error_matches(other, e),
            },
    {
        if self.len() < usize::MAX && self.image_decode_supported() {
            Some(self.image_decode())
        } else {
            None
        }
    }
}

/// An image column built from well-formed 8-bit images gives back, from each
/// row, exactly the image it was built from, and each null row stays null,
/// unless the images have no samples at all (then every row is null).
/// One row of a column built from well-formed 8-bit images reads back as
/// the image it was built from, or as null.
proof fn lemma_row_roundtrip(
    a: ImageArrayView,
    name: Seq<char>,
    imgs: Seq<Option<ImageView>>,
    mode: Option<ImageMode>,
    i: int,
)
    requires
        a.holds_images(name, imgs, mode),
        0 <= i < a.len(),
        imgs[i] matches Some(v) ==> view_wf(v) && mode_is_u8(v.mode),
        total_samples(imgs) > 0,
    ensures
        a.row_readable(i),
        a.is_valid(i) <==> imgs[i] is Some,
        imgs[i] matches Some(v) ==> a.row_image(i) == v,
{
    assert(a.is_valid(i) <==> imgs[i] is Some);
    if let Some(v) = imgs[i] {
        assert(v.samples16 =~= Seq::<u16>::empty());
        assert(v.samples32 =~= Seq::<u32>::empty());
        assert(a.row_mode(i) == Some(v.mode));
        assert(a.row_bytes(i) == v.samples8);
        assert(a.row_image(i) =~= v);
    }
}

/// An image column built from well-formed 8-bit images gives back, from each
/// row, exactly the image it was built from, and each null row stays null,
/// unless the images have no samples at all (then every row is null).
#[verifier::spinoff_prover]
pub proof fn law_images_roundtrip(
    a: ImageArrayView,
    name: Seq<char>,
    imgs: Seq<Option<ImageView>>,
    mode: Option<ImageMode>,
)
    requires
        a.holds_images(name, imgs, mode),
        forall|i: int|
            0 <= i < imgs.len() ==> (#[trigger] imgs[i] matches Some(v) ==> view_wf(v) && mode_is_u8(
                v.mode,
            )),
        total_samples(imgs) > 0,
    ensures
        a.all_readable(),
        forall|i: int|
            0 <= i < a.len() ==> {
                &&& (#[trigger] a.is_valid(i) <==> imgs[i] is Some)
                &&& (imgs[i] matches Some(v) ==> a.row_image(i) == v)
            },
{
    assert forall|i: int| 0 <= i < a.len() implies {
        &&& #[trigger] a.row_readable(i)
        &&& (a.is_valid(i) <==> imgs[i] is Some)
        &&& (imgs[i] matches Some(v) ==> a.row_image(i) == v)
    } by {
        lemma_row_roundtrip(a, name, imgs, mode, i);
    }
    assert forall|i: int| 0 <= i < a.len() implies {
        &&& (#[trigger] a.is_valid(i) <==> imgs[i] is Some)
        &&& (imgs[i] matches Some(v) ==> a.row_image(i) == v)
    } by {
        lemma_row_roundtrip(a, name, imgs, mode, i);
    }
}

/// Resizing keeps the number of rows and the declared mode; every non-null
/// row of the result comes from a non-null row of the input, keeps its mode
/// and is `w` by `h` pixels. When the resized images have any samples at
/// all, a row of the result is null exactly when the input row is.
pub proof fn law_resize_shape(input: ImageArrayView, out: ImageArrayView, w: u32, h: u32)
    requires
        input.wf(),
        input.all_readable(),
        out.holds_images(input.name, resized_images(input, w, h), input.image_mode()),
    ensures
        out.len() == input.len(),
        out.image_mode() == input.image_mode(),
        forall|i: int|
            0 <= i < out.len() && #[trigger] out.is_valid(i) ==> {
                &&& input.is_valid(i)
                &&& out.widths[i] == w
                &&& out.heights[i] == h
                &&& out.row_mode(i) == input.row_mode(i)
            },
        total_samples(resized_images(input, w, h)) > 0 ==> forall|i: int|
            0 <= i < out.len() ==> (#[trigger] out.is_valid(i) <==> input.is_valid(i)),
{
    let imgs = resized_images(input, w, h);
    assert forall|i: int| 0 <= i < out.len() && #[trigger] out.is_valid(i) implies {
        &&& input.is_valid(i)
        &&& out.widths[i] == w
        &&& out.heights[i] == h
        &&& out.row_mode(i) == input.row_mode(i)
    } by {
        assert(total_samples(imgs) != 0);
        assert(imgs[i] is Some);
        assert(input.row_readable(i));
    }
}

/// Resizing a resized column again to the same positive size changes
/// nothing: the result has the same rows, the same nulls, the same declared
/// mode, and in each non-null row the same image.
pub proof fn law_resize_twice(input: ImageArrayView, a: ImageArrayView, b: ImageArrayView, w: u32, h: u32)
    requires
        input.wf(),
        input.all_readable(),
        w > 0,
        h > 0,
        a.holds_images(input.name, resized_images(input, w, h), input.image_mode()),
        a.all_readable(),
        forall|i: int| 0 <= i < a.len() ==> #[trigger] row_exact(a, i),
        b.holds_images(a.name, resized_images(a, w, h), a.image_mode()),
    ensures
        b.len() == a.len(),
        b.image_mode() == a.image_mode(),
        forall|i: int|
            0 <= i < b.len() ==> {
                &&& (#[trigger] b.is_valid(i) <==> a.is_valid(i))
                &&& (b.is_valid(i) ==> b.row_image(i) == a.row_image(i))
            },
{
    law_resize_shape(input, a, w, h);
    let imgs = resized_images(a, w, h);
    assert forall|i: int| 0 <= i < a.len() && #[trigger] a.is_valid(i) implies {
        &&& imgs[i] == Some(a.row_image(i))
        &&& view_wf(a.row_image(i))
        &&& mode_is_u8(a.row_image(i).mode)
        &&& a.row_image(i).samples8.len() >= 1
    } by {
        assert(a.row_readable(i));
        assert(row_exact(a, i));
        let v = a.row_image(i);
        let c = a.channels[i] as int;
        assert(c >= 1);
        assert(samples_needed(w, h, c) >= 1) by (nonlinear_arith)
            requires
                c >= 1,
                w >= 1,
                h >= 1,
                samples_needed(w, h, c) == c * w * h,
        ;
        law_resize_same_size(v);
    }
    if total_samples(imgs) > 0 {
        assert forall|i: int| 0 <= i < imgs.len() implies (#[trigger] imgs[i] matches Some(v)
            ==> view_wf(v) && mode_is_u8(v.mode)) by {
            if a.is_valid(i) {
                assert(imgs[i] == Some(a.row_image(i)));
            }
        }
        law_images_roundtrip(b, a.name, imgs, a.image_mode());
    } else {
        assert forall|i: int| 0 <= i < a.len() implies !#[trigger] a.is_valid(i) by {
            if a.is_valid(i) {
                lemma_total_row(imgs, i);
                assert(imgs[i] == Some(a.row_image(i)));
            }
        }
    }
}

/// Encoding a column encodes each non-null row as the image that row reads
/// back as: the row's own samples, its width and its height in that order,
/// and its mode's colour type, in the requested format. A row's encoded
/// file, or its failure and error text, is exactly that of its image; null
/// rows stay null.
pub proof fn law_encoded_row_is_row_image(v: ImageArrayView, f: ImageFormat, i: int)
    requires
        0 <= i < v.len(),
    ensures
        !v.is_valid(i) ==> encoded_row(v, i, f) == Some(None::<Seq<u8>>),
        v.is_valid(i) ==> {
            let img = v.row_image(i);
            let file = encoded_image(img.samples8, img.width, img.height, mode_color(img.mode), f);
            &&& img.width == v.widths[i]
            &&& img.height == v.heights[i]
            &&& img.samples8 == v.row_bytes(i)
            &&& (encoded_row(v, i, f) is Some <==> file is Ok)
            &&& (file is Ok ==> encoded_row(v, i, f) == Some(Some(file->Ok_0)))
            &&& (file is Err ==> row_encode_error(v, i, f) == file->Err_0)
        },
{
}

/// A column built from columns without any samples has only null rows, each
/// of which reads back as null.
pub proof fn law_null_column(name: Seq<char>, dtype: DataType, n: nat)
    ensures
        null_view(name, dtype, n).len() == n,
        forall|i: int| 0 <= i < n ==> !#[trigger] null_view(name, dtype, n).is_valid(i),
        null_view(name, dtype, n).all_readable(),
{
}

/// When every row encodes, the encoded column has one row per image row, and
/// a row is null exactly when the image row is.
pub proof fn law_encode_keeps_nulls(a: ImageArrayView, f: ImageFormat)
    requires
        a.wf(),
        all_encode(a, f),
    ensures
        encoded_rows(a, f).len() == a.len(),
        forall|i: int|
            0 <= i < a.len() ==> (#[trigger] encoded_rows(a, f)[i] is None <==> !a.is_valid(i)),
{
    assert forall|i: int| 0 <= i < a.len() implies (#[trigger] encoded_rows(a, f)[i] is None
        <==> !a.is_valid(i)) by {
        assert(encoded_row(a, i, f) is Some);
    }
}

/// Decoding a binary column either stops with an error or yields, row by
/// row, the decoded image of each non-null row and `None` for each null row,
/// all images sharing the one sample type it reports.
pub proof fn law_decode_uniform(rows: Seq<Option<Seq<u8>>>)
    ensures
        decode_scan(rows) matches DecodeScan::Decoded(imgs, cached) ==> {
            &&& imgs.len() == rows.len()
            &&& forall|i: int|
                0 <= i < imgs.len() ==> #[trigger] imgs[i] == match rows[i] {
                    None => None,
                    Some(b) => Some(raw_to_view(decoded_image(b)->Ok_0)),
                }
            &&& forall|i: int|
                0 <= i < imgs.len() ==> (#[trigger] imgs[i] matches Some(v) ==> cached == Some(
                    mode_dtype(v.mode),
                ))
        },
    decreases rows.len(),
{
    if rows.len() > 0 {
        law_decode_uniform(rows.drop_last());
        if let DecodeScan::Decoded(imgs, cached) = decode_scan(rows) {
            let prev = rows.drop_last();
            if let DecodeScan::Decoded(pimgs, pcached) = decode_scan(prev) {
                assert forall|i: int| 0 <= i < imgs.len() implies #[trigger] imgs[i] == match rows[i] {
                    None => None,
                    Some(b) => Some(raw_to_view(decoded_image(b)->Ok_0)),
                } by {
                    if i < imgs.len() - 1 {
                        assert(imgs[i] == pimgs[i]);
                        assert(rows[i] == prev[i]);
                    }
                }
                assert forall|i: int| 0 <= i < imgs.len() implies (#[trigger] imgs[i] matches Some(v)
                    ==> cached == Some(mode_dtype(v.mode))) by {
                    if i < imgs.len() - 1 {
                        assert(imgs[i] == pimgs[i]);
                    }
                }
            }
        }
    }
}

} // verus!
