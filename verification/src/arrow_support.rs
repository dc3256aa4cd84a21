//! The parts of arrow2 the image columns are built from: validity bitmaps,
//! offsets and binary arrays, each with a name for what it holds.
use arrow2::array::{Array, BinaryArray, ListArray, MutableBinaryArray, PrimitiveArray, TryPush};
use arrow2::datatypes::{DataType as ArrowType, Field as ArrowField};
use arrow2::bitmap::{Bitmap, MutableBitmap};
use arrow2::offset::OffsetsBuffer;
use vstd::prelude::*;

verus! {

#[verifier::external_type_specification]
#[verifier::external_body]
pub struct ExArrowError(arrow2::error::Error);

#[verifier::external_type_specification]
#[verifier::external_body]
pub struct ExBitmap(arrow2::bitmap::Bitmap);

#[verifier::external_type_specification]
#[verifier::external_body]
pub struct ExMutableBitmap(arrow2::bitmap::MutableBitmap);

/// Arrow offsets with `i64` entries. `OffsetsBuffer<O>` is bounded by an
/// arrow2 trait and cannot be declared as a type here, so the buffer is held
/// in a private field and read only through the wrappers below.
#[verifier::external_body]
pub struct Offsets64 {
    inner: OffsetsBuffer<i64>,
}

/// An Arrow `LargeBinary` array (`BinaryArray<i64>`), held in a
/// private field for the same reason as [`Offsets64`].
#[verifier::external_body]
pub struct LargeBinary {
    inner: BinaryArray<i64>,
}

/// A growable `LargeBinary` array (`MutableBinaryArray<i64>`), held in a
/// private field for the same reason as [`Offsets64`].
#[verifier::external_body]
pub struct LargeBinaryBuilder {
    inner: MutableBinaryArray<i64>,
}

/// An Arrow array of bytes (`PrimitiveArray<u8>`), held in a
/// private field for the same reason as [`Offsets64`].
#[verifier::external_body]
pub struct U8Column {
    inner: PrimitiveArray<u8>,
}

/// An Arrow array of `u16` values (`PrimitiveArray<u16>`), held in a
/// private field for the same reason as [`Offsets64`].
#[verifier::external_body]
pub struct U16Column {
    inner: PrimitiveArray<u16>,
}

/// An Arrow array of `u32` values (`PrimitiveArray<u32>`), held in a
/// private field for the same reason as [`Offsets64`].
#[verifier::external_body]
pub struct U32Column {
    inner: PrimitiveArray<u32>,
}

/// An Arrow `LargeList` array whose items are bytes (`ListArray<i64>` over
/// a `PrimitiveArray<u8>`), held in a private field for the same
/// reason as [`Offsets64`].
#[verifier::external_body]
pub struct ByteLists {
    inner: ListArray<i64>,
}

/// The bits of a bitmap, in order.
pub uninterp spec fn bitmap_bits(b: Bitmap) -> Seq<bool>;

/// The bits of a growable bitmap, in order.
pub uninterp spec fn mutable_bitmap_bits(b: MutableBitmap) -> Seq<bool>;

/// The offsets held by an offsets buffer, in order.
pub uninterp spec fn offsets_values(o: Offsets64) -> Seq<i64>;

/// The rows of a binary array: `None` for a null row, else its bytes.
pub uninterp spec fn binary_rows(a: LargeBinary) -> Seq<Option<Seq<u8>>>;

/// The rows of a growable binary array: `None` for a null row, else its bytes.
pub uninterp spec fn mutable_binary_rows(a: LargeBinaryBuilder) -> Seq<Option<Seq<u8>>>;

/// The values of a byte column, in order.
pub uninterp spec fn u8_column_values(c: U8Column) -> Seq<u8>;

/// The validity bits of a byte column, if it has any.
pub uninterp spec fn u8_column_validity(c: U8Column) -> Option<Seq<bool>>;

/// The values of a `u16` column, in order.
pub uninterp spec fn u16_column_values(c: U16Column) -> Seq<u16>;

/// The validity bits of a `u16` column, if it has any.
pub uninterp spec fn u16_column_validity(c: U16Column) -> Option<Seq<bool>>;

/// The values of a `u32` column, in order.
pub uninterp spec fn u32_column_values(c: U32Column) -> Seq<u32>;

/// The validity bits of a `u32` column, if it has any.
pub uninterp spec fn u32_column_validity(c: U32Column) -> Option<Seq<bool>>;

/// The offsets of a list array of bytes, in order.
pub uninterp spec fn byte_lists_offsets(l: ByteLists) -> Seq<i64>;

/// The item bytes of a list array of bytes, all lists concatenated.
pub uninterp spec fn byte_lists_values(l: ByteLists) -> Seq<u8>;

/// The validity bits of a list array of bytes, if it has any.
pub uninterp spec fn byte_lists_validity(l: ByteLists) -> Option<Seq<bool>>;

/// The bits of an optional bitmap.
pub open spec fn opt_bitmap_bits(v: Option<Bitmap>) -> Option<Seq<bool>> {
    match v {
        Some(b) => Some(bitmap_bits(b)),
        None => None,
    }
}

/// An optional bitmap with, if present, `n` bits.
pub open spec fn opt_bitmap_len(v: Option<Bitmap>, n: int) -> bool {
    v matches Some(b) ==> bitmap_bits(b).len() == n
}

/// The number of unset bits.
pub open spec fn count_unset(s: Seq<bool>) -> nat
    decreases s.len(),
{
    if s.len() == 0 {
        0
    } else {
        count_unset(s.drop_last()) + if s.last() {
            0nat
        } else {
            1nat
        }
    }
}

/// Arrow's offsets invariant: at least one offset, the first non-negative,
/// and each at least the one before it.
pub open spec fn offsets_valid(v: Seq<i64>) -> bool {
    &&& v.len() >= 1
    &&& v[0] >= 0
    &&& forall|i: int, j: int| 0 <= i <= j < v.len() ==> v[i] <= v[j]
}

/// The number of value bytes of some rows.
pub open spec fn total_bytes(rows: Seq<Option<Seq<u8>>>) -> int
    decreases rows.len(),
{
    if rows.len() == 0 {
        0
    } else {
        total_bytes(rows.drop_last()) + match rows.last() {
            Some(b) => b.len() as int,
            None => 0int,
        }
    }
}

/// The view of an optional byte slice.
pub open spec fn opt_bytes(v: Option<&[u8]>) -> Option<Seq<u8>> {
    match v {
        Some(s) => Some(s@),
        None => None,
    }
}

/// `MutableBitmap::with_capacity`: an empty bitmap.
#[verifier::external_body]
pub(crate) fn mutable_bitmap_with_capacity(capacity: usize) -> (r: MutableBitmap)
    ensures
        mutable_bitmap_bits(r) == Seq::<bool>::empty(),
{
    MutableBitmap::with_capacity(capacity)
}

/// `MutableBitmap::push`: appends one bit; the length counter must not overflow.
#[verifier::external_body]
pub(crate) fn mutable_bitmap_push(b: &mut MutableBitmap, value: bool)
    requires
        mutable_bitmap_bits(*old(b)).len() < usize::MAX,
    ensures
        mutable_bitmap_bits(*final(b)) == mutable_bitmap_bits(*old(b)).push(value),
{
    b.push(value)
}

/// `MutableBitmap::unset_bits`: the number of unset bits.
#[verifier::external_body]
pub(crate) fn mutable_bitmap_unset_bits(b: &MutableBitmap) -> (r: usize)
    ensures
        r == count_unset(mutable_bitmap_bits(*b)),
{
    b.unset_bits()
}

/// `Bitmap::from(MutableBitmap)`: freezes the bits unchanged.
#[verifier::external_body]
pub(crate) fn bitmap_from_mutable(b: MutableBitmap) -> (r: Bitmap)
    ensures
        bitmap_bits(r) == mutable_bitmap_bits(b),
{
    b.into()
}

/// `Bitmap::new_zeroed`: `length` unset bits.
#[verifier::external_body]
pub(crate) fn bitmap_new_zeroed(length: usize) -> (r: Bitmap)
    ensures
        bitmap_bits(r) == Seq::new(length as nat, |_i: int| false),
{
    Bitmap::new_zeroed(length)
}

/// `Bitmap::get_bit`: the bit at `i`, which must be in range.
#[verifier::external_body]
pub(crate) fn bitmap_get_bit(b: &Bitmap, i: usize) -> (r: bool)
    requires
        i < bitmap_bits(*b).len(),
    ensures
        r == bitmap_bits(*b)[i as int],
{
    b.get_bit(i)
}

/// `OffsetsBuffer::try_from(Vec<i64>)`: accepts exactly the vectors that meet
/// Arrow's offsets invariant, keeping them unchanged.
#[verifier::external_body]
pub(crate) fn offsets_try_from(v: Vec<i64>) -> (r: Result<Offsets64, arrow2::error::Error>)
    ensures
        r is Ok <==> offsets_valid(v@),
        r matches Ok(o) ==> offsets_values(o) == v@,
{
    OffsetsBuffer::try_from(v).map(|inner| Offsets64 { inner })
}

/// `Bitmap::clone`: the same bits.
#[verifier::external_body]
pub(crate) fn bitmap_clone(b: &Bitmap) -> (r: Bitmap)
    ensures
        bitmap_bits(r) == bitmap_bits(*b),
{
    b.clone()
}

/// `PrimitiveArray::from_vec(values).with_validity(validity)`: a byte
/// column with these values and validity, whose length must match.
#[verifier::external_body]
pub(crate) fn u8_column_new(values: Vec<u8>, validity: Option<Bitmap>) -> (r: U8Column)
    requires
        opt_bitmap_len(validity, values@.len() as int),
    ensures
        u8_column_values(r) == values@,
        u8_column_validity(r) == opt_bitmap_bits(validity),
{
    U8Column { inner: PrimitiveArray::from_vec(values).with_validity(validity) }
}

/// `PrimitiveArray::values`: the values of a byte column.
#[verifier::external_body]
pub(crate) fn u8_column_slice(c: &U8Column) -> (r: &[u8])
    ensures
        r@ == u8_column_values(*c),
{
    c.inner.values().as_slice()
}

/// `PrimitiveArray::from_vec(values).with_validity(validity)`: a `u16`
/// column with these values and validity, whose length must match.
#[verifier::external_body]
pub(crate) fn u16_column_new(values: Vec<u16>, validity: Option<Bitmap>) -> (r: U16Column)
    requires
        opt_bitmap_len(validity, values@.len() as int),
    ensures
        u16_column_values(r) == values@,
        u16_column_validity(r) == opt_bitmap_bits(validity),
{
    U16Column { inner: PrimitiveArray::from_vec(values).with_validity(validity) }
}

/// `PrimitiveArray::values`: the values of a `u16` column.
#[verifier::external_body]
pub(crate) fn u16_column_slice(c: &U16Column) -> (r: &[u16])
    ensures
        r@ == u16_column_values(*c),
{
    c.inner.values().as_slice()
}

/// `PrimitiveArray::from_vec(values).with_validity(validity)`: a `u32`
/// column with these values and validity, whose length must match.
#[verifier::external_body]
pub(crate) fn u32_column_new(values: Vec<u32>, validity: Option<Bitmap>) -> (r: U32Column)
    requires
        opt_bitmap_len(validity, values@.len() as int),
    ensures
        u32_column_values(r) == values@,
        u32_column_validity(r) == opt_bitmap_bits(validity),
{
    U32Column { inner: PrimitiveArray::from_vec(values).with_validity(validity) }
}

/// `PrimitiveArray::values`: the values of a `u32` column.
#[verifier::external_body]
pub(crate) fn u32_column_slice(c: &U32Column) -> (r: &[u32])
    ensures
        r@ == u32_column_values(*c),
{
    c.inner.values().as_slice()
}

/// `ListArray::<i64>::new` of type `LargeList` with a nullable `UInt8`
/// item field named `data`, over `PrimitiveArray::from_vec(values)`. It
/// panics unless the offsets stay within the values and the validity, if
/// any, has one bit per list.
#[verifier::external_body]
pub(crate) fn byte_lists_new(offsets: Offsets64, values: Vec<u8>, validity: Option<Bitmap>) -> (r: ByteLists)
    requires
        offsets_valid(offsets_values(offsets)),
        offsets_values(offsets).last() <= values@.len(),
        opt_bitmap_len(validity, offsets_values(offsets).len() - 1),
    ensures
        byte_lists_offsets(r) == offsets_values(offsets),
        byte_lists_values(r) == values@,
        byte_lists_validity(r) == opt_bitmap_bits(validity),
{
    let field = ArrowField::new("data", ArrowType::UInt8, true);
    let values = Box::new(PrimitiveArray::from_vec(values));
    ByteLists { inner: ListArray::new(ArrowType::LargeList(Box::new(field)), offsets.inner, values, validity) }
}

/// `ListArray::offsets`: the offsets of a list array of bytes.
#[verifier::external_body]
pub(crate) fn byte_lists_offsets_slice(l: &ByteLists) -> (r: &[i64])
    ensures
        r@ == byte_lists_offsets(*l),
{
    l.inner.offsets().as_slice()
}

/// `ListArray::values`, seen as the byte array [`byte_lists_new`] built it
/// from: the item bytes of all lists.
#[verifier::external_body]
pub(crate) fn byte_lists_values_slice(l: &ByteLists) -> (r: &[u8])
    ensures
        r@ == byte_lists_values(*l),
{
    l.inner.values().as_any().downcast_ref::<PrimitiveArray<u8>>().unwrap().values().as_slice()
}

/// `BinaryArray::len`: the number of rows.
#[verifier::external_body]
pub(crate) fn binary_len(a: &LargeBinary) -> (r: usize)
    ensures
        r == binary_rows(*a).len(),
{
    a.inner.len()
}

/// `BinaryArray::get`: row `i`, which must be in range.
#[verifier::external_body]
pub(crate) fn binary_get(a: &LargeBinary, i: usize) -> (r: Option<&[u8]>)
    requires
        i < binary_rows(*a).len(),
    ensures
        opt_bytes(r) == binary_rows(*a)[i as int],
{
    a.inner.get(i)
}

/// `MutableBinaryArray::new`: no rows.
#[verifier::external_body]
pub(crate) fn mutable_binary_new() -> (r: LargeBinaryBuilder)
    ensures
        mutable_binary_rows(r) == Seq::<Option<Seq<u8>>>::empty(),
{
    LargeBinaryBuilder { inner: MutableBinaryArray::<i64>::new() }
}

/// `TryPush::try_push`: appends a row. It fails, with an overflow error,
/// exactly when the value bytes would no longer be addressable by `i64`
/// offsets; after a failure the array is left in an unspecified state.
#[verifier::external_body]
pub(crate) fn mutable_binary_try_push(a: &mut LargeBinaryBuilder, value: Option<&[u8]>) -> (r: Result<
    (),
    arrow2::error::Error,
>)
    ensures
        r is Ok <==> (value is None || total_bytes(mutable_binary_rows(*old(a))) + value->0@.len()
            <= i64::MAX),
        r is Ok ==> mutable_binary_rows(*final(a)) == mutable_binary_rows(*old(a)).push(
            opt_bytes(value),
        ),
{
    a.inner.try_push(value)
}

/// `BinaryArray::from(MutableBinaryArray)`: freezes the rows unchanged.
#[verifier::external_body]
pub(crate) fn binary_from_mutable(a: LargeBinaryBuilder) -> (r: LargeBinary)
    ensures
        binary_rows(r) == mutable_binary_rows(a),
{
    LargeBinary { inner: a.inner.into() }
}

} // verus!
