# daft_image

Image columns for a columnar data frame, with their behaviour stated and
proved in Verus.

An image column stores one image per row: the 8-bit samples of all images
concatenated, Arrow offsets marking each row's samples, and per-row channel
counts, heights, widths and mode codes, with a validity bitmap for null rows.
The library builds such columns from images, reads images back out of them,
decodes columns of image files into image columns, encodes image columns into
columns of image files, and resizes every image of a column.

Layout of `src/`:

- `datatypes.rs`: image modes and their codes, colour types, file formats,
  data types, fields and errors.
- `image_buffer.rs`: a single image (`DaftImageBuffer`) and its operations.
- `image_array.rs`: image columns (`ImageArray`), decoding a binary column
  into one, and the laws that relate these operations.
- `binary_array.rs`: columns of byte strings.
- `dsl.rs`: expressions, schemas and series, and the `encode` function's
  output field and evaluation.
- `arrow_support.rs` and `image_codec.rs`: the calls into `arrow2` and
  `image`, each with the contract the library relies on.

`app/` holds conversions to the `image` crate's own enums and readable error
messages, which need code outside the verified library.
