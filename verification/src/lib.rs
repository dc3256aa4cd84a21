//! Image columns: decoding, encoding and resizing images stored in a
//! columnar (Arrow) layout, and the `encode` expression over such columns.
pub mod arrow_support;
pub mod binary_array;
pub mod datatypes;
pub mod dsl;
pub mod image_array;
pub mod image_buffer;
pub mod image_codec;
