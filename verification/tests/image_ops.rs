use std::io::Cursor;

use image::imageops::{resize, thumbnail, FilterType::Triangle};
use image::ImageBuffer;

use daft_image::binary_array::BinaryArray;
use daft_image::datatypes::{ColorType, DaftError, DataType, Field, ImageFormat, ImageMode};
use daft_image::dsl::{EncodeEvaluator, Expr, FunctionExpr, ImageExpr, Schema, Series};
use daft_image::image_array::{ImageArray, ImageArrayVecs};
use daft_image::image_buffer::{image_buffer_vec_to_cow, DaftImageBuffer, ImageBuf};

fn gray(width: u32, height: u32, data: Vec<u8>) -> DaftImageBuffer {
    DaftImageBuffer::L(ImageBuf { width, height, data })
}

fn rgb(width: u32, height: u32, data: Vec<u8>) -> DaftImageBuffer {
    DaftImageBuffer::RGB(ImageBuf { width, height, data })
}

fn png_bytes_u8(width: u32, height: u32, data: Vec<u8>) -> Vec<u8> {
    let img = image::ImageBuffer::<image::Luma<u8>, Vec<u8>>::from_raw(width, height, data).unwrap();
    let mut out = Cursor::new(Vec::new());
    image::DynamicImage::ImageLuma8(img)
        .write_to(&mut out, image::ImageOutputFormat::Png)
        .unwrap();
    out.into_inner()
}

fn png_bytes_u16(width: u32, height: u32, data: Vec<u16>) -> Vec<u8> {
    let img =
        image::ImageBuffer::<image::Luma<u16>, Vec<u16>>::from_raw(width, height, data).unwrap();
    let mut out = Cursor::new(Vec::new());
    image::DynamicImage::ImageLuma16(img)
        .write_to(&mut out, image::ImageOutputFormat::Png)
        .unwrap();
    out.into_inner()
}

fn samples(b: &DaftImageBuffer) -> Vec<u8> {
    b.as_u8_slice().to_vec()
}

fn mixed_array() -> ImageArray {
    let inputs = vec![Some(gray(2, 1, vec![1, 2])), None, Some(rgb(1, 1, vec![3, 4, 5]))];
    ImageArray::from_daft_image_buffers("imgs", &inputs, &None).unwrap()
}

#[test]
fn mode_codes_roundtrip() {
    let modes = [
        ImageMode::L,
        ImageMode::LA,
        ImageMode::RGB,
        ImageMode::RGBA,
        ImageMode::L16,
        ImageMode::LA16,
        ImageMode::RGB16,
        ImageMode::RGBA16,
        ImageMode::RGB32F,
        ImageMode::RGBA32F,
    ];
    for (i, m) in modes.iter().enumerate() {
        assert_eq!(m.to_u8(), (i + 1) as u8);
        assert_eq!(ImageMode::from_u8(m.to_u8()), Some(*m));
    }
    assert_eq!(ImageMode::from_u8(0), None);
    assert_eq!(ImageMode::from_u8(11), None);
}

#[test]
fn mode_channels_and_dtypes() {
    assert_eq!(ImageMode::L.num_channels(), 1);
    assert_eq!(ImageMode::LA16.num_channels(), 2);
    assert_eq!(ImageMode::RGB32F.num_channels(), 3);
    assert_eq!(ImageMode::RGBA.num_channels(), 4);
    assert!(matches!(ImageMode::RGB.get_dtype(), DataType::UInt8));
    assert!(matches!(ImageMode::RGB16.get_dtype(), DataType::UInt16));
    assert!(matches!(ImageMode::RGBA32F.get_dtype(), DataType::Float32));
    assert!(ImageMode::LA.is_u8());
    assert!(!ImageMode::L16.is_u8());
}

#[test]
fn buffer_accessors() {
    let b = rgb(1, 2, vec![1, 2, 3, 4, 5, 6]);
    assert_eq!(b.width(), 1);
    assert_eq!(b.height(), 2);
    assert_eq!(b.color(), ColorType::Rgb8);
    assert_eq!(b.mode(), ImageMode::RGB);
    assert_eq!(b.as_u8_slice(), &[1, 2, 3, 4, 5, 6]);
    let f = DaftImageBuffer::RGBA32F(ImageBuf { width: 1, height: 1, data: vec![0, 0, 0, 0] });
    assert_eq!(f.color(), ColorType::Rgba32F);
    assert_eq!(f.mode(), ImageMode::RGBA32F);
    let w = DaftImageBuffer::LA16(ImageBuf { width: 1, height: 1, data: vec![7, 8] });
    assert_eq!(w.color(), ColorType::La16);
    assert_eq!(w.mode(), ImageMode::LA16);
}

#[test]
fn vec_to_buffer_keeps_samples() {
    let b = image_buffer_vec_to_cow(2, 1, 3, vec![1u8, 2, 3, 4, 5, 6]);
    assert_eq!(b.width, 2);
    assert_eq!(b.height, 1);
    assert_eq!(b.data, vec![1, 2, 3, 4, 5, 6]);
}

#[test]
fn from_buffers_columns() {
    let arr = mixed_array();
    assert_eq!(arr.len(), 3);
    assert_eq!(arr.name(), "imgs");
    assert_eq!(*arr.image_mode(), None);
    let (offsets, data) = arr.data_array();
    assert_eq!(offsets, &[0, 2, 2, 5]);
    assert_eq!(data, &[1, 2, 3, 4, 5]);
    assert_eq!(arr.channel_array(), &[1, 1, 3]);
    assert_eq!(arr.height_array(), &[1, 0, 1]);
    assert_eq!(arr.width_array(), &[2, 0, 1]);
    assert_eq!(arr.mode_array(), &[1, 1, 3]);
    assert!(arr.validity().is_some());
    assert!(arr.is_valid(0));
    assert!(!arr.is_valid(1));
    assert!(arr.is_valid(2));
    assert!(matches!(arr.field().dtype, DataType::Image(_, None)));
}

#[test]
fn from_buffers_roundtrip() {
    let arr = mixed_array();
    let first = arr.as_image_obj(0).unwrap();
    assert_eq!(first.mode(), ImageMode::L);
    assert_eq!((first.width(), first.height()), (2, 1));
    assert_eq!(samples(&first), vec![1, 2]);
    assert!(arr.as_image_obj(1).is_none());
    let third = arr.as_image_obj(2).unwrap();
    assert_eq!(third.mode(), ImageMode::RGB);
    assert_eq!(samples(&third), vec![3, 4, 5]);
}

#[test]
fn from_buffers_without_nulls_has_no_bitmap() {
    let inputs = vec![Some(gray(1, 1, vec![9])), Some(gray(1, 1, vec![8]))];
    let arr = ImageArray::from_daft_image_buffers("a", &inputs, &Some(ImageMode::L)).unwrap();
    assert!(arr.validity().is_none());
    assert_eq!(*arr.image_mode(), Some(ImageMode::L));
    assert!(arr.is_valid(0) && arr.is_valid(1));
}

#[test]
fn from_buffers_without_samples_is_all_null() {
    let inputs = vec![Some(gray(0, 0, vec![])), None];
    let arr = ImageArray::from_daft_image_buffers("z", &inputs, &None).unwrap();
    assert_eq!(arr.len(), 2);
    assert!(!arr.is_valid(0));
    assert!(!arr.is_valid(1));
    assert!(arr.as_image_obj(0).is_none());
    assert_eq!(arr.data_array().0, &[0, 0, 0]);
}

#[test]
fn from_vecs_null_column() {
    let vecs = ImageArrayVecs::<u8> {
        data: vec![],
        channels: vec![3, 3],
        heights: vec![1, 1],
        widths: vec![1, 1],
        modes: vec![3, 3],
        offsets: vec![0, 0, 0],
        validity: None,
    };
    let dtype = DataType::Image(Box::new(DataType::UInt8), Some(ImageMode::RGB));
    let arr = ImageArray::from_vecs("n", dtype, vecs).unwrap();
    assert_eq!(arr.len(), 2);
    assert!(!arr.is_valid(0) && !arr.is_valid(1));
    assert_eq!(arr.channel_array(), &[0, 0]);
    assert_eq!(*arr.image_mode(), Some(ImageMode::RGB));
}

#[test]
fn from_vecs_rejects_bad_offsets() {
    let dtype = DataType::Image(Box::new(DataType::UInt8), None);
    let decreasing = ImageArrayVecs::<u8> {
        data: vec![1, 2],
        channels: vec![1, 1],
        heights: vec![1, 1],
        widths: vec![1, 1],
        modes: vec![1, 1],
        offsets: vec![0, 2, 1],
        validity: None,
    };
    assert!(matches!(ImageArray::from_vecs("b", dtype.clone(), decreasing), Err(DaftError::ArrowError(_))));
    let negative = ImageArrayVecs::<u8> {
        data: vec![1],
        channels: vec![1],
        heights: vec![1],
        widths: vec![1],
        modes: vec![1],
        offsets: vec![-1, 0],
        validity: None,
    };
    assert!(matches!(ImageArray::from_vecs("b", dtype.clone(), negative), Err(DaftError::ArrowError(_))));
    let empty = ImageArrayVecs::<u8> {
        data: vec![1],
        channels: vec![],
        heights: vec![],
        widths: vec![],
        modes: vec![],
        offsets: vec![],
        validity: None,
    };
    assert!(matches!(ImageArray::from_vecs("b", dtype, empty), Err(DaftError::ArrowError(_))));
}

#[test]
fn from_vecs_with_validity() {
    let validity = arrow2::bitmap::Bitmap::from([true, false]);
    let vecs = ImageArrayVecs::<u8> {
        data: vec![5, 6],
        channels: vec![1, 1],
        heights: vec![1, 1],
        widths: vec![2, 0],
        modes: vec![1, 1],
        offsets: vec![0, 2, 2],
        validity: Some(validity),
    };
    let arr = ImageArray::from_vecs("v", DataType::Image(Box::new(DataType::UInt8), None), vecs)
        .unwrap();
    assert!(arr.is_valid(0));
    assert!(!arr.is_valid(1));
    assert_eq!(samples(&arr.as_image_obj(0).unwrap()), vec![5, 6]);
    assert!(arr.as_image_obj(1).is_none());
}

#[test]
fn encode_png_then_decode_roundtrip() {
    let inputs = vec![Some(gray(2, 2, vec![0, 64, 128, 255])), None];
    let arr = ImageArray::from_daft_image_buffers("imgs", &inputs, &None).unwrap();
    let encoded = arr.encode(ImageFormat::PNG).unwrap();
    assert_eq!(encoded.name(), "imgs");
    assert_eq!(encoded.len(), 2);
    let png = encoded.get(0).unwrap();
    assert_eq!(&png[1..4], b"PNG");
    assert!(encoded.get(1).is_none());
    let decoded = encoded.image_decode().unwrap();
    assert_eq!(decoded.len(), 2);
    assert_eq!(decoded.name(), "imgs");
    let img = decoded.as_image_obj(0).unwrap();
    assert_eq!(img.mode(), ImageMode::L);
    assert_eq!(samples(&img), vec![0, 64, 128, 255]);
    assert!(decoded.as_image_obj(1).is_none());
}

#[test]
fn buffer_encode_writes_from_start() {
    let img = gray(1, 1, vec![200]);
    let mut out = Vec::new();
    img.encode(ImageFormat::BMP, &mut out).unwrap();
    assert_eq!(&out[0..2], b"BM");
    let mut again = vec![0u8; out.len() + 3];
    img.encode(ImageFormat::BMP, &mut again).unwrap();
    assert_eq!(&again[..out.len()], &out[..]);
    assert_eq!(&again[out.len()..], &[0, 0, 0]);
}

#[test]
fn buffer_encode_error_is_value_error() {
    let img = gray(1, 1, vec![1]);
    let mut out = Vec::new();
    match img.encode(ImageFormat::GIF, &mut out) {
        Err(DaftError::ValueError(msg)) => {
            assert!(msg.starts_with("Encoding image into file format GIF failed: "))
        }
        other => panic!("unexpected {:?}", other),
    }
}

#[test]
fn array_encode_error_is_value_error() {
    let inputs = vec![Some(gray(1, 1, vec![1]))];
    let arr = ImageArray::from_daft_image_buffers("g", &inputs, &None).unwrap();
    assert!(matches!(arr.encode(ImageFormat::GIF), Err(DaftError::ValueError(_))));
}

#[test]
fn decode_bad_bytes_is_value_error() {
    match DaftImageBuffer::decode(&[1, 2, 3, 4]) {
        Err(DaftError::ValueError(msg)) => {
            assert!(msg.starts_with("Decoding image from bytes failed: "))
        }
        other => panic!("unexpected {:?}", other.is_ok()),
    }
}

#[test]
fn decode_sixteen_bit_png() {
    let bytes = png_bytes_u16(2, 1, vec![1000, 60000]);
    let img = DaftImageBuffer::decode(&bytes).unwrap();
    assert_eq!(img.mode(), ImageMode::L16);
    assert_eq!((img.width(), img.height()), (2, 1));
    match img {
        DaftImageBuffer::L16(b) => assert_eq!(b.data, vec![1000, 60000]),
        _ => panic!("expected a 16-bit image"),
    }
}

#[test]
fn image_decode_rejects_mixed_dtypes() {
    let rows = vec![Some(png_bytes_u8(1, 1, vec![7])), Some(png_bytes_u16(1, 1, vec![7]))];
    let col = BinaryArray::from_values("m", rows).unwrap();
    match col.image_decode() {
        Err(DaftError::ValueError(msg)) => {
            assert!(msg.starts_with("All images in a column must have the same dtype"))
        }
        other => panic!("unexpected {:?}", other.is_ok()),
    }
}

#[test]
fn image_decode_propagates_decode_error() {
    let rows = vec![None, Some(vec![0u8, 1, 2])];
    let col = BinaryArray::from_values("e", rows).unwrap();
    assert!(matches!(col.image_decode(), Err(DaftError::ValueError(_))));
}

#[test]
fn image_decode_all_null_falls_back_to_bytes() {
    let rows: Vec<Option<Vec<u8>>> = vec![None, None];
    let col = BinaryArray::from_values("n", rows).unwrap();
    let arr = col.image_decode().unwrap();
    assert_eq!(arr.len(), 2);
    assert!(!arr.is_valid(0) && !arr.is_valid(1));
    assert!(matches!(&arr.field().dtype, DataType::Image(inner, None) if matches!(**inner, DataType::UInt8)));
}

#[test]
fn try_image_decode_refuses_sixteen_bit_columns() {
    let rows = vec![Some(png_bytes_u16(1, 1, vec![7]))];
    let col = BinaryArray::from_values("s", rows).unwrap();
    assert!(!col.image_decode_supported());
    assert!(col.try_image_decode().is_none());
    let ok_rows = vec![Some(png_bytes_u8(1, 1, vec![7]))];
    let ok_col = BinaryArray::from_values("s", ok_rows).unwrap();
    assert!(ok_col.image_decode_supported());
    let arr = ok_col.try_image_decode().unwrap().unwrap();
    assert_eq!(samples(&arr.as_image_obj(0).unwrap()), vec![7]);
}

#[test]
fn binary_from_values_keeps_rows() {
    let rows = vec![Some(vec![1u8, 2]), None, Some(vec![])];
    let col = BinaryArray::from_values("bin", rows).unwrap();
    assert_eq!(col.len(), 3);
    assert_eq!(col.name(), "bin");
    assert_eq!(col.get(0), Some(&[1u8, 2][..]));
    assert_eq!(col.get(1), None);
    assert_eq!(col.get(2), Some(&[][..]));
    assert!(matches!(col.field().dtype, DataType::Binary));
}

#[test]
fn buffer_resize_matches_image_crate() {
    let data = vec![10u8, 20, 30, 40, 50, 60, 70, 80, 90, 100, 110, 120];
    let img = rgb(2, 2, data.clone());
    let small = img.resize(1, 1);
    assert_eq!(small.mode(), ImageMode::RGB);
    assert_eq!((small.width(), small.height()), (1, 1));
    let expected = image::imageops::resize(
        &image::ImageBuffer::<image::Rgb<u8>, Vec<u8>>::from_raw(2, 2, data).unwrap(),
        1,
        1,
        image::imageops::FilterType::Triangle,
    )
    .into_raw();
    assert_eq!(samples(&small), expected);
    assert_ne!(samples(&small), samples(&img));
}

#[test]
fn buffer_thumbnail_matches_image_crate() {
    let data: Vec<u8> = (0..16).map(|v| v * 10).collect();
    let img = gray(4, 4, data.clone());
    let thumb = img.thumbnail(2, 2);
    assert_eq!((thumb.width(), thumb.height()), (2, 2));
    let expected = image::imageops::thumbnail(
        &image::ImageBuffer::<image::Luma<u8>, Vec<u8>>::from_raw(4, 4, data).unwrap(),
        2,
        2,
    )
    .into_raw();
    assert_eq!(samples(&thumb), expected);
    assert_eq!(samples(&thumb).len(), 4);
}

#[test]
fn array_resize_keeps_nulls_and_modes() {
    let inputs = vec![
        Some(gray(2, 2, vec![1, 2, 3, 4])),
        None,
        Some(rgb(1, 1, vec![5, 6, 7])),
    ];
    let arr = ImageArray::from_daft_image_buffers("r", &inputs, &None).unwrap();
    let out = arr.resize(3, 2).unwrap();
    assert_eq!(out.len(), 3);
    assert_eq!(out.name(), "r");
    assert_eq!(out.width_array(), &[3, 0, 3]);
    assert_eq!(out.height_array(), &[2, 0, 2]);
    assert_eq!(out.mode_array(), &[1, 1, 3]);
    assert!(!out.is_valid(1));
    let first = out.as_image_obj(0).unwrap();
    assert_eq!(samples(&first).len(), 6);
    assert_eq!(out.as_image_obj(2).unwrap().mode(), ImageMode::RGB);
}

#[test]
fn array_resize_to_nothing_is_all_null() {
    let inputs = vec![Some(gray(1, 1, vec![1]))];
    let arr = ImageArray::from_daft_image_buffers("r", &inputs, &None).unwrap();
    let out = arr.resize(0, 0).unwrap();
    assert_eq!(out.len(), 1);
    assert!(!out.is_valid(0));
}

fn image_schema() -> Schema {
    Schema {
        fields: vec![
            Field::new("img", DataType::Image(Box::new(DataType::UInt8), None)),
            Field::new("txt", DataType::Utf8),
        ],
    }
}

fn encode_expr(inputs: Vec<Expr>) -> Expr {
    Expr::Function {
        func: FunctionExpr::Image(ImageExpr::Encode { image_format: ImageFormat::PNG }),
        inputs,
    }
}

#[test]
fn encode_evaluator_name() {
    assert_eq!(EncodeEvaluator {}.fn_name(), "encode");
}

#[test]
fn encode_to_field_of_image_column() {
    let ev = EncodeEvaluator {};
    let f = ev.to_field(&[Expr::Column("img".to_string())], &image_schema()).unwrap();
    assert_eq!(f.name, "img");
    assert!(matches!(f.dtype, DataType::Binary));
}

#[test]
fn encode_to_field_errors() {
    let ev = EncodeEvaluator {};
    let schema = image_schema();
    assert!(matches!(
        ev.to_field(&[Expr::Column("txt".to_string())], &schema),
        Err(DaftError::TypeError(_))
    ));
    assert!(matches!(
        ev.to_field(&[Expr::Column("img".to_string()), Expr::Column("img".to_string())], &schema),
        Err(DaftError::SchemaMismatch(_))
    ));
    assert!(matches!(ev.to_field(&[], &schema), Err(DaftError::SchemaMismatch(_))));
    assert!(matches!(
        ev.to_field(&[Expr::Column("missing".to_string())], &schema),
        Err(DaftError::FieldNotFound(_))
    ));
    let nested = encode_expr(vec![Expr::Column("img".to_string())]);
    assert!(matches!(ev.to_field(&[nested], &schema), Err(DaftError::TypeError(_))));
}

#[test]
fn expr_to_field_of_encode() {
    let e = encode_expr(vec![Expr::Column("img".to_string())]);
    let f = e.to_field(&image_schema()).unwrap();
    assert_eq!(f.name, "img");
    assert!(matches!(f.dtype, DataType::Binary));
}

#[test]
fn encode_evaluate_on_series() {
    let ev = EncodeEvaluator {};
    let expr = encode_expr(vec![Expr::Column("img".to_string())]);
    let inputs = vec![Some(gray(1, 1, vec![42]))];
    let arr = ImageArray::from_daft_image_buffers("img", &inputs, &None).unwrap();
    match ev.evaluate(&[Series::Image(arr)], &expr).unwrap() {
        Series::Binary(b) => {
            assert_eq!(b.len(), 1);
            assert!(b.get(0).unwrap().len() > 8);
        }
        _ => panic!("expected a binary series"),
    }
    let bin = BinaryArray::from_values("b", vec![None]).unwrap();
    assert!(matches!(ev.evaluate(&[Series::Binary(bin)], &expr), Err(DaftError::ValueError(_))));
    assert!(matches!(ev.evaluate(&[], &expr), Err(DaftError::ValueError(_))));
}

#[test]
fn schema_lookup_finds_first_field() {
    let schema = Schema {
        fields: vec![Field::new("a", DataType::Int64), Field::new("a", DataType::Utf8)],
    };
    let f = schema.get_field("a").unwrap();
    assert!(matches!(f.dtype, DataType::Int64));
    assert!(matches!(schema.get_field("b"), Err(DaftError::FieldNotFound(_))));
}

#[test]
fn datatype_equality_and_names() {
    let a = DataType::Image(Box::new(DataType::UInt8), Some(ImageMode::L));
    let b = DataType::Image(Box::new(DataType::UInt8), Some(ImageMode::L));
    let c = DataType::Image(Box::new(DataType::UInt8), None);
    assert!(a.equals(&b));
    assert!(!a.equals(&c));
    assert!(!DataType::UInt8.equals(&DataType::UInt16));
    assert_eq!(a.name(), "Image");
    assert!(a.is_image());
    assert_eq!(ImageFormat::JPEG.name(), "JPEG");
}

fn expected_resize(channels: u8, w: u32, h: u32, data: Vec<u8>, nw: u32, nh: u32) -> Vec<u8> {
    match channels {
        1 => resize(&ImageBuffer::<image::Luma<u8>, _>::from_raw(w, h, data).unwrap(), nw, nh, Triangle).into_raw(),
        2 => resize(&ImageBuffer::<image::LumaA<u8>, _>::from_raw(w, h, data).unwrap(), nw, nh, Triangle).into_raw(),
        3 => resize(&ImageBuffer::<image::Rgb<u8>, _>::from_raw(w, h, data).unwrap(), nw, nh, Triangle).into_raw(),
        _ => resize(&ImageBuffer::<image::Rgba<u8>, _>::from_raw(w, h, data).unwrap(), nw, nh, Triangle).into_raw(),
    }
}

fn expected_thumbnail(channels: u8, w: u32, h: u32, data: Vec<u8>, nw: u32, nh: u32) -> Vec<u8> {
    match channels {
        1 => thumbnail(&ImageBuffer::<image::Luma<u8>, _>::from_raw(w, h, data).unwrap(), nw, nh).into_raw(),
        2 => thumbnail(&ImageBuffer::<image::LumaA<u8>, _>::from_raw(w, h, data).unwrap(), nw, nh).into_raw(),
        3 => thumbnail(&ImageBuffer::<image::Rgb<u8>, _>::from_raw(w, h, data).unwrap(), nw, nh).into_raw(),
        _ => thumbnail(&ImageBuffer::<image::Rgba<u8>, _>::from_raw(w, h, data).unwrap(), nw, nh).into_raw(),
    }
}

fn buffer_of(channels: u8, w: u32, h: u32, data: Vec<u8>) -> DaftImageBuffer {
    let b = ImageBuf { width: w, height: h, data };
    match channels {
        1 => DaftImageBuffer::L(b),
        2 => DaftImageBuffer::LA(b),
        3 => DaftImageBuffer::RGB(b),
        _ => DaftImageBuffer::RGBA(b),
    }
}

#[test]
fn resize_every_eight_bit_layout() {
    for channels in 1u8..=4 {
        let data: Vec<u8> = (0..(9 * channels as usize)).map(|v| (v * 7 % 251) as u8).collect();
        let img = buffer_of(channels, 3, 3, data.clone());
        let out = img.resize(2, 5);
        assert_eq!(out.mode(), img.mode());
        assert_eq!((out.width(), out.height()), (2, 5));
        assert_eq!(samples(&out), expected_resize(channels, 3, 3, data, 2, 5));
        assert_eq!(samples(&out).len(), 10 * channels as usize);
    }
}

#[test]
fn thumbnail_every_eight_bit_layout() {
    for channels in 1u8..=4 {
        let data: Vec<u8> = (0..(16 * channels as usize)).map(|v| (v * 13 % 256) as u8).collect();
        let img = buffer_of(channels, 4, 4, data.clone());
        let out = img.thumbnail(3, 1);
        assert_eq!(out.mode(), img.mode());
        assert_eq!((out.width(), out.height()), (3, 1));
        assert_eq!(samples(&out), expected_thumbnail(channels, 4, 4, data, 3, 1));
        assert_eq!(samples(&out).len(), 3 * channels as usize);
    }
}

#[test]
fn resize_to_same_size_copies() {
    let img = gray(2, 1, vec![3, 9]);
    let out = img.resize(2, 1);
    assert_eq!(samples(&out), vec![3, 9]);
}

#[test]
fn encode_every_format_of_rgb() {
    let img = rgb(2, 2, vec![255, 0, 0, 0, 255, 0, 0, 0, 255, 9, 9, 9]);
    for (fmt, magic) in [
        (ImageFormat::PNG, &b"\x89PNG"[..]),
        (ImageFormat::JPEG, &b"\xff\xd8"[..]),
        (ImageFormat::TIFF, &b"II"[..]),
        (ImageFormat::GIF, &b"GIF"[..]),
        (ImageFormat::BMP, &b"BM"[..]),
    ] {
        let mut out = Vec::new();
        img.encode(fmt, &mut out).unwrap();
        assert_eq!(&out[..magic.len()], magic);
        let back = DaftImageBuffer::decode(&out).unwrap();
        assert_eq!((back.width(), back.height()), (2, 2));
    }
}

#[test]
fn decode_keeps_layout_of_png() {
    let bytes = png_bytes_u8(3, 1, vec![1, 2, 3]);
    let img = DaftImageBuffer::decode(&bytes).unwrap();
    assert_eq!(img.mode(), ImageMode::L);
    assert_eq!(samples(&img), vec![1, 2, 3]);
}

#[test]
fn encode_empty_images_does_not_panic() {
    for channels in 1u8..=4 {
        for (w, h) in [(0u32, 0u32), (0, 3), (3, 0)] {
            let img = buffer_of(channels, w, h, vec![]);
            for fmt in [ImageFormat::PNG, ImageFormat::JPEG, ImageFormat::TIFF, ImageFormat::GIF, ImageFormat::BMP] {
                let mut out = Vec::new();
                let _ = img.encode(fmt, &mut out);
            }
        }
    }
}

#[test]
fn encode_every_layout_and_format() {
    for channels in 1u8..=4 {
        let data: Vec<u8> = (0..(6 * channels as usize)).map(|v| (v * 31 % 256) as u8).collect();
        let img = buffer_of(channels, 3, 2, data);
        for fmt in [ImageFormat::PNG, ImageFormat::JPEG, ImageFormat::TIFF, ImageFormat::GIF, ImageFormat::BMP] {
            let mut out = Vec::new();
            let _ = img.encode(fmt, &mut out);
        }
    }
}

#[test]
fn resize_empty_images_where_defined() {
    for channels in 1u8..=4 {
        for (w, h, nw, nh) in [
            (3u32, 0u32, 5u32, 0u32),
            (0, 2, 0, 4),
            (0, 0, 0, 3),
            (0, 3, 4, 0),
            (0, 0, 0, 0),
            (2, 0, 2, 0),
            (3, 0, 2, 2),
            (0, 3, 2, 2),
            (0, 0, 4, 4),
        ] {
            let img = buffer_of(channels, w, h, vec![]);
            let out = img.resize(nw, nh);
            assert_eq!((out.width(), out.height()), (nw, nh));
            assert_eq!(samples(&out), vec![0u8; (nw * nh) as usize * channels as usize]);
        }
    }
}

#[test]
fn thumbnail_empty_images() {
    let img = gray(0, 4, vec![]);
    let out = img.thumbnail(2, 2);
    assert_eq!(samples(&out), vec![0, 0, 0, 0]);
    let img2 = gray(4, 4, (0..16).collect());
    assert!(samples(&img2.thumbnail(0, 3)).is_empty());
}

#[test]
fn arg_count_messages_name_the_count() {
    let ev = EncodeEvaluator {};
    let schema = image_schema();
    let two = [Expr::Column("img".to_string()), Expr::Column("img".to_string())];
    match ev.to_field(&two, &schema) {
        Err(DaftError::SchemaMismatch(m)) => assert_eq!(m, "Expected 1 input arg, got 2"),
        _ => panic!("expected a schema mismatch"),
    }
    match ev.to_field(&[], &schema) {
        Err(DaftError::SchemaMismatch(m)) => assert_eq!(m, "Expected 1 input arg, got 0"),
        _ => panic!("expected a schema mismatch"),
    }
    let expr = encode_expr(vec![]);
    match ev.evaluate(&[], &expr) {
        Err(DaftError::ValueError(m)) => assert_eq!(m, "Expected 1 input arg, got 0"),
        _ => panic!("expected a value error"),
    }
    let many: Vec<Expr> = (0..12).map(|_| Expr::Column("img".to_string())).collect();
    match ev.to_field(&many, &schema) {
        Err(DaftError::SchemaMismatch(m)) => assert_eq!(m, "Expected 1 input arg, got 12"),
        _ => panic!("expected a schema mismatch"),
    }
}

#[test]
fn thumbnail_of_a_large_image() {
    let (w, h) = (4200u32, 4200u32);
    let data: Vec<u8> = (0..(w * h)).map(|i| (i % 251) as u8).collect();
    let img = gray(w, h, data.clone());
    let thumb = img.thumbnail(64, 64);
    assert_eq!(thumb.width(), 64);
    assert_eq!(thumb.height(), 64);
    assert_eq!(thumb.mode(), ImageMode::L);
    assert_eq!(samples(&thumb), expected_thumbnail(1, w, h, data, 64, 64));
}

#[test]
fn resize_to_same_size_keeps_every_layout() {
    for c in 1u8..=4 {
        let data: Vec<u8> = (0..(3 * 2 * c as u32)).map(|i| (i * 7 % 256) as u8).collect();
        let img = buffer_of(c, 3, 2, data.clone());
        let out = img.resize(3, 2);
        assert_eq!(out.mode(), img.mode());
        assert_eq!(samples(&out), data);
    }
}

#[test]
fn array_resize_twice_changes_nothing() {
    let inputs = vec![
        Some(gray(2, 2, vec![1, 2, 3, 4])),
        None,
        Some(rgb(1, 1, vec![5, 6, 7])),
    ];
    let arr = ImageArray::from_daft_image_buffers("r", &inputs, &None).unwrap();
    let once = arr.resize(3, 2).unwrap();
    let twice = once.resize(3, 2).unwrap();
    assert_eq!(twice.len(), once.len());
    for i in 0..once.len() {
        assert_eq!(twice.is_valid(i), once.is_valid(i));
        match (once.as_image_obj(i), twice.as_image_obj(i)) {
            (Some(a), Some(b)) => {
                assert_eq!(a.mode(), b.mode());
                assert_eq!(a.width(), b.width());
                assert_eq!(a.height(), b.height());
                assert_eq!(samples(&a), samples(&b));
            }
            (None, None) => {}
            _ => panic!("null rows differ"),
        }
    }
}

#[test]
fn array_resize_keeps_validity_of_every_row() {
    let arr = mixed_array();
    let out = arr.resize(4, 5).unwrap();
    for i in 0..arr.len() {
        assert_eq!(out.is_valid(i), arr.is_valid(i));
    }
}

#[test]
fn bmp_encodes_grey_with_alpha() {
    let img = buffer_of(2, 3, 2, vec![10, 255, 20, 255, 30, 255, 40, 255, 50, 255, 60, 255]);
    let mut out = Vec::new();
    img.encode(ImageFormat::BMP, &mut out).unwrap();
    assert_eq!(&out[0..2], b"BM");
}

fn image_crate_encode_error(data: &[u8], w: u32, h: u32, c: image::ColorType, f: image::ImageFormat) -> String {
    let mut out = Cursor::new(Vec::new());
    image::write_buffer_with_format(&mut out, data, w, h, c, f).unwrap_err().to_string()
}

#[test]
fn decode_error_message_carries_the_decoder_text() {
    let bytes = [1u8, 2, 3, 4];
    let expected = format!(
        "Decoding image from bytes failed: {}",
        image::load_from_memory(&bytes).unwrap_err()
    );
    match DaftImageBuffer::decode(&bytes) {
        Err(DaftError::ValueError(msg)) => assert_eq!(msg, expected),
        other => panic!("unexpected {:?}", other.is_ok()),
    }
    let rows = vec![None, Some(bytes.to_vec())];
    let col = BinaryArray::from_values("e", rows).unwrap();
    match col.image_decode() {
        Err(DaftError::ValueError(msg)) => assert_eq!(msg, expected),
        other => panic!("unexpected {:?}", other.is_ok()),
    }
}

#[test]
fn encode_error_message_carries_the_encoder_text() {
    let img = gray(1, 1, vec![1]);
    let mut out = Vec::new();
    let expected = format!(
        "Encoding image into file format GIF failed: {}",
        image_crate_encode_error(&[1], 1, 1, image::ColorType::L8, image::ImageFormat::Gif)
    );
    match img.encode(ImageFormat::GIF, &mut out) {
        Err(DaftError::ValueError(msg)) => assert_eq!(msg, expected),
        other => panic!("unexpected {:?}", other),
    }
}

#[test]
fn array_encode_reports_the_first_failing_row() {
    let la = buffer_of(2, 1, 1, vec![1, 2]);
    let inputs = vec![None, Some(rgb(1, 1, vec![1, 2, 3])), Some(la), Some(gray(1, 1, vec![1]))];
    let arr = ImageArray::from_daft_image_buffers("g", &inputs, &None).unwrap();
    let expected = format!(
        "Encoding image into file format GIF failed: {}",
        image_crate_encode_error(&[1, 2], 1, 1, image::ColorType::La8, image::ImageFormat::Gif)
    );
    match arr.encode(ImageFormat::GIF) {
        Err(DaftError::ValueError(msg)) => assert_eq!(msg, expected),
        other => panic!("unexpected {:?}", other.is_ok()),
    }
}

#[test]
fn mismatch_message_names_both_types() {
    let rows = vec![Some(png_bytes_u8(1, 1, vec![7])), Some(png_bytes_u16(1, 1, vec![7]))];
    let col = BinaryArray::from_values("m", rows).unwrap();
    match col.image_decode() {
        Err(DaftError::ValueError(msg)) => assert_eq!(
            msg,
            "All images in a column must have the same dtype, but got: UInt16 and UInt8"
        ),
        other => panic!("unexpected {:?}", other.is_ok()),
    }
}

#[test]
fn evaluate_gives_what_image_encode_gives() {
    let ev = EncodeEvaluator {};
    let expr = Expr::Function {
        func: FunctionExpr::Image(ImageExpr::Encode { image_format: ImageFormat::GIF }),
        inputs: vec![Expr::Column("img".to_string())],
    };
    let inputs = vec![Some(gray(1, 1, vec![42]))];
    let arr = ImageArray::from_daft_image_buffers("img", &inputs, &None).unwrap();
    let series = Series::Image(arr);
    let direct = series.image_encode(ImageFormat::GIF);
    let through = ev.evaluate(std::slice::from_ref(&series), &expr);
    match (direct, through) {
        (Err(DaftError::ValueError(a)), Err(DaftError::ValueError(b))) => assert_eq!(a, b),
        _ => panic!("expected the same value error"),
    }
}

fn single_row_array(data: Vec<u8>, channels: u16, width: u32, height: u32, mode: u8) -> ImageArray {
    let n = data.len() as i64;
    let vecs = ImageArrayVecs::<u8> {
        data,
        channels: vec![channels],
        heights: vec![height],
        widths: vec![width],
        modes: vec![mode],
        offsets: vec![0, n],
        validity: None,
    };
    ImageArray::from_vecs("s", DataType::Image(Box::new(DataType::UInt8), None), vecs).unwrap()
}

#[test]
fn try_encode_matches_encode_when_ready() {
    let arr = mixed_array();
    let direct = arr.encode(ImageFormat::PNG).unwrap();
    let checked = arr.try_encode(ImageFormat::PNG).unwrap().unwrap();
    assert_eq!(direct.len(), checked.len());
    for i in 0..direct.len() {
        assert_eq!(direct.get(i), checked.get(i));
    }
    match arr.try_encode(ImageFormat::GIF) {
        Some(Err(DaftError::ValueError(_))) => {}
        _ => panic!("expected the encoder's error"),
    }
}

#[test]
fn try_encode_refuses_unreadable_or_inexact_rows() {
    let bad_mode = single_row_array(vec![1], 1, 1, 1, 0);
    assert!(bad_mode.try_encode(ImageFormat::PNG).is_none());
    let too_many_samples = single_row_array(vec![1, 2, 3], 1, 1, 1, 1);
    assert!(too_many_samples.try_encode(ImageFormat::PNG).is_none());
    let exact = single_row_array(vec![9], 1, 1, 1, 1);
    assert!(matches!(exact.try_encode(ImageFormat::BMP), Some(Ok(_))));
}

#[test]
fn try_resize_matches_resize_when_ready() {
    let arr = mixed_array();
    let direct = arr.resize(2, 3).unwrap();
    let checked = arr.try_resize(2, 3).unwrap().unwrap();
    assert_eq!(direct.len(), checked.len());
    assert_eq!(direct.width_array(), checked.width_array());
    assert_eq!(direct.height_array(), checked.height_array());
    assert_eq!(direct.data_array().1, checked.data_array().1);
    let bad_mode = single_row_array(vec![1], 1, 1, 1, 0);
    assert!(bad_mode.try_resize(2, 2).is_none());
    let too_many_samples = single_row_array(vec![1, 2, 3], 1, 1, 1, 1);
    assert!(too_many_samples.try_resize(2, 2).is_some());
}
