//! Logical data types of the image columns: image modes, file formats,
//! colour types, data types, fields and errors.
use vstd::prelude::*;

verus! {

/// The pixel layout of an image: channel count and sample type.
#[derive(Clone, Copy, Debug, PartialEq, Eq, Structural)]
pub enum ImageMode {
    L,
    LA,
    RGB,
    RGBA,
    L16,
    LA16,
    RGB16,
    RGBA16,
    RGB32F,
    RGBA32F,
}

/// The colour type of an image buffer, one per pixel layout the decoder produces.
#[derive(Clone, Copy, Debug, PartialEq, Eq, Structural)]
pub enum ColorType {
    L8,
    La8,
    Rgb8,
    Rgba8,
    L16,
    La16,
    Rgb16,
    Rgba16,
    Rgb32F,
    Rgba32F,
}

/// File formats an image column can be encoded into.
#[derive(Clone, Copy, Debug, PartialEq, Eq, Structural)]
pub enum ImageFormat {
    PNG,
    JPEG,
    TIFF,
    GIF,
    BMP,
}

/// The number of samples per pixel of each mode.
pub open spec fn mode_channels(m: ImageMode) -> u16 {
    match m {
        ImageMode::L | ImageMode::L16 => 1,
        ImageMode::LA | ImageMode::LA16 => 2,
        ImageMode::RGB | ImageMode::RGB16 | ImageMode::RGB32F => 3,
        ImageMode::RGBA | ImageMode::RGBA16 | ImageMode::RGBA32F => 4,
    }
}

/// The byte that stands for each mode in the mode column.
pub open spec fn mode_code(m: ImageMode) -> u8 {
    match m {
        ImageMode::L => 1,
        ImageMode::LA => 2,
        ImageMode::RGB => 3,
        ImageMode::RGBA => 4,
        ImageMode::L16 => 5,
        ImageMode::LA16 => 6,
        ImageMode::RGB16 => 7,
        ImageMode::RGBA16 => 8,
        ImageMode::RGB32F => 9,
        ImageMode::RGBA32F => 10,
    }
}

/// The mode whose code is `v`, for `1 <= v <= 10`.
pub open spec fn mode_of_code(v: u8) -> Option<ImageMode> {
    if v == 1 {
        Some(ImageMode::L)
    } else if v == 2 {
        Some(ImageMode::LA)
    } else if v == 3 {
        Some(ImageMode::RGB)
    } else if v == 4 {
        Some(ImageMode::RGBA)
    } else if v == 5 {
        Some(ImageMode::L16)
    } else if v == 6 {
        Some(ImageMode::LA16)
    } else if v == 7 {
        Some(ImageMode::RGB16)
    } else if v == 8 {
        Some(ImageMode::RGBA16)
    } else if v == 9 {
        Some(ImageMode::RGB32F)
    } else if v == 10 {
        Some(ImageMode::RGBA32F)
    } else {
        None
    }
}

/// Modes whose samples are bytes.
pub open spec fn mode_is_u8(m: ImageMode) -> bool {
    m is L || m is LA || m is RGB || m is RGBA
}

/// Modes whose samples are 16-bit integers.
pub open spec fn mode_is_u16(m: ImageMode) -> bool {
    m is L16 || m is LA16 || m is RGB16 || m is RGBA16
}

/// Modes whose samples are 32-bit floats.
pub open spec fn mode_is_f32(m: ImageMode) -> bool {
    m is RGB32F || m is RGBA32F
}

/// The sample data type of each mode.
pub open spec fn mode_dtype(m: ImageMode) -> DataType {
    if mode_is_u8(m) {
        DataType::UInt8
    } else if mode_is_u16(m) {
        DataType::UInt16
    } else {
        DataType::Float32
    }
}

/// The code of a mode is one of the codes `1..=10` and decodes back to the
/// same mode.
pub proof fn lemma_mode_code_roundtrip(m: ImageMode)
    ensures
        mode_of_code(mode_code(m)) == Some(m),
        1 <= mode_code(m) <= 10,
{
}

/// Every mode has exactly one sample type, its data type names that sample
/// type, and it has one to four channels (three or four for float samples).
pub proof fn law_mode_sample_type(m: ImageMode)
    ensures
        mode_is_u8(m) || mode_is_u16(m) || mode_is_f32(m),
        !(mode_is_u8(m) && mode_is_u16(m)),
        !(mode_is_u8(m) && mode_is_f32(m)),
        !(mode_is_u16(m) && mode_is_f32(m)),
        mode_dtype(m) == DataType::UInt8 <==> mode_is_u8(m),
        mode_dtype(m) == DataType::UInt16 <==> mode_is_u16(m),
        mode_dtype(m) == DataType::Float32 <==> mode_is_f32(m),
        1 <= mode_channels(m) <= 4,
        mode_is_f32(m) ==> mode_channels(m) >= 3,
{
}

impl ImageMode {
    /// The number of samples per pixel.
    pub fn num_channels(&self) -> (r: u16)
        ensures
            r == mode_channels(*self),
    {
        match self {
            ImageMode::L | ImageMode::L16 => 1,
            ImageMode::LA | ImageMode::LA16 => 2,
            ImageMode::RGB | ImageMode::RGB16 | ImageMode::RGB32F => 3,
            ImageMode::RGBA | ImageMode::RGBA16 | ImageMode::RGBA32F => 4,
        }
    }

    /// The byte that stands for this mode in the mode column.
    pub fn to_u8(&self) -> (r: u8)
        ensures
            r == mode_code(*self),
    {
        match self {
            ImageMode::L => 1,
            ImageMode::LA => 2,
            ImageMode::RGB => 3,
            ImageMode::RGBA => 4,
            ImageMode::L16 => 5,
            ImageMode::LA16 => 6,
            ImageMode::RGB16 => 7,
            ImageMode::RGBA16 => 8,
            ImageMode::RGB32F => 9,
            ImageMode::RGBA32F => 10,
        }
    }

    /// The mode whose code is `v`, or `None` when no mode has that code.
    pub fn from_u8(v: u8) -> (r: Option<ImageMode>)
        ensures
            r == mode_of_code(v),
            r matches Some(m) ==> mode_code(m) == v,
    {
        if v == 1 {
            Some(ImageMode::L)
        } else if v == 2 {
            Some(ImageMode::LA)
        } else if v == 3 {
            Some(ImageMode::RGB)
        } else if v == 4 {
            Some(ImageMode::RGBA)
        } else if v == 5 {
            Some(ImageMode::L16)
        } else if v == 6 {
            Some(ImageMode::LA16)
        } else if v == 7 {
            Some(ImageMode::RGB16)
        } else if v == 8 {
            Some(ImageMode::RGBA16)
        } else if v == 9 {
            Some(ImageMode::RGB32F)
        } else if v == 10 {
            Some(ImageMode::RGBA32F)
        } else {
            None
        }
    }

    /// The data type of one sample.
    pub fn get_dtype(&self) -> (r: DataType)
        ensures
            r == mode_dtype(*self),
    {
        match self {
            ImageMode::L | ImageMode::LA | ImageMode::RGB | ImageMode::RGBA => DataType::UInt8,
            ImageMode::L16 | ImageMode::LA16 | ImageMode::RGB16 | ImageMode::RGBA16 => {
                DataType::UInt16
            },
            ImageMode::RGB32F | ImageMode::RGBA32F => DataType::Float32,
        }
    }

    /// Whether the samples of this mode are bytes.
    pub fn is_u8(&self) -> (r: bool)
        ensures
            r == mode_is_u8(*self),
    {
        match self {
            ImageMode::L | ImageMode::LA | ImageMode::RGB | ImageMode::RGBA => true,
            _ => false,
        }
    }
}

impl ImageFormat {
    /// The upper-case name of the format.
    pub fn name(&self) -> (r: &'static str)
        ensures
            r@ == format_name(*self)@,
    {
        match self {
            ImageFormat::PNG => "PNG",
            ImageFormat::JPEG => "JPEG",
            ImageFormat::TIFF => "TIFF",
            ImageFormat::GIF => "GIF",
            ImageFormat::BMP => "BMP",
        }
    }
}

/// The upper-case name of each format.
pub open spec fn format_name(f: ImageFormat) -> &'static str {
    match f {
        ImageFormat::PNG => "PNG",
        ImageFormat::JPEG => "JPEG",
        ImageFormat::TIFF => "TIFF",
        ImageFormat::GIF => "GIF",
        ImageFormat::BMP => "BMP",
    }
}

/// Logical data types of columns.
#[derive(Debug)]
pub enum DataType {
    Null,
    Boolean,
    Int64,
    UInt8,
    UInt16,
    UInt32,
    Float32,
    Utf8,
    Binary,
    /// Images with the given sample type and, when every image shares one, their mode.
    Image(Box<DataType>, Option<ImageMode>),
}

impl Clone for DataType {
    fn clone(&self) -> (r: Self)
        ensures
            r == *self,
        decreases self,
    {
        match self {
            DataType::Null => DataType::Null,
            DataType::Boolean => DataType::Boolean,
            DataType::Int64 => DataType::Int64,
            DataType::UInt8 => DataType::UInt8,
            DataType::UInt16 => DataType::UInt16,
            DataType::UInt32 => DataType::UInt32,
            DataType::Float32 => DataType::Float32,
            DataType::Utf8 => DataType::Utf8,
            DataType::Binary => DataType::Binary,
            DataType::Image(inner, mode) => {
                let i: DataType = (**inner).clone();
                DataType::Image(Box::new(i), *mode)
            },
        }
    }
}

impl DataType {
    /// Whether two data types are the same.
    pub fn equals(&self, other: &DataType) -> (r: bool)
        ensures
            r == (*self == *other),
        decreases self,
    {
        match (self, other) {
            (DataType::Null, DataType::Null) => true,
            (DataType::Boolean, DataType::Boolean) => true,
            (DataType::Int64, DataType::Int64) => true,
            (DataType::UInt8, DataType::UInt8) => true,
            (DataType::UInt16, DataType::UInt16) => true,
            (DataType::UInt32, DataType::UInt32) => true,
            (DataType::Float32, DataType::Float32) => true,
            (DataType::Utf8, DataType::Utf8) => true,
            (DataType::Binary, DataType::Binary) => true,
            (DataType::Image(a, ma), DataType::Image(b, mb)) => {
                let same_mode = match (ma, mb) {
                    (None, None) => true,
                    (Some(x), Some(y)) => *x == *y,
                    _ => false,
                };
                same_mode && (**a).equals(&**b)
            },
            _ => false,
        }
    }

    /// Whether this is an image type.
    pub fn is_image(&self) -> (r: bool)
        ensures
            r == (*self is Image),
    {
        match self {
            DataType::Image(..) => true,
            _ => false,
        }
    }

    /// The name of the type as shown in messages.
    pub fn name(&self) -> (r: &'static str)
        ensures
            r@ == dtype_name(*self)@,
    {
        match self {
            DataType::Null => "Null",
            DataType::Boolean => "Boolean",
            DataType::Int64 => "Int64",
            DataType::UInt8 => "UInt8",
            DataType::UInt16 => "UInt16",
            DataType::UInt32 => "UInt32",
            DataType::Float32 => "Float32",
            DataType::Utf8 => "Utf8",
            DataType::Binary => "Binary",
            DataType::Image(..) => "Image",
        }
    }
}

/// The name of each type as shown in messages.
pub open spec fn dtype_name(d: DataType) -> &'static str {
    match d {
        DataType::Null => "Null",
        DataType::Boolean => "Boolean",
        DataType::Int64 => "Int64",
        DataType::UInt8 => "UInt8",
        DataType::UInt16 => "UInt16",
        DataType::UInt32 => "UInt32",
        DataType::Float32 => "Float32",
        DataType::Utf8 => "Utf8",
        DataType::Binary => "Binary",
        DataType::Image(..) => "Image",
    }
}

/// A named, typed column.
#[derive(Debug)]
pub struct Field {
    pub name: String,
    pub dtype: DataType,
}

impl Field {
    pub fn new(name: &str, dtype: DataType) -> (r: Field)
        ensures
            r.name@ == name@,
            r.dtype == dtype,
    {
        Field { name: name.to_string(), dtype }
    }
}

impl Clone for Field {
    fn clone(&self) -> (r: Self)
        ensures
            r == *self,
    {
        Field { name: self.name.clone(), dtype: self.dtype.clone() }
    }
}

/// Errors of the image operations.
#[derive(Debug)]
pub enum DaftError {
    ValueError(String),
    TypeError(String),
    SchemaMismatch(String),
    FieldNotFound(String),
    ArrowError(arrow2::error::Error),
}

pub type DaftResult<T> = Result<T, DaftError>;

} // verus!
