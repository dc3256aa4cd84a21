//! Expressions over columns and the `encode` image function: its output
//! field and its evaluation on series.
use crate::binary_array::BinaryArray;
use crate::datatypes::{
    dtype_name, DaftError, DaftResult,
    DataType, Field, ImageFormat,
};
use crate::image_array::{
    all_encode, encode_failure_error, encode_ready, encoded_row, encoded_rows, first_encode_failure,
    row_encode_error, ImageArray,
};
use crate::image_buffer::encode_failure_message;
use vstd::prelude::*;

verus! {

/// The decimal digit for `d`, from 0 to 9.
pub open spec fn digit_char(d: int) -> char {
    if d == 0 {
        '0'
    } else if d == 1 {
        '1'
    } else if d == 2 {
        '2'
    } else if d == 3 {
        '3'
    } else if d == 4 {
        '4'
    } else if d == 5 {
        '5'
    } else if d == 6 {
        '6'
    } else if d == 7 {
        '7'
    } else if d == 8 {
        '8'
    } else {
        '9'
    }
}

/// The decimal representation of `n`, without leading zeros.
pub open spec fn decimal(n: nat) -> Seq<char>
    decreases n,
{
    if n < 10 {
        seq![digit_char(n as int)]
    } else {
        decimal(n / 10) + seq![digit_char((n % 10) as int)]
    }
}

/// Appends the digit `d` to `s`.
fn append_digit(s: &mut String, d: usize)
    requires
        d < 10,
    ensures
        final(s)@ == old(s)@.push(digit_char(d as int)),
{
    if d == 0 {
        proof {
            reveal_strlit("0");
        }
        s.append("0");
    } else if d == 1 {
        proof {
            reveal_strlit("1");
        }
        s.append("1");
    } else if d == 2 {
        proof {
            reveal_strlit("2");
        }
        s.append("2");
    } else if d == 3 {
        proof {
            reveal_strlit("3");
        }
        s.append("3");
    } else if d == 4 {
        proof {
            reveal_strlit("4");
        }
        s.append("4");
    } else if d == 5 {
        proof {
            reveal_strlit("5");
        }
        s.append("5");
    } else if d == 6 {
        proof {
            reveal_strlit("6");
        }
        s.append("6");
    } else if d == 7 {
        proof {
            reveal_strlit("7");
        }
        s.append("7");
    } else if d == 8 {
        proof {
            reveal_strlit("8");
        }
        s.append("8");
    } else {
        proof {
            reveal_strlit("9");
        }
        s.append("9");
    }
}

/// Appends the decimal representation of `n` to `s`.
fn append_decimal(s: &mut String, n: usize)
    ensures
        final(s)@ == old(s)@ + decimal(n as nat),
    decreases n,
{
    let ghost start = s@;
    if n >= 10 {
        append_decimal(s, n / 10);
    }
    append_digit(s, n % 10);
    proof {
        if n >= 10 {
            assert(start + decimal(n as nat) =~= (start + decimal((n / 10) as nat)).push(
                digit_char((n % 10) as int),
            ));
        } else {
            assert(start + decimal(n as nat) =~= start.push(digit_char(n as int)));
        }
    }
}

/// The fields of a table.
pub struct Schema {
    pub fields: Vec<Field>,
}

/// Image functions.
pub enum ImageExpr {
    Encode { image_format: ImageFormat },
}

/// Functions applied to expressions.
pub enum FunctionExpr {
    Image(ImageExpr),
}

/// Expressions over the columns of a table.
pub enum Expr {
    Column(String),
    Function { func: FunctionExpr, inputs: Vec<Expr> },
}

/// A column of values: images or byte strings.
pub enum Series {
    Image(ImageArray),
    Binary(BinaryArray),
}

/// The first field of `fields` named `name`: its name and type.
pub open spec fn schema_lookup(fields: Seq<Field>, name: Seq<char>) -> Option<(Seq<char>, DataType)>
    decreases fields.len(),
{
    if fields.len() == 0 {
        None
    } else if fields[0].name@ == name {
        Some((fields[0].name@, fields[0].dtype))
    } else {
        schema_lookup(fields.drop_first(), name)
    }
}

/// Looking a name up finds the first field with that name, and gives that
/// name and the field's type.
pub proof fn law_schema_lookup_first(fields: Seq<Field>, name: Seq<char>, k: int)
    requires
        0 <= k < fields.len(),
        fields[k].name@ == name,
        forall|j: int| 0 <= j < k ==> (#[trigger] fields[j]).name@ != name,
    ensures
        schema_lookup(fields, name) == Some((name, fields[k].dtype)),
    decreases k,
{
    if k > 0 {
        assert forall|j: int| 0 <= j < k - 1 implies (#[trigger] fields.drop_first()[j]).name@ != name by {
            assert(fields.drop_first()[j] == fields[j + 1]);
        }
        assert(fields[0].name@ != name);
        law_schema_lookup_first(fields.drop_first(), name, k - 1);
    }
}

/// Looking up a name that no field has finds nothing.
pub proof fn law_schema_lookup_missing(fields: Seq<Field>, name: Seq<char>)
    requires
        forall|j: int| 0 <= j < fields.len() ==> (#[trigger] fields[j]).name@ != name,
    ensures
        schema_lookup(fields, name) is None,
    decreases fields.len(),
{
    if fields.len() > 0 {
        assert(fields[0].name@ != name);
        assert forall|j: int| 0 <= j < fields.len() - 1 implies (#[trigger] fields.drop_first()[j]).name@
            != name by {
            assert(fields.drop_first()[j] == fields[j + 1]);
        }
        law_schema_lookup_missing(fields.drop_first(), name);
    }
}

/// The name and type an expression yields over these fields, or `None` when
/// it cannot be typed.
pub open spec fn expr_field(e: Expr, fields: Seq<Field>) -> Option<(Seq<char>, DataType)>
    decreases e,
{
    match e {
        Expr::Column(name) => schema_lookup(fields, name@),
        Expr::Function { func: FunctionExpr::Image(ImageExpr::Encode { .. }), inputs } => {
            if inputs@.len() != 1 {
                None
            } else {
                proof {
                    assert(decreases_to!(e => inputs));
                    assert(decreases_to!(inputs => inputs@));
                    assert(decreases_to!(inputs@ => inputs@[0]));
                }
                match expr_field(inputs@[0], fields) {
                    Some((name, DataType::Image(..))) => Some((name, DataType::Binary)),
                    _ => None,
                }
            }
        },
    }
}

impl Schema {
    /// The first field named `name`.
    pub fn get_field(&self, name: &str) -> (r: DaftResult<&Field>)
        ensures
            match schema_lookup(self.fields@, name@) {
                Some((n, t)) => r matches Ok(f) && f.name@ == n && f.dtype == t,
                None => r matches Err(e) && e matches DaftError::FieldNotFound(m) && m@ == name@,
            },
    {
        let key = String::from_str(name);
        let mut i: usize = 0;
        proof {
            assert(self.fields@.skip(0) =~= self.fields@);
        }
        while i < self.fields.len()
            invariant
                i <= self.fields@.len(),
                schema_lookup(self.fields@, name@) == schema_lookup(
                    self.fields@.skip(i as int),
                    name@,
                ),
                key@ == name@,
            decreases self.fields@.len() - i,
        {
            proof {
                assert(self.fields@.skip(i as int).drop_first() =~= self.fields@.skip(i + 1));
                assert(self.fields@.skip(i as int)[0] == self.fields@[i as int]);
            }
            if self.fields[i].name == key {
                return Ok(&self.fields[i]);
            }
            i = i + 1;
        }
        proof {
            assert(self.fields@.skip(i as int) =~= Seq::<Field>::empty());
        }
        Err(DaftError::FieldNotFound(String::from_str(name)))
    }
}

impl Expr {
    /// The field this expression yields over the schema.
    pub fn to_field(&self, schema: &Schema) -> (r: DaftResult<Field>)
        ensures
            match expr_field(*self, schema.fields@) {
                Some((n, t)) => r matches Ok(f) && f.name@ == n && f.dtype == t,
                None => r is Err,
            },
        decreases self,
    {
        match self {
            Expr::Column(name) => {
                let f = match schema.get_field(name.as_str()) {
                    Ok(f) => f,
                    Err(e) => {
                        return Err(e);
                    },
                };
                Ok(f.clone())
            },
            Expr::Function { func: FunctionExpr::Image(ImageExpr::Encode { .. }), inputs } => {
                proof {
                    assert(decreases_to!(*self => *inputs));
                    assert(decreases_to!(*inputs => inputs@));
                }
                let ev = EncodeEvaluator {  };
                ev.to_field(inputs.as_slice(), schema)
            },
        }
    }
}

/// Evaluates the `encode` image function.
pub struct EncodeEvaluator {}

impl EncodeEvaluator {
    /// The function's name.
    pub fn fn_name(&self) -> (r: &'static str)
        ensures
            r@ == "encode"@,
    {
        proof {
            reveal_strlit("encode");
        }
        "encode"
    }

    /// The output field: the input's name with type `Binary`, when there is
    /// exactly one input and it is an image column.
    pub fn to_field(&self, inputs: &[Expr], schema: &Schema) -> (r: DaftResult<Field>)
        ensures
            inputs@.len() != 1 ==> (r matches Err(e) && e matches DaftError::SchemaMismatch(m)
                && m@ == "Expected 1 input arg, got "@ + decimal(inputs@.len())),
            inputs@.len() == 1 ==> match expr_field(inputs@[0], schema.fields@) {
                Some((n, t)) => if t is Image {
                    r matches Ok(f) && f.name@ == n && f.dtype == DataType::Binary
                } else {
                    r matches Err(e) && e matches DaftError::TypeError(m) && m@
                        == "ImageEncode can only encode ImageArrays, got "@ + n + "#"@ + dtype_name(
                        t,
                    )@
                },
                None => r is Err,
            },
        decreases inputs@,
    {
        if inputs.len() == 1 {
            let input = &inputs[0];
            proof {
                assert(decreases_to!(inputs@ => inputs@[0]));
            }
            let field = match input.to_field(schema) {
                Ok(f) => f,
                Err(e) => {
                    return Err(e);
                },
            };
            if field.dtype.is_image() {
                Ok(Field { name: field.name, dtype: DataType::Binary })
            } else {
                let mut msg = String::from_str("ImageEncode can only encode ImageArrays, got ");
                msg.append(field.name.as_str());
                msg.append("#");
                msg.append(field.dtype.name());
                Err(DaftError::TypeError(msg))
            }
        } else {
            let mut msg = String::from_str("Expected 1 input arg, got ");
            append_decimal(&mut msg, inputs.len());
            Err(DaftError::SchemaMismatch(msg))
        }
    }

    /// Encodes the single input series, an image column, into the format
    /// the expression names.
    pub fn evaluate(&self, inputs: &[Series], expr: &Expr) -> (r: DaftResult<Series>)
        requires
            expr is Function,
            inputs@.len() == 1 ==> series_encodable(inputs@[0], expr_format(*expr)),
        ensures
            inputs@.len() != 1 ==> (r matches Err(e) && e matches DaftError::ValueError(m)
                && m@ == "Expected 1 input arg, got "@ + decimal(inputs@.len())),
            inputs@.len() == 1 ==> image_encode_result(inputs@[0], expr_format(*expr), r),
            inputs@.len() == 1 ==> (*expr matches Expr::Function {
                func: FunctionExpr::Image(ImageExpr::Encode { image_format }),
                ..
            } ==> image_encode_result(inputs@[0], image_format, r)),
    {
        let image_format = match expr {
            Expr::Function { func: FunctionExpr::Image(ImageExpr::Encode { image_format }), .. } => {
                *image_format
            },
            _ => {
                proof {
                    assert(false);
                }
                ImageFormat::PNG
            },
        };
        if inputs.len() == 1 {
            inputs[0].image_encode(image_format)
        } else {
            let mut msg = String::from_str("Expected 1 input arg, got ");
            append_decimal(&mut msg, inputs.len());
            Err(DaftError::ValueError(msg))
        }
    }
}

/// The file format an `encode` expression names.
pub open spec fn expr_format(e: Expr) -> ImageFormat {
    match e {
        Expr::Function { func: FunctionExpr::Image(ImageExpr::Encode { image_format }), .. } => {
            image_format
        },
        _ => ImageFormat::PNG,
    }
}

/// The format of an `encode` expression is the one it was built with,
/// whatever its inputs.
pub proof fn law_expr_format(f: ImageFormat, inputs: Vec<Expr>)
    ensures
        expr_format(
            Expr::Function { func: FunctionExpr::Image(ImageExpr::Encode { image_format: f }), inputs },
        ) == f,
{
}

/// A series can be handed to `image_encode` without a panic: when it holds
/// images, every row can be read back, holds exactly its image's samples,
/// and has a size the encoder for `f` can handle.
pub open spec fn series_encodable(s: Series, f: ImageFormat) -> bool {
    match s {
        Series::Image(a) => encode_ready(a@, f),
        Series::Binary(_) => true,
    }
}

/// What `image_encode` gives for a series: for images, the encoded column,
/// or the value error of the first row whose encoding fails; for anything
/// else, a value error.
pub open spec fn image_encode_result(s: Series, f: ImageFormat, r: DaftResult<Series>) -> bool {
    match s {
        Series::Image(a) => {
            &&& (r is Ok <==> all_encode(a@, f))
            &&& (r matches Ok(out) ==> out matches Series::Binary(b) && b@.name == a@.name
                && b@.rows == encoded_rows(a@, f))
            &&& (r matches Err(e) ==> encode_failure_error(a@, f, e))
        },
        Series::Binary(_) => r matches Err(e) && e matches DaftError::ValueError(m) && m@
            == "Encoding images of dtype Binary is not supported, only image arrays are supported"@,
    }
}

/// `image_encode` is determined by its input: two results that both meet
/// [`image_encode_result`] for one series and format are both successes
/// holding the same encoded column, or both the same value error.
pub proof fn law_image_encode_determined(
    s: Series,
    f: ImageFormat,
    r1: DaftResult<Series>,
    r2: DaftResult<Series>,
)
    requires
        image_encode_result(s, f, r1),
        image_encode_result(s, f, r2),
    ensures
        r1 is Ok <==> r2 is Ok,
        r1 matches Ok(Series::Binary(b1)) ==> (r2 matches Ok(Series::Binary(b2)) && b1@ == b2@),
        r1 matches Err(DaftError::ValueError(m1)) ==> (r2 matches Err(DaftError::ValueError(m2))
            && m1@ == m2@),
{
    if let Series::Image(a) = s {
        if let (Err(DaftError::ValueError(m1)), Err(DaftError::ValueError(m2))) = (r1, r2) {
            let k1 = choose|k: int| first_encode_failure(a@, f, k) && m1@ == encode_failure_message(
                f,
                #[trigger] row_encode_error(a@, k, f),
            );
            let k2 = choose|k: int| first_encode_failure(a@, f, k) && m2@ == encode_failure_message(
                f,
                #[trigger] row_encode_error(a@, k, f),
            );
            if k1 < k2 {
                assert(encoded_row(a@, k1, f) is Some);
            } else if k2 < k1 {
                assert(encoded_row(a@, k2, f) is Some);
            }
        }
        if let (Ok(Series::Binary(b1)), Ok(Series::Binary(b2))) = (r1, r2) {
            assert(b1@ =~= b2@);
        }
    }
}

impl Series {
    /// Encodes an image series into the given file format.
    pub fn image_encode(&self, image_format: ImageFormat) -> (r: DaftResult<Series>)
        requires
            series_encodable(*self, image_format),
        ensures
            image_encode_result(*self, image_format, r),
    {
        match self {
            Series::Image(a) => match a.encode(image_format) {
                Ok(b) => Ok(Series::Binary(b)),
                Err(e) => Err(e),
            },
            Series::Binary(_) => {
                Err(
                    DaftError::ValueError(
                        String::from_str(
                            "Encoding images of dtype Binary is not supported, only image arrays are supported",
                        ),
                    ),
                )
            },
        }
    }
}

} // verus!
