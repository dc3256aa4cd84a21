//! Columns of byte strings (Arrow `LargeBinary`), such as encoded image files.
use crate::arrow_support::{
    binary_from_mutable, binary_get, binary_len, binary_rows, mutable_binary_new,
    mutable_binary_rows, mutable_binary_try_push, opt_bytes, total_bytes, LargeBinary,
};
use crate::datatypes::{DaftError, DaftResult, DataType, Field};
use vstd::prelude::*;

verus! {

/// A named column of optional byte strings.
pub struct BinaryArray {
    field: Field,
    data: LargeBinary,
}

/// The plain values of a binary column.
#[verifier::ext_equal]
pub struct BinaryArrayView {
    pub name: Seq<char>,
    pub rows: Seq<Option<Seq<u8>>>,
}

/// The view of optional owned byte strings.
pub open spec fn opt_vec_bytes(v: Option<Vec<u8>>) -> Option<Seq<u8>> {
    match v {
        Some(b) => Some(b@),
        None => None,
    }
}

/// The views of a sequence of optional owned byte strings.
pub open spec fn rows_view(rows: Seq<Option<Vec<u8>>>) -> Seq<Option<Seq<u8>>> {
    rows.map_values(|v: Option<Vec<u8>>| opt_vec_bytes(v))
}

/// A prefix never holds more bytes than a longer prefix.
pub proof fn lemma_total_bytes_prefix(rows: Seq<Option<Seq<u8>>>, i: int, j: int)
    requires
        0 <= i <= j <= rows.len(),
    ensures
        total_bytes(rows.take(i)) <= total_bytes(rows.take(j)),
    decreases j - i,
{
    if i < j {
        lemma_total_bytes_prefix(rows, i, j - 1);
        assert(rows.take(j).drop_last() =~= rows.take(j - 1));
    }
}

impl View for BinaryArray {
    type V = BinaryArrayView;

    closed spec fn view(&self) -> BinaryArrayView {
        BinaryArrayView { name: self.field.name@, rows: binary_rows(self.data) }
    }
}

impl BinaryArray {
    #[verifier::type_invariant]
    spec fn inv(self) -> bool {
        self.field.dtype == DataType::Binary
    }

    /// Builds a binary column from optional byte strings (`None` is a null
    /// row). Fails with Arrow's overflow error exactly when the bytes of all
    /// rows together are more than `i64` offsets can address.
    pub fn from_values(name: &str, rows: Vec<Option<Vec<u8>>>) -> (r: DaftResult<BinaryArray>)
        ensures
            r is Ok <==> total_bytes(rows_view(rows@)) <= i64::MAX,
            r matches Ok(b) ==> b@ == (BinaryArrayView { name: name@, rows: rows_view(rows@) }),
            r matches Err(e) ==> e is ArrowError,
    {
        let ghost rv = rows_view(rows@);
        let mut m = mutable_binary_new();
        let mut i: usize = 0;
        proof {
            assert(rv.take(0) =~= Seq::<Option<Seq<u8>>>::empty());
            assert(rv.take(rows@.len() as int) =~= rv);
        }
        while i < rows.len()
            invariant
                rv == rows_view(rows@),
                rv.len() == rows@.len(),
                rv.take(rows@.len() as int) == rv,
                i <= rows@.len(),
                mutable_binary_rows(m) == rv.take(i as int),
                total_bytes(rv.take(i as int)) <= i64::MAX,
            decreases rows@.len() - i,
        {
            let v: Option<&[u8]> = match &rows[i] {
                Some(b) => Some(b.as_slice()),
                None => None,
            };
            proof {
                assert(rv[i as int] == opt_vec_bytes(rows@[i as int]));
                assert(rv.take(i + 1).drop_last() =~= rv.take(i as int));
                assert(rv.take(i + 1) =~= rv.take(i as int).push(opt_bytes(v)));
            }
            match mutable_binary_try_push(&mut m, v) {
                Ok(()) => {},
                Err(e) => {
                    proof {
                        lemma_total_bytes_prefix(rv, i + 1, rows@.len() as int);
                    }
                    return Err(DaftError::ArrowError(e));
                },
            }
            i = i + 1;
        }
        let b = BinaryArray { field: Field::new(name, DataType::Binary), data: binary_from_mutable(m) };
        proof {
            assert(b@ =~= (BinaryArrayView { name: name@, rows: rows_view(rows@) }));
        }
        Ok(b)
    }

    /// The number of rows.
    pub fn len(&self) -> (r: usize)
        ensures
            r == self@.rows.len(),
    {
        binary_len(&self.data)
    }

    /// The column's name.
    pub fn name(&self) -> (r: &str)
        ensures
            r@ == self@.name,
    {
        self.field.name.as_str()
    }

    /// The column's field: its name and type (always `Binary`).
    pub fn field(&self) -> (r: &Field)
        ensures
            r.name@ == self@.name,
            r.dtype == DataType::Binary,
    {
        proof {
            use_type_invariant(self);
        }
        &self.field
    }

    /// Row `i`: its bytes, or `None` when it is null.
    pub fn get(&self, i: usize) -> (r: Option<&[u8]>)
        requires
            i < self@.rows.len(),
        ensures
            opt_bytes(r) == self@.rows[i as int],
    {
        binary_get(&self.data, i)
    }
}

} // verus!
