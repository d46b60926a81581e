//! The element types of tensors, as storage classes, numpy type codes and
//! torch dtypes name them.
use vstd::prelude::*;
use crate::error::{ErrorKind, Format, ModelError, invalid};
use crate::pytorch::py_error;
use crate::text::str_eq;

verus! {

/// The type of a tensor's elements.
#[derive(Clone, Copy, Debug)]
pub enum TensorElementType {
    Bool,
    Uint8,
    Int8,
    Int16,
    Int32,
    Int64,
    Uint16,
    Uint32,
    Uint64,
    Float16,
    Float32,
    Float64,
    BFloat16,
    Complex64,
    Complex128,
    Float8e4m3fn,
    Float8e5m2,
    Float8e4m3fnuz,
    Float8e5m2fnuz,
    Float8e8m0,
    /// A type known only by its name, such as a quantized type.
    Other(&'static str),
}

/// The element type and the element size in bytes of a storage class.
pub open spec fn spec_storage_element_type(name: Seq<char>) -> Option<(TensorElementType, usize)> {
    if name == "torch.BoolStorage"@ {
        Some((TensorElementType::Bool, 1))
    } else if name == "torch.ByteStorage"@ {
        Some((TensorElementType::Uint8, 1))
    } else if name == "torch.CharStorage"@ {
        Some((TensorElementType::Int8, 1))
    } else if name == "torch.ShortStorage"@ {
        Some((TensorElementType::Int16, 2))
    } else if name == "torch.IntStorage"@ {
        Some((TensorElementType::Int32, 4))
    } else if name == "torch.LongStorage"@ {
        Some((TensorElementType::Int64, 8))
    } else if name == "torch.HalfStorage"@ {
        Some((TensorElementType::Float16, 2))
    } else if name == "torch.FloatStorage"@ {
        Some((TensorElementType::Float32, 4))
    } else if name == "torch.DoubleStorage"@ {
        Some((TensorElementType::Float64, 8))
    } else if name == "torch.ComplexFloatStorage"@ {
        Some((TensorElementType::Complex64, 8))
    } else if name == "torch.ComplexDoubleStorage"@ {
        Some((TensorElementType::Complex128, 16))
    } else if name == "torch.BFloat16Storage"@ {
        Some((TensorElementType::BFloat16, 2))
    } else if name == "torch.QInt8Storage"@ || name == "torch.QUInt8Storage"@ {
        Some((TensorElementType::Other("quint8"), 1))
    } else if name == "torch.QUInt4x2Storage"@ {
        Some((TensorElementType::Other("quint4x2"), 1))
    } else if name == "torch.QInt32Storage"@ {
        Some((TensorElementType::Other("qint32"), 4))
    } else {
        None
    }
}

/// The element type and size of the storage class `name`; a storage class
/// outside the table is unsupported.
pub fn storage_element_type(name: &str) -> (r: Result<(TensorElementType, usize), ModelError>)
    ensures
        match spec_storage_element_type(name@) {
            Some(t) => r == Ok::<(TensorElementType, usize), ModelError>(t),
            None => r == Err::<(TensorElementType, usize), ModelError>(py_error(ErrorKind::Unsupported)),
        },
{
    if str_eq(name, "torch.BoolStorage") {
        Ok((TensorElementType::Bool, 1))
    } else if str_eq(name, "torch.ByteStorage") {
        Ok((TensorElementType::Uint8, 1))
    } else if str_eq(name, "torch.CharStorage") {
        Ok((TensorElementType::Int8, 1))
    } else if str_eq(name, "torch.ShortStorage") {
        Ok((TensorElementType::Int16, 2))
    } else if str_eq(name, "torch.IntStorage") {
        Ok((TensorElementType::Int32, 4))
    } else if str_eq(name, "torch.LongStorage") {
        Ok((TensorElementType::Int64, 8))
    } else if str_eq(name, "torch.HalfStorage") {
        Ok((TensorElementType::Float16, 2))
    } else if str_eq(name, "torch.FloatStorage") {
        Ok((TensorElementType::Float32, 4))
    } else if str_eq(name, "torch.DoubleStorage") {
        Ok((TensorElementType::Float64, 8))
    } else if str_eq(name, "torch.ComplexFloatStorage") {
        Ok((TensorElementType::Complex64, 8))
    } else if str_eq(name, "torch.ComplexDoubleStorage") {
        Ok((TensorElementType::Complex128, 16))
    } else if str_eq(name, "torch.BFloat16Storage") {
        Ok((TensorElementType::BFloat16, 2))
    } else if str_eq(name, "torch.QInt8Storage") || str_eq(name, "torch.QUInt8Storage") {
        Ok((TensorElementType::Other("quint8"), 1))
    } else if str_eq(name, "torch.QUInt4x2Storage") {
        Ok((TensorElementType::Other("quint4x2"), 1))
    } else if str_eq(name, "torch.QInt32Storage") {
        Ok((TensorElementType::Other("qint32"), 4))
    } else {
        Err(invalid(Format::PyTorch, ErrorKind::Unsupported))
    }
}

/// The element type and size of a numpy type code.
pub open spec fn spec_numpy_dtype(code: Seq<char>) -> Option<(TensorElementType, usize)> {
    if code == "f2"@ {
        Some((TensorElementType::Float16, 2))
    } else if code == "f4"@ {
        Some((TensorElementType::Float32, 4))
    } else if code == "f8"@ {
        Some((TensorElementType::Float64, 8))
    } else if code == "i1"@ {
        Some((TensorElementType::Int8, 1))
    } else if code == "i2"@ {
        Some((TensorElementType::Int16, 2))
    } else if code == "i4"@ {
        Some((TensorElementType::Int32, 4))
    } else if code == "i8"@ {
        Some((TensorElementType::Int64, 8))
    } else if code == "u1"@ {
        Some((TensorElementType::Uint8, 1))
    } else if code == "u2"@ {
        Some((TensorElementType::Uint16, 2))
    } else if code == "u4"@ {
        Some((TensorElementType::Uint32, 4))
    } else if code == "u8"@ {
        Some((TensorElementType::Uint64, 8))
    } else if code == "b1"@ {
        Some((TensorElementType::Bool, 1))
    } else if code == "c8"@ {
        Some((TensorElementType::Complex64, 8))
    } else if code == "c16"@ {
        Some((TensorElementType::Complex128, 16))
    } else {
        None
    }
}

/// The element type and size of the numpy type code `code`.
pub fn numpy_dtype(code: &str) -> (r: Option<(TensorElementType, usize)>)
    ensures
        r == spec_numpy_dtype(code@),
{
    if str_eq(code, "f2") {
        Some((TensorElementType::Float16, 2))
    } else if str_eq(code, "f4") {
        Some((TensorElementType::Float32, 4))
    } else if str_eq(code, "f8") {
        Some((TensorElementType::Float64, 8))
    } else if str_eq(code, "i1") {
        Some((TensorElementType::Int8, 1))
    } else if str_eq(code, "i2") {
        Some((TensorElementType::Int16, 2))
    } else if str_eq(code, "i4") {
        Some((TensorElementType::Int32, 4))
    } else if str_eq(code, "i8") {
        Some((TensorElementType::Int64, 8))
    } else if str_eq(code, "u1") {
        Some((TensorElementType::Uint8, 1))
    } else if str_eq(code, "u2") {
        Some((TensorElementType::Uint16, 2))
    } else if str_eq(code, "u4") {
        Some((TensorElementType::Uint32, 4))
    } else if str_eq(code, "u8") {
        Some((TensorElementType::Uint64, 8))
    } else if str_eq(code, "b1") {
        Some((TensorElementType::Bool, 1))
    } else if str_eq(code, "c8") {
        Some((TensorElementType::Complex64, 8))
    } else if str_eq(code, "c16") {
        Some((TensorElementType::Complex128, 16))
    } else {
        None
    }
}

/// The element type and size of a torch dtype, by its global name.
pub open spec fn spec_pytorch_dtype_global(name: Seq<char>) -> Option<(TensorElementType, usize)> {
    if name == "torch.float16"@ {
        Some((TensorElementType::Float16, 2))
    } else if name == "torch.float32"@ {
        Some((TensorElementType::Float32, 4))
    } else if name == "torch.float64"@ {
        Some((TensorElementType::Float64, 8))
    } else if name == "torch.bfloat16"@ {
        Some((TensorElementType::BFloat16, 2))
    } else if name == "torch.int8"@ {
        Some((TensorElementType::Int8, 1))
    } else if name == "torch.int16"@ {
        Some((TensorElementType::Int16, 2))
    } else if name == "torch.int32"@ {
        Some((TensorElementType::Int32, 4))
    } else if name == "torch.int64"@ {
        Some((TensorElementType::Int64, 8))
    } else if name == "torch.uint8"@ {
        Some((TensorElementType::Uint8, 1))
    } else if name == "torch.bool"@ {
        Some((TensorElementType::Bool, 1))
    } else if name == "torch.complex64"@ {
        Some((TensorElementType::Complex64, 8))
    } else if name == "torch.complex128"@ {
        Some((TensorElementType::Complex128, 16))
    } else {
        None
    }
}

/// The element type and size of the torch dtype named `name`.
pub fn pytorch_dtype_global(name: &str) -> (r: Option<(TensorElementType, usize)>)
    ensures
        r == spec_pytorch_dtype_global(name@),
{
    if str_eq(name, "torch.float16") {
        Some((TensorElementType::Float16, 2))
    } else if str_eq(name, "torch.float32") {
        Some((TensorElementType::Float32, 4))
    } else if str_eq(name, "torch.float64") {
        Some((TensorElementType::Float64, 8))
    } else if str_eq(name, "torch.bfloat16") {
        Some((TensorElementType::BFloat16, 2))
    } else if str_eq(name, "torch.int8") {
        Some((TensorElementType::Int8, 1))
    } else if str_eq(name, "torch.int16") {
        Some((TensorElementType::Int16, 2))
    } else if str_eq(name, "torch.int32") {
        Some((TensorElementType::Int32, 4))
    } else if str_eq(name, "torch.int64") {
        Some((TensorElementType::Int64, 8))
    } else if str_eq(name, "torch.uint8") {
        Some((TensorElementType::Uint8, 1))
    } else if str_eq(name, "torch.bool") {
        Some((TensorElementType::Bool, 1))
    } else if str_eq(name, "torch.complex64") {
        Some((TensorElementType::Complex64, 8))
    } else if str_eq(name, "torch.complex128") {
        Some((TensorElementType::Complex128, 16))
    } else {
        None
    }
}

/// The element type and size of a dtype code of an exported program.
pub open spec fn spec_exported_dtype_info(value: i64) -> Option<(TensorElementType, usize)> {
    if value == 1 {
        Some((TensorElementType::Uint8, 1))
    } else if value == 2 {
        Some((TensorElementType::Int8, 1))
    } else if value == 3 {
        Some((TensorElementType::Int16, 2))
    } else if value == 4 {
        Some((TensorElementType::Int32, 4))
    } else if value == 5 {
        Some((TensorElementType::Int64, 8))
    } else if value == 6 {
        Some((TensorElementType::Float16, 2))
    } else if value == 7 {
        Some((TensorElementType::Float32, 4))
    } else if value == 8 {
        Some((TensorElementType::Float64, 8))
    } else if value == 9 {
        Some((TensorElementType::Other("complex32"), 4))
    } else if value == 10 {
        Some((TensorElementType::Complex64, 8))
    } else if value == 11 {
        Some((TensorElementType::Complex128, 16))
    } else if value == 12 {
        Some((TensorElementType::Bool, 1))
    } else if value == 13 {
        Some((TensorElementType::BFloat16, 2))
    } else if value == 28 {
        Some((TensorElementType::Uint16, 2))
    } else if value == 29 {
        Some((TensorElementType::Float8e4m3fn, 1))
    } else if value == 30 {
        Some((TensorElementType::Float8e5m2, 1))
    } else if value == 31 {
        Some((TensorElementType::Float8e4m3fnuz, 1))
    } else if value == 32 {
        Some((TensorElementType::Float8e5m2fnuz, 1))
    } else {
        None
    }
}

/// The element type and size of a dtype code of an exported program.
pub fn exported_program_dtype_info(value: i64) -> (r: Option<(TensorElementType, usize)>)
    ensures
        r == spec_exported_dtype_info(value),
{
    match value {
        1 => Some((TensorElementType::Uint8, 1)),
        2 => Some((TensorElementType::Int8, 1)),
        3 => Some((TensorElementType::Int16, 2)),
        4 => Some((TensorElementType::Int32, 4)),
        5 => Some((TensorElementType::Int64, 8)),
        6 => Some((TensorElementType::Float16, 2)),
        7 => Some((TensorElementType::Float32, 4)),
        8 => Some((TensorElementType::Float64, 8)),
        9 => Some((TensorElementType::Other("complex32"), 4)),
        10 => Some((TensorElementType::Complex64, 8)),
        11 => Some((TensorElementType::Complex128, 16)),
        12 => Some((TensorElementType::Bool, 1)),
        13 => Some((TensorElementType::BFloat16, 2)),
        28 => Some((TensorElementType::Uint16, 2)),
        29 => Some((TensorElementType::Float8e4m3fn, 1)),
        30 => Some((TensorElementType::Float8e5m2, 1)),
        31 => Some((TensorElementType::Float8e4m3fnuz, 1)),
        32 => Some((TensorElementType::Float8e5m2fnuz, 1)),
        _ => None,
    }
}

/// The element type of a dtype code of an exported program.
pub fn exported_program_dtype(value: i64) -> (r: Option<TensorElementType>)
    ensures
        r == match spec_exported_dtype_info(value) {
            Some((t, _)) => Some(t),
            None => None::<TensorElementType>,
        },
{
    match exported_program_dtype_info(value) {
        Some((t, _)) => Some(t),
        None => None,
    }
}

// ---------------------------------------------------------------------------
// What the tables mean

/// The number of bytes that one element of a type takes: its bit width over
/// eight (a quantized type takes the width of its integer, two 4-bit values
/// share a byte, a 32-bit complex is two halves).
pub open spec fn element_width(t: TensorElementType) -> Option<nat> {
    match t {
        TensorElementType::Bool => Some(1),
        TensorElementType::Uint8 => Some(1),
        TensorElementType::Int8 => Some(1),
        TensorElementType::Int16 => Some(2),
        TensorElementType::Int32 => Some(4),
        TensorElementType::Int64 => Some(8),
        TensorElementType::Uint16 => Some(2),
        TensorElementType::Uint32 => Some(4),
        TensorElementType::Uint64 => Some(8),
        TensorElementType::Float16 => Some(2),
        TensorElementType::Float32 => Some(4),
        TensorElementType::Float64 => Some(8),
        TensorElementType::BFloat16 => Some(2),
        TensorElementType::Complex64 => Some(8),
        TensorElementType::Complex128 => Some(16),
        TensorElementType::Float8e4m3fn => Some(1),
        TensorElementType::Float8e5m2 => Some(1),
        TensorElementType::Float8e4m3fnuz => Some(1),
        TensorElementType::Float8e5m2fnuz => Some(1),
        TensorElementType::Float8e8m0 => Some(1),
        TensorElementType::Other(name) => if name@ == "quint8"@ || name@ == "quint4x2"@ {
            Some(1)
        } else if name@ == "qint32"@ || name@ == "complex32"@ {
            Some(4)
        } else {
            None
        },
    }
}

/// Whether `name` is a torch storage class whose elements have the type `t`:
/// `torch.DoubleStorage` holds `Float64`, `torch.FloatStorage` holds
/// `Float32`, and so on; both 8-bit quantized storages hold `quint8`.
pub open spec fn is_storage_class_of(name: Seq<char>, t: TensorElementType) -> bool {
    match t {
        TensorElementType::Bool => name == "torch.BoolStorage"@,
        TensorElementType::Uint8 => name == "torch.ByteStorage"@,
        TensorElementType::Int8 => name == "torch.CharStorage"@,
        TensorElementType::Int16 => name == "torch.ShortStorage"@,
        TensorElementType::Int32 => name == "torch.IntStorage"@,
        TensorElementType::Int64 => name == "torch.LongStorage"@,
        TensorElementType::Float16 => name == "torch.HalfStorage"@,
        TensorElementType::Float32 => name == "torch.FloatStorage"@,
        TensorElementType::Float64 => name == "torch.DoubleStorage"@,
        TensorElementType::BFloat16 => name == "torch.BFloat16Storage"@,
        TensorElementType::Complex64 => name == "torch.ComplexFloatStorage"@,
        TensorElementType::Complex128 => name == "torch.ComplexDoubleStorage"@,
        TensorElementType::Other(q) => (q@ == "quint8"@ && (name == "torch.QInt8Storage"@ || name
            == "torch.QUInt8Storage"@)) || (q@ == "quint4x2"@ && name == "torch.QUInt4x2Storage"@) || (q@
            == "qint32"@ && name == "torch.QInt32Storage"@),
        _ => false,
    }
}

proof fn lemma_other_names_distinct()
    ensures
        "quint8"@ != "quint4x2"@,
        "quint8"@ != "qint32"@,
        "quint8"@ != "complex32"@,
        "quint4x2"@ != "qint32"@,
        "quint4x2"@ != "complex32"@,
        "qint32"@ != "complex32"@,
{
    reveal_strlit("quint8");
    reveal_strlit("quint4x2");
    reveal_strlit("qint32");
    reveal_strlit("complex32");
    assert("quint8"@.len() == 6 && "quint8"@[1] == 'u');
    assert("qint32"@.len() == 6 && "qint32"@[1] == 'i');
    assert("quint4x2"@.len() == 8);
    assert("complex32"@.len() == 9);
}

/// A storage class gives the element type that its name says, and that
/// type's width as the element size: `torch.DoubleStorage` gives `Float64`
/// and eight bytes, so a tensor's byte length is eight times its element
/// count.
pub proof fn lemma_storage_element_type_named(name: Seq<char>)
    ensures
        spec_storage_element_type(name) matches Some((t, n)) ==> is_storage_class_of(name, t) && element_width(t)
            == Some(n as nat),
{
    lemma_other_names_distinct();
}

/// Whether `code` is a numpy type code of elements of type `t`: its kind
/// letter and its width in bytes.
pub open spec fn is_numpy_code_of(code: Seq<char>, t: TensorElementType) -> bool {
    match t {
        TensorElementType::Float16 => code == "f2"@,
        TensorElementType::Float32 => code == "f4"@,
        TensorElementType::Float64 => code == "f8"@,
        TensorElementType::Int8 => code == "i1"@,
        TensorElementType::Int16 => code == "i2"@,
        TensorElementType::Int32 => code == "i4"@,
        TensorElementType::Int64 => code == "i8"@,
        TensorElementType::Uint8 => code == "u1"@,
        TensorElementType::Uint16 => code == "u2"@,
        TensorElementType::Uint32 => code == "u4"@,
        TensorElementType::Uint64 => code == "u8"@,
        TensorElementType::Bool => code == "b1"@,
        TensorElementType::Complex64 => code == "c8"@,
        TensorElementType::Complex128 => code == "c16"@,
        _ => false,
    }
}

/// A numpy type code gives the element type that it names, and that type's
/// width as the element size.
pub proof fn lemma_numpy_dtype_named(code: Seq<char>)
    ensures
        spec_numpy_dtype(code) matches Some((t, n)) ==> is_numpy_code_of(code, t) && element_width(t) == Some(
            n as nat,
        ),
{
}

/// Whether `name` is the global name of the torch dtype of elements of type
/// `t`.
pub open spec fn is_torch_dtype_name_of(name: Seq<char>, t: TensorElementType) -> bool {
    match t {
        TensorElementType::Float16 => name == "torch.float16"@,
        TensorElementType::Float32 => name == "torch.float32"@,
        TensorElementType::Float64 => name == "torch.float64"@,
        TensorElementType::BFloat16 => name == "torch.bfloat16"@,
        TensorElementType::Int8 => name == "torch.int8"@,
        TensorElementType::Int16 => name == "torch.int16"@,
        TensorElementType::Int32 => name == "torch.int32"@,
        TensorElementType::Int64 => name == "torch.int64"@,
        TensorElementType::Uint8 => name == "torch.uint8"@,
        TensorElementType::Bool => name == "torch.bool"@,
        TensorElementType::Complex64 => name == "torch.complex64"@,
        TensorElementType::Complex128 => name == "torch.complex128"@,
        _ => false,
    }
}

/// A torch dtype gives the element type that its name says, and that type's
/// width as the element size.
pub proof fn lemma_pytorch_dtype_named(name: Seq<char>)
    ensures
        spec_pytorch_dtype_global(name) matches Some((t, n)) ==> is_torch_dtype_name_of(name, t) && element_width(t)
            == Some(n as nat),
{
}

/// The number of the `ScalarType` of torch's c10 that holds elements of
/// type `t`.
pub open spec fn scalar_type_number(t: TensorElementType) -> Option<i64> {
    match t {
        TensorElementType::Uint8 => Some(1),
        TensorElementType::Int8 => Some(2),
        TensorElementType::Int16 => Some(3),
        TensorElementType::Int32 => Some(4),
        TensorElementType::Int64 => Some(5),
        TensorElementType::Float16 => Some(6),
        TensorElementType::Float32 => Some(7),
        TensorElementType::Float64 => Some(8),
        TensorElementType::Complex64 => Some(10),
        TensorElementType::Complex128 => Some(11),
        TensorElementType::Bool => Some(12),
        TensorElementType::BFloat16 => Some(13),
        TensorElementType::Uint16 => Some(28),
        TensorElementType::Float8e4m3fn => Some(29),
        TensorElementType::Float8e5m2 => Some(30),
        TensorElementType::Float8e4m3fnuz => Some(31),
        TensorElementType::Float8e5m2fnuz => Some(32),
        TensorElementType::Other(name) => if name@ == "complex32"@ {
            Some(9)
        } else {
            None
        },
        _ => None,
    }
}

/// An exported program's dtype code gives the element type whose scalar
/// type has that number, and that type's width as the element size.
pub proof fn lemma_exported_dtype_numbered(value: i64)
    ensures
        spec_exported_dtype_info(value) matches Some((t, n)) ==> scalar_type_number(t) == Some(value)
            && element_width(t) == Some(n as nat),
{
    lemma_other_names_distinct();
}

/// Whether two element types are the same type: a type known by its name
/// is the same as another of the same name.
pub open spec fn same_type(u: TensorElementType, t: TensorElementType) -> bool {
    match (u, t) {
        (TensorElementType::Other(a), TensorElementType::Other(b)) => a@ == b@,
        _ => u == t,
    }
}

/// Every storage class of an element type is read: it gives that type, and
/// its width as the element size.
pub proof fn lemma_storage_element_type_complete(name: Seq<char>, t: TensorElementType)
    requires
        is_storage_class_of(name, t),
    ensures
        spec_storage_element_type(name) matches Some((u, n)) && same_type(u, t) && element_width(t) == Some(n as nat),
{
    lemma_other_names_distinct();
    reveal_strlit("torch.BoolStorage");
    reveal_strlit("torch.ByteStorage");
    reveal_strlit("torch.CharStorage");
    reveal_strlit("torch.ShortStorage");
    reveal_strlit("torch.IntStorage");
    reveal_strlit("torch.LongStorage");
    reveal_strlit("torch.HalfStorage");
    reveal_strlit("torch.FloatStorage");
    reveal_strlit("torch.DoubleStorage");
    reveal_strlit("torch.ComplexFloatStorage");
    reveal_strlit("torch.ComplexDoubleStorage");
    reveal_strlit("torch.BFloat16Storage");
    reveal_strlit("torch.QInt8Storage");
    reveal_strlit("torch.QUInt8Storage");
    reveal_strlit("torch.QUInt4x2Storage");
    reveal_strlit("torch.QInt32Storage");
    assert("torch.BoolStorage"@.len() == 17);
    assert("torch.ByteStorage"@.len() == 17);
    assert("torch.CharStorage"@.len() == 17);
    assert("torch.ShortStorage"@.len() == 18);
    assert("torch.IntStorage"@.len() == 16);
    assert("torch.LongStorage"@.len() == 17);
    assert("torch.HalfStorage"@.len() == 17);
    assert("torch.FloatStorage"@.len() == 18);
    assert("torch.DoubleStorage"@.len() == 19);
    assert("torch.ComplexFloatStorage"@.len() == 25);
    assert("torch.ComplexDoubleStorage"@.len() == 26);
    assert("torch.BFloat16Storage"@.len() == 21);
    assert("torch.QInt8Storage"@.len() == 18);
    assert("torch.QUInt8Storage"@.len() == 19);
    assert("torch.QUInt4x2Storage"@.len() == 21);
    assert("torch.QInt32Storage"@.len() == 19);
    assert("torch.BFloat16Storage"@[6] == 'B');
    assert("torch.BoolStorage"@[6] == 'B');
    assert("torch.BoolStorage"@[7] == 'o');
    assert("torch.ByteStorage"@[6] == 'B');
    assert("torch.ByteStorage"@[7] == 'y');
    assert("torch.CharStorage"@[6] == 'C');
    assert("torch.DoubleStorage"@[6] == 'D');
    assert("torch.FloatStorage"@[6] == 'F');
    assert("torch.HalfStorage"@[6] == 'H');
    assert("torch.LongStorage"@[6] == 'L');
    assert("torch.QInt32Storage"@[6] == 'Q');
    assert("torch.QInt32Storage"@[7] == 'I');
    assert("torch.QInt8Storage"@[6] == 'Q');
    assert("torch.QUInt4x2Storage"@[6] == 'Q');
    assert("torch.QUInt8Storage"@[6] == 'Q');
    assert("torch.QUInt8Storage"@[7] == 'U');
    assert("torch.ShortStorage"@[6] == 'S');
}

/// Every numpy type code of an element type is read: it gives that type,
/// and its width as the element size.
pub proof fn lemma_numpy_dtype_complete(code: Seq<char>, t: TensorElementType)
    requires
        is_numpy_code_of(code, t),
    ensures
        spec_numpy_dtype(code) matches Some((u, n)) && u == t && element_width(t) == Some(n as nat),
{
    reveal_strlit("f2");
    reveal_strlit("f4");
    reveal_strlit("f8");
    reveal_strlit("i1");
    reveal_strlit("i2");
    reveal_strlit("i4");
    reveal_strlit("i8");
    reveal_strlit("u1");
    reveal_strlit("u2");
    reveal_strlit("u4");
    reveal_strlit("u8");
    reveal_strlit("b1");
    reveal_strlit("c8");
    reveal_strlit("c16");
    assert("f2"@.len() == 2);
    assert("f4"@.len() == 2);
    assert("f8"@.len() == 2);
    assert("i1"@.len() == 2);
    assert("i2"@.len() == 2);
    assert("i4"@.len() == 2);
    assert("i8"@.len() == 2);
    assert("u1"@.len() == 2);
    assert("u2"@.len() == 2);
    assert("u4"@.len() == 2);
    assert("u8"@.len() == 2);
    assert("b1"@.len() == 2);
    assert("c8"@.len() == 2);
    assert("c16"@.len() == 3);
    assert("b1"@[0] == 'b');
    assert("c8"@[0] == 'c');
    assert("f2"@[0] == 'f');
    assert("f2"@[1] == '2');
    assert("f4"@[0] == 'f');
    assert("f4"@[1] == '4');
    assert("f8"@[0] == 'f');
    assert("f8"@[1] == '8');
    assert("i1"@[0] == 'i');
    assert("i1"@[1] == '1');
    assert("i2"@[0] == 'i');
    assert("i2"@[1] == '2');
    assert("i4"@[0] == 'i');
    assert("i4"@[1] == '4');
    assert("i8"@[0] == 'i');
    assert("i8"@[1] == '8');
    assert("u1"@[0] == 'u');
    assert("u1"@[1] == '1');
    assert("u2"@[0] == 'u');
    assert("u2"@[1] == '2');
    assert("u4"@[0] == 'u');
    assert("u4"@[1] == '4');
    assert("u8"@[0] == 'u');
    assert("u8"@[1] == '8');
}

/// Every torch dtype name of an element type is read: it gives that type,
/// and its width as the element size.
pub proof fn lemma_pytorch_dtype_complete(name: Seq<char>, t: TensorElementType)
    requires
        is_torch_dtype_name_of(name, t),
    ensures
        spec_pytorch_dtype_global(name) matches Some((u, n)) && u == t && element_width(t) == Some(n as nat),
{
    reveal_strlit("torch.float16");
    reveal_strlit("torch.float32");
    reveal_strlit("torch.float64");
    reveal_strlit("torch.bfloat16");
    reveal_strlit("torch.int8");
    reveal_strlit("torch.int16");
    reveal_strlit("torch.int32");
    reveal_strlit("torch.int64");
    reveal_strlit("torch.uint8");
    reveal_strlit("torch.bool");
    reveal_strlit("torch.complex64");
    reveal_strlit("torch.complex128");
    assert("torch.float16"@.len() == 13);
    assert("torch.float32"@.len() == 13);
    assert("torch.float64"@.len() == 13);
    assert("torch.bfloat16"@.len() == 14);
    assert("torch.int8"@.len() == 10);
    assert("torch.int16"@.len() == 11);
    assert("torch.int32"@.len() == 11);
    assert("torch.int64"@.len() == 11);
    assert("torch.uint8"@.len() == 11);
    assert("torch.bool"@.len() == 10);
    assert("torch.complex64"@.len() == 15);
    assert("torch.complex128"@.len() == 16);
    assert("torch.bool"@[6] == 'b');
    assert("torch.float16"@[11] == '1');
    assert("torch.float32"@[11] == '3');
    assert("torch.float64"@[11] == '6');
    assert("torch.int16"@[6] == 'i');
    assert("torch.int16"@[9] == '1');
    assert("torch.int32"@[6] == 'i');
    assert("torch.int32"@[9] == '3');
    assert("torch.int64"@[6] == 'i');
    assert("torch.int64"@[9] == '6');
    assert("torch.int8"@[6] == 'i');
    assert("torch.uint8"@[6] == 'u');
}

/// Every scalar type number of an element type is read as that type.
pub proof fn lemma_exported_dtype_complete(value: i64, t: TensorElementType)
    requires
        scalar_type_number(t) == Some(value),
    ensures
        spec_exported_dtype_info(value) matches Some((u, n)) && same_type(u, t) && element_width(t) == Some(n as nat),
{
    lemma_other_names_distinct();
}

} // verus!
