//! TensorFlow Lite models: a flatbuffer reader and the tables of the model.
use vstd::prelude::*;
use crate::graph::FormatMetadata;
use vstd::string::StringExecFns;
use crate::error::{ErrorKind, Format, ModelError, invalid, model_error};
use crate::le::{le_u16_at, le_u32_at, le_u64_at, read_u16, read_u32, read_u64};
use crate::onnx::slice_range;
use crate::onnx::proto::opt_str;
use crate::text::{lossy_string, utf8_lossy};
use crate::fmt::{decimal, i64_to_string};
use crate::tflite::tables::{SignatureDefInfo, SignatureDefView, TensorMapInfo};

pub mod tables;
pub mod operators;

verus! {

/// The TensorFlow Lite model format.
pub struct TfliteFormat;

impl TfliteFormat {
    /// The format's name and extensions.
    pub fn metadata(&self) -> (r: FormatMetadata)
        ensures
            r.name@ == "TensorFlow Lite"@,
            r.extensions@.map_values(|e: String| e@) == seq!["tflite"@],
    {
        let mut extensions: Vec<String> = Vec::new();
        extensions.push(String::from_str("tflite"));
        let r = FormatMetadata { name: String::from_str("TensorFlow Lite"), extensions };
        proof {
            assert(r.extensions@.map_values(|e: String| e@) =~= seq!["tflite"@]);
        }
        r
    }
}

/// The error that the TensorFlow Lite reader raises for `kind`.
pub open spec fn tfl_error(kind: ErrorKind) -> ModelError {
    model_error(Format::Tflite, kind)
}

/// A spec result with its error kind turned into the reader's error.
pub open spec fn tfl<T>(s: Result<T, ErrorKind>) -> Result<T, ModelError> {
    match s {
        Ok(v) => Ok(v),
        Err(k) => Err(tfl_error(k)),
    }
}

/// Whether `len` bytes at `pos` lie inside `data`: an overflow when the end
/// does not fit in `usize`, truncated when it lies past the data.
pub open spec fn spec_require(data: Seq<u8>, pos: int, len: int) -> Result<(), ErrorKind> {
    if pos + len > usize::MAX {
        Err(ErrorKind::Overflow)
    } else if pos + len > data.len() {
        Err(ErrorKind::Truncated)
    } else {
        Ok(())
    }
}

/// The little-endian `u16` at `pos`.
pub open spec fn spec_u16(data: Seq<u8>, pos: int) -> Result<u16, ErrorKind> {
    match spec_require(data, pos, 2) {
        Ok(()) => Ok(le_u16_at(data, pos)),
        Err(e) => Err(e),
    }
}

/// The little-endian `u16` at `pos`, read once `len` bytes there are known to
/// lie inside the data.
pub open spec fn spec_u16_in(data: Seq<u8>, pos: int, len: int) -> Result<u16, ErrorKind> {
    match spec_require(data, pos, len) {
        Ok(()) => spec_u16(data, pos),
        Err(e) => Err(e),
    }
}

/// The little-endian `u32` at `pos`.
pub open spec fn spec_u32(data: Seq<u8>, pos: int) -> Result<u32, ErrorKind> {
    match spec_require(data, pos, 4) {
        Ok(()) => Ok(le_u32_at(data, pos)),
        Err(e) => Err(e),
    }
}

/// The little-endian `u64` at `pos`.
pub open spec fn spec_u64(data: Seq<u8>, pos: int) -> Result<u64, ErrorKind> {
    match spec_require(data, pos, 8) {
        Ok(()) => Ok(le_u64_at(data, pos)),
        Err(e) => Err(e),
    }
}

/// The little-endian `i32` at `pos`.
pub open spec fn spec_i32(data: Seq<u8>, pos: int) -> Result<i32, ErrorKind> {
    match spec_u32(data, pos) {
        Ok(v) => Ok(v as i32),
        Err(e) => Err(e),
    }
}

/// The little-endian `i64` at `pos`.
pub open spec fn spec_i64(data: Seq<u8>, pos: int) -> Result<i64, ErrorKind> {
    match spec_u64(data, pos) {
        Ok(v) => Ok(v as i64),
        Err(e) => Err(e),
    }
}

/// The root table: the offset held in the first four bytes, which must point
/// at four bytes inside the data.
pub open spec fn spec_root(data: Seq<u8>) -> Result<usize, ErrorKind> {
    if data.len() < 4 {
        Err(ErrorKind::Truncated)
    } else {
        let root = le_u32_at(data, 0) as usize;
        match spec_require(data, root as int, 4) {
            Ok(()) => Ok(root),
            Err(e) => Err(e),
        }
    }
}

/// The position of a table's field `slot`: `None` when the table's vtable is
/// too short for the slot or holds a zero offset there.
pub open spec fn spec_field(data: Seq<u8>, table: int, slot: int) -> Result<Option<usize>, ErrorKind> {
    match spec_i32(data, table) {
        Err(e) => Err(e),
        Ok(distance) => {
            let vtable = table - distance;
            if vtable < 0 || vtable > usize::MAX {
                Err(ErrorKind::Overflow)
            } else {
                match spec_u16_in(data, vtable, 4) {
                    Err(e) => Err(e),
                    Ok(vtable_len) => if slot + 2 > vtable_len {
                        Ok(None)
                    } else {
                        match spec_u16(data, vtable + slot) {
                            Err(e) => Err(e),
                            Ok(offset) => if offset == 0 {
                                Ok(None)
                            } else {
                                match spec_require(data, table + offset, 1) {
                                    Ok(()) => Ok(Some((table + offset) as usize)),
                                    Err(e) => Err(e),
                                }
                            },
                        }
                    },
                }
            }
        },
    }
}

/// The position that the `u32` offset at `pos` points to, which must hold four
/// bytes.
pub open spec fn spec_indirect(data: Seq<u8>, pos: int) -> Result<usize, ErrorKind> {
    match spec_u32(data, pos) {
        Err(e) => Err(e),
        Ok(offset) => match spec_require(data, pos + offset, 4) {
            Ok(()) => Ok((pos + offset) as usize),
            Err(e) => Err(e),
        },
    }
}

/// The position of the vector that field `slot` points to.
pub open spec fn spec_vector(data: Seq<u8>, table: int, slot: int) -> Result<Option<usize>, ErrorKind> {
    match spec_field(data, table, slot) {
        Err(e) => Err(e),
        Ok(None) => Ok(None),
        Ok(Some(field)) => match spec_indirect(data, field as int) {
            Ok(v) => Ok(Some(v)),
            Err(e) => Err(e),
        },
    }
}

/// The start and the length of the byte vector of field `slot`.
pub open spec fn spec_u8_vector_range(data: Seq<u8>, table: int, slot: int) -> Result<
    Option<(usize, usize)>,
    ErrorKind,
> {
    match spec_vector(data, table, slot) {
        Err(e) => Err(e),
        Ok(None) => Ok(None),
        Ok(Some(vector)) => match spec_u32(data, vector as int) {
            Err(e) => Err(e),
            Ok(len) => match spec_require(data, vector + 4, len as int) {
                Ok(()) => Ok(Some(((vector + 4) as usize, len as usize))),
                Err(e) => Err(e),
            },
        },
    }
}

/// The field's type byte and the position of the table of a union field:
/// the type lies at field `slot`, the table's offset at field `slot + 2`.
/// `None` when either field is absent or the type is zero.
pub open spec fn spec_union_table(data: Seq<u8>, table: int, slot: int) -> Result<
    Option<(u8, usize)>,
    ErrorKind,
> {
    match spec_field(data, table, slot) {
        Err(e) => Err(e),
        Ok(None) => Ok(None),
        Ok(Some(type_field)) => if type_field >= data.len() {
            Err(ErrorKind::Truncated)
        } else if data[type_field as int] == 0 {
            Ok(None)
        } else {
            match spec_field(data, table, slot + 2) {
                Err(e) => Err(e),
                Ok(None) => Ok(None),
                Ok(Some(value_field)) => match spec_indirect(data, value_field as int) {
                    Err(e) => Err(e),
                    Ok(target) => Ok(Some((data[type_field as int], target))),
                },
            }
        },
    }
}

/// The targets of the first `n` table offsets of a vector whose elements
/// start at `start`; the first element that fails decides the error.
pub open spec fn spec_table_elements(data: Seq<u8>, start: int, n: nat) -> Result<Seq<usize>, ErrorKind>
    decreases n,
{
    if n == 0 {
        Ok(Seq::empty())
    } else {
        match spec_table_elements(data, start, (n - 1) as nat) {
            Err(e) => Err(e),
            Ok(prefix) => match spec_indirect(data, start + 4 * (n - 1)) {
                Err(e) => Err(e),
                Ok(target) => Ok(prefix.push(target)),
            },
        }
    }
}

/// Once an element fails, every longer run fails the same way.
pub proof fn lemma_table_elements_err(data: Seq<u8>, start: int, k: nat, n: nat)
    requires
        k <= n,
        spec_table_elements(data, start, k) is Err,
    ensures
        spec_table_elements(data, start, n) == spec_table_elements(data, start, k),
    decreases n - k,
{
    if k < n {
        lemma_table_elements_err(data, start, k, (n - 1) as nat);
    }
}

/// The length and the start of the elements of the vector of field `slot`.
pub open spec fn spec_vector_elements(data: Seq<u8>, table: int, slot: int) -> Result<
    Option<(u32, int)>,
    ErrorKind,
> {
    match spec_vector(data, table, slot) {
        Err(e) => Err(e),
        Ok(None) => Ok(None),
        Ok(Some(vector)) => match spec_u32(data, vector as int) {
            Err(e) => Err(e),
            Ok(len) => if vector + 4 > usize::MAX {
                Err(ErrorKind::Overflow)
            } else {
                Ok(Some((len, vector + 4)))
            },
        },
    }
}

/// The positions of the tables of the table vector of field `slot`; empty when
/// the field is absent.
pub open spec fn spec_table_vector(data: Seq<u8>, table: int, slot: int) -> Result<Seq<usize>, ErrorKind> {
    match spec_vector_elements(data, table, slot) {
        Err(e) => Err(e),
        Ok(None) => Ok(Seq::empty()),
        Ok(Some((len, start))) => spec_table_elements(data, start, len as nat),
    }
}

/// The `i32` vector of field `slot`, whose `len * 4` bytes must lie inside the
/// data.
pub open spec fn spec_i32_vector(data: Seq<u8>, table: int, slot: int) -> Result<
    Option<Seq<i32>>,
    ErrorKind,
> {
    match spec_vector_elements(data, table, slot) {
        Err(e) => Err(e),
        Ok(None) => Ok(None),
        Ok(Some((len, start))) => match spec_require(data, start, len * 4) {
            Err(e) => Err(e),
            Ok(()) => Ok(Some(Seq::new(len as nat, |i: int| le_u32_at(data, start + 4 * i) as i32))),
        },
    }
}

/// The `i64` vector of field `slot`, whose `len * 8` bytes must lie inside the
/// data.
pub open spec fn spec_i64_vector(data: Seq<u8>, table: int, slot: int) -> Result<
    Option<Seq<i64>>,
    ErrorKind,
> {
    match spec_vector_elements(data, table, slot) {
        Err(e) => Err(e),
        Ok(None) => Ok(None),
        Ok(Some((len, start))) => match spec_require(data, start, len * 8) {
            Err(e) => Err(e),
            Ok(()) => Ok(Some(Seq::new(len as nat, |i: int| le_u64_at(data, start + 8 * i) as i64))),
        },
    }
}

/// The position of field `slot` when it is present and reading the table
/// succeeds.
pub open spec fn spec_field_position(data: Seq<u8>, table: int, slot: int) -> Option<usize> {
    match spec_field(data, table, slot) {
        Ok(Some(position)) => Some(position),
        _ => None,
    }
}

/// The byte of a present scalar field.
pub open spec fn spec_byte_field(data: Seq<u8>, table: int, slot: int) -> Option<u8> {
    match spec_field_position(data, table, slot) {
        Some(position) => if position < data.len() {
            Some(data[position as int])
        } else {
            None
        },
        None => None,
    }
}

/// The `i32` of a present scalar field that can be read.
pub open spec fn spec_i32_field(data: Seq<u8>, table: int, slot: int) -> Option<i32> {
    match spec_field_position(data, table, slot) {
        Some(position) => match spec_i32(data, position as int) {
            Ok(v) => Some(v),
            Err(_) => None,
        },
        None => None,
    }
}

/// The `u32` of a present scalar field that can be read.
pub open spec fn spec_u32_field(data: Seq<u8>, table: int, slot: int) -> Option<u32> {
    match spec_field_position(data, table, slot) {
        Some(position) => match spec_u32(data, position as int) {
            Ok(v) => Some(v),
            Err(_) => None,
        },
        None => None,
    }
}

/// The `u64` of a present scalar field that can be read.
pub open spec fn spec_u64_field(data: Seq<u8>, table: int, slot: int) -> Option<u64> {
    match spec_field_position(data, table, slot) {
        Some(position) => match spec_u64(data, position as int) {
            Ok(v) => Some(v),
            Err(_) => None,
        },
        None => None,
    }
}

/// The string of field `slot`: its bytes, ill-formed UTF-8 replaced.
pub open spec fn spec_string_field(data: Seq<u8>, table: int, slot: int) -> Result<
    Option<Seq<char>>,
    ErrorKind,
> {
    match spec_u8_vector_range(data, table, slot) {
        Err(k) => Err(k),
        Ok(None) => Ok(None),
        Ok(Some((start, len))) => Ok(Some(utf8_lossy(data.subrange(start as int, start + len)))),
    }
}

/// Whether `r` is what the spec result `s` describes: the value by its view,
/// or the error of its kind.
pub open spec fn tfl_read<T: View>(r: Result<T, ModelError>, s: Result<T::V, ErrorKind>) -> bool {
    match s {
        Ok(v) => r matches Ok(x) && x@ == v,
        Err(k) => r matches Err(e) && e == tfl_error(k),
    }
}

/// Reads a flatbuffer.
pub struct FlatReader<'a> {
    pub data: &'a [u8],
}

impl<'a> FlatReader<'a> {
    /// Checks that `len` bytes at `position` lie inside the data.
    pub fn require(&self, position: usize, len: usize) -> (r: Result<(), ModelError>)
        ensures
            r == tfl(spec_require(self.data@, position as int, len as int)),
    {
        let end = match position.checked_add(len) {
            Some(end) => end,
            None => return Err(invalid(Format::Tflite, ErrorKind::Overflow)),
        };
        if end > self.data.len() {
            return Err(invalid(Format::Tflite, ErrorKind::Truncated));
        }
        Ok(())
    }

    /// The little-endian `u16` at `position`.
    pub fn u16(&self, position: usize) -> (r: Result<u16, ModelError>)
        ensures
            r == tfl(spec_u16(self.data@, position as int)),
    {
        self.require(position, 2)?;
        Ok(read_u16(self.data, position))
    }

    /// The little-endian `u32` at `position`.
    pub fn u32(&self, position: usize) -> (r: Result<u32, ModelError>)
        ensures
            r == tfl(spec_u32(self.data@, position as int)),
    {
        self.require(position, 4)?;
        Ok(read_u32(self.data, position))
    }

    /// The little-endian `u64` at `position`.
    pub fn u64(&self, position: usize) -> (r: Result<u64, ModelError>)
        ensures
            r == tfl(spec_u64(self.data@, position as int)),
    {
        self.require(position, 8)?;
        Ok(read_u64(self.data, position))
    }

    /// The little-endian `i32` at `position`.
    pub fn i32(&self, position: usize) -> (r: Result<i32, ModelError>)
        ensures
            r == tfl(spec_i32(self.data@, position as int)),
    {
        Ok(self.u32(position)? as i32)
    }

    /// The little-endian `i64` at `position`.
    pub fn i64(&self, position: usize) -> (r: Result<i64, ModelError>)
        ensures
            r == tfl(spec_i64(self.data@, position as int)),
    {
        Ok(self.u64(position)? as i64)
    }

    /// The position of the root table.
    pub fn root(&self) -> (r: Result<usize, ModelError>)
        ensures
            r == tfl(spec_root(self.data@)),
    {
        if self.data.len() < 4 {
            return Err(invalid(Format::Tflite, ErrorKind::Truncated));
        }
        let root = self.u32(0)? as usize;
        self.require(root, 4)?;
        Ok(root)
    }

    /// The position of field `slot` of `table`, if the table has it.
    pub fn field(&self, table: usize, slot: usize) -> (r: Result<Option<usize>, ModelError>)
        ensures
            r == tfl(spec_field(self.data@, table as int, slot as int)),
    {
        self.require(table, 4)?;
        let vtable_distance = self.i32(table)?;
        let vtable_wide = table as i128 - vtable_distance as i128;
        if vtable_wide < 0 || vtable_wide > usize::MAX as i128 {
            return Err(invalid(Format::Tflite, ErrorKind::Overflow));
        }
        let vtable = vtable_wide as usize;
        self.require(vtable, 4)?;
        let vtable_len = self.u16(vtable)? as usize;
        if slot >= vtable_len || vtable_len - slot < 2 {
            return Ok(None);
        }
        let slot_position = match vtable.checked_add(slot) {
            Some(p) => p,
            None => return Err(invalid(Format::Tflite, ErrorKind::Overflow)),
        };
        let offset = self.u16(slot_position)? as usize;
        if offset == 0 {
            return Ok(None);
        }
        let field = match table.checked_add(offset) {
            Some(field) => field,
            None => return Err(invalid(Format::Tflite, ErrorKind::Overflow)),
        };
        self.require(field, 1)?;
        Ok(Some(field))
    }

    /// The position that the offset at `position` points to.
    pub fn indirect(&self, position: usize) -> (r: Result<usize, ModelError>)
        ensures
            r == tfl(spec_indirect(self.data@, position as int)),
    {
        let offset = self.u32(position)? as usize;
        let target = match position.checked_add(offset) {
            Some(target) => target,
            None => return Err(invalid(Format::Tflite, ErrorKind::Overflow)),
        };
        self.require(target, 4)?;
        Ok(target)
    }

    /// The position of the vector of field `slot`.
    pub fn vector(&self, table: usize, slot: usize) -> (r: Result<Option<usize>, ModelError>)
        ensures
            r == tfl(spec_vector(self.data@, table as int, slot as int)),
    {
        let field = match self.field(table, slot)? {
            Some(field) => field,
            None => return Ok(None),
        };
        let vector = self.indirect(field)?;
        self.require(vector, 4)?;
        Ok(Some(vector))
    }

    /// The start and the length of the byte vector of field `slot`.
    pub fn u8_vector_range(&self, table: usize, slot: usize) -> (r: Result<
        Option<(usize, usize)>,
        ModelError,
    >)
        ensures
            r == tfl(spec_u8_vector_range(self.data@, table as int, slot as int)),
    {
        let vector = match self.vector(table, slot)? {
            Some(vector) => vector,
            None => return Ok(None),
        };
        let len = self.u32(vector)? as usize;
        let start = match vector.checked_add(4) {
            Some(start) => start,
            None => return Err(invalid(Format::Tflite, ErrorKind::Overflow)),
        };
        self.require(start, len)?;
        Ok(Some((start, len)))
    }
    /// The position of the table that field `slot` points to.
    pub fn table_field(&self, table: usize, slot: usize) -> (r: Result<Option<usize>, ModelError>)
        ensures
            r == tfl(spec_vector(self.data@, table as int, slot as int)),
    {
        let field = match self.field(table, slot)? {
            Some(field) => field,
            None => return Ok(None),
        };
        let offset = self.u32(field)? as usize;
        let target = match field.checked_add(offset) {
            Some(target) => target,
            None => return Err(invalid(Format::Tflite, ErrorKind::Overflow)),
        };
        self.require(target, 4)?;
        Ok(Some(target))
    }

    /// The type and the table of the union whose type is field `slot`.
    pub fn union_table_field(&self, table: usize, slot: usize) -> (r: Result<
        Option<(u8, usize)>,
        ModelError,
    >)
        ensures
            r == tfl(spec_union_table(self.data@, table as int, slot as int)),
    {
        let type_field = match self.field(table, slot)? {
            Some(type_field) => type_field,
            None => return Ok(None),
        };
        if type_field >= self.data.len() {
            return Err(invalid(Format::Tflite, ErrorKind::Truncated));
        }
        let option_type = self.data[type_field];
        if option_type == 0 {
            return Ok(None);
        }
        let value_field = match self.field(table, slot + 2)? {
            Some(value_field) => value_field,
            None => return Ok(None),
        };
        let target = self.indirect(value_field)?;
        Ok(Some((option_type, target)))
    }

    /// The string of field `slot`, its ill-formed UTF-8 replaced.
    pub fn string_field(&self, table: usize, slot: usize) -> (r: Result<Option<String>, ModelError>)
        ensures
            match spec_string_field(self.data@, table as int, slot as int) {
                Err(k) => r == Err::<Option<String>, ModelError>(tfl_error(k)),
                Ok(v) => r matches Ok(x) && opt_str(x) == v,
            },
    {
        let field = match self.field(table, slot)? {
            Some(field) => field,
            None => return Ok(None),
        };
        let vector = self.indirect(field)?;
        let len = self.u32(vector)? as usize;
        let start = match vector.checked_add(4) {
            Some(start) => start,
            None => return Err(invalid(Format::Tflite, ErrorKind::Overflow)),
        };
        self.require(start, len)?;
        Ok(Some(lossy_string(slice_range(self.data, start, start + len))))
    }

    /// The length and the start of the elements of the vector of field `slot`.
    fn vector_elements(&self, table: usize, slot: usize) -> (r: Result<Option<(u32, usize)>, ModelError>)
        ensures
            match spec_vector_elements(self.data@, table as int, slot as int) {
                Err(k) => r == Err::<Option<(u32, usize)>, ModelError>(tfl_error(k)),
                Ok(None) => r == Ok::<Option<(u32, usize)>, ModelError>(None),
                Ok(Some((len, start))) => r == Ok::<Option<(u32, usize)>, ModelError>(
                    Some((len, start as usize)),
                ),
            },
            r matches Ok(Some((len, start))) ==> start + 0 <= usize::MAX,
    {
        let vector = match self.vector(table, slot)? {
            Some(vector) => vector,
            None => return Ok(None),
        };
        let len = self.u32(vector)?;
        let start = match vector.checked_add(4) {
            Some(start) => start,
            None => return Err(invalid(Format::Tflite, ErrorKind::Overflow)),
        };
        Ok(Some((len, start)))
    }

    /// The positions of the tables of the table vector of field `slot`.
    pub fn table_vector(&self, table: usize, slot: usize) -> (r: Result<Vec<usize>, ModelError>)
        ensures
            match spec_table_vector(self.data@, table as int, slot as int) {
                Err(k) => r == Err::<Vec<usize>, ModelError>(tfl_error(k)),
                Ok(positions) => r matches Ok(v) && v@ == positions,
            },
    {
        let (len, start) = match self.vector_elements(table, slot)? {
            Some(found) => found,
            None => return Ok(Vec::new()),
        };
        let ghost data = self.data@;
        let mut result: Vec<usize> = Vec::new();
        let mut index: u32 = 0;
        while index < len
            invariant
                data == self.data@,
                spec_vector_elements(data, table as int, slot as int) == Ok::<
                    Option<(u32, int)>,
                    ErrorKind,
                >(Some((len, start as int))),
                index <= len,
                spec_table_elements(data, start as int, index as nat) == Ok::<Seq<usize>, ErrorKind>(
                    result@,
                ),
            decreases len - index,
        {
            let element = match (index as usize).checked_mul(4) {
                Some(distance) => start.checked_add(distance),
                None => None,
            };
            let element = match element {
                Some(element) => element,
                None => {
                    proof {
                        lemma_table_elements_err(data, start as int, (index + 1) as nat, len as nat);
                    }
                    return Err(invalid(Format::Tflite, ErrorKind::Overflow));
                },
            };
            match self.indirect(element) {
                Ok(target) => {
                    result.push(target);
                },
                Err(e) => {
                    proof {
                        lemma_table_elements_err(data, start as int, (index + 1) as nat, len as nat);
                    }
                    return Err(e);
                },
            }
            index = index + 1;
        }
        Ok(result)
    }

    /// The `i32` vector of field `slot`, if the field is present.
    pub fn i32_vector_opt(&self, table: usize, slot: usize) -> (r: Result<Option<Vec<i32>>, ModelError>)
        ensures
            match spec_i32_vector(self.data@, table as int, slot as int) {
                Err(k) => r == Err::<Option<Vec<i32>>, ModelError>(tfl_error(k)),
                Ok(None) => r == Ok::<Option<Vec<i32>>, ModelError>(None),
                Ok(Some(values)) => r matches Ok(Some(v)) && v@ == values,
            },
    {
        let (len, start) = match self.vector_elements(table, slot)? {
            Some(found) => found,
            None => return Ok(None),
        };
        let byte_len = match (len as usize).checked_mul(4) {
            Some(byte_len) => byte_len,
            None => return Err(invalid(Format::Tflite, ErrorKind::Overflow)),
        };
        self.require(start, byte_len)?;
        let ghost data = self.data@;
        assert(data.len() == self.data.len());
        let mut result: Vec<i32> = Vec::new();
        let mut index: usize = 0;
        while index < len as usize
            invariant
                data == self.data@,
                data.len() <= usize::MAX,
                index <= len,
                start + 4 * len <= data.len(),
                result@ == Seq::new(index as nat, |i: int| le_u32_at(data, start + 4 * i) as i32),
            decreases len - index,
        {
            let value = #[verifier::truncate] (read_u32(self.data, start + index * 4) as i32);
            result.push(value);
            index = index + 1;
        }
        Ok(Some(result))
    }

    /// The `i32` vector of field `slot`; empty when the field is absent.
    pub fn i32_vector(&self, table: usize, slot: usize) -> (r: Result<Vec<i32>, ModelError>)
        ensures
            match spec_i32_vector(self.data@, table as int, slot as int) {
                Err(k) => r == Err::<Vec<i32>, ModelError>(tfl_error(k)),
                Ok(None) => r matches Ok(v) && v@.len() == 0,
                Ok(Some(values)) => r matches Ok(v) && v@ == values,
            },
    {
        match self.i32_vector_opt(table, slot)? {
            Some(values) => Ok(values),
            None => Ok(Vec::new()),
        }
    }

    /// The `i64` vector of field `slot`; empty when the field is absent.
    pub fn i64_vector(&self, table: usize, slot: usize) -> (r: Result<Vec<i64>, ModelError>)
        ensures
            match spec_i64_vector(self.data@, table as int, slot as int) {
                Err(k) => r == Err::<Vec<i64>, ModelError>(tfl_error(k)),
                Ok(None) => r matches Ok(v) && v@.len() == 0,
                Ok(Some(values)) => r matches Ok(v) && v@ == values,
            },
    {
        let (len, start) = match self.vector_elements(table, slot)? {
            Some(found) => found,
            None => return Ok(Vec::new()),
        };
        let byte_len = match (len as usize).checked_mul(8) {
            Some(byte_len) => byte_len,
            None => return Err(invalid(Format::Tflite, ErrorKind::Overflow)),
        };
        self.require(start, byte_len)?;
        let ghost data = self.data@;
        assert(data.len() == self.data.len());
        let mut result: Vec<i64> = Vec::new();
        let mut index: usize = 0;
        while index < len as usize
            invariant
                data == self.data@,
                data.len() <= usize::MAX,
                index <= len,
                start + 8 * len <= data.len(),
                result@ == Seq::new(index as nat, |i: int| le_u64_at(data, start + 8 * i) as i64),
            decreases len - index,
        {
            let value = #[verifier::truncate] (read_u64(self.data, start + index * 8) as i64);
            result.push(value);
            index = index + 1;
        }
        Ok(result)
    }

    /// The bytes of the byte vector of field `slot`; empty when it is absent.
    pub fn u8_vector(&self, table: usize, slot: usize) -> (r: Result<Vec<u8>, ModelError>)
        ensures
            match spec_u8_vector_range(self.data@, table as int, slot as int) {
                Err(k) => r == Err::<Vec<u8>, ModelError>(tfl_error(k)),
                Ok(None) => r matches Ok(v) && v@.len() == 0,
                Ok(Some((start, len))) => r matches Ok(v) && v@ == self.data@.subrange(
                    start as int,
                    start + len,
                ),
            },
    {
        let (start, len) = match self.u8_vector_range(table, slot)? {
            Some(range) => range,
            None => return Ok(Vec::new()),
        };
        Ok(vstd::slice::slice_to_vec(slice_range(self.data, start, start + len)))
    }

    /// The position of a present field, or `None` when it is absent or the
    /// table cannot be read.
    fn field_position(&self, table: usize, slot: usize) -> (r: Option<usize>)
        ensures
            r == spec_field_position(self.data@, table as int, slot as int),
    {
        match self.field(table, slot) {
            Ok(Some(position)) => Some(position),
            _ => None,
        }
    }

    /// The byte of a present field.
    fn byte_field(&self, table: usize, slot: usize) -> (r: Option<u8>)
        ensures
            r == spec_byte_field(self.data@, table as int, slot as int),
    {
        match self.field_position(table, slot) {
            Some(position) => if position < self.data.len() {
                Some(self.data[position])
            } else {
                None
            },
            None => None,
        }
    }

    /// The boolean of field `slot`, if it is present.
    pub fn bool_field_opt(&self, table: usize, slot: usize) -> (r: Option<bool>)
        ensures
            r == (match spec_byte_field(self.data@, table as int, slot as int) {
                Some(b) => Some(b != 0),
                None => None::<bool>,
            }),
    {
        match self.byte_field(table, slot) {
            Some(value) => Some(value != 0),
            None => None,
        }
    }

    /// The boolean of field `slot`, or `default`.
    pub fn bool_field(&self, table: usize, slot: usize, default: bool) -> (r: bool)
        ensures
            r == (match spec_byte_field(self.data@, table as int, slot as int) {
                Some(b) => b != 0,
                None => default,
            }),
    {
        match self.bool_field_opt(table, slot) {
            Some(value) => value,
            None => default,
        }
    }

    /// The `i8` of field `slot`, or `default`.
    pub fn i8_field(&self, table: usize, slot: usize, default: i8) -> (r: i8)
        ensures
            r == (match spec_byte_field(self.data@, table as int, slot as int) {
                Some(b) => b as i8,
                None => default,
            }),
    {
        match self.byte_field(table, slot) {
            Some(value) => value as i8,
            None => default,
        }
    }

    /// The `i32` of field `slot`, if it is present and can be read.
    pub fn i32_field_opt(&self, table: usize, slot: usize) -> (r: Option<i32>)
        ensures
            r == spec_i32_field(self.data@, table as int, slot as int),
    {
        match self.field_position(table, slot) {
            Some(position) => match self.i32(position) {
                Ok(value) => Some(value),
                Err(_) => None,
            },
            None => None,
        }
    }

    /// The `i32` of field `slot`, or `default`.
    pub fn i32_field(&self, table: usize, slot: usize, default: i32) -> (r: i32)
        ensures
            r == (match spec_i32_field(self.data@, table as int, slot as int) {
                Some(v) => v,
                None => default,
            }),
    {
        match self.i32_field_opt(table, slot) {
            Some(value) => value,
            None => default,
        }
    }

    /// The `u32` of field `slot`, or `default`.
    pub fn u32_field(&self, table: usize, slot: usize, default: u32) -> (r: u32)
        ensures
            r == (match spec_u32_field(self.data@, table as int, slot as int) {
                Some(v) => v,
                None => default,
            }),
    {
        match self.field_position(table, slot) {
            Some(position) => match self.u32(position) {
                Ok(value) => value,
                Err(_) => default,
            },
            None => default,
        }
    }

    /// The `u64` of field `slot`, or `default`.
    pub fn u64_field(&self, table: usize, slot: usize, default: u64) -> (r: u64)
        ensures
            r == (match spec_u64_field(self.data@, table as int, slot as int) {
                Some(v) => v,
                None => default,
            }),
    {
        match self.field_position(table, slot) {
            Some(position) => match self.u64(position) {
                Ok(value) => value,
                Err(_) => default,
            },
            None => default,
        }
    }
}

} // verus!

verus! {

/// The model's description: the root's description and the metadata's,
/// joined by a space when both are there; an empty metadata description
/// counts as none.
pub open spec fn spec_combined_description(base: Option<Seq<char>>, metadata: Option<Seq<char>>) -> Option<
    Seq<char>,
> {
    let metadata = match metadata {
        Some(m) => if m.len() == 0 {
            None
        } else {
            Some(m)
        },
        None => None,
    };
    match (base, metadata) {
        (Some(b), Some(m)) => Some(b + " "@ + m),
        (Some(b), None) => Some(b),
        (None, Some(m)) => Some(m),
        (None, None) => None,
    }
}

/// Joins the model's description and the metadata's description.
pub fn combined_description(base: Option<String>, metadata_description: Option<String>) -> (r: Option<
    String,
>)
    ensures
        opt_str(r) == spec_combined_description(opt_str(base), opt_str(metadata_description)),
{
    let metadata = match metadata_description {
        Some(m) => if m.as_str().is_empty() {
            None
        } else {
            Some(m)
        },
        None => None,
    };
    proof {
        reveal_strlit(" ");
    }
    match (base, metadata) {
        (Some(b), Some(m)) => {
            let mut joined = b;
            joined.append(" ");
            joined.append(m.as_str());
            Some(joined)
        },
        (Some(b), None) => Some(b),
        (None, Some(m)) => Some(m),
        (None, None) => None,
    }
}

/// `acc` with `x` added at the end, unless it is there already.
pub open spec fn push_new(acc: Seq<i32>, x: i32) -> Seq<i32> {
    if acc.contains(x) {
        acc
    } else {
        acc.push(x)
    }
}

/// `acc` with each tensor index of `maps` added in order, skipping repeats.
pub open spec fn push_all_new(acc: Seq<i32>, maps: Seq<u32>) -> Seq<i32>
    decreases maps.len(),
{
    if maps.len() == 0 {
        acc
    } else {
        push_new(push_all_new(acc, maps.drop_last()), maps.last() as i32)
    }
}

/// The tensors that the signatures name as inputs (or as outputs), each once,
/// in the order in which they first appear.
pub open spec fn spec_boundary_indexes(signatures: Seq<SignatureDefView>, inputs: bool) -> Seq<i32>
    decreases signatures.len(),
{
    if signatures.len() == 0 {
        Seq::empty()
    } else {
        push_all_new(
            spec_boundary_indexes(signatures.drop_last(), inputs),
            if inputs {
                signatures.last().inputs
            } else {
                signatures.last().outputs
            },
        )
    }
}

/// No value occurs twice in `s`.
pub open spec fn all_distinct(s: Seq<i32>) -> bool {
    forall|i: int, j: int| 0 <= i < j < s.len() ==> s[i] != s[j]
}

proof fn lemma_push_all_new(acc: Seq<i32>, maps: Seq<u32>)
    requires
        all_distinct(acc),
    ensures
        all_distinct(push_all_new(acc, maps)),
        forall|i: int| 0 <= i < maps.len() ==> push_all_new(acc, maps).contains(#[trigger] maps[i] as i32),
        forall|x: i32| acc.contains(x) ==> push_all_new(acc, maps).contains(x),
    decreases maps.len(),
{
    if maps.len() > 0 {
        let rest = maps.drop_last();
        lemma_push_all_new(acc, rest);
        let before = push_all_new(acc, rest);
        let x = maps.last() as i32;
        if !before.contains(x) {
            assert forall|i: int, j: int| 0 <= i < j < before.push(x).len() implies before.push(x)[i]
                != before.push(x)[j] by {
                if j == before.len() {
                    assert(before[i] != x);
                }
            }
            assert(before.push(x)[before.len() as int] == x);
        }
        assert forall|i: int| 0 <= i < maps.len() implies push_all_new(acc, maps).contains(
            #[trigger] maps[i] as i32,
        ) by {
            if i < maps.len() - 1 {
                assert(rest[i] == maps[i]);
                let k = choose|k: int| 0 <= k < before.len() && before[k] == maps[i] as i32;
                if !before.contains(x) {
                    assert(before.push(x)[k] == maps[i] as i32);
                }
            } else if !before.contains(x) {
                assert(before.push(x)[before.len() as int] == x);
            }
        }
        assert forall|y: i32| acc.contains(y) implies push_all_new(acc, maps).contains(y) by {
            let k = choose|k: int| 0 <= k < before.len() && before[k] == y;
            if !before.contains(x) {
                assert(before.push(x)[k] == y);
            }
        }
    }
}

/// The tensor indexes that a signature names as inputs, or as outputs.
pub open spec fn boundary_maps(signature: SignatureDefView, inputs: bool) -> Seq<u32> {
    if inputs {
        signature.inputs
    } else {
        signature.outputs
    }
}

/// The boundary tensors of a model's signatures occur once each, and every
/// tensor that a signature names as an input (or an output) is among them.
pub proof fn lemma_boundary_indexes(signatures: Seq<SignatureDefView>, inputs: bool)
    ensures
        all_distinct(spec_boundary_indexes(signatures, inputs)),
        forall|s: int, i: int|
            0 <= s < signatures.len() && 0 <= i < boundary_maps(signatures[s], inputs).len()
                ==> spec_boundary_indexes(signatures, inputs).contains(
                #[trigger] boundary_maps(signatures[s], inputs)[i] as i32,
            ),
    decreases signatures.len(),
{
    if signatures.len() > 0 {
        let rest = signatures.drop_last();
        lemma_boundary_indexes(rest, inputs);
        let maps = boundary_maps(signatures.last(), inputs);
        lemma_push_all_new(spec_boundary_indexes(rest, inputs), maps);
        assert forall|s: int, i: int|
            0 <= s < signatures.len() && 0 <= i < boundary_maps(signatures[s], inputs).len()
                implies spec_boundary_indexes(signatures, inputs).contains(
            #[trigger] boundary_maps(signatures[s], inputs)[i] as i32,
        ) by {
            if s < signatures.len() - 1 {
                assert(rest[s] == signatures[s]);
                assert(boundary_maps(rest[s], inputs)[i] == boundary_maps(signatures[s], inputs)[i]);
            } else {
                assert(maps[i] == boundary_maps(signatures[s], inputs)[i]);
            }
        }
    }
}

/// Whether `values` holds `x`.
fn contains_i32(values: &Vec<i32>, x: i32) -> (r: bool)
    ensures
        r == values@.contains(x),
{
    let mut i: usize = 0;
    while i < values.len()
        invariant
            i <= values@.len(),
            forall|j: int| 0 <= j < i ==> values@[j] != x,
        decreases values@.len() - i,
    {
        if values[i] == x {
            return true;
        }
        i = i + 1;
    }
    false
}

/// The views of the signatures.
pub open spec fn signature_views(signatures: Seq<&SignatureDefInfo>) -> Seq<SignatureDefView> {
    signatures.map_values(|s: &SignatureDefInfo| s@)
}

/// The tensor indexes of the signatures' inputs (or outputs), without repeats.
pub fn signature_boundary_indexes(signatures: &[&SignatureDefInfo], inputs: bool) -> (r: Vec<i32>)
    ensures
        r@ == spec_boundary_indexes(signature_views(signatures@), inputs),
{
    let mut result: Vec<i32> = Vec::new();
    let mut s: usize = 0;
    proof {
        assert(signature_views(signatures@).take(0) =~= Seq::<SignatureDefView>::empty());
    }
    while s < signatures.len()
        invariant
            s <= signatures@.len(),
            result@ == spec_boundary_indexes(signature_views(signatures@).take(s as int), inputs),
        decreases signatures@.len() - s,
    {
        let signature = signatures[s];
        let maps = if inputs {
            &signature.inputs
        } else {
            &signature.outputs
        };
        let ghost indexes = maps@.map_values(|m: TensorMapInfo| m.tensor_index);
        let ghost start = result@;
        let mut m: usize = 0;
        proof {
            assert(indexes.take(0) =~= Seq::<u32>::empty());
        }
        while m < maps.len()
            invariant
                m <= maps@.len(),
                indexes == maps@.map_values(|m: TensorMapInfo| m.tensor_index),
                result@ == push_all_new(start, indexes.take(m as int)),
            decreases maps@.len() - m,
        {
            let index = #[verifier::truncate] (maps[m].tensor_index as i32);
            if !contains_i32(&result, index) {
                result.push(index);
            }
            proof {
                assert(indexes.take(m + 1).drop_last() =~= indexes.take(m as int));
            }
            m = m + 1;
        }
        proof {
            let views = signature_views(signatures@);
            assert(indexes.take(maps@.len() as int) =~= indexes);
            assert(views.take(s + 1).drop_last() =~= views.take(s as int));
            assert(views.take(s + 1).last() == signature@);
        }
        s = s + 1;
    }
    proof {
        assert(signature_views(signatures@).take(signatures@.len() as int) =~= signature_views(
            signatures@,
        ));
    }
    result
}

/// The decimal texts of `values`, joined by commas.
pub open spec fn spec_join_i64(values: Seq<i64>) -> Seq<char>
    decreases values.len(),
{
    if values.len() == 0 {
        Seq::empty()
    } else if values.len() == 1 {
        decimal(values[0] as int)
    } else {
        spec_join_i64(values.drop_last()) + ","@ + decimal(values.last() as int)
    }
}

/// Joins the decimal texts of `values` with commas.
pub fn join_i64(values: &[i64]) -> (r: String)
    ensures
        r@ == spec_join_i64(values@),
{
    let mut text = String::new();
    let mut i: usize = 0;
    while i < values.len()
        invariant
            i <= values@.len(),
            text@ == spec_join_i64(values@.take(i as int)),
        decreases values@.len() - i,
    {
        if i > 0 {
            text.append(",");
        }
        text.append(i64_to_string(values[i]).as_str());
        proof {
            assert(values@.take(i + 1).drop_last() =~= values@.take(i as int));
            if i == 0 {
                assert(values@.take(1) =~= seq![values@[0]]);
            }
        }
        i = i + 1;
    }
    proof {
        assert(values@.take(values@.len() as int) =~= values@);
    }
    text
}

/// The name of a tensor element type in attributes.
pub open spec fn spec_tensor_type_name(value: i8) -> Seq<char> {
    if value == 0 {
        "FLOAT32"@
    } else if value == 1 {
        "FLOAT16"@
    } else if value == 2 {
        "INT32"@
    } else if value == 3 {
        "UINT8"@
    } else if value == 4 {
        "INT64"@
    } else if value == 5 {
        "STRING"@
    } else if value == 6 {
        "BOOL"@
    } else if value == 7 {
        "INT16"@
    } else if value == 8 {
        "COMPLEX64"@
    } else if value == 9 {
        "INT8"@
    } else if value == 10 {
        "FLOAT64"@
    } else if value == 11 {
        "COMPLEX128"@
    } else if value == 12 {
        "UINT64"@
    } else if value == 13 {
        "RESOURCE"@
    } else if value == 14 {
        "VARIANT"@
    } else if value == 15 {
        "UINT32"@
    } else if value == 16 {
        "UINT16"@
    } else if value == 17 {
        "INT4"@
    } else if value == 18 {
        "BFLOAT16"@
    } else if value == 19 {
        "INT2"@
    } else if value == 20 {
        "UINT4"@
    } else {
        "?"@
    }
}

/// The value of the TFLite schema's `TensorType` enum that names `name`.
pub open spec fn tensor_type_code(name: Seq<char>) -> Option<i8> {
    if name == "FLOAT32"@ {
        Some(0)
    } else if name == "FLOAT16"@ {
        Some(1)
    } else if name == "INT32"@ {
        Some(2)
    } else if name == "UINT8"@ {
        Some(3)
    } else if name == "INT64"@ {
        Some(4)
    } else if name == "STRING"@ {
        Some(5)
    } else if name == "BOOL"@ {
        Some(6)
    } else if name == "INT16"@ {
        Some(7)
    } else if name == "COMPLEX64"@ {
        Some(8)
    } else if name == "INT8"@ {
        Some(9)
    } else if name == "FLOAT64"@ {
        Some(10)
    } else if name == "COMPLEX128"@ {
        Some(11)
    } else if name == "UINT64"@ {
        Some(12)
    } else if name == "RESOURCE"@ {
        Some(13)
    } else if name == "VARIANT"@ {
        Some(14)
    } else if name == "UINT32"@ {
        Some(15)
    } else if name == "UINT16"@ {
        Some(16)
    } else if name == "INT4"@ {
        Some(17)
    } else if name == "BFLOAT16"@ {
        Some(18)
    } else if name == "INT2"@ {
        Some(19)
    } else if name == "UINT4"@ {
        Some(20)
    } else {
        None
    }
}

/// Each tensor type is named as the schema's `TensorType` enum names it: the
/// value that the schema gives a name is shown by that name.
pub proof fn lemma_tensor_type_named(name: Seq<char>)
    ensures
        tensor_type_code(name) matches Some(c) ==> spec_tensor_type_name(c) == name,
{
}

/// The schema numbers its tensor types from 0 to 20; every other value is
/// shown as `?`, which names no type.
pub proof fn lemma_tensor_type_unknown(c: i8)
    ensures
        !(0 <= c <= 20) ==> spec_tensor_type_name(c) == "?"@,
        tensor_type_code("?"@) is None,
{
    reveal_strlit("FLOAT32");
    reveal_strlit("FLOAT16");
    reveal_strlit("INT32");
    reveal_strlit("UINT8");
    reveal_strlit("INT64");
    reveal_strlit("STRING");
    reveal_strlit("BOOL");
    reveal_strlit("INT16");
    reveal_strlit("COMPLEX64");
    reveal_strlit("INT8");
    reveal_strlit("FLOAT64");
    reveal_strlit("COMPLEX128");
    reveal_strlit("UINT64");
    reveal_strlit("RESOURCE");
    reveal_strlit("VARIANT");
    reveal_strlit("UINT32");
    reveal_strlit("UINT16");
    reveal_strlit("INT4");
    reveal_strlit("BFLOAT16");
    reveal_strlit("INT2");
    reveal_strlit("UINT4");
    reveal_strlit("?");
    assert("FLOAT32"@.len() == 7);
    assert("FLOAT16"@.len() == 7);
    assert("INT32"@.len() == 5);
    assert("UINT8"@.len() == 5);
    assert("INT64"@.len() == 5);
    assert("STRING"@.len() == 6);
    assert("BOOL"@.len() == 4);
    assert("INT16"@.len() == 5);
    assert("COMPLEX64"@.len() == 9);
    assert("INT8"@.len() == 4);
    assert("FLOAT64"@.len() == 7);
    assert("COMPLEX128"@.len() == 10);
    assert("UINT64"@.len() == 6);
    assert("RESOURCE"@.len() == 8);
    assert("VARIANT"@.len() == 7);
    assert("UINT32"@.len() == 6);
    assert("UINT16"@.len() == 6);
    assert("INT4"@.len() == 4);
    assert("BFLOAT16"@.len() == 8);
    assert("INT2"@.len() == 4);
    assert("UINT4"@.len() == 5);
    assert("?"@.len() == 1);
    assert("BFLOAT16"@[0] == 'B');
    assert("BOOL"@[0] == 'B');
    assert("FLOAT16"@[0] == 'F');
    assert("FLOAT16"@[5] == '1');
    assert("FLOAT32"@[0] == 'F');
    assert("FLOAT32"@[5] == '3');
    assert("FLOAT64"@[0] == 'F');
    assert("FLOAT64"@[5] == '6');
    assert("INT16"@[0] == 'I');
    assert("INT16"@[3] == '1');
    assert("INT2"@[0] == 'I');
    assert("INT2"@[3] == '2');
    assert("INT32"@[0] == 'I');
    assert("INT32"@[3] == '3');
    assert("INT4"@[0] == 'I');
    assert("INT4"@[3] == '4');
    assert("INT64"@[0] == 'I');
    assert("INT64"@[3] == '6');
    assert("INT8"@[0] == 'I');
    assert("INT8"@[3] == '8');
    assert("RESOURCE"@[0] == 'R');
    assert("STRING"@[0] == 'S');
    assert("UINT16"@[0] == 'U');
    assert("UINT16"@[4] == '1');
    assert("UINT32"@[0] == 'U');
    assert("UINT32"@[4] == '3');
    assert("UINT4"@[0] == 'U');
    assert("UINT4"@[4] == '4');
    assert("UINT64"@[0] == 'U');
    assert("UINT64"@[4] == '6');
    assert("UINT8"@[0] == 'U');
    assert("UINT8"@[4] == '8');
    assert("VARIANT"@[0] == 'V');
}


/// The name of the tensor element type `value`, `?` when it is unknown.
pub fn tensor_type_attribute_name(value: i8) -> (r: &'static str)
    ensures
        r@ == spec_tensor_type_name(value),
{
    match value {
        0 => "FLOAT32",
        1 => "FLOAT16",
        2 => "INT32",
        3 => "UINT8",
        4 => "INT64",
        5 => "STRING",
        6 => "BOOL",
        7 => "INT16",
        8 => "COMPLEX64",
        9 => "INT8",
        10 => "FLOAT64",
        11 => "COMPLEX128",
        12 => "UINT64",
        13 => "RESOURCE",
        14 => "VARIANT",
        15 => "UINT32",
        16 => "UINT16",
        17 => "INT4",
        18 => "BFLOAT16",
        19 => "INT2",
        20 => "UINT4",
        _ => "?",
    }
}

} // verus!
