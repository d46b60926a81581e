//! ONNX models: a protobuf reader and the decoders of the ONNX messages.
use vstd::prelude::*;
use vstd::string::StringExecFns;
use crate::graph::FormatMetadata;
use crate::error::{ErrorKind, Format, ModelError, invalid, model_error};
use crate::strmap::StringMap;
use crate::le::{le_u32_at, read_u32};
use crate::text::{spec_utf8, utf8_string};
use crate::varint::varint_error_stop;
use crate::varint::{lemma_varint_bounds, spec_varint, varint_from, varint_part};

pub mod proto;
pub mod util;
pub mod graph;

verus! {

/// The ONNX model format.
pub struct OnnxFormat;

impl OnnxFormat {
    /// The format's name and extensions.
    pub fn metadata(&self) -> (r: FormatMetadata)
        ensures
            r.name@ == "ONNX"@,
            r.extensions@.map_values(|e: String| e@) == seq!["onnx"@, "pb"@],
    {
        let mut extensions: Vec<String> = Vec::new();
        extensions.push(String::from_str("onnx"));
        extensions.push(String::from_str("pb"));
        let r = FormatMetadata { name: String::from_str("ONNX"), extensions };
        proof {
            assert(r.extensions@.map_values(|e: String| e@) =~= seq!["onnx"@, "pb"@]);
        }
        r
    }
}

/// The error that the ONNX reader raises for `kind`.
pub open spec fn onnx_error(kind: ErrorKind) -> ModelError {
    model_error(Format::Onnx, kind)
}

/// What a protobuf field holds, as the reader saw it.
pub enum WireValue {
    Varint(u64),
    Fixed32(u32),
    Fixed64,
    Bytes(Seq<u8>),
}

/// The end of `len` bytes that start at `pos`: an overflow when it does not fit
/// in `usize`, truncated when it lies past the data.
pub open spec fn spec_take(data: Seq<u8>, pos: int, len: int) -> Result<int, ErrorKind> {
    if pos + len > usize::MAX {
        Err(ErrorKind::Overflow)
    } else if pos + len > data.len() {
        Err(ErrorKind::Truncated)
    } else {
        Ok(pos + len)
    }
}

/// The field that starts at `pos`: `None` at the end of the data, else its
/// number, its value and the position after it.
pub open spec fn spec_next_field(data: Seq<u8>, pos: int) -> Result<
    Option<(u32, WireValue, int)>,
    ErrorKind,
> {
    if pos == data.len() {
        Ok(None)
    } else {
        match spec_varint(data, pos) {
            Err(e) => Err(e),
            Ok((key, p1)) => {
                let number = (key >> 3u64) as u32;
                let wire = key & 7;
                if number == 0 {
                    Err(ErrorKind::FieldZero)
                } else if wire == 0 {
                    match spec_varint(data, p1) {
                        Ok((v, p2)) => Ok(Some((number, WireValue::Varint(v), p2))),
                        Err(e) => Err(e),
                    }
                } else if wire == 1 {
                    match spec_take(data, p1, 8) {
                        Ok(p2) => Ok(Some((number, WireValue::Fixed64, p2))),
                        Err(e) => Err(e),
                    }
                } else if wire == 2 {
                    match spec_varint(data, p1) {
                        Ok((len, p2)) => match spec_take(data, p2, len as usize as int) {
                            Ok(p3) => Ok(
                                Some((number, WireValue::Bytes(data.subrange(p2, p3)), p3)),
                            ),
                            Err(e) => Err(e),
                        },
                        Err(e) => Err(e),
                    }
                } else if wire == 5 {
                    match spec_take(data, p1, 4) {
                        Ok(p2) => Ok(Some((number, WireValue::Fixed32(le_u32_at(data, p1)), p2))),
                        Err(e) => Err(e),
                    }
                } else {
                    Err(ErrorKind::UnsupportedWireType)
                }
            },
        }
    }
}

/// Every field that is read lies inside the data and takes at least one byte.
pub proof fn lemma_next_field_advances(data: Seq<u8>, pos: int)
    requires
        0 <= pos <= data.len(),
    ensures
        spec_next_field(data, pos) matches Ok(Some((n, v, p))) ==> pos < p <= data.len() && (
        v matches WireValue::Bytes(b) ==> b.len() < p - pos),
{
    lemma_varint_bounds(data, pos, 0, 0);
    if let Ok((key, p1)) = spec_varint(data, pos) {
        lemma_varint_bounds(data, p1, 0, 0);
    }
}

/// Folds `step` over the fields of `data` from `pos` on, stopping at the first
/// error, whether the framing or `step` raised it.
pub open spec fn fold_fields<A>(
    data: Seq<u8>,
    pos: int,
    acc: A,
    step: spec_fn(A, u32, WireValue) -> Result<A, ErrorKind>,
) -> Result<A, ErrorKind>
    decreases data.len() - pos,
{
    match spec_next_field(data, pos) {
        Err(e) => Err(e),
        Ok(None) => Ok(acc),
        Ok(Some((n, v, p))) => if pos < p <= data.len() {
            match step(acc, n, v) {
                Ok(next) => fold_fields(data, p, next, step),
                Err(e) => Err(e),
            }
        } else {
            Ok(acc)
        },
    }
}

/// A protobuf field: its number and its value.
#[derive(Clone, Copy)]
pub struct Field<'a> {
    pub number: u32,
    pub value: FieldValue<'a>,
}

/// The value of a protobuf field; a fixed 64-bit value is skipped.
#[derive(Clone, Copy)]
pub enum FieldValue<'a> {
    Varint(u64),
    Fixed32(u32),
    Fixed64(()),
    Bytes(&'a [u8]),
}

impl FieldValue<'_> {
    /// The value as the reader saw it.
    pub open spec fn wire(self) -> WireValue {
        match self {
            FieldValue::Varint(v) => WireValue::Varint(v),
            FieldValue::Fixed32(v) => WireValue::Fixed32(v),
            FieldValue::Fixed64(_) => WireValue::Fixed64,
            FieldValue::Bytes(b) => WireValue::Bytes(b@),
        }
    }
}

/// The varint of a field, or an error when it holds another wire type.
pub open spec fn field_varint(v: WireValue) -> Result<u64, ErrorKind> {
    match v {
        WireValue::Varint(x) => Ok(x),
        _ => Err(ErrorKind::WrongWireType),
    }
}

/// The bytes of a length-delimited field.
pub open spec fn field_bytes(v: WireValue) -> Result<Seq<u8>, ErrorKind> {
    match v {
        WireValue::Bytes(b) => Ok(b),
        _ => Err(ErrorKind::WrongWireType),
    }
}

/// The `int64` of a field: its varint, taken as two's complement.
pub open spec fn field_int64(v: WireValue) -> Result<i64, ErrorKind> {
    match field_varint(v) {
        Ok(x) => Ok(x as i64),
        Err(e) => Err(e),
    }
}

/// The `int32` of a field: the low 32 bits of its varint.
pub open spec fn field_int32(v: WireValue) -> Result<i32, ErrorKind> {
    match field_varint(v) {
        Ok(x) => Ok(x as i32),
        Err(e) => Err(e),
    }
}

/// The string of a length-delimited field, whose bytes must be UTF-8.
pub open spec fn field_string(v: WireValue) -> Result<Seq<char>, ErrorKind> {
    match field_bytes(v) {
        Ok(b) => match spec_utf8(b) {
            Some(s) => Ok(s),
            None => Err(ErrorKind::InvalidUtf8),
        },
        Err(e) => Err(e),
    }
}

/// The varints packed one after another in `data` from `pos` on.
pub open spec fn packed_varints(data: Seq<u8>, pos: int) -> Result<Seq<u64>, ErrorKind>
    decreases data.len() - pos,
{
    if pos < 0 || pos >= data.len() {
        Ok(Seq::empty())
    } else {
        match spec_varint(data, pos) {
            Err(e) => Err(e),
            Ok((v, p)) => if pos < p <= data.len() {
                match packed_varints(data, p) {
                    Ok(rest) => Ok(seq![v] + rest),
                    Err(e) => Err(e),
                }
            } else {
                Ok(Seq::empty())
            },
        }
    }
}

/// `seen` followed by the values of `rest`, or the error of `rest`.
pub open spec fn prepend_ok(seen: Seq<u64>, rest: Result<Seq<u64>, ErrorKind>) -> Result<
    Seq<u64>,
    ErrorKind,
> {
    match rest {
        Ok(r) => Ok(seen + r),
        Err(e) => Err(e),
    }
}

proof fn lemma_prepend_step(seen: Seq<u64>, v: u64, rest: Result<Seq<u64>, ErrorKind>)
    ensures
        prepend_ok(
            seen,
            match rest {
                Ok(r) => Ok(seq![v] + r),
                Err(e) => Err(e),
            },
        ) == prepend_ok(seen.push(v), rest),
{
    if let Ok(r) = rest {
        assert(seen + (seq![v] + r) =~= seen.push(v) + r);
    }
}

/// A repeated `int64` field: one varint, or a packed run of them.
pub open spec fn field_repeated_i64(v: WireValue) -> Result<Seq<i64>, ErrorKind> {
    match v {
        WireValue::Varint(x) => Ok(seq![x as i64]),
        WireValue::Bytes(b) => match packed_varints(b, 0) {
            Ok(values) => Ok(values.map_values(|x: u64| x as i64)),
            Err(e) => Err(e),
        },
        _ => Err(ErrorKind::WrongWireType),
    }
}

/// How many values a repeated varint field holds.
pub open spec fn field_repeated_varint_len(v: WireValue) -> Result<nat, ErrorKind> {
    match v {
        WireValue::Bytes(b) => match packed_varints(b, 0) {
            Ok(values) => Ok(values.len()),
            Err(e) => Err(e),
        },
        _ => Ok(1),
    }
}

/// How many values a repeated `double` field holds.
pub open spec fn field_repeated_f64_len(v: WireValue) -> Result<nat, ErrorKind> {
    match v {
        WireValue::Fixed64 => Ok(1),
        WireValue::Bytes(b) => if b.len() % 8 != 0 {
            Err(ErrorKind::InvalidValue)
        } else {
            Ok(b.len() / 8)
        },
        _ => Err(ErrorKind::WrongWireType),
    }
}

/// How many values a repeated `float` field holds.
pub open spec fn field_repeated_f32_len(v: WireValue) -> Result<nat, ErrorKind> {
    match v {
        WireValue::Fixed32(_) => Ok(1),
        WireValue::Bytes(b) => if b.len() % 4 != 0 {
            Err(ErrorKind::InvalidValue)
        } else {
            Ok(b.len() / 4)
        },
        _ => Err(ErrorKind::WrongWireType),
    }
}

/// The bits of a `float` field: its fixed 32-bit value.
pub open spec fn field_float32(v: WireValue) -> Result<u32, ErrorKind> {
    match v {
        WireValue::Fixed32(x) => Ok(x),
        _ => Err(ErrorKind::WrongWireType),
    }
}

/// The bits of a repeated `float` field: one fixed 32-bit value, or a packed
/// run of little-endian ones.
pub open spec fn field_repeated_f32(v: WireValue) -> Result<Seq<u32>, ErrorKind> {
    match v {
        WireValue::Fixed32(x) => Ok(seq![x]),
        WireValue::Bytes(b) => if b.len() % 4 != 0 {
            Err(ErrorKind::InvalidValue)
        } else {
            Ok(Seq::new(b.len() / 4, |i: int| le_u32_at(b, 4 * i)))
        },
        _ => Err(ErrorKind::WrongWireType),
    }
}

/// The result `r` of an exec conversion agrees with the spec result `s`.
pub open spec fn agrees<T>(r: Result<T, ModelError>, s: Result<T, ErrorKind>) -> bool {
    match s {
        Ok(v) => r == Ok::<T, ModelError>(v),
        Err(k) => r == Err::<T, ModelError>(onnx_error(k)),
    }
}

impl<'a> Field<'a> {
    /// The field's value as a two's complement `int64`.
    pub fn int64(self) -> (r: Result<i64, ModelError>)
        ensures
            agrees(r, field_int64(self.value.wire())),
    {
        Ok(self.varint()? as i64)
    }

    /// The field's value as an `int32`: the low 32 bits of its varint.
    pub fn int32(self) -> (r: Result<i32, ModelError>)
        ensures
            agrees(r, field_int32(self.value.wire())),
    {
        Ok(self.varint()? as i32)
    }

    /// The field's bytes, decoded as UTF-8.
    pub fn string(self) -> (r: Result<String, ModelError>)
        ensures
            match field_string(self.value.wire()) {
                Ok(s) => r matches Ok(x) && x@ == s,
                Err(k) => r == Err::<String, ModelError>(onnx_error(k)),
            },
    {
        let bytes = self.bytes()?;
        match utf8_string(bytes) {
            Some(s) => Ok(s),
            None => Err(invalid(Format::Onnx, ErrorKind::InvalidUtf8)),
        }
    }

    /// The bytes of a length-delimited field.
    pub fn bytes(self) -> (r: Result<&'a [u8], ModelError>)
        ensures
            match field_bytes(self.value.wire()) {
                Ok(b) => r matches Ok(x) && x@ == b,
                Err(k) => r == Err::<&'a [u8], ModelError>(onnx_error(k)),
            },
    {
        match self.value {
            FieldValue::Bytes(value) => Ok(value),
            _ => Err(invalid(Format::Onnx, ErrorKind::WrongWireType)),
        }
    }

    /// The values of a repeated `int64` field, packed or not.
    pub fn repeated_i64(self) -> (r: Result<Vec<i64>, ModelError>)
        ensures
            match field_repeated_i64(self.value.wire()) {
                Ok(s) => r matches Ok(x) && x@ == s,
                Err(k) => r == Err::<Vec<i64>, ModelError>(onnx_error(k)),
            },
    {
        match self.value {
            FieldValue::Varint(value) => {
                let mut values = Vec::new();
                values.push(value as i64);
                proof {
                    assert(values@ =~= seq![value as i64]);
                }
                Ok(values)
            },
            FieldValue::Bytes(bytes) => {
                let mut reader = ScalarReader::new(bytes);
                let mut values: Vec<i64> = Vec::new();
                let ghost mut seen: Seq<u64> = Seq::empty();
                loop
                    invariant
                        self.value.wire() == WireValue::Bytes(bytes@),
                        reader.data() == bytes@,
                        0 <= reader.pos() <= bytes@.len(),
                        packed_varints(bytes@, 0) == prepend_ok(seen, packed_varints(bytes@, reader.pos())),
                        values@ == seen.map_values(|x: u64| x as i64),
                    decreases bytes@.len() - reader.pos(),
                {
                    if reader.is_empty() {
                        proof {
                            assert(seen + Seq::<u64>::empty() =~= seen);
                            assert(packed_varints(bytes@, reader.pos()) == Ok::<Seq<u64>, ErrorKind>(Seq::empty()));
                            assert(self.value.wire() == WireValue::Bytes(bytes@));
                        }
                        return Ok(values);
                    }
                    let ghost before = reader.pos();
                    proof {
                        lemma_varint_bounds(bytes@, before, 0, 0);
                        assert(self.value.wire() == WireValue::Bytes(bytes@));
                    }
                    let value = reader.varint()?;
                    values.push(value as i64);
                    proof {
                        lemma_prepend_step(seen, value, packed_varints(bytes@, reader.pos()));
                        seen = seen.push(value);
                        assert(values@ =~= seen.map_values(|x: u64| x as i64));
                    }
                }
            },
            _ => Err(invalid(Format::Onnx, ErrorKind::WrongWireType)),
        }
    }

    /// How many values a repeated varint field holds.
    pub fn repeated_varint_len(self) -> (r: Result<usize, ModelError>)
        ensures
            match field_repeated_varint_len(self.value.wire()) {
                Ok(n) => r == Ok::<usize, ModelError>(n as usize) && n <= usize::MAX,
                Err(k) => r == Err::<usize, ModelError>(onnx_error(k)),
            },
    {
        match self.value {
            FieldValue::Bytes(bytes) => {
                let mut reader = ScalarReader::new(bytes);
                let mut count: usize = 0;
                let ghost mut seen: Seq<u64> = Seq::empty();
                loop
                    invariant
                        self.value.wire() == WireValue::Bytes(bytes@),
                        reader.data() == bytes@,
                        0 <= reader.pos() <= bytes@.len(),
                        count == seen.len(),
                        count <= reader.pos(),
                        packed_varints(bytes@, 0) == prepend_ok(seen, packed_varints(bytes@, reader.pos())),
                    decreases bytes@.len() - reader.pos(),
                {
                    if reader.is_empty() {
                        proof {
                            assert(seen + Seq::<u64>::empty() =~= seen);
                            assert(packed_varints(bytes@, reader.pos()) == Ok::<Seq<u64>, ErrorKind>(Seq::empty()));
                            assert(self.value.wire() == WireValue::Bytes(bytes@));
                        }
                        return Ok(count);
                    }
                    let ghost before = reader.pos();
                    proof {
                        lemma_varint_bounds(bytes@, before, 0, 0);
                        assert(self.value.wire() == WireValue::Bytes(bytes@));
                    }
                    let value = reader.varint()?;
                    count += 1;
                    proof {
                        lemma_prepend_step(seen, value, packed_varints(bytes@, reader.pos()));
                        seen = seen.push(value);
                    }
                }
            },
            _ => Ok(1),
        }
    }

    /// The bits of the field's `float`.
    pub fn float32_bits(self) -> (r: Result<u32, ModelError>)
        ensures
            agrees(r, field_float32(self.value.wire())),
    {
        match self.value {
            FieldValue::Fixed32(value) => Ok(value),
            _ => Err(invalid(Format::Onnx, ErrorKind::WrongWireType)),
        }
    }

    /// The bits of the values of a repeated `float` field, packed or not.
    pub fn repeated_f32_bits(self) -> (r: Result<Vec<u32>, ModelError>)
        ensures
            match field_repeated_f32(self.value.wire()) {
                Ok(s) => r matches Ok(x) && x@ == s,
                Err(k) => r matches Err(e) && e == onnx_error(k),
            },
    {
        match self.value {
            FieldValue::Fixed32(value) => {
                let mut values = Vec::new();
                values.push(value);
                proof {
                    assert(values@ =~= seq![value]);
                }
                Ok(values)
            },
            FieldValue::Bytes(bytes) => {
                if bytes.len() % 4 != 0 {
                    return Err(invalid(Format::Onnx, ErrorKind::InvalidValue));
                }
                let n = bytes.len() / 4;
                let mut values: Vec<u32> = Vec::new();
                let mut i: usize = 0;
                while i < n
                    invariant
                        n == bytes@.len() / 4,
                        4 * n <= bytes@.len() <= usize::MAX,
                        i <= n,
                        values@.len() == i,
                        forall|k: int| 0 <= k < i ==> values@[k] == le_u32_at(bytes@, 4 * k),
                    decreases n - i,
                {
                    values.push(read_u32(bytes, 4 * i));
                    i = i + 1;
                }
                proof {
                    assert(values@ =~= Seq::new(bytes@.len() / 4, |k: int| le_u32_at(bytes@, 4 * k)));
                }
                Ok(values)
            },
            _ => Err(invalid(Format::Onnx, ErrorKind::WrongWireType)),
        }
    }

    /// How many values a repeated `double` field holds.
    pub fn repeated_f64_len(self) -> (r: Result<usize, ModelError>)
        ensures
            match field_repeated_f64_len(self.value.wire()) {
                Ok(n) => r == Ok::<usize, ModelError>(n as usize) && n <= usize::MAX,
                Err(k) => r == Err::<usize, ModelError>(onnx_error(k)),
            },
    {
        match self.value {
            FieldValue::Fixed64(_) => Ok(1),
            FieldValue::Bytes(bytes) => {
                if bytes.len() % 8 != 0 {
                    return Err(invalid(Format::Onnx, ErrorKind::InvalidValue));
                }
                Ok(bytes.len() / 8)
            },
            _ => Err(invalid(Format::Onnx, ErrorKind::WrongWireType)),
        }
    }

    /// How many values a repeated `float` field holds.
    fn repeated_f32_len(self) -> (r: Result<usize, ModelError>)
        ensures
            match field_repeated_f32_len(self.value.wire()) {
                Ok(n) => r == Ok::<usize, ModelError>(n as usize) && n <= usize::MAX,
                Err(k) => r == Err::<usize, ModelError>(onnx_error(k)),
            },
    {
        match self.value {
            FieldValue::Fixed32(_) => Ok(1),
            FieldValue::Bytes(bytes) => {
                if bytes.len() % 4 != 0 {
                    return Err(invalid(Format::Onnx, ErrorKind::InvalidValue));
                }
                Ok(bytes.len() / 4)
            },
            _ => Err(invalid(Format::Onnx, ErrorKind::WrongWireType)),
        }
    }

    /// The field's varint.
    pub fn varint(self) -> (r: Result<u64, ModelError>)
        ensures
            agrees(r, field_varint(self.value.wire())),
    {
        match self.value {
            FieldValue::Varint(value) => Ok(value),
            _ => Err(invalid(Format::Onnx, ErrorKind::WrongWireType)),
        }
    }
}

/// Reads the fields of a protobuf message one after another.
pub struct PbReader<'a> {
    data: &'a [u8],
    position: usize,
}

impl<'a> PbReader<'a> {
    #[verifier::type_invariant]
    spec fn inv(self) -> bool {
        self.position <= self.data@.len()
    }

    /// The message being read.
    pub closed spec fn data(self) -> Seq<u8> {
        self.data@
    }

    /// The position of the next byte to read.
    pub closed spec fn pos(self) -> int {
        self.position as int
    }

    /// A reader at the start of `data`.
    pub fn new(data: &'a [u8]) -> (r: Self)
        ensures
            r.data() == data@,
            r.pos() == 0,
            r.data().len() <= usize::MAX,
    {
        let n = data.len();
        assert(data@.len() == n);
        Self { data, position: 0 }
    }

    /// The length of the message, which fits in `usize`; the position lies
    /// within it.
    pub fn len(&self) -> (r: usize)
        ensures
            r == self.data().len(),
            0 <= self.pos() <= self.data().len(),
    {
        proof {
            use_type_invariant(self);
        }
        self.data.len()
    }

    /// Reads the next field, or `None` at the end of the message.
    pub fn next_field(&mut self) -> (r: Result<Option<Field<'a>>, ModelError>)
        ensures
            final(self).data() == old(self).data(),
            0 <= final(self).pos() <= final(self).data().len(),
            match spec_next_field(old(self).data(), old(self).pos()) {
                Ok(None) => r matches Ok(None) && final(self).pos() == old(self).pos(),
                Ok(Some((n, v, p))) => r matches Ok(Some(f)) && f.number == n && f.value.wire()
                    == v && final(self).pos() == p && old(self).pos() < p,
                Err(k) => r matches Err(e) && e == onnx_error(k),
            },
    {
        proof {
            use_type_invariant(&*self);
            lemma_next_field_advances(self.data@, self.position as int);
        }
        if self.position == self.data.len() {
            return Ok(None);
        }
        let key = self.varint()?;
        let number = (key >> 3) as u32;
        let wire_type = (key & 0x07) as u8;
        if number == 0 {
            return Err(invalid(Format::Onnx, ErrorKind::FieldZero));
        }
        proof {
            assert(wire_type == key & 7) by (bit_vector)
                requires
                    wire_type == (key & 0x07) as u8,
            ;
        }
        let value = match wire_type {
            0 => FieldValue::Varint(self.varint()?),
            1 => {
                self.take(8)?;
                FieldValue::Fixed64(())
            },
            2 => {
                let len = self.varint()? as usize;
                FieldValue::Bytes(self.take(len)?)
            },
            5 => {
                let start = self.position;
                let bytes = self.take(4)?;
                proof {
                    assert(bytes@ == self.data@.subrange(start as int, start + 4));
                }
                FieldValue::Fixed32(read_u32(bytes, 0))
            },
            _ => {
                return Err(invalid(Format::Onnx, ErrorKind::UnsupportedWireType));
            },
        };
        Ok(Some(Field { number, value }))
    }

    /// Reads a varint.
    pub fn varint(&mut self) -> (r: Result<u64, ModelError>)
        ensures
            final(self).data() == old(self).data(),
            0 <= final(self).pos() <= final(self).data().len(),
            match spec_varint(old(self).data(), old(self).pos()) {
                Ok((v, p)) => r == Ok::<u64, ModelError>(v) && final(self).pos() == p,
                Err(k) => r == Err::<u64, ModelError>(onnx_error(k)) && final(self).pos()
                    == varint_error_stop(old(self).data(), old(self).pos()),
            },
    {
        proof {
            use_type_invariant(&*self);
        }
        let ghost start = self.position as int;
        let mut result: u64 = 0;
        let mut k: u64 = 0;
        while k < 10
            invariant
                self.data@ == old(self).data@,
                start == old(self).position,
                self.position == start + k,
                self.position <= self.data@.len(),
                k <= 10,
                varint_from(self.data@, start, k as nat, result) == spec_varint(
                    self.data@,
                    start,
                ),
            decreases 10 - k,
        {
            proof {
                use_type_invariant(&*self);
            }
            if self.position >= self.data.len() {
                return Err(invalid(Format::Onnx, ErrorKind::Truncated));
            }
            let byte = self.data[self.position];
            self.position = self.position + 1;
            proof {
                assert(varint_part(byte, k as nat) == ((byte & 0x7f) as u64) << (7 * k));
            }
            result = result | (((byte & 0x7f) as u64) << (7 * k));
            if byte & 0x80 == 0 {
                return Ok(result);
            }
            k = k + 1;
        }
        Err(invalid(Format::Onnx, ErrorKind::VarintTooLong))
    }

    /// Takes the next `len` bytes.
    pub fn take(&mut self, len: usize) -> (r: Result<&'a [u8], ModelError>)
        ensures
            final(self).data() == old(self).data(),
            0 <= final(self).pos() <= final(self).data().len(),
            match spec_take(old(self).data(), old(self).pos(), len as int) {
                Ok(end) => r matches Ok(b) && b@ == old(self).data().subrange(
                    old(self).pos(),
                    end,
                ) && final(self).pos() == end,
                Err(k) => r == Err::<&'a [u8], ModelError>(onnx_error(k)) && final(self).pos()
                    == old(self).pos(),
            },
    {
        proof {
            use_type_invariant(&*self);
        }
        let end = match self.position.checked_add(len) {
            Some(end) => end,
            None => return Err(invalid(Format::Onnx, ErrorKind::Overflow)),
        };
        if end > self.data.len() {
            return Err(invalid(Format::Onnx, ErrorKind::Truncated));
        }
        let value = slice_range(self.data, self.position, end);
        self.position = end;
        Ok(value)
    }
}

/// `data[start..end]`.
pub fn slice_range<'b>(data: &'b [u8], start: usize, end: usize) -> (r: &'b [u8])
    requires
        start <= end <= data@.len(),
    ensures
        r@ == data@.subrange(start as int, end as int),
{
    vstd::slice::slice_subrange(data, start, end)
}

/// Reads the varints of a packed repeated field.
pub struct ScalarReader<'a> {
    data: &'a [u8],
    position: usize,
}

impl<'a> ScalarReader<'a> {
    #[verifier::type_invariant]
    spec fn inv(self) -> bool {
        self.position <= self.data@.len()
    }

    /// The bytes being read.
    pub closed spec fn data(self) -> Seq<u8> {
        self.data@
    }

    /// The position of the next byte to read.
    pub closed spec fn pos(self) -> int {
        self.position as int
    }

    /// A reader at the start of `data`.
    pub fn new(data: &'a [u8]) -> (r: Self)
        ensures
            r.data() == data@,
            r.pos() == 0,
    {
        Self { data, position: 0 }
    }

    /// Whether every byte has been read.
    pub fn is_empty(&self) -> (r: bool)
        ensures
            r == (self.pos() == self.data().len()),
            0 <= self.pos() <= self.data().len(),
    {
        proof {
            use_type_invariant(self);
        }
        self.position == self.data.len()
    }

    /// Reads a varint.
    pub fn varint(&mut self) -> (r: Result<u64, ModelError>)
        ensures
            final(self).data() == old(self).data(),
            0 <= final(self).pos() <= final(self).data().len(),
            match spec_varint(old(self).data(), old(self).pos()) {
                Ok((v, p)) => r == Ok::<u64, ModelError>(v) && final(self).pos() == p,
                Err(k) => r == Err::<u64, ModelError>(onnx_error(k)) && final(self).pos()
                    == varint_error_stop(old(self).data(), old(self).pos()),
            },
    {
        proof {
            use_type_invariant(&*self);
        }
        let ghost start = self.position as int;
        let mut result: u64 = 0;
        let mut k: u64 = 0;
        while k < 10
            invariant
                self.data@ == old(self).data@,
                start == old(self).position,
                self.position == start + k,
                self.position <= self.data@.len(),
                k <= 10,
                varint_from(self.data@, start, k as nat, result) == spec_varint(
                    self.data@,
                    start,
                ),
            decreases 10 - k,
        {
            proof {
                use_type_invariant(&*self);
            }
            if self.position >= self.data.len() {
                return Err(invalid(Format::Onnx, ErrorKind::Truncated));
            }
            let byte = self.data[self.position];
            self.position = self.position + 1;
            result = result | (((byte & 0x7f) as u64) << (7 * k));
            if byte & 0x80 == 0 {
                return Ok(result);
            }
            k = k + 1;
        }
        Err(invalid(Format::Onnx, ErrorKind::VarintTooLong))
    }
}


/// Whether a node's metadata names its inputs with anything but `[]`.
pub open spec fn names_inputs(props: crate::strmap::Entries) -> bool {
    crate::strmap::has_key(props, "input_names"@) && crate::strmap::entries_map(props)["input_names"@]
        != "[]"@
}

/// A node's metadata without `input_names`, unless that names no input (`[]`).
pub fn node_metadata_props(metadata_props: StringMap) -> (r: StringMap)
    ensures
        names_inputs(metadata_props@) ==> r@ == crate::strmap::assoc_remove(
            metadata_props@,
            "input_names"@,
        ),
        !names_inputs(metadata_props@) ==> r@ == metadata_props@,
{
    let mut metadata_props = metadata_props;
    let remove = match metadata_props.get("input_names") {
        Some(value) => !crate::text::str_eq(value.as_str(), "[]"),
        None => false,
    };
    if remove {
        metadata_props.remove("input_names");
    }
    metadata_props
}

} // verus!
