//! The ONNX protobuf messages that the reader decodes.
use vstd::prelude::*;
use crate::error::{ErrorKind, Format, ModelError, invalid};
use crate::onnx::{
    PbReader, WireValue, field_bytes, field_int32, field_int64, field_repeated_f32_len,
    field_repeated_i64, field_repeated_varint_len, field_repeated_f64_len, field_string,
    fold_fields, lemma_next_field_advances, onnx_error, packed_varints,
};
use crate::strmap::{Entries, StringMap, assoc_insert};

verus! {

/// The decoded value `r` agrees with the spec result `s`: the same value when
/// `s` succeeds, the same error kind when it fails.
pub open spec fn decoded<T: View>(r: Result<T, ModelError>, s: Result<T::V, ErrorKind>) -> bool {
    match s {
        Ok(v) => r matches Ok(x) && x@ == v,
        Err(k) => r matches Err(e) && e == onnx_error(k),
    }
}

/// The characters of an optional string.
pub open spec fn opt_str(s: Option<String>) -> Option<Seq<char>> {
    match s {
        Some(x) => Some(x@),
        None => None,
    }
}

/// The value of an optional string, or the empty string.
pub open spec fn str_or_empty(s: Option<Seq<char>>) -> Seq<char> {
    match s {
        Some(x) => x,
        None => Seq::empty(),
    }
}

/// Takes an optional string, or the empty string.
fn string_or_default(s: Option<String>) -> (r: String)
    ensures
        r@ == str_or_empty(opt_str(s)),
{
    match s {
        Some(x) => x,
        None => String::new(),
    }
}

/// `m` with the entry decoded from `e` added, when it has a key.
pub open spec fn insert_entry(m: Entries, e: StringStringEntryView) -> Entries {
    match e.key {
        Some(k) => assoc_insert(m, k, str_or_empty(e.value)),
        None => m,
    }
}

pub fn insert_entry_exec(m: &mut StringMap, e: StringStringEntryProto)
    ensures
        final(m)@ == insert_entry(old(m)@, e@),
{
    if let Some(key) = e.key {
        m.insert(key, string_or_default(e.value));
    }
}

// ---------------------------------------------------------------------------
// StringStringEntryProto

/// A key and a value, both optional.
pub struct StringStringEntryProto {
    pub key: Option<String>,
    pub value: Option<String>,
}

pub struct StringStringEntryView {
    pub key: Option<Seq<char>>,
    pub value: Option<Seq<char>>,
}

impl View for StringStringEntryProto {
    type V = StringStringEntryView;

    open spec fn view(&self) -> StringStringEntryView {
        StringStringEntryView { key: opt_str(self.key), value: opt_str(self.value) }
    }
}

/// Field 1 is the key, field 2 the value; both are strings.
pub open spec fn entry_step(a: StringStringEntryView, n: u32, v: WireValue) -> Result<
    StringStringEntryView,
    ErrorKind,
> {
    if n == 1 {
        match field_string(v) {
            Ok(s) => Ok(StringStringEntryView { key: Some(s), value: a.value }),
            Err(e) => Err(e),
        }
    } else if n == 2 {
        match field_string(v) {
            Ok(s) => Ok(StringStringEntryView { key: a.key, value: Some(s) }),
            Err(e) => Err(e),
        }
    } else {
        Ok(a)
    }
}

pub open spec fn entry_stepper() -> spec_fn(StringStringEntryView, u32, WireValue) -> Result<
    StringStringEntryView,
    ErrorKind,
> {
    |a: StringStringEntryView, n: u32, v: WireValue| entry_step(a, n, v)
}

/// The entry that `data` encodes.
pub open spec fn spec_decode_entry(data: Seq<u8>) -> Result<StringStringEntryView, ErrorKind> {
    fold_fields(data, 0, StringStringEntryView { key: None, value: None }, entry_stepper())
}

impl StringStringEntryProto {
    /// Decodes an entry.
    pub fn decode(data: &[u8]) -> (r: Result<Self, ModelError>)
        ensures
            decoded(r, spec_decode_entry(data@)),
    {
        let mut reader = PbReader::new(data);
        let mut entry = Self { key: None, value: None };
        loop
            invariant
                reader.data() == data@,
                0 <= reader.pos() <= data@.len(),
                fold_fields(data@, reader.pos(), entry@, entry_stepper()) == spec_decode_entry(
                    data@,
                ),
            decreases data@.len() - reader.pos(),
        {
            let field = match reader.next_field()? {
                Some(field) => field,
                None => return Ok(entry),
            };
            match field.number {
                1 => entry.key = Some(field.string()?),
                2 => entry.value = Some(field.string()?),
                _ => {},
            }
        }
    }
}

// ---------------------------------------------------------------------------
// OperatorSetIdProto

/// An operator set: its domain and its version.
pub struct OperatorSetIdProto {
    pub domain: Option<String>,
    pub version: Option<i64>,
}

pub struct OperatorSetIdView {
    pub domain: Option<Seq<char>>,
    pub version: Option<i64>,
}

impl View for OperatorSetIdProto {
    type V = OperatorSetIdView;

    open spec fn view(&self) -> OperatorSetIdView {
        OperatorSetIdView { domain: opt_str(self.domain), version: self.version }
    }
}

/// Field 1 is the domain, field 2 the version.
pub open spec fn opset_step(a: OperatorSetIdView, n: u32, v: WireValue) -> Result<
    OperatorSetIdView,
    ErrorKind,
> {
    if n == 1 {
        match field_string(v) {
            Ok(s) => Ok(OperatorSetIdView { domain: Some(s), version: a.version }),
            Err(e) => Err(e),
        }
    } else if n == 2 {
        match field_int64(v) {
            Ok(x) => Ok(OperatorSetIdView { domain: a.domain, version: Some(x) }),
            Err(e) => Err(e),
        }
    } else {
        Ok(a)
    }
}

pub open spec fn opset_stepper() -> spec_fn(OperatorSetIdView, u32, WireValue) -> Result<
    OperatorSetIdView,
    ErrorKind,
> {
    |a: OperatorSetIdView, n: u32, v: WireValue| opset_step(a, n, v)
}

/// The operator set that `data` encodes.
pub open spec fn spec_decode_opset(data: Seq<u8>) -> Result<OperatorSetIdView, ErrorKind> {
    fold_fields(data, 0, OperatorSetIdView { domain: None, version: None }, opset_stepper())
}

impl OperatorSetIdProto {
    /// Decodes an operator set id.
    pub fn decode(data: &[u8]) -> (r: Result<Self, ModelError>)
        ensures
            decoded(r, spec_decode_opset(data@)),
    {
        let mut reader = PbReader::new(data);
        let mut opset = Self { domain: None, version: None };
        loop
            invariant
                reader.data() == data@,
                0 <= reader.pos() <= data@.len(),
                fold_fields(data@, reader.pos(), opset@, opset_stepper()) == spec_decode_opset(
                    data@,
                ),
            decreases data@.len() - reader.pos(),
        {
            let field = match reader.next_field()? {
                Some(field) => field,
                None => return Ok(opset),
            };
            match field.number {
                1 => opset.domain = Some(field.string()?),
                2 => opset.version = Some(field.int64()?),
                _ => {},
            }
        }
    }
}

// ---------------------------------------------------------------------------
// ShapeDimension

/// The value of a dimension: a number, a symbol, or nothing.
pub enum ShapeDimensionValue {
    Known(i64),
    Symbolic(String),
    Unknown,
}

pub enum ShapeDimensionValueView {
    Known(i64),
    Symbolic(Seq<char>),
    Unknown,
}

/// A dimension of a tensor shape.
pub struct ShapeDimension {
    pub value: ShapeDimensionValue,
    pub denotation: Option<String>,
}

pub struct ShapeDimensionView {
    pub value: ShapeDimensionValueView,
    pub denotation: Option<Seq<char>>,
}

impl View for ShapeDimension {
    type V = ShapeDimensionView;

    open spec fn view(&self) -> ShapeDimensionView {
        ShapeDimensionView {
            value: match self.value {
                ShapeDimensionValue::Known(x) => ShapeDimensionValueView::Known(x),
                ShapeDimensionValue::Symbolic(x) => ShapeDimensionValueView::Symbolic(x@),
                ShapeDimensionValue::Unknown => ShapeDimensionValueView::Unknown,
            },
            denotation: opt_str(self.denotation),
        }
    }
}

/// Field 1 is a known size, field 2 a symbol, field 3 the denotation; a later
/// size or symbol replaces an earlier one.
pub open spec fn dimension_step(a: ShapeDimensionView, n: u32, v: WireValue) -> Result<
    ShapeDimensionView,
    ErrorKind,
> {
    if n == 1 {
        match field_int64(v) {
            Ok(x) => Ok(
                ShapeDimensionView {
                    value: ShapeDimensionValueView::Known(x),
                    denotation: a.denotation,
                },
            ),
            Err(e) => Err(e),
        }
    } else if n == 2 {
        match field_string(v) {
            Ok(x) => Ok(
                ShapeDimensionView {
                    value: ShapeDimensionValueView::Symbolic(x),
                    denotation: a.denotation,
                },
            ),
            Err(e) => Err(e),
        }
    } else if n == 3 {
        match field_string(v) {
            Ok(x) => Ok(ShapeDimensionView { value: a.value, denotation: Some(x) }),
            Err(e) => Err(e),
        }
    } else {
        Ok(a)
    }
}

pub open spec fn dimension_stepper() -> spec_fn(ShapeDimensionView, u32, WireValue) -> Result<
    ShapeDimensionView,
    ErrorKind,
> {
    |a: ShapeDimensionView, n: u32, v: WireValue| dimension_step(a, n, v)
}

/// The dimension that `data` encodes; an unknown one without a denotation when
/// no field says otherwise.
pub open spec fn spec_decode_dimension(data: Seq<u8>) -> Result<ShapeDimensionView, ErrorKind> {
    fold_fields(
        data,
        0,
        ShapeDimensionView { value: ShapeDimensionValueView::Unknown, denotation: None },
        dimension_stepper(),
    )
}

impl ShapeDimension {
    /// Decodes a dimension.
    pub fn decode(data: &[u8]) -> (r: Result<Self, ModelError>)
        ensures
            decoded(r, spec_decode_dimension(data@)),
    {
        let mut reader = PbReader::new(data);
        let mut dimension = Self { value: ShapeDimensionValue::Unknown, denotation: None };
        loop
            invariant
                reader.data() == data@,
                0 <= reader.pos() <= data@.len(),
                fold_fields(data@, reader.pos(), dimension@, dimension_stepper())
                    == spec_decode_dimension(data@),
            decreases data@.len() - reader.pos(),
        {
            let field = match reader.next_field()? {
                Some(field) => field,
                None => return Ok(dimension),
            };
            match field.number {
                1 => dimension.value = ShapeDimensionValue::Known(field.int64()?),
                2 => dimension.value = ShapeDimensionValue::Symbolic(field.string()?),
                3 => dimension.denotation = Some(field.string()?),
                _ => {},
            }
        }
    }
}

// ---------------------------------------------------------------------------
// TensorShapeProto

/// The dimensions of a tensor shape.
pub struct TensorShapeProto {
    pub dimensions: Vec<ShapeDimension>,
}

pub struct TensorShapeView {
    pub dimensions: Seq<ShapeDimensionView>,
}

impl View for TensorShapeProto {
    type V = TensorShapeView;

    open spec fn view(&self) -> TensorShapeView {
        TensorShapeView { dimensions: self.dimensions@.map_values(|d: ShapeDimension| d@) }
    }
}

/// Each field 1 adds a dimension.
pub open spec fn shape_step(a: TensorShapeView, n: u32, v: WireValue) -> Result<
    TensorShapeView,
    ErrorKind,
> {
    if n == 1 {
        match field_bytes(v) {
            Ok(b) => match spec_decode_dimension(b) {
                Ok(d) => Ok(TensorShapeView { dimensions: a.dimensions.push(d) }),
                Err(e) => Err(e),
            },
            Err(e) => Err(e),
        }
    } else {
        Ok(a)
    }
}

pub open spec fn shape_stepper() -> spec_fn(TensorShapeView, u32, WireValue) -> Result<
    TensorShapeView,
    ErrorKind,
> {
    |a: TensorShapeView, n: u32, v: WireValue| shape_step(a, n, v)
}

/// The shape that `data` encodes.
pub open spec fn spec_decode_shape(data: Seq<u8>) -> Result<TensorShapeView, ErrorKind> {
    fold_fields(data, 0, TensorShapeView { dimensions: Seq::empty() }, shape_stepper())
}

impl TensorShapeProto {
    /// Decodes a tensor shape.
    pub fn decode(data: &[u8]) -> (r: Result<Self, ModelError>)
        ensures
            decoded(r, spec_decode_shape(data@)),
    {
        let mut reader = PbReader::new(data);
        let mut value = Self { dimensions: Vec::new() };
        proof {
            assert(value@.dimensions =~= Seq::<ShapeDimensionView>::empty());
        }
        loop
            invariant
                reader.data() == data@,
                0 <= reader.pos() <= data@.len(),
                fold_fields(data@, reader.pos(), value@, shape_stepper()) == spec_decode_shape(
                    data@,
                ),
            decreases data@.len() - reader.pos(),
        {
            let field = match reader.next_field()? {
                Some(field) => field,
                None => return Ok(value),
            };
            if field.number == 1 {
                let dimension = ShapeDimension::decode(field.bytes()?)?;
                let ghost before = value@;
                value.dimensions.push(dimension);
                proof {
                    assert(value@.dimensions =~= before.dimensions.push(dimension@));
                }
            }
        }
    }
}

// ---------------------------------------------------------------------------
// TensorTypeProto

/// The element type and the shape of a tensor type.
pub struct TensorTypeProto {
    pub elem_type: Option<i32>,
    pub shape: Vec<ShapeDimension>,
}

pub struct TensorTypeView {
    pub elem_type: Option<i32>,
    pub shape: Seq<ShapeDimensionView>,
}

impl View for TensorTypeProto {
    type V = TensorTypeView;

    open spec fn view(&self) -> TensorTypeView {
        TensorTypeView {
            elem_type: self.elem_type,
            shape: self.shape@.map_values(|d: ShapeDimension| d@),
        }
    }
}

/// Field 1 is the element type; field 2 a shape, which replaces an earlier one.
pub open spec fn tensor_type_step(a: TensorTypeView, n: u32, v: WireValue) -> Result<
    TensorTypeView,
    ErrorKind,
> {
    if n == 1 {
        match field_int32(v) {
            Ok(x) => Ok(TensorTypeView { elem_type: Some(x), shape: a.shape }),
            Err(e) => Err(e),
        }
    } else if n == 2 {
        match field_bytes(v) {
            Ok(b) => match spec_decode_shape(b) {
                Ok(s) => Ok(TensorTypeView { elem_type: a.elem_type, shape: s.dimensions }),
                Err(e) => Err(e),
            },
            Err(e) => Err(e),
        }
    } else {
        Ok(a)
    }
}

pub open spec fn tensor_type_stepper() -> spec_fn(TensorTypeView, u32, WireValue) -> Result<
    TensorTypeView,
    ErrorKind,
> {
    |a: TensorTypeView, n: u32, v: WireValue| tensor_type_step(a, n, v)
}

/// The tensor type that `data` encodes.
pub open spec fn spec_decode_tensor_type(data: Seq<u8>) -> Result<TensorTypeView, ErrorKind> {
    fold_fields(
        data,
        0,
        TensorTypeView { elem_type: None, shape: Seq::empty() },
        tensor_type_stepper(),
    )
}

impl TensorTypeProto {
    /// Decodes a tensor type.
    pub fn decode(data: &[u8]) -> (r: Result<Self, ModelError>)
        ensures
            decoded(r, spec_decode_tensor_type(data@)),
    {
        let mut reader = PbReader::new(data);
        let mut value = Self { elem_type: None, shape: Vec::new() };
        proof {
            assert(value@.shape =~= Seq::<ShapeDimensionView>::empty());
        }
        loop
            invariant
                reader.data() == data@,
                0 <= reader.pos() <= data@.len(),
                fold_fields(data@, reader.pos(), value@, tensor_type_stepper())
                    == spec_decode_tensor_type(data@),
            decreases data@.len() - reader.pos(),
        {
            let field = match reader.next_field()? {
                Some(field) => field,
                None => return Ok(value),
            };
            match field.number {
                1 => value.elem_type = Some(field.int32()?),
                2 => value.shape = TensorShapeProto::decode(field.bytes()?)?.dimensions,
                _ => {},
            }
        }
    }
}

// ---------------------------------------------------------------------------
// TypeProto

/// A value type: a tensor, a sparse tensor, or another kind that is only noted.
pub struct TypeProto {
    pub tensor: Option<TensorTypeProto>,
    pub sparse_tensor: Option<TensorTypeProto>,
    pub denotation: Option<String>,
    pub has_non_tensor: bool,
}

pub struct TypeView {
    pub tensor: Option<TensorTypeView>,
    pub sparse_tensor: Option<TensorTypeView>,
    pub denotation: Option<Seq<char>>,
    pub has_non_tensor: bool,
}

pub open spec fn opt_tensor_type(t: Option<TensorTypeProto>) -> Option<TensorTypeView> {
    match t {
        Some(x) => Some(x@),
        None => None,
    }
}

impl View for TypeProto {
    type V = TypeView;

    open spec fn view(&self) -> TypeView {
        TypeView {
            tensor: opt_tensor_type(self.tensor),
            sparse_tensor: opt_tensor_type(self.sparse_tensor),
            denotation: opt_str(self.denotation),
            has_non_tensor: self.has_non_tensor,
        }
    }
}

/// Field 1 is a tensor type, field 8 a sparse tensor type, field 6 the
/// denotation; fields 4, 5, 7 and 9 (sequence, map, optional, opaque) only
/// mark that the type is not a tensor.
pub open spec fn type_step(a: TypeView, n: u32, v: WireValue) -> Result<TypeView, ErrorKind> {
    if n == 1 {
        match field_bytes(v) {
            Ok(b) => match spec_decode_tensor_type(b) {
                Ok(t) => Ok(TypeView { tensor: Some(t), ..a }),
                Err(e) => Err(e),
            },
            Err(e) => Err(e),
        }
    } else if n == 4 || n == 5 || n == 7 || n == 9 {
        match field_bytes(v) {
            Ok(_) => Ok(TypeView { has_non_tensor: true, ..a }),
            Err(e) => Err(e),
        }
    } else if n == 6 {
        match field_string(v) {
            Ok(s) => Ok(TypeView { denotation: Some(s), ..a }),
            Err(e) => Err(e),
        }
    } else if n == 8 {
        match field_bytes(v) {
            Ok(b) => match spec_decode_tensor_type(b) {
                Ok(t) => Ok(TypeView { sparse_tensor: Some(t), ..a }),
                Err(e) => Err(e),
            },
            Err(e) => Err(e),
        }
    } else {
        Ok(a)
    }
}

pub open spec fn type_stepper() -> spec_fn(TypeView, u32, WireValue) -> Result<
    TypeView,
    ErrorKind,
> {
    |a: TypeView, n: u32, v: WireValue| type_step(a, n, v)
}

/// The type that `data` encodes.
pub open spec fn spec_decode_type(data: Seq<u8>) -> Result<TypeView, ErrorKind> {
    fold_fields(
        data,
        0,
        TypeView { tensor: None, sparse_tensor: None, denotation: None, has_non_tensor: false },
        type_stepper(),
    )
}

impl TypeProto {
    /// Decodes a type.
    pub fn decode(data: &[u8]) -> (r: Result<Self, ModelError>)
        ensures
            decoded(r, spec_decode_type(data@)),
    {
        let mut reader = PbReader::new(data);
        let mut value = Self {
            tensor: None,
            sparse_tensor: None,
            denotation: None,
            has_non_tensor: false,
        };
        loop
            invariant
                reader.data() == data@,
                0 <= reader.pos() <= data@.len(),
                fold_fields(data@, reader.pos(), value@, type_stepper()) == spec_decode_type(
                    data@,
                ),
            decreases data@.len() - reader.pos(),
        {
            let field = match reader.next_field()? {
                Some(field) => field,
                None => return Ok(value),
            };
            match field.number {
                1 => value.tensor = Some(TensorTypeProto::decode(field.bytes()?)?),
                4 | 5 | 7 | 9 => {
                    field.bytes()?;
                    value.has_non_tensor = true;
                },
                6 => value.denotation = Some(field.string()?),
                8 => value.sparse_tensor = Some(TensorTypeProto::decode(field.bytes()?)?),
                _ => {},
            }
        }
    }
}

// ---------------------------------------------------------------------------
// ValueInfoProto

/// A named value with its type.
pub struct ValueInfoProto {
    pub name: String,
    pub value_type: Option<TypeProto>,
    pub doc_string: Option<String>,
    pub metadata_props: StringMap,
}

pub struct ValueInfoView {
    pub name: Seq<char>,
    pub value_type: Option<TypeView>,
    pub doc_string: Option<Seq<char>>,
    pub metadata_props: Entries,
}

impl View for ValueInfoProto {
    type V = ValueInfoView;

    open spec fn view(&self) -> ValueInfoView {
        ValueInfoView {
            name: self.name@,
            value_type: match self.value_type {
                Some(t) => Some(t@),
                None => None,
            },
            doc_string: opt_str(self.doc_string),
            metadata_props: self.metadata_props@,
        }
    }
}

/// Field 1 is the name, 2 the type, 3 the documentation, 4 a metadata entry.
pub open spec fn value_info_step(a: ValueInfoView, n: u32, v: WireValue) -> Result<
    ValueInfoView,
    ErrorKind,
> {
    if n == 1 {
        match field_string(v) {
            Ok(s) => Ok(ValueInfoView { name: s, ..a }),
            Err(e) => Err(e),
        }
    } else if n == 2 {
        match field_bytes(v) {
            Ok(b) => match spec_decode_type(b) {
                Ok(t) => Ok(ValueInfoView { value_type: Some(t), ..a }),
                Err(e) => Err(e),
            },
            Err(e) => Err(e),
        }
    } else if n == 3 {
        match field_string(v) {
            Ok(s) => Ok(ValueInfoView { doc_string: Some(s), ..a }),
            Err(e) => Err(e),
        }
    } else if n == 4 {
        match field_bytes(v) {
            Ok(b) => match spec_decode_entry(b) {
                Ok(e) => Ok(
                    ValueInfoView { metadata_props: insert_entry(a.metadata_props, e), ..a },
                ),
                Err(e) => Err(e),
            },
            Err(e) => Err(e),
        }
    } else {
        Ok(a)
    }
}

pub open spec fn value_info_stepper() -> spec_fn(ValueInfoView, u32, WireValue) -> Result<
    ValueInfoView,
    ErrorKind,
> {
    |a: ValueInfoView, n: u32, v: WireValue| value_info_step(a, n, v)
}

/// The value info that `data` encodes.
pub open spec fn spec_decode_value_info(data: Seq<u8>) -> Result<ValueInfoView, ErrorKind> {
    fold_fields(
        data,
        0,
        ValueInfoView {
            name: Seq::empty(),
            value_type: None,
            doc_string: None,
            metadata_props: Seq::empty(),
        },
        value_info_stepper(),
    )
}

impl ValueInfoProto {
    /// Decodes a value info.
    pub fn decode(data: &[u8]) -> (r: Result<Self, ModelError>)
        ensures
            decoded(r, spec_decode_value_info(data@)),
    {
        let mut reader = PbReader::new(data);
        let mut value = Self {
            name: String::new(),
            value_type: None,
            doc_string: None,
            metadata_props: StringMap::new(),
        };
        loop
            invariant
                reader.data() == data@,
                0 <= reader.pos() <= data@.len(),
                fold_fields(data@, reader.pos(), value@, value_info_stepper())
                    == spec_decode_value_info(data@),
            decreases data@.len() - reader.pos(),
        {
            let field = match reader.next_field()? {
                Some(field) => field,
                None => return Ok(value),
            };
            match field.number {
                1 => value.name = field.string()?,
                2 => value.value_type = Some(TypeProto::decode(field.bytes()?)?),
                3 => value.doc_string = Some(field.string()?),
                4 => {
                    let entry = StringStringEntryProto::decode(field.bytes()?)?;
                    insert_entry_exec(&mut value.metadata_props, entry);
                },
                _ => {},
            }
        }
    }
}

// ---------------------------------------------------------------------------
// TensorAnnotationProto

/// The quantization parameters of a tensor, by name.
pub struct TensorAnnotationProto {
    pub tensor_name: String,
    pub parameters: Vec<(String, String)>,
}

pub struct TensorAnnotationView {
    pub tensor_name: Seq<char>,
    pub parameters: Seq<(Seq<char>, Seq<char>)>,
}

impl View for TensorAnnotationProto {
    type V = TensorAnnotationView;

    open spec fn view(&self) -> TensorAnnotationView {
        TensorAnnotationView {
            tensor_name: self.tensor_name@,
            parameters: self.parameters@.map_values(|p: (String, String)| (p.0@, p.1@)),
        }
    }
}

/// Field 1 is the tensor name; each field 2 adds a parameter, whose missing
/// key or value is the empty string.
pub open spec fn annotation_step(a: TensorAnnotationView, n: u32, v: WireValue) -> Result<
    TensorAnnotationView,
    ErrorKind,
> {
    if n == 1 {
        match field_string(v) {
            Ok(s) => Ok(TensorAnnotationView { tensor_name: s, parameters: a.parameters }),
            Err(e) => Err(e),
        }
    } else if n == 2 {
        match field_bytes(v) {
            Ok(b) => match spec_decode_entry(b) {
                Ok(e) => Ok(
                    TensorAnnotationView {
                        tensor_name: a.tensor_name,
                        parameters: a.parameters.push((str_or_empty(e.key), str_or_empty(e.value))),
                    },
                ),
                Err(e) => Err(e),
            },
            Err(e) => Err(e),
        }
    } else {
        Ok(a)
    }
}

pub open spec fn annotation_stepper() -> spec_fn(TensorAnnotationView, u32, WireValue) -> Result<
    TensorAnnotationView,
    ErrorKind,
> {
    |a: TensorAnnotationView, n: u32, v: WireValue| annotation_step(a, n, v)
}

/// The annotation that `data` encodes.
pub open spec fn spec_decode_annotation(data: Seq<u8>) -> Result<TensorAnnotationView, ErrorKind> {
    fold_fields(
        data,
        0,
        TensorAnnotationView { tensor_name: Seq::empty(), parameters: Seq::empty() },
        annotation_stepper(),
    )
}

impl TensorAnnotationProto {
    /// Decodes a tensor annotation.
    pub fn decode(data: &[u8]) -> (r: Result<Self, ModelError>)
        ensures
            decoded(r, spec_decode_annotation(data@)),
    {
        let mut reader = PbReader::new(data);
        let mut annotation = Self { tensor_name: String::new(), parameters: Vec::new() };
        proof {
            assert(annotation@.parameters =~= Seq::<(Seq<char>, Seq<char>)>::empty());
        }
        loop
            invariant
                reader.data() == data@,
                0 <= reader.pos() <= data@.len(),
                fold_fields(data@, reader.pos(), annotation@, annotation_stepper())
                    == spec_decode_annotation(data@),
            decreases data@.len() - reader.pos(),
        {
            let field = match reader.next_field()? {
                Some(field) => field,
                None => return Ok(annotation),
            };
            match field.number {
                1 => annotation.tensor_name = field.string()?,
                2 => {
                    let entry = StringStringEntryProto::decode(field.bytes()?)?;
                    let ghost before = annotation@;
                    let ghost e = entry@;
                    let key = string_or_default(entry.key);
                    let value = string_or_default(entry.value);
                    annotation.parameters.push((key, value));
                    proof {
                        assert(annotation@.parameters =~= before.parameters.push(
                            (str_or_empty(e.key), str_or_empty(e.value)),
                        ));
                    }
                },
                _ => {},
            }
        }
    }
}

// ---------------------------------------------------------------------------
// TensorProto

/// What the reader keeps of a tensor: its dimensions, element type, names,
/// how many bytes of raw data and how many typed values it holds, and its
/// external data and metadata entries.
pub struct TensorProto {
    pub dims: Vec<i64>,
    pub data_type: Option<i32>,
    pub name: Option<String>,
    pub doc_string: Option<String>,
    pub raw_data_len: usize,
    pub value_count: usize,
    pub external_data: StringMap,
    pub metadata_props: StringMap,
}

pub struct TensorView {
    pub dims: Seq<i64>,
    pub data_type: Option<i32>,
    pub name: Option<Seq<char>>,
    pub doc_string: Option<Seq<char>>,
    pub raw_data_len: nat,
    pub value_count: nat,
    pub external_data: Entries,
    pub metadata_props: Entries,
}

impl View for TensorProto {
    type V = TensorView;

    open spec fn view(&self) -> TensorView {
        TensorView {
            dims: self.dims@,
            data_type: self.data_type,
            name: opt_str(self.name),
            doc_string: opt_str(self.doc_string),
            raw_data_len: self.raw_data_len as nat,
            value_count: self.value_count as nat,
            external_data: self.external_data@,
            metadata_props: self.metadata_props@,
        }
    }
}

/// Field 1 adds dimensions; 2 is the element type; 4 (floats), 5, 7, 11
/// (varints), 6 (strings) and 10 (doubles) count typed values; 8 is the name; 9
/// the raw data, of which only the length is kept; 12 the documentation; 13 and
/// 16 add external data and metadata entries.
pub open spec fn tensor_step(a: TensorView, n: u32, v: WireValue) -> Result<TensorView, ErrorKind> {
    if n == 1 {
        match field_repeated_i64(v) {
            Ok(d) => Ok(TensorView { dims: a.dims + d, ..a }),
            Err(e) => Err(e),
        }
    } else if n == 2 {
        match field_int32(v) {
            Ok(x) => Ok(TensorView { data_type: Some(x), ..a }),
            Err(e) => Err(e),
        }
    } else if n == 4 {
        match field_repeated_f32_len(v) {
            Ok(c) => Ok(TensorView { value_count: a.value_count + c, ..a }),
            Err(e) => Err(e),
        }
    } else if n == 5 || n == 7 || n == 11 {
        match field_repeated_varint_len(v) {
            Ok(c) => Ok(TensorView { value_count: a.value_count + c, ..a }),
            Err(e) => Err(e),
        }
    } else if n == 6 {
        Ok(TensorView { value_count: a.value_count + 1, ..a })
    } else if n == 8 {
        match field_string(v) {
            Ok(s) => Ok(TensorView { name: Some(s), ..a }),
            Err(e) => Err(e),
        }
    } else if n == 9 {
        match field_bytes(v) {
            Ok(b) => Ok(TensorView { raw_data_len: b.len(), ..a }),
            Err(e) => Err(e),
        }
    } else if n == 10 {
        match field_repeated_f64_len(v) {
            Ok(c) => Ok(TensorView { value_count: a.value_count + c, ..a }),
            Err(e) => Err(e),
        }
    } else if n == 12 {
        match field_string(v) {
            Ok(s) => Ok(TensorView { doc_string: Some(s), ..a }),
            Err(e) => Err(e),
        }
    } else if n == 13 {
        match field_bytes(v) {
            Ok(b) => match spec_decode_entry(b) {
                Ok(e) => Ok(TensorView { external_data: insert_entry(a.external_data, e), ..a }),
                Err(e) => Err(e),
            },
            Err(e) => Err(e),
        }
    } else if n == 16 {
        match field_bytes(v) {
            Ok(b) => match spec_decode_entry(b) {
                Ok(e) => Ok(TensorView { metadata_props: insert_entry(a.metadata_props, e), ..a }),
                Err(e) => Err(e),
            },
            Err(e) => Err(e),
        }
    } else {
        Ok(a)
    }
}

pub open spec fn tensor_stepper() -> spec_fn(TensorView, u32, WireValue) -> Result<
    TensorView,
    ErrorKind,
> {
    |a: TensorView, n: u32, v: WireValue| tensor_step(a, n, v)
}

/// The empty tensor that decoding starts from.
pub open spec fn empty_tensor() -> TensorView {
    TensorView {
        dims: Seq::empty(),
        data_type: None,
        name: None,
        doc_string: None,
        raw_data_len: 0,
        value_count: 0,
        external_data: Seq::empty(),
        metadata_props: Seq::empty(),
    }
}

/// The tensor that `data` encodes.
pub open spec fn spec_decode_tensor(data: Seq<u8>) -> Result<TensorView, ErrorKind> {
    fold_fields(data, 0, empty_tensor(), tensor_stepper())
}

/// A run of packed varints has no more values than bytes.
proof fn lemma_packed_varints_len(data: Seq<u8>, pos: int)
    requires
        0 <= pos <= data.len(),
    ensures
        packed_varints(data, pos) matches Ok(values) ==> values.len() <= data.len() - pos,
    decreases data.len() - pos,
{
    if pos < data.len() {
        crate::varint::lemma_varint_bounds(data, pos, 0, 0);
        if let Ok((v, p)) = crate::varint::spec_varint(data, pos) {
            lemma_packed_varints_len(data, p);
        }
    }
}

impl TensorProto {
    /// Whether the tensor looks like one: it has an element type and one of
    /// dimensions, a non-empty name, raw data, typed values or external data.
    pub fn is_tensor_like(&self) -> (r: bool)
        ensures
            r == (self.data_type.is_some() && (self@.dims.len() > 0 || (self@.name matches Some(
                n,
            ) && n.len() > 0) || self.raw_data_len > 0 || self.value_count > 0
                || self@.external_data.len() > 0)),
    {
        let named = match &self.name {
            Some(name) => {
                !name.as_str().is_empty()
            },
            None => false,
        };
        assert(named == (self@.name matches Some(n) && n.len() > 0));
        self.data_type.is_some() && (self.dims.len() != 0 || named || self.raw_data_len > 0
            || self.value_count > 0 || !self.external_data.is_empty())
    }

    /// Decodes a tensor.
    pub fn decode(data: &[u8]) -> (r: Result<Self, ModelError>)
        ensures
            decoded(r, spec_decode_tensor(data@)),
    {
        let mut reader = PbReader::new(data);
        let mut tensor = Self {
            dims: Vec::new(),
            data_type: None,
            name: None,
            doc_string: None,
            raw_data_len: 0,
            value_count: 0,
            external_data: StringMap::new(),
            metadata_props: StringMap::new(),
        };
        proof {
            assert(tensor@ =~= empty_tensor());
        }
        loop
            invariant
                reader.data() == data@,
                0 <= reader.pos() <= data@.len(),
                tensor.value_count <= reader.pos(),
                fold_fields(data@, reader.pos(), tensor@, tensor_stepper()) == spec_decode_tensor(
                    data@,
                ),
            decreases data@.len() - reader.pos(),
        {
            let ghost before = reader.pos();
            let field = match reader.next_field()? {
                Some(field) => field,
                None => return Ok(tensor),
            };
            proof {
                lemma_next_field_advances(data@, before);
                if let WireValue::Bytes(b) = field.value.wire() {
                    lemma_packed_varints_len(b, 0);
                }
            }
            let ghost prev = tensor@;
            match field.number {
                1 => {
                    let values = field.repeated_i64()?;
                    let mut i: usize = 0;
                    while i < values.len()
                        invariant
                            0 <= i <= values@.len(),
                            tensor@ == (TensorView { dims: prev.dims + values@.take(i as int), ..prev }),
                        decreases values@.len() - i,
                    {
                        tensor.dims.push(values[i]);
                        i += 1;
                        proof {
                            assert(prev.dims + values@.take(i as int) =~= (prev.dims + values@.take(
                                (i - 1) as int,
                            )).push(values@[i - 1]));
                        }
                    }
                    proof {
                        assert(values@.take(values@.len() as int) =~= values@);
                    }
                },
                2 => tensor.data_type = Some(field.int32()?),
                4 => tensor.value_count = tensor.value_count + field.repeated_f32_len()?,
                5 | 7 | 11 => tensor.value_count = tensor.value_count
                    + field.repeated_varint_len()?,
                6 => tensor.value_count = tensor.value_count + 1,
                8 => tensor.name = Some(field.string()?),
                9 => tensor.raw_data_len = field.bytes()?.len(),
                10 => tensor.value_count = tensor.value_count + field.repeated_f64_len()?,
                12 => tensor.doc_string = Some(field.string()?),
                13 => {
                    let entry = StringStringEntryProto::decode(field.bytes()?)?;
                    insert_entry_exec(&mut tensor.external_data, entry);
                },
                16 => {
                    let entry = StringStringEntryProto::decode(field.bytes()?)?;
                    insert_entry_exec(&mut tensor.metadata_props, entry);
                },
                _ => {},
            }
        }
    }
}

// ---------------------------------------------------------------------------
// SparseTensorProto

/// A sparse tensor: its values, its indices and its dimensions.
pub struct SparseTensorProto {
    pub values: Option<TensorProto>,
    pub indices: Option<TensorProto>,
    pub dims: Vec<i64>,
}

pub struct SparseTensorView {
    pub values: Option<TensorView>,
    pub indices: Option<TensorView>,
    pub dims: Seq<i64>,
}

pub open spec fn opt_tensor(t: Option<TensorProto>) -> Option<TensorView> {
    match t {
        Some(x) => Some(x@),
        None => None,
    }
}

impl View for SparseTensorProto {
    type V = SparseTensorView;

    open spec fn view(&self) -> SparseTensorView {
        SparseTensorView {
            values: opt_tensor(self.values),
            indices: opt_tensor(self.indices),
            dims: self.dims@,
        }
    }
}

/// Field 1 is the values, 2 the indices; field 3 adds dimensions.
pub open spec fn sparse_step(a: SparseTensorView, n: u32, v: WireValue) -> Result<
    SparseTensorView,
    ErrorKind,
> {
    if n == 1 {
        match field_bytes(v) {
            Ok(b) => match spec_decode_tensor(b) {
                Ok(t) => Ok(SparseTensorView { values: Some(t), ..a }),
                Err(e) => Err(e),
            },
            Err(e) => Err(e),
        }
    } else if n == 2 {
        match field_bytes(v) {
            Ok(b) => match spec_decode_tensor(b) {
                Ok(t) => Ok(SparseTensorView { indices: Some(t), ..a }),
                Err(e) => Err(e),
            },
            Err(e) => Err(e),
        }
    } else if n == 3 {
        match field_repeated_i64(v) {
            Ok(d) => Ok(SparseTensorView { dims: a.dims + d, ..a }),
            Err(e) => Err(e),
        }
    } else {
        Ok(a)
    }
}

pub open spec fn sparse_stepper() -> spec_fn(SparseTensorView, u32, WireValue) -> Result<
    SparseTensorView,
    ErrorKind,
> {
    |a: SparseTensorView, n: u32, v: WireValue| sparse_step(a, n, v)
}

/// The sparse tensor that `data` encodes.
pub open spec fn spec_decode_sparse_tensor(data: Seq<u8>) -> Result<SparseTensorView, ErrorKind> {
    fold_fields(
        data,
        0,
        SparseTensorView { values: None, indices: None, dims: Seq::empty() },
        sparse_stepper(),
    )
}

/// Appends `values` to `dims`.
fn extend_i64(dims: &mut Vec<i64>, values: Vec<i64>)
    ensures
        final(dims)@ == old(dims)@ + values@,
{
    let mut i: usize = 0;
    while i < values.len()
        invariant
            0 <= i <= values@.len(),
            dims@ == old(dims)@ + values@.take(i as int),
        decreases values@.len() - i,
    {
        dims.push(values[i]);
        i += 1;
        proof {
            assert(old(dims)@ + values@.take(i as int) =~= (old(dims)@ + values@.take(
                (i - 1) as int,
            )).push(values@[i - 1]));
        }
    }
    proof {
        assert(values@.take(values@.len() as int) =~= values@);
    }
}

impl SparseTensorProto {
    /// Decodes a sparse tensor.
    pub fn decode(data: &[u8]) -> (r: Result<Self, ModelError>)
        ensures
            decoded(r, spec_decode_sparse_tensor(data@)),
    {
        let mut reader = PbReader::new(data);
        let mut tensor = Self { values: None, indices: None, dims: Vec::new() };
        proof {
            assert(tensor@.dims =~= Seq::<i64>::empty());
        }
        loop
            invariant
                reader.data() == data@,
                0 <= reader.pos() <= data@.len(),
                fold_fields(data@, reader.pos(), tensor@, sparse_stepper())
                    == spec_decode_sparse_tensor(data@),
            decreases data@.len() - reader.pos(),
        {
            let field = match reader.next_field()? {
                Some(field) => field,
                None => return Ok(tensor),
            };
            match field.number {
                1 => tensor.values = Some(TensorProto::decode(field.bytes()?)?),
                2 => tensor.indices = Some(TensorProto::decode(field.bytes()?)?),
                3 => extend_i64(&mut tensor.dims, field.repeated_i64()?),
                _ => {},
            }
        }
    }
}

/// Each field of a tensor message is read where onnx.proto's `TensorProto`
/// numbers it, and nothing else changes: 1 adds `dims`, 2 is the
/// `data_type`, 8 the `name`, 9 the `raw_data` (its length kept), 12 the
/// `doc_string`.
pub proof fn lemma_tensor_fields_numbered(a: TensorView, v: WireValue)
    ensures
        field_repeated_i64(v) matches Ok(d) ==> tensor_step(a, 1, v) == Ok::<TensorView, ErrorKind>(
            TensorView { dims: a.dims + d, ..a },
        ),
        field_int32(v) matches Ok(x) ==> tensor_step(a, 2, v) == Ok::<TensorView, ErrorKind>(
            TensorView { data_type: Some(x), ..a },
        ),
        field_string(v) matches Ok(s) ==> tensor_step(a, 8, v) == Ok::<TensorView, ErrorKind>(
            TensorView { name: Some(s), ..a },
        ) && tensor_step(a, 12, v) == Ok::<TensorView, ErrorKind>(TensorView { doc_string: Some(s), ..a }),
        field_bytes(v) matches Ok(b) ==> tensor_step(a, 9, v) == Ok::<TensorView, ErrorKind>(
            TensorView { raw_data_len: b.len(), ..a },
        ),
{
}

/// Each field of a value info is read where onnx.proto's `ValueInfoProto`
/// numbers it: 1 the `name`, 3 the `doc_string`.
pub proof fn lemma_value_info_fields_numbered(a: ValueInfoView, v: WireValue)
    ensures
        field_string(v) matches Ok(s) ==> value_info_step(a, 1, v) == Ok::<ValueInfoView, ErrorKind>(
            ValueInfoView { name: s, ..a },
        ) && value_info_step(a, 3, v) == Ok::<ValueInfoView, ErrorKind>(ValueInfoView { doc_string: Some(s), ..a }),
{
}

/// A string entry's field 1 is its `key` and field 2 its `value`; an
/// operator set's field 1 is its `domain` and field 2 its `version`.
pub proof fn lemma_entry_and_opset_fields_numbered(e: StringStringEntryView, o: OperatorSetIdView, v: WireValue)
    ensures
        field_string(v) matches Ok(s) ==> entry_step(e, 1, v) == Ok::<StringStringEntryView, ErrorKind>(
            StringStringEntryView { key: Some(s), value: e.value },
        ) && entry_step(e, 2, v) == Ok::<StringStringEntryView, ErrorKind>(
            StringStringEntryView { key: e.key, value: Some(s) },
        ) && opset_step(o, 1, v) == Ok::<OperatorSetIdView, ErrorKind>(
            OperatorSetIdView { domain: Some(s), version: o.version },
        ),
        field_int64(v) matches Ok(x) ==> opset_step(o, 2, v) == Ok::<OperatorSetIdView, ErrorKind>(
            OperatorSetIdView { domain: o.domain, version: Some(x) },
        ),
{
}

} // verus!
