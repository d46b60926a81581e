//! The tables of a TensorFlow Lite model that the reader decodes.
use vstd::prelude::*;
use vstd::string::StringExecFns;
use crate::error::{ErrorKind, Format, ModelError, invalid};
use crate::onnx::proto::opt_str;
use crate::onnx::slice_range;
use crate::fmt::{decimal, u64_to_string};
use crate::strmap::{Entries, StringMap, assoc_insert};
use crate::text::{all_ascii, ascii_chars, ascii_string, str_eq};
use crate::tflite::{
    FlatReader, spec_root, spec_string_field, spec_table_vector, spec_u32_field, spec_u64_field,
    spec_byte_field, spec_i32_field, spec_u8_vector_range, spec_union_table, spec_vector, tfl_error,
    tfl_read,
};

verus! {

/// The value of an optional scalar field, or its default.
pub open spec fn or_default<T>(v: Option<T>, default: T) -> T {
    match v {
        Some(x) => x,
        None => default,
    }
}

// ---------------------------------------------------------------------------
// OperatorCode

/// An entry of the model's operator code table.
pub struct OperatorCode {
    pub deprecated_builtin_code: i8,
    pub custom_code: Option<String>,
    pub version: i32,
    pub builtin_code: i32,
}

pub struct OperatorCodeView {
    pub deprecated_builtin_code: i8,
    pub custom_code: Option<Seq<char>>,
    pub version: i32,
    pub builtin_code: i32,
}

impl View for OperatorCode {
    type V = OperatorCodeView;

    open spec fn view(&self) -> OperatorCodeView {
        OperatorCodeView {
            deprecated_builtin_code: self.deprecated_builtin_code,
            custom_code: opt_str(self.custom_code),
            version: self.version,
            builtin_code: self.builtin_code,
        }
    }
}

/// The operator code table at `position`: the deprecated code (slot 4,
/// default 0), the custom code (slot 6), the version (slot 8, default 1) and
/// the code (slot 10, default 0).
pub open spec fn spec_operator_code(data: Seq<u8>, position: int) -> Result<OperatorCodeView, ErrorKind> {
    match spec_string_field(data, position, 6) {
        Err(k) => Err(k),
        Ok(custom_code) => Ok(
            OperatorCodeView {
                deprecated_builtin_code: or_default(
                    match spec_byte_field(data, position, 4) {
                        Some(b) => Some(b as i8),
                        None => None,
                    },
                    0,
                ),
                custom_code,
                version: or_default(spec_i32_field(data, position, 8), 1),
                builtin_code: or_default(spec_i32_field(data, position, 10), 0),
            },
        ),
    }
}

impl OperatorCode {
    /// Reads the operator code table at `position`.
    pub fn read(reader: &FlatReader, position: usize) -> (r: Result<Self, ModelError>)
        ensures
            tfl_read(r, spec_operator_code(reader.data@, position as int)),
    {
        let deprecated_builtin_code = reader.i8_field(position, 4, 0);
        let custom_code = reader.string_field(position, 6)?;
        let version = reader.i32_field(position, 8, 1);
        let builtin_code = reader.i32_field(position, 10, 0);
        Ok(OperatorCode { deprecated_builtin_code, custom_code, version, builtin_code })
    }
}

// ---------------------------------------------------------------------------
// MetadataInfo

/// A named metadata entry and the buffer that holds its value.
pub struct MetadataInfo {
    pub name: Option<String>,
    pub buffer: u32,
}

pub struct MetadataInfoView {
    pub name: Option<Seq<char>>,
    pub buffer: u32,
}

impl View for MetadataInfo {
    type V = MetadataInfoView;

    open spec fn view(&self) -> MetadataInfoView {
        MetadataInfoView { name: opt_str(self.name), buffer: self.buffer }
    }
}

/// The metadata table at `position`: the name (slot 4) and the buffer index
/// (slot 6, default 0).
pub open spec fn spec_metadata_info(data: Seq<u8>, position: int) -> Result<MetadataInfoView, ErrorKind> {
    match spec_string_field(data, position, 4) {
        Err(k) => Err(k),
        Ok(name) => Ok(
            MetadataInfoView { name, buffer: or_default(spec_u32_field(data, position, 6), 0) },
        ),
    }
}

impl MetadataInfo {
    /// Reads the metadata table at `position`.
    pub fn read(reader: &FlatReader, position: usize) -> (r: Result<Self, ModelError>)
        ensures
            tfl_read(r, spec_metadata_info(reader.data@, position as int)),
    {
        let name = reader.string_field(position, 4)?;
        let buffer = reader.u32_field(position, 6, 0);
        Ok(MetadataInfo { name, buffer })
    }
}

// ---------------------------------------------------------------------------
// TensorMapInfo

/// The tensor that a signature's input or output names.
pub struct TensorMapInfo {
    pub tensor_index: u32,
}

/// The tensor index (slot 6, default 0) of the tensor map at `position`.
pub open spec fn spec_tensor_map(data: Seq<u8>, position: int) -> u32 {
    or_default(spec_u32_field(data, position, 6), 0)
}

impl TensorMapInfo {
    /// Reads the tensor map table at `position`; this never fails.
    pub fn read(reader: &FlatReader, position: usize) -> (r: Result<Self, ModelError>)
        ensures
            r matches Ok(m) && m.tensor_index == spec_tensor_map(reader.data@, position as int),
    {
        Ok(TensorMapInfo { tensor_index: reader.u32_field(position, 6, 0) })
    }
}

/// Reads the tensor maps at `positions`.
fn read_tensor_maps(reader: &FlatReader, positions: Vec<usize>) -> (r: Vec<TensorMapInfo>)
    ensures
        r@.len() == positions@.len(),
        forall|i: int|
            0 <= i < positions@.len() ==> #[trigger] r@[i].tensor_index == spec_tensor_map(
                reader.data@,
                positions@[i] as int,
            ),
{
    let mut maps: Vec<TensorMapInfo> = Vec::new();
    let mut i: usize = 0;
    while i < positions.len()
        invariant
            i <= positions@.len(),
            maps@.len() == i,
            forall|j: int|
                0 <= j < i ==> #[trigger] maps@[j].tensor_index == spec_tensor_map(
                    reader.data@,
                    positions@[j] as int,
                ),
        decreases positions@.len() - i,
    {
        let map = match TensorMapInfo::read(reader, positions[i]) {
            Ok(map) => map,
            Err(_) => TensorMapInfo { tensor_index: 0 },
        };
        maps.push(map);
        i = i + 1;
    }
    maps
}

// ---------------------------------------------------------------------------
// SignatureDefInfo

/// A signature: the tensors of its inputs and outputs, and its subgraph.
pub struct SignatureDefInfo {
    pub inputs: Vec<TensorMapInfo>,
    pub outputs: Vec<TensorMapInfo>,
    pub subgraph_index: u32,
}

pub struct SignatureDefView {
    pub inputs: Seq<u32>,
    pub outputs: Seq<u32>,
    pub subgraph_index: u32,
}

impl View for SignatureDefInfo {
    type V = SignatureDefView;

    open spec fn view(&self) -> SignatureDefView {
        SignatureDefView {
            inputs: self.inputs@.map_values(|m: TensorMapInfo| m.tensor_index),
            outputs: self.outputs@.map_values(|m: TensorMapInfo| m.tensor_index),
            subgraph_index: self.subgraph_index,
        }
    }
}

/// The tensor indexes of the tensor maps at `positions`.
pub open spec fn spec_tensor_maps(data: Seq<u8>, positions: Seq<usize>) -> Seq<u32> {
    positions.map_values(|p: usize| spec_tensor_map(data, p as int))
}

/// The signature table at `position`: its inputs (slot 4), its outputs
/// (slot 6) and its subgraph (slot 12, default 0).
pub open spec fn spec_signature_def(data: Seq<u8>, position: int) -> Result<SignatureDefView, ErrorKind> {
    match spec_table_vector(data, position, 4) {
        Err(k) => Err(k),
        Ok(inputs) => match spec_table_vector(data, position, 6) {
            Err(k) => Err(k),
            Ok(outputs) => Ok(
                SignatureDefView {
                    inputs: spec_tensor_maps(data, inputs),
                    outputs: spec_tensor_maps(data, outputs),
                    subgraph_index: or_default(spec_u32_field(data, position, 12), 0),
                },
            ),
        },
    }
}

impl SignatureDefInfo {
    /// Reads the signature table at `position`.
    pub fn read(reader: &FlatReader, position: usize) -> (r: Result<Self, ModelError>)
        ensures
            tfl_read(r, spec_signature_def(reader.data@, position as int)),
    {
        let input_positions = reader.table_vector(position, 4)?;
        let inputs = read_tensor_maps(reader, input_positions);
        let output_positions = reader.table_vector(position, 6)?;
        let outputs = read_tensor_maps(reader, output_positions);
        let subgraph_index = reader.u32_field(position, 12, 0);
        let signature = SignatureDefInfo { inputs, outputs, subgraph_index };
        proof {
            assert(signature@.inputs =~= spec_tensor_maps(reader.data@, input_positions@));
            assert(signature@.outputs =~= spec_tensor_maps(reader.data@, output_positions@));
        }
        Ok(signature)
    }
}

// ---------------------------------------------------------------------------
// BufferInfo

/// Where a buffer's bytes lie in the model data, if anywhere.
pub struct BufferInfo {
    pub byte_len: usize,
    pub data_range: Option<(usize, usize)>,
}

/// `a + b`, or `usize::MAX` when the sum does not fit.
pub open spec fn saturating_sum(a: usize, b: usize) -> int {
    if a + b > usize::MAX {
        usize::MAX as int
    } else {
        a + b
    }
}

/// The bytes of a buffer: held inline in the vector of slot 4, or else at the
/// offset (slot 6) and size (slot 8) given, when both are non-zero and lie
/// inside the data.
pub open spec fn spec_buffer_range(data: Seq<u8>, position: int) -> Result<Option<(usize, usize)>, ErrorKind> {
    match spec_u8_vector_range(data, position, 4) {
        Err(k) => Err(k),
        Ok(Some(range)) => Ok(Some(range)),
        Ok(None) => {
            let offset = or_default(spec_u64_field(data, position, 6), 0) as usize;
            let size = or_default(spec_u64_field(data, position, 8), 0) as usize;
            if offset != 0 && size != 0 && saturating_sum(offset, size) <= data.len() {
                Ok(Some((offset, size)))
            } else {
                Ok(None)
            }
        },
    }
}

impl BufferInfo {
    /// Reads the buffer table at `position`.
    pub fn read(reader: &FlatReader, position: usize) -> (r: Result<Self, ModelError>)
        ensures
            match spec_buffer_range(reader.data@, position as int) {
                Err(k) => r matches Err(e) && e == tfl_error(k),
                Ok(range) => r matches Ok(b) && b.data_range == range && b.byte_len == (match range {
                    Some((_, len)) => len,
                    None => 0,
                }),
            },
    {
        let inline_range = reader.u8_vector_range(position, 4)?;
        let data_range = match inline_range {
            Some(range) => Some(range),
            None => {
                let offset = #[verifier::truncate] (reader.u64_field(position, 6, 0) as usize);
                let size = #[verifier::truncate] (reader.u64_field(position, 8, 0) as usize);
                if offset != 0 && size != 0 && offset.saturating_add(size) <= reader.data.len() {
                    Some((offset, size))
                } else {
                    None
                }
            },
        };
        let byte_len = match data_range {
            Some((_, len)) => len,
            None => 0,
        };
        Ok(BufferInfo { byte_len, data_range })
    }

    /// The buffer's bytes in `data`, when its range lies inside it.
    pub fn bytes<'a>(&self, data: &'a [u8]) -> (r: Option<&'a [u8]>)
        ensures
            match self.data_range {
                Some((start, len)) => if start + len <= data@.len() {
                    r matches Some(b) && b@ == data@.subrange(start as int, start + len)
                } else {
                    r is None
                },
                None => r is None,
            },
    {
        let (start, len) = match self.data_range {
            Some(range) => range,
            None => return None,
        };
        let data_len = data.len();
        match start.checked_add(len) {
            Some(end) => if end <= data_len {
                Some(slice_range(data, start, end))
            } else {
                None
            },
            None => None,
        }
    }
}

// ---------------------------------------------------------------------------
// Tensor metadata

/// The value of a field that reads without error, or `None`.
pub open spec fn ok_or_none<T>(r: Result<Option<T>, ErrorKind>) -> Option<T> {
    match r {
        Ok(v) => v,
        Err(_) => None,
    }
}

/// The name of an image's color space.
pub open spec fn spec_image_denotation(color_space: i8) -> Seq<char> {
    if color_space == 0 {
        "Image(Unknown)"@
    } else if color_space == 1 {
        "Image(RGB)"@
    } else if color_space == 2 {
        "Image(Grayscale)"@
    } else {
        "Image(?)"@
    }
}

/// The content of a tensor, named by the union at slot 4 of the content table
/// at `position`: a feature (1), an image and its color space (2), a bounding
/// box (3), or audio with its sample rate and channel count (4).
pub open spec fn spec_content_denotation(data: Seq<u8>, position: int) -> Option<Seq<char>> {
    match spec_union_table(data, position, 4) {
        Ok(Some((kind, table))) => if kind == 1 {
            Some("Feature"@)
        } else if kind == 2 {
            Some(
                spec_image_denotation(
                    or_default(
                        match spec_byte_field(data, table as int, 4) {
                            Some(b) => Some(b as i8),
                            None => None,
                        },
                        0,
                    ),
                ),
            )
        } else if kind == 3 {
            Some("BoundingBox"@)
        } else if kind == 4 {
            Some(
                "Audio("@ + decimal(or_default(spec_u32_field(data, table as int, 4), 0) as int)
                    + ","@ + decimal(or_default(spec_u32_field(data, table as int, 6), 0) as int)
                    + ")"@,
            )
        } else {
            None
        },
        _ => None,
    }
}

/// Names the content of the tensor whose content table is at `position`.
pub fn read_content_denotation(reader: &FlatReader, position: usize) -> (r: Option<String>)
    ensures
        opt_str(r) == spec_content_denotation(reader.data@, position as int),
{
    let (kind, table) = match reader.union_table_field(position, 4) {
        Ok(Some(found)) => found,
        _ => return None,
    };
    if kind == 1 {
        Some(String::from_str("Feature"))
    } else if kind == 2 {
        let color_space = reader.i8_field(table, 4, 0);
        if color_space == 0 {
            Some(String::from_str("Image(Unknown)"))
        } else if color_space == 1 {
            Some(String::from_str("Image(RGB)"))
        } else if color_space == 2 {
            Some(String::from_str("Image(Grayscale)"))
        } else {
            Some(String::from_str("Image(?)"))
        }
    } else if kind == 3 {
        Some(String::from_str("BoundingBox"))
    } else if kind == 4 {
        let sample_rate = reader.u32_field(table, 4, 0);
        let channels = reader.u32_field(table, 6, 0);
        let mut text = String::from_str("Audio(");
        text.append(u64_to_string(sample_rate as u64).as_str());
        text.append(",");
        text.append(u64_to_string(channels as u64).as_str());
        text.append(")");
        Some(text)
    } else {
        None
    }
}

/// The description and the content of a model input or output.
pub struct TensorMetadataInfo {
    pub description: Option<String>,
    pub denotation: Option<String>,
}

pub struct TensorMetadataView {
    pub description: Option<Seq<char>>,
    pub denotation: Option<Seq<char>>,
}

impl View for TensorMetadataInfo {
    type V = TensorMetadataView;

    open spec fn view(&self) -> TensorMetadataView {
        TensorMetadataView {
            description: opt_str(self.description),
            denotation: opt_str(self.denotation),
        }
    }
}

/// The tensor metadata table at `position`: the description (slot 6) and
/// the content (slot 10); what cannot be read is left out.
pub open spec fn spec_tensor_metadata(data: Seq<u8>, position: int) -> TensorMetadataView {
    TensorMetadataView {
        description: ok_or_none(spec_string_field(data, position, 6)),
        denotation: match spec_vector(data, position, 10) {
            Ok(Some(table)) => spec_content_denotation(data, table as int),
            _ => None,
        },
    }
}

impl TensorMetadataInfo {
    /// Reads the tensor metadata table at `position`; this never gives `None`.
    pub fn read(reader: &FlatReader, position: usize) -> (r: Option<Self>)
        ensures
            r matches Some(t) && t@ == spec_tensor_metadata(reader.data@, position as int),
    {
        let description = match reader.string_field(position, 6) {
            Ok(d) => d,
            Err(_) => None,
        };
        let denotation = match reader.table_field(position, 10) {
            Ok(Some(table)) => read_content_denotation(reader, table),
            _ => None,
        };
        Some(TensorMetadataInfo { description, denotation })
    }
}

/// The metadata of the tensors at `positions`.
pub open spec fn spec_tensor_metadata_list(data: Seq<u8>, positions: Seq<usize>) -> Seq<
    TensorMetadataView,
> {
    positions.map_values(|p: usize| spec_tensor_metadata(data, p as int))
}

/// The views of a list of tensor metadata.
pub open spec fn tensor_metadata_views(v: Seq<TensorMetadataInfo>) -> Seq<TensorMetadataView> {
    v.map_values(|t: TensorMetadataInfo| t@)
}

/// Reads the tensor metadata tables at `positions`.
fn read_tensor_metadata_list(reader: &FlatReader, positions: &Vec<usize>) -> (r: Vec<
    TensorMetadataInfo,
>)
    ensures
        tensor_metadata_views(r@) == spec_tensor_metadata_list(reader.data@, positions@),
{
    let mut list: Vec<TensorMetadataInfo> = Vec::new();
    let mut i: usize = 0;
    while i < positions.len()
        invariant
            i <= positions@.len(),
            tensor_metadata_views(list@) == spec_tensor_metadata_list(
                reader.data@,
                positions@.take(i as int),
            ),
        decreases positions@.len() - i,
    {
        let t = match TensorMetadataInfo::read(reader, positions[i]) {
            Some(t) => t,
            None => TensorMetadataInfo { description: None, denotation: None },
        };
        let ghost before = list@;
        list.push(t);
        proof {
            assert(positions@.take(i + 1) =~= positions@.take(i as int).push(positions@[i as int]));
            assert(tensor_metadata_views(list@) =~= tensor_metadata_views(before).push(t@));
            assert(spec_tensor_metadata_list(reader.data@, positions@.take(i + 1)) =~= spec_tensor_metadata_list(
                reader.data@,
                positions@.take(i as int),
            ).push(spec_tensor_metadata(reader.data@, positions@[i as int] as int)));
        }
        i = i + 1;
    }
    proof {
        assert(positions@.take(positions@.len() as int) =~= positions@);
    }
    list
}

// ---------------------------------------------------------------------------
// Subgraph metadata

/// The metadata of a subgraph's inputs and outputs.
pub struct SubgraphMetadataInfo {
    pub inputs: Vec<TensorMetadataInfo>,
    pub outputs: Vec<TensorMetadataInfo>,
}

pub struct SubgraphMetadataView {
    pub inputs: Seq<TensorMetadataView>,
    pub outputs: Seq<TensorMetadataView>,
}

impl View for SubgraphMetadataInfo {
    type V = SubgraphMetadataView;

    open spec fn view(&self) -> SubgraphMetadataView {
        SubgraphMetadataView {
            inputs: tensor_metadata_views(self.inputs@),
            outputs: tensor_metadata_views(self.outputs@),
        }
    }
}

/// The subgraph metadata table at `position`: its input (slot 8) and output
/// (slot 10) tensor tables; `None` when either vector cannot be read.
pub open spec fn spec_subgraph_metadata(data: Seq<u8>, position: int) -> Option<SubgraphMetadataView> {
    match spec_table_vector(data, position, 8) {
        Err(_) => None,
        Ok(inputs) => match spec_table_vector(data, position, 10) {
            Err(_) => None,
            Ok(outputs) => Some(
                SubgraphMetadataView {
                    inputs: spec_tensor_metadata_list(data, inputs),
                    outputs: spec_tensor_metadata_list(data, outputs),
                },
            ),
        },
    }
}

impl SubgraphMetadataInfo {
    /// Reads the subgraph metadata table at `position`.
    pub fn read(reader: &FlatReader, position: usize) -> (r: Option<Self>)
        ensures
            match spec_subgraph_metadata(reader.data@, position as int) {
                Some(v) => r matches Some(m) && m@ == v,
                None => r is None,
            },
    {
        let input_positions = match reader.table_vector(position, 8) {
            Ok(p) => p,
            Err(_) => return None,
        };
        let inputs = read_tensor_metadata_list(reader, &input_positions);
        let output_positions = match reader.table_vector(position, 10) {
            Ok(p) => p,
            Err(_) => return None,
        };
        let outputs = read_tensor_metadata_list(reader, &output_positions);
        Some(SubgraphMetadataInfo { inputs, outputs })
    }
}

// ---------------------------------------------------------------------------
// Model metadata

/// The model metadata that a `TFLITE_METADATA` buffer holds.
pub struct ModelMetadataInfo {
    pub description: Option<String>,
    pub version: Option<String>,
    pub author: Option<String>,
    pub license: Option<String>,
    pub subgraphs: Vec<SubgraphMetadataInfo>,
}

pub struct ModelMetadataView {
    pub description: Option<Seq<char>>,
    pub version: Option<Seq<char>>,
    pub author: Option<Seq<char>>,
    pub license: Option<Seq<char>>,
    pub subgraphs: Seq<SubgraphMetadataView>,
}

/// The views of a list of subgraph metadata.
pub open spec fn subgraph_metadata_views(v: Seq<SubgraphMetadataInfo>) -> Seq<SubgraphMetadataView> {
    v.map_values(|m: SubgraphMetadataInfo| m@)
}

impl View for ModelMetadataInfo {
    type V = ModelMetadataView;

    open spec fn view(&self) -> ModelMetadataView {
        ModelMetadataView {
            description: opt_str(self.description),
            version: opt_str(self.version),
            author: opt_str(self.author),
            license: opt_str(self.license),
            subgraphs: subgraph_metadata_views(self.subgraphs@),
        }
    }
}

/// Whether bytes 4 to 8 of `data` hold the identifier `M001`.
pub open spec fn has_metadata_identifier(data: Seq<u8>) -> bool {
    &&& data.len() >= 8
    &&& data[4] == 0x4d
    &&& data[5] == 0x30
    &&& data[6] == 0x30
    &&& data[7] == 0x31
}

/// The model metadata flatbuffer `data`: its description (slot 6), version
/// (slot 8), subgraphs (slot 10), author (slot 12) and license (slot 14).
/// `None` when the identifier is wrong, the root or the subgraph vector cannot
/// be read, or a subgraph cannot.
pub open spec fn spec_model_metadata(data: Seq<u8>) -> Option<ModelMetadataView> {
    if !has_metadata_identifier(data) {
        None
    } else {
        match spec_root(data) {
            Err(_) => None,
            Ok(root) => match spec_table_vector(data, root as int, 10) {
                Err(_) => None,
                Ok(subgraphs) => if forall|i: int|
                    0 <= i < subgraphs.len() ==> (#[trigger] spec_subgraph_metadata(
                        data,
                        subgraphs[i] as int,
                    )) is Some {
                    Some(
                        ModelMetadataView {
                            description: ok_or_none(spec_string_field(data, root as int, 6)),
                            version: ok_or_none(spec_string_field(data, root as int, 8)),
                            author: ok_or_none(spec_string_field(data, root as int, 12)),
                            license: ok_or_none(spec_string_field(data, root as int, 14)),
                            subgraphs: subgraphs.map_values(
                                |p: usize| spec_subgraph_metadata(data, p as int)->Some_0,
                            ),
                        },
                    )
                } else {
                    None
                },
            },
        }
    }
}

impl ModelMetadataInfo {
    /// Reads model metadata from a buffer's bytes.
    pub fn read(data: &[u8]) -> (r: Option<Self>)
        ensures
            match spec_model_metadata(data@) {
                Some(v) => r matches Some(m) && m@ == v,
                None => r is None,
            },
    {
        if data.len() < 8 || !(data[4] == 0x4d && data[5] == 0x30 && data[6] == 0x30 && data[7]
            == 0x31) {
            return None;
        }
        let reader = FlatReader { data };
        let root = match reader.root() {
            Ok(root) => root,
            Err(_) => return None,
        };
        let description = match reader.string_field(root, 6) {
            Ok(d) => d,
            Err(_) => None,
        };
        let version = match reader.string_field(root, 8) {
            Ok(d) => d,
            Err(_) => None,
        };
        let positions = match reader.table_vector(root, 10) {
            Ok(p) => p,
            Err(_) => return None,
        };
        let mut subgraphs: Vec<SubgraphMetadataInfo> = Vec::new();
        let mut i: usize = 0;
        while i < positions.len()
            invariant
                reader.data@ == data@,
                has_metadata_identifier(data@),
                spec_root(data@) == Ok::<usize, ErrorKind>(root),
                spec_table_vector(data@, root as int, 10) == Ok::<Seq<usize>, ErrorKind>(positions@),
                i <= positions@.len(),
                forall|j: int|
                    0 <= j < i ==> (#[trigger] spec_subgraph_metadata(
                        data@,
                        positions@[j] as int,
                    )) is Some,
                subgraph_metadata_views(subgraphs@) == positions@.take(i as int).map_values(
                    |p: usize| spec_subgraph_metadata(data@, p as int)->Some_0,
                ),
            decreases positions@.len() - i,
        {
            let m = match SubgraphMetadataInfo::read(&reader, positions[i]) {
                Some(m) => m,
                None => {
                    proof {
                        assert(spec_subgraph_metadata(data@, positions@[i as int] as int) is None);
                    }
                    return None;
                },
            };
            let ghost before = subgraphs@;
            subgraphs.push(m);
            proof {
                assert(positions@.take(i + 1) =~= positions@.take(i as int).push(positions@[i as int]));
                assert(subgraph_metadata_views(subgraphs@) =~= subgraph_metadata_views(before).push(
                    m@,
                ));
                assert(positions@.take(i + 1).map_values(
                    |p: usize| spec_subgraph_metadata(data@, p as int)->Some_0,
                ) =~= positions@.take(i as int).map_values(
                    |p: usize| spec_subgraph_metadata(data@, p as int)->Some_0,
                ).push(spec_subgraph_metadata(data@, positions@[i as int] as int)->Some_0));
            }
            i = i + 1;
        }
        proof {
            assert(positions@.take(positions@.len() as int) =~= positions@);
        }
        let author = match reader.string_field(root, 12) {
            Ok(d) => d,
            Err(_) => None,
        };
        let license = match reader.string_field(root, 14) {
            Ok(d) => d,
            Err(_) => None,
        };
        Some(ModelMetadataInfo { description, version, author, license, subgraphs })
    }
}

// ---------------------------------------------------------------------------
// Embedded metadata

/// Whether every byte is printable ASCII.
pub open spec fn all_printable(data: Seq<u8>) -> bool {
    forall|i: int| 0 <= i < data.len() ==> 32 <= #[trigger] data[i] < 128
}

/// How a metadata value shows: the text of fewer than 256 printable ASCII
/// bytes, `?` for anything else.
pub open spec fn spec_metadata_value_text(data: Seq<u8>) -> Seq<char> {
    if data.len() < 256 && all_printable(data) {
        ascii_chars(data)
    } else {
        "?"@
    }
}

/// The text of a metadata value.
pub fn metadata_value_text(data: &[u8]) -> (r: String)
    ensures
        r@ == spec_metadata_value_text(data@),
{
    if data.len() >= 256 {
        return String::from_str("?");
    }
    let mut i: usize = 0;
    while i < data.len()
        invariant
            i <= data@.len(),
            forall|j: int| 0 <= j < i ==> 32 <= #[trigger] data@[j] < 128,
        decreases data@.len() - i,
    {
        if data[i] < 32 || data[i] >= 128 {
            return String::from_str("?");
        }
        i = i + 1;
    }
    ascii_string(data)
}

/// What a model's metadata entries say: a description, a version, named
/// properties and the metadata of its subgraphs.
pub struct EmbeddedMetadata {
    pub description: Option<String>,
    pub version: Option<String>,
    pub properties: StringMap,
    pub subgraphs: Vec<SubgraphMetadataInfo>,
}

pub struct EmbeddedMetadataView {
    pub description: Option<Seq<char>>,
    pub version: Option<Seq<char>>,
    pub properties: Entries,
    pub subgraphs: Seq<SubgraphMetadataView>,
}

impl View for EmbeddedMetadata {
    type V = EmbeddedMetadataView;

    open spec fn view(&self) -> EmbeddedMetadataView {
        EmbeddedMetadataView {
            description: opt_str(self.description),
            version: opt_str(self.version),
            properties: self.properties@,
            subgraphs: subgraph_metadata_views(self.subgraphs@),
        }
    }
}

/// The bytes of buffer `index` in `data`, when it exists and its range lies
/// inside the data.
pub open spec fn buffer_bytes(data: Seq<u8>, buffers: Seq<BufferInfo>, index: u32) -> Option<Seq<u8>> {
    if index < buffers.len() {
        match buffers[index as int].data_range {
            Some((start, len)) => if start + len <= data.len() {
                Some(data.subrange(start as int, start + len))
            } else {
                None
            },
            None => None,
        }
    } else {
        None
    }
}

/// `properties` with `name` set to `value`, when there is a value.
pub open spec fn insert_some(properties: Entries, name: Seq<char>, value: Option<Seq<char>>) -> Entries {
    match value {
        Some(v) => assoc_insert(properties, name, v),
        None => properties,
    }
}

/// What one metadata entry adds: nothing without a name or readable bytes, or
/// for `min_runtime_version`; the model metadata for `TFLITE_METADATA`, when
/// it reads; otherwise a property with the value's text.
pub open spec fn embedded_step(
    data: Seq<u8>,
    buffers: Seq<BufferInfo>,
    acc: EmbeddedMetadataView,
    entry: MetadataInfoView,
) -> EmbeddedMetadataView {
    match entry.name {
        None => acc,
        Some(name) => match buffer_bytes(data, buffers, entry.buffer) {
            None => acc,
            Some(bytes) => if name == "min_runtime_version"@ {
                acc
            } else if name == "TFLITE_METADATA"@ {
                match spec_model_metadata(bytes) {
                    None => acc,
                    Some(m) => EmbeddedMetadataView {
                        description: m.description,
                        version: m.version,
                        properties: insert_some(
                            insert_some(acc.properties, "author"@, m.author),
                            "license"@,
                            m.license,
                        ),
                        subgraphs: m.subgraphs,
                    },
                }
            } else {
                EmbeddedMetadataView {
                    properties: assoc_insert(acc.properties, name, spec_metadata_value_text(bytes)),
                    ..acc
                }
            },
        },
    }
}

/// The metadata that `entries` give, taken in order.
pub open spec fn spec_embedded_metadata(
    data: Seq<u8>,
    buffers: Seq<BufferInfo>,
    entries: Seq<MetadataInfoView>,
) -> EmbeddedMetadataView
    decreases entries.len(),
{
    if entries.len() == 0 {
        EmbeddedMetadataView {
            description: None,
            version: None,
            properties: Seq::empty(),
            subgraphs: Seq::empty(),
        }
    } else {
        embedded_step(
            data,
            buffers,
            spec_embedded_metadata(data, buffers, entries.drop_last()),
            entries.last(),
        )
    }
}

/// The views of metadata entries.
pub open spec fn metadata_info_views(v: Seq<MetadataInfo>) -> Seq<MetadataInfoView> {
    v.map_values(|m: MetadataInfo| m@)
}

/// Inserts `value` under `name` when there is a value.
fn insert_present(properties: &mut StringMap, name: &str, value: Option<String>)
    ensures
        final(properties)@ == insert_some(old(properties)@, name@, opt_str(value)),
{
    if let Some(v) = value {
        properties.insert(String::from_str(name), v);
    }
}

impl EmbeddedMetadata {
    /// Gathers the metadata of the model from its metadata entries and the
    /// buffers that hold their values.
    pub fn read(reader: &FlatReader, buffers: &[BufferInfo], entries: &[MetadataInfo]) -> (r: Self)
        ensures
            r@ == spec_embedded_metadata(reader.data@, buffers@, metadata_info_views(entries@)),
    {
        let mut result = EmbeddedMetadata {
            description: None,
            version: None,
            properties: StringMap::new(),
            subgraphs: Vec::new(),
        };
        proof {
            assert(subgraph_metadata_views(result.subgraphs@) =~= Seq::empty());
            assert(metadata_info_views(entries@).take(0) =~= Seq::empty());
        }
        let mut i: usize = 0;
        while i < entries.len()
            invariant
                i <= entries@.len(),
                result@ == spec_embedded_metadata(
                    reader.data@,
                    buffers@,
                    metadata_info_views(entries@).take(i as int),
                ),
            decreases entries@.len() - i,
        {
            let ghost before = result@;
            let ghost views = metadata_info_views(entries@);
            proof {
                assert(views.take(i + 1).drop_last() =~= views.take(i as int));
                assert(views.take(i + 1).last() == entries@[i as int]@);
            }
            let entry = &entries[i];
            i = i + 1;
            let name = match &entry.name {
                Some(name) => name,
                None => continue,
            };
            let index = entry.buffer as usize;
            if index >= buffers.len() {
                continue;
            }
            let data = match buffers[index].bytes(reader.data) {
                Some(data) => data,
                None => continue,
            };
            if str_eq(name.as_str(), "min_runtime_version") {
                continue;
            }
            if str_eq(name.as_str(), "TFLITE_METADATA") {
                if let Some(metadata) = ModelMetadataInfo::read(data) {
                    result.description = metadata.description;
                    result.version = metadata.version;
                    insert_present(&mut result.properties, "author", metadata.author);
                    insert_present(&mut result.properties, "license", metadata.license);
                    result.subgraphs = metadata.subgraphs;
                }
            } else {
                let text = metadata_value_text(data);
                result.properties.insert(name.clone(), text);
            }
        }
        proof {
            assert(metadata_info_views(entries@).take(entries@.len() as int) =~= metadata_info_views(
                entries@,
            ));
        }
        result
    }
}

} // verus!
