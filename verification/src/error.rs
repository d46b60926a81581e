use vstd::prelude::*;

verus! {

/// The model format that raised an error.
#[derive(Debug, Clone, Copy, PartialEq, Eq, Structural)]
pub enum Format {
    Onnx,
    PyTorch,
    Safetensors,
    SentencePiece,
    Tflite,
    XGBoostJson,
    XGBoostUbjson,
}

/// Why a parse failed.
#[derive(Debug, Clone, Copy, PartialEq, Eq, Structural)]
pub enum ErrorKind {
    /// The data ends before the value being read.
    Truncated,
    /// An offset or a length does not fit in `usize`.
    Overflow,
    /// A varint has more than ten bytes.
    VarintTooLong,
    /// A protobuf key names field 0.
    FieldZero,
    /// A protobuf key has a wire type that the reader does not know.
    UnsupportedWireType,
    /// A field has another wire type than the one asked for.
    WrongWireType,
    /// Bytes that should be UTF-8 are not.
    InvalidUtf8,
    /// The data is not in the format.
    NotFormat,
    /// A value is out of the range that the format allows.
    InvalidValue,
    /// An entry that the format requires is missing.
    Missing,
    /// A pickle opcode that the reader does not know.
    UnsupportedOpcode,
    /// A text line has no terminating newline.
    Unterminated,
    /// A feature of the format that the reader does not support.
    Unsupported,
    /// Data that decoded to another length than its header gives.
    SizeMismatch,
    /// Text that should be a JSON document is not one, or not of the shape asked for.
    InvalidJson,
}

/// The error of every parser in this crate.
#[derive(Debug, Clone, Copy, PartialEq, Eq, Structural)]
pub struct ModelError {
    pub format: Format,
    pub kind: ErrorKind,
}

/// The error value `{ format, kind }`.
pub open spec fn model_error(format: Format, kind: ErrorKind) -> ModelError {
    ModelError { format, kind }
}

/// Builds the error `{ format, kind }`.
pub fn invalid(format: Format, kind: ErrorKind) -> (e: ModelError)
    ensures
        e == model_error(format, kind),
{
    ModelError { format, kind }
}

} // verus!
