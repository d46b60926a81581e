use vstd::prelude::*;

pub mod error;
pub mod fmt;
pub mod text;
pub mod chars;
pub mod varint;
pub mod le;
pub mod onnx;
pub mod sentencepiece;
pub mod strmap;
pub mod tflite;
pub mod pytorch;
pub mod safetensors;
pub mod xgboost;
pub mod json;
pub mod graph;

verus! {

} // verus!
