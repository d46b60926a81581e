# netron_rs_formats

Readers for neural-network model files, verified with Verus: the containers
and encodings of ONNX (protobuf), PyTorch (zip, tar, package, sharded,
TorchScript and exported-program archives, and pickles), Safetensors,
SentencePiece (protobuf), TensorFlow Lite (flatbuffers) and XGBoost (JSON,
UBJSON). Lowerers that turn what is read into a plain model graph exist for
Safetensors files and indexes, for PyTorch state dicts, tensor and data
pickles and legacy pickles, for legacy TorchScript archives whose
`model.json` describes a two-layer perceptron (or a bare ONNX export), for
SentencePiece models (one node per part of the model message) and for
XGBoost models (one booster node over the features) and pickled
scikit-learn classifiers.

- `src/` is the verified library. Each public function states in its
  contract what it returns, over spec functions of the bytes it reads. JSON is
  read by `serde_json` and DEFLATE streams by `flate2`, behind small trusted
  wrappers (`json::parse_json`, `pytorch::zip::inflate`), whose contracts name
  their results.
- `src/graph.rs` holds the lowered model: values (some initialized by a
  tensor whose data stays in the file), nodes that take values as inputs and
  give values as outputs, with attributes and metadata, and the graph's
  inputs and outputs.
- `app/` reads files and the shards of a Safetensors index from disk and hands
  their bytes to the library, and reads the shape of an XGBoost document with
  serde into the fields that the library lowers.
- `tests/` runs the library on concrete inputs.
