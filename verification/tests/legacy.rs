use netron_rs_formats::error::{ErrorKind, Format};
use netron_rs_formats::json::parse_json_str;
use netron_rs_formats::pytorch::archives::TorchScriptArchive;
use netron_rs_formats::pytorch::dtypes::TensorElementType;
use netron_rs_formats::pytorch::legacy_json::{
    legacy_torchscript_parameter_names, normalized_tensor_element_type, torchscript_json_element_type,
    torchscript_json_shape_values,
};
use netron_rs_formats::pytorch::legacy_lower::{
    lower_legacy_mlp_model_json, lower_legacy_model_json, lower_legacy_torchscript_archive,
};

const MLP_SOURCE: &str = "def forward(self, input):\n    output = torch.matmul(input, torch.t(weight))\n    return torch.add_(output0, bias0, alpha=1)\n";

const MLP_JSON: &str = r#"{
  "producerName": "pytorch",
  "producerVersion": "1.0",
  "mainModule": {
    "submodules": [
      {"name": "fc1", "parameters": [{"name": "weight", "tensorId": "0"}, {"name": "bias", "tensorId": "1"}]},
      {"name": "fc2", "parameters": [{"name": "weight", "tensorId": "2"}, {"name": "bias", "tensorId": "3"}]}
    ]
  },
  "tensors": [
    {"dataType": "FLOAT", "dims": ["4", "3"]},
    {"dataType": "FLOAT", "dims": ["4"]},
    {"dataType": "DOUBLE", "dims": ["2", "4"]},
    {"dataType": "DOUBLE", "dims": ["2"]}
  ]
}"#;

fn archive(source: &str, model_json: Option<&str>) -> TorchScriptArchive {
    TorchScriptArchive {
        source: source.to_string(),
        source_path: "code/model.py".to_string(),
        generated_path: None,
        data_pickle: None,
        constants_pickle: None,
        has_bytecode: false,
        model_json: model_json.map(str::to_string),
        version: Some("1".to_string()),
    }
}

#[test]
fn legacy_parameter_names_follow_the_submodules() {
    let parsed = parse_json_str(MLP_JSON).unwrap();
    let names = legacy_torchscript_parameter_names(&parsed);
    assert_eq!(
        names,
        vec![
            Some("fc1.weight".to_string()),
            Some("fc1.bias".to_string()),
            Some("fc2.weight".to_string()),
            Some("fc2.bias".to_string()),
        ]
    );
}

#[test]
fn legacy_json_element_types_and_shapes() {
    assert!(matches!(torchscript_json_element_type("FLOAT"), Ok((TensorElementType::Float32, 4))));
    assert!(matches!(torchscript_json_element_type("DOUBLE"), Ok((TensorElementType::Float64, 8))));
    let e = torchscript_json_element_type("COMPLEX").unwrap_err();
    assert_eq!(e.kind, ErrorKind::Unsupported);
    assert!(normalized_tensor_element_type("float32").is_ok());
    let tensor = parse_json_str(r#"{"dims": ["2", "5"]}"#).unwrap();
    assert_eq!(torchscript_json_shape_values(&tensor).unwrap(), vec![2, 5]);
    let missing = parse_json_str(r#"{"dataType": "FLOAT"}"#).unwrap();
    assert_eq!(torchscript_json_shape_values(&missing).unwrap_err().kind, ErrorKind::Missing);
    let bad = parse_json_str(r#"{"dims": ["x"]}"#).unwrap();
    assert_eq!(torchscript_json_shape_values(&bad).unwrap_err().kind, ErrorKind::InvalidValue);
}

#[test]
fn legacy_perceptron_is_lowered_into_two_linear_layers() {
    let a = archive(MLP_SOURCE, Some(MLP_JSON));
    let model = lower_legacy_torchscript_archive(&a).unwrap();
    assert_eq!(model.format, "TorchScript");
    assert_eq!(model.version.as_deref(), Some("1"));
    assert_eq!(model.producer.as_deref(), Some("pytorch"));
    assert_eq!(model.producer_version.as_deref(), Some("1.0"));
    let names: Vec<&str> = model.values.iter().map(|v| v.name.as_deref().unwrap()).collect();
    assert_eq!(
        names,
        vec![
            "fc1.weight", "fc1.bias", "fc2.weight", "fc2.bias", "%16", "%input.1", "%output.1", "%input0.1",
            "%input1.1", "%26", "%output0.1", "%30",
        ]
    );
    let w = model.values[0].initializer.as_ref().unwrap();
    assert_eq!(w.shape, vec![4, 3]);
    assert_eq!(w.byte_len, 48);
    assert_eq!(model.values[2].initializer.as_ref().unwrap().byte_len, 64);
    assert!(model.values[4].initializer.is_none());
    assert_eq!(model.inputs, vec![5]);
    assert_eq!(model.outputs, vec![11]);
    let ops: Vec<&str> = model.nodes.iter().map(|n| n.operator.as_str()).collect();
    assert_eq!(ops, vec!["t", "matmul", "add_", "relu", "t", "matmul", "add_"]);
    assert_eq!(model.nodes[1].inputs, vec![Some(5), Some(4)]);
    assert_eq!(model.nodes[1].outputs, vec![Some(6)]);
    assert_eq!(model.nodes[6].inputs, vec![Some(10), Some(3)]);
    assert_eq!(model.nodes[6].outputs, vec![Some(11)]);
    assert_eq!(model.nodes[0].metadata, vec![("source".to_string(), String::new())]);
}

#[test]
fn legacy_archive_errors() {
    let no_json = archive(MLP_SOURCE, None);
    assert_eq!(lower_legacy_torchscript_archive(&no_json).unwrap_err().kind, ErrorKind::Missing);
    let bad_json = archive(MLP_SOURCE, Some("{not json"));
    let e = lower_legacy_torchscript_archive(&bad_json).unwrap_err();
    assert_eq!(e.kind, ErrorKind::InvalidJson);
    assert_eq!(e.format, Format::PyTorch);
    let other = archive("def forward(self):\n    return x\n", Some(MLP_JSON));
    assert_eq!(lower_legacy_torchscript_archive(&other).unwrap_err().kind, ErrorKind::Unsupported);
    let parsed = parse_json_str(r#"{"tensors": [{"dims": ["1"]}], "mainModule": {"submodules": [{"name": "fc1", "parameters": [{"name": "weight", "tensorId": "0"}]}]}}"#).unwrap();
    let a = archive(MLP_SOURCE, None);
    assert_eq!(lower_legacy_mlp_model_json(&a, &parsed).unwrap_err().kind, ErrorKind::Missing);
    let no_tensors = parse_json_str(r#"{"producerName": "x"}"#).unwrap();
    assert_eq!(lower_legacy_mlp_model_json(&a, &no_tensors).unwrap_err().kind, ErrorKind::Missing);
}

#[test]
fn legacy_bare_onnx_export_keeps_only_its_producer() {
    let source = "op_version_set = 0\ndef forward(self, a_dict: Dict[str, int]):\n    return self.my_tuple\n";
    let parsed = parse_json_str(r#"{"protoVersion": "6", "producerName": "pytorch", "producerVersion": "1.1"}"#).unwrap();
    let model = lower_legacy_model_json(&archive(source, None), &parsed).unwrap();
    assert_eq!(model.format, "ONNX");
    assert_eq!(model.version, None);
    assert!(model.values.is_empty() && model.nodes.is_empty());
    assert_eq!(model.producer.as_deref(), Some("pytorch"));
    assert_eq!(model.producer_version.as_deref(), Some("1.1"));
}
