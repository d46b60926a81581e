use netron_rs_formats::error::ErrorKind;
use netron_rs_formats::pytorch::archives::{PyTorchZipArchive, TorchScriptArchive};
use netron_rs_formats::pytorch::detect::{LegacyPickle, PyTorchShardedStateDictArchive};
use netron_rs_formats::pytorch::dtypes::{
    numpy_dtype, pytorch_dtype_global, storage_element_type, TensorElementType,
};
use netron_rs_formats::pytorch::machine::{PickleMachine, PickleValue, StateDictTensor};
use netron_rs_formats::pytorch::lower::{
    is_legacy_mtcnn_state_dict, lower_data_pickle_operator_with_null_inputs,
    lower_data_pickle_with_format_and_null_inputs, lower_legacy_dict_pickle, lower_legacy_pickle,
    lower_legacy_tensor_pickle, lower_nested_state_dict_with_format,
    lower_state_dict_with_format, lower_state_tensors_with_operator, lower_tensor_pickle,
};
use netron_rs_formats::pytorch::detect::TensorPickle;
use netron_rs_formats::pytorch::PyTorchFormat;
use netron_rs_formats::pytorch::detect::ExportedProgramArchive;
use netron_rs_formats::graph::Confidence;
use netron_rs_formats::pytorch::scan::LegacyTensor;
use netron_rs_formats::pytorch::modules::DataPickle;
use netron_rs_formats::pytorch::scan::{scan_tensor_pickle, scan_torchscript_pickle_tensors};
use netron_rs_formats::pytorch::sharded::shard_file_names;
use netron_rs_formats::pytorch::state_dict::{
    top_level_pickle_dict_tensors, NestedStateDict, NestedStateDictGroup, StateDict, StateDictEntry,
    StateDictEntryValue,
};
use netron_rs_formats::pytorch::tar_dict::{
    legacy_tar_storage_from_tensor_name, legacy_tar_storages, legacy_tar_tensors,
};

fn text(s: &str) -> Vec<u8> {
    let mut out = vec![b'X'];
    out.extend((s.len() as u32).to_le_bytes());
    out.extend_from_slice(s.as_bytes());
    out
}

fn global(module: &str, name: &str) -> Vec<u8> {
    format!("c{module}\n{name}\n").into_bytes()
}

/// The pickle of a float tensor of shape (2, 3), built by a rebuild call.
fn tensor_pickle() -> Vec<u8> {
    let mut p = global("torch._utils", "_rebuild_tensor_v2");
    p.extend([b'(', b'(']);
    p.extend(text("storage"));
    p.extend(global("torch", "FloatStorage"));
    p.extend(text("0"));
    p.extend(text("cpu"));
    p.extend([b'K', 6, b't', b'Q']);
    p.extend([b'K', 0, b'K', 2, b'K', 3, 0x86, b'K', 3, b'K', 1, 0x86, 0x89]);
    p.extend([b')', b't', b'R']);
    p
}

/// An ordered dict with one tensor, `weight`.
fn ordered_state_dict() -> Vec<u8> {
    let mut p = vec![0x80, 0x02];
    p.extend(global("collections", "OrderedDict"));
    p.extend([b'q', 0, b')', b'R', b'(']);
    p.extend(text("weight"));
    p.extend(tensor_pickle());
    p.extend([b'u', b'.']);
    p
}

fn local_entry(name: &str, payload: &[u8]) -> Vec<u8> {
    let mut out = b"PK\x03\x04".to_vec();
    out.extend(20u16.to_le_bytes());
    out.extend(0u16.to_le_bytes());
    out.extend(0u16.to_le_bytes());
    out.extend([0u8; 8]);
    out.extend((payload.len() as u32).to_le_bytes());
    out.extend((payload.len() as u32).to_le_bytes());
    out.extend((name.len() as u16).to_le_bytes());
    out.extend(0u16.to_le_bytes());
    out.extend_from_slice(name.as_bytes());
    out.extend_from_slice(payload);
    out
}

fn is_float32(t: TensorElementType) -> bool {
    matches!(t, TensorElementType::Float32)
}

#[test]
fn element_type_tables() {
    let (t, size) = storage_element_type("torch.HalfStorage").unwrap();
    assert!(matches!(t, TensorElementType::Float16) && size == 2);
    let (t, size) = storage_element_type("torch.QUInt4x2Storage").unwrap();
    assert!(matches!(t, TensorElementType::Other("quint4x2")) && size == 1);
    assert_eq!(storage_element_type("torch.Storage").unwrap_err().kind, ErrorKind::Unsupported);
    assert!(matches!(numpy_dtype("c16"), Some((TensorElementType::Complex128, 16))));
    assert!(numpy_dtype("f16").is_none());
    assert!(matches!(pytorch_dtype_global("torch.bfloat16"), Some((TensorElementType::BFloat16, 2))));
    assert!(pytorch_dtype_global("torch.float").is_none());
}

#[test]
fn machine_rebuilds_an_ordered_state_dict() {
    let root = PickleMachine::execute(&ordered_state_dict()).unwrap().unwrap();
    match root {
        PickleValue::OrderedDict(items) => {
            assert_eq!(items.len(), 1);
            assert_eq!(items[0].0, "weight");
            match &items[0].1 {
                PickleValue::Tensor(t) => {
                    assert!(is_float32(t.element_type));
                    assert_eq!(t.shape, vec![2, 3]);
                    assert_eq!(t.byte_len, 24);
                    assert!(t.layout.is_none());
                },
                _ => panic!("the value is no tensor"),
            }
        },
        _ => panic!("the root is no ordered dict"),
    }
}

#[test]
fn machine_finds_no_root_in_a_plain_list() {
    let data = [0x80, 0x02, b']', b'(', b'K', 1, b'K', 2, b'e', b'.'];
    assert!(PickleMachine::execute(&data).unwrap().is_none());
}

#[test]
fn machine_reports_a_tuple_without_mark() {
    let data = [b'K', 1, b't', b'.'];
    assert_eq!(PickleMachine::execute(&data).unwrap_err().kind, ErrorKind::Missing);
    let short = [b'K', 1, 0x86, b'.'];
    assert_eq!(PickleMachine::execute(&short).unwrap_err().kind, ErrorKind::Truncated);
}

#[test]
fn state_dict_entries_of_an_ordered_dict() {
    let dict = StateDict::read(&ordered_state_dict()).unwrap().unwrap();
    assert_eq!(dict.entries.len(), 1);
    assert_eq!(dict.entries[0].key, "weight");
    match &dict.entries[0].value {
        StateDictEntryValue::Tensor(t) => assert_eq!(t.shape, vec![2, 3]),
        _ => panic!("the entry is no tensor"),
    }
    let list = [0x80, 0x02, b']', b'.'];
    assert!(StateDict::read(&list).unwrap().is_none());
}

#[test]
fn nested_state_dict_groups_and_direct_tensors() {
    let mut p = vec![0x80, 0x02, b'}', b'('];
    p.extend(text("model"));
    p.extend([b'}', b'(']);
    p.extend(text("w"));
    p.extend(tensor_pickle());
    p.push(b'u');
    p.extend(text("state_dict"));
    p.push(b'N');
    p.extend(text("layer_bias"));
    p.extend(tensor_pickle());
    p.extend([b'u', b'.']);
    let nested = NestedStateDict::read(&p).unwrap().unwrap();
    assert_eq!(nested.groups.len(), 2);
    assert_eq!(nested.groups[0].name, "model");
    assert_eq!(nested.groups[0].entries[0].0, "w");
    assert_eq!(nested.groups[1].name, "layer_bias");
    assert_eq!(nested.groups[1].entries[0].0, "bias");
    let tensors = top_level_pickle_dict_tensors(&p).unwrap();
    assert_eq!(tensors.len(), 1);
}

#[test]
fn tensor_scans_find_the_shape() {
    let p = ordered_state_dict();
    let t = scan_tensor_pickle(&p).unwrap();
    assert_eq!(t.shape, vec![2, 3]);
    assert_eq!(t.element_size, 4);
    assert_eq!(t.byte_len, 24);
    let all = scan_torchscript_pickle_tensors(&p).unwrap();
    assert_eq!(all.len(), 1);
    assert_eq!(all[0].shape, vec![2, 3]);
    let none = [0x80, 0x02, b'N', b'.'];
    assert_eq!(scan_tensor_pickle(&none).unwrap_err().kind, ErrorKind::Missing);
}

#[test]
fn legacy_file_with_a_state_dict() {
    let mut data = vec![0x80, 0x02, 0x8a, 0x0a, 0x6c, 0xfc, 0x9c, 0x46, 0xf9, 0x20, 0x6a, 0xa8, 0x50, 0x19, b'.'];
    data.extend([0x80, 0x02, b'K', 0x42, b'.']);
    data.extend([0x80, 0x02, b'}', b'.']);
    data.extend(ordered_state_dict());
    match LegacyPickle::read(&data).unwrap() {
        LegacyPickle::StateDict(d) => assert_eq!(d.entries[0].key, "weight"),
        _ => panic!("the object is no state dict"),
    }
    assert!(LegacyPickle::read(&data[..20]).is_err());
}

#[test]
fn legacy_tar_storages_and_tensors() {
    let mut storages = vec![0x80, 0x02, b'K', 1, b'.'];
    storages.extend([0x80, 0x02, b'K', 5]);
    storages.extend(global("torch", "FloatStorage"));
    storages.push(b'.');
    storages.extend(2u64.to_le_bytes());
    storages.extend([0u8; 8]);
    let s = legacy_tar_storages(&storages).unwrap();
    assert_eq!(s.len(), 1);
    assert_eq!(s[0].0, 5);
    assert_eq!(s[0].1.element_size, 4);

    let mut tensors = vec![0x80, 0x02, b'K', 1, b'.'];
    tensors.extend([0x80, 0x02, b'K', 7, b'K', 5, b'.']);
    tensors.extend(2i32.to_le_bytes());
    tensors.extend([0u8; 4]);
    for v in [2i64, 1, 1, 1, 0] {
        tensors.extend(v.to_le_bytes());
    }
    let t = legacy_tar_tensors(&tensors, &s).unwrap();
    assert_eq!(t.len(), 1);
    assert_eq!(t[0].0, 7);
    assert_eq!(t[0].1.shape, vec![2, 1]);
    assert_eq!(t[0].1.byte_len, 8);
    assert!(legacy_tar_tensors(&tensors, &Vec::new()).is_err());
    assert!(legacy_tar_tensors(&tensors[..30], &s).is_err());
}

#[test]
fn storage_named_by_a_tensor_class() {
    let s = legacy_tar_storage_from_tensor_name(Some("torch.LongTensor")).unwrap();
    assert!(matches!(s.element_type, TensorElementType::Int64));
    assert_eq!(s.element_size, 8);
    assert!(legacy_tar_storage_from_tensor_name(Some("torch.Long")).is_none());
    assert!(legacy_tar_storage_from_tensor_name(None).is_none());
}

#[test]
fn shard_names_are_listed_once() {
    let files = vec![Some("a.bin".to_owned()), None, Some("b.bin".to_owned()), Some("a.bin".to_owned())];
    assert_eq!(shard_file_names(&files), vec!["a.bin".to_owned(), "b.bin".to_owned()]);
}

#[test]
fn sharded_state_dict_of_one_bin_shard() {
    let shard = local_entry("archive/data.pkl", &ordered_state_dict());
    let outer = local_entry("pytorch_model.bin", &shard);
    let inner = PyTorchZipArchive::read(&shard).unwrap();
    assert!(inner.version.is_none());
    let archive = PyTorchShardedStateDictArchive::read_with_shard_files(&outer, &[]).unwrap();
    assert!(archive.version.is_none());
    assert_eq!(archive.state_dict.entries.len(), 1);
    let named = PyTorchShardedStateDictArchive::read_with_shard_files(&outer, &[Some("pytorch_model.bin".to_owned())]).unwrap();
    assert_eq!(named.state_dict.entries[0].key, "weight");
}

#[test]
fn legacy_torchscript_archive_keeps_its_model_json() {
    let mut data = local_entry("model.json", b"{}");
    data.extend(local_entry("attributes.pkl", b"."));
    data.extend(local_entry("code/model.py", b"def forward(self):\n"));
    let archive = TorchScriptArchive::read(&data).unwrap();
    assert_eq!(archive.model_json.as_deref(), Some("{}"));
    assert_eq!(archive.version.as_deref(), Some("1.1"));
    assert!(archive.source.is_empty());
}

#[test]
fn legacy_torchscript_archive_reads_the_source_its_json_names() {
    let json = br#"{"mainModule": {"torchscriptArena": {"key": "code/model.py"}}}"#;
    let mut data = local_entry("model.json", json);
    data.extend(local_entry("code/model.py", b"def forward(self):\n"));
    let archive = TorchScriptArchive::read(&data).unwrap();
    assert_eq!(archive.source, "def forward(self):\n");
    assert_eq!(archive.source_path, "code/model.py");
    assert_eq!(archive.version.as_deref(), Some("1.0"));
    let missing = br#"{"mainModule": {"torchscriptArena": {"key": "missing.py"}}}"#;
    let data = local_entry("model.json", missing);
    assert!(TorchScriptArchive::read(&data).is_err());
}

#[test]
fn sharded_state_dict_reads_its_json_index() {
    let shard = local_entry("archive/data.pkl", &ordered_state_dict());
    let index = br#"{"weight_map": {"weight": "part-1.bin"}}"#;
    let mut outer = local_entry("model.bin.index.json", index);
    outer.extend(local_entry("part-1.bin", &shard));
    outer.extend(local_entry("other.bin", b"not a zip"));
    let archive = PyTorchShardedStateDictArchive::read(&outer).unwrap();
    assert_eq!(archive.state_dict.entries.len(), 1);
    assert_eq!(archive.state_dict.entries[0].key, "weight");
}

fn stored(shape: Vec<i64>, byte_len: usize) -> StateDictTensor {
    StateDictTensor { element_type: TensorElementType::Float32, shape, byte_len, layout: None }
}

#[test]
fn state_dict_lowers_to_weights_nodes_by_group() {
    let entries = vec![
        StateDictEntry { key: "conv.weight".to_owned(), value: StateDictEntryValue::Tensor(stored(vec![2, 2], 16)) },
        StateDictEntry { key: "fc._packed_params._packed_params".to_owned(), value: StateDictEntryValue::PackedTensor { tensor: stored(vec![4], 16), bias: None } },
        StateDictEntry { key: "conv.bias".to_owned(), value: StateDictEntryValue::Tensor(stored(vec![2], 8)) },
        StateDictEntry { key: "step".to_owned(), value: StateDictEntryValue::Tensor(stored(vec![], 8)) },
        StateDictEntry { key: "missing".to_owned(), value: StateDictEntryValue::NoneValue },
        StateDictEntry { key: ".x".to_owned(), value: StateDictEntryValue::Tensor(stored(vec![], 4)) },
    ];
    let dict = StateDict { entries };
    let model = lower_state_dict_with_format("PyTorch", Some("1.6".to_owned()), &dict, false);
    assert_eq!(model.format, "PyTorch");
    assert_eq!(model.version.as_deref(), Some("1.6"));
    assert_eq!(model.values.len(), 4);
    assert_eq!(model.values[0].name.as_deref(), Some("conv.weight"));
    assert_eq!(model.values[1].name.as_deref(), Some(""));
    assert!(model.values[1].initializer.is_none());
    assert_eq!(model.values[3].name.as_deref(), Some("step"));
    assert_eq!(model.nodes.len(), 3);
    assert_eq!(model.nodes[0].name.as_deref(), Some("conv"));
    assert_eq!(model.nodes[0].operator, "Weights");
    assert_eq!(model.nodes[0].inputs, vec![Some(0), Some(2)]);
    assert_eq!(model.nodes[1].name.as_deref(), Some("fc"));
    assert_eq!(model.nodes[1].inputs, vec![Some(1), None]);
    assert_eq!(model.nodes[2].name, None);
    assert_eq!(model.nodes[2].inputs, vec![Some(3)]);
    let anonymous = lower_state_dict_with_format("PyTorch", None, &dict, true);
    assert!(anonymous.values[1].initializer.is_some());
}

#[test]
fn nested_state_dict_and_tensor_lists_lower_to_one_node_each() {
    let dict = NestedStateDict {
        groups: vec![
            NestedStateDictGroup { name: "a".to_owned(), entries: vec![("w".to_owned(), stored(vec![1], 4))] },
            NestedStateDictGroup { name: "b".to_owned(), entries: vec![("x".to_owned(), stored(vec![1], 4)), ("y".to_owned(), stored(vec![1], 4))] },
        ],
    };
    let model = lower_nested_state_dict_with_format("PyTorch", None, &dict);
    assert_eq!(model.values.len(), 3);
    assert_eq!(model.nodes[1].name.as_deref(), Some("b"));
    assert_eq!(model.nodes[1].inputs, vec![Some(1), Some(2)]);
    assert_eq!(model.consumers(2), vec![1]);
    let tensors = vec![stored(vec![3], 12), stored(vec![], 4)];
    let model = lower_state_tensors_with_operator(&tensors, "PyTorch Pickle", None, "Tensor");
    assert_eq!(model.nodes.len(), 1);
    assert_eq!(model.nodes[0].operator, "Tensor");
    assert_eq!(model.nodes[0].inputs, vec![Some(0), Some(1)]);
    assert!(model.values[0].initializer.as_ref().unwrap().name.is_none());
}

#[test]
fn tensor_pickles_and_legacy_pickles_lower_to_builtin_nodes() {
    let legacy_tensor = || LegacyTensor { element_type: TensorElementType::Int64, element_size: 8, shape: vec![2], byte_len: 16 };
    let tensor = legacy_tensor();
    let pickle = TensorPickle { tensors: vec![legacy_tensor()], list: true };
    let model = lower_tensor_pickle(&pickle);
    assert_eq!(model.format, "PyTorch Pickle");
    assert_eq!(model.nodes[0].operator, "builtins.list");
    assert_eq!(model.values[0].initializer.as_ref().unwrap().byte_len, 16);
    let legacy = lower_legacy_tensor_pickle(&tensor);
    assert_eq!(legacy.version.as_deref(), Some("0.1.10"));
    assert_eq!(legacy.nodes[0].operator, "builtins.object");
    assert_eq!(legacy.nodes[0].inputs, vec![Some(0)]);
    let dict = lower_legacy_dict_pickle();
    assert!(dict.values.is_empty());
    assert_eq!(dict.nodes[0].operator, "builtins.dict");
}

#[test]
fn data_pickles_lower_to_one_operator_node() {
    let pickle = DataPickle { operator: "torch.nn.Conv2d".to_owned(), inputs: vec!["x".to_owned(), "w".to_owned()] };
    let model = lower_data_pickle_with_format_and_null_inputs(&pickle, "PyTorch", None, 2);
    assert_eq!(model.values.len(), 2);
    assert_eq!(model.values[1].name.as_deref(), Some("w"));
    assert_eq!(model.values[1].shape, Some(vec![]));
    assert!(model.values[1].element_type.is_none());
    assert_eq!(model.nodes[0].operator, "torch.nn.Conv2d");
    assert_eq!(model.nodes[0].inputs, vec![Some(0), Some(1), None, None]);
    let bare = lower_data_pickle_operator_with_null_inputs("op".to_owned(), "PyTorch", None, 1);
    assert!(bare.values.is_empty());
    assert_eq!(bare.nodes[0].inputs, vec![None]);
}

#[test]
fn legacy_pickles_lower_by_kind() {
    let group = |name: &str| NestedStateDictGroup { name: name.to_owned(), entries: vec![] };
    let mtcnn = NestedStateDict { groups: vec![group("rnet"), group("onet"), group("pnet")] };
    assert!(is_legacy_mtcnn_state_dict(&mtcnn));
    let other = NestedStateDict { groups: vec![group("rnet"), group("onet"), group("onet")] };
    assert!(!is_legacy_mtcnn_state_dict(&other));
    let model = lower_legacy_pickle(&LegacyPickle::NestedStateDict(mtcnn)).unwrap();
    assert_eq!(model.nodes[0].operator, "builtins.dict");
    let model = lower_legacy_pickle(&LegacyPickle::NestedStateDict(other)).unwrap();
    assert_eq!(model.nodes.len(), 3);
    assert_eq!(model.version.as_deref(), Some("0.1.10"));
    let linear = vec![LegacyTensor { element_type: TensorElementType::Float32, element_size: 4, shape: vec![2, 3], byte_len: 24 }];
    let model = lower_legacy_pickle(&LegacyPickle::LinearModule(linear)).unwrap();
    assert_eq!(model.nodes[0].operator, "torch.nn.modules.linear.Linear");
    assert_eq!(model.values[0].shape, Some(vec![2, 3]));
    assert_eq!(lower_legacy_pickle(&LegacyPickle::ValidBertBaseUncased).unwrap_err().kind, ErrorKind::Unsupported);
}

#[test]
fn pytorch_pickles_are_detected_by_name_and_lowered() {
    let dict = ordered_state_dict();
    assert_eq!(PyTorchFormat.detect(Some("model.pth"), &dict), Confidence::High);
    assert_eq!(PyTorchFormat.detect(None, &dict), Confidence::NoMatch);
    let zipped = local_entry("archive/model.pth", &dict);
    assert_eq!(PyTorchFormat.detect(None, &zipped), Confidence::High);
    let model = PyTorchFormat.parse_pickle(Some("model.pth"), &dict).unwrap();
    assert_eq!(model.format, "PyTorch Pickle");
    assert_eq!(model.values.len(), 1);
    assert_eq!(model.values[0].name.as_deref(), Some("weight"));
    assert_eq!(model.nodes.len(), 1);
    assert_eq!(model.nodes[0].operator, "Weights");
    assert_eq!(model.nodes[0].name, None);
    let mut class = vec![0x80, 0x02];
    class.extend(global("__torch__.model", "Net"));
    class.push(b'.');
    assert_eq!(PyTorchFormat.detect(Some("net.pt"), &class), Confidence::High);
    let model = PyTorchFormat.parse_pickle(None, &class).unwrap();
    assert_eq!(model.nodes[0].operator, "__torch__.model.Net");
    assert!(model.values.is_empty());
    assert!(PyTorchFormat.parse_pickle(None, &[0x80, 0x02, b']', b'.']).is_err());
}

#[test]
fn exported_programs_read_their_json_version_and_initializers() {
    let program = br#"{"graph_module": {"signature": {"inputs_to_parameters": {"p_w": "w", "p_b": "b"}},
        "graph": {"tensor_values": {"p_w": {"dtype": 7, "sizes": [{"as_int": 2}, {"as_int": 3}]},
        "p_b": {"dtype": 7, "sizes": [{"as_int": 2}]}}}}, "schema_version": {"major": 8, "minor": 1}}"#;
    let mut data = local_entry("model/serialized_exported_program.json", program);
    data.extend(local_entry("model/version", b" 2.5 \n"));
    let read = ExportedProgramArchive::read(&data).unwrap();
    assert_eq!(read.version.as_deref(), Some("2.5"));
    assert_eq!(read.initializers.len(), 2);
    let w = read.initializers.iter().find(|(arg, _)| arg == "p_w").unwrap();
    assert_eq!(w.1.name, "w");
    assert_eq!(w.1.tensor.shape, vec![2, 3]);
    assert_eq!(w.1.tensor.byte_len, 24);
    let bare = local_entry("model/serialized_exported_program.json", program);
    assert_eq!(ExportedProgramArchive::read(&bare).unwrap().version.as_deref(), Some("8.1"));
    let broken = local_entry("model/serialized_exported_program.json", b"{");
    assert!(ExportedProgramArchive::read(&broken).is_err());
}
