use netron_rs_formats::error::{ErrorKind, Format, ModelError};
use netron_rs_formats::graph::Confidence;
use netron_rs_formats::pytorch::dtypes::TensorElementType;
use netron_rs_formats::safetensors::{
    HeaderEntry, Reader, SafetensorsFormat, index_file, is_index_path, read_index, split_group_name,
    validate_index_file,
};

fn file(header: &str, data_len: usize) -> Vec<u8> {
    let mut out = (header.len() as u64).to_le_bytes().to_vec();
    out.extend_from_slice(header.as_bytes());
    out.extend(std::iter::repeat(0u8).take(data_len));
    out
}

fn st_error(kind: ErrorKind) -> ModelError {
    ModelError { format: Format::Safetensors, kind }
}

fn entry(dtype: &str, shape: Vec<i64>, start: usize, end: usize) -> Option<HeaderEntry> {
    Some(HeaderEntry { dtype: dtype.to_owned(), shape, data_offsets: [start, end] })
}

#[test]
fn reader_opens_a_framed_header() {
    let data = file("{\"a\":1}", 4);
    let reader = Reader::open(&data).unwrap();
    assert_eq!(reader.header_len, 7);
    assert_eq!(reader.header().unwrap(), b"{\"a\":1}");
}

#[test]
fn reader_refuses_a_header_that_is_no_object() {
    assert!(Reader::open(&file("[1,2,3]", 4)).is_none());
}

#[test]
fn reader_refuses_a_header_that_fills_the_file() {
    assert!(Reader::open(&file("{\"a\":1}", 0)).is_none());
    assert!(Reader::open(&[1, 0, 0, 0, 0, 0, 0, 0, b'{']).is_none());
}

#[test]
fn reader_refuses_an_empty_header_length() {
    let mut data = vec![0u8; 8];
    data.extend_from_slice(b"{}xx");
    assert!(Reader::open(&data).is_none());
}

#[test]
fn entries_skip_metadata_and_measure_data() {
    let data = file("{}", 16);
    let reader = Reader::open(&data).unwrap();
    let members = vec![
        ("__metadata__".to_owned(), None),
        ("layer.weight".to_owned(), entry("F32", vec![2, 2], 0, 16)),
    ];
    let entries = reader.read(members).unwrap();
    assert_eq!(entries.len(), 1);
    assert_eq!(entries[0].name, "layer.weight");
    assert_eq!(entries[0].dtype, "F32");
    assert_eq!(entries[0].shape, vec![2, 2]);
    assert_eq!(entries[0].byte_len, 16);
}

#[test]
fn entries_refuse_data_outside_the_file() {
    let data = file("{}", 8);
    let reader = Reader::open(&data).unwrap();
    let members = vec![("w".to_owned(), entry("F32", vec![4], 0, 16))];
    assert_eq!(reader.read(members).err().map(|e| e.kind), Some(ErrorKind::InvalidValue));
}

#[test]
fn entries_refuse_a_negative_dimension() {
    let data = file("{}", 8);
    let reader = Reader::open(&data).unwrap();
    let members = vec![("w".to_owned(), entry("F32", vec![-1], 0, 4))];
    assert_eq!(reader.read(members).err(), Some(st_error(ErrorKind::InvalidValue)));
}

#[test]
fn entries_refuse_a_member_that_is_no_tensor() {
    let data = file("{}", 8);
    let reader = Reader::open(&data).unwrap();
    let members = vec![("w".to_owned(), None)];
    assert_eq!(reader.read(members).err(), Some(st_error(ErrorKind::InvalidValue)));
}

#[test]
fn index_path_is_recognised_by_its_suffix() {
    assert!(is_index_path(Some("model.safetensors.index.json")));
    assert!(!is_index_path(Some("model.safetensors")));
    assert!(!is_index_path(None));
}

#[test]
fn shard_paths_must_stay_inside_the_directory() {
    assert!(validate_index_file("model-00001.safetensors").is_ok());
    assert!(validate_index_file("shards/model.safetensors").is_ok());
    assert_eq!(validate_index_file("/etc/passwd").err(), Some(st_error(ErrorKind::InvalidValue)));
    assert!(validate_index_file("../model.safetensors").is_err());
    assert!(validate_index_file("a/../../b.safetensors").is_err());
    assert!(validate_index_file("a/..b.safetensors").is_ok());
}

#[test]
fn group_name_is_what_precedes_the_last_dot() {
    assert_eq!(split_group_name("encoder.layer.0.weight"), ("encoder.layer.0", "weight"));
    assert_eq!(split_group_name("bias"), ("", "bias"));
    let (group, name) = split_group_name("a.b");
    assert_eq!(format!("{group}.{name}"), "a.b");
}

#[test]
fn index_needs_shard_file_values() {
    let map = vec![
        ("w1".to_owned(), Some("model-1.safetensors".to_owned())),
        ("w2".to_owned(), Some("model-2.safetensors".to_owned())),
    ];
    let index = index_file(map).unwrap();
    assert_eq!(index.weight_map.len(), 2);
    assert_eq!(index.weight_map[1].1, "model-2.safetensors");
    assert!(index_file(vec![("w".to_owned(), Some("model.bin".to_owned()))]).is_none());
    assert!(index_file(vec![("w".to_owned(), None)]).is_none());
    assert!(index_file(Vec::new()).is_none());
}

#[test]
fn shard_files_are_listed_once_in_order() {
    let map = vec![
        ("w1".to_owned(), Some("b.safetensors".to_owned())),
        ("w2".to_owned(), Some("a.safetensors".to_owned())),
        ("w3".to_owned(), Some("b.safetensors".to_owned())),
    ];
    let index = index_file(map).unwrap();
    assert_eq!(
        index.shard_files().unwrap(),
        vec!["b.safetensors".to_owned(), "a.safetensors".to_owned()]
    );
}

#[test]
fn shard_files_refuse_an_unsafe_path() {
    let map = vec![("w".to_owned(), Some("../x.safetensors".to_owned()))];
    let index = index_file(map).unwrap();
    assert_eq!(index.shard_files().err(), Some(st_error(ErrorKind::InvalidValue)));
}

#[test]
fn reader_entries_read_the_json_header() {
    let header = r#"{"__metadata__":{"format":"pt"},"b":{"dtype":"F32","shape":[2],"data_offsets":[0,8]},"a":{"dtype":"I8","shape":[],"data_offsets":[8,9]}}"#;
    let data = file(header, 9);
    let entries = Reader::open(&data).unwrap().entries().unwrap();
    assert_eq!(entries.len(), 2);
    assert_eq!(entries[0].name, "a");
    assert_eq!(entries[0].byte_len, 1);
    assert_eq!(entries[1].name, "b");
    assert_eq!(entries[1].shape, vec![2]);
    assert_eq!(entries[1].byte_len, 8);
}

#[test]
fn reader_entries_refuse_bad_json_and_bad_entries() {
    let data = file("{not json", 0);
    let reader = Reader { data: &data, header_len: 9 };
    assert_eq!(reader.entries().unwrap_err(), st_error(ErrorKind::InvalidJson));
    let data = file(r#"{"a":{"dtype":"F32","shape":[1],"data_offsets":[0,8]}}"#, 4);
    assert_eq!(Reader::open(&data).unwrap().entries().unwrap_err(), st_error(ErrorKind::InvalidValue));
    let data = file(r#"{"a":{"dtype":"F32","shape":[1]}}"#, 4);
    assert_eq!(Reader::open(&data).unwrap().entries().unwrap_err(), st_error(ErrorKind::InvalidValue));
    let data = file(r#"{"a":["F32",[1],[0,4]]}"#, 4);
    assert_eq!(Reader::open(&data).unwrap().entries().unwrap()[0].byte_len, 4);
}

#[test]
fn read_index_reads_the_weight_map() {
    let index = read_index(br#"{"weight_map":{"w":"model-1.safetensors","b":"model-2.safetensors"}}"#).unwrap();
    assert_eq!(index.weight_map, vec![
        ("b".to_owned(), "model-2.safetensors".to_owned()),
        ("w".to_owned(), "model-1.safetensors".to_owned()),
    ]);
    assert!(read_index(br#"{"weight_map":{"w":"model.bin"}}"#).is_none());
    assert!(read_index(br#"{"weight_map":{}}"#).is_none());
    assert!(read_index(b"not json").is_none());
}

#[test]
fn safetensors_file_lowers_to_module_nodes_by_group() {
    let header = r#"{"conv.weight":{"dtype":"F32","shape":[2,2],"data_offsets":[0,16]},"conv.bias":{"dtype":"F16","shape":[2],"data_offsets":[16,20]},"scale":{"dtype":"BF16","shape":[],"data_offsets":[20,22]}}"#;
    let data = file(header, 22);
    let model = SafetensorsFormat.parse(&data).unwrap();
    assert_eq!(model.format, "Safetensors");
    assert_eq!(model.values.len(), 3);
    // serde_json's map holds the members sorted by key.
    assert_eq!(model.values[0].name.as_deref(), Some("conv.bias"));
    assert_eq!(model.values[1].name.as_deref(), Some("conv.weight"));
    assert_eq!(model.values[2].name.as_deref(), Some("scale"));
    let tensor = model.values[1].initializer.as_ref().unwrap();
    assert!(matches!(tensor.element_type, TensorElementType::Float32));
    assert_eq!(tensor.shape, vec![2, 2]);
    assert_eq!(tensor.byte_len, 16);
    assert_eq!(model.nodes.len(), 2);
    assert_eq!(model.nodes[0].name.as_deref(), Some("conv"));
    assert_eq!(model.nodes[0].operator, "Module");
    assert_eq!(model.nodes[0].inputs, vec![Some(0), Some(1)]);
    assert_eq!(model.nodes[1].name, None);
    assert_eq!(model.nodes[1].inputs, vec![Some(2)]);
    assert_eq!(model.consumers(1), vec![0]);
    assert_eq!(model.consumers(2), vec![1]);
}

#[test]
fn safetensors_parse_refuses_unknown_dtypes_and_other_files() {
    let data = file(r#"{"a":{"dtype":"C64","shape":[],"data_offsets":[0,8]}}"#, 8);
    assert_eq!(SafetensorsFormat.parse(&data).unwrap_err(), st_error(ErrorKind::Unsupported));
    assert_eq!(SafetensorsFormat.parse(b"hello").unwrap_err(), st_error(ErrorKind::NotFormat));
    let index = br#"{"weight_map":{"a":"m.safetensors"}}"#;
    assert_eq!(SafetensorsFormat.parse(index).unwrap_err(), st_error(ErrorKind::Missing));
}

#[test]
fn safetensors_detect_by_name_and_frame() {
    let data = file(r#"{"a":1}"#, 1);
    assert_eq!(SafetensorsFormat.detect(Some("model.SafeTensors"), b""), Confidence::High);
    assert_eq!(SafetensorsFormat.detect(Some("model.safetensors.index.json"), b""), Confidence::High);
    assert_eq!(SafetensorsFormat.detect(Some(".safetensors"), b""), Confidence::NoMatch);
    assert_eq!(SafetensorsFormat.detect(None, &data), Confidence::Medium);
    assert_eq!(SafetensorsFormat.detect(Some("x.bin"), b"nothing"), Confidence::NoMatch);
    let metadata = SafetensorsFormat.metadata();
    assert_eq!(metadata.name, "Safetensors");
    assert_eq!(metadata.extensions, vec!["safetensors".to_owned(), "safetensors.index.json".to_owned()]);
}

#[test]
fn safetensors_index_lowers_the_entries_its_map_names() {
    let index = read_index(br#"{"weight_map":{"b":"two.safetensors","a":"one.safetensors"}}"#).unwrap();
    let one = file(r#"{"a":{"dtype":"I8","shape":[1],"data_offsets":[0,1]},"z":{"dtype":"I8","shape":[],"data_offsets":[0,1]}}"#, 1);
    let two = file(r#"{"b":{"dtype":"U8","shape":[2],"data_offsets":[0,2]}}"#, 2);
    let files = index.shard_files().unwrap();
    assert_eq!(files, vec!["one.safetensors".to_owned(), "two.safetensors".to_owned()]);
    let model = SafetensorsFormat.parse_index(&index, &vec![one.clone(), two.clone()]).unwrap();
    assert_eq!(model.values.len(), 2);
    assert_eq!(model.values[0].name.as_deref(), Some("a"));
    assert_eq!(model.values[1].name.as_deref(), Some("b"));
    assert_eq!(model.nodes.len(), 1);
    assert_eq!(model.nodes[0].inputs, vec![Some(0), Some(1)]);
    assert_eq!(SafetensorsFormat.parse_index(&index, &vec![one.clone()]).unwrap_err(), st_error(ErrorKind::Missing));
    assert_eq!(SafetensorsFormat.parse_index(&index, &vec![two.clone(), one.clone()]).unwrap_err(), st_error(ErrorKind::Missing));
    assert_eq!(SafetensorsFormat.parse_index(&index, &vec![one, b"junk".to_vec()]).unwrap_err(), st_error(ErrorKind::NotFormat));
}
