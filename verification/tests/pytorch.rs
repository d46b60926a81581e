use std::io::Write;

use netron_rs_formats::error::{ErrorKind, Format};
use netron_rs_formats::pytorch::detect::{LegacyPickle, TensorPickle};
use netron_rs_formats::pytorch::exported::{
    exported_program_multi_output_node_base, exported_program_operator_name,
    exported_program_scalar_output_node_base, exported_program_target_overload,
    exported_program_unique_generated_name, sanitize_exported_program_json, NameCounts,
};
use netron_rs_formats::pytorch::legacy::{
    checked_byte_len, legacy_tar_pickle_entries, read_legacy_tar_i32, read_legacy_tar_i64,
    read_legacy_tar_u64, read_pickle_int_record, skip_legacy_tar_bytes,
};
use netron_rs_formats::pytorch::names::{
    first_non_empty_line, is_pickle_path, is_tensor_data_pickle_path, logical_zip_path,
    package_pickle_input_count, package_relative_path, pytorch_package_version,
    sparse_layout_name, state_dict_group_name, torchscript_version,
};
use netron_rs_formats::pytorch::tar::PyTorchTarArchive;
use netron_rs_formats::pytorch::torchscript::TorchScriptSource;
use netron_rs_formats::pytorch::script::parse_generated_shape;
use netron_rs_formats::pytorch::zip::{ZipArchive, ZipEntry};

const MAGIC: [u8; 14] = [
    0x80, 0x02, 0x8a, 0x0a, 0x6c, 0xfc, 0x9c, 0x46, 0xf9, 0x20, 0x6a, 0xa8, 0x50, 0x19,
];

fn short_text(s: &str) -> Vec<u8> {
    let mut out = vec![0x8c, s.len() as u8];
    out.extend_from_slice(s.as_bytes());
    out
}

fn local_entry(name: &str, method: u16, payload: &[u8], size: u32) -> Vec<u8> {
    let mut out = b"PK\x03\x04".to_vec();
    out.extend(20u16.to_le_bytes());
    out.extend(0u16.to_le_bytes());
    out.extend(method.to_le_bytes());
    out.extend([0u8; 8]); // time, date, crc
    out.extend((payload.len() as u32).to_le_bytes());
    out.extend(size.to_le_bytes());
    out.extend((name.len() as u16).to_le_bytes());
    out.extend(0u16.to_le_bytes());
    out.extend_from_slice(name.as_bytes());
    out.extend_from_slice(payload);
    out
}

fn deflate(payload: &[u8]) -> Vec<u8> {
    let mut encoder = flate2::write::DeflateEncoder::new(Vec::new(), flate2::Compression::default());
    encoder.write_all(payload).unwrap();
    encoder.finish().unwrap()
}

// Pickle records and raw fields

#[test]
fn int_record_keeps_the_last_integer_and_moves_past_the_stop() {
    // BININT1 3, BININT1 9, STOP, then more bytes
    let data = [0xff, b'K', 3, b'K', 9, b'.', 0xee];
    let mut offset = 1;
    assert_eq!(read_pickle_int_record(&data, &mut offset, "size").unwrap(), 9);
    assert_eq!(offset, 6);
}

#[test]
fn int_record_without_an_integer_is_missing() {
    let data = [b'N', b'.'];
    let mut offset = 0;
    let e = read_pickle_int_record(&data, &mut offset, "size").unwrap_err();
    assert_eq!(e.format, Format::PyTorch);
    assert_eq!(e.kind, ErrorKind::Missing);
    let mut past = 5;
    assert_eq!(read_pickle_int_record(&data, &mut past, "size").unwrap_err().kind, ErrorKind::Truncated);
}

#[test]
fn raw_fields_are_little_endian() {
    let data = [0xfe, 0xff, 0xff, 0xff, 1, 0, 0, 0, 0, 0, 0, 0x80, 7];
    let mut offset = 0;
    assert_eq!(read_legacy_tar_i32(&data, &mut offset, "a").unwrap(), -2);
    assert_eq!(offset, 4);
    let mut offset = 4;
    assert_eq!(read_legacy_tar_i64(&data, &mut offset, "b").unwrap(), i64::MIN + 1);
    assert_eq!(offset, 12);
    let mut offset = 4;
    assert_eq!(read_legacy_tar_u64(&data, &mut offset, "c").unwrap(), 0x8000_0000_0000_0001);
    let mut offset = 12;
    assert_eq!(read_legacy_tar_i32(&data, &mut offset, "d").unwrap_err().kind, ErrorKind::Truncated);
    assert_eq!(offset, 12);
    let mut offset = 1;
    skip_legacy_tar_bytes(&data, &mut offset, 12, "e").unwrap();
    assert_eq!(offset, 13);
    let mut offset = usize::MAX;
    assert_eq!(skip_legacy_tar_bytes(&data, &mut offset, 2, "f").unwrap_err().kind, ErrorKind::Overflow);
}

#[test]
fn byte_lengths_of_shapes() {
    assert_eq!(checked_byte_len(&[], 4).unwrap(), 4);
    assert_eq!(checked_byte_len(&[2, 3], 4).unwrap(), 24);
    assert_eq!(checked_byte_len(&[2, 0, 5], 8).unwrap(), 0);
    assert_eq!(checked_byte_len(&[2, 1], 2).unwrap(), checked_byte_len(&[2], 2).unwrap());
    assert_eq!(checked_byte_len(&[2, -1], 4).unwrap_err().kind, ErrorKind::InvalidValue);
    assert_eq!(checked_byte_len(&[i64::MAX, 4], 1).unwrap_err().kind, ErrorKind::Overflow);
    assert_eq!(checked_byte_len(&[1 << 62], 8).unwrap_err().kind, ErrorKind::Overflow);
}

#[test]
fn legacy_tar_entries_pair_keys_with_tensor_keys() {
    let mut data = vec![0x80, 0x02, b'}'];
    data.extend(short_text("w"));
    data.extend(short_text("12"));
    data.push(b'Q');
    data.extend(short_text("b"));
    data.extend(short_text("7"));
    data.push(b'Q');
    data.push(b'.');
    let entries = legacy_tar_pickle_entries(&data).unwrap();
    assert_eq!(entries, vec![("w".to_owned(), 12), ("b".to_owned(), 7)]);
}

#[test]
fn legacy_tar_entries_refuse_missing_and_bad_keys() {
    let mut missing = vec![0x80, 0x02];
    missing.extend(short_text("w"));
    missing.extend([b'Q', b'.']);
    assert_eq!(legacy_tar_pickle_entries(&missing).unwrap_err().kind, ErrorKind::Missing);
    let mut bad = vec![0x80, 0x02];
    bad.extend(short_text("w"));
    bad.extend(short_text("x1"));
    bad.extend([b'Q', b'.']);
    assert_eq!(legacy_tar_pickle_entries(&bad).unwrap_err().kind, ErrorKind::InvalidValue);
}

// Detection

#[test]
fn legacy_magic_is_recognised() {
    let mut data = MAGIC.to_vec();
    data.push(b'.');
    assert!(LegacyPickle::detect(&data));
    assert!(!LegacyPickle::detect(&MAGIC[..13]));
    let mut later = vec![0u8; 5];
    later.extend(MAGIC);
    assert!(!LegacyPickle::detect(&later));
    assert!(TensorPickle::detect(&later));
    assert!(!TensorPickle::detect(&later[..18]));
}

// Exported program names

#[test]
fn exported_operator_names() {
    assert_eq!(exported_program_operator_name("torch.ops.aten.conv2d.default"), "conv2d");
    assert_eq!(exported_program_operator_name("torch.ops.prims.add"), "add");
    assert_eq!(exported_program_operator_name("torch.ops.quant.linear.default"), "linear");
    assert_eq!(exported_program_operator_name("torch.ops.quant.linear.Tensor"), "linear");
    assert_eq!(exported_program_operator_name("torch.ops.quant.linear.out"), "out");
    assert_eq!(exported_program_operator_name("_operator.getitem"), "getitem");
    assert_eq!(exported_program_operator_name("relu"), "relu");
}

#[test]
fn exported_overloads_and_bases() {
    assert_eq!(exported_program_target_overload("torch.ops.aten.max.dim"), "dim");
    assert_eq!(exported_program_target_overload("torch.ops.aten.relu"), "");
    assert_eq!(exported_program_target_overload("_operator.getitem"), "");
    assert_eq!(exported_program_multi_output_node_base("torch.ops.aten.max.dim", "max"), "max__dim");
    assert_eq!(exported_program_multi_output_node_base("torch.ops.aten.max.default", "max"), "max_default");
    assert_eq!(exported_program_multi_output_node_base("torch.ops.aten.max", "max"), "max_default");
    assert_eq!(exported_program_scalar_output_node_base("torch.ops.aten.add.Tensor", "add"), "add_tensor");
    assert_eq!(exported_program_scalar_output_node_base("torch.ops.aten.add", "add"), "add");
}

#[test]
fn generated_names_are_numbered_and_distinct() {
    let mut counts = NameCounts::new();
    let a = exported_program_unique_generated_name("x".to_owned(), &mut counts);
    let b = exported_program_unique_generated_name("x".to_owned(), &mut counts);
    let c = exported_program_unique_generated_name("y".to_owned(), &mut counts);
    let d = exported_program_unique_generated_name("x".to_owned(), &mut counts);
    assert_eq!((a.as_str(), b.as_str(), c.as_str(), d.as_str()), ("x", "x_1", "y", "x_2"));
    assert!(a != b && b != d && a != d);
}

#[test]
fn non_finite_json_numbers_become_null() {
    assert_eq!(
        sanitize_exported_program_json(r#"{"a": NaN, "b": [-Infinity, Infinity], "c": "NaN"}"#).as_deref(),
        Some(r#"{"a": null, "b": [null, null], "c": "NaN"}"#)
    );
    assert_eq!(sanitize_exported_program_json(r#"{"a": 1, "s": "x\"NaN"}"#), None);
}

// TorchScript sources

#[test]
fn torchscript_le_source_becomes_one_node() {
    let source = "class M(Module):\n  def forward(self: __torch__.M,\n    x: Tensor,\n    y: Tensor) -> Tensor:\n    return torch.le(x, y)\n";
    let graph = TorchScriptSource::parse(source, "code/m.py", Some("gen.py")).unwrap();
    let names: Vec<&str> = graph.values.iter().map(|v| v.name.as_str()).collect();
    assert_eq!(names, vec!["%x.1", "%y.1", "%5"]);
    assert!(graph.values[0].graph_input && !graph.values[0].graph_output);
    assert!(graph.values[2].graph_output && !graph.values[2].graph_input);
    assert_eq!(graph.nodes.len(), 1);
    let node = &graph.nodes[0];
    assert_eq!(node.operator, "le");
    assert_eq!(
        node.metadata,
        vec![
            ("source".to_owned(), "code/m.py:5:16".to_owned()),
            ("generated".to_owned(), "gen.py:4:0".to_owned()),
        ]
    );
    assert_eq!(node.inputs, vec!["%x.1".to_owned(), "%y.1".to_owned()]);
    assert_eq!(node.outputs, vec!["%5".to_owned()]);
    let plain = TorchScriptSource::parse(source, "code/m.py", None).unwrap();
    assert_eq!(plain.nodes[0].metadata[1].1, ":0:0");
}

#[test]
fn torchscript_multiply_source_becomes_three_nodes() {
    let source = "def forward(self,\n    x: Tensor) -> Tensor:\n  d = {\"a\": 1}\n  return x * d[\"a\"]\n";
    let graph = TorchScriptSource::parse(source, "p", None).unwrap();
    let names: Vec<&str> = graph.values.iter().map(|v| v.name.as_str()).collect();
    assert_eq!(names, vec!["%x.1", "%d.1", "%10", "%11"]);
    let ops: Vec<&str> = graph.nodes.iter().map(|n| n.operator.as_str()).collect();
    assert_eq!(ops, vec!["DictConstruct", "__getitem__", "mul"]);
    assert_eq!(graph.nodes[1].metadata[0].1, "p:4:14");
    assert_eq!(graph.nodes[2].inputs, vec!["%x.1".to_owned(), "%10".to_owned()]);
}

#[test]
fn torchscript_sources_without_a_shape_are_refused() {
    match TorchScriptSource::parse("return 1\n", "p", None) {
        Err(e) => assert_eq!(e.format, Format::PyTorch),
        Ok(_) => panic!("a source without a forward method was accepted"),
    }
    let swapped = "def forward(self,\n    x: Tensor,\n    y: Tensor) -> Tensor:\n  return torch.le(y, x)\n";
    assert!(TorchScriptSource::parse(swapped, "p", None).is_err());
}

// Names

#[test]
fn zip_and_package_paths() {
    assert_eq!(logical_zip_path("archive/code/__torch__.py"), "code/__torch__.py");
    assert_eq!(logical_zip_path("archive/data.pkl"), "data.pkl");
    assert_eq!(logical_zip_path("data.pkl"), "data.pkl");
    assert_eq!(package_relative_path("pkg/.data/version"), ".data/version");
    assert_eq!(package_relative_path("version"), "version");
}

#[test]
fn versions_and_counts() {
    assert_eq!(torchscript_version("1").as_deref(), Some("1.3"));
    assert_eq!(torchscript_version("10").as_deref(), Some("1.12"));
    assert_eq!(torchscript_version("11"), None);
    assert_eq!(pytorch_package_version(""), None);
    assert_eq!(pytorch_package_version("6").as_deref(), Some("1.9"));
    assert_eq!(pytorch_package_version("abc").as_deref(), Some("abc"));
    assert_eq!(package_pickle_input_count("release_module.TeModel"), 4);
    assert_eq!(package_pickle_input_count("other"), 0);
}

#[test]
fn state_dict_groups_and_layouts() {
    assert_eq!(state_dict_group_name("layer.0.weight"), Some("layer.0"));
    assert_eq!(state_dict_group_name("weight"), Some(""));
    assert_eq!(state_dict_group_name(""), None);
    assert_eq!(state_dict_group_name(".weight"), None);
    assert_eq!(state_dict_group_name("a._packed_params.b"), None);
    assert_eq!(sparse_layout_name("torch.sparse_coo"), "sparse.coo");
    assert_eq!(sparse_layout_name("sparse_csr"), "sparse.csr");
    assert_eq!(first_non_empty_line("  hello  \nworld").as_deref(), Some("hello"));
    assert_eq!(first_non_empty_line("\nworld"), None);
}

#[test]
fn pickle_paths_by_extension() {
    assert!(is_pickle_path(Some("model.PTH")));
    assert!(is_pickle_path(Some("a.ckpt")));
    assert!(!is_pickle_path(Some("model.bin")));
    assert!(!is_pickle_path(None));
    assert!(is_tensor_data_pickle_path(Some("x.tensor.data.pkl")));
    assert!(!is_tensor_data_pickle_path(Some("x.data.pkl")));
}

// Archives

#[test]
fn zip_entry_bytes_are_inflated() {
    let payload = b"hello hello hello hello";
    let compressed = deflate(payload);
    assert_ne!(compressed.as_slice(), payload.as_slice());
    let entry = ZipEntry {
        name: "a",
        method: 8,
        compressed: &compressed,
        uncompressed_size: payload.len(),
    };
    assert_eq!(entry.bytes().unwrap(), payload.to_vec());
    let short = ZipEntry { uncompressed_size: 3, ..entry };
    assert_eq!(short.bytes().unwrap_err().kind, ErrorKind::SizeMismatch);
    let stored = ZipEntry { name: "b", method: 0, compressed: b"abc", uncompressed_size: 3 };
    assert_eq!(stored.bytes().unwrap(), b"abc".to_vec());
    let other = ZipEntry { name: "c", method: 12, compressed: b"abc", uncompressed_size: 3 };
    assert_eq!(other.bytes().unwrap_err().kind, ErrorKind::Unsupported);
}

#[test]
fn zip_archive_of_local_entries() {
    let compressed = deflate(b"xyzxyzxyz");
    let mut data = local_entry("archive/data.pkl", 0, b"abc", 3);
    data.extend(local_entry("archive/version", 8, &compressed, 9));
    let archive = ZipArchive::open(&data).unwrap();
    assert_eq!(archive.entries.len(), 2);
    assert_eq!(archive.entries[0].name, "archive/data.pkl");
    assert_eq!(archive.entries[0].bytes().unwrap(), b"abc".to_vec());
    assert_eq!(archive.entries[1].bytes().unwrap(), b"xyzxyzxyz".to_vec());
    assert!(ZipArchive::open(b"not a zip").is_err());
}

#[test]
fn tar_archive_with_a_pickle_entry() {
    let mut header = [0u8; 512];
    header[..6].copy_from_slice(b"pickle");
    header[124..136].copy_from_slice(b"00000000005\0");
    let mut data = header.to_vec();
    let mut block = [0u8; 512];
    block[..5].copy_from_slice(b"hello");
    data.extend(block);
    data.extend([0u8; 1024]);
    assert!(PyTorchTarArchive::detect(&data));
    let archive = PyTorchTarArchive::read(&data).unwrap();
    assert_eq!(archive.entries.len(), 1);
    assert_eq!(archive.find("pickle"), Some(&b"hello"[..]));
    assert_eq!(archive.find("other"), None);
    assert!(!PyTorchTarArchive::detect(&[0u8; 1024]));
}

#[test]
fn generated_shapes_read_back_joined_dimensions() {
    assert_eq!(parse_generated_shape("-3,0,12").unwrap(), vec![-3, 0, 12]);
    assert_eq!(parse_generated_shape("").unwrap(), Vec::<i64>::new());
    assert!(parse_generated_shape("1,,2").is_err());
    let dims = vec![i64::MIN, -1, 7, i64::MAX];
    let text = dims.iter().map(|d| d.to_string()).collect::<Vec<_>>().join(",");
    assert_eq!(parse_generated_shape(&text).unwrap(), dims);
}

#[test]
fn logical_zip_paths_are_their_own_paths() {
    for name in ["archive/code/__torch__/m.py", "archive/data.pkl", "plain", "a/b/c"] {
        let path = logical_zip_path(name);
        assert!(name.ends_with(path));
        assert_eq!(logical_zip_path(path), path);
    }
    assert_eq!(logical_zip_path("archive/code/__torch__/m.py"), "code/__torch__/m.py");
    assert_eq!(logical_zip_path("archive/data.pkl"), "data.pkl");
}
