use netron_rs_formats::error::{ErrorKind, Format};
use netron_rs_formats::tflite::operators::{
    builtin_operator_name, display_builtin_operator_name, operator_code,
};
use netron_rs_formats::tflite::tables::{OperatorCode, SignatureDefInfo, TensorMapInfo};
use netron_rs_formats::tflite::{
    combined_description, join_i64, signature_boundary_indexes, tensor_type_attribute_name,
    FlatReader,
};

/// A buffer whose root table has an `i32` 42 in slot 4 and the string "hi"
/// in slot 6.
fn small_buffer() -> Vec<u8> {
    let mut data = Vec::new();
    data.extend(12u32.to_le_bytes()); // root offset
    data.extend(8u16.to_le_bytes()); // vtable length
    data.extend(12u16.to_le_bytes()); // table length
    data.extend(4u16.to_le_bytes()); // slot 4
    data.extend(8u16.to_le_bytes()); // slot 6
    data.extend(8i32.to_le_bytes()); // table: distance back to the vtable
    data.extend(42i32.to_le_bytes()); // slot 4 value
    data.extend(4u32.to_le_bytes()); // slot 6: offset to the string
    data.extend(2u32.to_le_bytes());
    data.extend(b"hi\0\0");
    data
}

fn code(deprecated: i8, custom: Option<&str>, version: i32, builtin: i32) -> OperatorCode {
    OperatorCode {
        deprecated_builtin_code: deprecated,
        custom_code: custom.map(|s| s.to_owned()),
        version,
        builtin_code: builtin,
    }
}

#[test]
fn flat_reader_reads_fields_of_the_root_table() {
    let data = small_buffer();
    let reader = FlatReader { data: &data };
    let root = reader.root().unwrap();
    assert_eq!(root, 12);
    assert_eq!(reader.i32_field(root, 4, 0), 42);
    assert_eq!(reader.string_field(root, 6).unwrap().as_deref(), Some("hi"));
    assert_eq!(reader.i32_field(root, 8, 7), 7);
    assert_eq!(reader.field(root, 10).unwrap(), None);
}

#[test]
fn flat_reader_refuses_a_short_buffer() {
    let data = [1u8, 0];
    let reader = FlatReader { data: &data };
    let e = reader.root().unwrap_err();
    assert_eq!(e.format, Format::Tflite);
    assert_eq!(e.kind, ErrorKind::Truncated);
}

#[test]
fn operator_code_table_is_read_with_defaults() {
    let data = small_buffer();
    let reader = FlatReader { data: &data };
    let c = OperatorCode::read(&reader, 12).unwrap();
    assert_eq!(c.deprecated_builtin_code, 42);
    assert_eq!(c.custom_code.as_deref(), Some("hi"));
    assert_eq!(c.version, 1);
    assert_eq!(c.builtin_code, 0);
    let info = operator_code(&c);
    assert_eq!(info.name, "Div");
    assert_eq!(info.version, Some(1));
    assert!(!info.custom);
}

#[test]
fn builtin_names_come_from_the_table() {
    assert_eq!(builtin_operator_name(3), Some("CONV_2D"));
    assert_eq!(builtin_operator_name(126), Some("BATCH_MATMUL"));
    assert_eq!(builtin_operator_name(-1), None);
    assert_eq!(builtin_operator_name(100000), None);
}

#[test]
fn display_names_are_camel_case_with_kept_parts() {
    assert_eq!(display_builtin_operator_name("BATCH_MATMUL"), "BatchMatMul");
    assert_eq!(display_builtin_operator_name("CONV_2D"), "Conv2D");
    assert_eq!(display_builtin_operator_name("LSTM"), "LSTM");
    assert_eq!(display_builtin_operator_name("L2_NORMALIZATION"), "L2Normalization");
    assert_eq!(display_builtin_operator_name("A__B"), "AB");
}

#[test]
fn operator_names_of_custom_and_unknown_codes() {
    let custom = operator_code(&code(0, Some("MyOp"), 2, 32));
    assert_eq!(custom.name, "MyOp");
    assert!(custom.custom);
    assert_eq!(custom.version, Some(2));
    assert_eq!(operator_code(&code(32, Some(""), 1, 0)).name, "Custom");
    assert_eq!(operator_code(&code(0, None, 1, 32)).name, "Custom");
    let unknown = operator_code(&code(0, None, 1, 999));
    assert_eq!(unknown.name, "999");
    assert!(!unknown.custom);
    assert_eq!(operator_code(&code(3, None, 1, 0)).name, "Conv2D");
    assert_eq!(operator_code(&code(0, None, 1, 126)).name, "BatchMatMul");
}

#[test]
fn descriptions_are_joined_with_a_space() {
    let s = |v: &str| Some(v.to_owned());
    assert_eq!(combined_description(s("a"), s("b")).as_deref(), Some("a b"));
    assert_eq!(combined_description(s("a"), s("")).as_deref(), Some("a"));
    assert_eq!(combined_description(None, s("b")).as_deref(), Some("b"));
    assert_eq!(combined_description(None, s("")), None);
    assert_eq!(combined_description(None, None), None);
}

#[test]
fn boundary_indexes_keep_first_occurrences() {
    let maps = |v: &[u32]| v.iter().map(|&i| TensorMapInfo { tensor_index: i }).collect::<Vec<_>>();
    let a = SignatureDefInfo { inputs: maps(&[3, 1, 3]), outputs: maps(&[9]), subgraph_index: 0 };
    let b = SignatureDefInfo { inputs: maps(&[1, 4]), outputs: maps(&[9, 8]), subgraph_index: 0 };
    let both = [&a, &b];
    assert_eq!(signature_boundary_indexes(&both, true), vec![3, 1, 4]);
    assert_eq!(signature_boundary_indexes(&both, false), vec![9, 8]);
    assert_eq!(signature_boundary_indexes(&[], true), Vec::<i32>::new());
}

#[test]
fn join_i64_writes_decimals_with_commas() {
    assert_eq!(join_i64(&[]), "");
    assert_eq!(join_i64(&[1, -2, 30]), "1,-2,30");
    assert_eq!(join_i64(&[i64::MIN]), "-9223372036854775808");
}

#[test]
fn tensor_type_names() {
    assert_eq!(tensor_type_attribute_name(0), "FLOAT32");
    assert_eq!(tensor_type_attribute_name(9), "INT8");
    assert_eq!(tensor_type_attribute_name(18), "BFLOAT16");
    assert_eq!(tensor_type_attribute_name(-1), "?");
    assert_eq!(tensor_type_attribute_name(100), "?");
}
