use netron_rs_formats::error::{ErrorKind, Format, ModelError};
use netron_rs_formats::onnx::graph::{AttributeKind, AttributeProto, GraphProto, ModelProto, NodeProto};
use netron_rs_formats::onnx::node_metadata_props;
use netron_rs_formats::onnx::proto::TensorProto;
use netron_rs_formats::onnx::util::{base64_decode, looks_like_json_object};
use netron_rs_formats::strmap::StringMap;

fn varint(mut value: u64) -> Vec<u8> {
    let mut out = Vec::new();
    loop {
        let byte = (value & 0x7f) as u8;
        value >>= 7;
        if value == 0 {
            out.push(byte);
            return out;
        }
        out.push(byte | 0x80);
    }
}

fn varint_field(number: u64, value: u64) -> Vec<u8> {
    let mut out = varint(number << 3);
    out.extend(varint(value));
    out
}

fn bytes_field(number: u64, payload: &[u8]) -> Vec<u8> {
    let mut out = varint((number << 3) | 2);
    out.extend(varint(payload.len() as u64));
    out.extend_from_slice(payload);
    out
}

fn fixed32_field(number: u64, value: u32) -> Vec<u8> {
    let mut out = varint((number << 3) | 5);
    out.extend(value.to_le_bytes());
    out
}

fn onnx_error(kind: ErrorKind) -> ModelError {
    ModelError { format: Format::Onnx, kind }
}

fn small_graph() -> Vec<u8> {
    let mut attribute = bytes_field(1, b"alpha");
    attribute.extend(fixed32_field(2, 0.5f32.to_bits()));
    let mut node = bytes_field(1, b"x");
    node.extend(bytes_field(2, b"y"));
    node.extend(bytes_field(4, b"Relu"));
    node.extend(bytes_field(5, &attribute));
    let mut graph = bytes_field(1, &node);
    graph.extend(bytes_field(2, b"main"));
    graph
}

#[test]
fn model_decodes_versions_producer_and_graph() {
    let mut model = varint_field(1, 8);
    model.extend(bytes_field(2, b"pytorch"));
    model.extend(bytes_field(7, &small_graph()));
    let proto = ModelProto::decode(&model).unwrap();
    assert_eq!(proto.ir_version, Some(8));
    assert_eq!(proto.producer_name.as_deref(), Some("pytorch"));
    assert!(proto.is_onnx_like());
    let graph = proto.graph.unwrap();
    assert_eq!(graph.name.as_deref(), Some("main"));
    assert_eq!(graph.nodes.len(), 1);
    let node = &graph.nodes[0];
    assert_eq!(node.op_type, "Relu");
    assert_eq!(node.inputs, vec!["x".to_owned()]);
    assert_eq!(node.outputs, vec!["y".to_owned()]);
    assert_eq!(node.attributes[0].name, "alpha");
    assert!(matches!(node.attributes[0].kind, Some(AttributeKind::Float(bits)) if bits == 0.5f32.to_bits()));
}

#[test]
fn empty_model_is_not_onnx_like() {
    let proto = ModelProto::decode(&[]).unwrap();
    assert!(!proto.is_onnx_like());
    let graph = GraphProto::decode(&[]).unwrap();
    assert!(!graph.is_graph_like());
}

#[test]
fn graph_with_a_node_is_graph_like() {
    let graph = GraphProto::decode(&small_graph()).unwrap();
    assert!(graph.is_graph_like());
}

#[test]
fn attribute_repeated_values_win_over_a_single_value() {
    let mut attribute = bytes_field(1, b"pads");
    attribute.extend(varint_field(3, 7));
    let mut packed = Vec::new();
    packed.extend(varint(1));
    packed.extend(varint(2));
    attribute.extend(bytes_field(8, &packed));
    let decoded = AttributeProto::decode(&attribute).unwrap();
    assert_eq!(decoded.name, "pads");
    assert!(matches!(&decoded.kind, Some(AttributeKind::Ints(v)) if v == &vec![1, 2]));
}

#[test]
fn attribute_packed_floats_are_kept_as_bits() {
    let mut packed = Vec::new();
    packed.extend(1.0f32.to_le_bytes());
    packed.extend(2.5f32.to_le_bytes());
    let attribute = bytes_field(7, &packed);
    let decoded = AttributeProto::decode(&attribute).unwrap();
    assert!(matches!(&decoded.kind, Some(AttributeKind::Floats(v))
        if v == &vec![1.0f32.to_bits(), 2.5f32.to_bits()]));
}

#[test]
fn attribute_with_a_graph_holds_it() {
    let attribute = bytes_field(6, &small_graph());
    let decoded = AttributeProto::decode(&attribute).unwrap();
    assert!(matches!(&decoded.kind, Some(AttributeKind::Graph(g)) if g.nodes.len() == 1));
}

#[test]
fn packed_floats_of_a_bad_length_are_refused() {
    let attribute = bytes_field(7, &[0, 0, 0]);
    assert_eq!(AttributeProto::decode(&attribute).err(), Some(onnx_error(ErrorKind::InvalidValue)));
}

#[test]
fn node_name_of_the_wrong_wire_type_is_refused() {
    let node = varint_field(3, 1);
    assert_eq!(NodeProto::decode(&node).err(), Some(onnx_error(ErrorKind::WrongWireType)));
}

#[test]
fn truncated_model_is_refused() {
    let mut model = bytes_field(2, b"pytorch");
    model.truncate(4);
    assert_eq!(ModelProto::decode(&model).err(), Some(onnx_error(ErrorKind::Truncated)));
}

#[test]
fn field_zero_is_refused() {
    assert_eq!(ModelProto::decode(&[0x00, 0x01]).err(), Some(onnx_error(ErrorKind::FieldZero)));
}

#[test]
fn tensor_keeps_dims_and_name() {
    let mut tensor = varint_field(1, 2);
    tensor.extend(varint_field(1, 3));
    tensor.extend(varint_field(2, 1));
    tensor.extend(bytes_field(8, b"weight"));
    let decoded = TensorProto::decode(&tensor).unwrap();
    assert_eq!(decoded.dims, vec![2, 3]);
    assert_eq!(decoded.data_type, Some(1));
    assert_eq!(decoded.name.as_deref(), Some("weight"));
    assert!(decoded.is_tensor_like());
}

#[test]
fn node_metadata_drops_named_inputs() {
    let mut props = StringMap::new();
    props.insert("input_names".to_owned(), "[\"x\"]".to_owned());
    props.insert("kept".to_owned(), "1".to_owned());
    let props = node_metadata_props(props);
    assert_eq!(props.get("input_names"), None);
    assert_eq!(props.get("kept").map(|s| s.as_str()), Some("1"));
    assert_eq!(props.len(), 1);
}

#[test]
fn node_metadata_keeps_an_empty_input_list() {
    let mut props = StringMap::new();
    props.insert("input_names".to_owned(), "[]".to_owned());
    let props = node_metadata_props(props);
    assert_eq!(props.get("input_names").map(|s| s.as_str()), Some("[]"));
}

#[test]
fn string_map_insert_replaces_and_remove_forgets() {
    let mut map = StringMap::new();
    map.insert("a".to_owned(), "1".to_owned());
    map.insert("b".to_owned(), "2".to_owned());
    map.insert("a".to_owned(), "3".to_owned());
    assert_eq!(map.len(), 2);
    assert_eq!(map.get("a").map(|s| s.as_str()), Some("3"));
    assert_eq!(map.entries()[0].0, "a");
    map.remove("a");
    assert_eq!(map.get("a"), None);
    assert_eq!(map.len(), 1);
    map.remove("missing");
    assert_eq!(map.len(), 1);
}

#[test]
fn string_map_keeps_its_keys_sorted() {
    let mut map = StringMap::new();
    for key in ["m", "b", "z", "ab", "a", "é", "B"] {
        map.insert(key.to_owned(), key.to_uppercase());
    }
    let keys: Vec<&str> = map.entries().iter().map(|(k, _)| k.as_str()).collect();
    assert_eq!(keys, vec!["B", "a", "ab", "b", "m", "z", "é"]);
    map.remove("b");
    let keys: Vec<&str> = map.entries().iter().map(|(k, _)| k.as_str()).collect();
    assert_eq!(keys, vec!["B", "a", "ab", "m", "z", "é"]);
}

#[test]
fn json_object_is_seen_after_spaces() {
    assert!(looks_like_json_object(b"  \n{\"a\": 1}"));
    assert!(!looks_like_json_object(b"x{"));
}

#[test]
fn base64_decodes_padded_text() {
    assert_eq!(base64_decode("aGVsbG8=").unwrap(), b"hello".to_vec());
}

#[test]
fn base64_decodes_what_standard_encoding_makes() {
    // "Many hands make light work." in standard base64, with a line break.
    let text = "TWFueSBoYW5kcyBt\nYWtlIGxpZ2h0IHdvcmsu";
    assert_eq!(base64_decode(text).unwrap(), b"Many hands make light work.".to_vec());
    assert_eq!(base64_decode("YQ==").unwrap(), b"a".to_vec());
    assert_eq!(base64_decode("YWI=").unwrap(), b"ab".to_vec());
}
