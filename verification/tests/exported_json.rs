use netron_rs_formats::json::JsonValue;
use netron_rs_formats::pytorch::dtypes::{exported_program_dtype, exported_program_dtype_info, TensorElementType};
use netron_rs_formats::pytorch::exported::NameCounts;
use netron_rs_formats::pytorch::exported_json::{
    exported_program_argument_has_tensor, exported_program_argument_names,
    exported_program_argument_names_non_empty, exported_program_expr,
    exported_program_graph_output_names, exported_program_i64, exported_program_initializer_specs,
    exported_program_known_shape, exported_program_node_name, exported_program_node_names,
    exported_program_schema_version, exported_program_signature_entry,
    exported_program_signature_names, exported_program_tensor_value_is_scalar,
    parse_exported_program_json,
};

fn s(v: &str) -> JsonValue {
    JsonValue::String(v.to_owned())
}

fn n(v: i64) -> JsonValue {
    JsonValue::Number(Some(v))
}

fn arr(items: Vec<JsonValue>) -> JsonValue {
    JsonValue::Array(items)
}

fn obj(members: Vec<(&str, JsonValue)>) -> JsonValue {
    JsonValue::Object(members.into_iter().map(|(k, v)| (k.to_owned(), v)).collect())
}

fn typed(kind: &str, value: JsonValue) -> JsonValue {
    obj(vec![("$type", s(kind)), ("$value", value)])
}

fn names(v: &JsonValue) -> Vec<Option<String>> {
    exported_program_argument_names(v)
}

fn some(v: &str) -> Option<String> {
    Some(v.to_owned())
}

#[test]
fn json_get_finds_the_first_member() {
    let v = obj(vec![("a", n(1)), ("b", s("x")), ("a", n(2))]);
    assert_eq!(v.get("a").and_then(|x| x.as_i64()), Some(1));
    assert_eq!(v.get("b").and_then(|x| x.as_str()), Some("x"));
    assert!(v.get("c").is_none());
    assert!(s("a").get("a").is_none());
    assert_eq!(JsonValue::Number(None).as_i64(), None);
}

#[test]
fn argument_names_in_the_typed_form() {
    assert_eq!(names(&typed("as_tensor", obj(vec![("name", s("x"))]))), vec![some("x")]);
    assert_eq!(names(&typed("as_tensor", s("y"))), vec![some("y")]);
    assert_eq!(names(&typed("as_name", s("z"))), vec![some("z")]);
    assert_eq!(names(&typed("as_sym_int", typed("as_name", s("s0")))), vec![some("s0")]);
    let list = typed("as_tensors", arr(vec![obj(vec![("name", s("a"))]), n(3), obj(vec![("name", s("b"))])]));
    assert_eq!(names(&list), vec![some("a"), None, some("b")]);
    assert_eq!(names(&typed("as_ints", arr(vec![n(1), n(2)]))), vec![None, None]);
    assert_eq!(names(&typed("as_float", n(1))), Vec::<Option<String>>::new());
    assert_eq!(names(&typed("as_tensors", n(1))), Vec::<Option<String>>::new());
}

#[test]
fn argument_names_in_the_older_form() {
    assert_eq!(names(&obj(vec![("name", s("x"))])), vec![some("x")]);
    assert_eq!(names(&obj(vec![("as_name", s("x"))])), vec![some("x")]);
    assert_eq!(names(&obj(vec![("as_tensor", obj(vec![("name", s("t"))]))])), vec![some("t")]);
    assert_eq!(names(&obj(vec![("as_sym_float", obj(vec![("as_name", s("f"))]))])), vec![some("f")]);
    let tensors = obj(vec![("as_optional_tensors", arr(vec![obj(vec![("as_tensor", obj(vec![("name", s("o"))]))])]))]);
    assert_eq!(names(&tensors), vec![some("o")]);
    assert_eq!(names(&obj(vec![("as_bools", arr(vec![JsonValue::Bool(true)]))])), vec![None]);
    assert_eq!(names(&obj(vec![("as_ints", n(1))])), Vec::<Option<String>>::new());
    assert_eq!(names(&JsonValue::Null), Vec::<Option<String>>::new());
    assert_eq!(exported_program_argument_names_non_empty(&typed("as_ints", arr(vec![n(1)]))), None);
}

#[test]
fn tensors_and_node_names() {
    assert!(exported_program_argument_has_tensor(&obj(vec![("as_tensor", JsonValue::Null)])));
    assert!(exported_program_argument_has_tensor(&typed("as_tensor", s("x"))));
    assert!(!exported_program_argument_has_tensor(&typed("as_int", n(1))));
    let node = obj(vec![("outputs", arr(vec![typed("as_tensor", obj(vec![("name", s("out"))]))]))]);
    assert_eq!(exported_program_node_name(&node), some("out"));
    assert_eq!(exported_program_node_name(&obj(vec![])), None);
}

#[test]
fn node_names_are_generated_when_outputs_do_not_name_the_node() {
    let mut counts = NameCounts::new();
    let by_output = obj(vec![("outputs", arr(vec![typed("as_tensor", obj(vec![("name", s("out"))]))]))]);
    let r = exported_program_node_names(&by_output, "torch.ops.aten.relu.default", "relu", &mut counts);
    assert_eq!((r.node, r.output_alias), (None, None));
    let scalar = obj(vec![("outputs", arr(vec![typed("as_sym_int", typed("as_name", s("s")))]))]);
    let r = exported_program_node_names(&scalar, "torch.ops.aten.sym_size.int", "sym_size", &mut counts);
    assert_eq!((r.node.clone(), r.output_alias), (some("sym_size_int"), some("sym_size_int")));
    let none = obj(vec![]);
    let r = exported_program_node_names(&none, "torch.ops.aten.sym_size.int", "sym_size", &mut counts);
    assert_eq!(r.node, some("sym_size_int_1"));
    let multi = obj(vec![("outputs", arr(vec![typed("as_tensors", arr(vec![obj(vec![("name", s("a"))]), obj(vec![("name", s("b"))])]))]))]);
    let r = exported_program_node_names(&multi, "torch.ops.aten.max.dim", "max", &mut counts);
    assert_eq!((r.node, r.output_alias), (some("max__dim"), None));
}

#[test]
fn signature_entries_and_scalars() {
    let direct = obj(vec![("user_input", s("x"))]);
    assert!(matches!(exported_program_signature_entry(&direct, "user_input"), Some(JsonValue::String(v)) if v == "x"));
    let typed_spec = typed("user_input", s("y"));
    assert!(matches!(exported_program_signature_entry(&typed_spec, "user_input"), Some(JsonValue::String(v)) if v == "y"));
    assert!(exported_program_signature_entry(&typed_spec, "buffer").is_none());
    assert!(exported_program_tensor_value_is_scalar(&obj(vec![("meta", obj(vec![("sizes", arr(vec![]))]))])));
    assert!(exported_program_tensor_value_is_scalar(&obj(vec![("sizes", arr(vec![]))])));
    assert!(!exported_program_tensor_value_is_scalar(&obj(vec![("sizes", arr(vec![n(1)]))])));
}

fn program() -> JsonValue {
    let out = |name: &str| typed("as_tensor", obj(vec![("name", s(name))]));
    obj(vec![
        ("schema_version", obj(vec![("major", n(8)), ("minor", n(2))])),
        (
            "graph_module",
            obj(vec![
                (
                    "graph",
                    obj(vec![
                        ("outputs", arr(vec![out("y"), out("buf"), out("other")])),
                        ("tensor_values", obj(vec![("buf", obj(vec![("meta", obj(vec![("sizes", arr(vec![]))]))]))])),
                    ]),
                ),
                (
                    "signature",
                    obj(vec![
                        ("user_inputs", arr(vec![s("x"), n(1)])),
                        ("user_outputs", arr(vec![s("y")])),
                        ("buffers_to_mutate", obj(vec![("buf", s("b"))])),
                        ("inputs_to_parameters", obj(vec![("p_w", s("w")), ("bad", n(1))])),
                        (
                            "input_specs",
                            arr(vec![
                                typed("buffer", obj(vec![("arg", out("b_r")), ("buffer_name", s("r"))])),
                                obj(vec![("user_input", obj(vec![("arg", out("x"))]))]),
                            ]),
                        ),
                    ]),
                ),
            ]),
        ),
    ])
}

#[test]
fn signature_and_output_names() {
    let p = program();
    assert_eq!(exported_program_signature_names(&p, true), vec!["x".to_owned()]);
    assert_eq!(exported_program_signature_names(&p, false), vec!["y".to_owned(), "buf".to_owned()]);
    assert_eq!(exported_program_graph_output_names(&p, &vec![]), Some(vec!["buf".to_owned()]));
    assert_eq!(exported_program_signature_names(&obj(vec![]), true), Vec::<String>::new());
    let specs_only = obj(vec![(
        "graph_module",
        obj(vec![("signature", obj(vec![("input_specs", arr(vec![typed("user_input", obj(vec![("arg", obj(vec![("name", s("i"))]))]))]))]))]),
    )]);
    assert_eq!(exported_program_signature_names(&specs_only, true), vec!["i".to_owned()]);
}

#[test]
fn versions_integers_and_shapes() {
    assert_eq!(exported_program_schema_version(&program()), some("8.2"));
    assert_eq!(exported_program_schema_version(&obj(vec![("schema_version", n(3))])), some("3"));
    assert_eq!(exported_program_schema_version(&obj(vec![("schema_version", obj(vec![("major", n(0)), ("minor", n(1))]))])), None);
    assert_eq!(exported_program_i64(&obj(vec![("as_int", n(4))])), Some(4));
    assert_eq!(exported_program_i64(&typed("as_int", n(5))), Some(5));
    assert_eq!(exported_program_i64(&typed("as_float", n(5))), None);
    assert!(exported_program_expr(&typed("as_expr", s("e"))).is_some());
    let meta = obj(vec![("sizes", arr(vec![obj(vec![("as_int", n(2))]), typed("as_int", n(3))]))]);
    assert_eq!(exported_program_known_shape(&meta), Some(vec![2, 3]));
    let symbolic = obj(vec![("sizes", arr(vec![obj(vec![("as_int", n(2))]), typed("as_expr", s("s0"))]))]);
    assert_eq!(exported_program_known_shape(&symbolic), None);
}

#[test]
fn initializers_and_dtypes() {
    assert_eq!(
        exported_program_initializer_specs(&program()),
        vec![("p_w".to_owned(), "w".to_owned()), ("b_r".to_owned(), "r".to_owned())]
    );
    assert!(matches!(exported_program_dtype_info(7), Some((TensorElementType::Float32, 4))));
    assert!(matches!(exported_program_dtype_info(9), Some((TensorElementType::Other("complex32"), 4))));
    assert!(matches!(exported_program_dtype(32), Some(TensorElementType::Float8e5m2fnuz)));
    assert!(exported_program_dtype_info(14).is_none());
}

#[test]
fn exported_program_json_mends_non_finite_numbers() {
    let value = parse_exported_program_json(r#"{"a": 1}"#).unwrap();
    assert_eq!(value.get("a").and_then(|v| v.as_i64()), Some(1));
    let mended = parse_exported_program_json(r#"{"a": NaN, "b": "NaN"}"#).unwrap();
    assert!(matches!(mended.get("a"), Some(JsonValue::Null)));
    assert_eq!(mended.get("b").and_then(|v| v.as_str()), Some("NaN"));
    assert!(parse_exported_program_json("{").is_err());
}
