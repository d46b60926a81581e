use netron_rs_formats::error::{ErrorKind, Format, ModelError};
use netron_rs_formats::graph::{Confidence, LoweredAttribute};
use netron_rs_formats::xgboost::lower::{XGBoostModel, lower_sklearn_classifier, lower_xgboost_model};
use netron_rs_formats::xgboost::{
    UbjsonValue, XGBoostFormat, is_xgboost_root, is_xgboost_sklearn_pickle, parse_ubjson,
};

fn key(name: &str) -> Vec<u8> {
    let mut out = vec![b'U', name.len() as u8];
    out.extend_from_slice(name.as_bytes());
    out
}

#[test]
fn object_members_are_read_in_order() {
    let mut data = vec![b'{'];
    data.extend(key("learner"));
    data.extend([b'{', b'}']);
    data.extend(key("version"));
    data.extend([b'[', b'$', b'U', b'#', b'U', 3, 1, 7, 2]);
    data.push(b'}');
    let value = parse_ubjson(&data).unwrap();
    match &value {
        UbjsonValue::Object(members) => {
            assert_eq!(members.len(), 2);
            assert_eq!(members[0].0, "learner");
            assert_eq!(members[1].0, "version");
            match &members[1].1 {
                UbjsonValue::Array(items) => {
                    assert_eq!(items.len(), 3);
                    assert!(matches!(items[1], UbjsonValue::Int(7)));
                },
                _ => panic!("version is not an array"),
            }
        },
        _ => panic!("not an object"),
    }
    assert!(is_xgboost_root(&value));
}

#[test]
fn a_repeated_key_keeps_the_last_value() {
    let mut data = vec![b'{'];
    data.extend(key("a"));
    data.extend([b'i', 0xff]);
    data.extend(key("a"));
    data.extend([b'T']);
    data.push(b'}');
    match parse_ubjson(&data).unwrap() {
        UbjsonValue::Object(members) => {
            assert_eq!(members.len(), 1);
            assert!(matches!(members[0].1, UbjsonValue::Bool(true)));
        },
        _ => panic!("not an object"),
    }
}

#[test]
fn integers_are_signed_and_big_endian() {
    assert!(matches!(parse_ubjson(&[b'i', 0xfe]).unwrap(), UbjsonValue::Int(-2)));
    assert!(matches!(parse_ubjson(&[b'U', 0xfe]).unwrap(), UbjsonValue::Int(254)));
    assert!(matches!(parse_ubjson(&[b'I', 0x01, 0x00]).unwrap(), UbjsonValue::Int(256)));
    assert!(matches!(parse_ubjson(&[b'l', 0xff, 0xff, 0xff, 0xfe]).unwrap(), UbjsonValue::Int(-2)));
    assert!(matches!(
        parse_ubjson(&[b'L', 0, 0, 0, 1, 0, 0, 0, 0]).unwrap(),
        UbjsonValue::Int(4294967296)
    ));
}

#[test]
fn floats_keep_their_bits_and_infinity_reads_as_null() {
    let mut data = vec![b'd'];
    data.extend(1.5f32.to_be_bytes());
    assert!(matches!(parse_ubjson(&data).unwrap(), UbjsonValue::Float32(b) if b == 1.5f32.to_bits()));
    let mut data = vec![b'D'];
    data.extend(f64::INFINITY.to_be_bytes());
    assert!(matches!(parse_ubjson(&data).unwrap(), UbjsonValue::Null));
}

#[test]
fn strings_are_utf8() {
    let data = [b'S', b'U', 2, b'h', b'i'];
    assert!(matches!(parse_ubjson(&data).unwrap(), UbjsonValue::String(s) if s == "hi"));
    let bad = [b'S', b'U', 1, 0xff];
    assert_eq!(
        parse_ubjson(&bad).err(),
        Some(ModelError { format: Format::XGBoostUbjson, kind: ErrorKind::InvalidUtf8 })
    );
}

#[test]
fn arrays_without_a_count_end_at_their_bracket() {
    let data = [b'[', b'Z', b'F', b']'];
    match parse_ubjson(&data).unwrap() {
        UbjsonValue::Array(items) => {
            assert_eq!(items.len(), 2);
            assert!(matches!(items[0], UbjsonValue::Null));
            assert!(matches!(items[1], UbjsonValue::Bool(false)));
        },
        _ => panic!("not an array"),
    }
}

#[test]
fn a_counted_typed_array_of_nulls_needs_no_bytes() {
    let data = [b'[', b'$', b'Z', b'#', b'U', 3];
    assert!(matches!(parse_ubjson(&data).unwrap(), UbjsonValue::Array(items) if items.len() == 3));
}

#[test]
fn errors_name_what_went_wrong() {
    assert_eq!(parse_ubjson(&[]).err().map(|e| e.kind), Some(ErrorKind::Truncated));
    assert_eq!(parse_ubjson(&[b'?']).err().map(|e| e.kind), Some(ErrorKind::UnsupportedOpcode));
    assert_eq!(parse_ubjson(&[b'S', b'i', 0xff]).err().map(|e| e.kind), Some(ErrorKind::InvalidValue));
    assert_eq!(parse_ubjson(&[b'{', b'U', 1, b'a']).err().map(|e| e.kind), Some(ErrorKind::Truncated));
}

#[test]
fn a_document_without_learner_is_no_model() {
    let mut data = vec![b'{'];
    data.extend(key("version"));
    data.extend([b'Z', b'}']);
    assert!(!is_xgboost_root(&parse_ubjson(&data).unwrap()));
    assert!(!is_xgboost_root(&UbjsonValue::Null));
}

#[test]
fn sklearn_pickle_is_recognised_by_its_names() {
    let mut data = vec![0x80, 0x04];
    data.extend_from_slice(b"...xgboost.sklearn...XGBClassifier...");
    assert!(is_xgboost_sklearn_pickle(&data));
    assert!(!is_xgboost_sklearn_pickle(&data[1..]));
    assert!(!is_xgboost_sklearn_pickle(b"\x80xgboost.sklearn"));
}

#[test]
fn xgboost_detects_json_ubjson_and_pickles() {
    assert_eq!(XGBoostFormat.detect(br#"{"learner": {}, "version": [1, 7, 0]}"#), Confidence::High);
    assert_eq!(XGBoostFormat.detect(br#"{"learner": {}}"#), Confidence::NoMatch);
    assert_eq!(XGBoostFormat.detect(b"{i\x07learner{}i\x07version[]}"), Confidence::High);
    assert_eq!(XGBoostFormat.detect(b"\x80\x04xgboost.sklearn XGBClassifier"), Confidence::High);
    assert_eq!(XGBoostFormat.detect(b"plain text"), Confidence::NoMatch);
    assert_eq!(XGBoostFormat.metadata().extensions, vec!["json", "ubj", "model", "pkl"]);
}

fn booster_model(features: usize) -> XGBoostModel {
    XGBoostModel {
        version: Some(vec![1, 7, 3]),
        feature_names: (0..features).map(|i| format!("f{i}")).collect(),
        has_attributes: true,
        base_score: Some("5E-1".to_string()),
        num_class: Some("0".to_string()),
        num_feature: Some("3".to_string()),
        num_target: Some("x".to_string()),
        objective: Some("reg:squarederror".to_string()),
        booster: Some("gbtree".to_string()),
        num_parallel_tree: Some("1".to_string()),
        num_trees: Some("20".to_string()),
        tree_count: 20,
        tree_info: vec![0, 0],
    }
}

#[test]
fn xgboost_model_lowers_into_one_booster_over_its_features() {
    let model = lower_xgboost_model("XGBoost JSON", booster_model(3));
    assert_eq!(model.format, "XGBoost JSON");
    assert_eq!(model.version.as_deref(), Some("1.7.3"));
    let names: Vec<&str> = model.values.iter().map(|v| v.name.as_deref().unwrap()).collect();
    assert_eq!(names, vec!["f0", "f1", "f2"]);
    assert_eq!(model.inputs, vec![0, 1, 2]);
    assert_eq!(model.nodes.len(), 1);
    let node = &model.nodes[0];
    assert_eq!(node.operator, "xgboost.core.Booster");
    assert_eq!(node.inputs, vec![Some(0), Some(1), Some(2)]);
    let attrs: Vec<&str> = node.attributes.iter().map(|a| a.0.as_str()).collect();
    assert_eq!(
        attrs,
        vec![
            "version", "base_score", "num_feature", "num_class", "objective", "attributes", "booster_type", "num_trees",
            "num_parallel_tree", "trees", "tree_info",
        ]
    );
    assert!(matches!(&node.attributes[0].1, LoweredAttribute::Ints(v) if v == &vec![1, 7, 3]));
    assert!(matches!(node.attributes[2].1, LoweredAttribute::Int(3)));
    assert!(matches!(&node.attributes[5].1, LoweredAttribute::Text(s) if s == "[object Object]"));
    assert!(matches!(&node.attributes[9].1, LoweredAttribute::Texts(t) if t.len() == 16));
}

#[test]
fn xgboost_many_features_are_no_graph_inputs() {
    let model = lower_xgboost_model("XGBoost UBJSON", booster_model(1000));
    assert!(model.inputs.is_empty());
    assert_eq!(model.nodes[0].inputs.len(), 1000);
}

#[test]
fn xgboost_sklearn_pickle_is_one_classifier_node() {
    let mut data = vec![0x80, 0x04];
    data.extend_from_slice(b"xgboost.sklearn\nXGBClassifier\n");
    let model = XGBoostFormat.parse_sklearn_pickle(&data).unwrap();
    assert_eq!(model.format, "scikit-learn");
    assert_eq!(model.nodes[0].operator, "xgboost.sklearn.XGBClassifier");
    assert!(XGBoostFormat.parse_sklearn_pickle(b"{}").is_none());
    let model = lower_sklearn_classifier();
    assert!(model.values.is_empty());
}
