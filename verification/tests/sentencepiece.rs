use netron_rs_formats::error::{ErrorKind, Format, ModelError};
use netron_rs_formats::sentencepiece::model::{
    AttributeValue, ModelProto, NormalizerSpec, TrainerSpec, looks_like_sentencepiece,
};
use netron_rs_formats::graph::{Confidence, LoweredAttribute};
use netron_rs_formats::sentencepiece::{SentencePieceFormat, SelfTestData, object_placeholders, sentence_piece_complete};

fn varint(mut value: u64) -> Vec<u8> {
    let mut out = Vec::new();
    loop {
        let byte = (value & 0x7f) as u8;
        value >>= 7;
        if value == 0 {
            out.push(byte);
            return out;
        }
        out.push(byte | 0x80);
    }
}

fn varint_field(number: u64, value: u64) -> Vec<u8> {
    let mut out = varint(number << 3);
    out.extend(varint(value));
    out
}

fn bytes_field(number: u64, payload: &[u8]) -> Vec<u8> {
    let mut out = varint((number << 3) | 2);
    out.extend(varint(payload.len() as u64));
    out.extend_from_slice(payload);
    out
}

fn fixed32_field(number: u64, value: u32) -> Vec<u8> {
    let mut out = varint((number << 3) | 5);
    out.extend(value.to_le_bytes());
    out
}

fn piece() -> Vec<u8> {
    let mut piece = bytes_field(1, "▁the".as_bytes());
    piece.extend(fixed32_field(2, (-3.5f32).to_bits()));
    piece
}

fn model(with_normalizer: bool) -> Vec<u8> {
    let mut data = bytes_field(1, &piece());
    data.extend(bytes_field(1, &bytes_field(1, b"b")));
    data.extend(bytes_field(2, &varint_field(4, 8000)));
    if with_normalizer {
        data.extend(bytes_field(3, &bytes_field(1, b"nmt_nfkc")));
    }
    data
}

#[test]
fn a_complete_model_looks_like_sentencepiece() {
    assert!(looks_like_sentencepiece(&model(true)));
}

#[test]
fn a_model_without_normalizer_does_not() {
    assert!(!looks_like_sentencepiece(&model(false)));
}

#[test]
fn other_protobuf_data_does_not() {
    assert!(!looks_like_sentencepiece(&varint_field(1, 5)));
    assert!(!looks_like_sentencepiece(&[]));
}

#[test]
fn model_counts_pieces_and_checks_the_first() {
    let proto = ModelProto::read(&model(true)).unwrap();
    assert_eq!(proto.piece_count, 2);
    assert!(proto.first_piece_complete);
    assert!(proto.trainer.as_ref().unwrap().has_vocab_size);
    assert_eq!(proto.normalizer.as_ref().unwrap().attributes.len(), 1);
    assert!(proto.self_test_samples.is_none());
}

#[test]
fn model_refuses_a_field_that_is_not_a_message() {
    let data = varint_field(1, 3);
    assert_eq!(
        ModelProto::read(&data).err().map(|e| e.kind),
        Some(ErrorKind::NotFormat)
    );
}

#[test]
fn piece_needs_text_and_score_or_type() {
    assert!(sentence_piece_complete(&piece()));
    assert!(!sentence_piece_complete(&bytes_field(1, b"a")));
    let mut typed = bytes_field(1, b"a");
    typed.extend(varint_field(3, 2));
    assert!(sentence_piece_complete(&typed));
}

#[test]
fn trainer_keeps_lists_and_scalars_in_order() {
    let mut data = bytes_field(1, b"corpus.txt");
    data.extend(varint_field(3, 1));
    data.extend(fixed32_field(10, 0.9995f32.to_bits()));
    data.extend(varint_field(11, 1_000_000));
    data.extend(varint_field(19, 1));
    data.extend(bytes_field(45, b"<unk>"));
    let trainer = TrainerSpec::read(&data).unwrap();
    assert_eq!(trainer.input, vec!["corpus.txt".to_owned()]);
    assert!(!trainer.has_vocab_size);
    let names: Vec<&str> = trainer.scalars.iter().map(|a| a.name).collect();
    assert_eq!(
        names,
        vec!["model_type", "character_coverage", "input_sentence_size", "shuffle_input_sentence", "unk_piece"]
    );
    assert!(matches!(trainer.scalars[0].value, AttributeValue::Int(1)));
    assert!(matches!(trainer.scalars[1].value, AttributeValue::FloatBits(b) if b == 0.9995f32.to_bits()));
    assert!(matches!(&trainer.scalars[2].value, AttributeValue::Text(s) if s == "1000000"));
    assert!(matches!(trainer.scalars[3].value, AttributeValue::Bool(true)));
    assert!(matches!(&trainer.scalars[4].value, AttributeValue::Text(s) if s == "<unk>"));
}

#[test]
fn trainer_int_of_the_wrong_wire_type_is_refused() {
    let data = bytes_field(3, b"x");
    assert_eq!(
        TrainerSpec::read(&data).err(),
        Some(ModelError { format: Format::SentencePiece, kind: ErrorKind::WrongWireType })
    );
}

#[test]
fn normalizer_keeps_the_first_sixteen_charsmap_bytes() {
    let charsmap: Vec<u8> = (0u8..20).collect();
    let mut data = bytes_field(2, &charsmap);
    data.extend(varint_field(3, 0));
    let normalizer = NormalizerSpec::read(&data).unwrap();
    assert_eq!(normalizer.attributes[0].name, "precompiled_charsmap");
    assert!(matches!(&normalizer.attributes[0].value, AttributeValue::Ints(v)
        if v == &(0i64..16).collect::<Vec<_>>()));
    assert!(matches!(normalizer.attributes[1].value, AttributeValue::Bool(false)));
}

#[test]
fn self_test_counts_its_samples() {
    let mut data = bytes_field(1, &bytes_field(1, b"hello"));
    data.extend(bytes_field(1, b""));
    data.extend(varint_field(2, 1));
    assert_eq!(SelfTestData::sample_count(&data).unwrap(), 2);
}

#[test]
fn placeholders_stop_at_sixteen() {
    assert_eq!(object_placeholders(3).len(), 3);
    assert_eq!(object_placeholders(40).len(), 16);
    assert_eq!(object_placeholders(1)[0], "[object Object]");
}

#[test]
fn sentencepiece_detect_refuses_other_data() {
    assert_eq!(SentencePieceFormat.detect(b""), Confidence::NoMatch);
    assert_eq!(SentencePieceFormat.metadata().name, "SentencePiece");
}

#[test]
fn sentencepiece_parse_lowers_each_part_into_a_node() {
    let model = SentencePieceFormat.parse(&model(true)).unwrap();
    assert_eq!(model.format, "SentencePiece");
    assert!(model.values.is_empty() && model.inputs.is_empty() && model.outputs.is_empty());
    let names: Vec<&str> = model.nodes.iter().map(|n| n.name.as_deref().unwrap()).collect();
    assert_eq!(names, vec!["pieces", "trainer_spec", "normalizer_spec"]);
    let ops: Vec<&str> = model.nodes.iter().map(|n| n.operator.as_str()).collect();
    assert_eq!(ops, vec!["SentencePiece[]", "TrainerSpec", "NormalizerSpec"]);
    assert_eq!(model.nodes[0].attributes[0].0, "pieces");
    assert!(matches!(&model.nodes[0].attributes[0].1, LoweredAttribute::Texts(t) if t.len() == 2 && t[0] == "[object Object]"));
    let trainer: Vec<&str> = model.nodes[1].attributes.iter().map(|a| a.0.as_str()).collect();
    assert_eq!(trainer, vec!["input", "accept_language", "control_symbols", "user_defined_symbols", "vocab_size"]);
    assert!(matches!(model.nodes[1].attributes[4].1, LoweredAttribute::Int(8000)));
    assert_eq!(model.nodes[2].attributes[0].0, "name");
    assert!(matches!(&model.nodes[2].attributes[0].1, LoweredAttribute::Text(s) if s == "nmt_nfkc"));
}

#[test]
fn sentencepiece_parse_refuses_what_read_refuses() {
    let e = SentencePieceFormat.parse(&varint_field(1, 3)).unwrap_err();
    assert_eq!(e.format, Format::SentencePiece);
    assert_eq!(e.kind, ErrorKind::NotFormat);
}
