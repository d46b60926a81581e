//! The messages of a SentencePiece model: the model itself, its trainer and
//! normalizer specs, read field by field.
use vstd::prelude::*;
use crate::error::{ErrorKind, Format, ModelError, invalid};
use crate::fmt::decimal;
use crate::le::le_u32_at;
use crate::sentencepiece::{
    ProtoReader, SelfTestData, lemma_sp_advances, sample_stepper, sentence_piece_complete,
    sp_advance, sp_bytes, sp_error, sp_fold, sp_skip, spec_piece_complete,
};
use crate::text::spec_utf8;
use crate::varint::spec_varint;

verus! {

// ---------------------------------------------------------------------------
// Attributes

/// The value of an attribute that a message gives. A float is kept as its
/// bits.
pub enum AttributeValue {
    Text(String),
    Texts(Vec<String>),
    Int(i64),
    Ints(Vec<i64>),
    FloatBits(u32),
    Bool(bool),
}

pub enum AttributeValueView {
    Text(Seq<char>),
    Texts(Seq<Seq<char>>),
    Int(i64),
    Ints(Seq<i64>),
    FloatBits(u32),
    Bool(bool),
}

impl View for AttributeValue {
    type V = AttributeValueView;

    open spec fn view(&self) -> AttributeValueView {
        match self {
            AttributeValue::Text(s) => AttributeValueView::Text(s@),
            AttributeValue::Texts(v) => AttributeValueView::Texts(text_views(v@)),
            AttributeValue::Int(i) => AttributeValueView::Int(*i),
            AttributeValue::Ints(v) => AttributeValueView::Ints(v@),
            AttributeValue::FloatBits(b) => AttributeValueView::FloatBits(*b),
            AttributeValue::Bool(b) => AttributeValueView::Bool(*b),
        }
    }
}

/// A named attribute.
pub struct AttributeSpec {
    pub name: &'static str,
    pub value: AttributeValue,
}

pub struct AttributeView {
    pub name: Seq<char>,
    pub value: AttributeValueView,
}

impl View for AttributeSpec {
    type V = AttributeView;

    open spec fn view(&self) -> AttributeView {
        AttributeView { name: self.name@, value: self.value@ }
    }
}

/// The views of attributes.
pub open spec fn attribute_views(v: Seq<AttributeSpec>) -> Seq<AttributeView> {
    v.map_values(|a: AttributeSpec| a@)
}

/// The views of strings.
pub open spec fn text_views(v: Seq<String>) -> Seq<Seq<char>> {
    v.map_values(|s: String| s@)
}

/// How a field's value is read.
#[derive(Clone, Copy, PartialEq, Eq, Structural)]
pub enum FieldKind {
    /// A UTF-8 string, length-delimited.
    Text,
    /// An `int32` varint.
    Int,
    /// A `uint64` varint, kept as decimal text.
    U64Text,
    /// A 32-bit float, fixed32.
    Float,
    /// A varint that is true when it is not zero.
    Bool,
    /// Length-delimited bytes, of which the first sixteen are kept.
    Charsmap,
}

/// The value of a field of kind `kind` and wire type `w` at `p`, or why it
/// cannot be read.
pub open spec fn read_field(data: Seq<u8>, kind: FieldKind, w: u8, p: int) -> Result<
    AttributeValueView,
    ErrorKind,
> {
    match kind {
        FieldKind::Text => if w != 2 {
            Err(ErrorKind::WrongWireType)
        } else {
            match sp_bytes(data, p) {
                Err(e) => Err(e),
                Ok((start, end)) => match spec_utf8(data.subrange(start, end)) {
                    Some(s) => Ok(AttributeValueView::Text(s)),
                    None => Err(ErrorKind::InvalidUtf8),
                },
            }
        },
        FieldKind::Charsmap => if w != 2 {
            Err(ErrorKind::WrongWireType)
        } else {
            match sp_bytes(data, p) {
                Err(e) => Err(e),
                Ok((start, end)) => {
                    let n = if end - start < 16 {
                        end - start
                    } else {
                        16
                    };
                    Ok(
                        AttributeValueView::Ints(
                            data.subrange(start, start + n).map_values(|b: u8| b as i64),
                        ),
                    )
                },
            }
        },
        FieldKind::Float => if w != 5 {
            Err(ErrorKind::WrongWireType)
        } else {
            match sp_advance(data, p, 4) {
                Ok(_) => Ok(AttributeValueView::FloatBits(le_u32_at(data, p))),
                Err(_) => Err(ErrorKind::Truncated),
            }
        },
        _ => if w != 0 {
            Err(ErrorKind::WrongWireType)
        } else {
            match spec_varint(data, p) {
                Err(e) => Err(e),
                Ok((v, _)) => Ok(
                    match kind {
                        FieldKind::Int => AttributeValueView::Int((v as i32) as i64),
                        FieldKind::U64Text => AttributeValueView::Text(decimal(v as int)),
                        _ => AttributeValueView::Bool(v != 0),
                    },
                ),
            }
        },
    }
}

/// Reads a field's value of kind `kind`.
fn read_value(reader: &mut ProtoReader, kind: FieldKind, wire_type: u8) -> (r: Result<
    AttributeValue,
    ModelError,
>)
    requires
        0 <= old(reader).pos() <= old(reader).data().len(),
    ensures
        final(reader).data() == old(reader).data(),
        0 <= final(reader).pos() <= final(reader).data().len(),
        match read_field(old(reader).data(), kind, wire_type, old(reader).pos()) {
            Ok(v) => r matches Ok(x) && x@ == v && sp_skip(
                old(reader).data(),
                old(reader).pos(),
                wire_type,
            ) == Ok::<int, ErrorKind>(final(reader).pos()),
            Err(k) => r matches Err(e) && e == sp_error(k),
        },
{
    let ghost data = reader.data();
    let ghost pos = reader.pos();
    match kind {
        FieldKind::Text => Ok(AttributeValue::Text(reader.string(wire_type)?)),
        FieldKind::Int => Ok(AttributeValue::Int(reader.int32(wire_type)?)),
        FieldKind::U64Text => Ok(AttributeValue::Text(reader.uint64_string(wire_type)?)),
        FieldKind::Float => Ok(AttributeValue::FloatBits(reader.float32_bits(wire_type)?)),
        FieldKind::Bool => Ok(AttributeValue::Bool(reader.bool(wire_type)?)),
        FieldKind::Charsmap => {
            let bytes = reader.bytes_with_type(wire_type)?;
            let ints = charsmap_prefix(bytes);
            proof {
                lemma_sp_advances(data, pos, wire_type);
                if let Ok((start, end)) = sp_bytes(data, pos) {
                    let n = if end - start < 16 {
                        end - start
                    } else {
                        16
                    };
                    assert(bytes@.take(n) =~= data.subrange(start, start + n));
                }
            }
            Ok(AttributeValue::Ints(ints))
        },
    }
}

/// The first sixteen bytes of a charsmap, or all of them when it is shorter,
/// as integers.
fn charsmap_prefix(bytes: &[u8]) -> (r: Vec<i64>)
    ensures
        r@ == bytes@.take(
            if bytes@.len() < 16 {
                bytes@.len() as int
            } else {
                16
            },
        ).map_values(|b: u8| b as i64),
{
    let n = if bytes.len() < 16 {
        bytes.len()
    } else {
        16
    };
    let mut ints: Vec<i64> = Vec::new();
    let mut i: usize = 0;
    while i < n
        invariant
            i <= n <= bytes@.len(),
            ints@ == bytes@.take(i as int).map_values(|b: u8| b as i64),
        decreases n - i,
    {
        ints.push(bytes[i] as i64);
        proof {
            assert(bytes@.take(i + 1).map_values(|b: u8| b as i64) =~= bytes@.take(
                i as int,
            ).map_values(|b: u8| b as i64).push(bytes@[i as int] as i64));
        }
        i = i + 1;
    }
    ints
}


// ---------------------------------------------------------------------------
// The trainer spec

/// The scalar fields of a trainer spec: each field number with its
/// attribute's name and how its value is read.
pub open spec fn trainer_field(f: u32) -> Option<(Seq<char>, FieldKind)> {
    match f {
        7 => Some(("input_format"@, FieldKind::Text)),
        2 => Some(("model_prefix"@, FieldKind::Text)),
        53 => Some(("pretokenization_delimiter"@, FieldKind::Text)),
        36 => Some(("required_chars"@, FieldKind::Text)),
        45 => Some(("unk_piece"@, FieldKind::Text)),
        46 => Some(("bos_piece"@, FieldKind::Text)),
        47 => Some(("eos_piece"@, FieldKind::Text)),
        48 => Some(("pad_piece"@, FieldKind::Text)),
        44 => Some(("unk_surface"@, FieldKind::Text)),
        54 => Some(("seed_sentencepieces_file"@, FieldKind::Text)),
        3 => Some(("model_type"@, FieldKind::Int)),
        4 => Some(("vocab_size"@, FieldKind::Int)),
        6 => Some(("self_test_sample_size"@, FieldKind::Int)),
        12 => Some(("mining_sentence_size"@, FieldKind::Int)),
        13 => Some(("training_sentence_size"@, FieldKind::Int)),
        14 => Some(("seed_sentencepiece_size"@, FieldKind::Int)),
        18 => Some(("max_sentence_length"@, FieldKind::Int)),
        16 => Some(("num_threads"@, FieldKind::Int)),
        17 => Some(("num_sub_iterations"@, FieldKind::Int)),
        20 => Some(("max_sentencepiece_length"@, FieldKind::Int)),
        40 => Some(("unk_id"@, FieldKind::Int)),
        41 => Some(("bos_id"@, FieldKind::Int)),
        42 => Some(("eos_id"@, FieldKind::Int)),
        43 => Some(("pad_id"@, FieldKind::Int)),
        11 => Some(("input_sentence_size"@, FieldKind::U64Text)),
        10 => Some(("character_coverage"@, FieldKind::Float)),
        15 => Some(("shrinking_factor"@, FieldKind::Float)),
        51 => Some(("differential_privacy_noise_level"@, FieldKind::Float)),
        50 => Some(("enable_differential_privacy"@, FieldKind::Bool)),
        19 => Some(("shuffle_input_sentence"@, FieldKind::Bool)),
        21 => Some(("split_by_unicode_script"@, FieldKind::Bool)),
        23 => Some(("split_by_number"@, FieldKind::Bool)),
        22 => Some(("split_by_whitespace"@, FieldKind::Bool)),
        24 => Some(("treat_whitespace_as_suffix"@, FieldKind::Bool)),
        26 => Some(("allow_whitespace_only_pieces"@, FieldKind::Bool)),
        25 => Some(("split_digits"@, FieldKind::Bool)),
        35 => Some(("byte_fallback"@, FieldKind::Bool)),
        32 => Some(("vocabulary_output_piece_score"@, FieldKind::Bool)),
        33 => Some(("hard_vocab_limit"@, FieldKind::Bool)),
        34 => Some(("use_all_vocab"@, FieldKind::Bool)),
        49 => Some(("train_extremely_large_corpus"@, FieldKind::Bool)),
        52 => Some(("differential_privacy_clipping_threshold"@, FieldKind::U64Text)),
        _ => None,
    }
}

/// The number and kind of the `TrainerSpec` field named `name`, as
/// sentencepiece_model.proto declares it: a `string` is read as text, an
/// `int32` as an integer, a `uint64` as decimal text, a `float` by its bits
/// and a `bool` as a flag.
pub open spec fn trainer_spec_field_number(name: Seq<char>) -> Option<(u32, FieldKind)> {
    if name == "input_format"@ {
        Some((7, FieldKind::Text))
    } else if name == "model_prefix"@ {
        Some((2, FieldKind::Text))
    } else if name == "pretokenization_delimiter"@ {
        Some((53, FieldKind::Text))
    } else if name == "required_chars"@ {
        Some((36, FieldKind::Text))
    } else if name == "unk_piece"@ {
        Some((45, FieldKind::Text))
    } else if name == "bos_piece"@ {
        Some((46, FieldKind::Text))
    } else if name == "eos_piece"@ {
        Some((47, FieldKind::Text))
    } else if name == "pad_piece"@ {
        Some((48, FieldKind::Text))
    } else if name == "unk_surface"@ {
        Some((44, FieldKind::Text))
    } else if name == "seed_sentencepieces_file"@ {
        Some((54, FieldKind::Text))
    } else if name == "model_type"@ {
        Some((3, FieldKind::Int))
    } else if name == "vocab_size"@ {
        Some((4, FieldKind::Int))
    } else if name == "self_test_sample_size"@ {
        Some((6, FieldKind::Int))
    } else if name == "mining_sentence_size"@ {
        Some((12, FieldKind::Int))
    } else if name == "training_sentence_size"@ {
        Some((13, FieldKind::Int))
    } else if name == "seed_sentencepiece_size"@ {
        Some((14, FieldKind::Int))
    } else if name == "max_sentence_length"@ {
        Some((18, FieldKind::Int))
    } else if name == "num_threads"@ {
        Some((16, FieldKind::Int))
    } else if name == "num_sub_iterations"@ {
        Some((17, FieldKind::Int))
    } else if name == "max_sentencepiece_length"@ {
        Some((20, FieldKind::Int))
    } else if name == "unk_id"@ {
        Some((40, FieldKind::Int))
    } else if name == "bos_id"@ {
        Some((41, FieldKind::Int))
    } else if name == "eos_id"@ {
        Some((42, FieldKind::Int))
    } else if name == "pad_id"@ {
        Some((43, FieldKind::Int))
    } else if name == "input_sentence_size"@ {
        Some((11, FieldKind::U64Text))
    } else if name == "character_coverage"@ {
        Some((10, FieldKind::Float))
    } else if name == "shrinking_factor"@ {
        Some((15, FieldKind::Float))
    } else if name == "differential_privacy_noise_level"@ {
        Some((51, FieldKind::Float))
    } else if name == "enable_differential_privacy"@ {
        Some((50, FieldKind::Bool))
    } else if name == "shuffle_input_sentence"@ {
        Some((19, FieldKind::Bool))
    } else if name == "split_by_unicode_script"@ {
        Some((21, FieldKind::Bool))
    } else if name == "split_by_number"@ {
        Some((23, FieldKind::Bool))
    } else if name == "split_by_whitespace"@ {
        Some((22, FieldKind::Bool))
    } else if name == "treat_whitespace_as_suffix"@ {
        Some((24, FieldKind::Bool))
    } else if name == "allow_whitespace_only_pieces"@ {
        Some((26, FieldKind::Bool))
    } else if name == "split_digits"@ {
        Some((25, FieldKind::Bool))
    } else if name == "byte_fallback"@ {
        Some((35, FieldKind::Bool))
    } else if name == "vocabulary_output_piece_score"@ {
        Some((32, FieldKind::Bool))
    } else if name == "hard_vocab_limit"@ {
        Some((33, FieldKind::Bool))
    } else if name == "use_all_vocab"@ {
        Some((34, FieldKind::Bool))
    } else if name == "train_extremely_large_corpus"@ {
        Some((49, FieldKind::Bool))
    } else if name == "differential_privacy_clipping_threshold"@ {
        Some((52, FieldKind::U64Text))
    } else {
        None
    }
}

/// Each scalar trainer attribute is named after the field it is read from:
/// the field that the proto numbers for a name is read under that name and
/// as that kind (field 41 is `bos_id`, field 42 `eos_id`).
pub proof fn lemma_trainer_field_named(name: Seq<char>)
    ensures
        trainer_spec_field_number(name) matches Some((f, kind)) ==> trainer_field(f) == Some((name, kind)),
{
}

/// The scalar field `f` of a trainer spec, if it is one.
fn trainer_field_exec(f: u32) -> (r: Option<(&'static str, FieldKind)>)
    ensures
        match trainer_field(f) {
            Some((name, kind)) => r matches Some((n, k)) && n@ == name && k == kind,
            None => r is None,
        },
{
    match f {
        7 => Some(("input_format", FieldKind::Text)),
        2 => Some(("model_prefix", FieldKind::Text)),
        53 => Some(("pretokenization_delimiter", FieldKind::Text)),
        36 => Some(("required_chars", FieldKind::Text)),
        45 => Some(("unk_piece", FieldKind::Text)),
        46 => Some(("bos_piece", FieldKind::Text)),
        47 => Some(("eos_piece", FieldKind::Text)),
        48 => Some(("pad_piece", FieldKind::Text)),
        44 => Some(("unk_surface", FieldKind::Text)),
        54 => Some(("seed_sentencepieces_file", FieldKind::Text)),
        3 => Some(("model_type", FieldKind::Int)),
        4 => Some(("vocab_size", FieldKind::Int)),
        6 => Some(("self_test_sample_size", FieldKind::Int)),
        12 => Some(("mining_sentence_size", FieldKind::Int)),
        13 => Some(("training_sentence_size", FieldKind::Int)),
        14 => Some(("seed_sentencepiece_size", FieldKind::Int)),
        18 => Some(("max_sentence_length", FieldKind::Int)),
        16 => Some(("num_threads", FieldKind::Int)),
        17 => Some(("num_sub_iterations", FieldKind::Int)),
        20 => Some(("max_sentencepiece_length", FieldKind::Int)),
        40 => Some(("unk_id", FieldKind::Int)),
        41 => Some(("bos_id", FieldKind::Int)),
        42 => Some(("eos_id", FieldKind::Int)),
        43 => Some(("pad_id", FieldKind::Int)),
        11 => Some(("input_sentence_size", FieldKind::U64Text)),
        10 => Some(("character_coverage", FieldKind::Float)),
        15 => Some(("shrinking_factor", FieldKind::Float)),
        51 => Some(("differential_privacy_noise_level", FieldKind::Float)),
        50 => Some(("enable_differential_privacy", FieldKind::Bool)),
        19 => Some(("shuffle_input_sentence", FieldKind::Bool)),
        21 => Some(("split_by_unicode_script", FieldKind::Bool)),
        23 => Some(("split_by_number", FieldKind::Bool)),
        22 => Some(("split_by_whitespace", FieldKind::Bool)),
        24 => Some(("treat_whitespace_as_suffix", FieldKind::Bool)),
        26 => Some(("allow_whitespace_only_pieces", FieldKind::Bool)),
        25 => Some(("split_digits", FieldKind::Bool)),
        35 => Some(("byte_fallback", FieldKind::Bool)),
        32 => Some(("vocabulary_output_piece_score", FieldKind::Bool)),
        33 => Some(("hard_vocab_limit", FieldKind::Bool)),
        34 => Some(("use_all_vocab", FieldKind::Bool)),
        49 => Some(("train_extremely_large_corpus", FieldKind::Bool)),
        52 => Some(("differential_privacy_clipping_threshold", FieldKind::U64Text)),
        _ => None,
    }
}

/// How a tokenizer was trained: its list fields, its scalar attributes in
/// the order of their fields, and whether it sets a vocabulary size.
pub struct TrainerSpec {
    pub input: Vec<String>,
    pub accept_language: Vec<String>,
    pub control_symbols: Vec<String>,
    pub user_defined_symbols: Vec<String>,
    pub scalars: Vec<AttributeSpec>,
    pub has_vocab_size: bool,
}

#[verifier::ext_equal]
pub struct TrainerView {
    pub input: Seq<Seq<char>>,
    pub accept_language: Seq<Seq<char>>,
    pub control_symbols: Seq<Seq<char>>,
    pub user_defined_symbols: Seq<Seq<char>>,
    pub scalars: Seq<AttributeView>,
    pub has_vocab_size: bool,
}

impl View for TrainerSpec {
    type V = TrainerView;

    open spec fn view(&self) -> TrainerView {
        TrainerView {
            input: text_views(self.input@),
            accept_language: text_views(self.accept_language@),
            control_symbols: text_views(self.control_symbols@),
            user_defined_symbols: text_views(self.user_defined_symbols@),
            scalars: attribute_views(self.scalars@),
            has_vocab_size: self.has_vocab_size,
        }
    }
}

/// A trainer spec with no field.
pub open spec fn empty_trainer() -> TrainerView {
    TrainerView {
        input: Seq::empty(),
        accept_language: Seq::empty(),
        control_symbols: Seq::empty(),
        user_defined_symbols: Seq::empty(),
        scalars: Seq::empty(),
        has_vocab_size: false,
    }
}

/// The text of a text value.
pub open spec fn text_of(v: AttributeValueView) -> Seq<char> {
    match v {
        AttributeValueView::Text(s) => s,
        _ => Seq::empty(),
    }
}

/// One field of a trainer spec: the list fields 1, 5, 30 and 31 add a string
/// to their list, the scalar fields add an attribute, and field 4, the
/// vocabulary size, is noted; other fields are skipped.
pub open spec fn trainer_step(data: Seq<u8>, t: TrainerView, f: u32, w: u8, p: int) -> Result<
    TrainerView,
    ErrorKind,
> {
    if f == 1 || f == 5 || f == 30 || f == 31 {
        match read_field(data, FieldKind::Text, w, p) {
            Err(e) => Err(e),
            Ok(v) => Ok(
                if f == 1 {
                    TrainerView { input: t.input.push(text_of(v)), ..t }
                } else if f == 5 {
                    TrainerView { accept_language: t.accept_language.push(text_of(v)), ..t }
                } else if f == 30 {
                    TrainerView { control_symbols: t.control_symbols.push(text_of(v)), ..t }
                } else {
                    TrainerView {
                        user_defined_symbols: t.user_defined_symbols.push(text_of(v)),
                        ..t
                    }
                },
            ),
        }
    } else {
        match trainer_field(f) {
            None => Ok(t),
            Some((name, kind)) => match read_field(data, kind, w, p) {
                Err(e) => Err(e),
                Ok(v) => Ok(
                    TrainerView {
                        scalars: t.scalars.push(AttributeView { name, value: v }),
                        has_vocab_size: t.has_vocab_size || f == 4,
                        ..t
                    },
                ),
            },
        }
    }
}

pub open spec fn trainer_stepper(data: Seq<u8>) -> spec_fn(TrainerView, u32, u8, int) -> Result<
    TrainerView,
    ErrorKind,
> {
    |t: TrainerView, f: u32, w: u8, p: int| trainer_step(data, t, f, w, p)
}

/// The trainer spec that a message holds.
pub open spec fn spec_trainer(data: Seq<u8>) -> Result<TrainerView, ErrorKind> {
    sp_fold(data, 0, empty_trainer(), trainer_stepper(data))
}

impl TrainerSpec {
    /// Reads a trainer spec message.
    pub fn read(data: &[u8]) -> (r: Result<Self, ModelError>)
        ensures
            match spec_trainer(data@) {
                Ok(t) => r matches Ok(x) && x@ == t,
                Err(k) => r matches Err(e) && e == sp_error(k),
            },
    {
        let mut reader = ProtoReader::new(data);
        let mut spec = TrainerSpec {
            input: Vec::new(),
            accept_language: Vec::new(),
            control_symbols: Vec::new(),
            user_defined_symbols: Vec::new(),
            scalars: Vec::new(),
            has_vocab_size: false,
        };
        proof {
            assert(spec@ =~= empty_trainer());
        }
        loop
            invariant
                reader.data() == data@,
                0 <= reader.pos() <= data@.len(),
                sp_fold(data@, reader.pos(), spec@, trainer_stepper(data@)) == spec_trainer(data@),
            decreases data@.len() - reader.pos(),
        {
            if reader.is_empty() {
                return Ok(spec);
            }
            let ghost pos = reader.pos();
            let (field, wire_type) = reader.key()?;
            let ghost p1 = reader.pos();
            let ghost before = spec@;
            proof {
                lemma_sp_advances(data@, pos, wire_type);
                lemma_sp_advances(data@, p1, wire_type);
            }
            if field == 1 || field == 5 || field == 30 || field == 31 {
                let s = match read_value(&mut reader, FieldKind::Text, wire_type)? {
                    AttributeValue::Text(s) => s,
                    _ => String::new(),
                };
                if field == 1 {
                    spec.input.push(s);
                } else if field == 5 {
                    spec.accept_language.push(s);
                } else if field == 30 {
                    spec.control_symbols.push(s);
                } else {
                    spec.user_defined_symbols.push(s);
                }
                proof {
                    assert(spec@ =~= trainer_step(data@, before, field, wire_type, p1).unwrap());
                }
            } else {
                match trainer_field_exec(field) {
                    None => reader.skip(wire_type)?,
                    Some((name, kind)) => {
                        let value = read_value(&mut reader, kind, wire_type)?;
                        spec.scalars.push(AttributeSpec { name, value });
                        if field == 4 {
                            spec.has_vocab_size = true;
                        }
                        proof {
                            assert(spec@ =~= trainer_step(
                                data@,
                                before,
                                field,
                                wire_type,
                                p1,
                            ).unwrap());
                        }
                    },
                }
            }
        }
    }
}

// ---------------------------------------------------------------------------
// The normalizer spec

/// The fields of a normalizer spec: each field number with its attribute's
/// name and how its value is read.
pub open spec fn normalizer_field(f: u32) -> Option<(Seq<char>, FieldKind)> {
    match f {
        1 => Some(("name"@, FieldKind::Text)),
        2 => Some(("precompiled_charsmap"@, FieldKind::Charsmap)),
        3 => Some(("add_dummy_prefix"@, FieldKind::Bool)),
        4 => Some(("remove_extra_whitespaces"@, FieldKind::Bool)),
        5 => Some(("escape_whitespaces"@, FieldKind::Bool)),
        6 => Some(("normalization_rule_tsv"@, FieldKind::Text)),
        _ => None,
    }
}

/// The number and kind of the `NormalizerSpec` field named `name`, as
/// sentencepiece_model.proto declares it; the charsmap is kept as bytes.
pub open spec fn normalizer_spec_field_number(name: Seq<char>) -> Option<(u32, FieldKind)> {
    if name == "name"@ {
        Some((1, FieldKind::Text))
    } else if name == "precompiled_charsmap"@ {
        Some((2, FieldKind::Charsmap))
    } else if name == "add_dummy_prefix"@ {
        Some((3, FieldKind::Bool))
    } else if name == "remove_extra_whitespaces"@ {
        Some((4, FieldKind::Bool))
    } else if name == "escape_whitespaces"@ {
        Some((5, FieldKind::Bool))
    } else if name == "normalization_rule_tsv"@ {
        Some((6, FieldKind::Text))
    } else {
        None
    }
}

/// Each normalizer attribute is named after the field it is read from.
pub proof fn lemma_normalizer_field_named(name: Seq<char>)
    ensures
        normalizer_spec_field_number(name) matches Some((f, kind)) ==> normalizer_field(f) == Some((name, kind)),
{
}

/// Every scalar trainer field is read under the name, and as the kind, that
/// the proto declares for its number.
#[verifier::rlimit(50)]
pub proof fn lemma_trainer_field_complete(f: u32)
    ensures
        trainer_field(f) matches Some((name, kind)) ==> trainer_spec_field_number(name) == Some((f, kind)),
{
    reveal_strlit("input_format");
    reveal_strlit("model_prefix");
    reveal_strlit("pretokenization_delimiter");
    reveal_strlit("required_chars");
    reveal_strlit("unk_piece");
    reveal_strlit("bos_piece");
    reveal_strlit("eos_piece");
    reveal_strlit("pad_piece");
    reveal_strlit("unk_surface");
    reveal_strlit("seed_sentencepieces_file");
    reveal_strlit("model_type");
    reveal_strlit("vocab_size");
    reveal_strlit("self_test_sample_size");
    reveal_strlit("mining_sentence_size");
    reveal_strlit("training_sentence_size");
    reveal_strlit("seed_sentencepiece_size");
    reveal_strlit("max_sentence_length");
    reveal_strlit("num_threads");
    reveal_strlit("num_sub_iterations");
    reveal_strlit("max_sentencepiece_length");
    reveal_strlit("unk_id");
    reveal_strlit("bos_id");
    reveal_strlit("eos_id");
    reveal_strlit("pad_id");
    reveal_strlit("input_sentence_size");
    reveal_strlit("character_coverage");
    reveal_strlit("shrinking_factor");
    reveal_strlit("differential_privacy_noise_level");
    reveal_strlit("enable_differential_privacy");
    reveal_strlit("shuffle_input_sentence");
    reveal_strlit("split_by_unicode_script");
    reveal_strlit("split_by_number");
    reveal_strlit("split_by_whitespace");
    reveal_strlit("treat_whitespace_as_suffix");
    reveal_strlit("allow_whitespace_only_pieces");
    reveal_strlit("split_digits");
    reveal_strlit("byte_fallback");
    reveal_strlit("vocabulary_output_piece_score");
    reveal_strlit("hard_vocab_limit");
    reveal_strlit("use_all_vocab");
    reveal_strlit("train_extremely_large_corpus");
    reveal_strlit("differential_privacy_clipping_threshold");
    assert("input_format"@.len() == 12);
    assert("model_prefix"@.len() == 12);
    assert("pretokenization_delimiter"@.len() == 25);
    assert("required_chars"@.len() == 14);
    assert("unk_piece"@.len() == 9);
    assert("bos_piece"@.len() == 9);
    assert("eos_piece"@.len() == 9);
    assert("pad_piece"@.len() == 9);
    assert("unk_surface"@.len() == 11);
    assert("seed_sentencepieces_file"@.len() == 24);
    assert("model_type"@.len() == 10);
    assert("vocab_size"@.len() == 10);
    assert("self_test_sample_size"@.len() == 21);
    assert("mining_sentence_size"@.len() == 20);
    assert("training_sentence_size"@.len() == 22);
    assert("seed_sentencepiece_size"@.len() == 23);
    assert("max_sentence_length"@.len() == 19);
    assert("num_threads"@.len() == 11);
    assert("num_sub_iterations"@.len() == 18);
    assert("max_sentencepiece_length"@.len() == 24);
    assert("unk_id"@.len() == 6);
    assert("bos_id"@.len() == 6);
    assert("eos_id"@.len() == 6);
    assert("pad_id"@.len() == 6);
    assert("input_sentence_size"@.len() == 19);
    assert("character_coverage"@.len() == 18);
    assert("shrinking_factor"@.len() == 16);
    assert("differential_privacy_noise_level"@.len() == 32);
    assert("enable_differential_privacy"@.len() == 27);
    assert("shuffle_input_sentence"@.len() == 22);
    assert("split_by_unicode_script"@.len() == 23);
    assert("split_by_number"@.len() == 15);
    assert("split_by_whitespace"@.len() == 19);
    assert("treat_whitespace_as_suffix"@.len() == 26);
    assert("allow_whitespace_only_pieces"@.len() == 28);
    assert("split_digits"@.len() == 12);
    assert("byte_fallback"@.len() == 13);
    assert("vocabulary_output_piece_score"@.len() == 29);
    assert("hard_vocab_limit"@.len() == 16);
    assert("use_all_vocab"@.len() == 13);
    assert("train_extremely_large_corpus"@.len() == 28);
    assert("differential_privacy_clipping_threshold"@.len() == 39);
    assert("allow_whitespace_only_pieces"@[0] == 'a');
    assert("bos_id"@[0] == 'b');
    assert("bos_piece"@[0] == 'b');
    assert("byte_fallback"@[0] == 'b');
    assert("character_coverage"@[0] == 'c');
    assert("eos_id"@[0] == 'e');
    assert("eos_piece"@[0] == 'e');
    assert("hard_vocab_limit"@[0] == 'h');
    assert("input_format"@[0] == 'i');
    assert("input_sentence_size"@[0] == 'i');
    assert("max_sentence_length"@[0] == 'm');
    assert("max_sentencepiece_length"@[0] == 'm');
    assert("model_prefix"@[0] == 'm');
    assert("model_type"@[0] == 'm');
    assert("num_sub_iterations"@[0] == 'n');
    assert("num_threads"@[0] == 'n');
    assert("pad_id"@[0] == 'p');
    assert("pad_piece"@[0] == 'p');
    assert("seed_sentencepiece_size"@[1] == 'e');
    assert("seed_sentencepieces_file"@[0] == 's');
    assert("shrinking_factor"@[0] == 's');
    assert("shuffle_input_sentence"@[0] == 's');
    assert("split_by_unicode_script"@[1] == 'p');
    assert("split_by_whitespace"@[0] == 's');
    assert("split_digits"@[0] == 's');
    assert("train_extremely_large_corpus"@[0] == 't');
    assert("training_sentence_size"@[0] == 't');
    assert("unk_id"@[0] == 'u');
    assert("unk_piece"@[0] == 'u');
    assert("unk_surface"@[0] == 'u');
    assert("use_all_vocab"@[0] == 'u');
    assert("vocab_size"@[0] == 'v');
}

/// Every normalizer field is read under the name, and as the kind, that the
/// proto declares for its number.
pub proof fn lemma_normalizer_field_complete(f: u32)
    ensures
        normalizer_field(f) matches Some((name, kind)) ==> normalizer_spec_field_number(name) == Some((f, kind)),
{
    reveal_strlit("name");
    reveal_strlit("precompiled_charsmap");
    reveal_strlit("add_dummy_prefix");
    reveal_strlit("remove_extra_whitespaces");
    reveal_strlit("escape_whitespaces");
    reveal_strlit("normalization_rule_tsv");
    assert("name"@.len() == 4);
    assert("precompiled_charsmap"@.len() == 20);
    assert("add_dummy_prefix"@.len() == 16);
    assert("remove_extra_whitespaces"@.len() == 24);
    assert("escape_whitespaces"@.len() == 18);
    assert("normalization_rule_tsv"@.len() == 22);
}

/// The field `f` of a normalizer spec, if it is one.
fn normalizer_field_exec(f: u32) -> (r: Option<(&'static str, FieldKind)>)
    ensures
        match normalizer_field(f) {
            Some((name, kind)) => r matches Some((n, k)) && n@ == name && k == kind,
            None => r is None,
        },
{
    match f {
        1 => Some(("name", FieldKind::Text)),
        2 => Some(("precompiled_charsmap", FieldKind::Charsmap)),
        3 => Some(("add_dummy_prefix", FieldKind::Bool)),
        4 => Some(("remove_extra_whitespaces", FieldKind::Bool)),
        5 => Some(("escape_whitespaces", FieldKind::Bool)),
        6 => Some(("normalization_rule_tsv", FieldKind::Text)),
        _ => None,
    }
}

/// How a normalizer normalizes: its attributes in the order of their fields.
pub struct NormalizerSpec {
    pub attributes: Vec<AttributeSpec>,
}

/// One field of a normalizer spec: a known field adds its attribute, others
/// are skipped.
pub open spec fn normalizer_step(data: Seq<u8>, attrs: Seq<AttributeView>, f: u32, w: u8, p: int) -> Result<
    Seq<AttributeView>,
    ErrorKind,
> {
    match normalizer_field(f) {
        None => Ok(attrs),
        Some((name, kind)) => match read_field(data, kind, w, p) {
            Err(e) => Err(e),
            Ok(v) => Ok(attrs.push(AttributeView { name, value: v })),
        },
    }
}

pub open spec fn normalizer_stepper(data: Seq<u8>) -> spec_fn(Seq<AttributeView>, u32, u8, int) -> Result<
    Seq<AttributeView>,
    ErrorKind,
> {
    |a: Seq<AttributeView>, f: u32, w: u8, p: int| normalizer_step(data, a, f, w, p)
}

/// The attributes of a normalizer spec message.
pub open spec fn spec_normalizer(data: Seq<u8>) -> Result<Seq<AttributeView>, ErrorKind> {
    sp_fold(data, 0, Seq::empty(), normalizer_stepper(data))
}

impl NormalizerSpec {
    /// Reads a normalizer spec message.
    pub fn read(data: &[u8]) -> (r: Result<Self, ModelError>)
        ensures
            match spec_normalizer(data@) {
                Ok(a) => r matches Ok(x) && attribute_views(x.attributes@) == a,
                Err(k) => r matches Err(e) && e == sp_error(k),
            },
    {
        let mut reader = ProtoReader::new(data);
        let mut attributes: Vec<AttributeSpec> = Vec::new();
        proof {
            assert(attribute_views(attributes@) =~= Seq::<AttributeView>::empty());
        }
        loop
            invariant
                reader.data() == data@,
                0 <= reader.pos() <= data@.len(),
                sp_fold(data@, reader.pos(), attribute_views(attributes@), normalizer_stepper(data@))
                    == spec_normalizer(data@),
            decreases data@.len() - reader.pos(),
        {
            if reader.is_empty() {
                return Ok(NormalizerSpec { attributes });
            }
            let ghost pos = reader.pos();
            let (field, wire_type) = reader.key()?;
            let ghost p1 = reader.pos();
            let ghost before = attribute_views(attributes@);
            proof {
                lemma_sp_advances(data@, pos, wire_type);
                lemma_sp_advances(data@, p1, wire_type);
            }
            match normalizer_field_exec(field) {
                None => reader.skip(wire_type)?,
                Some((name, kind)) => {
                    let value = read_value(&mut reader, kind, wire_type)?;
                    attributes.push(AttributeSpec { name, value });
                    proof {
                        assert(attribute_views(attributes@) =~= before.push(attributes@.last()@));
                    }
                },
            }
        }
    }
}

// ---------------------------------------------------------------------------
// The model

/// What a model message holds: how many pieces, whether the first is
/// complete, and its last trainer spec, normalizer, self-test data and
/// denormalizer.
pub struct ModelProto {
    pub piece_count: usize,
    pub first_piece_complete: bool,
    pub trainer: Option<TrainerSpec>,
    pub normalizer: Option<NormalizerSpec>,
    pub self_test_samples: Option<usize>,
    pub denormalizer: Option<NormalizerSpec>,
}

#[verifier::ext_equal]
pub struct ModelView {
    pub piece_count: nat,
    pub first_piece_complete: bool,
    pub trainer: Option<TrainerView>,
    pub normalizer: Option<Seq<AttributeView>>,
    pub self_test_samples: Option<nat>,
    pub denormalizer: Option<Seq<AttributeView>>,
}

/// The view of an optional normalizer.
pub open spec fn normalizer_view(n: Option<NormalizerSpec>) -> Option<Seq<AttributeView>> {
    match n {
        Some(x) => Some(attribute_views(x.attributes@)),
        None => None,
    }
}

impl View for ModelProto {
    type V = ModelView;

    open spec fn view(&self) -> ModelView {
        ModelView {
            piece_count: self.piece_count as nat,
            first_piece_complete: self.first_piece_complete,
            trainer: match self.trainer {
                Some(t) => Some(t@),
                None => None,
            },
            normalizer: normalizer_view(self.normalizer),
            self_test_samples: match self.self_test_samples {
                Some(n) => Some(n as nat),
                None => None,
            },
            denormalizer: normalizer_view(self.denormalizer),
        }
    }
}

/// A model with no field.
pub open spec fn empty_model() -> ModelView {
    ModelView {
        piece_count: 0,
        first_piece_complete: false,
        trainer: None,
        normalizer: None,
        self_test_samples: None,
        denormalizer: None,
    }
}

/// One field of a model message: every field is a message numbered 1 to 5,
/// else the data is no SentencePiece model. A piece (1) is counted, and the
/// first one checked; the trainer (2), normalizer (3), self-test data (4) and
/// denormalizer (5) are read.
pub open spec fn model_step(data: Seq<u8>, m: ModelView, f: u32, w: u8, p: int) -> Result<
    ModelView,
    ErrorKind,
> {
    if w != 2 || f < 1 || f > 5 {
        Err(ErrorKind::NotFormat)
    } else {
        match sp_bytes(data, p) {
            Err(e) => Err(e),
            Ok((start, end)) => {
                let sub = data.subrange(start, end);
                if f == 1 {
                    Ok(
                        ModelView {
                            piece_count: m.piece_count + 1,
                            first_piece_complete: if m.piece_count == 0 {
                                spec_piece_complete(sub)
                            } else {
                                m.first_piece_complete
                            },
                            ..m
                        },
                    )
                } else if f == 2 {
                    match spec_trainer(sub) {
                        Err(e) => Err(e),
                        Ok(t) => Ok(ModelView { trainer: Some(t), ..m }),
                    }
                } else if f == 3 {
                    match spec_normalizer(sub) {
                        Err(e) => Err(e),
                        Ok(a) => Ok(ModelView { normalizer: Some(a), ..m }),
                    }
                } else if f == 4 {
                    match sp_fold(sub, 0, 0nat, sample_stepper()) {
                        Err(e) => Err(e),
                        Ok(n) => Ok(ModelView { self_test_samples: Some(n), ..m }),
                    }
                } else {
                    match spec_normalizer(sub) {
                        Err(e) => Err(e),
                        Ok(a) => Ok(ModelView { denormalizer: Some(a), ..m }),
                    }
                }
            },
        }
    }
}

pub open spec fn model_stepper(data: Seq<u8>) -> spec_fn(ModelView, u32, u8, int) -> Result<
    ModelView,
    ErrorKind,
> {
    |m: ModelView, f: u32, w: u8, p: int| model_step(data, m, f, w, p)
}

/// The model that a model message holds.
pub open spec fn spec_model(data: Seq<u8>) -> Result<ModelView, ErrorKind> {
    sp_fold(data, 0, empty_model(), model_stepper(data))
}

impl ModelProto {
    /// Reads a SentencePiece model message.
    pub fn read(data: &[u8]) -> (r: Result<Self, ModelError>)
        ensures
            match spec_model(data@) {
                Ok(m) => r matches Ok(x) && x@ == m,
                Err(k) => r matches Err(e) && e == sp_error(k),
            },
    {
        let mut reader = ProtoReader::new(data);
        let mut model = ModelProto {
            piece_count: 0,
            first_piece_complete: false,
            trainer: None,
            normalizer: None,
            self_test_samples: None,
            denormalizer: None,
        };
        loop
            invariant
                reader.data() == data@,
                0 <= reader.pos() <= data@.len(),
                model.piece_count <= reader.pos(),
                sp_fold(data@, reader.pos(), model@, model_stepper(data@)) == spec_model(data@),
            decreases data@.len() - reader.pos(),
        {
            if reader.is_empty() {
                return Ok(model);
            }
            let ghost pos = reader.pos();
            let (field, wire_type) = reader.key()?;
            let ghost p1 = reader.pos();
            let ghost before = model@;
            proof {
                lemma_sp_advances(data@, pos, wire_type);
                lemma_sp_advances(data@, p1, wire_type);
            }
            if wire_type != 2 || field < 1 || field > 5 {
                return Err(invalid(Format::SentencePiece, ErrorKind::NotFormat));
            }
            let bytes = reader.bytes()?;
            if field == 1 {
                model.piece_count = model.piece_count + 1;
                if model.piece_count == 1 {
                    model.first_piece_complete = sentence_piece_complete(bytes);
                }
            } else if field == 2 {
                model.trainer = Some(TrainerSpec::read(bytes)?);
            } else if field == 3 {
                model.normalizer = Some(NormalizerSpec::read(bytes)?);
            } else if field == 4 {
                model.self_test_samples = Some(SelfTestData::sample_count(bytes)?);
            } else {
                model.denormalizer = Some(NormalizerSpec::read(bytes)?);
            }
            proof {
                assert(model@ == model_step(data@, before, field, wire_type, p1).unwrap());
            }
        }
    }
}

/// Whether a model message looks like a SentencePiece model: it reads, has a
/// complete first piece, a trainer spec that sets the vocabulary size, and a
/// normalizer.
pub open spec fn spec_looks_like_sentencepiece(data: Seq<u8>) -> bool {
    match spec_model(data) {
        Err(_) => false,
        Ok(m) => m.piece_count > 0 && m.first_piece_complete && (m.trainer matches Some(t)
            && t.has_vocab_size) && m.normalizer is Some,
    }
}

/// Whether `data` looks like a SentencePiece model.
pub fn looks_like_sentencepiece(data: &[u8]) -> (r: bool)
    ensures
        r == spec_looks_like_sentencepiece(data@),
{
    let model = match ModelProto::read(data) {
        Ok(model) => model,
        Err(_) => return false,
    };
    let trained = match &model.trainer {
        Some(trainer) => trainer.has_vocab_size,
        None => false,
    };
    model.piece_count > 0 && model.first_piece_complete && trained && model.normalizer.is_some()
}

/// The list fields of a trainer spec are read where
/// sentencepiece_model.proto numbers them: 1 `input`, 5 `accept_language`,
/// 30 `control_symbols`, 31 `user_defined_symbols`; and only field 4,
/// `vocab_size`, marks the vocabulary size as set.
pub proof fn lemma_trainer_lists_numbered(data: Seq<u8>, t: TrainerView, f: u32, w: u8, p: int)
    ensures
        read_field(data, FieldKind::Text, w, p) matches Ok(v) ==> trainer_step(data, t, 1, w, p) == Ok::<
            TrainerView,
            ErrorKind,
        >(TrainerView { input: t.input.push(text_of(v)), ..t }) && trainer_step(data, t, 5, w, p) == Ok::<
            TrainerView,
            ErrorKind,
        >(TrainerView { accept_language: t.accept_language.push(text_of(v)), ..t }) && trainer_step(data, t, 30, w, p)
            == Ok::<TrainerView, ErrorKind>(TrainerView { control_symbols: t.control_symbols.push(text_of(v)), ..t })
            && trainer_step(data, t, 31, w, p) == Ok::<TrainerView, ErrorKind>(
            TrainerView { user_defined_symbols: t.user_defined_symbols.push(text_of(v)), ..t },
        ),
        trainer_step(data, t, f, w, p) matches Ok(u) ==> u.has_vocab_size == (t.has_vocab_size || (f == 4
            && read_field(data, FieldKind::Int, w, p) is Ok)),
{
}

/// The parts of a model message are read where sentencepiece_model.proto
/// numbers them: 1 counts a piece, 2 is the `trainer_spec`, 3 the
/// `normalizer_spec`, 4 the `self_test_data`, 5 the `denormalizer_spec`.
pub proof fn lemma_model_parts_numbered(data: Seq<u8>, m: ModelView, w: u8, p: int)
    requires
        w == 2,
        sp_bytes(data, p) is Ok,
    ensures
        ({
            let (start, end) = sp_bytes(data, p)->Ok_0;
            let sub = data.subrange(start, end);
            &&& model_step(data, m, 1, w, p) matches Ok(r) && r.piece_count == m.piece_count + 1 && r.trainer
                == m.trainer && r.normalizer == m.normalizer
            &&& spec_trainer(sub) matches Ok(t) ==> model_step(data, m, 2, w, p) == Ok::<ModelView, ErrorKind>(
                ModelView { trainer: Some(t), ..m },
            )
            &&& spec_normalizer(sub) matches Ok(a) ==> model_step(data, m, 3, w, p) == Ok::<ModelView, ErrorKind>(
                ModelView { normalizer: Some(a), ..m },
            ) && model_step(data, m, 5, w, p) == Ok::<ModelView, ErrorKind>(ModelView { denormalizer: Some(a), ..m })
            &&& sp_fold(sub, 0, 0nat, sample_stepper()) matches Ok(n) ==> model_step(data, m, 4, w, p) == Ok::<
                ModelView,
                ErrorKind,
            >(ModelView { self_test_samples: Some(n), ..m })
        }),
{
}

} // verus!
