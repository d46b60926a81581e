//! Lowering a SentencePiece model: one node per part of the model message,
//! named after the part and carrying its fields as attributes.
use vstd::prelude::*;
use vstd::string::StringExecFns;
use crate::graph::{AttributeView as NodeAttribute, LoweredAttribute, LoweredModel, LoweredNode, NodeView};
use crate::sentencepiece::model::{
    AttributeSpec, AttributeValue, AttributeValueView, AttributeView, ModelProto, ModelView, TrainerSpec,
    TrainerView, attribute_views, text_views,
};
use crate::sentencepiece::{object_placeholder, object_placeholders};

verus! {

/// The node attribute that a field's value gives.
pub open spec fn lowered_attribute(v: AttributeValueView) -> NodeAttribute {
    match v {
        AttributeValueView::Text(s) => NodeAttribute::Text(s),
        AttributeValueView::Texts(t) => NodeAttribute::Texts(t),
        AttributeValueView::Int(i) => NodeAttribute::Int(i),
        AttributeValueView::Ints(v) => NodeAttribute::Ints(v),
        AttributeValueView::FloatBits(b) => NodeAttribute::FloatBits(b),
        AttributeValueView::Bool(b) => NodeAttribute::Bool(b),
    }
}

/// The node attributes of a message's fields, in order.
pub open spec fn lowered_attributes(attrs: Seq<AttributeView>) -> Seq<(Seq<char>, NodeAttribute)> {
    attrs.map_values(|a: AttributeView| (a.name, lowered_attribute(a.value)))
}

/// The views of named node attributes.
pub open spec fn attr_views(v: Seq<(String, LoweredAttribute)>) -> Seq<(Seq<char>, NodeAttribute)> {
    v.map_values(|a: (String, LoweredAttribute)| (a.0@, a.1@))
}

/// As many placeholder texts as `count`, at most sixteen.
pub open spec fn placeholders(count: nat) -> Seq<Seq<char>> {
    Seq::new(
        if count < 16 {
            count
        } else {
            16
        },
        |i: int| object_placeholder(),
    )
}

/// A node of the model: named, with its operator and attributes, and no
/// inputs, outputs or metadata.
pub open spec fn sp_node(name: Seq<char>, operator: Seq<char>, attributes: Seq<(Seq<char>, NodeAttribute)>) -> NodeView {
    NodeView {
        name: Some(name),
        operator,
        inputs: Seq::empty(),
        outputs: Seq::empty(),
        attributes,
        metadata: Seq::empty(),
    }
}

/// The attributes of a trainer spec: its four lists of texts, then its
/// scalar fields in order.
pub open spec fn trainer_attributes(t: TrainerView) -> Seq<(Seq<char>, NodeAttribute)> {
    seq![
        ("input"@, NodeAttribute::Texts(t.input)),
        ("accept_language"@, NodeAttribute::Texts(t.accept_language)),
        ("control_symbols"@, NodeAttribute::Texts(t.control_symbols)),
        ("user_defined_symbols"@, NodeAttribute::Texts(t.user_defined_symbols)),
    ] + lowered_attributes(t.scalars)
}

/// The pieces node, when the model has pieces.
pub open spec fn pieces_part(m: ModelView) -> Seq<NodeView> {
    if m.piece_count > 0 {
        seq![sp_node("pieces"@, "SentencePiece[]"@, seq![("pieces"@, NodeAttribute::Texts(placeholders(m.piece_count)))])]
    } else {
        Seq::empty()
    }
}

/// The trainer node, when the model has a trainer spec.
pub open spec fn trainer_part(m: ModelView) -> Seq<NodeView> {
    match m.trainer {
        Some(t) => seq![sp_node("trainer_spec"@, "TrainerSpec"@, trainer_attributes(t))],
        None => Seq::empty(),
    }
}

/// The node of a normalizer spec, when there is one.
pub open spec fn normalizer_part(n: Option<Seq<AttributeView>>, name: Seq<char>) -> Seq<NodeView> {
    match n {
        Some(a) => seq![sp_node(name, "NormalizerSpec"@, lowered_attributes(a))],
        None => Seq::empty(),
    }
}

/// The self-test node, when the model has self-test data.
pub open spec fn samples_part(m: ModelView) -> Seq<NodeView> {
    match m.self_test_samples {
        Some(n) => seq![sp_node("self_test_data"@, "SelfTestData"@, seq![("samples"@, NodeAttribute::Texts(placeholders(n)))])],
        None => Seq::empty(),
    }
}

/// The lowered SentencePiece model: no values, and the nodes of its pieces,
/// trainer spec, normalizer spec, self-test data and denormalizer spec, each
/// where the model has it.
pub open spec fn spec_lower_sentencepiece(m: ModelView) -> crate::graph::ModelView {
    crate::graph::ModelView {
        format: "SentencePiece"@,
        version: None,
        values: Seq::empty(),
        nodes: pieces_part(m) + trainer_part(m) + normalizer_part(m.normalizer, "normalizer_spec"@) + samples_part(m)
            + normalizer_part(m.denormalizer, "denormalizer_spec"@),
        inputs: Seq::empty(),
        outputs: Seq::empty(),
        producer: None,
        producer_version: None,
    }
}

/// The node attribute of a field's value.
fn lower_attribute(v: AttributeValue) -> (r: LoweredAttribute)
    ensures
        r@ == lowered_attribute(v@),
{
    match v {
        AttributeValue::Text(s) => LoweredAttribute::Text(s),
        AttributeValue::Texts(t) => {
            let r = LoweredAttribute::Texts(t);
            proof {
                assert(r@ == NodeAttribute::Texts(text_views(t@)));
            }
            r
        },
        AttributeValue::Int(i) => LoweredAttribute::Int(i),
        AttributeValue::Ints(v) => LoweredAttribute::Ints(v),
        AttributeValue::FloatBits(b) => LoweredAttribute::FloatBits(b),
        AttributeValue::Bool(b) => LoweredAttribute::Bool(b),
    }
}

/// The node attributes of a message's fields.
fn lower_attributes(attrs: Vec<AttributeSpec>) -> (r: Vec<(String, LoweredAttribute)>)
    ensures
        attr_views(r@) == lowered_attributes(attribute_views(attrs@)),
{
    let ghost all = attribute_views(attrs@);
    let mut rest = attrs;
    let mut out: Vec<(String, LoweredAttribute)> = Vec::new();
    let ghost mut k: int = 0;
    proof {
        assert(rest@.skip(0) =~= rest@);
        assert(attr_views(out@) =~= lowered_attributes(all.take(0)));
    }
    while rest.len() > 0
        invariant
            0 <= k <= all.len(),
            attribute_views(rest@) == all.skip(k),
            attr_views(out@) == lowered_attributes(all.take(k)),
        decreases rest@.len(),
    {
        let ghost before = rest@;
        let a = rest.remove(0);
        proof {
            assert(attribute_views(before).len() == before.len());
            assert(all.skip(k).len() == before.len());
            assert(k < all.len());
            assert(all[k] == a@) by {
                assert(attribute_views(before)[0] == all.skip(k)[0]);
                assert(before[0] == a);
            }
            assert(rest@ =~= before.skip(1));
            assert forall|j: int| 0 <= j < rest@.len() implies #[trigger] attribute_views(rest@)[j] == all.skip(k + 1)[j] by {
                assert(rest@[j] == before[j + 1]);
                assert(attribute_views(before)[j + 1] == all.skip(k)[j + 1]);
            }
            assert(attribute_views(rest@) =~= all.skip(k + 1));
        }
        let name = String::from_str(a.name);
        let value = lower_attribute(a.value);
        let ghost prev = out@;
        out.push((name, value));
        proof {
            assert(all.take(k + 1) =~= all.take(k).push(all[k]));
            assert(attr_views(out@) =~= attr_views(prev).push((a@.name, lowered_attribute(a@.value))));
            assert(lowered_attributes(all.take(k + 1)) =~= lowered_attributes(all.take(k)).push(
                (all[k].name, lowered_attribute(all[k].value)),
            ));
            k = k + 1;
        }
    }
    proof {
        assert(all.skip(k).len() == 0);
        assert(all.take(k) =~= all);
    }
    out
}

/// The attributes of a trainer spec.
fn trainer_attributes_exec(t: TrainerSpec) -> (r: Vec<(String, LoweredAttribute)>)
    ensures
        attr_views(r@) == trainer_attributes(t@),
{
    let ghost tv = t@;
    let TrainerSpec { input, accept_language, control_symbols, user_defined_symbols, scalars, has_vocab_size: _ } = t;
    let mut out: Vec<(String, LoweredAttribute)> = Vec::new();
    out.push((String::from_str("input"), LoweredAttribute::Texts(input)));
    out.push((String::from_str("accept_language"), LoweredAttribute::Texts(accept_language)));
    out.push((String::from_str("control_symbols"), LoweredAttribute::Texts(control_symbols)));
    out.push((String::from_str("user_defined_symbols"), LoweredAttribute::Texts(user_defined_symbols)));
    let ghost head = out@;
    let mut rest = lower_attributes(scalars);
    out.append(&mut rest);
    proof {
        assert(attr_views(head) =~= seq![
            ("input"@, NodeAttribute::Texts(tv.input)),
            ("accept_language"@, NodeAttribute::Texts(tv.accept_language)),
            ("control_symbols"@, NodeAttribute::Texts(tv.control_symbols)),
            ("user_defined_symbols"@, NodeAttribute::Texts(tv.user_defined_symbols)),
        ]);
        assert(attr_views(out@) =~= attr_views(head) + lowered_attributes(tv.scalars));
    }
    out
}

/// A node of the model.
fn sp_node_exec(name: &str, operator: &str, attributes: Vec<(String, LoweredAttribute)>) -> (r: LoweredNode)
    ensures
        r@ == sp_node(name@, operator@, attr_views(attributes@)),
{
    let r = LoweredNode {
        name: Some(String::from_str(name)),
        operator: String::from_str(operator),
        inputs: Vec::new(),
        outputs: Vec::new(),
        attributes,
        metadata: Vec::new(),
    };
    proof {
        assert(r@.inputs =~= Seq::<Option<usize>>::empty());
        assert(r@.outputs =~= Seq::<Option<usize>>::empty());
        assert(r@.metadata =~= Seq::<(Seq<char>, Seq<char>)>::empty());
    }
    r
}

/// A node whose one attribute lists placeholders.
fn placeholder_node(name: &str, operator: &str, attribute: &str, count: usize) -> (r: LoweredNode)
    ensures
        r@ == sp_node(name@, operator@, seq![(attribute@, NodeAttribute::Texts(placeholders(count as nat)))]),
{
    let texts = object_placeholders(count);
    let mut attributes: Vec<(String, LoweredAttribute)> = Vec::new();
    attributes.push((String::from_str(attribute), LoweredAttribute::Texts(texts)));
    proof {
        assert(texts@.map_values(|s: String| s@) =~= placeholders(count as nat));
        assert(attr_views(attributes@) =~= seq![(attribute@, NodeAttribute::Texts(placeholders(count as nat)))]);
    }
    sp_node_exec(name, operator, attributes)
}

/// Lowers a SentencePiece model message.
pub fn lower_sentencepiece_model(proto: ModelProto) -> (r: LoweredModel)
    ensures
        r@ == spec_lower_sentencepiece(proto@),
{
    let ghost m = proto@;
    let ModelProto { piece_count, first_piece_complete: _, trainer, normalizer, self_test_samples, denormalizer } = proto;
    let mut nodes: Vec<LoweredNode> = Vec::new();
    if piece_count > 0 {
        nodes.push(placeholder_node("pieces", "SentencePiece[]", "pieces", piece_count));
    }
    proof {
        assert(nodes@.map_values(|n: LoweredNode| n@) =~= pieces_part(m));
    }
    let ghost p1 = nodes@.map_values(|n: LoweredNode| n@);
    match trainer {
        Some(t) => {
            let attrs = trainer_attributes_exec(t);
            nodes.push(sp_node_exec("trainer_spec", "TrainerSpec", attrs));
        },
        None => {},
    }
    proof {
        assert(nodes@.map_values(|n: LoweredNode| n@) =~= p1 + trainer_part(m));
    }
    let ghost p2 = nodes@.map_values(|n: LoweredNode| n@);
    match normalizer {
        Some(n) => {
            let attrs = lower_attributes(n.attributes);
            nodes.push(sp_node_exec("normalizer_spec", "NormalizerSpec", attrs));
        },
        None => {},
    }
    proof {
        assert(nodes@.map_values(|n: LoweredNode| n@) =~= p2 + normalizer_part(m.normalizer, "normalizer_spec"@));
    }
    let ghost p3 = nodes@.map_values(|n: LoweredNode| n@);
    match self_test_samples {
        Some(count) => {
            nodes.push(placeholder_node("self_test_data", "SelfTestData", "samples", count));
        },
        None => {},
    }
    proof {
        assert(nodes@.map_values(|n: LoweredNode| n@) =~= p3 + samples_part(m));
    }
    let ghost p4 = nodes@.map_values(|n: LoweredNode| n@);
    match denormalizer {
        Some(n) => {
            let attrs = lower_attributes(n.attributes);
            nodes.push(sp_node_exec("denormalizer_spec", "NormalizerSpec", attrs));
        },
        None => {},
    }
    proof {
        assert(nodes@.map_values(|n: LoweredNode| n@) =~= p4 + normalizer_part(m.denormalizer, "denormalizer_spec"@));
    }
    let r = LoweredModel {
        format: String::from_str("SentencePiece"),
        version: None,
        values: Vec::new(),
        nodes,
        inputs: Vec::new(),
        outputs: Vec::new(),
        producer: None,
        producer_version: None,
    };
    proof {
        assert(r@.values =~= Seq::<crate::graph::ValueView>::empty());
        assert(r@.inputs =~= Seq::<usize>::empty());
        assert(r@.outputs =~= Seq::<usize>::empty());
    }
    r
}

} // verus!
