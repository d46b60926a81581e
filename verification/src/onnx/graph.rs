//! The ONNX messages that nest: a graph holds nodes, a node holds attributes,
//! and an attribute may hold graphs again; and the functions and the model
//! around them.
use vstd::prelude::*;
use vstd::string::StringExecFns;
use crate::error::{ErrorKind, Format, ModelError, invalid};
use crate::onnx::{
    PbReader, WireValue, field_bytes, field_float32, field_int64, field_repeated_f32,
    field_repeated_i64, field_string, fold_fields, lemma_next_field_advances, spec_next_field,
};
use crate::onnx::proto::{
    OperatorSetIdProto, OperatorSetIdView, SparseTensorProto, SparseTensorView,
    StringStringEntryProto, TensorAnnotationProto, TensorAnnotationView, TensorProto, TensorView,
    ValueInfoProto, ValueInfoView, decoded, insert_entry, insert_entry_exec, opt_str,
    spec_decode_annotation, spec_decode_entry, spec_decode_opset, spec_decode_sparse_tensor,
    spec_decode_tensor, spec_decode_value_info,
};
use crate::strmap::{Entries, StringMap};

verus! {

// ---------------------------------------------------------------------------
// The messages

/// The value of an attribute. A float is kept as its bits.
pub enum AttributeKind {
    Float(u32),
    Int(i64),
    String(Vec<u8>),
    Reference(String),
    Tensor(TensorProto),
    Graph(GraphProto),
    SparseTensor(SparseTensorProto),
    Floats(Vec<u32>),
    Ints(Vec<i64>),
    Strings(Vec<Vec<u8>>),
    Tensors(Vec<TensorProto>),
    SparseTensors(Vec<SparseTensorProto>),
    Graphs(Vec<GraphProto>),
    Type(String),
}

/// A named attribute of a node.
pub struct AttributeProto {
    pub name: String,
    pub kind: Option<AttributeKind>,
}

/// A node of a graph.
pub struct NodeProto {
    pub inputs: Vec<String>,
    pub outputs: Vec<String>,
    pub name: Option<String>,
    pub op_type: String,
    pub attributes: Vec<AttributeProto>,
    pub doc_string: Option<String>,
    pub domain: Option<String>,
    pub overload: Option<String>,
    pub metadata_props: StringMap,
}

/// A graph: its nodes, its tensors and its values.
pub struct GraphProto {
    pub nodes: Vec<NodeProto>,
    pub name: Option<String>,
    pub doc_string: Option<String>,
    pub initializers: Vec<TensorProto>,
    pub sparse_initializers: Vec<SparseTensorProto>,
    pub inputs: Vec<ValueInfoProto>,
    pub outputs: Vec<ValueInfoProto>,
    pub value_info: Vec<ValueInfoProto>,
    pub quantization_annotations: Vec<TensorAnnotationProto>,
    pub metadata_props: StringMap,
}

pub enum AttributeKindView {
    Float(u32),
    Int(i64),
    String(Seq<u8>),
    Reference(Seq<char>),
    Tensor(TensorView),
    Graph(GraphView),
    SparseTensor(SparseTensorView),
    Floats(Seq<u32>),
    Ints(Seq<i64>),
    Strings(Seq<Seq<u8>>),
    Tensors(Seq<TensorView>),
    SparseTensors(Seq<SparseTensorView>),
    Graphs(Seq<GraphView>),
    Type(Seq<char>),
}

pub struct AttributeView {
    pub name: Seq<char>,
    pub kind: Option<AttributeKindView>,
}

#[verifier::ext_equal]
pub struct NodeView {
    pub inputs: Seq<Seq<char>>,
    pub outputs: Seq<Seq<char>>,
    pub name: Option<Seq<char>>,
    pub op_type: Seq<char>,
    pub attributes: Seq<AttributeView>,
    pub doc_string: Option<Seq<char>>,
    pub domain: Option<Seq<char>>,
    pub overload: Option<Seq<char>>,
    pub metadata_props: Entries,
}

#[verifier::ext_equal]
pub struct GraphView {
    pub nodes: Seq<NodeView>,
    pub name: Option<Seq<char>>,
    pub doc_string: Option<Seq<char>>,
    pub initializers: Seq<TensorView>,
    pub sparse_initializers: Seq<SparseTensorView>,
    pub inputs: Seq<ValueInfoView>,
    pub outputs: Seq<ValueInfoView>,
    pub value_info: Seq<ValueInfoView>,
    pub quantization_annotations: Seq<TensorAnnotationView>,
    pub metadata_props: Entries,
}

// ---------------------------------------------------------------------------
// Views

/// The views of strings.
pub open spec fn texts(v: Seq<String>) -> Seq<Seq<char>> {
    v.map_values(|s: String| s@)
}

/// The views of byte strings.
pub open spec fn byte_strings(v: Seq<Vec<u8>>) -> Seq<Seq<u8>> {
    v.map_values(|b: Vec<u8>| b@)
}

pub open spec fn tensor_views(v: Seq<TensorProto>) -> Seq<TensorView> {
    v.map_values(|t: TensorProto| t@)
}

pub open spec fn sparse_views(v: Seq<SparseTensorProto>) -> Seq<SparseTensorView> {
    v.map_values(|t: SparseTensorProto| t@)
}

pub open spec fn value_info_views(v: Seq<ValueInfoProto>) -> Seq<ValueInfoView> {
    v.map_values(|t: ValueInfoProto| t@)
}

pub open spec fn annotation_views(v: Seq<TensorAnnotationProto>) -> Seq<TensorAnnotationView> {
    v.map_values(|t: TensorAnnotationProto| t@)
}

pub open spec fn opset_views(v: Seq<OperatorSetIdProto>) -> Seq<OperatorSetIdView> {
    v.map_values(|t: OperatorSetIdProto| t@)
}

/// The view of a graph.
pub open spec fn graph_view(g: GraphProto) -> GraphView
    decreases g,
{
    proof {
        assert(decreases_to!(g => g.nodes));
        assert(decreases_to!(g.nodes => g.nodes@));
    }
    GraphView {
        nodes: nodes_of(g.nodes@),
        name: opt_str(g.name),
        doc_string: opt_str(g.doc_string),
        initializers: tensor_views(g.initializers@),
        sparse_initializers: sparse_views(g.sparse_initializers@),
        inputs: value_info_views(g.inputs@),
        outputs: value_info_views(g.outputs@),
        value_info: value_info_views(g.value_info@),
        quantization_annotations: annotation_views(g.quantization_annotations@),
        metadata_props: g.metadata_props@,
    }
}

/// The views of nodes.
pub open spec fn nodes_of(v: Seq<NodeProto>) -> Seq<NodeView>
    decreases v,
{
    Seq::new(
        v.len(),
        |i: int|
            if 0 <= i < v.len() {
                proof {
                    assert(decreases_to!(v => v[i]));
                }
                node_view(v[i])
            } else {
                arbitrary()
            },
    )
}

/// The view of a node.
pub open spec fn node_view(n: NodeProto) -> NodeView
    decreases n,
{
    proof {
        assert(decreases_to!(n => n.attributes));
        assert(decreases_to!(n.attributes => n.attributes@));
    }
    NodeView {
        inputs: texts(n.inputs@),
        outputs: texts(n.outputs@),
        name: opt_str(n.name),
        op_type: n.op_type@,
        attributes: attributes_of(n.attributes@),
        doc_string: opt_str(n.doc_string),
        domain: opt_str(n.domain),
        overload: opt_str(n.overload),
        metadata_props: n.metadata_props@,
    }
}

/// The views of attributes.
pub open spec fn attributes_of(v: Seq<AttributeProto>) -> Seq<AttributeView>
    decreases v,
{
    Seq::new(
        v.len(),
        |i: int|
            if 0 <= i < v.len() {
                proof {
                    assert(decreases_to!(v => v[i]));
                }
                attribute_view(v[i])
            } else {
                arbitrary()
            },
    )
}

/// The view of an attribute.
pub open spec fn attribute_view(a: AttributeProto) -> AttributeView
    decreases a,
{
    AttributeView {
        name: a.name@,
        kind: match a.kind {
            Some(k) => Some(kind_view(k)),
            None => None,
        },
    }
}

/// The view of an attribute's value.
pub open spec fn kind_view(k: AttributeKind) -> AttributeKindView
    decreases k,
{
    match k {
        AttributeKind::Float(x) => AttributeKindView::Float(x),
        AttributeKind::Int(x) => AttributeKindView::Int(x),
        AttributeKind::String(b) => AttributeKindView::String(b@),
        AttributeKind::Reference(s) => AttributeKindView::Reference(s@),
        AttributeKind::Tensor(t) => AttributeKindView::Tensor(t@),
        AttributeKind::Graph(g) => AttributeKindView::Graph(graph_view(g)),
        AttributeKind::SparseTensor(t) => AttributeKindView::SparseTensor(t@),
        AttributeKind::Floats(v) => AttributeKindView::Floats(v@),
        AttributeKind::Ints(v) => AttributeKindView::Ints(v@),
        AttributeKind::Strings(v) => AttributeKindView::Strings(byte_strings(v@)),
        AttributeKind::Tensors(v) => AttributeKindView::Tensors(tensor_views(v@)),
        AttributeKind::SparseTensors(v) => AttributeKindView::SparseTensors(sparse_views(v@)),
        AttributeKind::Graphs(v) => {
            proof {
                assert(decreases_to!(v => v@));
            }
            AttributeKindView::Graphs(graphs_of(v@))
        },
        AttributeKind::Type(s) => AttributeKindView::Type(s@),
    }
}

/// The views of graphs.
pub open spec fn graphs_of(v: Seq<GraphProto>) -> Seq<GraphView>
    decreases v,
{
    Seq::new(
        v.len(),
        |i: int|
            if 0 <= i < v.len() {
                proof {
                    assert(decreases_to!(v => v[i]));
                }
                graph_view(v[i])
            } else {
                arbitrary()
            },
    )
}

impl View for GraphProto {
    type V = GraphView;

    open spec fn view(&self) -> GraphView {
        graph_view(*self)
    }
}

impl View for NodeProto {
    type V = NodeView;

    open spec fn view(&self) -> NodeView {
        node_view(*self)
    }
}

impl View for AttributeProto {
    type V = AttributeView;

    open spec fn view(&self) -> AttributeView {
        attribute_view(*self)
    }
}

// ---------------------------------------------------------------------------
// What the messages decode to
//
// A nested message is read only when it is shorter than the message around
// it, which every field is; `limit` is the length of that message.

/// An empty graph.
pub open spec fn empty_graph() -> GraphView {
    GraphView {
        nodes: Seq::empty(),
        name: None,
        doc_string: None,
        initializers: Seq::empty(),
        sparse_initializers: Seq::empty(),
        inputs: Seq::empty(),
        outputs: Seq::empty(),
        value_info: Seq::empty(),
        quantization_annotations: Seq::empty(),
        metadata_props: Seq::empty(),
    }
}

/// Field 1 adds a node, 2 is the name, 5 adds an initializer, 10 is the
/// documentation, 11 to 13 add inputs, outputs and value infos, 14 a
/// quantization annotation, 15 a sparse initializer and 16 a metadata entry.
pub open spec fn graph_step(limit: int, g: GraphView, n: u32, v: WireValue) -> Result<
    GraphView,
    ErrorKind,
>
    decreases limit, 0int,
{
    if n == 2 || n == 10 {
        match field_string(v) {
            Err(e) => Err(e),
            Ok(s) => Ok(
                if n == 2 {
                    GraphView { name: Some(s), ..g }
                } else {
                    GraphView { doc_string: Some(s), ..g }
                },
            ),
        }
    } else if n == 1 || n == 5 || n == 11 || n == 12 || n == 13 || n == 14 || n == 15 || n == 16 {
        match field_bytes(v) {
            Err(e) => Err(e),
            Ok(b) => if n == 1 {
                if b.len() < limit {
                    match spec_decode_node(b) {
                        Err(e) => Err(e),
                        Ok(x) => Ok(GraphView { nodes: g.nodes.push(x), ..g }),
                    }
                } else {
                    Err(ErrorKind::InvalidValue)
                }
            } else if n == 5 {
                match spec_decode_tensor(b) {
                    Err(e) => Err(e),
                    Ok(x) => Ok(GraphView { initializers: g.initializers.push(x), ..g }),
                }
            } else if n == 11 || n == 12 || n == 13 {
                match spec_decode_value_info(b) {
                    Err(e) => Err(e),
                    Ok(x) => Ok(
                        if n == 11 {
                            GraphView { inputs: g.inputs.push(x), ..g }
                        } else if n == 12 {
                            GraphView { outputs: g.outputs.push(x), ..g }
                        } else {
                            GraphView { value_info: g.value_info.push(x), ..g }
                        },
                    ),
                }
            } else if n == 14 {
                match spec_decode_annotation(b) {
                    Err(e) => Err(e),
                    Ok(x) => Ok(
                        GraphView {
                            quantization_annotations: g.quantization_annotations.push(x),
                            ..g
                        },
                    ),
                }
            } else if n == 15 {
                match spec_decode_sparse_tensor(b) {
                    Err(e) => Err(e),
                    Ok(x) => Ok(
                        GraphView { sparse_initializers: g.sparse_initializers.push(x), ..g },
                    ),
                }
            } else {
                match spec_decode_entry(b) {
                    Err(e) => Err(e),
                    Ok(x) => Ok(
                        GraphView { metadata_props: insert_entry(g.metadata_props, x), ..g },
                    ),
                }
            },
        }
    } else {
        Ok(g)
    }
}

pub open spec fn graph_stepper(limit: int) -> spec_fn(GraphView, u32, WireValue) -> Result<
    GraphView,
    ErrorKind,
>
    decreases limit, 1int,
{
    |g: GraphView, n: u32, v: WireValue| graph_step(limit, g, n, v)
}

/// The graph that `data` encodes.
pub open spec fn spec_decode_graph(data: Seq<u8>) -> Result<GraphView, ErrorKind>
    decreases data.len(), 2int,
{
    fold_fields(data, 0, empty_graph(), graph_stepper(data.len() as int))
}

/// A node with no field.
pub open spec fn empty_node() -> NodeView {
    NodeView {
        inputs: Seq::empty(),
        outputs: Seq::empty(),
        name: None,
        op_type: Seq::empty(),
        attributes: Seq::empty(),
        doc_string: None,
        domain: None,
        overload: None,
        metadata_props: Seq::empty(),
    }
}

/// Fields 1 and 2 add an input and an output, 3 is the name, 4 the operator,
/// 5 adds an attribute, 6 to 8 are the documentation, domain and overload, 9
/// adds a metadata entry.
pub open spec fn node_step(limit: int, x: NodeView, n: u32, v: WireValue) -> Result<
    NodeView,
    ErrorKind,
>
    decreases limit, 0int,
{
    if n == 5 || n == 9 {
        match field_bytes(v) {
            Err(e) => Err(e),
            Ok(b) => if n == 5 {
                if b.len() < limit {
                    match spec_decode_attribute(b) {
                        Err(e) => Err(e),
                        Ok(a) => Ok(NodeView { attributes: x.attributes.push(a), ..x }),
                    }
                } else {
                    Err(ErrorKind::InvalidValue)
                }
            } else {
                match spec_decode_entry(b) {
                    Err(e) => Err(e),
                    Ok(e) => Ok(NodeView { metadata_props: insert_entry(x.metadata_props, e), ..x }),
                }
            },
        }
    } else if 1 <= n <= 8 {
        match field_string(v) {
            Err(e) => Err(e),
            Ok(s) => Ok(
                if n == 1 {
                    NodeView { inputs: x.inputs.push(s), ..x }
                } else if n == 2 {
                    NodeView { outputs: x.outputs.push(s), ..x }
                } else if n == 3 {
                    NodeView { name: Some(s), ..x }
                } else if n == 4 {
                    NodeView { op_type: s, ..x }
                } else if n == 6 {
                    NodeView { doc_string: Some(s), ..x }
                } else if n == 7 {
                    NodeView { domain: Some(s), ..x }
                } else {
                    NodeView { overload: Some(s), ..x }
                },
            ),
        }
    } else {
        Ok(x)
    }
}

pub open spec fn node_stepper(limit: int) -> spec_fn(NodeView, u32, WireValue) -> Result<
    NodeView,
    ErrorKind,
>
    decreases limit, 1int,
{
    |x: NodeView, n: u32, v: WireValue| node_step(limit, x, n, v)
}

/// The node that `data` encodes.
pub open spec fn spec_decode_node(data: Seq<u8>) -> Result<NodeView, ErrorKind>
    decreases data.len(), 2int,
{
    fold_fields(data, 0, empty_node(), node_stepper(data.len() as int))
}

/// What an attribute has read so far: its name, its last single value, and
/// the values of each repeated field.
#[verifier::ext_equal]
pub struct AttributeState {
    pub name: Seq<char>,
    pub kind: Option<AttributeKindView>,
    pub floats: Seq<u32>,
    pub ints: Seq<i64>,
    pub strings: Seq<Seq<u8>>,
    pub tensors: Seq<TensorView>,
    pub graphs: Seq<GraphView>,
    pub sparse_tensors: Seq<SparseTensorView>,
}

pub open spec fn empty_attribute() -> AttributeState {
    AttributeState {
        name: Seq::empty(),
        kind: None,
        floats: Seq::empty(),
        ints: Seq::empty(),
        strings: Seq::empty(),
        tensors: Seq::empty(),
        graphs: Seq::empty(),
        sparse_tensors: Seq::empty(),
    }
}

/// Field 1 is the name; 2 to 6, 14, 21 and 22 set a single value (a float, an
/// int, a string, a tensor, a graph, a type, a reference, a sparse tensor); 7
/// to 11 and 23 add to the repeated values.
pub open spec fn attribute_step(limit: int, a: AttributeState, n: u32, v: WireValue) -> Result<
    AttributeState,
    ErrorKind,
>
    decreases limit, 0int,
{
    if n == 1 || n == 21 {
        match field_string(v) {
            Err(e) => Err(e),
            Ok(s) => Ok(
                if n == 1 {
                    AttributeState { name: s, ..a }
                } else {
                    AttributeState { kind: Some(AttributeKindView::Reference(s)), ..a }
                },
            ),
        }
    } else if n == 2 {
        match field_float32(v) {
            Err(e) => Err(e),
            Ok(x) => Ok(AttributeState { kind: Some(AttributeKindView::Float(x)), ..a }),
        }
    } else if n == 3 {
        match field_int64(v) {
            Err(e) => Err(e),
            Ok(x) => Ok(AttributeState { kind: Some(AttributeKindView::Int(x)), ..a }),
        }
    } else if n == 7 {
        match field_repeated_f32(v) {
            Err(e) => Err(e),
            Ok(x) => Ok(AttributeState { floats: a.floats + x, ..a }),
        }
    } else if n == 8 {
        match field_repeated_i64(v) {
            Err(e) => Err(e),
            Ok(x) => Ok(AttributeState { ints: a.ints + x, ..a }),
        }
    } else if n == 4 || n == 5 || n == 6 || n == 9 || n == 10 || n == 11 || n == 14 || n == 22
        || n == 23 {
        match field_bytes(v) {
            Err(e) => Err(e),
            Ok(b) => if n == 4 {
                Ok(AttributeState { kind: Some(AttributeKindView::String(b)), ..a })
            } else if n == 9 {
                Ok(AttributeState { strings: a.strings.push(b), ..a })
            } else if n == 14 {
                Ok(AttributeState { kind: Some(AttributeKindView::Type("type_proto"@)), ..a })
            } else if n == 5 || n == 10 {
                match spec_decode_tensor(b) {
                    Err(e) => Err(e),
                    Ok(t) => Ok(
                        if n == 5 {
                            AttributeState { kind: Some(AttributeKindView::Tensor(t)), ..a }
                        } else {
                            AttributeState { tensors: a.tensors.push(t), ..a }
                        },
                    ),
                }
            } else if n == 22 || n == 23 {
                match spec_decode_sparse_tensor(b) {
                    Err(e) => Err(e),
                    Ok(t) => Ok(
                        if n == 22 {
                            AttributeState { kind: Some(AttributeKindView::SparseTensor(t)), ..a }
                        } else {
                            AttributeState { sparse_tensors: a.sparse_tensors.push(t), ..a }
                        },
                    ),
                }
            } else if b.len() < limit {
                match spec_decode_graph(b) {
                    Err(e) => Err(e),
                    Ok(g) => Ok(
                        if n == 6 {
                            AttributeState { kind: Some(AttributeKindView::Graph(g)), ..a }
                        } else {
                            AttributeState { graphs: a.graphs.push(g), ..a }
                        },
                    ),
                }
            } else {
                Err(ErrorKind::InvalidValue)
            },
        }
    } else {
        Ok(a)
    }
}

pub open spec fn attribute_stepper(limit: int) -> spec_fn(AttributeState, u32, WireValue) -> Result<
    AttributeState,
    ErrorKind,
>
    decreases limit, 1int,
{
    |a: AttributeState, n: u32, v: WireValue| attribute_step(limit, a, n, v)
}

/// The attribute that the fields read so far give: a non-empty repeated field
/// wins over a single value, and of them the last in the order strings,
/// floats, ints, tensors, graphs, sparse tensors.
pub open spec fn finish_attribute(a: AttributeState) -> AttributeView {
    let kind = if a.sparse_tensors.len() > 0 {
        Some(AttributeKindView::SparseTensors(a.sparse_tensors))
    } else if a.graphs.len() > 0 {
        Some(AttributeKindView::Graphs(a.graphs))
    } else if a.tensors.len() > 0 {
        Some(AttributeKindView::Tensors(a.tensors))
    } else if a.ints.len() > 0 {
        Some(AttributeKindView::Ints(a.ints))
    } else if a.floats.len() > 0 {
        Some(AttributeKindView::Floats(a.floats))
    } else if a.strings.len() > 0 {
        Some(AttributeKindView::Strings(a.strings))
    } else {
        a.kind
    };
    AttributeView { name: a.name, kind }
}

/// The attribute that `data` encodes.
pub open spec fn spec_decode_attribute(data: Seq<u8>) -> Result<AttributeView, ErrorKind>
    decreases data.len(), 2int,
{
    match fold_fields(data, 0, empty_attribute(), attribute_stepper(data.len() as int)) {
        Err(e) => Err(e),
        Ok(a) => Ok(finish_attribute(a)),
    }
}

// ---------------------------------------------------------------------------
// Adding to the lists of nested messages

pub proof fn lemma_nodes_of_push(v: Seq<NodeProto>, x: NodeProto)
    ensures
        nodes_of(v.push(x)) == nodes_of(v).push(node_view(x)),
{
    assert(nodes_of(v.push(x)) =~= nodes_of(v).push(node_view(x)));
}

pub proof fn lemma_attributes_of_push(v: Seq<AttributeProto>, x: AttributeProto)
    ensures
        attributes_of(v.push(x)) == attributes_of(v).push(attribute_view(x)),
{
    assert(attributes_of(v.push(x)) =~= attributes_of(v).push(attribute_view(x)));
}

pub proof fn lemma_graphs_of_push(v: Seq<GraphProto>, x: GraphProto)
    ensures
        graphs_of(v.push(x)) == graphs_of(v).push(graph_view(x)),
{
    assert(graphs_of(v.push(x)) =~= graphs_of(v).push(graph_view(x)));
}

// ---------------------------------------------------------------------------
// Decoding

impl GraphProto {
    /// Whether the graph holds anything: a node, a tensor, a value or a
    /// metadata entry.
    pub fn is_graph_like(&self) -> (r: bool)
        ensures
            r == (self@.nodes.len() > 0 || self@.initializers.len() > 0
                || self@.sparse_initializers.len() > 0 || self@.inputs.len() > 0
                || self@.outputs.len() > 0 || self@.value_info.len() > 0
                || self@.quantization_annotations.len() > 0 || self@.metadata_props.len() > 0),
    {
        self.nodes.len() > 0 || self.initializers.len() > 0 || self.sparse_initializers.len() > 0
            || self.inputs.len() > 0 || self.outputs.len() > 0 || self.value_info.len() > 0
            || self.quantization_annotations.len() > 0 || !self.metadata_props.is_empty()
    }

    /// Decodes a graph.
    pub fn decode(data: &[u8]) -> (r: Result<Self, ModelError>)
        ensures
            decoded(r, spec_decode_graph(data@)),
        decreases data@.len(), 1int,
    {
        let mut reader = PbReader::new(data);
        let mut graph = GraphProto {
            nodes: Vec::new(),
            name: None,
            doc_string: None,
            initializers: Vec::new(),
            sparse_initializers: Vec::new(),
            inputs: Vec::new(),
            outputs: Vec::new(),
            value_info: Vec::new(),
            quantization_annotations: Vec::new(),
            metadata_props: StringMap::new(),
        };
        proof {
            assert(nodes_of(graph.nodes@) =~= Seq::<NodeView>::empty());
            assert(graph@ =~= empty_graph());
        }
        loop
            invariant
                reader.data() == data@,
                0 <= reader.pos() <= data@.len(),
                fold_fields(data@, reader.pos(), graph@, graph_stepper(data@.len() as int))
                    == spec_decode_graph(data@),
            decreases data@.len() - reader.pos(),
        {
            proof {
                lemma_next_field_advances(data@, reader.pos());
            }
            let field = match reader.next_field()? {
                Some(field) => field,
                None => return Ok(graph),
            };
            graph.read(field, data.len())?;
        }
    }

    /// Reads one field of a graph whose message is `limit` bytes long.
    #[verifier::rlimit(60)]
    fn read(&mut self, field: crate::onnx::Field, limit: usize) -> (r: Result<(), ModelError>)
        requires
            field.value.wire() matches WireValue::Bytes(b) ==> b.len() < limit,
        ensures
            match graph_step(limit as int, old(self)@, field.number, field.value.wire()) {
                Ok(g) => r is Ok && final(self)@ == g,
                Err(k) => r matches Err(e) && e == crate::onnx::onnx_error(k),
            },
        decreases limit, 0int,
    {
        let ghost before = self@;
        match field.number {
            1 => {
                let node = NodeProto::decode(field.bytes()?)?;
                let ghost nodes = self.nodes@;
                self.nodes.push(node);
                proof {
                    lemma_nodes_of_push(nodes, node);
                }
            },
            2 => self.name = Some(field.string()?),
            5 => self.initializers.push(TensorProto::decode(field.bytes()?)?),
            10 => self.doc_string = Some(field.string()?),
            11 => self.inputs.push(ValueInfoProto::decode(field.bytes()?)?),
            12 => self.outputs.push(ValueInfoProto::decode(field.bytes()?)?),
            13 => self.value_info.push(ValueInfoProto::decode(field.bytes()?)?),
            14 => self.quantization_annotations.push(
                TensorAnnotationProto::decode(field.bytes()?)?,
            ),
            15 => self.sparse_initializers.push(SparseTensorProto::decode(field.bytes()?)?),
            16 => {
                let entry = StringStringEntryProto::decode(field.bytes()?)?;
                insert_entry_exec(&mut self.metadata_props, entry);
            },
            _ => {},
        }
        proof {
            assert(self@ =~= graph_step(limit as int, before, field.number, field.value.wire()).unwrap());
        }
        Ok(())
    }
}

impl NodeProto {
    /// Decodes a node.
    pub fn decode(data: &[u8]) -> (r: Result<Self, ModelError>)
        ensures
            decoded(r, spec_decode_node(data@)),
        decreases data@.len(), 1int,
    {
        let mut reader = PbReader::new(data);
        let mut node = NodeProto {
            inputs: Vec::new(),
            outputs: Vec::new(),
            name: None,
            op_type: String::new(),
            attributes: Vec::new(),
            doc_string: None,
            domain: None,
            overload: None,
            metadata_props: StringMap::new(),
        };
        proof {
            assert(attributes_of(node.attributes@) =~= Seq::<AttributeView>::empty());
            assert(node@ =~= empty_node());
        }
        loop
            invariant
                reader.data() == data@,
                0 <= reader.pos() <= data@.len(),
                fold_fields(data@, reader.pos(), node@, node_stepper(data@.len() as int))
                    == spec_decode_node(data@),
            decreases data@.len() - reader.pos(),
        {
            proof {
                lemma_next_field_advances(data@, reader.pos());
            }
            let field = match reader.next_field()? {
                Some(field) => field,
                None => return Ok(node),
            };
            node.read(field, data.len())?;
        }
    }

    /// Reads one field of a node whose message is `limit` bytes long.
    #[verifier::rlimit(60)]
    fn read(&mut self, field: crate::onnx::Field, limit: usize) -> (r: Result<(), ModelError>)
        requires
            field.value.wire() matches WireValue::Bytes(b) ==> b.len() < limit,
        ensures
            match node_step(limit as int, old(self)@, field.number, field.value.wire()) {
                Ok(x) => r is Ok && final(self)@ == x,
                Err(k) => r matches Err(e) && e == crate::onnx::onnx_error(k),
            },
        decreases limit, 0int,
    {
        let ghost before = self@;
        match field.number {
            1 => self.inputs.push(field.string()?),
            2 => self.outputs.push(field.string()?),
            3 => self.name = Some(field.string()?),
            4 => self.op_type = field.string()?,
            5 => {
                let attribute = AttributeProto::decode(field.bytes()?)?;
                let ghost attributes = self.attributes@;
                self.attributes.push(attribute);
                proof {
                    lemma_attributes_of_push(attributes, attribute);
                }
            },
            6 => self.doc_string = Some(field.string()?),
            7 => self.domain = Some(field.string()?),
            8 => self.overload = Some(field.string()?),
            9 => {
                let entry = StringStringEntryProto::decode(field.bytes()?)?;
                insert_entry_exec(&mut self.metadata_props, entry);
            },
            _ => {},
        }
        proof {
            assert(self@ =~= node_step(limit as int, before, field.number, field.value.wire()).unwrap());
        }
        Ok(())
    }
}

/// An attribute being read: its name, its last single value, and the values
/// of each repeated field.
pub struct AttributeBuilder {
    pub name: String,
    pub kind: Option<AttributeKind>,
    pub floats: Vec<u32>,
    pub ints: Vec<i64>,
    pub strings: Vec<Vec<u8>>,
    pub tensors: Vec<TensorProto>,
    pub graphs: Vec<GraphProto>,
    pub sparse_tensors: Vec<SparseTensorProto>,
}

impl View for AttributeBuilder {
    type V = AttributeState;

    open spec fn view(&self) -> AttributeState {
        AttributeState {
            name: self.name@,
            kind: match self.kind {
                Some(k) => Some(kind_view(k)),
                None => None,
            },
            floats: self.floats@,
            ints: self.ints@,
            strings: byte_strings(self.strings@),
            tensors: tensor_views(self.tensors@),
            graphs: graphs_of(self.graphs@),
            sparse_tensors: sparse_views(self.sparse_tensors@),
        }
    }
}

impl AttributeBuilder {
    /// Reads one field of an attribute whose message is `limit` bytes long.
    #[verifier::rlimit(60)]
    fn read(&mut self, field: crate::onnx::Field, limit: usize) -> (r: Result<(), ModelError>)
        requires
            field.value.wire() matches WireValue::Bytes(b) ==> b.len() < limit,
        ensures
            match attribute_step(limit as int, old(self)@, field.number, field.value.wire()) {
                Ok(a) => r is Ok && final(self)@ == a,
                Err(k) => r matches Err(e) && e == crate::onnx::onnx_error(k),
            },
        decreases limit, 0int,
    {
        let ghost before = self@;
        match field.number {
            1 => self.name = field.string()?,
            2 => self.kind = Some(AttributeKind::Float(field.float32_bits()?)),
            3 => self.kind = Some(AttributeKind::Int(field.int64()?)),
            4 => self.kind = Some(AttributeKind::String(vstd::slice::slice_to_vec(field.bytes()?))),
            5 => self.kind = Some(AttributeKind::Tensor(TensorProto::decode(field.bytes()?)?)),
            6 => self.kind = Some(AttributeKind::Graph(GraphProto::decode(field.bytes()?)?)),
            7 => {
                let mut more = field.repeated_f32_bits()?;
                self.floats.append(&mut more);
            },
            8 => {
                let mut more = field.repeated_i64()?;
                self.ints.append(&mut more);
            },
            9 => {
                let b = vstd::slice::slice_to_vec(field.bytes()?);
                self.strings.push(b);
                proof {
                    assert(byte_strings(self.strings@) =~= before.strings.push(b@));
                }
            },
            10 => {
                let t = TensorProto::decode(field.bytes()?)?;
                self.tensors.push(t);
                proof {
                    assert(tensor_views(self.tensors@) =~= before.tensors.push(t@));
                }
            },
            11 => {
                let g = GraphProto::decode(field.bytes()?)?;
                let ghost old_graphs = self.graphs@;
                self.graphs.push(g);
                proof {
                    lemma_graphs_of_push(old_graphs, g);
                }
            },
            22 => {
                self.kind = Some(
                    AttributeKind::SparseTensor(SparseTensorProto::decode(field.bytes()?)?),
                )
            },
            23 => {
                let t = SparseTensorProto::decode(field.bytes()?)?;
                self.sparse_tensors.push(t);
                proof {
                    assert(sparse_views(self.sparse_tensors@) =~= before.sparse_tensors.push(t@));
                }
            },
            14 => {
                field.bytes()?;
                self.kind = Some(AttributeKind::Type(String::from_str("type_proto")));
            },
            21 => self.kind = Some(AttributeKind::Reference(field.string()?)),
            _ => {},
        }
        proof {
            assert(self@ =~= attribute_step(limit as int, before, field.number, field.value.wire()).unwrap());
        }
        Ok(())
    }

    /// The attribute that the fields read give.
    fn finish(self) -> (r: AttributeProto)
        ensures
            r@ == finish_attribute(self@),
    {
        let ghost state = self@;
        let mut kind = self.kind;
        if self.strings.len() > 0 {
            kind = Some(AttributeKind::Strings(self.strings));
        }
        if self.floats.len() > 0 {
            kind = Some(AttributeKind::Floats(self.floats));
        }
        if self.ints.len() > 0 {
            kind = Some(AttributeKind::Ints(self.ints));
        }
        if self.tensors.len() > 0 {
            kind = Some(AttributeKind::Tensors(self.tensors));
        }
        if self.graphs.len() > 0 {
            kind = Some(AttributeKind::Graphs(self.graphs));
        }
        if self.sparse_tensors.len() > 0 {
            kind = Some(AttributeKind::SparseTensors(self.sparse_tensors));
        }
        AttributeProto { name: self.name, kind }
    }
}

impl AttributeProto {
    /// Decodes an attribute.
    pub fn decode(data: &[u8]) -> (r: Result<Self, ModelError>)
        ensures
            decoded(r, spec_decode_attribute(data@)),
        decreases data@.len(), 1int,
    {
        let mut reader = PbReader::new(data);
        let mut builder = AttributeBuilder {
            name: String::new(),
            kind: None,
            floats: Vec::new(),
            ints: Vec::new(),
            strings: Vec::new(),
            tensors: Vec::new(),
            graphs: Vec::new(),
            sparse_tensors: Vec::new(),
        };
        proof {
            assert(graphs_of(builder.graphs@) =~= Seq::<GraphView>::empty());
            assert(builder@ =~= empty_attribute());
        }
        loop
            invariant
                reader.data() == data@,
                0 <= reader.pos() <= data@.len(),
                fold_fields(data@, reader.pos(), builder@, attribute_stepper(data@.len() as int))
                    == fold_fields(data@, 0, empty_attribute(), attribute_stepper(data@.len() as int)),
            decreases data@.len() - reader.pos(),
        {
            proof {
                lemma_next_field_advances(data@, reader.pos());
            }
            let field = match reader.next_field()? {
                Some(field) => field,
                None => return Ok(builder.finish()),
            };
            builder.read(field, data.len())?;
        }
    }
}

// ---------------------------------------------------------------------------
// Functions and the model

/// A function that the model defines.
pub struct FunctionProto {
    pub name: String,
    pub inputs: Vec<String>,
    pub outputs: Vec<String>,
    pub attributes: Vec<String>,
    pub nodes: Vec<NodeProto>,
    pub doc_string: Option<String>,
    pub opsets: Vec<OperatorSetIdProto>,
    pub domain: Option<String>,
    pub overload: Option<String>,
    pub metadata_props: StringMap,
}

#[verifier::ext_equal]
pub struct FunctionView {
    pub name: Seq<char>,
    pub inputs: Seq<Seq<char>>,
    pub outputs: Seq<Seq<char>>,
    pub attributes: Seq<Seq<char>>,
    pub nodes: Seq<NodeView>,
    pub doc_string: Option<Seq<char>>,
    pub opsets: Seq<OperatorSetIdView>,
    pub domain: Option<Seq<char>>,
    pub overload: Option<Seq<char>>,
    pub metadata_props: Entries,
}

impl View for FunctionProto {
    type V = FunctionView;

    open spec fn view(&self) -> FunctionView {
        FunctionView {
            name: self.name@,
            inputs: texts(self.inputs@),
            outputs: texts(self.outputs@),
            attributes: texts(self.attributes@),
            nodes: nodes_of(self.nodes@),
            doc_string: opt_str(self.doc_string),
            opsets: opset_views(self.opsets@),
            domain: opt_str(self.domain),
            overload: opt_str(self.overload),
            metadata_props: self.metadata_props@,
        }
    }
}

pub open spec fn empty_function() -> FunctionView {
    FunctionView {
        name: Seq::empty(),
        inputs: Seq::empty(),
        outputs: Seq::empty(),
        attributes: Seq::empty(),
        nodes: Seq::empty(),
        doc_string: None,
        opsets: Seq::empty(),
        domain: None,
        overload: None,
        metadata_props: Seq::empty(),
    }
}

/// Field 1 is the name; 4, 5 and 6 add an input, an output and an attribute
/// name; 7 adds a node; 8 is the documentation; 9 adds an operator set; 10
/// and 13 are the domain and the overload; 14 adds a metadata entry.
pub open spec fn function_step(f: FunctionView, n: u32, v: WireValue) -> Result<FunctionView, ErrorKind> {
    if n == 7 || n == 9 || n == 14 {
        match field_bytes(v) {
            Err(e) => Err(e),
            Ok(b) => if n == 7 {
                match spec_decode_node(b) {
                    Err(e) => Err(e),
                    Ok(x) => Ok(FunctionView { nodes: f.nodes.push(x), ..f }),
                }
            } else if n == 9 {
                match spec_decode_opset(b) {
                    Err(e) => Err(e),
                    Ok(x) => Ok(FunctionView { opsets: f.opsets.push(x), ..f }),
                }
            } else {
                match spec_decode_entry(b) {
                    Err(e) => Err(e),
                    Ok(x) => Ok(FunctionView { metadata_props: insert_entry(f.metadata_props, x), ..f }),
                }
            },
        }
    } else if n == 1 || n == 4 || n == 5 || n == 6 || n == 8 || n == 10 || n == 13 {
        match field_string(v) {
            Err(e) => Err(e),
            Ok(s) => Ok(
                if n == 1 {
                    FunctionView { name: s, ..f }
                } else if n == 4 {
                    FunctionView { inputs: f.inputs.push(s), ..f }
                } else if n == 5 {
                    FunctionView { outputs: f.outputs.push(s), ..f }
                } else if n == 6 {
                    FunctionView { attributes: f.attributes.push(s), ..f }
                } else if n == 8 {
                    FunctionView { doc_string: Some(s), ..f }
                } else if n == 10 {
                    FunctionView { domain: Some(s), ..f }
                } else {
                    FunctionView { overload: Some(s), ..f }
                },
            ),
        }
    } else {
        Ok(f)
    }
}

pub open spec fn function_stepper() -> spec_fn(FunctionView, u32, WireValue) -> Result<
    FunctionView,
    ErrorKind,
> {
    |f: FunctionView, n: u32, v: WireValue| function_step(f, n, v)
}

/// The function that `data` encodes.
pub open spec fn spec_decode_function(data: Seq<u8>) -> Result<FunctionView, ErrorKind> {
    fold_fields(data, 0, empty_function(), function_stepper())
}

impl FunctionProto {
    /// Decodes a function.
    pub fn decode(data: &[u8]) -> (r: Result<Self, ModelError>)
        ensures
            decoded(r, spec_decode_function(data@)),
    {
        let mut reader = PbReader::new(data);
        let mut function = FunctionProto {
            name: String::new(),
            inputs: Vec::new(),
            outputs: Vec::new(),
            attributes: Vec::new(),
            nodes: Vec::new(),
            doc_string: None,
            opsets: Vec::new(),
            domain: None,
            overload: None,
            metadata_props: StringMap::new(),
        };
        proof {
            assert(nodes_of(function.nodes@) =~= Seq::<NodeView>::empty());
            assert(function@ =~= empty_function());
        }
        loop
            invariant
                reader.data() == data@,
                0 <= reader.pos() <= data@.len(),
                fold_fields(data@, reader.pos(), function@, function_stepper())
                    == spec_decode_function(data@),
            decreases data@.len() - reader.pos(),
        {
            let field = match reader.next_field()? {
                Some(field) => field,
                None => return Ok(function),
            };
            function.read(field)?;
        }
    }

    /// Reads one field of a function.
    fn read(&mut self, field: crate::onnx::Field) -> (r: Result<(), ModelError>)
        ensures
            match function_step(old(self)@, field.number, field.value.wire()) {
                Ok(f) => r is Ok && final(self)@ == f,
                Err(k) => r matches Err(e) && e == crate::onnx::onnx_error(k),
            },
    {
        if field.number == 7 || field.number == 9 || field.number == 14 {
            self.read_message(field)
        } else {
            self.read_value(field)
        }
    }

    /// Reads a field of a function that holds a string.
    fn read_value(&mut self, field: crate::onnx::Field) -> (r: Result<(), ModelError>)
        requires
            !(field.number == 7 || field.number == 9 || field.number == 14),
        ensures
            match function_step(old(self)@, field.number, field.value.wire()) {
                Ok(f) => r is Ok && final(self)@ == f,
                Err(k) => r matches Err(e) && e == crate::onnx::onnx_error(k),
            },
    {
        let ghost before = self@;
        match field.number {
            1 => self.name = field.string()?,
            4 => self.inputs.push(field.string()?),
            5 => self.outputs.push(field.string()?),
            6 => self.attributes.push(field.string()?),
            8 => self.doc_string = Some(field.string()?),
            10 => self.domain = Some(field.string()?),
            13 => self.overload = Some(field.string()?),
            _ => {},
        }
        proof {
            assert(self@ =~= function_step(before, field.number, field.value.wire()).unwrap());
        }
        Ok(())
    }

    /// Reads a field of a function that holds a message.
    fn read_message(&mut self, field: crate::onnx::Field) -> (r: Result<(), ModelError>)
        requires
            field.number == 7 || field.number == 9 || field.number == 14,
        ensures
            match function_step(old(self)@, field.number, field.value.wire()) {
                Ok(f) => r is Ok && final(self)@ == f,
                Err(k) => r matches Err(e) && e == crate::onnx::onnx_error(k),
            },
    {
        let ghost before = self@;
        let bytes = field.bytes()?;
        if field.number == 7 {
            let node = NodeProto::decode(bytes)?;
            let ghost nodes = self.nodes@;
            self.nodes.push(node);
            proof {
                lemma_nodes_of_push(nodes, node);
                assert(self@ =~= function_step(before, field.number, field.value.wire()).unwrap());
            }
        } else if field.number == 9 {
            self.opsets.push(OperatorSetIdProto::decode(bytes)?);
            proof {
                assert(self@ =~= function_step(before, field.number, field.value.wire()).unwrap());
            }
        } else {
            let entry = StringStringEntryProto::decode(bytes)?;
            insert_entry_exec(&mut self.metadata_props, entry);
        }
        Ok(())
    }
}

/// A model: its versions, its producer, its graph, its operator sets, its
/// metadata and its functions.
pub struct ModelProto {
    pub ir_version: Option<i64>,
    pub producer_name: Option<String>,
    pub producer_version: Option<String>,
    pub domain: Option<String>,
    pub model_version: Option<i64>,
    pub doc_string: Option<String>,
    pub graph: Option<GraphProto>,
    pub opsets: Vec<OperatorSetIdProto>,
    pub metadata_props: StringMap,
    pub functions: Vec<FunctionProto>,
}

#[verifier::ext_equal]
pub struct ModelView {
    pub ir_version: Option<i64>,
    pub producer_name: Option<Seq<char>>,
    pub producer_version: Option<Seq<char>>,
    pub domain: Option<Seq<char>>,
    pub model_version: Option<i64>,
    pub doc_string: Option<Seq<char>>,
    pub graph: Option<GraphView>,
    pub opsets: Seq<OperatorSetIdView>,
    pub metadata_props: Entries,
    pub functions: Seq<FunctionView>,
}

impl View for ModelProto {
    type V = ModelView;

    open spec fn view(&self) -> ModelView {
        ModelView {
            ir_version: self.ir_version,
            producer_name: opt_str(self.producer_name),
            producer_version: opt_str(self.producer_version),
            domain: opt_str(self.domain),
            model_version: self.model_version,
            doc_string: opt_str(self.doc_string),
            graph: match self.graph {
                Some(g) => Some(g@),
                None => None,
            },
            opsets: opset_views(self.opsets@),
            metadata_props: self.metadata_props@,
            functions: self.functions@.map_values(|f: FunctionProto| f@),
        }
    }
}

pub open spec fn empty_model() -> ModelView {
    ModelView {
        ir_version: None,
        producer_name: None,
        producer_version: None,
        domain: None,
        model_version: None,
        doc_string: None,
        graph: None,
        opsets: Seq::empty(),
        metadata_props: Seq::empty(),
        functions: Seq::empty(),
    }
}

/// Fields 1 and 5 are the IR and model versions; 2, 3, 4 and 6 the producer's
/// name and version, the domain and the documentation; 7 the graph; 8 adds an
/// operator set, 14 a metadata entry and 25 a function.
pub open spec fn model_step(m: ModelView, n: u32, v: WireValue) -> Result<ModelView, ErrorKind> {
    if n == 1 || n == 5 {
        match field_int64(v) {
            Err(e) => Err(e),
            Ok(x) => Ok(
                if n == 1 {
                    ModelView { ir_version: Some(x), ..m }
                } else {
                    ModelView { model_version: Some(x), ..m }
                },
            ),
        }
    } else if n == 2 || n == 3 || n == 4 || n == 6 {
        match field_string(v) {
            Err(e) => Err(e),
            Ok(s) => Ok(
                if n == 2 {
                    ModelView { producer_name: Some(s), ..m }
                } else if n == 3 {
                    ModelView { producer_version: Some(s), ..m }
                } else if n == 4 {
                    ModelView { domain: Some(s), ..m }
                } else {
                    ModelView { doc_string: Some(s), ..m }
                },
            ),
        }
    } else if n == 7 || n == 8 || n == 14 || n == 25 {
        match field_bytes(v) {
            Err(e) => Err(e),
            Ok(b) => if n == 7 {
                match spec_decode_graph(b) {
                    Err(e) => Err(e),
                    Ok(g) => Ok(ModelView { graph: Some(g), ..m }),
                }
            } else if n == 8 {
                match spec_decode_opset(b) {
                    Err(e) => Err(e),
                    Ok(x) => Ok(ModelView { opsets: m.opsets.push(x), ..m }),
                }
            } else if n == 14 {
                match spec_decode_entry(b) {
                    Err(e) => Err(e),
                    Ok(x) => Ok(ModelView { metadata_props: insert_entry(m.metadata_props, x), ..m }),
                }
            } else {
                match spec_decode_function(b) {
                    Err(e) => Err(e),
                    Ok(x) => Ok(ModelView { functions: m.functions.push(x), ..m }),
                }
            },
        }
    } else {
        Ok(m)
    }
}

pub open spec fn model_stepper() -> spec_fn(ModelView, u32, WireValue) -> Result<ModelView, ErrorKind> {
    |m: ModelView, n: u32, v: WireValue| model_step(m, n, v)
}

/// The model that `data` encodes.
pub open spec fn spec_decode_model(data: Seq<u8>) -> Result<ModelView, ErrorKind> {
    fold_fields(data, 0, empty_model(), model_stepper())
}

/// Whether a model holds anything that an ONNX model has: a graph, an IR
/// version, a producer, an operator set, metadata or a function.
pub open spec fn spec_is_onnx_like(m: ModelView) -> bool {
    m.graph is Some || m.ir_version is Some || m.producer_name is Some || m.opsets.len() > 0
        || m.metadata_props.len() > 0 || m.functions.len() > 0
}

impl ModelProto {
    /// Whether the model holds anything that an ONNX model has.
    pub fn is_onnx_like(&self) -> (r: bool)
        ensures
            r == spec_is_onnx_like(self@),
    {
        self.graph.is_some() || self.ir_version.is_some() || self.producer_name.is_some()
            || self.opsets.len() > 0 || !self.metadata_props.is_empty() || self.functions.len() > 0
    }

    /// Decodes a model.
    pub fn decode(data: &[u8]) -> (r: Result<Self, ModelError>)
        ensures
            decoded(r, spec_decode_model(data@)),
    {
        let mut reader = PbReader::new(data);
        let mut model = ModelProto {
            ir_version: None,
            producer_name: None,
            producer_version: None,
            domain: None,
            model_version: None,
            doc_string: None,
            graph: None,
            opsets: Vec::new(),
            metadata_props: StringMap::new(),
            functions: Vec::new(),
        };
        proof {
            assert(model@ =~= empty_model());
        }
        loop
            invariant
                reader.data() == data@,
                0 <= reader.pos() <= data@.len(),
                fold_fields(data@, reader.pos(), model@, model_stepper()) == spec_decode_model(data@),
            decreases data@.len() - reader.pos(),
        {
            let field = match reader.next_field()? {
                Some(field) => field,
                None => return Ok(model),
            };
            model.read(field)?;
        }
    }

    /// Reads one field of a model.
    fn read(&mut self, field: crate::onnx::Field) -> (r: Result<(), ModelError>)
        ensures
            match model_step(old(self)@, field.number, field.value.wire()) {
                Ok(m) => r is Ok && final(self)@ == m,
                Err(k) => r matches Err(e) && e == crate::onnx::onnx_error(k),
            },
    {
        if field.number == 7 || field.number == 8 || field.number == 14 || field.number == 25 {
            self.read_message(field)
        } else {
            self.read_value(field)
        }
    }

    /// Reads a field of a model that holds a number or a string.
    fn read_value(&mut self, field: crate::onnx::Field) -> (r: Result<(), ModelError>)
        requires
            !(field.number == 7 || field.number == 8 || field.number == 14 || field.number == 25),
        ensures
            match model_step(old(self)@, field.number, field.value.wire()) {
                Ok(m) => r is Ok && final(self)@ == m,
                Err(k) => r matches Err(e) && e == crate::onnx::onnx_error(k),
            },
    {
        let ghost before = self@;
        match field.number {
            1 => self.ir_version = Some(field.int64()?),
            2 => self.producer_name = Some(field.string()?),
            3 => self.producer_version = Some(field.string()?),
            4 => self.domain = Some(field.string()?),
            5 => self.model_version = Some(field.int64()?),
            6 => self.doc_string = Some(field.string()?),
            _ => {},
        }
        proof {
            assert(self@ =~= model_step(before, field.number, field.value.wire()).unwrap());
        }
        Ok(())
    }

    /// Reads a field of a model that holds a message.
    #[verifier::rlimit(60)]
    fn read_message(&mut self, field: crate::onnx::Field) -> (r: Result<(), ModelError>)
        requires
            field.number == 7 || field.number == 8 || field.number == 14 || field.number == 25,
        ensures
            match model_step(old(self)@, field.number, field.value.wire()) {
                Ok(m) => r is Ok && final(self)@ == m,
                Err(k) => r matches Err(e) && e == crate::onnx::onnx_error(k),
            },
    {
        let ghost before = self@;
        let bytes = field.bytes()?;
        if field.number == 7 {
            self.graph = Some(GraphProto::decode(bytes)?);
        } else if field.number == 8 {
            self.opsets.push(OperatorSetIdProto::decode(bytes)?);
            proof {
                assert(self@ =~= model_step(before, field.number, field.value.wire()).unwrap());
            }
        } else if field.number == 14 {
            let entry = StringStringEntryProto::decode(bytes)?;
            insert_entry_exec(&mut self.metadata_props, entry);
        } else {
            let function = FunctionProto::decode(bytes)?;
            let ghost functions = self.functions@;
            self.functions.push(function);
            proof {
                assert(self.functions@.map_values(|f: FunctionProto| f@) =~= functions.map_values(
                    |f: FunctionProto| f@,
                ).push(function@));
                assert(self@ =~= model_step(before, field.number, field.value.wire()).unwrap());
            }
        }
        Ok(())
    }
}
/// Each scalar field of a model message is stored where onnx.proto's
/// `ModelProto` numbers it, and nothing else changes: 1 `ir_version`,
/// 2 `producer_name`, 3 `producer_version`, 4 `domain`, 5 `model_version`,
/// 6 `doc_string`.
pub proof fn lemma_model_scalar_fields_numbered(m: ModelView, v: WireValue)
    ensures
        field_int64(v) matches Ok(x) ==> model_step(m, 1, v) == Ok::<ModelView, ErrorKind>(
            ModelView { ir_version: Some(x), ..m },
        ) && model_step(m, 5, v) == Ok::<ModelView, ErrorKind>(ModelView { model_version: Some(x), ..m }),
        field_string(v) matches Ok(s) ==> model_step(m, 2, v) == Ok::<ModelView, ErrorKind>(
            ModelView { producer_name: Some(s), ..m },
        ) && model_step(m, 3, v) == Ok::<ModelView, ErrorKind>(ModelView { producer_version: Some(s), ..m })
            && model_step(m, 4, v) == Ok::<ModelView, ErrorKind>(ModelView { domain: Some(s), ..m })
            && model_step(m, 6, v) == Ok::<ModelView, ErrorKind>(ModelView { doc_string: Some(s), ..m }),
{
}

/// Decoding a model reads its fields in order: a string field 3 met at
/// `pos` sets the producer version, a string field 4 the domain, and the
/// rest of the message is read on from there.
pub proof fn lemma_decode_model_reads_version_and_domain(data: Seq<u8>, pos: int, m: ModelView, n: u32, v: WireValue, p: int)
    requires
        spec_next_field(data, pos) == Ok::<Option<(u32, WireValue, int)>, ErrorKind>(Some((n, v, p))),
        pos < p <= data.len(),
        field_string(v) is Ok,
    ensures
        n == 3 ==> fold_fields(data, pos, m, model_stepper()) == fold_fields(
            data,
            p,
            ModelView { producer_version: Some(field_string(v)->Ok_0), ..m },
            model_stepper(),
        ),
        n == 4 ==> fold_fields(data, pos, m, model_stepper()) == fold_fields(
            data,
            p,
            ModelView { domain: Some(field_string(v)->Ok_0), ..m },
            model_stepper(),
        ),
{
}

/// Each field of a graph message is stored where onnx.proto's `GraphProto`
/// numbers it, and nothing else changes: 2 `name`, 10 `doc_string`, 11
/// `input`, 12 `output`, 13 `value_info`, 5 `initializer`.
pub proof fn lemma_graph_fields_numbered(limit: int, g: GraphView, v: WireValue)
    ensures
        field_string(v) matches Ok(s) ==> graph_step(limit, g, 2, v) == Ok::<GraphView, ErrorKind>(
            GraphView { name: Some(s), ..g },
        ) && graph_step(limit, g, 10, v) == Ok::<GraphView, ErrorKind>(GraphView { doc_string: Some(s), ..g }),
        field_bytes(v) matches Ok(b) ==> (spec_decode_value_info(b) matches Ok(x) ==> graph_step(limit, g, 11, v)
            == Ok::<GraphView, ErrorKind>(GraphView { inputs: g.inputs.push(x), ..g }) && graph_step(limit, g, 12, v)
            == Ok::<GraphView, ErrorKind>(GraphView { outputs: g.outputs.push(x), ..g }) && graph_step(
            limit,
            g,
            13,
            v,
        ) == Ok::<GraphView, ErrorKind>(GraphView { value_info: g.value_info.push(x), ..g })),
        field_bytes(v) matches Ok(b) ==> (spec_decode_tensor(b) matches Ok(x) ==> graph_step(limit, g, 5, v) == Ok::<
            GraphView,
            ErrorKind,
        >(GraphView { initializers: g.initializers.push(x), ..g })),
{
}

/// Each field of a node message is stored where onnx.proto's `NodeProto`
/// numbers it, and nothing else changes: 1 adds an `input`, 2 an `output`,
/// 3 is the `name`, 4 the `op_type`, 6 the `doc_string`, 7 the `domain`, 8
/// the `overload`.
pub proof fn lemma_node_fields_numbered(limit: int, x: NodeView, v: WireValue)
    ensures
        field_string(v) matches Ok(s) ==> node_step(limit, x, 1, v) == Ok::<NodeView, ErrorKind>(
            NodeView { inputs: x.inputs.push(s), ..x },
        ) && node_step(limit, x, 2, v) == Ok::<NodeView, ErrorKind>(NodeView { outputs: x.outputs.push(s), ..x })
            && node_step(limit, x, 3, v) == Ok::<NodeView, ErrorKind>(NodeView { name: Some(s), ..x }) && node_step(
            limit,
            x,
            4,
            v,
        ) == Ok::<NodeView, ErrorKind>(NodeView { op_type: s, ..x }) && node_step(limit, x, 6, v) == Ok::<
            NodeView,
            ErrorKind,
        >(NodeView { doc_string: Some(s), ..x }) && node_step(limit, x, 7, v) == Ok::<NodeView, ErrorKind>(
            NodeView { domain: Some(s), ..x },
        ) && node_step(limit, x, 8, v) == Ok::<NodeView, ErrorKind>(NodeView { overload: Some(s), ..x }),
{
}

/// Each field of an attribute message is read where onnx.proto's
/// `AttributeProto` numbers it: 1 the `name`, 21 `ref_attr_name`, 2 `f`, 3
/// `i`, 4 `s`, 5 `t`, 7 `floats`, 8 `ints`, 9 `strings`, 10 `tensors`.
pub proof fn lemma_attribute_fields_numbered(limit: int, a: AttributeState, v: WireValue)
    ensures
        field_string(v) matches Ok(s) ==> attribute_step(limit, a, 1, v) == Ok::<AttributeState, ErrorKind>(
            AttributeState { name: s, ..a },
        ) && attribute_step(limit, a, 21, v) == Ok::<AttributeState, ErrorKind>(
            AttributeState { kind: Some(AttributeKindView::Reference(s)), ..a },
        ),
        field_float32(v) matches Ok(f) ==> attribute_step(limit, a, 2, v) == Ok::<AttributeState, ErrorKind>(
            AttributeState { kind: Some(AttributeKindView::Float(f)), ..a },
        ),
        field_int64(v) matches Ok(i) ==> attribute_step(limit, a, 3, v) == Ok::<AttributeState, ErrorKind>(
            AttributeState { kind: Some(AttributeKindView::Int(i)), ..a },
        ),
        field_bytes(v) matches Ok(b) ==> attribute_step(limit, a, 4, v) == Ok::<AttributeState, ErrorKind>(
            AttributeState { kind: Some(AttributeKindView::String(b)), ..a },
        ) && attribute_step(limit, a, 9, v) == Ok::<AttributeState, ErrorKind>(
            AttributeState { strings: a.strings.push(b), ..a },
        ),
        field_repeated_f32(v) matches Ok(fs) ==> attribute_step(limit, a, 7, v) == Ok::<AttributeState, ErrorKind>(
            AttributeState { floats: a.floats + fs, ..a },
        ),
        field_repeated_i64(v) matches Ok(is) ==> attribute_step(limit, a, 8, v) == Ok::<AttributeState, ErrorKind>(
            AttributeState { ints: a.ints + is, ..a },
        ),
        field_bytes(v) matches Ok(b) ==> (spec_decode_tensor(b) matches Ok(t) ==> attribute_step(limit, a, 5, v)
            == Ok::<AttributeState, ErrorKind>(AttributeState { kind: Some(AttributeKindView::Tensor(t)), ..a })
            && attribute_step(limit, a, 10, v) == Ok::<AttributeState, ErrorKind>(
            AttributeState { tensors: a.tensors.push(t), ..a },
        )),
{
}

/// Each string field of a function message is read where onnx.proto's
/// `FunctionProto` numbers it: 1 the `name`, 4 adds an `input`, 5 an
/// `output`, 6 an `attribute` name, 8 is the `doc_string`, 10 the `domain`,
/// 13 the `overload`.
pub proof fn lemma_function_fields_numbered(f: FunctionView, v: WireValue)
    ensures
        field_string(v) matches Ok(s) ==> function_step(f, 1, v) == Ok::<FunctionView, ErrorKind>(
            FunctionView { name: s, ..f },
        ) && function_step(f, 4, v) == Ok::<FunctionView, ErrorKind>(FunctionView { inputs: f.inputs.push(s), ..f })
            && function_step(f, 5, v) == Ok::<FunctionView, ErrorKind>(
            FunctionView { outputs: f.outputs.push(s), ..f },
        ) && function_step(f, 6, v) == Ok::<FunctionView, ErrorKind>(
            FunctionView { attributes: f.attributes.push(s), ..f },
        ) && function_step(f, 8, v) == Ok::<FunctionView, ErrorKind>(FunctionView { doc_string: Some(s), ..f })
            && function_step(f, 10, v) == Ok::<FunctionView, ErrorKind>(FunctionView { domain: Some(s), ..f })
            && function_step(f, 13, v) == Ok::<FunctionView, ErrorKind>(FunctionView { overload: Some(s), ..f }),
{
}

} // verus!
