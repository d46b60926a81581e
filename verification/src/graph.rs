//! The model graph that the lowerers build: values, some holding an
//! initializer tensor, and nodes that take values as inputs. Which nodes
//! consume a value follows from the nodes' inputs.
use vstd::prelude::*;
use crate::pytorch::dtypes::TensorElementType;
use crate::pytorch::modules::opt_view;
use crate::chars::{rsplit_once, str_rsplit_once};
use crate::text::str_eq;

verus! {

/// How sure a format is that it can read a file.
#[derive(Clone, Copy, Debug, PartialEq, Eq, Structural)]
pub enum Confidence {
    /// The file is not of the format.
    NoMatch,
    Low,
    Medium,
    High,
}

/// A format's name and the file extensions it reads.
#[derive(Debug)]
pub struct FormatMetadata {
    pub name: String,
    pub extensions: Vec<String>,
}

/// The extension of a file name, as `Path::extension` finds it: the text
/// after the last dot, when some text stands before that dot.
pub open spec fn spec_extension(file_name: Seq<char>) -> Option<Seq<char>> {
    match rsplit_once(file_name, '.') {
        Some((before, after)) => if before.len() == 0 {
            None
        } else {
            Some(after)
        },
        None => None,
    }
}

/// The extension of a file name.
pub fn extension(file_name: &str) -> (r: Option<&str>)
    ensures
        match spec_extension(file_name@) {
            Some(e) => r matches Some(x) && x@ == e,
            None => r is None,
        },
{
    match str_rsplit_once(file_name, '.') {
        Some((before, after)) => {
            proof {
                reveal_strlit("");
            }
            if str_eq(before, "") {
                None
            } else {
                proof {
                    assert(before@.len() != 0) by {
                        if before@.len() == 0 {
                            assert(before@ =~= ""@);
                        }
                    }
                }
                Some(after)
            }
        },
        None => None,
    }
}

/// A tensor whose data stays in the file: its name, element type, shape and
/// the length of its data.
#[derive(Debug)]
pub struct LoweredTensor {
    pub name: Option<String>,
    pub element_type: TensorElementType,
    pub shape: Vec<i64>,
    pub byte_len: usize,
}

/// A value of the graph: its name, the tensor that initializes it, and its
/// element type, shape and layout when they are known.
#[derive(Debug)]
pub struct LoweredValue {
    pub name: Option<String>,
    pub initializer: Option<LoweredTensor>,
    pub element_type: Option<TensorElementType>,
    pub shape: Option<Vec<i64>>,
    pub layout: Option<String>,
}

/// The value of a node's attribute. A float is kept as its bits.
#[derive(Debug)]
pub enum LoweredAttribute {
    Text(String),
    Texts(Vec<String>),
    Int(i64),
    Ints(Vec<i64>),
    FloatBits(u32),
    Bool(bool),
}

/// A node of the graph: its name, its operator, its inputs and its outputs,
/// each the index of a value or absent, its named attributes, and metadata
/// such as the source line it comes from.
#[derive(Debug)]
pub struct LoweredNode {
    pub name: Option<String>,
    pub operator: String,
    pub inputs: Vec<Option<usize>>,
    pub outputs: Vec<Option<usize>>,
    pub attributes: Vec<(String, LoweredAttribute)>,
    pub metadata: Vec<(String, String)>,
}

/// A model of one graph: the format's name and version, the graph's values,
/// its nodes, the values that are the graph's inputs and outputs, and the
/// name and version of the program that produced the file, when it says.
#[derive(Debug)]
pub struct LoweredModel {
    pub format: String,
    pub version: Option<String>,
    pub values: Vec<LoweredValue>,
    pub nodes: Vec<LoweredNode>,
    pub inputs: Vec<usize>,
    pub outputs: Vec<usize>,
    pub producer: Option<String>,
    pub producer_version: Option<String>,
}

pub struct TensorView {
    pub name: Option<Seq<char>>,
    pub element_type: TensorElementType,
    pub shape: Seq<i64>,
    pub byte_len: usize,
}

pub struct ValueView {
    pub name: Option<Seq<char>>,
    pub initializer: Option<TensorView>,
    pub element_type: Option<TensorElementType>,
    pub shape: Option<Seq<i64>>,
    pub layout: Option<Seq<char>>,
}

pub enum AttributeView {
    Text(Seq<char>),
    Texts(Seq<Seq<char>>),
    Int(i64),
    Ints(Seq<i64>),
    FloatBits(u32),
    Bool(bool),
}

pub struct NodeView {
    pub name: Option<Seq<char>>,
    pub operator: Seq<char>,
    pub inputs: Seq<Option<usize>>,
    pub outputs: Seq<Option<usize>>,
    pub attributes: Seq<(Seq<char>, AttributeView)>,
    pub metadata: Seq<(Seq<char>, Seq<char>)>,
}

pub struct ModelView {
    pub format: Seq<char>,
    pub version: Option<Seq<char>>,
    pub values: Seq<ValueView>,
    pub nodes: Seq<NodeView>,
    pub inputs: Seq<usize>,
    pub outputs: Seq<usize>,
    pub producer: Option<Seq<char>>,
    pub producer_version: Option<Seq<char>>,
}

impl View for LoweredTensor {
    type V = TensorView;

    open spec fn view(&self) -> TensorView {
        TensorView {
            name: opt_view(self.name),
            element_type: self.element_type,
            shape: self.shape@,
            byte_len: self.byte_len,
        }
    }
}

impl View for LoweredValue {
    type V = ValueView;

    open spec fn view(&self) -> ValueView {
        ValueView {
            name: opt_view(self.name),
            initializer: match self.initializer {
                Some(t) => Some(t@),
                None => None,
            },
            element_type: self.element_type,
            shape: match self.shape {
                Some(s) => Some(s@),
                None => None,
            },
            layout: opt_view(self.layout),
        }
    }
}

impl View for LoweredAttribute {
    type V = AttributeView;

    open spec fn view(&self) -> AttributeView {
        match self {
            LoweredAttribute::Text(s) => AttributeView::Text(s@),
            LoweredAttribute::Texts(v) => AttributeView::Texts(v@.map_values(|s: String| s@)),
            LoweredAttribute::Int(n) => AttributeView::Int(*n),
            LoweredAttribute::Ints(v) => AttributeView::Ints(v@),
            LoweredAttribute::FloatBits(b) => AttributeView::FloatBits(*b),
            LoweredAttribute::Bool(b) => AttributeView::Bool(*b),
        }
    }
}

impl View for LoweredNode {
    type V = NodeView;

    open spec fn view(&self) -> NodeView {
        NodeView {
            name: opt_view(self.name),
            operator: self.operator@,
            inputs: self.inputs@,
            outputs: self.outputs@,
            attributes: self.attributes@.map_values(|a: (String, LoweredAttribute)| (a.0@, a.1@)),
            metadata: self.metadata@.map_values(|m: (String, String)| (m.0@, m.1@)),
        }
    }
}

impl View for LoweredModel {
    type V = ModelView;

    open spec fn view(&self) -> ModelView {
        ModelView {
            format: self.format@,
            version: opt_view(self.version),
            values: self.values@.map_values(|v: LoweredValue| v@),
            nodes: self.nodes@.map_values(|n: LoweredNode| n@),
            inputs: self.inputs@,
            outputs: self.outputs@,
            producer: opt_view(self.producer),
            producer_version: opt_view(self.producer_version),
        }
    }
}

/// Whether every index that the model holds, of a node's input or output or
/// of a graph input or output, names one of its values.
pub open spec fn refs_in_range(m: ModelView) -> bool {
    &&& forall|k: int, j: int|
        0 <= k < m.nodes.len() && 0 <= j < m.nodes[k].inputs.len() && #[trigger] m.nodes[k].inputs[j] is Some
            ==> (m.nodes[k].inputs[j]->Some_0 as int) < m.values.len()
    &&& forall|k: int, j: int|
        0 <= k < m.nodes.len() && 0 <= j < m.nodes[k].outputs.len() && #[trigger] m.nodes[k].outputs[j] is Some
            ==> (m.nodes[k].outputs[j]->Some_0 as int) < m.values.len()
    &&& forall|j: int| 0 <= j < m.inputs.len() ==> (#[trigger] m.inputs[j] as int) < m.values.len()
    &&& forall|j: int| 0 <= j < m.outputs.len() ==> (#[trigger] m.outputs[j] as int) < m.values.len()
}

/// The nodes, by index and in order, that take the value `v` as an input.
pub open spec fn consumers_from(nodes: Seq<NodeView>, v: usize, k: int) -> Seq<usize>
    decreases nodes.len() - k,
{
    if k < 0 || k >= nodes.len() {
        Seq::empty()
    } else if nodes[k].inputs.contains(Some(v)) {
        seq![k as usize].add(consumers_from(nodes, v, k + 1))
    } else {
        consumers_from(nodes, v, k + 1)
    }
}

/// Whether a node's inputs hold the value `v`.
fn takes_input(inputs: &Vec<Option<usize>>, v: usize) -> (r: bool)
    ensures
        r == inputs@.contains(Some(v)),
{
    let mut j: usize = 0;
    while j < inputs.len()
        invariant
            j <= inputs@.len(),
            forall|i: int| 0 <= i < j ==> inputs@[i] != Some(v),
        decreases inputs@.len() - j,
    {
        if let Some(x) = inputs[j] {
            if x == v {
                assert(inputs@[j as int] == Some(v));
                return true;
            }
        }
        j = j + 1;
    }
    false
}

/// A node without outputs or attributes.
pub fn plain_node(name: Option<String>, operator: String, inputs: Vec<Option<usize>>) -> (r: LoweredNode)
    ensures
        r@ == (NodeView {
            name: opt_view(name),
            operator: operator@,
            inputs: inputs@,
            outputs: Seq::empty(),
            attributes: Seq::empty(),
            metadata: Seq::empty(),
        }),
{
    let r = LoweredNode { name, operator, inputs, outputs: Vec::new(), attributes: Vec::new(), metadata: Vec::new() };
    proof {
        assert(r@.metadata =~= Seq::<(Seq<char>, Seq<char>)>::empty());
        assert(r@.attributes =~= Seq::<(Seq<char>, AttributeView)>::empty());
        assert(r@.outputs =~= Seq::<Option<usize>>::empty());
    }
    r
}

impl LoweredModel {
    /// The nodes that take the value `v` as an input, in order.
    pub fn consumers(&self, v: usize) -> (r: Vec<usize>)
        ensures
            r@ == consumers_from(self@.nodes, v, 0),
    {
        let ghost nodes = self@.nodes;
        let mut out: Vec<usize> = Vec::new();
        let mut k: usize = self.nodes.len();
        while k > 0
            invariant
                nodes == self@.nodes,
                nodes.len() == self.nodes@.len(),
                k <= nodes.len(),
                out@ == consumers_from(nodes, v, k as int),
            decreases k,
        {
            k = k - 1;
            proof {
                assert(nodes[k as int] == self.nodes@[k as int]@);
            }
            if takes_input(&self.nodes[k].inputs, v) {
                let mut front: Vec<usize> = Vec::new();
                front.push(k);
                front.append(&mut out);
                out = front;
            }
        }
        out
    }
}

} // verus!
