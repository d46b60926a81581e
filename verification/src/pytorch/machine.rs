//! A small pickle machine: it runs the ops of a pickle on a stack and a memo,
//! and rebuilds the tensors, storages and dictionaries of a state dict.
use vstd::prelude::*;
use crate::error::{ErrorKind, Format, ModelError, invalid};
use crate::pytorch::dtypes::{
    TensorElementType, numpy_dtype, pytorch_dtype_global, spec_numpy_dtype,
    spec_pytorch_dtype_global, spec_storage_element_type, storage_element_type,
};
use crate::pytorch::legacy::{checked_byte_len, spec_byte_len};
use crate::pytorch::names::{sparse_layout_name, spec_sparse_layout_name};
use crate::pytorch::{py_error, py_read};
use crate::pytorch::pickle::{PickleCursor, PickleOp, PickleOpView, lemma_next_op_advances};
use vstd::string::StringExecFns;
use crate::pytorch::scan::try_fold_ops;
use crate::text::str_eq;

verus! {

// ---------------------------------------------------------------------------
// Values

/// A tensor of a state dict: its element type, shape, length in bytes and
/// sparse layout.
#[derive(Debug)]
pub struct StateDictTensor {
    pub element_type: TensorElementType,
    pub shape: Vec<i64>,
    pub byte_len: usize,
    pub layout: Option<String>,
}

pub struct TensorView {
    pub element_type: TensorElementType,
    pub shape: Seq<i64>,
    pub byte_len: usize,
    pub layout: Option<Seq<char>>,
}

impl View for StateDictTensor {
    type V = TensorView;

    open spec fn view(&self) -> TensorView {
        TensorView {
            element_type: self.element_type,
            shape: self.shape@,
            byte_len: self.byte_len,
            layout: match self.layout {
                Some(s) => Some(s@),
                None => None,
            },
        }
    }
}

/// A value on the machine's stack.
#[derive(Debug)]
pub enum PickleValue {
    Mark,
    NoneValue,
    Int(i64),
    Text(String),
    Global(String),
    Tuple(Vec<PickleValue>),
    List(Vec<PickleValue>),
    Dict(Vec<(PickleValue, PickleValue)>),
    OrderedDict(Vec<(String, PickleValue)>),
    Storage { element_type: TensorElementType, element_size: usize },
    DType { element_type: TensorElementType, element_size: usize },
    Layout(String),
    NumpyArray {
        element_type: Option<TensorElementType>,
        element_size: Option<usize>,
        shape: Option<Vec<i64>>,
        byte_len: Option<usize>,
    },
    Tensor(StateDictTensor),
    Other,
}

pub enum ValueView {
    Mark,
    NoneValue,
    Int(i64),
    Text(Seq<char>),
    Global(Seq<char>),
    Tuple(Seq<ValueView>),
    List(Seq<ValueView>),
    Dict(Seq<(ValueView, ValueView)>),
    OrderedDict(Seq<(Seq<char>, ValueView)>),
    Storage(TensorElementType, usize),
    DType(TensorElementType, usize),
    Layout(Seq<char>),
    NumpyArray(Option<TensorElementType>, Option<usize>, Option<Seq<i64>>, Option<usize>),
    Tensor(TensorView),
    Other,
}

/// The view of a value.
pub open spec fn value_view(v: PickleValue) -> ValueView
    decreases v,
{
    match v {
        PickleValue::Mark => ValueView::Mark,
        PickleValue::NoneValue => ValueView::NoneValue,
        PickleValue::Int(i) => ValueView::Int(i),
        PickleValue::Text(s) => ValueView::Text(s@),
        PickleValue::Global(s) => ValueView::Global(s@),
        PickleValue::Tuple(items) => {
            proof {
                assert(decreases_to!(items => items@));
            }
            ValueView::Tuple(items_view(items@))
        },
        PickleValue::List(items) => {
            proof {
                assert(decreases_to!(items => items@));
            }
            ValueView::List(items_view(items@))
        },
        PickleValue::Dict(items) => {
            proof {
                assert(decreases_to!(items => items@));
            }
            ValueView::Dict(pairs_view(items@))
        },
        PickleValue::OrderedDict(items) => {
            proof {
                assert(decreases_to!(items => items@));
            }
            ValueView::OrderedDict(named_view(items@))
        },
        PickleValue::Storage { element_type, element_size } => ValueView::Storage(
            element_type,
            element_size,
        ),
        PickleValue::DType { element_type, element_size } => ValueView::DType(
            element_type,
            element_size,
        ),
        PickleValue::Layout(s) => ValueView::Layout(s@),
        PickleValue::NumpyArray { element_type, element_size, shape, byte_len } => ValueView::NumpyArray(
            element_type,
            element_size,
            match shape {
                Some(s) => Some(s@),
                None => None,
            },
            byte_len,
        ),
        PickleValue::Tensor(t) => ValueView::Tensor(t@),
        PickleValue::Other => ValueView::Other,
    }
}

/// The views of values.
pub open spec fn items_view(v: Seq<PickleValue>) -> Seq<ValueView>
    decreases v,
{
    Seq::new(
        v.len(),
        |i: int|
            if 0 <= i < v.len() {
                proof {
                    assert(decreases_to!(v => v[i]));
                }
                value_view(v[i])
            } else {
                arbitrary()
            },
    )
}

/// The views of key and value pairs.
pub open spec fn pairs_view(v: Seq<(PickleValue, PickleValue)>) -> Seq<(ValueView, ValueView)>
    decreases v,
{
    Seq::new(
        v.len(),
        |i: int|
            if 0 <= i < v.len() {
                proof {
                    assert(decreases_to!(v => v[i]));
                    assert(decreases_to!(v[i] => v[i].0));
                    assert(decreases_to!(v[i] => v[i].1));
                }
                (value_view(v[i].0), value_view(v[i].1))
            } else {
                arbitrary()
            },
    )
}

/// The views of named values.
pub open spec fn named_view(v: Seq<(String, PickleValue)>) -> Seq<(Seq<char>, ValueView)>
    decreases v,
{
    Seq::new(
        v.len(),
        |i: int|
            if 0 <= i < v.len() {
                proof {
                    assert(decreases_to!(v => v[i]));
                    assert(decreases_to!(v[i] => v[i].1));
                }
                (v[i].0@, value_view(v[i].1))
            } else {
                arbitrary()
            },
    )
}

impl View for PickleValue {
    type V = ValueView;

    open spec fn view(&self) -> ValueView {
        value_view(*self)
    }
}

/// The views of the values on a stack.
pub open spec fn stack_view(v: Seq<PickleValue>) -> Seq<ValueView> {
    v.map_values(|x: PickleValue| x@)
}

/// The views of values, element by element, are the items view.
pub proof fn lemma_stack_view_is_items_view(v: Seq<PickleValue>)
    ensures
        stack_view(v) == items_view(v),
{
    assert(stack_view(v) =~= items_view(v));
}

// ---------------------------------------------------------------------------
// Copies

/// A copy of a string.
pub fn copy_string(s: &String) -> (r: String)
    ensures
        r@ == s@,
{
    s.clone()
}

/// A copy of a list of integers.
pub fn copy_ints(v: &Vec<i64>) -> (r: Vec<i64>)
    ensures
        r@ == v@,
{
    let mut out: Vec<i64> = Vec::new();
    let mut i: usize = 0;
    while i < v.len()
        invariant
            i <= v@.len(),
            out@ == v@.subrange(0, i as int),
        decreases v@.len() - i,
    {
        out.push(v[i]);
        proof {
            assert(out@ =~= v@.subrange(0, i + 1));
        }
        i = i + 1;
    }
    proof {
        assert(out@ =~= v@);
    }
    out
}

/// A copy of a tensor.
pub fn copy_tensor(t: &StateDictTensor) -> (r: StateDictTensor)
    ensures
        r@ == t@,
{
    StateDictTensor {
        element_type: t.element_type,
        shape: copy_ints(&t.shape),
        byte_len: t.byte_len,
        layout: match &t.layout {
            Some(s) => Some(copy_string(s)),
            None => None,
        },
    }
}

/// A copy of a value.
pub fn copy_value(v: &PickleValue) -> (r: PickleValue)
    ensures
        r@ == v@,
    decreases v,
{
    match v {
        PickleValue::Mark => PickleValue::Mark,
        PickleValue::NoneValue => PickleValue::NoneValue,
        PickleValue::Int(i) => PickleValue::Int(*i),
        PickleValue::Text(s) => PickleValue::Text(copy_string(s)),
        PickleValue::Global(s) => PickleValue::Global(copy_string(s)),
        PickleValue::Tuple(items) => {
            proof {
                assert(decreases_to!(v => items));
            }
            PickleValue::Tuple(copy_items(items))
        },
        PickleValue::List(items) => {
            proof {
                assert(decreases_to!(v => items));
            }
            PickleValue::List(copy_items(items))
        },
        PickleValue::Dict(items) => {
            proof {
                assert(decreases_to!(v => items));
            }
            PickleValue::Dict(copy_pairs(items))
        },
        PickleValue::OrderedDict(items) => {
            proof {
                assert(decreases_to!(v => items));
            }
            PickleValue::OrderedDict(copy_named(items))
        },
        PickleValue::Storage { element_type, element_size } => PickleValue::Storage {
            element_type: *element_type,
            element_size: *element_size,
        },
        PickleValue::DType { element_type, element_size } => PickleValue::DType {
            element_type: *element_type,
            element_size: *element_size,
        },
        PickleValue::Layout(s) => PickleValue::Layout(copy_string(s)),
        PickleValue::NumpyArray { element_type, element_size, shape, byte_len } => PickleValue::NumpyArray {
            element_type: *element_type,
            element_size: *element_size,
            shape: match shape {
                Some(s) => Some(copy_ints(s)),
                None => None,
            },
            byte_len: *byte_len,
        },
        PickleValue::Tensor(t) => PickleValue::Tensor(copy_tensor(t)),
        PickleValue::Other => PickleValue::Other,
    }
}

/// A copy of values.
pub fn copy_items(v: &Vec<PickleValue>) -> (r: Vec<PickleValue>)
    ensures
        items_view(r@) == items_view(v@),
    decreases v,
{
    let mut out: Vec<PickleValue> = Vec::new();
    let mut i: usize = 0;
    while i < v.len()
        invariant
            i <= v@.len(),
            out@.len() == i,
            forall|j: int| 0 <= j < i ==> value_view(#[trigger] out@[j]) == value_view(v@[j]),
        decreases v@.len() - i,
    {
        proof {
            assert(decreases_to!(v => v@));
            assert(decreases_to!(v@ => v@[i as int]));
        }
        let c = copy_value(&v[i]);
        out.push(c);
        i = i + 1;
    }
    proof {
        assert(items_view(out@) =~= items_view(v@));
    }
    out
}

/// A copy of key and value pairs.
pub fn copy_pairs(v: &Vec<(PickleValue, PickleValue)>) -> (r: Vec<(PickleValue, PickleValue)>)
    ensures
        pairs_view(r@) == pairs_view(v@),
    decreases v,
{
    let mut out: Vec<(PickleValue, PickleValue)> = Vec::new();
    let mut i: usize = 0;
    while i < v.len()
        invariant
            i <= v@.len(),
            out@.len() == i,
            forall|j: int|
                0 <= j < i ==> value_view((#[trigger] out@[j]).0) == value_view(v@[j].0)
                    && value_view(out@[j].1) == value_view(v@[j].1),
        decreases v@.len() - i,
    {
        proof {
            assert(decreases_to!(v => v@));
            assert(decreases_to!(v@ => v@[i as int]));
            assert(decreases_to!(v@[i as int] => v@[i as int].0));
            assert(decreases_to!(v@[i as int] => v@[i as int].1));
        }
        let k = copy_value(&v[i].0);
        let x = copy_value(&v[i].1);
        out.push((k, x));
        i = i + 1;
    }
    proof {
        assert(pairs_view(out@) =~= pairs_view(v@));
    }
    out
}

/// A copy of named values.
pub fn copy_named(v: &Vec<(String, PickleValue)>) -> (r: Vec<(String, PickleValue)>)
    ensures
        named_view(r@) == named_view(v@),
    decreases v,
{
    let mut out: Vec<(String, PickleValue)> = Vec::new();
    let mut i: usize = 0;
    while i < v.len()
        invariant
            i <= v@.len(),
            out@.len() == i,
            forall|j: int|
                0 <= j < i ==> (#[trigger] out@[j]).0@ == v@[j].0@ && value_view(out@[j].1)
                    == value_view(v@[j].1),
        decreases v@.len() - i,
    {
        proof {
            assert(decreases_to!(v => v@));
            assert(decreases_to!(v@ => v@[i as int]));
            assert(decreases_to!(v@[i as int] => v@[i as int].1));
        }
        let k = copy_string(&v[i].0);
        let x = copy_value(&v[i].1);
        out.push((k, x));
        i = i + 1;
    }
    proof {
        assert(named_view(out@) =~= named_view(v@));
    }
    out
}

} // verus!

verus! {

// ---------------------------------------------------------------------------
// Reading values

/// The first index from `i` on of a value that `p` holds of.
pub open spec fn first_index(s: Seq<ValueView>, p: spec_fn(ValueView) -> bool, i: int) -> Option<int>
    decreases s.len() - i,
{
    if i < 0 || i >= s.len() {
        None
    } else if p(s[i]) {
        Some(i)
    } else {
        first_index(s, p, i + 1)
    }
}

/// The first index from `i` on is `j` when `p` fails before `j` and holds at
/// it; there is none when `p` fails everywhere from `i` on.
pub proof fn lemma_first_index(s: Seq<ValueView>, p: spec_fn(ValueView) -> bool, i: int, j: int)
    requires
        0 <= i <= j <= s.len(),
        forall|k: int| i <= k < j ==> !p(#[trigger] s[k]),
    ensures
        j < s.len() && p(s[j]) ==> first_index(s, p, i) == Some(j),
        j == s.len() ==> first_index(s, p, i) is None,
    decreases j - i,
{
    if i < j {
        lemma_first_index(s, p, i + 1, j);
    }
}

/// The integer of an integer value.
pub open spec fn int_of(v: ValueView) -> i64 {
    match v {
        ValueView::Int(i) => i,
        _ => 0,
    }
}

/// The integers of a tuple that holds integers only.
pub open spec fn tuple_ints(v: ValueView) -> Option<Seq<i64>> {
    match v {
        ValueView::Tuple(items) => if forall|i: int| 0 <= i < items.len() ==> items[i] is Int {
            Some(Seq::new(items.len(), |i: int| int_of(items[i])))
        } else {
            None
        },
        _ => None,
    }
}

/// The integers of a tuple that holds integers only.
pub fn pickle_tuple_ints(value: &PickleValue) -> (r: Option<Vec<i64>>)
    ensures
        match tuple_ints(value@) {
            Some(s) => r matches Some(v) && v@ == s,
            None => r is None,
        },
{
    match value {
        PickleValue::Tuple(items) => {
            let ghost view = items_view(items@);
            let mut out: Vec<i64> = Vec::new();
            let mut i: usize = 0;
            proof {
                assert(value@ == ValueView::Tuple(view));
            }
            while i < items.len()
                invariant
                    view == items_view(items@),
                    value@ == ValueView::Tuple(view),
                    i <= items@.len(),
                    out@.len() == i,
                    forall|j: int| 0 <= j < i ==> (#[trigger] view[j]) is Int && out@[j] == int_of(view[j]),
                decreases items@.len() - i,
            {
                proof {
                    assert(view[i as int] == value_view(items@[i as int]));
                }
                match &items[i] {
                    PickleValue::Int(x) => {
                        proof {
                            assert(value_view(items@[i as int]) == ValueView::Int(*x));
                        }
                        out.push(*x);
                        proof {
                            assert(out@[i as int] == int_of(view[i as int]));
                        }
                    },
                    _ => {
                        proof {
                            assert(!(view[i as int] is Int));
                        }
                        return None;
                    },
                }
                i = i + 1;
            }
            proof {
                assert(out@ =~= Seq::new(view.len(), |j: int| int_of(view[j])));
            }
            Some(out)
        },
        _ => None,
    }
}

/// The name of a global.
pub open spec fn global_name(v: ValueView) -> Option<Seq<char>> {
    match v {
        ValueView::Global(name) => Some(name),
        _ => None,
    }
}

/// The name of a global.
pub fn pickle_global_name(value: &PickleValue) -> (r: Option<&str>)
    ensures
        match global_name(value@) {
            Some(s) => r matches Some(x) && x@ == s,
            None => r is None,
        },
{
    match value {
        PickleValue::Global(name) => Some(name.as_str()),
        _ => None,
    }
}

/// The integer of an integer value.
pub fn pickle_int(value: &PickleValue) -> (r: Option<i64>)
    ensures
        r == (if value@ is Int {
            Some(int_of(value@))
        } else {
            None::<i64>
        }),
{
    match value {
        PickleValue::Int(v) => Some(*v),
        _ => None,
    }
}

/// Whether a value is a tensor.
pub open spec fn is_tensor(v: ValueView) -> bool {
    v is Tensor
}

/// The tensor of a tensor value.
pub open spec fn tensor_of(v: ValueView) -> TensorView {
    match v {
        ValueView::Tensor(t) => t,
        _ => arbitrary(),
    }
}

/// Whether a value is text.
pub open spec fn is_text(v: ValueView) -> bool {
    v is Text
}

/// The text of a text value.
pub open spec fn text_of(v: ValueView) -> Seq<char> {
    match v {
        ValueView::Text(s) => s,
        _ => arbitrary(),
    }
}

/// The first tensor among `items`.
pub open spec fn first_tensor(items: Seq<ValueView>) -> Option<TensorView> {
    match first_probe(items, Probe::Tensor) {
        Some(i) => Some(tensor_of(items[i])),
        None => None,
    }
}

/// Takes the first tensor out of `items`.
fn take_first_tensor(values: Vec<PickleValue>) -> (r: Option<StateDictTensor>)
    ensures
        match first_tensor(items_view(values@)) {
            Some(t) => r matches Some(x) && x@ == t,
            None => r is None,
        },
{
    let ghost view = items_view(values@);
    let mut items = values;
    let ghost n = items@.len();
    let _len = items.len();
    let mut i: usize = 0;
    while items.len() > 0
        invariant
            i + items@.len() == n,
            n <= usize::MAX,
            view == items_view(values@),
            n == view.len(),
            forall|k: int| 0 <= k < items@.len() ==> value_view(#[trigger] items@[k]) == view[i + k],
            forall|k: int| 0 <= k < i ==> !probe(Probe::Tensor, #[trigger] view[k]),
        decreases items@.len(),
    {
        let v = items.remove(0);
        proof {
            assert(value_view(v) == view[i as int]);
        }
        if let PickleValue::Tensor(t) = v {
            proof {
                assert(probe(Probe::Tensor, view[i as int]));
                lemma_first_index(view, probe_fn(Probe::Tensor), 0, i as int);
            }
            return Some(t);
        }
        i = i + 1;
        proof {
            assert forall|k: int| 0 <= k < items@.len() implies value_view(#[trigger] items@[k])
                == view[i + k] by {
                assert(value_view(items@[k]) == view[(i - 1) + (k + 1)]);
            }
        }
    }
    proof {
        lemma_first_index(view, probe_fn(Probe::Tensor), 0, n as int);
    }
    None
}

} // verus!

verus! {

// ---------------------------------------------------------------------------
// Looking for values

/// The kinds of values that the machine looks for among a tuple's items.
#[derive(Clone, Copy)]
pub enum Probe {
    Text,
    Tensor,
    Layout,
    TensorTuple,
    IntTuple,
    DType,
    WideTensor,
}

/// Whether `v` is of the kind `p`: a text, a tensor, a layout, a tuple that
/// holds a tensor, a tuple of integers, a dtype, or a tensor whose elements
/// are not 64-bit integers.
pub open spec fn probe(p: Probe, v: ValueView) -> bool {
    match p {
        Probe::Text => v is Text,
        Probe::Tensor => v is Tensor,
        Probe::Layout => v is Layout,
        Probe::TensorTuple => match v {
            ValueView::Tuple(items) => exists|j: int| 0 <= j < items.len() && #[trigger] is_tensor(items[j]),
            _ => false,
        },
        Probe::IntTuple => tuple_ints(v) is Some,
        Probe::DType => v is DType,
        Probe::WideTensor => match v {
            ValueView::Tensor(t) => !(t.element_type is Int64),
            _ => false,
        },
    }
}

/// The kind `p` as a predicate.
pub open spec fn probe_fn(p: Probe) -> spec_fn(ValueView) -> bool {
    |v: ValueView| probe(p, v)
}

/// The index of the first item of the kind `p`.
pub open spec fn first_probe(items: Seq<ValueView>, p: Probe) -> Option<int> {
    first_index(items, probe_fn(p), 0)
}

/// The first index that `p` holds of, from `i` on, lies in the sequence and
/// `p` holds there.
pub proof fn lemma_first_index_holds(s: Seq<ValueView>, p: spec_fn(ValueView) -> bool, i: int)
    ensures
        first_index(s, p, i) matches Some(j) ==> i <= j < s.len() && p(s[j]),
    decreases s.len() - i,
{
    if 0 <= i < s.len() && !p(s[i]) {
        lemma_first_index_holds(s, p, i + 1);
    }
}

/// The first item of the kind `p` is of that kind.
pub proof fn lemma_first_probe_holds(s: Seq<ValueView>, p: Probe)
    ensures
        first_probe(s, p) matches Some(j) ==> 0 <= j < s.len() && probe(p, s[j]),
{
    lemma_first_index_holds(s, probe_fn(p), 0);
    if let Some(j) = first_probe(s, p) {
        assert(probe_fn(p)(s[j]));
    }
}

/// Whether a value holds a tensor among its items.
fn holds_tensor(items: &Vec<PickleValue>) -> (r: bool)
    ensures
        r == exists|j: int| 0 <= j < items@.len() && #[trigger] is_tensor(items_view(items@)[j]),
{
    let ghost view = items_view(items@);
    let mut i: usize = 0;
    while i < items.len()
        invariant
            view == items_view(items@),
            i <= items@.len(),
            forall|k: int| 0 <= k < i ==> !is_tensor(#[trigger] view[k]),
        decreases items@.len() - i,
    {
        proof {
            assert(view[i as int] == value_view(items@[i as int]));
        }
        if let PickleValue::Tensor(_) = &items[i] {
            proof {
                assert(is_tensor(view[i as int]));
            }
            return true;
        }
        i = i + 1;
    }
    false
}

/// Whether `v` is of the kind `p`.
fn probe_exec(p: Probe, v: &PickleValue) -> (r: bool)
    ensures
        r == probe(p, v@),
{
    match p {
        Probe::Text => matches!(v, PickleValue::Text(_)),
        Probe::Tensor => matches!(v, PickleValue::Tensor(_)),
        Probe::Layout => matches!(v, PickleValue::Layout(_)),
        Probe::TensorTuple => match v {
            PickleValue::Tuple(items) => {
                proof {
                    assert(v@ == ValueView::Tuple(items_view(items@)));
                }
                holds_tensor(items)
            },
            _ => false,
        },
        Probe::IntTuple => {
            let ints = pickle_tuple_ints(v);
            ints.is_some()
        },
        Probe::DType => matches!(v, PickleValue::DType { .. }),
        Probe::WideTensor => match v {
            PickleValue::Tensor(t) => !matches!(t.element_type, TensorElementType::Int64),
            _ => false,
        },
    }
}

/// The index of the first item of the kind `p`.
fn find_first(items: &Vec<PickleValue>, p: Probe) -> (r: Option<usize>)
    ensures
        match first_probe(items_view(items@), p) {
            Some(i) => r matches Some(k) && k == i && 0 <= i < items@.len(),
            None => r is None,
        },
{
    let ghost view = items_view(items@);
    let mut i: usize = 0;
    while i < items.len()
        invariant
            view == items_view(items@),
            i <= items@.len(),
            forall|k: int| 0 <= k < i ==> !probe(p, #[trigger] view[k]),
        decreases items@.len() - i,
    {
        proof {
            assert(view[i as int] == value_view(items@[i as int]));
        }
        if probe_exec(p, &items[i]) {
            proof {
                lemma_first_index(view, probe_fn(p), 0, i as int);
            }
            return Some(i);
        }
        i = i + 1;
    }
    proof {
        lemma_first_index(view, probe_fn(p), 0, items@.len() as int);
    }
    None
}

/// The items of a tuple.
pub open spec fn tuple_items(v: ValueView) -> Seq<ValueView> {
    match v {
        ValueView::Tuple(items) => items,
        _ => arbitrary(),
    }
}

/// The name of a layout.
pub open spec fn layout_of(v: ValueView) -> Seq<char> {
    match v {
        ValueView::Layout(s) => s,
        _ => arbitrary(),
    }
}

/// The element type and size of a dtype.
pub open spec fn dtype_of(v: ValueView) -> (TensorElementType, usize) {
    match v {
        ValueView::DType(t, s) => (t, s),
        _ => arbitrary(),
    }
}

} // verus!

verus! {

// ---------------------------------------------------------------------------
// Rebuilding values

/// The layout of a layout call: its first text.
pub open spec fn spec_rebuild_layout(args: ValueView) -> Option<ValueView> {
    match args {
        ValueView::Tuple(vs) => match first_probe(vs, Probe::Text) {
            Some(i) => Some(ValueView::Layout(text_of(vs[i]))),
            None => None,
        },
        _ => None,
    }
}

/// The layout of a layout call.
pub fn rebuild_layout(args: &PickleValue) -> (r: Option<PickleValue>)
    ensures
        match spec_rebuild_layout(args@) {
            Some(v) => r matches Some(x) && x@ == v,
            None => r is None,
        },
{
    match args {
        PickleValue::Tuple(values) => {
            proof {
                assert(args@ == ValueView::Tuple(items_view(values@)));
            }
            match find_first(values, Probe::Text) {
                Some(i) => {
                    proof {
                        assert(items_view(values@)[i as int] == value_view(values@[i as int]));
                        lemma_first_probe_holds(items_view(values@), Probe::Text);
                        assert(first_probe(items_view(values@), Probe::Text) == Some(i as int));
                        assert(probe(Probe::Text, items_view(values@)[i as int]));
                    }
                    match &values[i] {
                        PickleValue::Text(s) => Some(PickleValue::Layout(copy_string(s))),
                        _ => None,
                    }
                },
                None => None,
            }
        },
        _ => None,
    }
}

/// The shape of a size call: the tuple that is its only argument, or else its
/// arguments; one argument that is no tuple gives the empty tuple.
pub open spec fn spec_rebuild_torch_size(args: ValueView) -> Option<ValueView> {
    match args {
        ValueView::Tuple(vs) => if vs.len() == 1 {
            match vs[0] {
                ValueView::Tuple(shape) => Some(ValueView::Tuple(shape)),
                _ => Some(ValueView::Tuple(Seq::empty())),
            }
        } else {
            Some(ValueView::Tuple(vs))
        },
        _ => None,
    }
}

/// The shape of a size call.
pub fn rebuild_torch_size(args: &PickleValue) -> (r: Option<PickleValue>)
    ensures
        match spec_rebuild_torch_size(args@) {
            Some(v) => r matches Some(x) && x@ == v,
            None => r is None,
        },
{
    match args {
        PickleValue::Tuple(values) => {
            proof {
                assert(args@ == ValueView::Tuple(items_view(values@)));
            }
            if values.len() == 1 {
                proof {
                    assert(items_view(values@)[0] == value_view(values@[0]));
                }
                match &values[0] {
                    PickleValue::Tuple(shape) => Some(PickleValue::Tuple(copy_items(shape))),
                    _ => {
                        let empty: Vec<PickleValue> = Vec::new();
                        proof {
                            assert(items_view(empty@) =~= Seq::<ValueView>::empty());
                        }
                        Some(PickleValue::Tuple(empty))
                    },
                }
            } else {
                Some(PickleValue::Tuple(copy_items(values)))
            }
        },
        _ => None,
    }
}

/// A tensor of the storage `storage` and the shape `shape`: the storage must
/// be one that a persistent id gave.
pub open spec fn spec_storage_tensor(storage: ValueView, shape: Seq<i64>) -> Result<TensorView, ErrorKind> {
    match storage {
        ValueView::Storage(t, size) => match spec_byte_len(shape, size as int) {
            Err(e) => Err(e),
            Ok(n) => Ok(TensorView { element_type: t, shape, byte_len: n as usize, layout: None }),
        },
        _ => Err(ErrorKind::Missing),
    }
}

/// A tensor of the storage `storage` and the shape `shape`.
pub fn state_dict_tensor_from_storage(storage: &PickleValue, shape: Vec<i64>) -> (r: Result<
    StateDictTensor,
    ModelError,
>)
    ensures
        py_read(r, spec_storage_tensor(storage@, shape@)),
{
    match storage {
        PickleValue::Storage { element_type, element_size } => {
            let byte_len = checked_byte_len(shape.as_slice(), *element_size)?;
            Ok(StateDictTensor { element_type: *element_type, shape, byte_len, layout: None })
        },
        _ => Err(invalid(Format::PyTorch, ErrorKind::Missing)),
    }
}

/// The tensor of a rebuild call: its first argument is the storage and its
/// third the shape.
pub open spec fn spec_rebuild_tensor(args: ValueView) -> Result<TensorView, ErrorKind> {
    match args {
        ValueView::Tuple(vs) => if vs.len() < 3 {
            Err(ErrorKind::Missing)
        } else {
            match tuple_ints(vs[2]) {
                None => Err(ErrorKind::Missing),
                Some(shape) => spec_storage_tensor(vs[0], shape),
            }
        },
        _ => Err(ErrorKind::InvalidValue),
    }
}

/// The tensor of a rebuild call.
pub fn rebuild_tensor(args: &PickleValue) -> (r: Result<StateDictTensor, ModelError>)
    ensures
        py_read(r, spec_rebuild_tensor(args@)),
{
    match args {
        PickleValue::Tuple(values) => {
            proof {
                assert(args@ == ValueView::Tuple(items_view(values@)));
            }
            if values.len() < 3 {
                return Err(invalid(Format::PyTorch, ErrorKind::Missing));
            }
            proof {
                assert(items_view(values@)[0] == value_view(values@[0]));
                assert(items_view(values@)[2] == value_view(values@[2]));
            }
            let shape = match pickle_tuple_ints(&values[2]) {
                Some(s) => s,
                None => return Err(invalid(Format::PyTorch, ErrorKind::Missing)),
            };
            state_dict_tensor_from_storage(&values[0], shape)
        },
        _ => Err(invalid(Format::PyTorch, ErrorKind::InvalidValue)),
    }
}

/// The tensor of a quantized rebuild call, read as a rebuild call.
pub fn rebuild_qtensor(args: &PickleValue) -> (r: Result<StateDictTensor, ModelError>)
    ensures
        py_read(r, spec_rebuild_tensor(args@)),
{
    rebuild_tensor(args)
}

/// The tensor of a parameter: its first tensor argument.
pub open spec fn spec_rebuild_parameter(args: ValueView) -> Result<TensorView, ErrorKind> {
    match args {
        ValueView::Tuple(vs) => match first_tensor(vs) {
            Some(t) => Ok(t),
            None => Err(ErrorKind::Missing),
        },
        _ => Err(ErrorKind::InvalidValue),
    }
}

/// The tensor of a parameter.
pub fn rebuild_parameter(args: PickleValue) -> (r: Result<StateDictTensor, ModelError>)
    ensures
        py_read(r, spec_rebuild_parameter(args@)),
{
    match args {
        PickleValue::Tuple(values) => match take_first_tensor(values) {
            Some(t) => Ok(t),
            None => Err(invalid(Format::PyTorch, ErrorKind::Missing)),
        },
        _ => Err(invalid(Format::PyTorch, ErrorKind::InvalidValue)),
    }
}

/// The tensor of a device tensor made from a CPU tensor: its first tensor
/// argument.
pub fn rebuild_device_tensor_from_cpu_tensor(args: PickleValue) -> (r: Result<
    StateDictTensor,
    ModelError,
>)
    ensures
        py_read(r, spec_rebuild_parameter(args@)),
{
    rebuild_parameter(args)
}

/// The fields of a numpy array value.
pub open spec fn numpy_fields(v: ValueView) -> (
    Option<TensorElementType>,
    Option<usize>,
    Option<Seq<i64>>,
    Option<usize>,
) {
    match v {
        ValueView::NumpyArray(t, s, shape, n) => (t, s, shape, n),
        _ => (None, None, None, None),
    }
}

/// The element type of a device tensor made from a numpy array: the dtype of
/// its second argument, or else the array's own.
pub open spec fn numpy_tensor_dtype(vs: Seq<ValueView>) -> Option<(TensorElementType, usize)> {
    let from_global = if vs.len() > 1 {
        match global_name(vs[1]) {
            Some(name) => spec_pytorch_dtype_global(name),
            None => None,
        }
    } else {
        None
    };
    match from_global {
        Some(d) => Some(d),
        None => match numpy_fields(vs[0]) {
            (Some(t), Some(s), _, _) => Some((t, s)),
            _ => None,
        },
    }
}

/// The tensor of a device tensor made from a numpy array: the array's shape,
/// and its byte length when it has one, else the one of the shape (which must
/// be computable either way).
pub open spec fn spec_rebuild_from_numpy(args: ValueView) -> Result<TensorView, ErrorKind> {
    match args {
        ValueView::Tuple(vs) => if vs.len() == 0 {
            Err(ErrorKind::Missing)
        } else {
            match numpy_tensor_dtype(vs) {
                None => Err(ErrorKind::Missing),
                Some((t, size)) => match numpy_fields(vs[0]).2 {
                    None => Err(ErrorKind::Missing),
                    Some(shape) => match spec_byte_len(shape, size as int) {
                        Err(e) => Err(e),
                        Ok(n) => Ok(
                            TensorView {
                                element_type: t,
                                shape,
                                byte_len: match numpy_fields(vs[0]).3 {
                                    Some(l) => l,
                                    None => n as usize,
                                },
                                layout: None,
                            },
                        ),
                    },
                },
            }
        },
        _ => Err(ErrorKind::InvalidValue),
    }
}

/// The tensor of a device tensor made from a numpy array.
pub fn rebuild_device_tensor_from_numpy(args: &PickleValue) -> (r: Result<StateDictTensor, ModelError>)
    ensures
        py_read(r, spec_rebuild_from_numpy(args@)),
{
    match args {
        PickleValue::Tuple(values) => {
            proof {
                assert(args@ == ValueView::Tuple(items_view(values@)));
            }
            if values.len() == 0 {
                return Err(invalid(Format::PyTorch, ErrorKind::Missing));
            }
            proof {
                assert(items_view(values@)[0] == value_view(values@[0]));
            }
            let (array_type, array_size, array_shape, array_len) = match &values[0] {
                PickleValue::NumpyArray { element_type, element_size, shape, byte_len } => (
                    *element_type,
                    *element_size,
                    match shape {
                        Some(s) => Some(copy_ints(s)),
                        None => None,
                    },
                    *byte_len,
                ),
                _ => (None, None, None, None),
            };
            let from_global = if values.len() > 1 {
                proof {
                    assert(items_view(values@)[1] == value_view(values@[1]));
                }
                match pickle_global_name(&values[1]) {
                    Some(name) => pytorch_dtype_global(name),
                    None => None,
                }
            } else {
                None
            };
            let (element_type, element_size) = match from_global {
                Some(d) => d,
                None => match (array_type, array_size) {
                    (Some(t), Some(s)) => (t, s),
                    _ => return Err(invalid(Format::PyTorch, ErrorKind::Missing)),
                },
            };
            let shape = match array_shape {
                Some(s) => s,
                None => return Err(invalid(Format::PyTorch, ErrorKind::Missing)),
            };
            let computed = checked_byte_len(shape.as_slice(), element_size)?;
            let byte_len = match array_len {
                Some(l) => l,
                None => computed,
            };
            Ok(StateDictTensor { element_type, shape, byte_len, layout: None })
        },
        _ => Err(invalid(Format::PyTorch, ErrorKind::InvalidValue)),
    }
}

} // verus!

verus! {

/// The tensor of a sparse tensor: the first tuple that holds a tensor gives
/// the values tensor (its first one whose elements are not 64-bit integers,
/// or else its first) and the shape (its first tuple of integers); the first
/// layout argument gives the layout.
pub open spec fn spec_rebuild_sparse(args: ValueView) -> Result<TensorView, ErrorKind> {
    match args {
        ValueView::Tuple(vs) => {
            let layout = match first_probe(vs, Probe::Layout) {
                Some(i) => Some(spec_sparse_layout_name(layout_of(vs[i]))),
                None => None,
            };
            match first_probe(vs, Probe::TensorTuple) {
                None => Err(ErrorKind::Missing),
                Some(i) => {
                    let sv = tuple_items(vs[i]);
                    let value_tensor = match first_probe(sv, Probe::WideTensor) {
                        Some(j) => Some(tensor_of(sv[j])),
                        None => first_tensor(sv),
                    };
                    match value_tensor {
                        None => Err(ErrorKind::Missing),
                        Some(vt) => match first_probe(sv, Probe::IntTuple) {
                            None => Err(ErrorKind::Missing),
                            Some(k) => Ok(
                                TensorView {
                                    element_type: vt.element_type,
                                    shape: tuple_ints(sv[k]).unwrap(),
                                    byte_len: vt.byte_len,
                                    layout,
                                },
                            ),
                        },
                    }
                },
            }
        },
        _ => Err(ErrorKind::InvalidValue),
    }
}

/// The tensor at `i` of `values`, which is one.
fn tensor_at(values: &Vec<PickleValue>, i: usize) -> (r: &StateDictTensor)
    requires
        i < values@.len(),
        is_tensor(items_view(values@)[i as int]),
    ensures
        r@ == tensor_of(items_view(values@)[i as int]),
{
    proof {
        assert(items_view(values@)[i as int] == value_view(values@[i as int]));
    }
    match &values[i] {
        PickleValue::Tensor(t) => t,
        _ => vstd::pervasive::unreached(),
    }
}

/// The tensor of a sparse tensor.
pub fn rebuild_sparse_tensor(args: &PickleValue) -> (r: Result<StateDictTensor, ModelError>)
    ensures
        py_read(r, spec_rebuild_sparse(args@)),
{
    let values = match args {
        PickleValue::Tuple(values) => values,
        _ => return Err(invalid(Format::PyTorch, ErrorKind::InvalidValue)),
    };
    let ghost vs = items_view(values@);
    proof {
        assert(args@ == ValueView::Tuple(vs));
        lemma_first_probe_holds(vs, Probe::Layout);
        lemma_first_probe_holds(vs, Probe::TensorTuple);
    }
    let layout = match find_first(values, Probe::Layout) {
        Some(i) => {
            proof {
                assert(vs[i as int] == value_view(values@[i as int]));
            }
            match &values[i] {
                PickleValue::Layout(s) => Some(sparse_layout_name(s.as_str())),
                _ => None,
            }
        },
        None => None,
    };
    let i = match find_first(values, Probe::TensorTuple) {
        Some(i) => i,
        None => return Err(invalid(Format::PyTorch, ErrorKind::Missing)),
    };
    proof {
        assert(vs[i as int] == value_view(values@[i as int]));
    }
    let sparse_values = match &values[i] {
        PickleValue::Tuple(items) => items,
        _ => return Err(invalid(Format::PyTorch, ErrorKind::Missing)),
    };
    let ghost sv = items_view(sparse_values@);
    proof {
        assert(tuple_items(vs[i as int]) == sv);
        lemma_first_probe_holds(sv, Probe::WideTensor);
        lemma_first_probe_holds(sv, Probe::Tensor);
        lemma_first_probe_holds(sv, Probe::IntTuple);
    }
    let value_tensor = match find_first(sparse_values, Probe::WideTensor) {
        Some(j) => tensor_at(sparse_values, j),
        None => match find_first(sparse_values, Probe::Tensor) {
            Some(j) => tensor_at(sparse_values, j),
            None => return Err(invalid(Format::PyTorch, ErrorKind::Missing)),
        },
    };
    let k = match find_first(sparse_values, Probe::IntTuple) {
        Some(k) => k,
        None => return Err(invalid(Format::PyTorch, ErrorKind::Missing)),
    };
    proof {
        assert(sv[k as int] == value_view(sparse_values@[k as int]));
    }
    let shape = match pickle_tuple_ints(&sparse_values[k]) {
        Some(s) => s,
        None => return Err(invalid(Format::PyTorch, ErrorKind::Missing)),
    };
    Ok(
        StateDictTensor {
            element_type: value_tensor.element_type,
            shape,
            byte_len: value_tensor.byte_len,
            layout,
        },
    )
}

/// The storage that a persistent id names: a tuple whose first item is the
/// text `storage` and whose second is the global of a typed storage class.
pub open spec fn spec_storage_from_pid(pid: ValueView) -> Result<ValueView, ErrorKind> {
    match pid {
        ValueView::Tuple(vs) => if vs.len() > 1 && vs[0] == ValueView::Text("storage"@) {
            match global_name(vs[1]) {
                None => Ok(ValueView::Other),
                Some(name) => if name == "torch.storage.UntypedStorage"@ {
                    Ok(ValueView::Other)
                } else {
                    match spec_storage_element_type(name) {
                        None => Err(ErrorKind::Unsupported),
                        Some((t, s)) => Ok(ValueView::Storage(t, s)),
                    }
                },
            }
        } else {
            Ok(ValueView::Other)
        },
        _ => Ok(ValueView::Other),
    }
}

/// The storage that a persistent id names.
pub fn storage_from_persistent_id(pid: &PickleValue) -> (r: Result<PickleValue, ModelError>)
    ensures
        py_read(r, spec_storage_from_pid(pid@)),
{
    let values = match pid {
        PickleValue::Tuple(values) => values,
        _ => return Ok(PickleValue::Other),
    };
    proof {
        assert(pid@ == ValueView::Tuple(items_view(values@)));
    }
    if values.len() <= 1 {
        return Ok(PickleValue::Other);
    }
    proof {
        assert(items_view(values@)[0] == value_view(values@[0]));
        assert(items_view(values@)[1] == value_view(values@[1]));
    }
    let tagged = match &values[0] {
        PickleValue::Text(tag) => str_eq(tag.as_str(), "storage"),
        _ => false,
    };
    if !tagged {
        return Ok(PickleValue::Other);
    }
    let name = match pickle_global_name(&values[1]) {
        Some(name) => name,
        None => return Ok(PickleValue::Other),
    };
    if str_eq(name, "torch.storage.UntypedStorage") {
        return Ok(PickleValue::Other);
    }
    let (element_type, element_size) = storage_element_type(name)?;
    Ok(PickleValue::Storage { element_type, element_size })
}

/// The dtype of a numpy dtype call: the type code of its first text.
pub open spec fn spec_rebuild_numpy_dtype(args: ValueView) -> Option<ValueView> {
    match args {
        ValueView::Tuple(vs) => match first_probe(vs, Probe::Text) {
            None => None,
            Some(i) => match spec_numpy_dtype(text_of(vs[i])) {
                None => None,
                Some((t, s)) => Some(ValueView::DType(t, s)),
            },
        },
        _ => None,
    }
}

/// The dtype of a numpy dtype call.
pub fn rebuild_numpy_dtype(args: &PickleValue) -> (r: Option<PickleValue>)
    ensures
        match spec_rebuild_numpy_dtype(args@) {
            Some(v) => r matches Some(x) && x@ == v,
            None => r is None,
        },
{
    let values = match args {
        PickleValue::Tuple(values) => values,
        _ => return None,
    };
    proof {
        assert(args@ == ValueView::Tuple(items_view(values@)));
        lemma_first_probe_holds(items_view(values@), Probe::Text);
    }
    let i = find_first(values, Probe::Text)?;
    proof {
        assert(items_view(values@)[i as int] == value_view(values@[i as int]));
    }
    let code = match &values[i] {
        PickleValue::Text(code) => code,
        _ => return None,
    };
    let (element_type, element_size) = numpy_dtype(code.as_str())?;
    Some(PickleValue::DType { element_type, element_size })
}

/// A numpy array built from its state: the dtype among the state's items and
/// the shape of its second item (empty when that is no tuple of integers); a
/// state without a dtype gives no array.
pub open spec fn spec_build_numpy_array(state: ValueView) -> Result<ValueView, ErrorKind> {
    match state {
        ValueView::Tuple(vs) => match first_probe(vs, Probe::DType) {
            None => Ok(ValueView::Other),
            Some(i) => {
                let (t, size) = dtype_of(vs[i]);
                let shape = if vs.len() > 1 {
                    match tuple_ints(vs[1]) {
                        Some(s) => s,
                        None => Seq::empty(),
                    }
                } else {
                    Seq::empty()
                };
                match spec_byte_len(shape, size as int) {
                    Err(e) => Err(e),
                    Ok(n) => Ok(ValueView::NumpyArray(Some(t), Some(size), Some(shape), Some(n as usize))),
                }
            },
        },
        _ => Ok(ValueView::Other),
    }
}

/// A numpy array built from its state.
pub fn build_numpy_array(state: &PickleValue) -> (r: Result<PickleValue, ModelError>)
    ensures
        py_read(r, spec_build_numpy_array(state@)),
{
    let values = match state {
        PickleValue::Tuple(values) => values,
        _ => return Ok(PickleValue::Other),
    };
    proof {
        assert(state@ == ValueView::Tuple(items_view(values@)));
        lemma_first_probe_holds(items_view(values@), Probe::DType);
    }
    let shape = if values.len() > 1 {
        proof {
            assert(items_view(values@)[1] == value_view(values@[1]));
        }
        pickle_tuple_ints(&values[1])
    } else {
        None
    };
    let i = match find_first(values, Probe::DType) {
        Some(i) => i,
        None => return Ok(PickleValue::Other),
    };
    proof {
        assert(items_view(values@)[i as int] == value_view(values@[i as int]));
    }
    let (element_type, element_size) = match &values[i] {
        PickleValue::DType { element_type, element_size } => (*element_type, *element_size),
        _ => return Ok(PickleValue::Other),
    };
    let shape = match shape {
        Some(s) => s,
        None => {
            let empty: Vec<i64> = Vec::new();
            proof {
                assert(empty@ =~= Seq::<i64>::empty());
            }
            empty
        },
    };
    let byte_len = checked_byte_len(shape.as_slice(), element_size)?;
    Ok(
        PickleValue::NumpyArray {
            element_type: Some(element_type),
            element_size: Some(element_size),
            shape: Some(shape),
            byte_len: Some(byte_len),
        },
    )
}

} // verus!

verus! {

/// A result whose value is a tensor.
pub open spec fn as_tensor(r: Result<TensorView, ErrorKind>) -> Result<ValueView, ErrorKind> {
    match r {
        Ok(t) => Ok(ValueView::Tensor(t)),
        Err(e) => Err(e),
    }
}

/// An optional value, or `Other`.
pub open spec fn or_other(v: Option<ValueView>) -> ValueView {
    match v {
        Some(x) => x,
        None => ValueView::Other,
    }
}

/// What a reduce op makes of a callable and its arguments: an ordered dict, a
/// tensor, a layout, a shape, a numpy array or a dtype for the callables that
/// the machine knows, `Other` for the rest.
pub open spec fn spec_reduce_value(callable: ValueView, args: ValueView) -> Result<ValueView, ErrorKind> {
    match global_name(callable) {
        None => Ok(ValueView::Other),
        Some(name) => if name == "collections.OrderedDict"@ {
            Ok(ValueView::OrderedDict(Seq::empty()))
        } else if name == "torch._utils._rebuild_tensor"@ || name
            == "torch._utils._rebuild_tensor_v2"@ || name == "torch._utils._rebuild_qtensor"@ {
            as_tensor(spec_rebuild_tensor(args))
        } else if name == "torch._utils._rebuild_parameter"@ || name
            == "torch._utils._rebuild_device_tensor_from_cpu_tensor"@ {
            as_tensor(spec_rebuild_parameter(args))
        } else if name == "torch._utils._rebuild_device_tensor_from_numpy"@ {
            as_tensor(spec_rebuild_from_numpy(args))
        } else if name == "torch._utils._rebuild_sparse_tensor"@ {
            as_tensor(spec_rebuild_sparse(args))
        } else if name == "torch.serialization._get_layout"@ {
            Ok(or_other(spec_rebuild_layout(args)))
        } else if name == "torch.Size"@ {
            Ok(or_other(spec_rebuild_torch_size(args)))
        } else if name == "numpy.core.multiarray._reconstruct"@ || name
            == "numpy._core.multiarray._reconstruct"@ {
            Ok(ValueView::NumpyArray(None, None, None, None))
        } else if name == "numpy.dtype"@ {
            Ok(or_other(spec_rebuild_numpy_dtype(args)))
        } else {
            Ok(ValueView::Other)
        },
    }
}

/// A tensor result as a value.
fn tensor_value(r: Result<StateDictTensor, ModelError>) -> (v: Result<PickleValue, ModelError>)
    ensures
        match r {
            Ok(t) => v matches Ok(x) && x@ == ValueView::Tensor(t@),
            Err(e) => v == Err::<PickleValue, ModelError>(e),
        },
{
    match r {
        Ok(t) => Ok(PickleValue::Tensor(t)),
        Err(e) => Err(e),
    }
}

/// An optional value, or `Other`.
fn value_or_other(v: Option<PickleValue>) -> (r: PickleValue)
    ensures
        r@ == or_other(match v {
            Some(x) => Some(x@),
            None => None,
        }),
{
    match v {
        Some(x) => x,
        None => PickleValue::Other,
    }
}

/// What a reduce op makes of a callable and its arguments.
pub fn reduce_pickle_value(callable: &PickleValue, args: PickleValue) -> (r: Result<PickleValue, ModelError>)
    ensures
        py_read(r, spec_reduce_value(callable@, args@)),
{
    let name = match pickle_global_name(callable) {
        Some(name) => name,
        None => return Ok(PickleValue::Other),
    };
    if str_eq(name, "collections.OrderedDict") {
        let empty: Vec<(String, PickleValue)> = Vec::new();
        proof {
            assert(named_view(empty@) =~= Seq::<(Seq<char>, ValueView)>::empty());
        }
        Ok(PickleValue::OrderedDict(empty))
    } else if str_eq(name, "torch._utils._rebuild_tensor") || str_eq(
        name,
        "torch._utils._rebuild_tensor_v2",
    ) {
        tensor_value(rebuild_tensor(&args))
    } else if str_eq(name, "torch._utils._rebuild_qtensor") {
        tensor_value(rebuild_qtensor(&args))
    } else if str_eq(name, "torch._utils._rebuild_parameter") {
        tensor_value(rebuild_parameter(args))
    } else if str_eq(name, "torch._utils._rebuild_device_tensor_from_cpu_tensor") {
        tensor_value(rebuild_device_tensor_from_cpu_tensor(args))
    } else if str_eq(name, "torch._utils._rebuild_device_tensor_from_numpy") {
        tensor_value(rebuild_device_tensor_from_numpy(&args))
    } else if str_eq(name, "torch._utils._rebuild_sparse_tensor") {
        tensor_value(rebuild_sparse_tensor(&args))
    } else if str_eq(name, "torch.serialization._get_layout") {
        Ok(value_or_other(rebuild_layout(&args)))
    } else if str_eq(name, "torch.Size") {
        Ok(value_or_other(rebuild_torch_size(&args)))
    } else if str_eq(name, "numpy.core.multiarray._reconstruct") || str_eq(
        name,
        "numpy._core.multiarray._reconstruct",
    ) {
        Ok(
            PickleValue::NumpyArray {
                element_type: None,
                element_size: None,
                shape: None,
                byte_len: None,
            },
        )
    } else if str_eq(name, "numpy.dtype") {
        Ok(value_or_other(rebuild_numpy_dtype(&args)))
    } else {
        Ok(PickleValue::Other)
    }
}

/// What a build op makes of its target and state: a numpy array is built from
/// the state; any other target stays as it is.
pub open spec fn spec_build_value(target: ValueView, state: ValueView) -> Result<ValueView, ErrorKind> {
    match target {
        ValueView::NumpyArray(..) => spec_build_numpy_array(state),
        _ => Ok(target),
    }
}

/// What a build op makes of its target and state.
pub fn build_pickle_value(target: PickleValue, state: &PickleValue) -> (r: Result<PickleValue, ModelError>)
    ensures
        py_read(r, spec_build_value(target@, state@)),
{
    match target {
        PickleValue::NumpyArray { .. } => build_numpy_array(state),
        value => Ok(value),
    }
}

} // verus!

verus! {

// ---------------------------------------------------------------------------
// The machine

/// The machine's state: its stack, its memo and the next memo index.
#[verifier::ext_equal]
pub struct MachineView {
    pub stack: Seq<ValueView>,
    pub memo: Map<usize, ValueView>,
    pub next_memo: usize,
}

/// The index of the last mark among the first `n` values of `s`.
pub open spec fn last_mark_before(s: Seq<ValueView>, n: int) -> Option<int>
    decreases n,
{
    if n <= 0 {
        None
    } else if s[n - 1] is Mark {
        Some(n - 1)
    } else {
        last_mark_before(s, n - 1)
    }
}

/// The index of the last mark on a stack.
pub open spec fn last_mark(s: Seq<ValueView>) -> Option<int> {
    last_mark_before(s, s.len() as int)
}

/// Items taken two by two as key and value; an odd last item is dropped.
pub open spec fn spec_pairs(items: Seq<ValueView>) -> Seq<(ValueView, ValueView)> {
    Seq::new(items.len() / 2, |i: int| (items[2 * i], items[2 * i + 1]))
}

/// The pairs whose key is text, with the text as key.
pub open spec fn text_keyed(pairs: Seq<(ValueView, ValueView)>) -> Seq<(Seq<char>, ValueView)>
    decreases pairs.len(),
{
    if pairs.len() == 0 {
        Seq::empty()
    } else {
        let rest = text_keyed(pairs.drop_last());
        match pairs.last().0 {
            ValueView::Text(k) => rest.push((k, pairs.last().1)),
            _ => rest,
        }
    }
}

/// The stack with `v` on top.
pub open spec fn pushed(m: MachineView, v: ValueView) -> MachineView {
    MachineView { stack: m.stack.push(v), ..m }
}

/// One more than `n`, or `n` at the top of `usize`.
pub open spec fn next_index(n: usize) -> usize {
    if n < usize::MAX {
        (n + 1) as usize
    } else {
        n
    }
}

/// The tuple op: the values above the last mark become a tuple in its place;
/// there must be a mark.
pub open spec fn spec_tuple(m: MachineView) -> Result<MachineView, ErrorKind> {
    match last_mark(m.stack) {
        None => Err(ErrorKind::Missing),
        Some(k) => Ok(
            MachineView {
                stack: m.stack.take(k).push(ValueView::Tuple(m.stack.skip(k + 1))),
                ..m
            },
        ),
    }
}

/// The fixed-size tuple ops: the top `n` values become a tuple; there must
/// be that many.
pub open spec fn spec_fixed_tuple(m: MachineView, n: int) -> Result<MachineView, ErrorKind> {
    if m.stack.len() < n {
        Err(ErrorKind::Truncated)
    } else {
        let start = m.stack.len() - n;
        Ok(
            MachineView {
                stack: m.stack.take(start).push(ValueView::Tuple(m.stack.skip(start))),
                ..m
            },
        )
    }
}

/// The set items op: the values above the last mark, taken two by two, go
/// into the dict below the mark (an ordered dict keeps those with text keys);
/// without a mark, or with the mark at the bottom, nothing changes.
pub open spec fn spec_set_items(m: MachineView) -> MachineView {
    match last_mark(m.stack) {
        None => m,
        Some(k) => if k == 0 {
            m
        } else {
            let pairs = spec_pairs(m.stack.skip(k + 1));
            let base = m.stack.take(k);
            let updated = match base[k - 1] {
                ValueView::OrderedDict(existing) => ValueView::OrderedDict(existing + text_keyed(pairs)),
                ValueView::Dict(existing) => ValueView::Dict(existing + pairs),
                other => other,
            };
            MachineView { stack: base.update(k - 1, updated), ..m }
        },
    }
}

/// The set item op: the top two values are a key and a value for the dict
/// below them (an ordered dict takes only a text key); with fewer than three
/// values nothing changes.
pub open spec fn spec_set_item(m: MachineView) -> MachineView {
    let n = m.stack.len();
    if n < 3 {
        m
    } else {
        let value = m.stack[n - 1];
        let key = m.stack[n - 2];
        let updated = match m.stack[n - 3] {
            ValueView::OrderedDict(items) => match key {
                ValueView::Text(k) => ValueView::OrderedDict(items.push((k, value))),
                _ => ValueView::OrderedDict(items),
            },
            ValueView::Dict(items) => ValueView::Dict(items.push((key, value))),
            other => other,
        };
        MachineView { stack: m.stack.take(n - 3).push(updated), ..m }
    }
}

/// The appends op: the values above the last mark go to the end of the list
/// below the mark; without a mark, or with the mark at the bottom, nothing
/// changes.
pub open spec fn spec_appends(m: MachineView) -> MachineView {
    match last_mark(m.stack) {
        None => m,
        Some(k) => if k == 0 {
            m
        } else {
            let items = m.stack.skip(k + 1);
            let base = m.stack.take(k);
            let updated = match base[k - 1] {
                ValueView::List(existing) => ValueView::List(existing + items),
                other => other,
            };
            MachineView { stack: base.update(k - 1, updated), ..m }
        },
    }
}

/// The build op: the top value is a state that builds the value below it;
/// there must be a state.
pub open spec fn spec_build(m: MachineView) -> Result<MachineView, ErrorKind> {
    let n = m.stack.len();
    if n == 0 {
        Err(ErrorKind::Missing)
    } else {
        let state = m.stack[n - 1];
        let base = m.stack.drop_last();
        if base.len() == 0 {
            Ok(MachineView { stack: base, ..m })
        } else {
            match spec_build_value(base.last(), state) {
                Err(e) => Err(e),
                Ok(v) => Ok(MachineView { stack: base.drop_last().push(v), ..m }),
            }
        }
    }
}

/// The stack global op: the top two texts, module and name, become the
/// global `module.name`; anything else that it pops becomes `Other`.
pub open spec fn spec_stack_global(m: MachineView) -> MachineView {
    let n = m.stack.len();
    if n == 0 {
        pushed(m, ValueView::Other)
    } else {
        let base = m.stack.drop_last();
        match m.stack[n - 1] {
            ValueView::Text(name) => if base.len() == 0 {
                MachineView { stack: base.push(ValueView::Other), ..m }
            } else {
                match base.last() {
                    ValueView::Text(module) => MachineView {
                        stack: base.drop_last().push(ValueView::Global(module + "."@ + name)),
                        ..m
                    },
                    _ => MachineView { stack: base.drop_last().push(ValueView::Other), ..m },
                }
            },
            _ => MachineView { stack: base.push(ValueView::Other), ..m },
        }
    }
}

/// The reduce op: the top value is the arguments and the one below it the
/// callable; both must be there.
pub open spec fn spec_reduce(m: MachineView) -> Result<MachineView, ErrorKind> {
    let n = m.stack.len();
    if n < 2 {
        Err(ErrorKind::Missing)
    } else {
        match spec_reduce_value(m.stack[n - 2], m.stack[n - 1]) {
            Err(e) => Err(e),
            Ok(v) => Ok(MachineView { stack: m.stack.take(n - 2).push(v), ..m }),
        }
    }
}

/// The persistent id op: the top value is a persistent id, replaced by the
/// storage that it names; it must be there.
pub open spec fn spec_binpersid(m: MachineView) -> Result<MachineView, ErrorKind> {
    let n = m.stack.len();
    if n == 0 {
        Err(ErrorKind::Missing)
    } else {
        match spec_storage_from_pid(m.stack[n - 1]) {
            Err(e) => Err(e),
            Ok(v) => Ok(MachineView { stack: m.stack.drop_last().push(v), ..m }),
        }
    }
}

/// One op of the machine.
pub open spec fn machine_step(m: MachineView, op: PickleOpView) -> Result<MachineView, ErrorKind> {
    match op {
        PickleOpView::Appends => Ok(spec_appends(m)),
        PickleOpView::BinPersid => spec_binpersid(m),
        PickleOpView::Bool => Ok(pushed(m, ValueView::Other)),
        PickleOpView::Build => spec_build(m),
        PickleOpView::Bytes(_) => Ok(pushed(m, ValueView::Other)),
        PickleOpView::EmptyDict => Ok(pushed(m, ValueView::Dict(Seq::empty()))),
        PickleOpView::EmptyList => Ok(pushed(m, ValueView::List(Seq::empty()))),
        PickleOpView::EmptyTuple => Ok(pushed(m, ValueView::Tuple(Seq::empty()))),
        PickleOpView::Get(i) => Ok(
            pushed(
                m,
                if m.memo.contains_key(i) {
                    m.memo[i]
                } else {
                    ValueView::Other
                },
            ),
        ),
        PickleOpView::Global(name) => Ok(pushed(m, ValueView::Global(name))),
        PickleOpView::Int(v) => Ok(pushed(m, ValueView::Int(v))),
        PickleOpView::Mark => Ok(pushed(m, ValueView::Mark)),
        PickleOpView::Memoize => if m.stack.len() > 0 {
            Ok(
                MachineView {
                    memo: m.memo.insert(m.next_memo, m.stack.last()),
                    next_memo: next_index(m.next_memo),
                    ..m
                },
            )
        } else {
            Ok(m)
        },
        PickleOpView::NoneValue => Ok(pushed(m, ValueView::NoneValue)),
        PickleOpView::Put(i) => if m.stack.len() > 0 {
            Ok(
                MachineView {
                    memo: m.memo.insert(i, m.stack.last()),
                    next_memo: if m.next_memo >= next_index(i) {
                        m.next_memo
                    } else {
                        next_index(i)
                    },
                    ..m
                },
            )
        } else {
            Ok(m)
        },
        PickleOpView::Reduce => spec_reduce(m),
        PickleOpView::SetItem => Ok(spec_set_item(m)),
        PickleOpView::SetItems => Ok(spec_set_items(m)),
        PickleOpView::StackGlobal => Ok(spec_stack_global(m)),
        PickleOpView::Text(s) => Ok(pushed(m, ValueView::Text(s))),
        PickleOpView::Tuple => spec_tuple(m),
        PickleOpView::Tuple1 => spec_fixed_tuple(m, 1),
        PickleOpView::Tuple2 => spec_fixed_tuple(m, 2),
        PickleOpView::Tuple3 => spec_fixed_tuple(m, 3),
    }
}

/// The machine as a fold.
pub open spec fn machine_fold() -> spec_fn(MachineView, PickleOpView) -> Result<MachineView, ErrorKind> {
    |m: MachineView, op: PickleOpView| machine_step(m, op)
}

/// The machine before any op.
pub open spec fn machine_start() -> MachineView {
    MachineView { stack: Seq::empty(), memo: Map::empty(), next_memo: 0 }
}

/// Whether a value can be an entry of a state dict: a tensor, nothing, or a
/// tuple that holds a tensor.
pub open spec fn entry_like(v: ValueView) -> bool {
    match v {
        ValueView::Tensor(_) => true,
        ValueView::NoneValue => true,
        ValueView::Tuple(items) => exists|j: int| 0 <= j < items.len() && #[trigger] is_tensor(items[j]),
        _ => false,
    }
}

/// Whether some named value can be an entry of a state dict.
pub open spec fn some_named_entry(items: Seq<(Seq<char>, ValueView)>) -> bool {
    exists|j: int| 0 <= j < items.len() && #[trigger] entry_like(items[j].1)
}

/// Whether some keyed value can be an entry of a state dict.
pub open spec fn some_keyed_entry(items: Seq<(ValueView, ValueView)>) -> bool {
    exists|j: int| 0 <= j < items.len() && #[trigger] entry_like(items[j].1)
}

/// Whether a keyed value of a dict makes it a state dict: it is an entry, or
/// a dict that holds one.
pub open spec fn root_item_like(v: ValueView) -> bool {
    entry_like(v) || match v {
        ValueView::OrderedDict(es) => some_named_entry(es),
        ValueView::Dict(es) => some_keyed_entry(es),
        _ => false,
    }
}

/// Whether a value can be the root of a state dict: a tensor, an ordered dict
/// with an entry, or a dict with an entry or with a dict of entries.
pub open spec fn root_like(v: ValueView) -> bool {
    match v {
        ValueView::Tensor(_) => true,
        ValueView::OrderedDict(items) => some_named_entry(items),
        ValueView::Dict(items) => exists|j: int| 0 <= j < items.len() && #[trigger] root_item_like(
            items[j].1,
        ),
        _ => false,
    }
}

/// The first value on the stack that can be a state dict's root.
pub open spec fn first_root(stack: Seq<ValueView>) -> Option<ValueView> {
    match first_index(stack, |v: ValueView| root_like(v), 0) {
        Some(i) => Some(stack[i]),
        None => None,
    }
}

/// What running a pickle gives: the first value left on the stack that can
/// be a state dict's root.
pub open spec fn spec_execute(data: Seq<u8>) -> Result<Option<ValueView>, ErrorKind> {
    match try_fold_ops(data, 0, machine_start(), machine_fold()) {
        Err(e) => Err(e),
        Ok(m) => Ok(first_root(m.stack)),
    }
}

} // verus!

verus! {

/// The memo that a list of puts makes: a later put of an index wins.
pub open spec fn memo_map(s: Seq<(usize, PickleValue)>) -> Map<usize, ValueView>
    decreases s.len(),
{
    if s.len() == 0 {
        Map::empty()
    } else {
        memo_map(s.drop_last()).insert(s.last().0, s.last().1@)
    }
}

/// The memo holds at `k` the value of the last put of `k`.
pub proof fn lemma_memo_last(s: Seq<(usize, PickleValue)>, k: usize, j: int)
    requires
        0 <= j < s.len(),
        s[j].0 == k,
        forall|l: int| j < l < s.len() ==> (#[trigger] s[l]).0 != k,
    ensures
        memo_map(s).contains_key(k),
        memo_map(s)[k] == s[j].1@,
    decreases s.len(),
{
    if j < s.len() - 1 {
        lemma_memo_last(s.drop_last(), k, j);
    }
}

/// The memo holds nothing at an index that was never put.
pub proof fn lemma_memo_absent(s: Seq<(usize, PickleValue)>, k: usize)
    requires
        forall|l: int| 0 <= l < s.len() ==> (#[trigger] s[l]).0 != k,
    ensures
        !memo_map(s).contains_key(k),
    decreases s.len(),
{
    if s.len() > 0 {
        lemma_memo_absent(s.drop_last(), k);
    }
}

/// The last mark lies on the stack and is a mark.
pub proof fn lemma_last_mark_before(s: Seq<ValueView>, n: int)
    requires
        n <= s.len(),
    ensures
        last_mark_before(s, n) matches Some(k) ==> 0 <= k < n && s[k] is Mark,
    decreases n,
{
    if n > 0 && !(s[n - 1] is Mark) {
        lemma_last_mark_before(s, n - 1);
    }
}

/// A pickle machine: a stack, a memo of the puts made, and the next memo
/// index.
pub struct PickleMachine {
    pub stack: Vec<PickleValue>,
    pub memo: Vec<(usize, PickleValue)>,
    pub next_memo: usize,
}

impl View for PickleMachine {
    type V = MachineView;

    open spec fn view(&self) -> MachineView {
        MachineView {
            stack: stack_view(self.stack@),
            memo: memo_map(self.memo@),
            next_memo: self.next_memo,
        }
    }
}

/// The index of the last mark on the stack.
fn find_mark(stack: &Vec<PickleValue>) -> (r: Option<usize>)
    ensures
        match last_mark(stack_view(stack@)) {
            Some(k) => r matches Some(x) && x == k && 0 <= k < stack@.len(),
            None => r is None,
        },
{
    let ghost view = stack_view(stack@);
    let mut n = stack.len();
    proof {
        lemma_last_mark_before(view, view.len() as int);
    }
    while n > 0
        invariant
            view == stack_view(stack@),
            n <= stack@.len(),
            last_mark_before(view, n as int) == last_mark(view),
        decreases n,
    {
        if let PickleValue::Mark = &stack[n - 1] {
            return Some(n - 1);
        }
        n = n - 1;
    }
    None
}

/// Values taken two by two as key and value.
pub fn pickle_pairs(items: &Vec<PickleValue>) -> (r: Vec<(PickleValue, PickleValue)>)
    ensures
        pairs_view(r@) == spec_pairs(stack_view(items@)),
{
    let ghost view = stack_view(items@);
    let mut pairs: Vec<(PickleValue, PickleValue)> = Vec::new();
    let mut i: usize = 0;
    while i + 1 < items.len()
        invariant
            view == stack_view(items@),
            i % 2 == 0,
            i <= items@.len(),
            pairs@.len() == i / 2,
            forall|j: int|
                0 <= j < pairs@.len() ==> value_view((#[trigger] pairs@[j]).0) == view[2 * j]
                    && value_view(pairs@[j].1) == view[2 * j + 1],
        decreases items@.len() - i,
    {
        let key = copy_value(&items[i]);
        let value = copy_value(&items[i + 1]);
        pairs.push((key, value));
        i = i + 2;
    }
    proof {
        assert(pairs@.len() == items@.len() / 2);
        assert(pairs_view(pairs@) =~= spec_pairs(view));
    }
    pairs
}

/// The pairs whose key is text, with the text as key.
fn text_keyed_pairs(pairs: Vec<(PickleValue, PickleValue)>) -> (r: Vec<(String, PickleValue)>)
    ensures
        named_view(r@) == text_keyed(pairs_view(pairs@)),
{
    let ghost view = pairs_view(pairs@);
    let mut out: Vec<(String, PickleValue)> = Vec::new();
    let mut i: usize = 0;
    proof {
        assert(named_view(out@) =~= text_keyed(view.take(0)));
    }
    while i < pairs.len()
        invariant
            view == pairs_view(pairs@),
            i <= pairs@.len(),
            named_view(out@) == text_keyed(view.take(i as int)),
        decreases pairs@.len() - i,
    {
        proof {
            assert(view.take(i + 1).drop_last() =~= view.take(i as int));
            assert(view[i as int] == (value_view(pairs@[i as int].0), value_view(pairs@[i as int].1)));
        }
        let ghost before = named_view(out@);
        if let PickleValue::Text(k) = &pairs[i].0 {
            let key = copy_string(k);
            let value = copy_value(&pairs[i].1);
            out.push((key, value));
            proof {
                assert(named_view(out@) =~= before.push((k@, value_view(pairs@[i as int].1))));
            }
        }
        i = i + 1;
    }
    proof {
        assert(view.take(pairs@.len() as int) =~= view);
    }
    out
}

} // verus!

verus! {

/// Whether `r` is what the machine step `s` describes for `after`.
pub open spec fn step_result(r: Result<(), ModelError>, s: Result<MachineView, ErrorKind>, after: MachineView) -> bool {
    match s {
        Ok(m) => r is Ok && after == m,
        Err(k) => r == Err::<(), ModelError>(py_error(k)),
    }
}

impl PickleMachine {
    /// Pushes `v`.
    fn push(&mut self, v: PickleValue)
        ensures
            final(self)@ == pushed(old(self)@, v@),
    {
        let ghost before = stack_view(self.stack@);
        self.stack.push(v);
        proof {
            assert(stack_view(self.stack@) =~= before.push(v@));
        }
    }

    /// Pops the top value.
    fn pop(&mut self) -> (r: Option<PickleValue>)
        ensures
            old(self)@.stack.len() == 0 ==> r is None && final(self)@ == old(self)@,
            old(self)@.stack.len() > 0 ==> (r matches Some(v) && v@ == old(self)@.stack.last()
                && final(self)@ == (MachineView { stack: old(self)@.stack.drop_last(), ..old(self)@ })),
    {
        let ghost before = stack_view(self.stack@);
        let r = self.stack.pop();
        proof {
            if before.len() > 0 {
                assert(stack_view(self.stack@) =~= before.drop_last());
            }
        }
        r
    }

    /// The tuple op.
    fn tuple(&mut self) -> (r: Result<(), ModelError>)
        ensures
            step_result(r, spec_tuple(old(self)@), final(self)@),
    {
        let k = match find_mark(&self.stack) {
            Some(k) => k,
            None => return Err(invalid(Format::PyTorch, ErrorKind::Missing)),
        };
        let ghost before = stack_view(self.stack@);
        let _len = self.stack.len();
        let values = self.stack.split_off(k + 1);
        self.stack.pop();
        proof {
            lemma_stack_view_is_items_view(values@);
            assert(stack_view(values@) =~= before.skip(k + 1));
            assert(stack_view(self.stack@) =~= before.take(k as int));
        }
        self.push(PickleValue::Tuple(values));
        Ok(())
    }

    /// The fixed-size tuple op that takes `n` values.
    fn fixed_tuple(&mut self, n: usize) -> (r: Result<(), ModelError>)
        ensures
            step_result(r, spec_fixed_tuple(old(self)@, n as int), final(self)@),
    {
        if self.stack.len() < n {
            return Err(invalid(Format::PyTorch, ErrorKind::Truncated));
        }
        let start = self.stack.len() - n;
        let ghost before = stack_view(self.stack@);
        let values = self.stack.split_off(start);
        proof {
            lemma_stack_view_is_items_view(values@);
            assert(stack_view(values@) =~= before.skip(start as int));
            assert(stack_view(self.stack@) =~= before.take(start as int));
        }
        self.push(PickleValue::Tuple(values));
        Ok(())
    }

    /// The reduce op.
    fn reduce(&mut self) -> (r: Result<(), ModelError>)
        ensures
            step_result(r, spec_reduce(old(self)@), final(self)@),
    {
        if self.stack.len() < 2 {
            return Err(invalid(Format::PyTorch, ErrorKind::Missing));
        }
        let ghost before = self@;
        let args = self.pop().unwrap();
        let callable = self.pop().unwrap();
        proof {
            assert(before.stack.drop_last().drop_last() =~= before.stack.take(before.stack.len() - 2));
        }
        let v = reduce_pickle_value(&callable, args)?;
        self.push(v);
        Ok(())
    }

    /// The persistent id op.
    fn binpersid(&mut self) -> (r: Result<(), ModelError>)
        ensures
            step_result(r, spec_binpersid(old(self)@), final(self)@),
    {
        let pid = match self.pop() {
            Some(pid) => pid,
            None => return Err(invalid(Format::PyTorch, ErrorKind::Missing)),
        };
        let v = storage_from_persistent_id(&pid)?;
        self.push(v);
        Ok(())
    }

    /// The set items op.
    fn set_items(&mut self)
        ensures
            final(self)@ == spec_set_items(old(self)@),
    {
        let k = match find_mark(&self.stack) {
            Some(k) => k,
            None => return,
        };
        if k == 0 {
            return;
        }
        let ghost before = stack_view(self.stack@);
        let _len = self.stack.len();
        let items = self.stack.split_off(k + 1);
        self.stack.pop();
        proof {
            assert(stack_view(items@) =~= before.skip(k + 1));
            assert(stack_view(self.stack@) =~= before.take(k as int));
        }
        let mut pairs = pickle_pairs(&items);
        let container = self.pop().unwrap();
        let updated = match container {
            PickleValue::OrderedDict(existing) => {
                let mut existing = existing;
                let ghost old_view = named_view(existing@);
                let mut keyed = text_keyed_pairs(pairs);
                let ghost added = named_view(keyed@);
                existing.append(&mut keyed);
                proof {
                    assert(named_view(existing@) =~= old_view + added);
                }
                PickleValue::OrderedDict(existing)
            },
            PickleValue::Dict(existing) => {
                let mut existing = existing;
                let ghost old_view = pairs_view(existing@);
                let ghost added = pairs_view(pairs@);
                existing.append(&mut pairs);
                proof {
                    assert(pairs_view(existing@) =~= old_view + added);
                }
                PickleValue::Dict(existing)
            },
            other => other,
        };
        self.push(updated);
        proof {
            let base = before.take(k as int);
            assert(stack_view(self.stack@) =~= base.update(k - 1, updated@));
        }
    }

    /// The set item op.
    fn set_item(&mut self)
        ensures
            final(self)@ == spec_set_item(old(self)@),
    {
        if self.stack.len() < 3 {
            return;
        }
        let ghost before = stack_view(self.stack@);
        let value = self.pop().unwrap();
        let key = self.pop().unwrap();
        let container = self.pop().unwrap();
        let updated = match container {
            PickleValue::OrderedDict(items) => {
                let mut items = items;
                if let PickleValue::Text(k) = key {
                    let ghost old_view = named_view(items@);
                    items.push((k, value));
                    proof {
                        assert(named_view(items@) =~= old_view.push((k@, value@)));
                    }
                }
                PickleValue::OrderedDict(items)
            },
            PickleValue::Dict(items) => {
                let mut items = items;
                let ghost old_view = pairs_view(items@);
                let ghost kv = (key@, value@);
                items.push((key, value));
                proof {
                    assert(pairs_view(items@) =~= old_view.push(kv));
                }
                PickleValue::Dict(items)
            },
            other => other,
        };
        proof {
            assert(before.drop_last().drop_last().drop_last() =~= before.take(before.len() - 3));
        }
        self.push(updated);
    }

    /// The appends op.
    fn appends(&mut self)
        ensures
            final(self)@ == spec_appends(old(self)@),
    {
        let k = match find_mark(&self.stack) {
            Some(k) => k,
            None => return,
        };
        if k == 0 {
            return;
        }
        let ghost before = stack_view(self.stack@);
        let _len = self.stack.len();
        let mut items = self.stack.split_off(k + 1);
        self.stack.pop();
        proof {
            lemma_stack_view_is_items_view(items@);
            assert(stack_view(items@) =~= before.skip(k + 1));
            assert(stack_view(self.stack@) =~= before.take(k as int));
        }
        let container = self.pop().unwrap();
        let updated = match container {
            PickleValue::List(existing) => {
                let mut existing = existing;
                let ghost old_view = items_view(existing@);
                let ghost added = items_view(items@);
                existing.append(&mut items);
                proof {
                    assert(items_view(existing@) =~= old_view + added);
                }
                PickleValue::List(existing)
            },
            other => other,
        };
        self.push(updated);
        proof {
            let base = before.take(k as int);
            assert(stack_view(self.stack@) =~= base.update(k - 1, updated@));
        }
    }

    /// The build op.
    fn build(&mut self) -> (r: Result<(), ModelError>)
        ensures
            step_result(r, spec_build(old(self)@), final(self)@),
    {
        let state = match self.pop() {
            Some(s) => s,
            None => return Err(invalid(Format::PyTorch, ErrorKind::Missing)),
        };
        if self.stack.len() > 0 {
            let target = self.pop().unwrap();
            let built = build_pickle_value(target, &state)?;
            self.push(built);
        }
        Ok(())
    }

    /// The stack global op.
    fn stack_global(&mut self)
        ensures
            final(self)@ == spec_stack_global(old(self)@),
    {
        let name = self.pop();
        match name {
            Some(PickleValue::Text(name)) => {
                let module = self.pop();
                match module {
                    Some(PickleValue::Text(module)) => {
                        let mut global = module;
                        global.append(".");
                        global.append(name.as_str());
                        self.push(PickleValue::Global(global));
                    },
                    _ => self.push(PickleValue::Other),
                }
            },
            _ => self.push(PickleValue::Other),
        }
    }

    /// The value put in the memo at `index`, or `Other`.
    fn memo_get(&self, index: usize) -> (r: PickleValue)
        ensures
            r@ == (if self@.memo.contains_key(index) {
                self@.memo[index]
            } else {
                ValueView::Other
            }),
    {
        let mut i = self.memo.len();
        while i > 0
            invariant
                i <= self.memo@.len(),
                forall|l: int| i <= l < self.memo@.len() ==> (#[trigger] self.memo@[l]).0 != index,
            decreases i,
        {
            i = i - 1;
            if self.memo[i].0 == index {
                proof {
                    lemma_memo_last(self.memo@, index, i as int);
                }
                return copy_value(&self.memo[i].1);
            }
        }
        proof {
            lemma_memo_absent(self.memo@, index);
        }
        PickleValue::Other
    }

    /// Puts a copy of the top value in the memo at `index`.
    fn memo_put(&mut self, index: usize)
        requires
            old(self)@.stack.len() > 0,
        ensures
            final(self)@ == (MachineView {
                memo: old(self)@.memo.insert(index, old(self)@.stack.last()),
                ..old(self)@
            }),
    {
        let top = copy_value(&self.stack[self.stack.len() - 1]);
        let ghost before = self.memo@;
        self.memo.push((index, top));
        proof {
            assert(self.memo@.drop_last() =~= before);
        }
    }

    /// Applies one op.
    pub fn apply(&mut self, op: PickleOp) -> (r: Result<(), ModelError>)
        ensures
            step_result(r, machine_step(old(self)@, op@), final(self)@),
    {
        match op {
            PickleOp::Appends => {
                self.appends();
                Ok(())
            },
            PickleOp::BinPersid => self.binpersid(),
            PickleOp::Bool => {
                self.push(PickleValue::Other);
                Ok(())
            },
            PickleOp::Build => self.build(),
            PickleOp::Bytes(_) => {
                self.push(PickleValue::Other);
                Ok(())
            },
            PickleOp::EmptyDict => {
                let empty: Vec<(PickleValue, PickleValue)> = Vec::new();
                proof {
                    assert(pairs_view(empty@) =~= Seq::<(ValueView, ValueView)>::empty());
                }
                self.push(PickleValue::Dict(empty));
                Ok(())
            },
            PickleOp::EmptyList => {
                let empty: Vec<PickleValue> = Vec::new();
                proof {
                    assert(items_view(empty@) =~= Seq::<ValueView>::empty());
                }
                self.push(PickleValue::List(empty));
                Ok(())
            },
            PickleOp::EmptyTuple => {
                let empty: Vec<PickleValue> = Vec::new();
                proof {
                    assert(items_view(empty@) =~= Seq::<ValueView>::empty());
                }
                self.push(PickleValue::Tuple(empty));
                Ok(())
            },
            PickleOp::Get(index) => {
                let v = self.memo_get(index);
                self.push(v);
                Ok(())
            },
            PickleOp::Global(name) => {
                self.push(PickleValue::Global(name));
                Ok(())
            },
            PickleOp::Int(v) => {
                self.push(PickleValue::Int(v));
                Ok(())
            },
            PickleOp::Mark => {
                self.push(PickleValue::Mark);
                Ok(())
            },
            PickleOp::Memoize => {
                if self.stack.len() > 0 {
                    let index = self.next_memo;
                    self.memo_put(index);
                    self.next_memo = self.next_memo.saturating_add(1);
                }
                Ok(())
            },
            PickleOp::NoneValue => {
                self.push(PickleValue::NoneValue);
                Ok(())
            },
            PickleOp::Put(index) => {
                if self.stack.len() > 0 {
                    self.memo_put(index);
                    let next = index.saturating_add(1);
                    if self.next_memo < next {
                        self.next_memo = next;
                    }
                }
                Ok(())
            },
            PickleOp::Reduce => self.reduce(),
            PickleOp::SetItem => {
                self.set_item();
                Ok(())
            },
            PickleOp::SetItems => {
                self.set_items();
                Ok(())
            },
            PickleOp::StackGlobal => {
                self.stack_global();
                Ok(())
            },
            PickleOp::Text(s) => {
                self.push(PickleValue::Text(s));
                Ok(())
            },
            PickleOp::Tuple => self.tuple(),
            PickleOp::Tuple1 => self.fixed_tuple(1),
            PickleOp::Tuple2 => self.fixed_tuple(2),
            PickleOp::Tuple3 => self.fixed_tuple(3),
        }
    }
}

} // verus!

verus! {

// ---------------------------------------------------------------------------
// Running a pickle

/// Whether a value can be an entry of a state dict.
fn entry_like_exec(v: &PickleValue) -> (r: bool)
    ensures
        r == entry_like(v@),
{
    match v {
        PickleValue::Tensor(t) => {
            proof {
                assert(v@ == ValueView::Tensor(t@));
                assert(entry_like(v@));
            }
            true
        },
        PickleValue::NoneValue => {
            proof {
                assert(entry_like(v@));
            }
            true
        },
        PickleValue::Tuple(items) => {
            proof {
                assert(v@ == ValueView::Tuple(items_view(items@)));
            }
            let r = holds_tensor(items);
            proof {
                assert(r == entry_like(v@));
            }
            r
        },
        _ => {
            proof {
                assert(!entry_like(v@));
            }
            false
        },
    }
}

/// Whether some named value can be an entry of a state dict.
fn some_named_entry_exec(items: &Vec<(String, PickleValue)>) -> (r: bool)
    ensures
        r == some_named_entry(named_view(items@)),
{
    let ghost view = named_view(items@);
    let mut i: usize = 0;
    while i < items.len()
        invariant
            view == named_view(items@),
            i <= items@.len(),
            forall|k: int| 0 <= k < i ==> !entry_like(#[trigger] view[k].1),
        decreases items@.len() - i,
    {
        proof {
            assert(view[i as int].1 == value_view(items@[i as int].1));
        }
        if entry_like_exec(&items[i].1) {
            return true;
        }
        i = i + 1;
    }
    false
}

/// Whether some keyed value can be an entry of a state dict.
fn some_keyed_entry_exec(items: &Vec<(PickleValue, PickleValue)>) -> (r: bool)
    ensures
        r == some_keyed_entry(pairs_view(items@)),
{
    let ghost view = pairs_view(items@);
    let mut i: usize = 0;
    while i < items.len()
        invariant
            view == pairs_view(items@),
            i <= items@.len(),
            forall|k: int| 0 <= k < i ==> !entry_like(#[trigger] view[k].1),
        decreases items@.len() - i,
    {
        proof {
            assert(view[i as int].1 == value_view(items@[i as int].1));
        }
        if entry_like_exec(&items[i].1) {
            return true;
        }
        i = i + 1;
    }
    false
}

/// Whether a keyed value of a dict makes it a state dict.
fn root_item_like_exec(v: &PickleValue) -> (r: bool)
    ensures
        r == root_item_like(v@),
{
    if entry_like_exec(v) {
        return true;
    }
    match v {
        PickleValue::OrderedDict(es) => some_named_entry_exec(es),
        PickleValue::Dict(es) => some_keyed_entry_exec(es),
        _ => false,
    }
}

/// A dict with an item that makes it a state dict can be one's root.
proof fn lemma_root_like_dict(view: Seq<(ValueView, ValueView)>, j: int)
    requires
        0 <= j < view.len(),
        root_item_like(view[j].1),
    ensures
        root_like(ValueView::Dict(view)),
{
    let v = ValueView::Dict(view);
    assert(v->Dict_0 == view);
}

/// Whether a value can be the root of a state dict.
fn root_like_exec(v: &PickleValue) -> (r: bool)
    ensures
        r == root_like(v@),
{
    match v {
        PickleValue::Tensor(_) => true,
        PickleValue::OrderedDict(items) => some_named_entry_exec(items),
        PickleValue::Dict(items) => {
            let ghost view = pairs_view(items@);
            proof {
                assert(v@ == ValueView::Dict(view));
            }
            let mut i: usize = 0;
            while i < items.len()
                invariant
                    view == pairs_view(items@),
                    v@ == ValueView::Dict(view),
                    i <= items@.len(),
                    forall|k: int| 0 <= k < i ==> !root_item_like(#[trigger] view[k].1),
                decreases items@.len() - i,
            {
                proof {
                    assert(view[i as int].1 == value_view(items@[i as int].1));
                }
                if root_item_like_exec(&items[i].1) {
                    proof {
                        lemma_root_like_dict(view, i as int);
                    }
                    return true;
                }
                i = i + 1;
            }
            false
        },
        _ => false,
    }
}

impl PickleMachine {
    /// Takes the first value on the stack that can be a state dict's root.
    fn take_root(self) -> (r: Option<PickleValue>)
        ensures
            match first_root(self@.stack) {
                Some(v) => r matches Some(x) && x@ == v,
                None => r is None,
            },
    {
        let ghost view = self@.stack;
        let mut items = self.stack;
        let ghost n = items@.len();
        let _len = items.len();
        let mut i: usize = 0;
        while items.len() > 0
            invariant
                i + items@.len() == n,
                n <= usize::MAX,
                n == view.len(),
                view == self@.stack,
                forall|k: int| 0 <= k < items@.len() ==> value_view(#[trigger] items@[k]) == view[i + k],
                forall|k: int| 0 <= k < i ==> !root_like(#[trigger] view[k]),
            decreases items@.len(),
        {
            let v = items.remove(0);
            proof {
                assert(value_view(v) == view[i as int]);
            }
            if root_like_exec(&v) {
                proof {
                    assert(root_like(view[i as int]));
                    lemma_first_index(view, |v: ValueView| root_like(v), 0, i as int);
                }
                return Some(v);
            }
            i = i + 1;
            proof {
                assert forall|k: int| 0 <= k < items@.len() implies value_view(#[trigger] items@[k])
                    == view[i + k] by {
                    assert(value_view(items@[k]) == view[(i - 1) + (k + 1)]);
                }
            }
        }
        proof {
            lemma_first_index(view, |v: ValueView| root_like(v), 0, n as int);
        }
        None
    }

    /// Runs a pickle and gives the first value left on the stack that can be
    /// a state dict's root.
    pub fn execute(data: &[u8]) -> (r: Result<Option<PickleValue>, ModelError>)
        ensures
            match spec_execute(data@) {
                Ok(None) => r matches Ok(None),
                Ok(Some(v)) => r matches Ok(Some(x)) && x@ == v,
                Err(k) => r matches Err(e) && e == py_error(k),
            },
    {
        let mut machine = PickleMachine { stack: Vec::new(), memo: Vec::new(), next_memo: 0 };
        proof {
            assert(stack_view(machine.stack@) =~= Seq::<ValueView>::empty());
            assert(memo_map(machine.memo@) =~= Map::<usize, ValueView>::empty());
            assert(machine@ =~= machine_start());
        }
        let mut cursor = PickleCursor::new(data);
        loop
            invariant
                cursor.data == data,
                cursor.offset <= data@.len(),
                try_fold_ops(data@, cursor.offset as int, machine@, machine_fold()) == try_fold_ops(
                    data@,
                    0,
                    machine_start(),
                    machine_fold(),
                ),
            decreases data@.len() - cursor.offset,
        {
            proof {
                lemma_next_op_advances(data@, cursor.offset as int);
            }
            match cursor.next()? {
                None => return Ok(machine.take_root()),
                Some(op) => {
                    machine.apply(op)?;
                },
            }
        }
    }
}

} // verus!
