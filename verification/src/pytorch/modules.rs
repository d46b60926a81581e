//! The module that a pickled model names, and the submodules it holds.
use vstd::prelude::*;
use vstd::string::StringExecFns;
use vstd::string::StringSliceAdditionalSpecFns;
use std::collections::HashMap;
use crate::error::ModelError;
use crate::onnx::slice_range;
use crate::pytorch::py_error;
use crate::pytorch::pickle::{
    PickleOp, PickleOpView, next_global, op_views, pickle_ops, spec_next_global, spec_pickle_ops,
};
use crate::text::{contains_bytes, has_prefix, spec_contains_bytes, str_eq, str_starts_with};

verus! {

broadcast use vstd::std_specs::hash::group_hash_axioms;

/// How a zip dict archive's node takes its inputs.
pub struct PytorchZipDictInputSpec {
    pub leading_null_inputs: usize,
    pub anonymous_values: usize,
    pub null_inputs: usize,
}

/// The input layout of a zip dict archive, told by the names its pickle
/// holds.
pub open spec fn spec_zip_dict_input_spec(data: Seq<u8>) -> (usize, usize, usize) {
    if spec_contains_bytes(data, "network_weights".spec_bytes()) {
        (0, 0, 2)
    } else if spec_contains_bytes(data, "last_optimizer_state".spec_bytes()) {
        (0, 1, 0)
    } else if spec_contains_bytes(data, "module".spec_bytes()) && spec_contains_bytes(
        data,
        "optimizer".spec_bytes(),
    ) && spec_contains_bytes(data, "param_shapes".spec_bytes()) {
        (1, 2, 0)
    } else if spec_contains_bytes(data, "first_conv".spec_bytes()) && spec_contains_bytes(
        data,
        "blocks".spec_bytes(),
    ) {
        (0, 14, 0)
    } else {
        (0, 0, 0)
    }
}

/// Chooses the input layout of a zip dict archive.
pub fn pytorch_zip_dict_input_spec(data: &[u8]) -> (r: PytorchZipDictInputSpec)
    ensures
        (r.leading_null_inputs, r.anonymous_values, r.null_inputs) == spec_zip_dict_input_spec(data@),
{
    if contains_bytes(data, "network_weights".as_bytes()) {
        PytorchZipDictInputSpec { leading_null_inputs: 0, anonymous_values: 0, null_inputs: 2 }
    } else if contains_bytes(data, "last_optimizer_state".as_bytes()) {
        PytorchZipDictInputSpec { leading_null_inputs: 0, anonymous_values: 1, null_inputs: 0 }
    } else if contains_bytes(data, "module".as_bytes()) && contains_bytes(
        data,
        "optimizer".as_bytes(),
    ) && contains_bytes(data, "param_shapes".as_bytes()) {
        PytorchZipDictInputSpec { leading_null_inputs: 1, anonymous_values: 2, null_inputs: 0 }
    } else if contains_bytes(data, "first_conv".as_bytes()) && contains_bytes(
        data,
        "blocks".as_bytes(),
    ) {
        PytorchZipDictInputSpec { leading_null_inputs: 0, anonymous_values: 14, null_inputs: 0 }
    } else {
        PytorchZipDictInputSpec { leading_null_inputs: 0, anonymous_values: 0, null_inputs: 0 }
    }
}

// ---------------------------------------------------------------------------
// The pickled module

/// A module: the operator that builds it and the names of its inputs.
pub struct DataPickle {
    pub operator: String,
    pub inputs: Vec<String>,
}

pub struct DataPickleView {
    pub operator: Seq<char>,
    pub inputs: Seq<Seq<char>>,
}

/// The characters of each string.
pub open spec fn string_views(v: Seq<String>) -> Seq<Seq<char>> {
    v.map_values(|s: String| s@)
}

impl View for DataPickle {
    type V = DataPickleView;

    open spec fn view(&self) -> DataPickleView {
        DataPickleView { operator: self.operator@, inputs: string_views(self.inputs@) }
    }
}

/// The owned strings of `names`.
fn owned_strings(names: &[&str]) -> (r: Vec<String>)
    ensures
        string_views(r@) == names@.map_values(|s: &str| s@),
{
    let mut result: Vec<String> = Vec::new();
    let mut i: usize = 0;
    while i < names.len()
        invariant
            i <= names@.len(),
            string_views(result@) == names@.take(i as int).map_values(|s: &str| s@),
        decreases names@.len() - i,
    {
        let ghost before = result@;
        result.push(String::from_str(names[i]));
        proof {
            assert(string_views(result@) =~= string_views(before).push(names@[i as int]@));
            assert(names@.take(i + 1).map_values(|s: &str| s@) =~= names@.take(i as int).map_values(
                |s: &str| s@,
            ).push(names@[i as int]@));
        }
        i = i + 1;
    }
    proof {
        assert(names@.take(names@.len() as int) =~= names@);
    }
    result
}

/// The sequence-to-sequence transducer's module, when the data names all of
/// its parts.
pub open spec fn transducer_inputs() -> Seq<Seq<char>> {
    seq!["encoder"@, "decoder"@, "joiner"@, "simple_am_proj"@, "simple_lm_proj"@, "ctc_output"@]
}

/// The transducer module, when every one of its parts is named in `data`.
pub open spec fn spec_transducer(data: Seq<u8>) -> Option<DataPickleView> {
    if spec_contains_bytes(data, "encoder".spec_bytes()) && spec_contains_bytes(
        data,
        "decoder".spec_bytes(),
    ) && spec_contains_bytes(data, "joiner".spec_bytes()) && spec_contains_bytes(
        data,
        "simple_am_proj".spec_bytes(),
    ) && spec_contains_bytes(data, "simple_lm_proj".spec_bytes()) && spec_contains_bytes(
        data,
        "ctc_output".spec_bytes(),
    ) {
        Some(DataPickleView { operator: "__torch__.model.Transducer"@, inputs: transducer_inputs() })
    } else {
        None
    }
}

/// Recognizes a transducer model by the names of its parts.
pub fn transducer_data_pickle(data: &[u8]) -> (r: Option<DataPickle>)
    ensures
        match spec_transducer(data@) {
            Some(v) => r matches Some(p) && p@ == v,
            None => r is None,
        },
{
    let names: [&str; 6] = [
        "encoder",
        "decoder",
        "joiner",
        "simple_am_proj",
        "simple_lm_proj",
        "ctc_output",
    ];
    if contains_bytes(data, "encoder".as_bytes()) && contains_bytes(data, "decoder".as_bytes())
        && contains_bytes(data, "joiner".as_bytes()) && contains_bytes(
        data,
        "simple_am_proj".as_bytes(),
    ) && contains_bytes(data, "simple_lm_proj".as_bytes()) && contains_bytes(
        data,
        "ctc_output".as_bytes(),
    ) {
        let inputs = owned_strings(&names);
        proof {
            assert(names@.map_values(|s: &str| s@) =~= transducer_inputs());
        }
        Some(DataPickle { operator: String::from_str("__torch__.model.Transducer"), inputs })
    } else {
        None
    }
}

impl DataPickle {
    /// A module built by `operator`, with no inputs.
    pub fn from_operator(operator: String) -> (r: Self)
        ensures
            r@ == (DataPickleView { operator: operator@, inputs: Seq::empty() }),
    {
        let r = DataPickle { operator, inputs: Vec::new() };
        proof {
            assert(string_views(r.inputs@) =~= Seq::<Seq<char>>::empty());
        }
        r
    }
}

/// Whether a global names a PyTorch module.
pub open spec fn spec_is_pytorch_operator(name: Seq<char>) -> bool {
    has_prefix(name, "__torch__."@) || has_prefix(name, "torch."@) || has_prefix(
        name,
        "torchvision."@,
    ) || has_prefix(name, "fastai."@) || has_prefix(name, "models."@)
}

/// Whether a global names a PyTorch module.
pub fn is_pytorch_pickle_operator(name: &str) -> (r: bool)
    ensures
        r == spec_is_pytorch_operator(name@),
{
    str_starts_with(name, "__torch__.") || str_starts_with(name, "torch.") || str_starts_with(
        name,
        "torchvision.",
    ) || str_starts_with(name, "fastai.") || str_starts_with(name, "models.")
}

// ---------------------------------------------------------------------------
// Submodule names

/// The index of the first `_modules` string op.
pub open spec fn spec_modules_index(ops: Seq<PickleOpView>, start: int) -> Option<int>
    decreases ops.len() - start,
{
    if start < 0 || start >= ops.len() {
        None
    } else if ops[start] == PickleOpView::Text("_modules"@) {
        Some(start)
    } else {
        spec_modules_index(ops, start + 1)
    }
}

/// What the scan for submodule names knows after some ops.
pub struct ModuleScan {
    /// The names found so far.
    pub inputs: Seq<Seq<char>>,
    /// Whether the mark that opens the submodules was seen.
    pub in_modules: bool,
    /// How many marks inside the submodules are still open.
    pub nested_marks: nat,
    /// The strings memoized so far.
    pub memo: Map<usize, Seq<char>>,
    /// The index of the next memoized value.
    pub next_memo: usize,
    /// The string on top of the stack, if the last op left one there.
    pub top: Option<Seq<char>>,
    /// Whether the submodules' items ended.
    pub done: bool,
}

/// `a + 1`, held at `usize::MAX`.
pub open spec fn saturating_succ(a: usize) -> usize {
    if a == usize::MAX {
        a
    } else {
        (a + 1) as usize
    }
}

/// The memo with `top` stored at `index`, when there is a top string.
pub open spec fn memo_store(memo: Map<usize, Seq<char>>, index: usize, top: Option<Seq<char>>) -> Map<
    usize,
    Seq<char>,
> {
    match top {
        Some(v) => memo.insert(index, v),
        None => memo,
    }
}

/// The scan after op `index`: strings, memo gets and puts track the string
/// on top of the stack; past the `_modules` string, the first mark opens the
/// submodules, whose top-level strings (or memoized strings) are their names,
/// until the `SETITEMS` that closes them.
pub open spec fn module_step(s: ModuleScan, index: int, op: PickleOpView, modules_index: int) -> ModuleScan {
    if s.done {
        s
    } else {
        match op {
            PickleOpView::Put(i) => ModuleScan {
                memo: memo_store(s.memo, i, s.top),
                next_memo: if s.next_memo >= saturating_succ(i) {
                    s.next_memo
                } else {
                    saturating_succ(i)
                },
                ..s
            },
            PickleOpView::Memoize => ModuleScan {
                memo: memo_store(s.memo, s.next_memo, s.top),
                next_memo: saturating_succ(s.next_memo),
                ..s
            },
            _ => {
                let top = match op {
                    PickleOpView::Text(v) => Some(v),
                    PickleOpView::Get(i) => if s.memo.contains_key(i) {
                        Some(s.memo[i])
                    } else {
                        None
                    },
                    _ => None,
                };
                let s = ModuleScan { top, ..s };
                if index <= modules_index {
                    s
                } else {
                    match op {
                        PickleOpView::Mark => if s.in_modules {
                            ModuleScan { nested_marks: s.nested_marks + 1, ..s }
                        } else {
                            ModuleScan { in_modules: true, ..s }
                        },
                        PickleOpView::Tuple | PickleOpView::SetItems | PickleOpView::Appends => if !s.in_modules {
                            s
                        } else if s.nested_marks == 0 {
                            if op is SetItems {
                                ModuleScan { done: true, ..s }
                            } else {
                                s
                            }
                        } else {
                            ModuleScan { nested_marks: (s.nested_marks - 1) as nat, ..s }
                        },
                        PickleOpView::Text(v) => if s.in_modules && s.nested_marks == 0 {
                            ModuleScan { inputs: s.inputs.push(v), ..s }
                        } else {
                            s
                        },
                        PickleOpView::Get(i) => if s.in_modules && s.nested_marks == 0
                            && s.memo.contains_key(i) {
                            ModuleScan { inputs: s.inputs.push(s.memo[i]), ..s }
                        } else {
                            s
                        },
                        _ => s,
                    }
                }
            },
        }
    }
}

/// The scan after the first `n` ops.
pub open spec fn module_scan(ops: Seq<PickleOpView>, modules_index: int, n: nat) -> ModuleScan
    decreases n,
{
    if n == 0 || n > ops.len() {
        ModuleScan {
            inputs: Seq::empty(),
            in_modules: false,
            nested_marks: 0,
            memo: Map::empty(),
            next_memo: 0,
            top: None,
            done: false,
        }
    } else {
        module_step(module_scan(ops, modules_index, (n - 1) as nat), n - 1, ops[n - 1], modules_index)
    }
}

/// The names of the submodules that the ops of a module hold.
pub open spec fn spec_module_inputs(ops: Seq<PickleOpView>) -> Seq<Seq<char>> {
    match spec_modules_index(ops, 0) {
        None => Seq::empty(),
        Some(m) => module_scan(ops, m, ops.len()).inputs,
    }
}

/// The characters of each memoized string.
pub open spec fn memo_view(memo: Map<usize, String>) -> Map<usize, Seq<char>> {
    memo.map_values(|s: String| s@)
}

/// Stores a copy of `top` at `index`, when there is one.
fn memo_put(memo: &mut HashMap<usize, String>, index: usize, top: &Option<String>)
    ensures
        memo_view(final(memo)@) == memo_store(memo_view(old(memo)@), index, opt_view(*top)),
{
    if let Some(v) = top {
        memo.insert(index, v.clone());
        proof {
            assert(memo_view(memo@) =~= memo_view(old(memo)@).insert(index, v@));
        }
    }
}

/// The characters of an optional string.
pub open spec fn opt_view(s: Option<String>) -> Option<Seq<char>> {
    match s {
        Some(x) => Some(x@),
        None => None,
    }
}

/// A copy of the memoized string at `index`.
fn memo_get(memo: &HashMap<usize, String>, index: usize) -> (r: Option<String>)
    ensures
        opt_view(r) == (if memo_view(memo@).contains_key(index) {
            Some(memo_view(memo@)[index])
        } else {
            None
        }),
{
    match memo.get(&index) {
        Some(v) => Some(v.clone()),
        None => None,
    }
}

/// Finds the names of the submodules in the ops that follow a module's
/// global.
pub fn pickle_module_inputs(ops: &[PickleOp]) -> (r: Vec<String>)
    ensures
        string_views(r@) == spec_module_inputs(op_views(ops@)),
{
    let ghost views = op_views(ops@);
    let mut modules_index: usize = 0;
    loop
        invariant
            views == op_views(ops@),
            modules_index <= ops@.len(),
            spec_modules_index(views, modules_index as int) == spec_modules_index(views, 0),
        ensures
            spec_modules_index(views, 0) == Some(modules_index as int),
        decreases ops@.len() - modules_index,
    {
        if modules_index >= ops.len() {
            return Vec::new();
        }
        let found = match &ops[modules_index] {
            PickleOp::Text(value) => str_eq(value.as_str(), "_modules"),
            _ => false,
        };
        if found {
            break;
        }
        modules_index = modules_index + 1;
    }
    let mut inputs: Vec<String> = Vec::new();
    let mut in_modules = false;
    let mut nested_marks: usize = 0;
    let mut memo: HashMap<usize, String> = HashMap::new();
    let mut next_memo: usize = 0;
    let mut top: Option<String> = None;
    let mut index: usize = 0;
    proof {
        assert(string_views(inputs@) =~= Seq::<Seq<char>>::empty());
        assert(memo_view(memo@) =~= Map::<usize, Seq<char>>::empty());
    }
    while index < ops.len()
        invariant_except_break
            !module_scan(views, modules_index as int, index as nat).done,
        invariant
            views == op_views(ops@),
            spec_modules_index(views, 0) == Some(modules_index as int),
            index <= ops@.len(),
            nested_marks <= index,
            ({
                let s = module_scan(views, modules_index as int, index as nat);
                &&& s.inputs == string_views(inputs@)
                &&& s.in_modules == in_modules
                &&& s.nested_marks == nested_marks
                &&& s.memo == memo_view(memo@)
                &&& s.next_memo == next_memo
                &&& s.top == opt_view(top)
            }),
        ensures
            module_scan(views, modules_index as int, index as nat).done || index == ops@.len(),
        decreases ops@.len() - index,
    {
        let op = &ops[index];
        let ghost before = inputs@;
        index = index + 1;
        match op {
            PickleOp::Put(i) => {
                memo_put(&mut memo, *i, &top);
                let succ = i.saturating_add(1);
                if next_memo < succ {
                    next_memo = succ;
                }
                continue;
            },
            PickleOp::Memoize => {
                memo_put(&mut memo, next_memo, &top);
                next_memo = next_memo.saturating_add(1);
                continue;
            },
            PickleOp::Text(value) => {
                top = Some(value.clone());
            },
            PickleOp::Get(i) => {
                top = memo_get(&memo, *i);
            },
            _ => {
                top = None;
            },
        }
        if index - 1 <= modules_index {
            continue;
        }
        match op {
            PickleOp::Mark => {
                if in_modules {
                    nested_marks = nested_marks + 1;
                } else {
                    in_modules = true;
                }
            },
            PickleOp::Tuple | PickleOp::SetItems | PickleOp::Appends => {
                if in_modules {
                    if nested_marks == 0 {
                        if let PickleOp::SetItems = op {
                            break;
                        }
                    } else {
                        nested_marks = nested_marks - 1;
                    }
                }
            },
            PickleOp::Text(value) => {
                if in_modules && nested_marks == 0 {
                    inputs.push(value.clone());
                    proof {
                        assert(string_views(inputs@) =~= string_views(before).push(value@));
                    }
                }
            },
            PickleOp::Get(i) => {
                if in_modules && nested_marks == 0 {
                    if let Some(v) = memo_get(&memo, *i) {
                        inputs.push(v);
                        proof {
                            assert(string_views(inputs@) =~= string_views(before).push(v@));
                        }
                    }
                }
            },
            _ => {},
        }
    }
    proof {
        lemma_module_scan_done(views, modules_index as int, index as nat);
    }
    inputs
}

/// Once the scan is done, later ops change nothing.
proof fn lemma_module_scan_done(ops: Seq<PickleOpView>, modules_index: int, n: nat)
    requires
        n <= ops.len(),
        module_scan(ops, modules_index, n).done || n == ops.len(),
    ensures
        module_scan(ops, modules_index, ops.len()) == module_scan(ops, modules_index, n),
    decreases ops.len() - n,
{
    if n < ops.len() {
        lemma_module_scan_done_from(ops, modules_index, n, ops.len());
    }
}

proof fn lemma_module_scan_done_from(ops: Seq<PickleOpView>, modules_index: int, n: nat, m: nat)
    requires
        n <= m <= ops.len(),
        module_scan(ops, modules_index, n).done,
    ensures
        module_scan(ops, modules_index, m) == module_scan(ops, modules_index, n),
    decreases m - n,
{
    if n < m {
        lemma_module_scan_done_from(ops, modules_index, n, (m - 1) as nat);
    }
}

// ---------------------------------------------------------------------------
// Reading the module

/// The first `model` string op at or after `start` that a PyTorch global
/// follows: the index and the name of that global.
pub open spec fn spec_model_root(ops: Seq<PickleOpView>, start: int) -> Option<(int, Seq<char>)>
    decreases ops.len() - start,
{
    if start < 0 || start >= ops.len() {
        None
    } else if ops[start] == PickleOpView::Text("model"@) && (spec_next_global(ops, start + 1) matches Some(
        (_, name),
    ) && spec_is_pytorch_operator(name)) {
        spec_next_global(ops, start + 1)
    } else {
        spec_model_root(ops, start + 1)
    }
}

/// The module of a pickle's ops: the first global when it names a PyTorch
/// module, or the PyTorch global that follows a `model` string; with the
/// submodule names that follow that global.
pub open spec fn spec_data_pickle_of(ops: Seq<PickleOpView>) -> Option<DataPickleView> {
    match spec_next_global(ops, 0) {
        None => None,
        Some((first_index, first)) => if !spec_is_pytorch_operator(first) {
            None
        } else {
            let (root, operator) = match spec_model_root(ops, 0) {
                Some((i, name)) => (i, name),
                None => (first_index, first),
            };
            Some(
                DataPickleView {
                    operator,
                    inputs: spec_module_inputs(ops.subrange(root + 1, ops.len() as int)),
                },
            )
        },
    }
}

proof fn lemma_next_global_bounds(ops: Seq<PickleOpView>, start: int)
    requires
        0 <= start,
    ensures
        spec_next_global(ops, start) matches Some((i, name)) ==> start <= i < ops.len() && ops[i]
            == PickleOpView::Global(name),
    decreases ops.len() - start,
{
    if 0 <= start < ops.len() && !(ops[start] is Global) {
        lemma_next_global_bounds(ops, start + 1);
    }
}

proof fn lemma_model_root_bounds(ops: Seq<PickleOpView>, start: int)
    requires
        0 <= start,
    ensures
        spec_model_root(ops, start) matches Some((i, name)) ==> start < i < ops.len(),
    decreases ops.len() - start,
{
    if 0 <= start < ops.len() {
        lemma_next_global_bounds(ops, start + 1);
        lemma_model_root_bounds(ops, start + 1);
    }
}

/// The slice of `ops` from `start` on.
fn ops_from(ops: &Vec<PickleOp>, start: usize) -> (r: &[PickleOp])
    requires
        start <= ops@.len(),
    ensures
        r@ == ops@.subrange(start as int, ops@.len() as int),
{
    vstd::slice::slice_subrange(ops.as_slice(), start, ops.len())
}

impl DataPickle {
    /// Reads the module that a pickle builds.
    pub fn read(data: &[u8]) -> (r: Result<Option<Self>, ModelError>)
        ensures
            match spec_pickle_ops(data@, 0) {
                Err(k) => r matches Err(e) && e == py_error(k),
                Ok(ops) => match spec_data_pickle_of(ops) {
                    Some(v) => r matches Ok(Some(p)) && p@ == v,
                    None => r matches Ok(None),
                },
            },
    {
        let ops = pickle_ops(data)?;
        let ghost views = op_views(ops@);
        let (first_index, first) = match next_global(ops.as_slice(), 0) {
            Some(found) => found,
            None => return Ok(None),
        };
        if !is_pytorch_pickle_operator(first) {
            return Ok(None);
        }
        proof {
            lemma_next_global_bounds(views, 0);
        }
        let mut root_index = first_index;
        let mut operator = first;
        let mut index: usize = 0;
        while index < ops.len()
            invariant
                views == op_views(ops@),
                index <= ops@.len(),
                root_index < ops@.len(),
                spec_model_root(views, index as int) == spec_model_root(views, 0),
                spec_model_root(views, 0) is None ==> root_index == first_index && operator@ == first@,
            ensures
                match spec_model_root(views, 0) {
                    Some((i, name)) => root_index == i && operator@ == name,
                    None => root_index == first_index && operator@ == first@,
                },
            decreases ops@.len() - index,
        {
            let is_model = match &ops[index] {
                PickleOp::Text(value) => str_eq(value.as_str(), "model"),
                _ => false,
            };
            if is_model {
                proof {
                    lemma_next_global_bounds(views, index + 1);
                }
                if let Some((model_index, model_operator)) = next_global(ops.as_slice(), index + 1) {
                    if is_pytorch_pickle_operator(model_operator) {
                        root_index = model_index;
                        operator = model_operator;
                        break;
                    }
                }
            }
            index = index + 1;
        }
        let operator = String::from_str(operator);
        let inputs = pickle_module_inputs(ops_from(&ops, root_index + 1));
        proof {
            assert(op_views(ops@.subrange(root_index + 1, ops@.len() as int)) =~= views.subrange(
                root_index + 1,
                views.len() as int,
            ));
        }
        Ok(Some(DataPickle { operator, inputs }))
    }
}

/// The submodules of the tutorial models that legacy pickles name.
pub open spec fn tutorial_inputs(operator: Seq<char>) -> Option<Seq<Seq<char>>> {
    if operator == "__main__.BiRNN"@ || operator == "__main__.RNN"@ {
        Some(seq!["lstm"@, "fc"@])
    } else if operator == "__main__.ConvNet"@ {
        Some(seq!["layer1"@, "layer2"@, "fc"@])
    } else if operator == "__main__.ResNet"@ {
        Some(
            seq![
                "conv"@,
                "bn"@,
                "relu"@,
                "layer1"@,
                "layer2"@,
                "layer3"@,
                "avg_pool"@,
                "fc"@,
            ],
        )
    } else if operator == "__main__.Net"@ {
        Some(seq!["conv1"@, "conv2"@, "conv2_drop"@, "fc1"@, "fc2"@])
    } else {
        None
    }
}

/// The module of a legacy pickle's ops: its first global, unless that names
/// a collection, a tensor or an array; with the known submodules of a few
/// models, or else those that follow the global.
pub open spec fn spec_legacy_module_of(ops: Seq<PickleOpView>) -> Option<DataPickleView> {
    match spec_next_global(ops, 0) {
        None => None,
        Some((index, operator)) => if has_prefix(operator, "collections."@) || has_prefix(
            operator,
            "torch."@,
        ) || has_prefix(operator, "numpy."@) {
            None
        } else if operator == "SiamNet.SiamNet"@ {
            Some(DataPickleView { operator, inputs: seq!["feat_extraction"@, "adjust"@] })
        } else {
            match tutorial_inputs(operator) {
                Some(inputs) => Some(DataPickleView { operator, inputs }),
                None => Some(
                    DataPickleView {
                        operator,
                        inputs: spec_module_inputs(ops.subrange(index + 1, ops.len() as int)),
                    },
                ),
            }
        },
    }
}

/// A module with a fixed list of submodules.
fn module_with(operator: &str, names: &[&str]) -> (r: DataPickle)
    ensures
        r@ == (DataPickleView { operator: operator@, inputs: names@.map_values(|s: &str| s@) }),
{
    DataPickle { operator: String::from_str(operator), inputs: owned_strings(names) }
}

/// Reads the module of a legacy pickle.
pub fn legacy_module_pickle(data: &[u8]) -> (r: Result<Option<DataPickle>, ModelError>)
    ensures
        match spec_pickle_ops(data@, 0) {
            Err(k) => r matches Err(e) && e == py_error(k),
            Ok(ops) => match spec_legacy_module_of(ops) {
                Some(v) => r matches Ok(Some(p)) && p@ == v,
                None => r matches Ok(None),
            },
        },
{
    let ops = pickle_ops(data)?;
    let ghost views = op_views(ops@);
    let (index, operator) = match next_global(ops.as_slice(), 0) {
        Some(found) => found,
        None => return Ok(None),
    };
    proof {
        lemma_next_global_bounds(views, 0);
    }
    if str_starts_with(operator, "collections.") || str_starts_with(operator, "torch.")
        || str_starts_with(operator, "numpy.") {
        return Ok(None);
    }
    if str_eq(operator, "SiamNet.SiamNet") {
        let names: [&str; 2] = ["feat_extraction", "adjust"];
        let p = module_with(operator, &names);
        proof {
            assert(names@.map_values(|s: &str| s@) =~= seq!["feat_extraction"@, "adjust"@]);
        }
        return Ok(Some(p));
    }
    if str_eq(operator, "__main__.BiRNN") || str_eq(operator, "__main__.RNN") {
        let names: [&str; 2] = ["lstm", "fc"];
        let p = module_with(operator, &names);
        proof {
            assert(names@.map_values(|s: &str| s@) =~= seq!["lstm"@, "fc"@]);
        }
        return Ok(Some(p));
    }
    if str_eq(operator, "__main__.ConvNet") {
        let names: [&str; 3] = ["layer1", "layer2", "fc"];
        let p = module_with(operator, &names);
        proof {
            assert(names@.map_values(|s: &str| s@) =~= seq!["layer1"@, "layer2"@, "fc"@]);
        }
        return Ok(Some(p));
    }
    if str_eq(operator, "__main__.ResNet") {
        let names: [&str; 8] = [
            "conv",
            "bn",
            "relu",
            "layer1",
            "layer2",
            "layer3",
            "avg_pool",
            "fc",
        ];
        let p = module_with(operator, &names);
        proof {
            assert(names@.map_values(|s: &str| s@) =~= seq![
                "conv"@,
                "bn"@,
                "relu"@,
                "layer1"@,
                "layer2"@,
                "layer3"@,
                "avg_pool"@,
                "fc"@,
            ]);
        }
        return Ok(Some(p));
    }
    if str_eq(operator, "__main__.Net") {
        let names: [&str; 5] = ["conv1", "conv2", "conv2_drop", "fc1", "fc2"];
        let p = module_with(operator, &names);
        proof {
            assert(names@.map_values(|s: &str| s@) =~= seq![
                "conv1"@,
                "conv2"@,
                "conv2_drop"@,
                "fc1"@,
                "fc2"@,
            ]);
        }
        return Ok(Some(p));
    }
    let count = ops.len();
    assert(index < count);
    let inputs = pickle_module_inputs(ops_from(&ops, index + 1));
    proof {
        assert(op_views(ops@.subrange(index + 1, ops@.len() as int)) =~= views.subrange(
            index + 1,
            views.len() as int,
        ));
    }
    Ok(Some(DataPickle { operator: String::from_str(operator), inputs }))
}

} // verus!
