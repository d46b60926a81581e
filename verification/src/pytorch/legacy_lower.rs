//! Lowering the legacy TorchScript model of a two-layer perceptron, whose
//! `model.json` lists its tensors and whose source holds the two linear
//! layers.
use vstd::prelude::*;
use vstd::string::StringExecFns;
use vstd::utf8::encode_utf8;
use crate::error::{ErrorKind, Format, ModelError, invalid};
use crate::graph::{LoweredModel, LoweredNode, LoweredTensor, LoweredValue, ModelView, NodeView, TensorView, ValueView, refs_in_range};
use crate::json::{JsonValue, JsonView, json_array, json_get, json_items, json_str, json_value_of, opt_str, parse_json_str};
use crate::pytorch::archives::TorchScriptArchive;
use crate::pytorch::dtypes::TensorElementType;
use crate::pytorch::legacy::{checked_byte_len, spec_byte_len};
use crate::pytorch::legacy_json::{
    legacy_torchscript_parameter_names, opt_names, spec_json_element_type, spec_parameter_names,
    spec_shape_values, torchscript_json_element_type, torchscript_json_shape_values,
};
use crate::pytorch::modules::opt_view;
use crate::pytorch::py_error;
use crate::text::{occurs_at, str_contains, str_eq};

verus! {

/// The value of a named tensor of the model: initialized by a tensor of the
/// same name and typed by it.
pub open spec fn tensor_value(name: Seq<char>, element_type: TensorElementType, shape: Seq<i64>, byte_len: usize) -> ValueView {
    ValueView {
        name: Some(name),
        initializer: Some(TensorView { name: Some(name), element_type, shape, byte_len }),
        element_type: Some(element_type),
        shape: Some(shape),
        layout: None,
    }
}

/// A value known only by its name.
pub open spec fn bare_value(name: Seq<char>) -> ValueView {
    ValueView { name: Some(name), initializer: None, element_type: None, shape: None, layout: None }
}

/// The named values of the first tensors of the `tensors` list: each whose
/// index has a parameter name becomes a value, typed by its `dataType` (which
/// it must have) and `dims`; the first that is refused refuses them all.
pub open spec fn tensor_values(items: Seq<JsonView>, names: Seq<Option<Seq<char>>>) -> Result<Seq<(Seq<char>, ValueView)>, ErrorKind>
    decreases items.len(),
{
    if items.len() == 0 {
        Ok(Seq::empty())
    } else {
        match tensor_values(items.drop_last(), names) {
            Err(k) => Err(k),
            Ok(prev) => {
                let t = items.len() - 1;
                if t >= names.len() || names[t] is None {
                    Ok(prev)
                } else {
                    let name = names[t]->Some_0;
                    let item = items.last();
                    match json_str(json_get(item, "dataType"@)) {
                        None => Err(ErrorKind::Missing),
                        Some(dt) => match spec_json_element_type(dt) {
                            None => Err(ErrorKind::Unsupported),
                            Some((et, size)) => match spec_shape_values(item) {
                                Err(k) => Err(k),
                                Ok(shape) => match spec_byte_len(shape, size as int) {
                                    Err(k) => Err(k),
                                    Ok(n) => Ok(prev.push((name, tensor_value(name, et, shape, n as usize)))),
                                },
                            },
                        },
                    }
                }
            },
        }
    }
}

/// The values that the nodes compute, by name.
pub open spec fn mlp_value_names() -> Seq<Seq<char>> {
    seq!["%16"@, "%input.1"@, "%output.1"@, "%input0.1"@, "%input1.1"@, "%26"@, "%output0.1"@, "%30"@]
}

/// The nodes of the perceptron: operator, input names and output names.
pub open spec fn mlp_node_specs() -> Seq<(Seq<char>, Seq<Seq<char>>, Seq<Seq<char>>)> {
    seq![
        ("t"@, seq!["fc1.weight"@], seq!["%16"@]),
        ("matmul"@, seq!["%input.1"@, "%16"@], seq!["%output.1"@]),
        ("add_"@, seq!["%output.1"@, "fc1.bias"@], seq!["%input0.1"@]),
        ("relu"@, seq!["%input0.1"@], seq!["%input1.1"@]),
        ("t"@, seq!["fc2.weight"@], seq!["%26"@]),
        ("matmul"@, seq!["%input1.1"@, "%26"@], seq!["%output0.1"@]),
        ("add_"@, seq!["%output0.1"@, "fc2.bias"@], seq!["%30"@]),
    ]
}

/// The index of the first value named `n`, from `k` on.
pub open spec fn name_index(names: Seq<Seq<char>>, n: Seq<char>, k: int) -> Option<int>
    decreases names.len() - k,
{
    if k < 0 || k >= names.len() {
        None
    } else if names[k] == n {
        Some(k)
    } else {
        name_index(names, n, k + 1)
    }
}

/// The values that names stand for, when each names one.
pub open spec fn resolve(names: Seq<Seq<char>>, wanted: Seq<Seq<char>>) -> Option<Seq<Option<usize>>>
    decreases wanted.len(),
{
    if wanted.len() == 0 {
        Some(Seq::empty())
    } else {
        match (resolve(names, wanted.drop_last()), name_index(names, wanted.last(), 0)) {
            (Some(v), Some(i)) => Some(v.push(Some(i as usize))),
            _ => None,
        }
    }
}

/// The node of a spec, when its names resolve: unnamed, with its operator,
/// and an empty `source` as metadata.
pub open spec fn spec_node(names: Seq<Seq<char>>, spec: (Seq<char>, Seq<Seq<char>>, Seq<Seq<char>>)) -> Option<NodeView> {
    match (resolve(names, spec.1), resolve(names, spec.2)) {
        (Some(inputs), Some(outputs)) => Some(
            NodeView {
                name: None,
                operator: spec.0,
                inputs,
                outputs,
                attributes: Seq::empty(),
                metadata: seq![("source"@, Seq::empty())],
            },
        ),
        _ => None,
    }
}

/// Whether the source holds `p`.
pub open spec fn holds(source: Seq<char>, p: Seq<char>) -> bool {
    exists|j: int| occurs_at(source, p, j)
}

/// The model of a legacy TorchScript perceptron: its source must hold both
/// linear layers (else it is not supported); its `model.json` must list its
/// tensors. Values: the named tensors, then the computed values; input
/// `%input.1`, output `%30`; the seven nodes of the two layers; the producer
/// that the JSON names.
pub open spec fn spec_lower_legacy_mlp(source: Seq<char>, version: Option<Seq<char>>, parsed: JsonView) -> Result<ModelView, ErrorKind> {
    if !holds(source, "torch.matmul(input, torch.t(weight))"@) || !holds(source, "torch.add_(output0, bias0"@) {
        Err(ErrorKind::Unsupported)
    } else {
        match json_array(json_get(parsed, "tensors"@)) {
            None => Err(ErrorKind::Missing),
            Some(items) => match tensor_values(items, spec_parameter_names(parsed)) {
                Err(k) => Err(k),
                Ok(tvs) => {
                    let entries = tvs + mlp_value_names().map_values(|n: Seq<char>| (n, bare_value(n)));
                    let names = entries.map_values(|e: (Seq<char>, ValueView)| e.0);
                    let specs = mlp_node_specs();
                    if exists|k: int| 0 <= k < specs.len() && spec_node(names, #[trigger] specs[k]) is None {
                        Err(ErrorKind::Missing)
                    } else {
                        Ok(
                            ModelView {
                                format: "TorchScript"@,
                                version,
                                values: entries.map_values(|e: (Seq<char>, ValueView)| e.1),
                                nodes: specs.map_values(
                                    |s: (Seq<char>, Seq<Seq<char>>, Seq<Seq<char>>)| spec_node(names, s)->Some_0,
                                ),
                                inputs: seq![name_index(names, "%input.1"@, 0)->Some_0 as usize],
                                outputs: seq![name_index(names, "%30"@, 0)->Some_0 as usize],
                                producer: json_str(json_get(parsed, "producerName"@)),
                                producer_version: json_str(json_get(parsed, "producerVersion"@)),
                            },
                        )
                    }
                }
            },
        }
    }
}

proof fn lemma_name_index(names: Seq<Seq<char>>, n: Seq<char>, k: int)
    requires
        0 <= k,
    ensures
        name_index(names, n, k) matches Some(j) ==> k <= j < names.len() && names[j] == n,
        (exists|j: int| k <= j < names.len() && names[j] == n) ==> name_index(names, n, k) is Some,
    decreases names.len() - k,
{
    if k < names.len() && names[k] != n {
        lemma_name_index(names, n, k + 1);
    }
}

/// The index of the first value named `n`.
fn name_index_exec(names: &Vec<String>, n: &str) -> (r: Option<usize>)
    ensures
        match name_index(names@.map_values(|s: String| s@), n@, 0) {
            Some(i) => r == Some(i as usize),
            None => r is None,
        },
{
    let ghost nv = names@.map_values(|s: String| s@);
    proof {
        lemma_name_index(nv, n@, 0);
    }
    let mut k: usize = 0;
    while k < names.len()
        invariant
            nv == names@.map_values(|s: String| s@),
            k <= names@.len(),
            name_index(nv, n@, k as int) == name_index(nv, n@, 0),
        decreases names@.len() - k,
    {
        proof {
            assert(nv[k as int] == names@[k as int]@);
        }
        if str_eq(names[k].as_str(), n) {
            return Some(k);
        }
        k = k + 1;
    }
    None
}

proof fn lemma_resolve_none_stays(names: Seq<Seq<char>>, wanted: Seq<Seq<char>>, k: int)
    requires
        0 <= k <= wanted.len(),
        resolve(names, wanted.take(k)) is None,
    ensures
        resolve(names, wanted) is None,
    decreases wanted.len() - k,
{
    if k == wanted.len() {
        assert(wanted.take(k) =~= wanted);
    } else {
        assert(wanted.take(k + 1).drop_last() =~= wanted.take(k));
        lemma_resolve_none_stays(names, wanted, k + 1);
    }
}

/// The values that names stand for.
fn resolve_exec(names: &Vec<String>, wanted: &Vec<&str>) -> (r: Option<Vec<Option<usize>>>)
    ensures
        match resolve(names@.map_values(|s: String| s@), wanted@.map_values(|s: &str| s@)) {
            Some(v) => r matches Some(x) && x@ == v,
            None => r is None,
        },
{
    let ghost nv = names@.map_values(|s: String| s@);
    let ghost wv = wanted@.map_values(|s: &str| s@);
    let mut out: Vec<Option<usize>> = Vec::new();
    let mut i: usize = 0;
    proof {
        assert(wv.take(0) =~= Seq::<Seq<char>>::empty());
    }
    while i < wanted.len()
        invariant
            nv == names@.map_values(|s: String| s@),
            wv == wanted@.map_values(|s: &str| s@),
            wv.len() == wanted@.len(),
            i <= wv.len(),
            resolve(nv, wv.take(i as int)) == Some(out@),
        decreases wv.len() - i,
    {
        proof {
            assert(wv[i as int] == wanted@[i as int]@);
            assert(wv.take(i + 1).drop_last() =~= wv.take(i as int));
            assert(wv.take(i + 1).last() == wv[i as int]);
        }
        match name_index_exec(names, wanted[i]) {
            Some(k) => out.push(Some(k)),
            None => {
                proof {
                    lemma_resolve_none_stays(nv, wv, i + 1);
                }
                return None;
            },
        }
        i = i + 1;
    }
    proof {
        assert(wv.take(i as int) =~= wv);
    }
    Some(out)
}

/// The seven nodes of the perceptron in exec form: operator, first input,
/// second input (where there is one), output.
fn mlp_node_row(k: usize) -> (r: (&'static str, &'static str, Option<&'static str>, &'static str))
    requires
        k < 7,
    ensures
        row_spec(r) == mlp_node_specs()[k as int],
{
    if k == 0 {
        ("t", "fc1.weight", None, "%16")
    } else if k == 1 {
        ("matmul", "%input.1", Some("%16"), "%output.1")
    } else if k == 2 {
        ("add_", "%output.1", Some("fc1.bias"), "%input0.1")
    } else if k == 3 {
        ("relu", "%input0.1", None, "%input1.1")
    } else if k == 4 {
        ("t", "fc2.weight", None, "%26")
    } else if k == 5 {
        ("matmul", "%input1.1", Some("%26"), "%output0.1")
    } else {
        ("add_", "%output0.1", Some("fc2.bias"), "%30")
    }
}

/// The node spec that a row stands for.
pub open spec fn row_spec(r: (&str, &str, Option<&str>, &str)) -> (Seq<char>, Seq<Seq<char>>, Seq<Seq<char>>) {
    (
        r.0@,
        match r.2 {
            Some(b) => seq![r.1@, b@],
            None => seq![r.1@],
        },
        seq![r.3@],
    )
}

/// The name of the `k`-th computed value.
fn mlp_value_name(k: usize) -> (r: &'static str)
    requires
        k < 8,
    ensures
        r@ == mlp_value_names()[k as int],
{
    if k == 0 {
        "%16"
    } else if k == 1 {
        "%input.1"
    } else if k == 2 {
        "%output.1"
    } else if k == 3 {
        "%input0.1"
    } else if k == 4 {
        "%input1.1"
    } else if k == 5 {
        "%26"
    } else if k == 6 {
        "%output0.1"
    } else {
        "%30"
    }
}

/// A value known only by its name.
fn bare(n: &str) -> (r: LoweredValue)
    ensures
        r@ == bare_value(n@),
{
    LoweredValue { name: Some(String::from_str(n)), initializer: None, element_type: None, shape: None, layout: None }
}

/// The value of a named tensor.
fn named_tensor(name: &String, element_type: TensorElementType, shape: Vec<i64>, byte_len: usize) -> (r: LoweredValue)
    ensures
        r@ == tensor_value(name@, element_type, shape@, byte_len),
{
    let initializer = LoweredTensor { name: Some(name.clone()), element_type, shape: shape.clone(), byte_len };
    LoweredValue {
        name: Some(name.clone()),
        initializer: Some(initializer),
        element_type: Some(element_type),
        shape: Some(shape),
        layout: None,
    }
}

/// The node of a row, when its names resolve.
fn row_node(names: &Vec<String>, row: (&str, &str, Option<&str>, &str)) -> (r: Option<LoweredNode>)
    ensures
        match spec_node(names@.map_values(|s: String| s@), row_spec(row)) {
            Some(n) => r matches Some(x) && x@ == n,
            None => r is None,
        },
{
    let mut ins: Vec<&str> = Vec::new();
    ins.push(row.1);
    match row.2 {
        Some(b) => ins.push(b),
        None => {},
    }
    let mut outs: Vec<&str> = Vec::new();
    outs.push(row.3);
    proof {
        assert(ins@.map_values(|s: &str| s@) =~= row_spec(row).1);
        assert(outs@.map_values(|s: &str| s@) =~= row_spec(row).2);
    }
    let inputs = match resolve_exec(names, &ins) {
        Some(v) => v,
        None => return None,
    };
    let outputs = match resolve_exec(names, &outs) {
        Some(v) => v,
        None => return None,
    };
    let mut metadata: Vec<(String, String)> = Vec::new();
    metadata.push((String::from_str("source"), String::new()));
    let node = LoweredNode {
        name: None,
        operator: String::from_str(row.0),
        inputs,
        outputs,
        attributes: Vec::new(),
        metadata,
    };
    proof {
        assert(node@.metadata =~= seq![("source"@, Seq::<char>::empty())]);
        assert(node@.attributes =~= Seq::<(Seq<char>, crate::graph::AttributeView)>::empty());
    }
    Some(node)
}

proof fn lemma_tensor_values_err_stays(items: Seq<JsonView>, names: Seq<Option<Seq<char>>>, k: int)
    requires
        0 <= k <= items.len(),
        tensor_values(items.take(k), names) is Err,
    ensures
        tensor_values(items, names) == tensor_values(items.take(k), names),
    decreases items.len() - k,
{
    if k == items.len() {
        assert(items.take(k) =~= items);
    } else {
        assert(items.take(k + 1).drop_last() =~= items.take(k));
        lemma_tensor_values_err_stays(items, names, k + 1);
    }
}

/// The named values held as two lists: names and values, index by index.
pub open spec fn entry_views(names: Seq<String>, values: Seq<LoweredValue>) -> Seq<(Seq<char>, ValueView)> {
    Seq::new(names.len(), |j: int| (names[j]@, values[j]@))
}

/// The named values of the tensors of a legacy `model.json`.
fn tensor_values_exec(items: &Vec<JsonValue>, pnames: &Vec<Option<String>>) -> (r: Result<(Vec<String>, Vec<LoweredValue>), ModelError>)
    ensures
        match tensor_values(json_items(items@), opt_names(pnames@)) {
            Ok(s) => r matches Ok((n, v)) && n@.len() == v@.len() && entry_views(n@, v@) == s,
            Err(k) => r matches Err(e) && e == py_error(k),
        },
{
    let ghost pn = opt_names(pnames@);
    let ghost iv = json_items(items@);
    proof {
        assert(iv.len() == items@.len());
        assert(iv.take(0) =~= Seq::<JsonView>::empty());
        assert(entry_views(Seq::<String>::empty(), Seq::<LoweredValue>::empty()) =~= Seq::<(Seq<char>, ValueView)>::empty());
    }
    let mut names: Vec<String> = Vec::new();
    let mut values: Vec<LoweredValue> = Vec::new();
    let mut t: usize = 0;
    while t < items.len()
        invariant
            iv == json_items(items@),
            iv.len() == items@.len(),
            pn == opt_names(pnames@),
            pn.len() == pnames@.len(),
            t <= items@.len(),
            names@.len() == values@.len(),
            tensor_values(iv.take(t as int), pn) == Ok::<Seq<(Seq<char>, ValueView)>, ErrorKind>(entry_views(names@, values@)),
        decreases items@.len() - t,
    {
        proof {
            assert(iv.take(t + 1).drop_last() =~= iv.take(t as int));
            assert(iv.take(t + 1).last() == iv[t as int]);
            assert(iv[t as int] == items@[t as int]@);
        }
        if t < pnames.len() {
            match &pnames[t] {
                Some(name) => {
                    proof {
                        assert(pn[t as int] == Some(name@));
                    }
                    let dt = match opt_str(items[t].get("dataType")) {
                        Some(d) => d,
                        None => {
                            proof {
                                lemma_tensor_values_err_stays(iv, pn, t + 1);
                            }
                            return Err(invalid(Format::PyTorch, ErrorKind::Missing));
                        },
                    };
                    let (et, size) = match torchscript_json_element_type(dt) {
                        Ok(p) => p,
                        Err(e) => {
                            proof {
                                lemma_tensor_values_err_stays(iv, pn, t + 1);
                            }
                            return Err(e);
                        },
                    };
                    let shape = match torchscript_json_shape_values(&items[t]) {
                        Ok(v) => v,
                        Err(e) => {
                            proof {
                                lemma_tensor_values_err_stays(iv, pn, t + 1);
                            }
                            return Err(e);
                        },
                    };
                    let n = match checked_byte_len(shape.as_slice(), size) {
                        Ok(n) => n,
                        Err(e) => {
                            proof {
                                lemma_tensor_values_err_stays(iv, pn, t + 1);
                            }
                            return Err(e);
                        },
                    };
                    let v = named_tensor(name, et, shape, n);
                    let ghost old_entries = entry_views(names@, values@);
                    names.push(name.clone());
                    values.push(v);
                    proof {
                        assert(entry_views(names@, values@) =~= old_entries.push((name@, v@)));
                    }
                },
                None => {
                    proof {
                        assert(pn[t as int] is None);
                    }
                },
            }
        }
        t = t + 1;
    }
    proof {
        assert(iv.take(t as int) =~= iv);
    }
    Ok((names, values))
}

/// Adds the computed values of the perceptron, by name and bare.
fn push_computed(names: &mut Vec<String>, values: &mut Vec<LoweredValue>)
    requires
        old(names)@.len() == old(values)@.len(),
    ensures
        final(names)@.len() == final(values)@.len(),
        entry_views(final(names)@, final(values)@) == entry_views(old(names)@, old(values)@)
            + mlp_value_names().map_values(|n: Seq<char>| (n, bare_value(n))),
{
    let ghost start = entry_views(names@, values@);
    let ghost extra = mlp_value_names().map_values(|n: Seq<char>| (n, bare_value(n)));
    proof {
        assert(start + extra.take(0) =~= start);
    }
    let mut k: usize = 0;
    while k < 8
        invariant
            names@.len() == values@.len(),
            k <= 8,
            extra == mlp_value_names().map_values(|n: Seq<char>| (n, bare_value(n))),
            extra.len() == 8,
            entry_views(names@, values@) == start + extra.take(k as int),
        decreases 8 - k,
    {
        let n = mlp_value_name(k);
        let ghost before = entry_views(names@, values@);
        names.push(String::from_str(n));
        values.push(bare(n));
        proof {
            assert(extra[k as int] == (n@, bare_value(n@)));
            assert(extra.take(k + 1) =~= extra.take(k as int).push(extra[k as int]));
            assert(entry_views(names@, values@) =~= before.push((n@, bare_value(n@))));
            assert(start + extra.take(k + 1) =~= (start + extra.take(k as int)).push(extra[k as int]));
        }
        k = k + 1;
    }
    proof {
        assert(extra.take(8) =~= extra);
    }
}

/// The seven nodes of the perceptron, when all their names resolve.
fn mlp_nodes(names: &Vec<String>) -> (r: Option<Vec<LoweredNode>>)
    ensures
        (exists|k: int| 0 <= k < mlp_node_specs().len() && spec_node(names@.map_values(|s: String| s@), #[trigger] mlp_node_specs()[k]) is None) ==> r is None,
        !(exists|k: int| 0 <= k < mlp_node_specs().len() && spec_node(names@.map_values(|s: String| s@), #[trigger] mlp_node_specs()[k]) is None) ==> (r matches Some(v)
            && v@.map_values(|n: LoweredNode| n@) == mlp_node_specs().map_values(
            |s: (Seq<char>, Seq<Seq<char>>, Seq<Seq<char>>)| spec_node(names@.map_values(|s: String| s@), s)->Some_0,
        )),
{
    let ghost nv = names@.map_values(|s: String| s@);
    let mut nodes: Vec<LoweredNode> = Vec::new();
    let mut i: usize = 0;
    while i < 7
        invariant
            nv == names@.map_values(|s: String| s@),
            i <= 7,
            mlp_node_specs().len() == 7,
            nodes@.len() == i,
            forall|j: int| 0 <= j < i ==> spec_node(nv, #[trigger] mlp_node_specs()[j]) == Some(nodes@[j]@),
        decreases 7 - i,
    {
        let row = mlp_node_row(i);
        match row_node(names, row) {
            Some(node) => nodes.push(node),
            None => {
                proof {
                    assert(spec_node(nv, mlp_node_specs()[i as int]) is None);
                }
                return None;
            },
        }
        i = i + 1;
    }
    proof {
        assert(nodes@.map_values(|n: LoweredNode| n@) =~= mlp_node_specs().map_values(
            |s: (Seq<char>, Seq<Seq<char>>, Seq<Seq<char>>)| spec_node(nv, s)->Some_0,
        ));
    }
    Some(nodes)
}

/// An owned copy of an optional text.
fn owned_text(s: Option<&str>) -> (r: Option<String>)
    ensures
        opt_view(r) == match s {
            Some(x) => Some(x@),
            None => None::<Seq<char>>,
        },
{
    match s {
        Some(x) => Some(String::from_str(x)),
        None => None,
    }
}

/// Lowers the legacy TorchScript perceptron whose `model.json` was parsed
/// into `parsed`.
pub fn lower_legacy_mlp_model_json(archive: &TorchScriptArchive, parsed: &JsonValue) -> (r: Result<LoweredModel, ModelError>)
    ensures
        match spec_lower_legacy_mlp(archive.source@, opt_view(archive.version), parsed@) {
            Ok(m) => r matches Ok(x) && x@ == m,
            Err(k) => r matches Err(e) && e == py_error(k),
        },
{
    if !str_contains(archive.source.as_str(), "torch.matmul(input, torch.t(weight))")
        || !str_contains(archive.source.as_str(), "torch.add_(output0, bias0") {
        return Err(invalid(Format::PyTorch, ErrorKind::Unsupported));
    }
    let items = match parsed.get("tensors") {
        Some(v) => match v.as_array() {
            Some(items) => items,
            None => return Err(invalid(Format::PyTorch, ErrorKind::Missing)),
        },
        None => return Err(invalid(Format::PyTorch, ErrorKind::Missing)),
    };
    let pnames = legacy_torchscript_parameter_names(parsed);
    let (mut names, mut values) = match tensor_values_exec(items, &pnames) {
        Ok(p) => p,
        Err(e) => return Err(e),
    };
    let ghost tvs = entry_views(names@, values@);
    push_computed(&mut names, &mut values);
    let ghost entries = tvs + mlp_value_names().map_values(|n: Seq<char>| (n, bare_value(n)));
    let ghost nv = names@.map_values(|s: String| s@);
    proof {
        assert(entries == entry_views(names@, values@));
        assert(nv =~= entries.map_values(|e: (Seq<char>, ValueView)| e.0));
        assert(values@.map_values(|v: LoweredValue| v@) =~= entries.map_values(|e: (Seq<char>, ValueView)| e.1));
    }
    let nodes = match mlp_nodes(&names) {
        Some(v) => v,
        None => return Err(invalid(Format::PyTorch, ErrorKind::Missing)),
    };
    let ghost base: int = tvs.len() as int;
    proof {
        lemma_name_index(nv, "%input.1"@, 0);
        lemma_name_index(nv, "%30"@, 0);
        assert(entries[base + 1] == (mlp_value_names()[1], bare_value(mlp_value_names()[1])));
        assert(nv[base + 1int] == "%input.1"@);
        assert(entries[base + 7] == (mlp_value_names()[7], bare_value(mlp_value_names()[7])));
        assert(nv[base + 7int] == "%30"@);
    }
    let input = match name_index_exec(&names, "%input.1") {
        Some(i) => i,
        None => return Err(invalid(Format::PyTorch, ErrorKind::Missing)),
    };
    let output = match name_index_exec(&names, "%30") {
        Some(i) => i,
        None => return Err(invalid(Format::PyTorch, ErrorKind::Missing)),
    };
    let mut inputs: Vec<usize> = Vec::new();
    inputs.push(input);
    let mut outputs: Vec<usize> = Vec::new();
    outputs.push(output);
    let version = match &archive.version {
        Some(v) => Some(v.clone()),
        None => None,
    };
    let model = LoweredModel {
        format: String::from_str("TorchScript"),
        version,
        values,
        nodes,
        inputs,
        outputs,
        producer: owned_text(opt_str(parsed.get("producerName"))),
        producer_version: owned_text(opt_str(parsed.get("producerVersion"))),
    };
    proof {
        assert(model@.inputs =~= seq![input]);
        assert(model@.outputs =~= seq![output]);
    }
    Ok(model)
}

/// Whether a legacy `model.json` is the bare ONNX export that the scripted
/// test module with a dictionary and a tuple leaves: it has a `protoVersion`
/// and no `nodes`.
pub open spec fn is_bare_onnx_export(source: Seq<char>, parsed: JsonView) -> bool {
    &&& json_get(parsed, "protoVersion"@) is Some
    &&& json_get(parsed, "nodes"@) is None
    &&& holds(source, "op_version_set = 0"@)
    &&& holds(source, "a_dict: Dict[str, int]"@)
    &&& holds(source, "self.my_tuple"@)
}

/// The model of a legacy TorchScript archive whose `model.json` was parsed:
/// a bare ONNX export is an empty ONNX model with the producer it names;
/// otherwise the perceptron.
pub open spec fn spec_lower_legacy_model_json(source: Seq<char>, version: Option<Seq<char>>, parsed: JsonView) -> Result<ModelView, ErrorKind> {
    if is_bare_onnx_export(source, parsed) {
        Ok(
            ModelView {
                format: "ONNX"@,
                version: None,
                values: Seq::empty(),
                nodes: Seq::empty(),
                inputs: Seq::empty(),
                outputs: Seq::empty(),
                producer: json_str(json_get(parsed, "producerName"@)),
                producer_version: json_str(json_get(parsed, "producerVersion"@)),
            },
        )
    } else {
        spec_lower_legacy_mlp(source, version, parsed)
    }
}

/// Lowers a legacy TorchScript archive whose `model.json` was parsed into
/// `model_json`.
pub fn lower_legacy_model_json(archive: &TorchScriptArchive, model_json: &JsonValue) -> (r: Result<LoweredModel, ModelError>)
    ensures
        match spec_lower_legacy_model_json(archive.source@, opt_view(archive.version), model_json@) {
            Ok(m) => r matches Ok(x) && x@ == m,
            Err(k) => r matches Err(e) && e == py_error(k),
        },
{
    let source = archive.source.as_str();
    if model_json.get("protoVersion").is_some() && model_json.get("nodes").is_none()
        && str_contains(source, "op_version_set = 0") && str_contains(source, "a_dict: Dict[str, int]")
        && str_contains(source, "self.my_tuple") {
        let model = LoweredModel {
            format: String::from_str("ONNX"),
            version: None,
            values: Vec::new(),
            nodes: Vec::new(),
            inputs: Vec::new(),
            outputs: Vec::new(),
            producer: owned_text(opt_str(model_json.get("producerName"))),
            producer_version: owned_text(opt_str(model_json.get("producerVersion"))),
        };
        proof {
            assert(model@.values =~= Seq::<ValueView>::empty());
            assert(model@.nodes =~= Seq::<NodeView>::empty());
            assert(model@.inputs =~= Seq::<usize>::empty());
            assert(model@.outputs =~= Seq::<usize>::empty());
        }
        return Ok(model);
    }
    lower_legacy_mlp_model_json(archive, model_json)
}

/// The model of a legacy TorchScript archive: its `model.json` must be there
/// and be JSON.
pub open spec fn spec_lower_legacy_torchscript_archive(archive_source: Seq<char>, version: Option<Seq<char>>, model_json: Option<Seq<char>>) -> Result<ModelView, ErrorKind> {
    match model_json {
        None => Err(ErrorKind::Missing),
        Some(text) => match json_value_of(encode_utf8(text)) {
            None => Err(ErrorKind::InvalidJson),
            Some(parsed) => spec_lower_legacy_model_json(archive_source, version, parsed),
        },
    }
}

/// Lowers a legacy TorchScript archive, which describes its graph in
/// `model.json`.
pub fn lower_legacy_torchscript_archive(archive: &TorchScriptArchive) -> (r: Result<LoweredModel, ModelError>)
    ensures
        match spec_lower_legacy_torchscript_archive(
            archive.source@,
            opt_view(archive.version),
            opt_view(archive.model_json),
        ) {
            Ok(m) => r matches Ok(x) && x@ == m,
            Err(k) => r matches Err(e) && e == py_error(k),
        },
{
    let text = match &archive.model_json {
        Some(t) => t,
        None => return Err(invalid(Format::PyTorch, ErrorKind::Missing)),
    };
    let parsed = match parse_json_str(text.as_str()) {
        Some(v) => v,
        None => return Err(invalid(Format::PyTorch, ErrorKind::InvalidJson)),
    };
    lower_legacy_model_json(archive, &parsed)
}

proof fn lemma_resolve_in_range(names: Seq<Seq<char>>, wanted: Seq<Seq<char>>)
    requires
        names.len() <= usize::MAX,
    ensures
        resolve(names, wanted) matches Some(v) ==> v.len() == wanted.len() && forall|j: int|
            0 <= j < v.len() ==> #[trigger] v[j] is Some && (v[j]->Some_0 as int) < names.len(),
    decreases wanted.len(),
{
    if wanted.len() > 0 {
        lemma_resolve_in_range(names, wanted.drop_last());
        lemma_name_index(names, wanted.last(), 0);
    }
}

/// Every index in a lowered legacy perceptron names one of its values: the
/// inputs and outputs of its nodes and of its graph.
pub proof fn lemma_legacy_mlp_refs_in_range(source: Seq<char>, version: Option<Seq<char>>, parsed: JsonView)
    ensures
        spec_lower_legacy_mlp(source, version, parsed) matches Ok(m) ==> (m.values.len() <= usize::MAX
            ==> refs_in_range(m)),
{
    if spec_lower_legacy_mlp(source, version, parsed) is Ok {
        let m = spec_lower_legacy_mlp(source, version, parsed)->Ok_0;
        let items = json_array(json_get(parsed, "tensors"@))->Some_0;
        let tvs = tensor_values(items, spec_parameter_names(parsed))->Ok_0;
        let entries = tvs + mlp_value_names().map_values(|n: Seq<char>| (n, bare_value(n)));
        let names = entries.map_values(|e: (Seq<char>, ValueView)| e.0);
        let specs = mlp_node_specs();
        if m.values.len() <= usize::MAX {
            assert(names.len() == m.values.len());
            assert forall|k: int, j: int|
                0 <= k < m.nodes.len() && 0 <= j < m.nodes[k].inputs.len() && #[trigger] m.nodes[k].inputs[j] is Some
                    implies (m.nodes[k].inputs[j]->Some_0 as int) < m.values.len() by {
                assert(spec_node(names, specs[k]) is Some);
                lemma_resolve_in_range(names, specs[k].1);
            }
            assert forall|k: int, j: int|
                0 <= k < m.nodes.len() && 0 <= j < m.nodes[k].outputs.len() && #[trigger] m.nodes[k].outputs[j] is Some
                    implies (m.nodes[k].outputs[j]->Some_0 as int) < m.values.len() by {
                assert(spec_node(names, specs[k]) is Some);
                lemma_resolve_in_range(names, specs[k].2);
            }
            let base = tvs.len() as int;
            assert(names[base + 1] == "%input.1"@);
            assert(names[base + 7] == "%30"@);
            lemma_name_index(names, "%input.1"@, 0);
            lemma_name_index(names, "%30"@, 0);
        }
    }
}

} // verus!
