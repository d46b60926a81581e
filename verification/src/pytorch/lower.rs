//! Lowering a state dict into a graph: one value per tensor, and one
//! `Weights` node per group of keys that takes the group's values.
use vstd::prelude::*;
use vstd::string::{StrSliceExecFns, StringExecFns};
use crate::graph::{plain_node, refs_in_range, LoweredModel, LoweredNode, LoweredTensor, LoweredValue, ModelView, NodeView, TensorView, ValueView};
use crate::pytorch::machine::{StateDictTensor, TensorView as StoredTensor};
use crate::pytorch::modules::{DataPickle, DataPickleView, opt_view};
use crate::pytorch::detect::{LegacyPickle, PyTorchShardedStateDictArchive, TensorPickle};
use crate::pytorch::objects::LegacyView;
use crate::pytorch::scan::{LegacyTensor, LegacyTensorView};
use crate::pytorch::tar::PyTorchTarArchive;
use crate::pytorch::archives::PyTorchZipArchive;
use crate::pytorch::tar_dict::spec_tar_state_dict;
use crate::pytorch::py_error;
use crate::error::{ErrorKind, Format, ModelError, invalid};
use crate::pytorch::names::{spec_state_dict_group_name, state_dict_group_name};
use crate::pytorch::state_dict::{
    EntryValueView, EntryView, GroupView, NestedStateDict, StateDict, StateDictEntryValue, entry_views,
    group_views as nested_group_views,
};
use crate::text::{has_suffix, str_ends_with, str_eq, str_slice};

verus! {

/// Groups by name, each with its inputs in order.
pub type Groups = Seq<(Seq<char>, Seq<Option<usize>>)>;

/// The index of the first group named `g`, from `k` on.
pub open spec fn group_at(groups: Groups, g: Seq<char>, k: int) -> Option<int>
    decreases groups.len() - k,
{
    if k < 0 || k >= groups.len() {
        None
    } else if groups[k].0 == g {
        Some(k)
    } else {
        group_at(groups, g, k + 1)
    }
}

/// `groups` with `inputs` added to the group named `g`, which is added at
/// the end when there is none yet.
pub open spec fn add_to_group(groups: Groups, g: Seq<char>, inputs: Seq<Option<usize>>) -> Groups {
    match group_at(groups, g, 0) {
        Some(k) => groups.update(k, (g, groups[k].1 + inputs)),
        None => groups.push((g, inputs)),
    }
}

/// The value of a named tensor: named by its key, initialized by a tensor of
/// the same name, and typed by it.
pub open spec fn named_value(key: Seq<char>, t: StoredTensor) -> ValueView {
    ValueView {
        name: Some(key),
        initializer: Some(
            TensorView { name: Some(key), element_type: t.element_type, shape: t.shape, byte_len: t.byte_len },
        ),
        element_type: Some(t.element_type),
        shape: Some(t.shape),
        layout: t.layout,
    }
}

/// The value of a packed tensor: unnamed, typed by the tensor, and
/// initialized by an unnamed tensor when `initializer` holds.
pub open spec fn anonymous_value(t: StoredTensor, initializer: bool) -> ValueView {
    ValueView {
        name: Some(Seq::empty()),
        initializer: if initializer {
            Some(TensorView { name: None, element_type: t.element_type, shape: t.shape, byte_len: t.byte_len })
        } else {
            None
        },
        element_type: Some(t.element_type),
        shape: Some(t.shape),
        layout: t.layout,
    }
}

/// The suffix of a packed parameters key.
pub open spec fn packed_suffix() -> Seq<char> {
    "._packed_params._packed_params"@
}

/// The group of a packed parameters key: the key before the suffix, when it
/// has the suffix and something before it.
pub open spec fn packed_group(key: Seq<char>) -> Option<Seq<char>> {
    if has_suffix(key, packed_suffix()) && key.len() > packed_suffix().len() {
        Some(key.subrange(0, key.len() - packed_suffix().len()))
    } else {
        None
    }
}

/// What one entry adds to the values and groups: a tensor with a group is a
/// named value in its group; a packed tensor with a group is an unnamed value,
/// and its bias another (or an absent input), both initialized when
/// `anonymous` holds or there is a bias; other entries add nothing.
pub open spec fn lower_step(
    values: Seq<ValueView>,
    groups: Groups,
    e: EntryView,
    anonymous: bool,
) -> (Seq<ValueView>, Groups) {
    let i = values.len() as usize;
    match e.value {
        EntryValueView::Tensor(t) => match spec_state_dict_group_name(e.key) {
            None => (values, groups),
            Some(g) => (values.push(named_value(e.key, t)), add_to_group(groups, g, seq![Some(i)])),
        },
        EntryValueView::PackedTensor(t, bias) => match packed_group(e.key) {
            None => (values, groups),
            Some(g) => {
                let init = anonymous || bias is Some;
                match bias {
                    Some(b) => (
                        values.push(anonymous_value(t, init)).push(anonymous_value(b, init)),
                        add_to_group(groups, g, seq![Some(i), Some((i + 1) as usize)]),
                    ),
                    None => (values.push(anonymous_value(t, init)), add_to_group(groups, g, seq![Some(i), None])),
                }
            },
        },
        EntryValueView::NoneValue => (values, groups),
    }
}

/// The values and groups of the first entries, in order.
pub open spec fn lower_fold(entries: Seq<EntryView>, anonymous: bool) -> (Seq<ValueView>, Groups)
    decreases entries.len(),
{
    if entries.len() == 0 {
        (Seq::empty(), Seq::empty())
    } else {
        let (values, groups) = lower_fold(entries.drop_last(), anonymous);
        lower_step(values, groups, entries.last(), anonymous)
    }
}

/// The node of a group: `Weights`, named by the group (unnamed for the empty
/// group), with the group's inputs.
pub open spec fn weights_node(g: (Seq<char>, Seq<Option<usize>>)) -> NodeView {
    NodeView { outputs: Seq::empty(), attributes: Seq::empty(), metadata: Seq::empty(), name: if g.0.len() == 0 { None } else { Some(g.0) }, operator: "Weights"@, inputs: g.1 }
}

/// The model that a state dict lowers to, under the given format name and
/// version.
pub open spec fn spec_lower_state_dict(
    format: Seq<char>,
    version: Option<Seq<char>>,
    entries: Seq<EntryView>,
    anonymous: bool,
) -> ModelView {
    let (values, groups) = lower_fold(entries, anonymous);
    ModelView { inputs: Seq::empty(), outputs: Seq::empty(), producer: None, producer_version: None,
        format,
        version,
        values,
        nodes: groups.map_values(|g: (Seq<char>, Seq<Option<usize>>)| weights_node(g)),
    }
}

/// The groups that names and inputs hold together.
pub open spec fn group_views(names: Seq<String>, inputs: Seq<Vec<Option<usize>>>) -> Groups {
    Seq::new(names.len(), |k: int| (names[k]@, inputs[k]@))
}

/// The first group index lies among the groups and has the name.
pub proof fn lemma_group_at_bounds(groups: Groups, g: Seq<char>, k: int)
    requires
        0 <= k,
    ensures
        group_at(groups, g, k) matches Some(j) ==> k <= j < groups.len() && groups[j].0 == g,
    decreases groups.len() - k,
{
    if k < groups.len() && groups[k].0 != g {
        lemma_group_at_bounds(groups, g, k + 1);
    }
}

/// Adds `inputs` to the group named `g`.
fn add_inputs(names: &mut Vec<String>, groups: &mut Vec<Vec<Option<usize>>>, g: &str, inputs: Vec<Option<usize>>)
    requires
        old(names)@.len() == old(groups)@.len(),
    ensures
        final(names)@.len() == final(groups)@.len(),
        group_views(final(names)@, final(groups)@) == add_to_group(
            group_views(old(names)@, old(groups)@),
            g@,
            inputs@,
        ),
{
    let ghost gv = group_views(names@, groups@);
    let mut k: usize = 0;
    while k < names.len()
        invariant
            gv == group_views(names@, groups@),
            names@.len() == groups@.len(),
            names == old(names),
            groups == old(groups),
            k <= names@.len(),
            group_at(gv, g@, k as int) == group_at(gv, g@, 0),
        decreases names@.len() - k,
    {
        proof {
            assert(gv[k as int] == (names@[k as int]@, groups@[k as int]@));
        }
        if str_eq(names[k].as_str(), g) {
            let mut current = groups.remove(k);
            let ghost old_inputs = current@;
            let mut more = inputs;
            current.append(&mut more);
            groups.insert(k, current);
            proof {
                assert(group_views(names@, groups@) =~= gv.update(k as int, (g@, gv[k as int].1 + inputs@)));
            }
            return;
        }
        k = k + 1;
    }
    names.push(String::from_str(g));
    groups.push(inputs);
    proof {
        assert(group_views(names@, groups@) =~= gv.push((g@, inputs@)));
    }
}

/// A copy of a stored tensor's fields as a value's tensor.
fn stored_value(name: Option<String>, t: &StateDictTensor, initializer: bool, tensor_name: Option<String>) -> (r:
    LoweredValue)
    ensures
        r@ == (ValueView {
            name: opt_view(name),
            initializer: if initializer {
                Some(
                    TensorView {
                        name: opt_view(tensor_name),
                        element_type: t@.element_type,
                        shape: t@.shape,
                        byte_len: t@.byte_len,
                    },
                )
            } else {
                None
            },
            element_type: Some(t@.element_type),
            shape: Some(t@.shape),
            layout: t@.layout,
        }),
{
    let initializer = if initializer {
        Some(
            LoweredTensor {
                name: tensor_name,
                element_type: t.element_type,
                shape: t.shape.clone(),
                byte_len: t.byte_len,
            },
        )
    } else {
        None
    };
    let layout = match &t.layout {
        Some(l) => Some(l.clone()),
        None => None,
    };
    LoweredValue { name, initializer, element_type: Some(t.element_type), shape: Some(t.shape.clone()), layout }
}

/// The group of a packed parameters key.
fn packed_group_exec(key: &str) -> (r: Option<&str>)
    ensures
        match packed_group(key@) {
            Some(g) => r matches Some(x) && x@ == g,
            None => r is None,
        },
{
    proof {
        reveal_strlit("._packed_params._packed_params");
    }
    if !str_ends_with(key, "._packed_params._packed_params") {
        return None;
    }
    let n = key.unicode_len();
    if n <= 30 {
        return None;
    }
    Some(str_slice(key, 0, n - 30))
}

/// Lowers a state dict into a model of the given format name and version:
/// each tensor whose key has a group becomes a named value, each packed
/// tensor under a packed parameters key an unnamed value (with its bias),
/// and each group a `Weights` node that takes the group's values.
pub fn lower_state_dict_with_format(
    format: &str,
    version: Option<String>,
    state_dict: &StateDict,
    anonymous_initializers: bool,
) -> (r: LoweredModel)
    ensures
        r@ == spec_lower_state_dict(format@, opt_view(version), entry_views(state_dict.entries@), anonymous_initializers),
{
    let ghost ev = entry_views(state_dict.entries@);
    let mut values: Vec<LoweredValue> = Vec::new();
    let mut names: Vec<String> = Vec::new();
    let mut groups: Vec<Vec<Option<usize>>> = Vec::new();
    let mut i: usize = 0;
    proof {
        assert(ev.take(0) =~= Seq::<EntryView>::empty());
        assert(values@.map_values(|v: LoweredValue| v@) =~= Seq::<ValueView>::empty());
        assert(group_views(names@, groups@) =~= Seq::<(Seq<char>, Seq<Option<usize>>)>::empty());
    }
    while i < state_dict.entries.len()
        invariant
            ev == entry_views(state_dict.entries@),
            ev.len() == state_dict.entries@.len(),
            i <= ev.len(),
            names@.len() == groups@.len(),
            lower_fold(ev.take(i as int), anonymous_initializers) == (
                values@.map_values(|v: LoweredValue| v@),
                group_views(names@, groups@),
            ),
        decreases ev.len() - i,
    {
        let entry = &state_dict.entries[i];
        let ghost vv = values@.map_values(|v: LoweredValue| v@);
        proof {
            assert(ev[i as int] == entry@);
            assert(ev.take(i + 1).drop_last() =~= ev.take(i as int));
            assert(ev.take(i + 1).last() == entry@);
        }
        let n = values.len();
        match &entry.value {
            StateDictEntryValue::Tensor(t) => {
                if let Some(g) = state_dict_group_name(entry.key.as_str()) {
                    let v = stored_value(Some(entry.key.clone()), t, true, Some(entry.key.clone()));
                    values.push(v);
                    let mut ins: Vec<Option<usize>> = Vec::new();
                    ins.push(Some(n));
                    add_inputs(&mut names, &mut groups, g, ins);
                    proof {
                        assert(values@.map_values(|v: LoweredValue| v@) =~= vv.push(named_value(entry@.key, t@)));
                        assert(ins@ =~= seq![Some(n)]);
                    }
                }
            },
            StateDictEntryValue::PackedTensor { tensor, bias } => {
                if let Some(g) = packed_group_exec(entry.key.as_str()) {
                    let init = anonymous_initializers || bias.is_some();
                    let v = stored_value(Some(String::new()), tensor, init, None);
                    values.push(v);
                    let mut ins: Vec<Option<usize>> = Vec::new();
                    ins.push(Some(n));
                    match bias {
                        Some(b) => {
                            let m = values.len();
                            let w = stored_value(Some(String::new()), b, init, None);
                            values.push(w);
                            ins.push(Some(m));
                            proof {
                                assert(values@.map_values(|v: LoweredValue| v@) =~= vv.push(
                                    anonymous_value(tensor@, init),
                                ).push(anonymous_value(b@, init)));
                                assert(ins@ =~= seq![Some(n), Some((n + 1) as usize)]);
                            }
                        },
                        None => {
                            ins.push(None);
                            proof {
                                assert(values@.map_values(|v: LoweredValue| v@) =~= vv.push(
                                    anonymous_value(tensor@, init),
                                ));
                                assert(ins@ =~= seq![Some(n), None]);
                            }
                        },
                    }
                    add_inputs(&mut names, &mut groups, g, ins);
                }
            },
            StateDictEntryValue::NoneValue => {},
        }
        i = i + 1;
    }
    proof {
        assert(ev.take(i as int) =~= ev);
    }
    let ghost gv = group_views(names@, groups@);
    let mut nodes: Vec<LoweredNode> = Vec::new();
    let mut k: usize = 0;
    let count = names.len();
    let mut names = names;
    let mut groups = groups;
    while k < count
        invariant
            count == gv.len(),
            k <= count,
            names@.len() == count - k,
            groups@.len() == count - k,
            forall|q: int| 0 <= q < count - k ==> #[trigger] gv[k + q] == (names@[q]@, groups@[q]@),
            nodes@.len() == k,
            forall|q: int| 0 <= q < k ==> #[trigger] nodes@[q]@ == weights_node(gv[q]),
        decreases count - k,
    {
        let ghost before_names = names@;
        let ghost before_groups = groups@;
        let name = names.remove(0);
        let inputs = groups.remove(0);
        proof {
            assert(gv[k + 0] == (before_names[0]@, before_groups[0]@));
            reveal_strlit("");
            reveal_strlit("Weights");
        }
        let node_name = if str_eq(name.as_str(), "") {
            None
        } else {
            proof {
                assert(name@.len() != 0) by {
                    if name@.len() == 0 {
                        assert(name@ =~= ""@);
                    }
                }
            }
            Some(name)
        };
        let node = plain_node(node_name, String::from_str("Weights"), inputs);
        let ghost before_nodes = nodes@;
        nodes.push(node);
        proof {
            assert(node@ == weights_node(gv[k as int]));
            assert forall|q: int| 0 <= q < k + 1 implies #[trigger] nodes@[q]@ == weights_node(gv[q]) by {
                if q < k {
                    assert(nodes@[q] == before_nodes[q]);
                }
            }
            assert forall|q: int| 0 <= q < count - (k + 1) implies #[trigger] gv[(k + 1) + q] == (
                names@[q]@,
                groups@[q]@,
            ) by {
                assert(gv[k + (q + 1)] == (before_names[q + 1]@, before_groups[q + 1]@));
            }
        }
        k = k + 1;
    }
    let model = LoweredModel { inputs: Vec::new(), outputs: Vec::new(), producer: None, producer_version: None, format: String::from_str(format), version, values, nodes };
    proof {
        assert(model@.nodes =~= gv.map_values(|g: (Seq<char>, Seq<Option<usize>>)| weights_node(g)));
    }
    model
}

/// The values and nodes of the first nested groups: each group's tensors
/// become named values, in order, and the group a `Weights` node named by it
/// that takes them.
pub open spec fn nested_fold(groups: Seq<GroupView>) -> (Seq<ValueView>, Seq<NodeView>)
    decreases groups.len(),
{
    if groups.len() == 0 {
        (Seq::empty(), Seq::empty())
    } else {
        let (values, nodes) = nested_fold(groups.drop_last());
        let g = groups.last();
        let base = values.len();
        (
            values + g.entries.map_values(|e: (Seq<char>, StoredTensor)| named_value(e.0, e.1)),
            nodes.push(
                NodeView { outputs: Seq::empty(), attributes: Seq::empty(), metadata: Seq::empty(),
                    name: Some(g.name),
                    operator: "Weights"@,
                    inputs: Seq::new(g.entries.len(), |j: int| Some((base + j) as usize)),
                },
            ),
        )
    }
}

/// The model that a nested state dict lowers to, under the given format name
/// and version.
pub open spec fn spec_lower_nested_state_dict(
    format: Seq<char>,
    version: Option<Seq<char>>,
    groups: Seq<GroupView>,
) -> ModelView {
    let (values, nodes) = nested_fold(groups);
    ModelView { inputs: Seq::empty(), outputs: Seq::empty(), producer: None, producer_version: None, format, version, values, nodes }
}

/// Lowers a nested state dict: each group's tensors become named values and
/// the group a `Weights` node named by it that takes them.
pub fn lower_nested_state_dict_with_format(
    format: &str,
    version: Option<String>,
    state_dict: &NestedStateDict,
) -> (r: LoweredModel)
    ensures
        r@ == spec_lower_nested_state_dict(format@, opt_view(version), nested_group_views(state_dict.groups@)),
{
    let ghost gv = nested_group_views(state_dict.groups@);
    let mut values: Vec<LoweredValue> = Vec::new();
    let mut nodes: Vec<LoweredNode> = Vec::new();
    let mut i: usize = 0;
    proof {
        assert(gv.take(0) =~= Seq::<GroupView>::empty());
        assert(values@.map_values(|v: LoweredValue| v@) =~= Seq::<ValueView>::empty());
        assert(nodes@.map_values(|n: LoweredNode| n@) =~= Seq::<NodeView>::empty());
    }
    while i < state_dict.groups.len()
        invariant
            gv == nested_group_views(state_dict.groups@),
            gv.len() == state_dict.groups@.len(),
            i <= gv.len(),
            nested_fold(gv.take(i as int)) == (
                values@.map_values(|v: LoweredValue| v@),
                nodes@.map_values(|n: LoweredNode| n@),
            ),
        decreases gv.len() - i,
    {
        let group = &state_dict.groups[i];
        let ghost g = group@;
        let ghost vv = values@.map_values(|v: LoweredValue| v@);
        let ghost nv = nodes@.map_values(|n: LoweredNode| n@);
        proof {
            assert(gv[i as int] == g);
            assert(gv.take(i + 1).drop_last() =~= gv.take(i as int));
            assert(gv.take(i + 1).last() == g);
        }
        let base = values.len();
        let mut inputs: Vec<Option<usize>> = Vec::new();
        let mut j: usize = 0;
        while j < group.entries.len()
            invariant
                g == group@,
                g.entries.len() == group.entries@.len(),
                j <= group.entries@.len(),
                base == vv.len(),
                values@.len() == base + j,
                values@.map_values(|v: LoweredValue| v@) =~= vv + g.entries.take(j as int).map_values(
                    |e: (Seq<char>, StoredTensor)| named_value(e.0, e.1),
                ),
                inputs@ =~= Seq::new(j as nat, |q: int| Some((base + q) as usize)),
            decreases group.entries@.len() - j,
        {
            let (name, tensor) = &group.entries[j];
            proof {
                assert(g.entries[j as int] == (name@, tensor@));
            }
            let m = values.len();
            let ghost before = values@.map_values(|v: LoweredValue| v@);
            let v = stored_value(Some(name.clone()), tensor, true, Some(name.clone()));
            values.push(v);
            inputs.push(Some(m));
            proof {
                assert(g.entries.take(j + 1) =~= g.entries.take(j as int).push(g.entries[j as int]));
                assert(values@.map_values(|v: LoweredValue| v@) =~= before.push(named_value(name@, tensor@)));
            }
            j = j + 1;
        }
        proof {
            assert(g.entries.take(j as int) =~= g.entries);
            reveal_strlit("Weights");
        }
        let node = plain_node(Some(group.name.clone()), String::from_str("Weights"), inputs);
        nodes.push(node);
        proof {
            assert(nodes@.map_values(|n: LoweredNode| n@) =~= nv.push(node@));
        }
        i = i + 1;
    }
    proof {
        assert(gv.take(i as int) =~= gv);
    }
    LoweredModel { inputs: Vec::new(), outputs: Vec::new(), producer: None, producer_version: None, format: String::from_str(format), version, values, nodes }
}

/// The model that tensors lower to under one node: each tensor an unnamed,
/// initialized value, all taken by one unnamed node of the given operator.
pub open spec fn spec_lower_state_tensors(
    format: Seq<char>,
    version: Option<Seq<char>>,
    tensors: Seq<StoredTensor>,
    operator: Seq<char>,
) -> ModelView {
    ModelView { inputs: Seq::empty(), outputs: Seq::empty(), producer: None, producer_version: None,
        format,
        version,
        values: tensors.map_values(|t: StoredTensor| anonymous_value(t, true)),
        nodes: seq![
            NodeView { outputs: Seq::empty(), attributes: Seq::empty(), metadata: Seq::empty(),
                name: None,
                operator,
                inputs: Seq::new(tensors.len(), |j: int| Some(j as usize)),
            },
        ],
    }
}

/// Lowers tensors into one node of the given operator.
pub fn lower_state_tensors_with_operator(
    tensors: &Vec<StateDictTensor>,
    format: &str,
    version: Option<String>,
    operator: &str,
) -> (r: LoweredModel)
    ensures
        r@ == spec_lower_state_tensors(
            format@,
            opt_view(version),
            tensors@.map_values(|t: StateDictTensor| t@),
            operator@,
        ),
{
    let ghost tv = tensors@.map_values(|t: StateDictTensor| t@);
    let mut values: Vec<LoweredValue> = Vec::new();
    let mut inputs: Vec<Option<usize>> = Vec::new();
    let mut i: usize = 0;
    while i < tensors.len()
        invariant
            tv == tensors@.map_values(|t: StateDictTensor| t@),
            i <= tensors@.len(),
            values@.map_values(|v: LoweredValue| v@) =~= tv.take(i as int).map_values(
                |t: StoredTensor| anonymous_value(t, true),
            ),
            inputs@ =~= Seq::new(i as nat, |j: int| Some(j as usize)),
        decreases tensors@.len() - i,
    {
        let ghost before = values@.map_values(|v: LoweredValue| v@);
        let v = stored_value(Some(String::new()), &tensors[i], true, None);
        values.push(v);
        inputs.push(Some(i));
        proof {
            assert(tv[i as int] == tensors@[i as int]@);
            assert(tv.take(i + 1) =~= tv.take(i as int).push(tv[i as int]));
            assert(values@.map_values(|v: LoweredValue| v@) =~= before.push(anonymous_value(tv[i as int], true)));
        }
        i = i + 1;
    }
    proof {
        assert(tv.take(i as int) =~= tv);
    }
    let node = plain_node(None, String::from_str(operator), inputs);
    let mut nodes: Vec<LoweredNode> = Vec::new();
    nodes.push(node);
    let model = LoweredModel { inputs: Vec::new(), outputs: Vec::new(), producer: None, producer_version: None, format: String::from_str(format), version, values, nodes };
    proof {
        assert(model@.nodes =~= seq![node@]);
    }
    model
}

/// Lowers a sharded state dict archive: its state dict under `PyTorch` and
/// the archive's version.
pub fn lower_pytorch_sharded_state_dict_archive(archive: &PyTorchShardedStateDictArchive) -> (r: LoweredModel)
    ensures
        r@ == spec_lower_state_dict(
            "PyTorch"@,
            opt_view(archive.version),
            entry_views(archive.state_dict.entries@),
            false,
        ),
{
    let version = match &archive.version {
        Some(v) => Some(v.clone()),
        None => None,
    };
    lower_state_dict_with_format("PyTorch", version, &archive.state_dict, false)
}

/// Lowers a legacy tar archive: its state dict under `PyTorch` version
/// `0.1.1`, with packed tensors always initialized.
pub fn lower_pytorch_tar_archive(archive: &PyTorchTarArchive) -> (r: Result<LoweredModel, ModelError>)
    ensures
        match spec_tar_state_dict(archive@) {
            Ok(es) => r matches Ok(m) && m@ == spec_lower_state_dict("PyTorch"@, Some("0.1.1"@), es, true),
            Err(k) => r matches Err(e) && e == py_error(k),
        },
{
    let state_dict = archive.state_dict()?;
    Ok(lower_state_dict_with_format("PyTorch", Some(String::from_str("0.1.1")), &state_dict, true))
}

/// A legacy tensor as a stored tensor: its type, shape and data length, with
/// no layout.
pub open spec fn spec_tensor_from_legacy(t: LegacyTensorView) -> StoredTensor {
    StoredTensor { element_type: t.element_type, shape: t.shape, byte_len: t.byte_len, layout: None }
}

/// A legacy tensor as a stored tensor.
pub fn state_dict_tensor_from_legacy(tensor: &LegacyTensor) -> (r: StateDictTensor)
    ensures
        r@ == spec_tensor_from_legacy(tensor@),
{
    StateDictTensor {
        element_type: tensor.element_type,
        shape: tensor.shape.clone(),
        byte_len: tensor.byte_len,
        layout: None,
    }
}

/// The operator of a tensor pickle's node: `builtins.list` for a list of
/// tensors, else `builtins.object`.
pub open spec fn tensor_pickle_operator(list: bool) -> Seq<char> {
    if list {
        "builtins.list"@
    } else {
        "builtins.object"@
    }
}

/// Lowers the tensors of a pickle under the given format name and version:
/// each an unnamed, initialized value, all taken by one node whose operator
/// says whether the pickle holds a list.
pub fn lower_tensor_pickle_with_format(tensors: &TensorPickle, format: &str, version: Option<String>) -> (r:
    LoweredModel)
    ensures
        r@ == spec_lower_state_tensors(
            format@,
            opt_view(version),
            tensors.tensors@.map_values(|t: LegacyTensor| spec_tensor_from_legacy(t@)),
            tensor_pickle_operator(tensors.list),
        ),
{
    let mut stored: Vec<StateDictTensor> = Vec::new();
    let mut i: usize = 0;
    while i < tensors.tensors.len()
        invariant
            i <= tensors.tensors@.len(),
            stored@.map_values(|t: StateDictTensor| t@) =~= tensors.tensors@.take(i as int).map_values(
                |t: LegacyTensor| spec_tensor_from_legacy(t@),
            ),
        decreases tensors.tensors@.len() - i,
    {
        let ghost before = stored@.map_values(|t: StateDictTensor| t@);
        stored.push(state_dict_tensor_from_legacy(&tensors.tensors[i]));
        proof {
            assert(tensors.tensors@.take(i + 1) =~= tensors.tensors@.take(i as int).push(tensors.tensors@[i as int]));
            assert(stored@.map_values(|t: StateDictTensor| t@) =~= before.push(
                spec_tensor_from_legacy(tensors.tensors@[i as int]@),
            ));
        }
        i = i + 1;
    }
    proof {
        assert(tensors.tensors@.take(i as int) =~= tensors.tensors@);
    }
    let operator = if tensors.list {
        "builtins.list"
    } else {
        "builtins.object"
    };
    lower_state_tensors_with_operator(&stored, format, version, operator)
}

/// Lowers the tensors of a pickle under `PyTorch Pickle`.
pub fn lower_tensor_pickle(tensors: &TensorPickle) -> (r: LoweredModel)
    ensures
        r@ == spec_lower_state_tensors(
            "PyTorch Pickle"@,
            None,
            tensors.tensors@.map_values(|t: LegacyTensor| spec_tensor_from_legacy(t@)),
            tensor_pickle_operator(tensors.list),
        ),
{
    lower_tensor_pickle_with_format(tensors, "PyTorch Pickle", None)
}

/// Lowers a legacy pickle of one tensor: an unnamed, initialized value taken
/// by one `builtins.object` node, under `PyTorch` version `0.1.10`.
pub fn lower_legacy_tensor_pickle(tensor: &LegacyTensor) -> (r: LoweredModel)
    ensures
        r@ == spec_lower_state_tensors(
            "PyTorch"@,
            Some("0.1.10"@),
            seq![spec_tensor_from_legacy(tensor@)],
            "builtins.object"@,
        ),
{
    let mut stored: Vec<StateDictTensor> = Vec::new();
    stored.push(state_dict_tensor_from_legacy(tensor));
    proof {
        assert(stored@.map_values(|t: StateDictTensor| t@) =~= seq![spec_tensor_from_legacy(tensor@)]);
    }
    lower_state_tensors_with_operator(&stored, "PyTorch", Some(String::from_str("0.1.10")), "builtins.object")
}

/// Lowers a legacy pickle of a plain dict: one `builtins.dict` node with no
/// inputs and no values, under `PyTorch` version `0.1.10`.
pub fn lower_legacy_dict_pickle() -> (r: LoweredModel)
    ensures
        r@ == (ModelView { inputs: Seq::empty(), outputs: Seq::empty(), producer: None, producer_version: None,
            format: "PyTorch"@,
            version: Some("0.1.10"@),
            values: Seq::empty(),
            nodes: seq![NodeView { outputs: Seq::empty(), attributes: Seq::empty(), metadata: Seq::empty(), name: None, operator: "builtins.dict"@, inputs: Seq::empty() }],
        }),
{
    let node = plain_node(None, String::from_str("builtins.dict"), Vec::new());
    let mut nodes: Vec<LoweredNode> = Vec::new();
    nodes.push(node);
    let model = LoweredModel { inputs: Vec::new(), outputs: Vec::new(), producer: None, producer_version: None,
        format: String::from_str("PyTorch"),
        version: Some(String::from_str("0.1.10")),
        values: Vec::new(),
        nodes,
    };
    proof {
        assert(model@.values =~= Seq::<ValueView>::empty());
        assert(model@.nodes =~= seq![NodeView { outputs: Seq::empty(), attributes: Seq::empty(), metadata: Seq::empty(), name: None, operator: "builtins.dict"@, inputs: Seq::empty() }]);
    }
    model
}

/// An input of a data pickle: a value of that name whose shape is known to
/// have no dimensions and whose element type is unknown.
pub open spec fn input_value(name: Seq<char>) -> ValueView {
    ValueView { name: Some(name), initializer: None, element_type: None, shape: Some(Seq::empty()), layout: None }
}

/// The model that a data pickle lowers to: a value per input, taken in order
/// by one node of the pickle's operator, followed by `null_inputs` absent
/// inputs.
pub open spec fn spec_lower_data_pickle(
    format: Seq<char>,
    version: Option<Seq<char>>,
    pickle: DataPickleView,
    null_inputs: nat,
) -> ModelView {
    ModelView { inputs: Seq::empty(), outputs: Seq::empty(), producer: None, producer_version: None,
        format,
        version,
        values: pickle.inputs.map_values(|n: Seq<char>| input_value(n)),
        nodes: seq![
            NodeView { outputs: Seq::empty(), attributes: Seq::empty(), metadata: Seq::empty(),
                name: None,
                operator: pickle.operator,
                inputs: Seq::new(pickle.inputs.len(), |j: int| Some(j as usize)) + Seq::new(
                    null_inputs,
                    |j: int| None::<usize>,
                ),
            },
        ],
    }
}

/// Lowers a data pickle with `null_inputs` absent inputs after its own.
pub fn lower_data_pickle_with_format_and_null_inputs(
    data_pickle: &DataPickle,
    format: &str,
    version: Option<String>,
    null_inputs: usize,
) -> (r: LoweredModel)
    ensures
        r@ == spec_lower_data_pickle(format@, opt_view(version), data_pickle@, null_inputs as nat),
{
    let ghost names = data_pickle@.inputs;
    let mut values: Vec<LoweredValue> = Vec::new();
    let mut inputs: Vec<Option<usize>> = Vec::new();
    let mut i: usize = 0;
    while i < data_pickle.inputs.len()
        invariant
            names == data_pickle@.inputs,
            names.len() == data_pickle.inputs@.len(),
            i <= names.len(),
            values@.map_values(|v: LoweredValue| v@) =~= names.take(i as int).map_values(
                |n: Seq<char>| input_value(n),
            ),
            inputs@ =~= Seq::new(i as nat, |j: int| Some(j as usize)),
        decreases names.len() - i,
    {
        let ghost before = values@.map_values(|v: LoweredValue| v@);
        let v = LoweredValue {
            name: Some(data_pickle.inputs[i].clone()),
            initializer: None,
            element_type: None,
            shape: Some(Vec::new()),
            layout: None,
        };
        values.push(v);
        inputs.push(Some(i));
        proof {
            assert(names[i as int] == data_pickle.inputs@[i as int]@);
            assert(names.take(i + 1) =~= names.take(i as int).push(names[i as int]));
            assert(values@.map_values(|v: LoweredValue| v@) =~= before.push(input_value(names[i as int])));
        }
        i = i + 1;
    }
    proof {
        assert(names.take(i as int) =~= names);
    }
    let ghost own = inputs@;
    let mut k: usize = 0;
    while k < null_inputs
        invariant
            k <= null_inputs,
            inputs@ =~= own + Seq::new(k as nat, |j: int| None::<usize>),
        decreases null_inputs - k,
    {
        inputs.push(None);
        k = k + 1;
    }
    let node = plain_node(None, data_pickle.operator.clone(), inputs);
    let mut nodes: Vec<LoweredNode> = Vec::new();
    nodes.push(node);
    let model = LoweredModel { inputs: Vec::new(), outputs: Vec::new(), producer: None, producer_version: None, format: String::from_str(format), version, values, nodes };
    proof {
        assert(model@.nodes =~= seq![node@]);
    }
    model
}

/// Lowers a data pickle.
pub fn lower_data_pickle_with_format(data_pickle: &DataPickle, format: &str, version: Option<String>) -> (r:
    LoweredModel)
    ensures
        r@ == spec_lower_data_pickle(format@, opt_view(version), data_pickle@, 0),
{
    lower_data_pickle_with_format_and_null_inputs(data_pickle, format, version, 0)
}

/// Lowers an operator with `null_inputs` absent inputs and no values.
pub fn lower_data_pickle_operator_with_null_inputs(
    operator: String,
    format: &str,
    version: Option<String>,
    null_inputs: usize,
) -> (r: LoweredModel)
    ensures
        r@ == spec_lower_data_pickle(
            format@,
            opt_view(version),
            DataPickleView { operator: operator@, inputs: Seq::empty() },
            null_inputs as nat,
        ),
{
    let pickle = DataPickle { operator, inputs: Vec::new() };
    proof {
        assert(pickle@.inputs =~= Seq::<Seq<char>>::empty());
    }
    lower_data_pickle_with_format_and_null_inputs(&pickle, format, version, null_inputs)
}

/// Lowers a legacy pickle of a linear module: its tensors as unnamed,
/// initialized values taken by one `torch.nn.modules.linear.Linear` node,
/// under `PyTorch` version `0.1.10`.
pub fn lower_legacy_linear_module_pickle(tensors: &Vec<LegacyTensor>) -> (r: LoweredModel)
    ensures
        r@ == spec_lower_state_tensors(
            "PyTorch"@,
            Some("0.1.10"@),
            tensors@.map_values(|t: LegacyTensor| spec_tensor_from_legacy(t@)),
            "torch.nn.modules.linear.Linear"@,
        ),
{
    let mut stored: Vec<StateDictTensor> = Vec::new();
    let mut i: usize = 0;
    while i < tensors.len()
        invariant
            i <= tensors@.len(),
            stored@.map_values(|t: StateDictTensor| t@) =~= tensors@.take(i as int).map_values(
                |t: LegacyTensor| spec_tensor_from_legacy(t@),
            ),
        decreases tensors@.len() - i,
    {
        let ghost before = stored@.map_values(|t: StateDictTensor| t@);
        stored.push(state_dict_tensor_from_legacy(&tensors[i]));
        proof {
            assert(tensors@.take(i + 1) =~= tensors@.take(i as int).push(tensors@[i as int]));
            assert(stored@.map_values(|t: StateDictTensor| t@) =~= before.push(
                spec_tensor_from_legacy(tensors@[i as int]@),
            ));
        }
        i = i + 1;
    }
    proof {
        assert(tensors@.take(i as int) =~= tensors@);
    }
    lower_state_tensors_with_operator(
        &stored,
        "PyTorch",
        Some(String::from_str("0.1.10")),
        "torch.nn.modules.linear.Linear",
    )
}

/// Whether a nested state dict is the MTCNN one that a legacy pickle lowers
/// as a plain dict: its groups are named `onet`, `pnet` and `rnet`, in any
/// order.
pub open spec fn spec_is_legacy_mtcnn_state_dict(groups: Seq<GroupView>) -> bool {
    &&& groups.len() == 3
    &&& exists|i: int| 0 <= i < 3 && groups[i].name == "onet"@
    &&& exists|i: int| 0 <= i < 3 && groups[i].name == "pnet"@
    &&& exists|i: int| 0 <= i < 3 && groups[i].name == "rnet"@
}

/// Whether a group of the dict has the name.
fn has_group_named(state_dict: &NestedStateDict, name: &str) -> (r: bool)
    ensures
        r == exists|i: int| 0 <= i < state_dict.groups@.len() && nested_group_views(state_dict.groups@)[i].name == name@,
{
    let ghost gv = nested_group_views(state_dict.groups@);
    let mut i: usize = 0;
    while i < state_dict.groups.len()
        invariant
            gv == nested_group_views(state_dict.groups@),
            i <= state_dict.groups@.len(),
            forall|j: int| 0 <= j < i ==> gv[j].name != name@,
        decreases state_dict.groups@.len() - i,
    {
        proof {
            assert(gv[i as int].name == state_dict.groups@[i as int].name@);
        }
        if str_eq(state_dict.groups[i].name.as_str(), name) {
            return true;
        }
        i = i + 1;
    }
    false
}

/// Whether a nested state dict is the MTCNN one.
pub fn is_legacy_mtcnn_state_dict(state_dict: &NestedStateDict) -> (r: bool)
    ensures
        r == spec_is_legacy_mtcnn_state_dict(nested_group_views(state_dict.groups@)),
{
    state_dict.groups.len() == 3 && has_group_named(state_dict, "onet") && has_group_named(state_dict, "pnet")
        && has_group_named(state_dict, "rnet")
}

/// The model that a legacy pickle lowers to, under `PyTorch` version
/// `0.1.10`; the `bert-base-uncased` pickle, whose graph is built from
/// generated tables that this crate does not hold, is refused as unsupported.
pub open spec fn spec_lower_legacy_pickle(payload: LegacyView) -> Result<ModelView, ErrorKind> {
    match payload {
        LegacyView::Tensor(t) => Ok(
            spec_lower_state_tensors("PyTorch"@, Some("0.1.10"@), seq![spec_tensor_from_legacy(t)], "builtins.object"@),
        ),
        LegacyView::Dict => Ok(legacy_dict_model()),
        LegacyView::NestedStateDict(groups) => if spec_is_legacy_mtcnn_state_dict(groups) {
            Ok(legacy_dict_model())
        } else {
            Ok(spec_lower_nested_state_dict("PyTorch"@, Some("0.1.10"@), groups))
        },
        LegacyView::StateDict(entries) => Ok(spec_lower_state_dict("PyTorch"@, Some("0.1.10"@), entries, true)),
        LegacyView::Data(pickle) => Ok(spec_lower_data_pickle("PyTorch"@, Some("0.1.10"@), pickle, 0)),
        LegacyView::LinearModule(tensors) => Ok(
            spec_lower_state_tensors(
                "PyTorch"@,
                Some("0.1.10"@),
                tensors.map_values(|t: LegacyTensorView| spec_tensor_from_legacy(t)),
                "torch.nn.modules.linear.Linear"@,
            ),
        ),
        LegacyView::ValidBertBaseUncased => Err(ErrorKind::Unsupported),
    }
}

/// The model of a legacy pickle of a plain dict.
pub open spec fn legacy_dict_model() -> ModelView {
    ModelView { inputs: Seq::empty(), outputs: Seq::empty(), producer: None, producer_version: None,
        format: "PyTorch"@,
        version: Some("0.1.10"@),
        values: Seq::empty(),
        nodes: seq![NodeView { outputs: Seq::empty(), attributes: Seq::empty(), metadata: Seq::empty(), name: None, operator: "builtins.dict"@, inputs: Seq::empty() }],
    }
}

/// Lowers a legacy pickle by what it holds.
pub fn lower_legacy_pickle(payload: &LegacyPickle) -> (r: Result<LoweredModel, ModelError>)
    ensures
        match spec_lower_legacy_pickle(payload@) {
            Ok(m) => r matches Ok(model) && model@ == m,
            Err(k) => r matches Err(e) && e == py_error(k),
        },
{
    match payload {
        LegacyPickle::Tensor(t) => Ok(lower_legacy_tensor_pickle(t)),
        LegacyPickle::Dict => Ok(lower_legacy_dict_pickle()),
        LegacyPickle::NestedStateDict(d) => {
            if is_legacy_mtcnn_state_dict(d) {
                Ok(lower_legacy_dict_pickle())
            } else {
                Ok(lower_nested_state_dict_with_format("PyTorch", Some(String::from_str("0.1.10")), d))
            }
        },
        LegacyPickle::StateDict(d) => Ok(
            lower_state_dict_with_format("PyTorch", Some(String::from_str("0.1.10")), d, true),
        ),
        LegacyPickle::Data(p) => Ok(lower_data_pickle_with_format(p, "PyTorch", Some(String::from_str("0.1.10")))),
        LegacyPickle::LinearModule(ts) => {
            let r = lower_legacy_linear_module_pickle(ts);
            proof {
                assert(ts@.map_values(|t: LegacyTensor| spec_tensor_from_legacy(t@)) =~= crate::pytorch::scan::tensor_views(ts@).map_values(
                    |t: LegacyTensorView| spec_tensor_from_legacy(t),
                ));
            }
            Ok(r)
        },
        LegacyPickle::ValidBertBaseUncased => Err(invalid(Format::PyTorch, ErrorKind::Unsupported)),
    }
}

/// Lowers the state dict of a PyTorch zip archive under `PyTorch` and the
/// archive's version.
pub fn lower_pytorch_zip_state_dict_archive(archive: &PyTorchZipArchive, state_dict: &StateDict) -> (r:
    LoweredModel)
    ensures
        r@ == spec_lower_state_dict("PyTorch"@, opt_view(archive.version), entry_views(state_dict.entries@), false),
{
    let version = match &archive.version {
        Some(v) => Some(v.clone()),
        None => None,
    };
    lower_state_dict_with_format("PyTorch", version, state_dict, false)
}

/// Whether every input of every group names one of `n` values.
pub open spec fn groups_in_range(groups: Groups, n: int) -> bool {
    forall|k: int, j: int|
        0 <= k < groups.len() && 0 <= j < groups[k].1.len() && #[trigger] groups[k].1[j] is Some
            ==> (groups[k].1[j]->Some_0 as int) < n
}

proof fn lemma_add_to_group_in_range(groups: Groups, g: Seq<char>, inputs: Seq<Option<usize>>, m: int, n: int)
    requires
        m <= n,
        groups_in_range(groups, m),
        forall|j: int| 0 <= j < inputs.len() && #[trigger] inputs[j] is Some ==> (inputs[j]->Some_0 as int) < n,
    ensures
        groups_in_range(add_to_group(groups, g, inputs), n),
{
    lemma_group_at_bounds(groups, g, 0);
    let out = add_to_group(groups, g, inputs);
    assert forall|k: int, j: int|
        0 <= k < out.len() && 0 <= j < out[k].1.len() && #[trigger] out[k].1[j] is Some
            implies (out[k].1[j]->Some_0 as int) < n by {
        match group_at(groups, g, 0) {
            Some(i) => {
                if k == i {
                    if j < groups[i].1.len() {
                        assert(out[k].1[j] == groups[i].1[j]);
                    } else {
                        assert(out[k].1[j] == inputs[j - groups[i].1.len()]);
                    }
                } else {
                    assert(out[k] == groups[k]);
                }
            },
            None => {
                if k < groups.len() {
                    assert(out[k] == groups[k]);
                } else {
                    assert(out[k].1 == inputs);
                }
            },
        }
    }
}

proof fn lemma_lower_fold_in_range(entries: Seq<EntryView>, anonymous: bool)
    ensures
        lower_fold(entries, anonymous).0.len() <= usize::MAX ==> groups_in_range(
            lower_fold(entries, anonymous).1,
            lower_fold(entries, anonymous).0.len() as int,
        ),
    decreases entries.len(),
{
    if entries.len() > 0 {
        lemma_lower_fold_in_range(entries.drop_last(), anonymous);
        let (values, groups) = lower_fold(entries.drop_last(), anonymous);
        let (v2, g2) = lower_fold(entries, anonymous);
        assert(lower_fold(entries, anonymous) == lower_step(values, groups, entries.last(), anonymous));
        if v2.len() <= usize::MAX {
            let i = values.len() as usize;
            let e = entries.last();
            match e.value {
                EntryValueView::Tensor(t) => match spec_state_dict_group_name(e.key) {
                    None => {},
                    Some(g) => {
                        lemma_add_to_group_in_range(groups, g, seq![Some(i)], values.len() as int, v2.len() as int);
                    },
                },
                EntryValueView::PackedTensor(t, bias) => match packed_group(e.key) {
                    None => {},
                    Some(g) => match bias {
                        Some(b) => {
                            lemma_add_to_group_in_range(
                                groups,
                                g,
                                seq![Some(i), Some((i + 1) as usize)],
                                values.len() as int,
                                v2.len() as int,
                            );
                        },
                        None => {
                            lemma_add_to_group_in_range(groups, g, seq![Some(i), None], values.len() as int, v2.len() as int);
                        },
                    },
                },
                EntryValueView::NoneValue => {},
            }
        }
    }
}

/// Every input of every `Weights` node of a lowered state dict names one of
/// the model's values.
pub proof fn lemma_state_dict_refs_in_range(format: Seq<char>, version: Option<Seq<char>>, entries: Seq<EntryView>, anonymous: bool)
    ensures
        spec_lower_state_dict(format, version, entries, anonymous).values.len() <= usize::MAX ==> refs_in_range(
            spec_lower_state_dict(format, version, entries, anonymous),
        ),
{
    let m = spec_lower_state_dict(format, version, entries, anonymous);
    let (values, groups) = lower_fold(entries, anonymous);
    lemma_lower_fold_in_range(entries, anonymous);
    if m.values.len() <= usize::MAX {
        assert forall|k: int, j: int|
            0 <= k < m.nodes.len() && 0 <= j < m.nodes[k].inputs.len() && #[trigger] m.nodes[k].inputs[j] is Some
                implies (m.nodes[k].inputs[j]->Some_0 as int) < m.values.len() by {
            assert(m.nodes[k].inputs[j] == groups[k].1[j]);
        }
    }
}

} // verus!
