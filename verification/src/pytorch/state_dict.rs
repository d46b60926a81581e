//! State dicts read from a pickle: the entries of the root dict, or the
//! groups of a dict of dicts.
use vstd::prelude::*;
use vstd::string::StringExecFns;
use crate::chars::{rsplit_once, str_rsplit_once};
use crate::error::{ErrorKind, ModelError};
use crate::pytorch::machine::{
    PickleMachine, PickleValue, TensorView, ValueView, copy_tensor, items_view, named_view,
    pairs_view, spec_execute, tensor_of, value_view,
};
use crate::pytorch::machine::StateDictTensor;
use crate::pytorch::pickle::{
    first_global, first_pickle_payload_opcode, opt_string_view, spec_first_global,
    spec_payload_opcode_from,
};
use crate::pytorch::py_error;
use crate::text::{has_suffix, str_ends_with, str_eq};

verus! {

// ---------------------------------------------------------------------------
// Entries

/// What a state dict entry holds: a tensor, a packed tensor with its bias,
/// or nothing.
pub enum StateDictEntryValue {
    Tensor(StateDictTensor),
    PackedTensor { tensor: StateDictTensor, bias: Option<StateDictTensor> },
    NoneValue,
}

pub enum EntryValueView {
    Tensor(TensorView),
    PackedTensor(TensorView, Option<TensorView>),
    NoneValue,
}

/// An entry of a state dict.
pub struct StateDictEntry {
    pub key: String,
    pub value: StateDictEntryValue,
}

pub struct EntryView {
    pub key: Seq<char>,
    pub value: EntryValueView,
}

impl View for StateDictEntry {
    type V = EntryView;

    open spec fn view(&self) -> EntryView {
        EntryView {
            key: self.key@,
            value: match self.value {
                StateDictEntryValue::Tensor(t) => EntryValueView::Tensor(t@),
                StateDictEntryValue::PackedTensor { tensor, bias } => EntryValueView::PackedTensor(
                    tensor@,
                    match bias {
                        Some(b) => Some(b@),
                        None => None,
                    },
                ),
                StateDictEntryValue::NoneValue => EntryValueView::NoneValue,
            },
        }
    }
}

/// The entry that `key` and `value` make: a tensor; a tuple whose first item
/// is a tensor, under a key of packed parameters, with the second item as
/// bias when it is a tensor; or nothing. Other values make no entry.
pub open spec fn spec_state_dict_entry(key: Seq<char>, value: ValueView) -> Option<EntryView> {
    match value {
        ValueView::Tensor(t) => Some(EntryView { key, value: EntryValueView::Tensor(t) }),
        ValueView::Tuple(vs) => if has_suffix(key, "._packed_params._packed_params"@) && vs.len()
            > 0 && vs[0] is Tensor {
            Some(
                EntryView {
                    key,
                    value: EntryValueView::PackedTensor(
                        tensor_of(vs[0]),
                        if vs.len() > 1 && vs[1] is Tensor {
                            Some(tensor_of(vs[1]))
                        } else {
                            None
                        },
                    ),
                },
            )
        } else {
            None
        },
        ValueView::NoneValue => Some(EntryView { key, value: EntryValueView::NoneValue }),
        _ => None,
    }
}

/// The entry that `key` and `value` make.
pub fn state_dict_entry(key: String, value: PickleValue) -> (r: Option<StateDictEntry>)
    ensures
        match spec_state_dict_entry(key@, value@) {
            Some(e) => r matches Some(x) && x@ == e,
            None => r is None,
        },
{
    match value {
        PickleValue::Tensor(t) => Some(StateDictEntry { key, value: StateDictEntryValue::Tensor(t) }),
        PickleValue::Tuple(values) => {
            let ghost vs = items_view(values@);
            if !str_ends_with(key.as_str(), "._packed_params._packed_params") || values.len() == 0 {
                return None;
            }
            proof {
                assert(vs[0] == value_view(values@[0]));
            }
            let tensor = match &values[0] {
                PickleValue::Tensor(t) => copy_tensor(t),
                _ => return None,
            };
            let bias = if values.len() > 1 {
                proof {
                    assert(vs[1] == value_view(values@[1]));
                }
                match &values[1] {
                    PickleValue::Tensor(t) => Some(copy_tensor(t)),
                    _ => None,
                }
            } else {
                None
            };
            Some(StateDictEntry { key, value: StateDictEntryValue::PackedTensor { tensor, bias } })
        },
        PickleValue::NoneValue => Some(StateDictEntry { key, value: StateDictEntryValue::NoneValue }),
        _ => None,
    }
}

/// The entries that the named values of an ordered dict make, in order.
pub open spec fn named_entries(items: Seq<(Seq<char>, ValueView)>) -> Seq<EntryView>
    decreases items.len(),
{
    if items.len() == 0 {
        Seq::empty()
    } else {
        let rest = named_entries(items.drop_last());
        match spec_state_dict_entry(items.last().0, items.last().1) {
            Some(e) => rest.push(e),
            None => rest,
        }
    }
}

/// The entries that the text-keyed values of a dict make, in order.
pub open spec fn keyed_entries(items: Seq<(ValueView, ValueView)>) -> Seq<EntryView>
    decreases items.len(),
{
    if items.len() == 0 {
        Seq::empty()
    } else {
        let rest = keyed_entries(items.drop_last());
        match items.last().0 {
            ValueView::Text(k) => match spec_state_dict_entry(k, items.last().1) {
                Some(e) => rest.push(e),
                None => rest,
            },
            _ => rest,
        }
    }
}

/// The views of entries.
pub open spec fn entry_views(v: Seq<StateDictEntry>) -> Seq<EntryView> {
    v.map_values(|e: StateDictEntry| e@)
}

/// Adds the entry that `key` and `value` make, if any.
fn push_entry(entries: &mut Vec<StateDictEntry>, key: String, value: PickleValue)
    ensures
        entry_views(final(entries)@) == match spec_state_dict_entry(key@, value@) {
            Some(e) => entry_views(old(entries)@).push(e),
            None => entry_views(old(entries)@),
        },
{
    let ghost before = entry_views(entries@);
    if let Some(e) = state_dict_entry(key, value) {
        entries.push(e);
        proof {
            assert(entry_views(entries@) =~= before.push(entries@.last()@));
        }
    }
}

/// The entries of an ordered dict's named values.
fn ordered_entries(values: Vec<(String, PickleValue)>) -> (r: Vec<StateDictEntry>)
    ensures
        entry_views(r@) == named_entries(named_view(values@)),
{
    let ghost view = named_view(values@);
    let mut entries: Vec<StateDictEntry> = Vec::new();
    let mut items = values;
    let ghost n = view.len();
    let _len = items.len();
    proof {
        assert(entry_views(entries@) =~= named_entries(view.take(0)));
    }
    let mut i: usize = 0;
    while items.len() > 0
        invariant
            n == view.len(),
            n <= usize::MAX,
            i + items@.len() == n,
            view == named_view(values@),
            forall|k: int| 0 <= k < items@.len() ==> (#[trigger] items@[k]).0@ == view[i + k].0
                && value_view(items@[k].1) == view[i + k].1,
            entry_views(entries@) == named_entries(view.take(i as int)),
        decreases items@.len(),
    {
        let (key, value) = items.remove(0);
        proof {
            assert(key@ == view[i as int].0 && value_view(value) == view[i as int].1);
            assert(view.take(i + 1).drop_last() =~= view.take(i as int));
        }
        push_entry(&mut entries, key, value);
        i = i + 1;
        proof {
            assert forall|k: int| 0 <= k < items@.len() implies (#[trigger] items@[k]).0@ == view[i
                + k].0 && value_view(items@[k].1) == view[i + k].1 by {
                assert(items@[k].0@ == view[(i - 1) + (k + 1)].0 && value_view(items@[k].1) == view[(i
                    - 1) + (k + 1)].1);
            }
        }
    }
    proof {
        assert(view.take(n as int) =~= view);
    }
    entries
}

/// The entries of a dict's text-keyed values.
fn dict_entries(values: Vec<(PickleValue, PickleValue)>) -> (r: Vec<StateDictEntry>)
    ensures
        entry_views(r@) == keyed_entries(pairs_view(values@)),
{
    let ghost view = pairs_view(values@);
    let mut entries: Vec<StateDictEntry> = Vec::new();
    let mut items = values;
    let ghost n = view.len();
    let _len = items.len();
    proof {
        assert(entry_views(entries@) =~= keyed_entries(view.take(0)));
    }
    let mut i: usize = 0;
    while items.len() > 0
        invariant
            n == view.len(),
            n <= usize::MAX,
            i + items@.len() == n,
            view == pairs_view(values@),
            forall|k: int| 0 <= k < items@.len() ==> value_view((#[trigger] items@[k]).0) == view[i
                + k].0 && value_view(items@[k].1) == view[i + k].1,
            entry_views(entries@) == keyed_entries(view.take(i as int)),
        decreases items@.len(),
    {
        let (key, value) = items.remove(0);
        proof {
            assert(value_view(key) == view[i as int].0 && value_view(value) == view[i as int].1);
            assert(view.take(i + 1).drop_last() =~= view.take(i as int));
        }
        if let PickleValue::Text(k) = key {
            push_entry(&mut entries, k, value);
        }
        i = i + 1;
        proof {
            assert forall|k: int| 0 <= k < items@.len() implies value_view((#[trigger] items@[k]).0)
                == view[i + k].0 && value_view(items@[k].1) == view[i + k].1 by {
                assert(value_view(items@[k].0) == view[(i - 1) + (k + 1)].0 && value_view(
                    items@[k].1,
                ) == view[(i - 1) + (k + 1)].1);
            }
        }
    }
    proof {
        assert(view.take(n as int) =~= view);
    }
    entries
}

// ---------------------------------------------------------------------------
// State dicts

/// The entries of a state dict.
pub struct StateDict {
    pub entries: Vec<StateDictEntry>,
}

/// Whether a pickle may hold a state dict: it starts with the global of an
/// ordered dict, or its first payload opcode makes a dict.
pub open spec fn may_hold_state_dict(data: Seq<u8>) -> bool {
    spec_first_global(data) == Some("collections.OrderedDict"@) || spec_payload_opcode_from(data, 0)
        == Some(0x7du8) || spec_payload_opcode_from(data, 0) == Some(0x64u8)
}

/// The entries of the state dict that a pickle holds: those of its root's
/// ordered dict, or of its root dict's text keys; none when the pickle may
/// hold no state dict, when its root is neither, or when no entry is made.
pub open spec fn spec_state_dict(data: Seq<u8>) -> Result<Option<Seq<EntryView>>, ErrorKind> {
    if !may_hold_state_dict(data) {
        Ok(None)
    } else {
        match spec_execute(data) {
            Err(e) => Err(e),
            Ok(None) => Ok(None),
            Ok(Some(root)) => {
                let entries = match root {
                    ValueView::OrderedDict(items) => Some(named_entries(items)),
                    ValueView::Dict(items) => Some(keyed_entries(items)),
                    _ => None,
                };
                match entries {
                    Some(e) => if e.len() == 0 {
                        Ok(None)
                    } else {
                        Ok(Some(e))
                    },
                    None => Ok(None),
                }
            },
        }
    }
}

impl StateDict {
    /// The state dict that a pickle holds.
    pub fn read(data: &[u8]) -> (r: Result<Option<Self>, ModelError>)
        ensures
            match spec_state_dict(data@) {
                Ok(None) => r matches Ok(None),
                Ok(Some(entries)) => r matches Ok(Some(d)) && entry_views(d.entries@) == entries,
                Err(k) => r matches Err(e) && e == py_error(k),
            },
    {
        let global = first_global(data);
        let ordered = match &global {
            Some(g) => str_eq(g.as_str(), "collections.OrderedDict"),
            None => false,
        };
        let opcode = first_pickle_payload_opcode(data);
        if !ordered && opcode != Some(0x7du8) && opcode != Some(0x64u8) {
            return Ok(None);
        }
        let root = match PickleMachine::execute(data)? {
            Some(root) => root,
            None => return Ok(None),
        };
        let entries = match root {
            PickleValue::OrderedDict(items) => ordered_entries(items),
            PickleValue::Dict(items) => dict_entries(items),
            _ => return Ok(None),
        };
        if entries.len() == 0 {
            return Ok(None);
        }
        Ok(Some(StateDict { entries }))
    }
}

// ---------------------------------------------------------------------------
// Nested state dicts

/// A named group of tensors.
pub struct NestedStateDictGroup {
    pub name: String,
    pub entries: Vec<(String, StateDictTensor)>,
}

pub struct GroupView {
    pub name: Seq<char>,
    pub entries: Seq<(Seq<char>, TensorView)>,
}

/// The views of named tensors.
pub open spec fn named_tensor_views(v: Seq<(String, StateDictTensor)>) -> Seq<(Seq<char>, TensorView)> {
    v.map_values(|e: (String, StateDictTensor)| (e.0@, e.1@))
}

impl View for NestedStateDictGroup {
    type V = GroupView;

    open spec fn view(&self) -> GroupView {
        GroupView { name: self.name@, entries: named_tensor_views(self.entries@) }
    }
}

/// The views of groups.
pub open spec fn group_views(v: Seq<NestedStateDictGroup>) -> Seq<GroupView> {
    v.map_values(|g: NestedStateDictGroup| g@)
}

/// The groups of a dict of dicts.
pub struct NestedStateDict {
    pub groups: Vec<NestedStateDictGroup>,
}

/// The named tensors of an ordered dict's values.
pub open spec fn named_tensors(items: Seq<(Seq<char>, ValueView)>) -> Seq<(Seq<char>, TensorView)>
    decreases items.len(),
{
    if items.len() == 0 {
        Seq::empty()
    } else {
        let rest = named_tensors(items.drop_last());
        match items.last().1 {
            ValueView::Tensor(t) => rest.push((items.last().0, t)),
            _ => rest,
        }
    }
}

/// The tensors of a dict's values, under their text keys.
pub open spec fn keyed_tensors(items: Seq<(ValueView, ValueView)>) -> Seq<(Seq<char>, TensorView)>
    decreases items.len(),
{
    if items.len() == 0 {
        Seq::empty()
    } else {
        let rest = keyed_tensors(items.drop_last());
        match (items.last().0, items.last().1) {
            (ValueView::Text(k), ValueView::Tensor(t)) => rest.push((k, t)),
            _ => rest,
        }
    }
}

/// The tensors of a group's value: those of an ordered dict, or those of a
/// dict under text keys; none for any other value.
pub open spec fn spec_nested_entries(value: ValueView) -> Seq<(Seq<char>, TensorView)> {
    match value {
        ValueView::OrderedDict(items) => named_tensors(items),
        ValueView::Dict(items) => keyed_tensors(items),
        _ => Seq::empty(),
    }
}

/// The tensors of a group's value.
pub fn nested_state_dict_entries(value: &PickleValue) -> (r: Vec<(String, StateDictTensor)>)
    ensures
        named_tensor_views(r@) == spec_nested_entries(value@),
{
    let mut out: Vec<(String, StateDictTensor)> = Vec::new();
    match value {
        PickleValue::OrderedDict(items) => {
            let ghost view = named_view(items@);
            let mut i: usize = 0;
            proof {
                assert(named_tensor_views(out@) =~= named_tensors(view.take(0)));
            }
            while i < items.len()
                invariant
                    view == named_view(items@),
                    i <= items@.len(),
                    named_tensor_views(out@) == named_tensors(view.take(i as int)),
                decreases items@.len() - i,
            {
                proof {
                    assert(view[i as int] == (items@[i as int].0@, value_view(items@[i as int].1)));
                    assert(view.take(i + 1).drop_last() =~= view.take(i as int));
                }
                let ghost before = named_tensor_views(out@);
                if let PickleValue::Tensor(t) = &items[i].1 {
                    out.push((items[i].0.clone(), copy_tensor(t)));
                    proof {
                        assert(named_tensor_views(out@) =~= before.push((view[i as int].0, t@)));
                    }
                }
                i = i + 1;
            }
            proof {
                assert(view.take(items@.len() as int) =~= view);
            }
        },
        PickleValue::Dict(items) => {
            let ghost view = pairs_view(items@);
            let mut i: usize = 0;
            proof {
                assert(named_tensor_views(out@) =~= keyed_tensors(view.take(0)));
            }
            while i < items.len()
                invariant
                    view == pairs_view(items@),
                    i <= items@.len(),
                    named_tensor_views(out@) == keyed_tensors(view.take(i as int)),
                decreases items@.len() - i,
            {
                proof {
                    assert(view[i as int] == (value_view(items@[i as int].0), value_view(
                        items@[i as int].1,
                    )));
                    assert(view.take(i + 1).drop_last() =~= view.take(i as int));
                }
                let ghost before = named_tensor_views(out@);
                if let PickleValue::Text(k) = &items[i].0 {
                    if let PickleValue::Tensor(t) = &items[i].1 {
                        out.push((k.clone(), copy_tensor(t)));
                        proof {
                            assert(named_tensor_views(out@) =~= before.push((k@, t@)));
                        }
                    }
                }
                i = i + 1;
            }
            proof {
                assert(view.take(items@.len() as int) =~= view);
            }
        },
        _ => {
            proof {
                assert(named_tensor_views(out@) =~= Seq::<(Seq<char>, TensorView)>::empty());
            }
        },
    }
    out
}

/// The name of the one entry of a tensor that stands directly in the root
/// dict: what follows its name's last underscore, when that is not empty,
/// else the whole name.
pub open spec fn direct_entry_name(name: Seq<char>) -> Seq<char> {
    match rsplit_once(name, '_') {
        Some((_, suffix)) => if suffix.len() == 0 {
            name
        } else {
            suffix
        },
        None => name,
    }
}

/// The groups that the items of a root dict make, and the groups of the
/// tensors that stand directly in it: each text key other than `state_dict`
/// names a group of its value's tensors, kept when it has some; a tensor value
/// makes a group of its own.
pub open spec fn nested_groups(items: Seq<(ValueView, ValueView)>) -> (Seq<GroupView>, Seq<GroupView>)
    decreases items.len(),
{
    if items.len() == 0 {
        (Seq::empty(), Seq::empty())
    } else {
        let (groups, direct) = nested_groups(items.drop_last());
        match items.last().0 {
            ValueView::Text(name) => if name == "state_dict"@ {
                (groups, direct)
            } else {
                match items.last().1 {
                    ValueView::Tensor(t) => (
                        groups,
                        direct.push(
                            GroupView { name, entries: seq![(direct_entry_name(name), t)] },
                        ),
                    ),
                    v => {
                        let entries = spec_nested_entries(v);
                        if entries.len() > 0 {
                            (groups.push(GroupView { name, entries }), direct)
                        } else {
                            (groups, direct)
                        }
                    },
                }
            },
            _ => (groups, direct),
        }
    }
}

/// The groups of a pickle whose root is a dict of dicts: the groups of its
/// dict values, then those of its tensor values; none when the root is no
/// dict or no dict value makes a group.
pub open spec fn spec_nested_state_dict(data: Seq<u8>) -> Result<Option<Seq<GroupView>>, ErrorKind> {
    match spec_execute(data) {
        Err(e) => Err(e),
        Ok(Some(ValueView::Dict(items))) => {
            let (groups, direct) = nested_groups(items);
            if groups.len() == 0 {
                Ok(None)
            } else {
                Ok(Some(groups + direct))
            }
        },
        Ok(_) => Ok(None),
    }
}

/// The name of the one entry of a tensor that stands directly in the root
/// dict.
fn direct_entry_name_exec(name: &str) -> (r: String)
    ensures
        r@ == direct_entry_name(name@),
{
    match str_rsplit_once(name, '_') {
        Some((_, suffix)) => if suffix.unicode_len() == 0 {
            name.to_string()
        } else {
            suffix.to_string()
        },
        None => name.to_string(),
    }
}

impl NestedStateDict {
    /// The groups of a pickle whose root is a dict of dicts.
    pub fn read(data: &[u8]) -> (r: Result<Option<Self>, ModelError>)
        ensures
            match spec_nested_state_dict(data@) {
                Ok(None) => r matches Ok(None),
                Ok(Some(groups)) => r matches Ok(Some(d)) && group_views(d.groups@) == groups,
                Err(k) => r matches Err(e) && e == py_error(k),
            },
    {
        let root = match PickleMachine::execute(data)? {
            Some(root) => root,
            None => return Ok(None),
        };
        let items = match root {
            PickleValue::Dict(items) => items,
            _ => return Ok(None),
        };
        let ghost view = pairs_view(items@);
        let mut groups: Vec<NestedStateDictGroup> = Vec::new();
        let mut direct: Vec<NestedStateDictGroup> = Vec::new();
        let mut i: usize = 0;
        proof {
            assert(group_views(groups@) =~= nested_groups(view.take(0)).0);
            assert(group_views(direct@) =~= nested_groups(view.take(0)).1);
        }
        while i < items.len()
            invariant
                view == pairs_view(items@),
                i <= items@.len(),
                group_views(groups@) == nested_groups(view.take(i as int)).0,
                group_views(direct@) == nested_groups(view.take(i as int)).1,
            decreases items@.len() - i,
        {
            proof {
                assert(view[i as int] == (value_view(items@[i as int].0), value_view(
                    items@[i as int].1,
                )));
                assert(view.take(i + 1).drop_last() =~= view.take(i as int));
            }
            let ghost before_groups = group_views(groups@);
            let ghost before_direct = group_views(direct@);
            if let PickleValue::Text(name) = &items[i].0 {
                if !str_eq(name.as_str(), "state_dict") {
                    if let PickleValue::Tensor(t) = &items[i].1 {
                        let entry_name = direct_entry_name_exec(name.as_str());
                        let mut entries: Vec<(String, StateDictTensor)> = Vec::new();
                        entries.push((entry_name, copy_tensor(t)));
                        let group = NestedStateDictGroup { name: name.clone(), entries };
                        proof {
                            assert(named_tensor_views(group.entries@) =~= seq![
                                (direct_entry_name(name@), t@),
                            ]);
                        }
                        direct.push(group);
                        proof {
                            assert(group_views(direct@) =~= before_direct.push(direct@.last()@));
                        }
                    } else {
                        let entries = nested_state_dict_entries(&items[i].1);
                        if entries.len() > 0 {
                            let group = NestedStateDictGroup { name: name.clone(), entries };
                            groups.push(group);
                            proof {
                                assert(group_views(groups@) =~= before_groups.push(groups@.last()@));
                            }
                        }
                    }
                }
            }
            i = i + 1;
        }
        proof {
            assert(view.take(items@.len() as int) =~= view);
        }
        if groups.len() == 0 {
            return Ok(None);
        }
        let ghost g = group_views(groups@);
        let ghost d = group_views(direct@);
        groups.append(&mut direct);
        proof {
            assert(group_views(groups@) =~= g + d);
        }
        Ok(Some(NestedStateDict { groups }))
    }
}

// ---------------------------------------------------------------------------
// Tensors of a top-level dict

/// The tensors among a dict's values, in order.
pub open spec fn dict_tensors(items: Seq<(ValueView, ValueView)>) -> Seq<TensorView>
    decreases items.len(),
{
    if items.len() == 0 {
        Seq::empty()
    } else {
        let rest = dict_tensors(items.drop_last());
        match items.last().1 {
            ValueView::Tensor(t) => rest.push(t),
            _ => rest,
        }
    }
}

/// The tensors of a pickle whose root is a dict: those among its values;
/// none for another root.
pub open spec fn spec_top_level_dict_tensors(data: Seq<u8>) -> Result<Seq<TensorView>, ErrorKind> {
    match spec_execute(data) {
        Err(e) => Err(e),
        Ok(Some(ValueView::Dict(items))) => Ok(dict_tensors(items)),
        Ok(_) => Ok(Seq::empty()),
    }
}

/// The tensors among the values of a pickle's root dict.
pub fn top_level_pickle_dict_tensors(data: &[u8]) -> (r: Result<Vec<StateDictTensor>, ModelError>)
    ensures
        match spec_top_level_dict_tensors(data@) {
            Ok(ts) => r matches Ok(v) && v@.map_values(|t: StateDictTensor| t@) == ts,
            Err(k) => r matches Err(e) && e == py_error(k),
        },
{
    let mut out: Vec<StateDictTensor> = Vec::new();
    proof {
        assert(out@.map_values(|t: StateDictTensor| t@) =~= Seq::<TensorView>::empty());
    }
    let items = match PickleMachine::execute(data)? {
        Some(PickleValue::Dict(items)) => items,
        _ => return Ok(out),
    };
    let ghost view = pairs_view(items@);
    let mut i: usize = 0;
    proof {
        assert(out@.map_values(|t: StateDictTensor| t@) =~= dict_tensors(view.take(0)));
    }
    while i < items.len()
        invariant
            view == pairs_view(items@),
            i <= items@.len(),
            out@.map_values(|t: StateDictTensor| t@) == dict_tensors(view.take(i as int)),
        decreases items@.len() - i,
    {
        proof {
            assert(view[i as int].1 == value_view(items@[i as int].1));
            assert(view.take(i + 1).drop_last() =~= view.take(i as int));
        }
        let ghost before = out@.map_values(|t: StateDictTensor| t@);
        if let PickleValue::Tensor(t) = &items[i].1 {
            out.push(copy_tensor(t));
            proof {
                assert(out@.map_values(|t: StateDictTensor| t@) =~= before.push(t@));
            }
        }
        i = i + 1;
    }
    proof {
        assert(view.take(items@.len() as int) =~= view);
    }
    Ok(out)
}

} // verus!
