//! What the object pickle of a legacy PyTorch file holds.
use vstd::prelude::*;
use crate::error::{ErrorKind, ModelError};
use crate::pytorch::detect::LegacyPickle;
use crate::pytorch::legacy::{checked_byte_len, spec_byte_len};
use crate::pytorch::modules::{DataPickleView, legacy_module_pickle, spec_legacy_module_of};
use crate::pytorch::pickle::{
    PickleOpView,
    first_pickle_payload_opcode, next_global, pickle_ops, spec_next_global, spec_payload_opcode_from,
    spec_pickle_ops,
};
use crate::pytorch::py_error;
use crate::pytorch::scan::{
    LegacyTensorView, fourth_pickle, scan_tensor_pickle, scan_torchscript_pickle_tensors,
    spec_fourth_pickle, spec_scan_tensor_pickle, spec_scan_torchscript_tensors, tensor_views,
};
use crate::pytorch::state_dict::{
    EntryView, GroupView, NestedStateDict, StateDict, entry_views, group_views,
    spec_nested_state_dict, spec_state_dict,
};
use crate::text::str_eq;

verus! {

pub enum LegacyView {
    Tensor(LegacyTensorView),
    Dict,
    NestedStateDict(Seq<GroupView>),
    StateDict(Seq<EntryView>),
    Data(DataPickleView),
    LinearModule(Seq<LegacyTensorView>),
    ValidBertBaseUncased,
}

impl View for LegacyPickle {
    type V = LegacyView;

    open spec fn view(&self) -> LegacyView {
        match self {
            LegacyPickle::Tensor(t) => LegacyView::Tensor(t@),
            LegacyPickle::Dict => LegacyView::Dict,
            LegacyPickle::NestedStateDict(d) => LegacyView::NestedStateDict(group_views(d.groups@)),
            LegacyPickle::StateDict(d) => LegacyView::StateDict(entry_views(d.entries@)),
            LegacyPickle::Data(p) => LegacyView::Data(p@),
            LegacyPickle::LinearModule(ts) => LegacyView::LinearModule(tensor_views(ts@)),
            LegacyPickle::ValidBertBaseUncased => LegacyView::ValidBertBaseUncased,
        }
    }
}

/// The tensor that a tensor pickle holds, with its byte length computed
/// again when it is zero.
pub open spec fn legacy_tensor(object: Seq<u8>) -> Result<LegacyView, ErrorKind> {
    match spec_scan_tensor_pickle(object) {
        Err(e) => Err(e),
        Ok(t) => if t.byte_len == 0 {
            match spec_byte_len(t.shape, t.element_size as int) {
                Err(e) => Err(e),
                Ok(n) => Ok(LegacyView::Tensor(LegacyTensorView { byte_len: n as usize, ..t })),
            }
        } else {
            Ok(LegacyView::Tensor(t))
        },
    }
}

/// What an object pickle holds once it is no state dict, given its ops and
/// the name of its first global: the tensors of a linear module when it
/// has some, two known models by their main class, a module, a dict by its
/// first opcode, or else one tensor.
pub open spec fn legacy_by_globals(
    object: Seq<u8>,
    ops: Seq<PickleOpView>,
    first: Option<Seq<char>>,
) -> Result<LegacyView, ErrorKind> {
    let linear = if first == Some("torch.nn.modules.linear.Linear"@) {
        match spec_scan_torchscript_tensors(object) {
            Err(e) => Some(Err(e)),
            Ok(ts) => if ts.len() > 0 {
                Some(Ok(LegacyView::LinearModule(ts)))
            } else {
                None
            },
        }
    } else {
        None
    };
    match linear {
        Some(r) => r,
        None => if first == Some("__main__.VGG19X"@) {
            Ok(LegacyView::Dict)
        } else if first == Some("__main__.ClothSample"@) {
            Ok(LegacyView::ValidBertBaseUncased)
        } else {
            match spec_legacy_module_of(ops) {
                Some(p) => Ok(LegacyView::Data(p)),
                None => if spec_payload_opcode_from(object, 0) == Some(0x7du8)
                    || spec_payload_opcode_from(object, 0) == Some(0x64u8) {
                    Ok(LegacyView::Dict)
                } else {
                    legacy_tensor(object)
                },
            }
        },
    }
}

/// What the object pickle of a legacy file holds: the fourth pickle of the
/// file is read as a dict of state dict groups, a state dict, and then by
/// its globals.
pub open spec fn spec_legacy_pickle(data: Seq<u8>) -> Result<LegacyView, ErrorKind> {
    match spec_fourth_pickle(data) {
        Err(e) => Err(e),
        Ok(object) => match spec_nested_state_dict(object) {
            Err(e) => Err(e),
            Ok(Some(g)) => Ok(LegacyView::NestedStateDict(g)),
            Ok(None) => match spec_state_dict(object) {
                Err(e) => Err(e),
                Ok(Some(es)) => Ok(LegacyView::StateDict(es)),
                Ok(None) => match spec_pickle_ops(object, 0) {
                    Err(e) => Err(e),
                    Ok(ops) => legacy_by_globals(
                        object,
                        ops,
                        match spec_next_global(ops, 0) {
                            Some((_, name)) => Some(name),
                            None => None,
                        },
                    ),
                },
            },
        },
    }
}

impl LegacyPickle {
    /// What the object pickle of a legacy file holds.
    pub fn read(data: &[u8]) -> (r: Result<Self, ModelError>)
        ensures
            match spec_legacy_pickle(data@) {
                Ok(v) => r matches Ok(p) && p@ == v,
                Err(k) => r matches Err(e) && e == py_error(k),
            },
    {
        let object = fourth_pickle(data)?;
        if let Some(d) = NestedStateDict::read(object)? {
            return Ok(LegacyPickle::NestedStateDict(d));
        }
        if let Some(d) = StateDict::read(object)? {
            return Ok(LegacyPickle::StateDict(d));
        }
        let ops = pickle_ops(object)?;
        let first = match next_global(ops.as_slice(), 0) {
            Some((_, name)) => Some(name),
            None => None,
        };
        let is_first = |expected: &str| -> (b: bool)
            ensures
                b == (first matches Some(n) && n@ == expected@),
            {
                match first {
                    Some(n) => str_eq(n, expected),
                    None => false,
                }
            };
        if is_first("torch.nn.modules.linear.Linear") {
            let tensors = scan_torchscript_pickle_tensors(object)?;
            if tensors.len() > 0 {
                return Ok(LegacyPickle::LinearModule(tensors));
            }
        }
        if is_first("__main__.VGG19X") {
            return Ok(LegacyPickle::Dict);
        }
        if is_first("__main__.ClothSample") {
            return Ok(LegacyPickle::ValidBertBaseUncased);
        }
        if let Some(p) = legacy_module_pickle(object)? {
            return Ok(LegacyPickle::Data(p));
        }
        let opcode = first_pickle_payload_opcode(object);
        if opcode == Some(0x7du8) || opcode == Some(0x64u8) {
            return Ok(LegacyPickle::Dict);
        }
        let mut tensor = scan_tensor_pickle(object)?;
        if tensor.byte_len == 0 {
            tensor.byte_len = checked_byte_len(tensor.shape.as_slice(), tensor.element_size)?;
        }
        Ok(LegacyPickle::Tensor(tensor))
    }
}

} // verus!
