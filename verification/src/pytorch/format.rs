//! The PyTorch format as a whole: how sure it is of a file, and how a file
//! that is a pickle lowers.
use vstd::prelude::*;
use vstd::string::StringExecFns;
use crate::error::{ErrorKind, Format, ModelError, invalid};
use crate::graph::{Confidence, LoweredModel, ModelView};
use crate::pytorch::archives::{
    PyTorchZipArchive, TorchScriptArchive, single_nested_zip_payload, spec_is_state_dict_zip,
    spec_is_torchscript_zip, spec_single_nested_payload,
};
use crate::pytorch::detect::{
    ExportedProgramArchive, LegacyPickle, PyTorchPackageArchive, PyTorchShardedStateDictArchive,
    TensorPickle, magic_at, spec_is_exported_program_zip, spec_is_package_zip,
    spec_is_sharded_state_dict_zip,
};
use crate::pytorch::lower::{
    lower_data_pickle_with_format, lower_legacy_pickle, lower_state_dict_with_format,
    lower_state_tensors_with_operator, lower_tensor_pickle, spec_lower_data_pickle,
    spec_lower_legacy_pickle, spec_lower_state_dict, spec_lower_state_tensors,
    spec_tensor_from_legacy,
};
use crate::pytorch::modules::{DataPickle, DataPickleView, spec_data_pickle_of};
use crate::pytorch::names::{is_pickle_path, is_tensor_data_pickle_path, spec_is_pickle_path};
use crate::pytorch::objects::spec_legacy_pickle;
use crate::pytorch::pickle::{first_global, opt_string_view, spec_first_global, spec_pickle_ops};
use crate::pytorch::py_error;
use crate::pytorch::PyTorchFormat;
use crate::pytorch::scan::{LegacyTensor, spec_tensor_pickle};
use crate::pytorch::state_dict::{StateDict, spec_state_dict, spec_top_level_dict_tensors, top_level_pickle_dict_tensors};
use crate::pytorch::tar::{PyTorchTarArchive, spec_tar_archive, spec_tar_find};
use crate::pytorch::zip::spec_zip_archive;
use crate::text::{has_prefix, has_suffix, str_starts_with};

verus! {

/// Whether `data` is one of the archives that the format reads: an exported
/// program, a TorchScript archive, a zip state dict, a sharded state dict, a
/// package, or a legacy tar archive.
pub open spec fn spec_is_archive(data: Seq<u8>) -> bool {
    ||| spec_zip_archive(data) matches Ok(es) && spec_is_exported_program_zip(es)
    ||| spec_zip_archive(data) matches Ok(es) && spec_is_torchscript_zip(es)
    ||| spec_zip_archive(data) matches Ok(es) && spec_is_state_dict_zip(es)
    ||| spec_zip_archive(data) matches Ok(es) && spec_is_sharded_state_dict_zip(es)
    ||| spec_zip_archive(data) matches Ok(es) && spec_is_package_zip(es)
    ||| spec_tar_archive(data) matches Ok(es) && spec_tar_find(es, "pickle"@) is Some
}

/// Whether a pickle names a TorchScript class as its first global.
pub open spec fn spec_names_torch_class(data: Seq<u8>) -> bool {
    spec_first_global(data) matches Some(name) && has_prefix(name, "__torch__."@)
}

/// Whether the only entry of a zip archive holds what the format reads: a
/// TorchScript, zip state dict, package or tar archive, a legacy pickle, a
/// pickle of a TorchScript class, a state dict, a tensor pickle or a module.
pub open spec fn spec_is_payload(d: Seq<u8>) -> bool {
    ||| spec_zip_archive(d) matches Ok(es) && spec_is_torchscript_zip(es)
    ||| spec_zip_archive(d) matches Ok(es) && spec_is_state_dict_zip(es)
    ||| spec_zip_archive(d) matches Ok(es) && spec_is_package_zip(es)
    ||| spec_tar_archive(d) matches Ok(es) && spec_tar_find(es, "pickle"@) is Some
    ||| magic_at(d, 0)
    ||| spec_names_torch_class(d)
    ||| spec_state_dict(d) matches Ok(Some(_))
    ||| exists|i: int| magic_at(d, i)
    ||| spec_pickle_ops(d, 0) matches Ok(ops) && spec_data_pickle_of(ops) is Some
}

/// How sure the format is of the file named `file_name` with contents
/// `data`: sure of an archive it reads, of a zip archive whose only entry it
/// reads, of a legacy pickle, and of a pickle with a pickle extension that
/// names a TorchScript class, holds a state dict, tensors or a module; else
/// not at all.
pub open spec fn spec_detect(file_name: Option<Seq<char>>, data: Seq<u8>) -> Confidence {
    let pickle_path = spec_is_pickle_path(file_name);
    if spec_is_archive(data) {
        Confidence::High
    } else if (spec_single_nested_payload(data) matches Ok(Some(d)) && spec_is_payload(d)) {
        Confidence::High
    } else if magic_at(data, 0) {
        Confidence::High
    } else if spec_names_torch_class(data) && pickle_path {
        Confidence::High
    } else if pickle_path && (spec_state_dict(data) matches Ok(Some(_))) {
        Confidence::High
    } else if (exists|i: int| magic_at(data, i)) && pickle_path {
        Confidence::High
    } else if pickle_path && (spec_pickle_ops(data, 0) matches Ok(ops) && spec_data_pickle_of(ops) is Some) {
        Confidence::High
    } else {
        Confidence::NoMatch
    }
}

/// Whether a pickle names a TorchScript class as its first global.
fn names_torch_class(data: &[u8]) -> (r: bool)
    ensures
        r == spec_names_torch_class(data@),
{
    match first_global(data) {
        Some(name) => str_starts_with(name.as_str(), "__torch__."),
        None => false,
    }
}

/// Whether `data` holds a state dict.
fn holds_state_dict(data: &[u8]) -> (r: bool)
    ensures
        r == (spec_state_dict(data@) matches Ok(Some(_))),
{
    match StateDict::read(data) {
        Ok(Some(_)) => true,
        _ => false,
    }
}

/// Whether `data` pickles a module.
fn holds_module(data: &[u8]) -> (r: bool)
    ensures
        r == (spec_pickle_ops(data@, 0) matches Ok(ops) && spec_data_pickle_of(ops) is Some),
{
    match DataPickle::read(data) {
        Ok(Some(_)) => true,
        _ => false,
    }
}

/// Whether `data` is an archive that the format reads.
fn is_archive(data: &[u8]) -> (r: bool)
    ensures
        r == spec_is_archive(data@),
{
    ExportedProgramArchive::detect(data) || TorchScriptArchive::detect(data) || PyTorchZipArchive::detect(data)
        || PyTorchShardedStateDictArchive::detect(data) || PyTorchPackageArchive::detect(data)
        || PyTorchTarArchive::detect(data)
}

/// Whether the only entry of a zip archive holds what the format reads.
fn is_payload(d: &[u8]) -> (r: bool)
    ensures
        r == spec_is_payload(d@),
{
    TorchScriptArchive::detect(d) || PyTorchZipArchive::detect(d) || PyTorchPackageArchive::detect(d)
        || PyTorchTarArchive::detect(d) || LegacyPickle::detect(d) || names_torch_class(d)
        || holds_state_dict(d) || TensorPickle::detect(d) || holds_module(d)
}

/// The model of a pickle that the format reads: a legacy pickle by what it
/// holds; a pickle of a TorchScript class as that operator alone; a tensor
/// data pickle (by its file name) with tensors as a `builtins.dict` node; a
/// state dict; a tensor pickle; a module; all under `PyTorch Pickle` unless
/// the kind says otherwise. Anything else is not supported.
pub open spec fn spec_parse_pickle(file_name: Option<Seq<char>>, data: Seq<u8>) -> Result<ModelView, ErrorKind> {
    if magic_at(data, 0) {
        match spec_legacy_pickle(data) {
            Ok(p) => spec_lower_legacy_pickle(p),
            Err(k) => Err(k),
        }
    } else if spec_names_torch_class(data) {
        Ok(
            spec_lower_data_pickle(
                "PyTorch Pickle"@,
                None,
                DataPickleView { operator: spec_first_global(data)->Some_0, inputs: Seq::empty() },
                0,
            ),
        )
    } else {
        let tensor_path = file_name matches Some(f) && has_suffix(f, ".tensor.data.pkl"@);
        let dict_tensors = if tensor_path {
            spec_top_level_dict_tensors(data)
        } else {
            Ok(Seq::empty())
        };
        match dict_tensors {
            Err(k) => Err(k),
            Ok(ts) => if ts.len() > 0 {
                Ok(spec_lower_state_tensors("PyTorch Pickle"@, None, ts, "builtins.dict"@))
            } else {
                match spec_state_dict(data) {
                    Err(k) => Err(k),
                    Ok(Some(entries)) => Ok(spec_lower_state_dict("PyTorch Pickle"@, None, entries, false)),
                    Ok(None) => match spec_tensor_pickle(data) {
                        Err(k) => Err(k),
                        Ok(Some((tensors, list))) => Ok(
                            spec_lower_state_tensors(
                                "PyTorch Pickle"@,
                                None,
                                tensors.map_values(|t: crate::pytorch::scan::LegacyTensorView| spec_tensor_from_legacy(t)),
                                if list { "builtins.list"@ } else { "builtins.object"@ },
                            ),
                        ),
                        Ok(None) => match spec_pickle_ops(data, 0) {
                            Err(k) => Err(k),
                            Ok(ops) => match spec_data_pickle_of(ops) {
                                Some(p) => Ok(spec_lower_data_pickle("PyTorch Pickle"@, None, p, 0)),
                                None => Err(ErrorKind::Unsupported),
                            },
                        },
                    },
                }
            },
        }
    }
}

impl PyTorchFormat {
    /// How sure the format is that it reads the file named `file_name` (the
    /// last component of its path) with the contents `data`.
    pub fn detect(&self, file_name: Option<&str>, data: &[u8]) -> (r: Confidence)
        ensures
            r == spec_detect(
                match file_name {
                    Some(s) => Some(s@),
                    None => None,
                },
                data@,
            ),
    {
        if is_archive(data) {
            return Confidence::High;
        }
        let nested = match single_nested_zip_payload(data) {
            Ok(Some(d)) => is_payload(d.as_slice()),
            _ => false,
        };
        if nested {
            return Confidence::High;
        }
        if LegacyPickle::detect(data) {
            return Confidence::High;
        }
        let pickle_path = is_pickle_path(file_name);
        if names_torch_class(data) && pickle_path {
            return Confidence::High;
        }
        if pickle_path && holds_state_dict(data) {
            return Confidence::High;
        }
        if TensorPickle::detect(data) && pickle_path {
            return Confidence::High;
        }
        if pickle_path && holds_module(data) {
            return Confidence::High;
        }
        Confidence::NoMatch
    }

    /// Parses a file that is a pickle, not an archive: the part of reading a
    /// PyTorch file that follows the archive kinds.
    pub fn parse_pickle(&self, file_name: Option<&str>, data: &[u8]) -> (r: Result<LoweredModel, ModelError>)
        ensures
            match spec_parse_pickle(
                match file_name {
                    Some(s) => Some(s@),
                    None => None,
                },
                data@,
            ) {
                Ok(m) => r matches Ok(model) && model@ == m,
                Err(k) => r matches Err(e) && e == py_error(k),
            },
    {
        if LegacyPickle::detect(data) {
            let payload = LegacyPickle::read(data)?;
            return lower_legacy_pickle(&payload);
        }
        if let Some(name) = first_global(data) {
            if str_starts_with(name.as_str(), "__torch__.") {
                let pickle = DataPickle { operator: name, inputs: Vec::new() };
                proof {
                    assert(pickle@.inputs =~= Seq::<Seq<char>>::empty());
                }
                return Ok(lower_data_pickle_with_format(&pickle, "PyTorch Pickle", None));
            }
        }
        if is_tensor_data_pickle_path(file_name) {
            let tensors = top_level_pickle_dict_tensors(data)?;
            if tensors.len() > 0 {
                return Ok(lower_state_tensors_with_operator(&tensors, "PyTorch Pickle", None, "builtins.dict"));
            }
        }
        if let Some(state_dict) = StateDict::read(data)? {
            return Ok(lower_state_dict_with_format("PyTorch Pickle", None, &state_dict, false));
        }
        if let Some(tensors) = TensorPickle::read(data)? {
            let r = lower_tensor_pickle(&tensors);
            proof {
                assert(tensors.tensors@.map_values(|t: LegacyTensor| spec_tensor_from_legacy(t@)) =~= crate::pytorch::scan::tensor_views(tensors.tensors@).map_values(
                    |t: crate::pytorch::scan::LegacyTensorView| spec_tensor_from_legacy(t),
                ));
            }
            return Ok(r);
        }
        if let Some(pickle) = DataPickle::read(data)? {
            return Ok(lower_data_pickle_with_format(&pickle, "PyTorch Pickle", None));
        }
        Err(invalid(Format::PyTorch, ErrorKind::Unsupported))
    }
}

} // verus!
