//! The zip archives that PyTorch saves: state dicts, TorchScript modules and
//! exported programs.
use vstd::prelude::*;
use crate::chars::{str_trim, trim};
use crate::error::{ErrorKind, Format, ModelError, invalid};
use crate::pytorch::entries::{
    bytes_result, entry_bytes_at, entry_text_at, first_where, is_code_file, lemma_first_where_bounds,
    logical_is,
};
use crate::pytorch::modules::opt_view;
use crate::pytorch::names::{spec_torchscript_version, torchscript_version};
use crate::pytorch::pickle::{first_global, opt_string_view, spec_first_global};
use crate::pytorch::py_error;
use crate::pytorch::source::{source_entry_from, spec_source_rules};
use crate::pytorch::zip::{ZipArchive, ZipEntry, ZipEntryView, spec_zip_archive};
use crate::text::{has_prefix, has_suffix, str_ends_with, str_starts_with};

verus! {

/// A zip archive that holds a pickled state dict.
pub struct PyTorchZipArchive {
    pub version: Option<String>,
    pub data_pickle: Vec<u8>,
    pub fx_graph_module: bool,
}

pub struct PyTorchZipArchiveView {
    pub version: Option<Seq<char>>,
    pub data_pickle: Seq<u8>,
    pub fx_graph_module: bool,
}

impl View for PyTorchZipArchive {
    type V = PyTorchZipArchiveView;

    open spec fn view(&self) -> PyTorchZipArchiveView {
        PyTorchZipArchiveView {
            version: opt_view(self.version),
            data_pickle: self.data_pickle@,
            fx_graph_module: self.fx_graph_module,
        }
    }
}

/// Whether a zip archive holds a state dict: a `data.pkl` entry, and neither
/// TorchScript code nor a legacy TorchScript model.
pub open spec fn spec_is_state_dict_zip(entries: Seq<ZipEntryView>) -> bool {
    &&& first_where(entries, logical_is("model.json"@), 0) is None
    &&& source_entry_from(entries, spec_source_rules(), 0) is None
    &&& first_where(entries, is_code_file(), 0) is None
    &&& first_where(entries, logical_is("data.pkl"@), 0) is Some
}

/// The state dict archive of `data`: its `data.pkl` bytes, the PyTorch
/// version that its `version` entry names, and whether the pickle builds an FX
/// graph module.
pub open spec fn spec_pytorch_zip_archive(data: Seq<u8>) -> Result<PyTorchZipArchiveView, ErrorKind> {
    match spec_zip_archive(data) {
        Err(k) => Err(k),
        Ok(entries) => match entry_bytes_at(entries, first_where(entries, logical_is("data.pkl"@), 0)) {
            Err(k) => Err(k),
            Ok(data_pickle) => Ok(
                PyTorchZipArchiveView {
                    version: match entry_text_at(
                        entries,
                        first_where(entries, logical_is("version"@), 0),
                    ) {
                        Ok(text) => spec_torchscript_version(trim(text)),
                        Err(_) => None,
                    },
                    data_pickle,
                    fx_graph_module: spec_first_global(data_pickle) matches Some(name) && has_prefix(
                        name,
                        "torch.fx.graph_module."@,
                    ),
                },
            ),
        },
    }
}

impl PyTorchZipArchive {
    /// Whether `data` is a zip archive that holds a state dict.
    pub fn detect(data: &[u8]) -> (r: bool)
        ensures
            r == (spec_zip_archive(data@) matches Ok(entries) && spec_is_state_dict_zip(entries)),
    {
        match ZipArchive::open(data) {
            Ok(archive) => archive.legacy_torchscript_model_entry().is_none()
                && archive.torchscript_source_entry().is_none() && !archive.has_torchscript_code()
                && archive.logical_entry("data.pkl").is_some(),
            Err(_) => false,
        }
    }

    /// Reads a state dict archive.
    pub fn read(data: &[u8]) -> (r: Result<Self, ModelError>)
        ensures
            match spec_pytorch_zip_archive(data@) {
                Ok(v) => r matches Ok(a) && a@ == v,
                Err(k) => r matches Err(e) && e == py_error(k),
            },
    {
        let archive = ZipArchive::open(data)?;
        let data_pickle = archive.bytes_logical("data.pkl")?;
        let version = match archive.text_suffix("version") {
            Ok(value) => torchscript_version(str_trim(value.as_str())),
            Err(_) => None,
        };
        let fx_graph_module = match first_global(data_pickle.as_slice()) {
            Some(name) => str_starts_with(name.as_str(), "torch.fx.graph_module."),
            None => false,
        };
        Ok(PyTorchZipArchive { version, data_pickle, fx_graph_module })
    }
}

/// Whether a zip archive holds a TorchScript module: a source entry, or a
/// legacy `model.json` beside code.
pub open spec fn spec_is_torchscript_zip(entries: Seq<ZipEntryView>) -> bool {
    source_entry_from(entries, spec_source_rules(), 0) is Some || (first_where(
        entries,
        logical_is("model.json"@),
        0,
    ) is Some && first_where(entries, is_code_file(), 0) is Some)
}

/// A TorchScript archive: its source and where it comes from, the pickles
/// beside it, whether it has bytecode, the `model.json` of a legacy archive,
/// and its version.
pub struct TorchScriptArchive {
    pub source: String,
    pub source_path: String,
    pub generated_path: Option<String>,
    pub data_pickle: Option<Vec<u8>>,
    pub constants_pickle: Option<Vec<u8>>,
    pub has_bytecode: bool,
    pub model_json: Option<String>,
    pub version: Option<String>,
}

impl TorchScriptArchive {
    /// Whether `data` is a zip archive that holds a TorchScript module.
    pub fn detect(data: &[u8]) -> (r: bool)
        ensures
            r == (spec_zip_archive(data@) matches Ok(entries) && spec_is_torchscript_zip(entries)),
    {
        match ZipArchive::open(data) {
            Ok(archive) => archive.torchscript_source_entry().is_some() || (
            archive.legacy_torchscript_model_entry().is_some() && archive.has_torchscript_code()),
            Err(_) => false,
        }
    }
}

/// Whether the entry's name ends with `name`.
pub open spec fn name_ends_with(name: Seq<char>) -> spec_fn(ZipEntryView) -> bool {
    |e: ZipEntryView| has_suffix(e.name, name)
}

/// The entry of an exported program named `name`: by its path inside the
/// model, else the first whose name ends with it.
pub open spec fn spec_exported_program_entry(entries: Seq<ZipEntryView>, name: Seq<char>) -> Option<int> {
    match first_where(entries, logical_is(name), 0) {
        Some(i) => Some(i),
        None => first_where(entries, name_ends_with(name), 0),
    }
}

/// Finds an exported program's entry.
pub fn exported_program_zip_entry<'a>(archive: &'a ZipArchive<'a>, name: &str) -> (r: Option<
    &'a ZipEntry<'a>,
>)
    ensures
        match spec_exported_program_entry(archive@, name@) {
            Some(i) => r matches Some(e) && e@ == archive@[i],
            None => r is None,
        },
{
    if let Some(entry) = archive.logical_entry(name) {
        return Some(entry);
    }
    proof {
        lemma_first_where_bounds(archive@, name_ends_with(name@), 0);
    }
    let mut i: usize = 0;
    while i < archive.entries.len()
        invariant
            i <= archive@.len(),
            first_where(archive@, logical_is(name@), 0) is None,
            first_where(archive@, name_ends_with(name@), i as int) == first_where(
                archive@,
                name_ends_with(name@),
                0,
            ),
        decreases archive@.len() - i,
    {
        if str_ends_with(archive.entries[i].name, name) {
            return Some(&archive.entries[i]);
        }
        i = i + 1;
    }
    None
}

/// The decoded bytes of an exported program's entry, if it has one.
pub fn exported_program_zip_bytes(archive: &ZipArchive, name: &str) -> (r: Result<Option<Vec<u8>>, ModelError>)
    ensures
        match spec_exported_program_entry(archive@, name@) {
            None => r matches Ok(None),
            Some(i) => match entry_bytes_at(archive@, Some(i)) {
                Ok(b) => r matches Ok(Some(v)) && v@ == b,
                Err(k) => r matches Err(e) && e == py_error(k),
            },
        },
{
    proof {
        lemma_first_where_bounds(archive@, logical_is(name@), 0);
        lemma_first_where_bounds(archive@, name_ends_with(name@), 0);
    }
    match exported_program_zip_entry(archive, name) {
        Some(entry) => Ok(Some(entry.bytes()?)),
        None => Ok(None),
    }
}

/// The bytes of the only entry of a zip archive, when it has exactly one.
pub open spec fn spec_single_nested_payload(data: Seq<u8>) -> Result<Option<Seq<u8>>, ErrorKind> {
    match spec_zip_archive(data) {
        Err(k) => Err(k),
        Ok(entries) => if entries.len() != 1 {
            Ok(None)
        } else {
            match entry_bytes_at(entries, Some(0)) {
                Ok(b) => Ok(Some(b)),
                Err(k) => Err(k),
            }
        },
    }
}

/// The bytes of the only entry of a zip archive, when it has exactly one.
pub fn single_nested_zip_payload(data: &[u8]) -> (r: Result<Option<Vec<u8>>, ModelError>)
    ensures
        match spec_single_nested_payload(data@) {
            Ok(None) => r matches Ok(None),
            Ok(Some(b)) => r matches Ok(Some(v)) && v@ == b,
            Err(k) => r matches Err(e) && e == py_error(k),
        },
{
    let archive = ZipArchive::open(data)?;
    if archive.entries.len() != 1 {
        return Ok(None);
    }
    let payload = archive.entries[0].bytes()?;
    Ok(Some(payload))
}

} // verus!
