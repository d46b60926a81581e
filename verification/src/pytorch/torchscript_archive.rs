//! Reading a TorchScript archive: its source entry, or the `model.json` of a
//! legacy archive.
use vstd::prelude::*;
use vstd::string::StringExecFns;
use crate::chars::{str_trim, trim};
use crate::error::{ErrorKind, Format, ModelError, invalid};
use crate::pytorch::archives::TorchScriptArchive;
use crate::pytorch::entries::{
    entry_bytes_at, entry_text_at, first_where, is_version_entry, logical_is, named,
};
use crate::pytorch::modules::opt_view;
use crate::pytorch::names::{
    debug_python_path, spec_debug_python_path, spec_torchscript_version, torchscript_version,
};
use crate::pytorch::package::entry_data;
use crate::pytorch::py_error;
use crate::pytorch::source::{found_view, source_entry_from, spec_source_rules};
use crate::pytorch::zip::{ZipArchive, ZipEntryView, spec_zip_archive};
use crate::text::{spec_utf8, utf8_string};
use crate::json::{json_get_opt, json_str, json_value_of, opt_get, opt_str, parse_json_str};
use vstd::utf8::encode_utf8;

verus! {

pub struct TorchScriptArchiveView {
    pub source: Seq<char>,
    pub source_path: Seq<char>,
    pub generated_path: Option<Seq<char>>,
    pub data_pickle: Option<Seq<u8>>,
    pub constants_pickle: Option<Seq<u8>>,
    pub has_bytecode: bool,
    pub model_json: Option<Seq<char>>,
    pub version: Option<Seq<char>>,
}

/// The bytes of an optional byte list.
pub open spec fn opt_bytes(b: Option<Vec<u8>>) -> Option<Seq<u8>> {
    match b {
        Some(v) => Some(v@),
        None => None,
    }
}

impl View for TorchScriptArchive {
    type V = TorchScriptArchiveView;

    open spec fn view(&self) -> TorchScriptArchiveView {
        TorchScriptArchiveView {
            source: self.source@,
            source_path: self.source_path@,
            generated_path: opt_view(self.generated_path),
            data_pickle: opt_bytes(self.data_pickle),
            constants_pickle: opt_bytes(self.constants_pickle),
            has_bytecode: self.has_bytecode,
            model_json: opt_view(self.model_json),
            version: opt_view(self.version),
        }
    }
}

/// A value, when a result has one.
pub open spec fn ok_of<T>(r: Result<T, ErrorKind>) -> Option<T> {
    match r {
        Ok(v) => Some(v),
        Err(_) => None,
    }
}

/// The version of a TorchScript archive: the trimmed text of its `version`
/// entry, or else of its package version entry, read as a TorchScript
/// version.
pub open spec fn spec_torchscript_archive_version(es: Seq<ZipEntryView>) -> Option<Seq<char>> {
    let text = match entry_text_at(es, first_where(es, logical_is("version"@), 0)) {
        Ok(t) => Some(t),
        Err(_) => match first_where(es, is_version_entry(), 0) {
            None => None,
            Some(i) => match entry_data(es[i]) {
                Err(_) => None,
                Ok(b) => spec_utf8(b),
            },
        },
    };
    match text {
        Some(t) => spec_torchscript_version(trim(t)),
        None => None,
    }
}

/// What a TorchScript archive holds. With a source entry: its text and path,
/// the Python path named in its `.debug_pkl` sibling, the `data.pkl` and
/// `constants.pkl` bytes, whether it has `bytecode.pkl`, and its version.
/// Without one, it must have a `model.json`, whose text it keeps; its source
/// is the entry that the JSON names, else empty.
pub open spec fn spec_torchscript_archive(data: Seq<u8>) -> Result<TorchScriptArchiveView, ErrorKind> {
    match spec_zip_archive(data) {
        Err(k) => Err(k),
        Ok(es) => match source_entry_from(es, spec_source_rules(), 0) {
            Some((entry_name, source_path)) => match entry_text_at(es, first_where(es, named(entry_name), 0)) {
                Err(k) => Err(k),
                Ok(source) => Ok(
                    TorchScriptArchiveView {
                        source,
                        source_path,
                        generated_path: match entry_bytes_at(
                            es,
                            first_where(es, named(entry_name + ".debug_pkl"@), 0),
                        ) {
                            Ok(b) => spec_debug_python_path(b),
                            Err(_) => None,
                        },
                        data_pickle: ok_of(entry_bytes_at(es, first_where(es, logical_is("data.pkl"@), 0))),
                        constants_pickle: ok_of(
                            entry_bytes_at(es, first_where(es, logical_is("constants.pkl"@), 0)),
                        ),
                        has_bytecode: first_where(es, logical_is("bytecode.pkl"@), 0) is Some,
                        model_json: None,
                        version: spec_torchscript_archive_version(es),
                    },
                ),
            },
            None => match first_where(es, logical_is("model.json"@), 0) {
                None => Err(ErrorKind::Missing),
                Some(i) => match entry_text_at(es, first_where(es, named(es[i].name), 0)) {
                    Err(k) => Err(k),
                    Ok(json) => match legacy_source_key(json) {
                        None => Ok(legacy_view(Seq::empty(), Seq::empty(), json, es)),
                        Some(key) => match entry_text_at(es, first_where(es, logical_is(key), 0)) {
                            Err(k) => Err(k),
                            Ok(source) => Ok(legacy_view(source, key, json, es)),
                        },
                    },
                },
            },
        },
    }
}

/// The entry that a legacy `model.json` names as its source: the string at
/// `mainModule.torchscriptArena.key`, when serde_json reads the text.
pub open spec fn legacy_source_key(json: Seq<char>) -> Option<Seq<char>> {
    match json_value_of(encode_utf8(json)) {
        None => None,
        Some(v) => json_str(
            json_get_opt(json_get_opt(json_get_opt(Some(v), "mainModule"@), "torchscriptArena"@), "key"@),
        ),
    }
}

/// A legacy archive with its source text and path and its `model.json`; its
/// version is 1.1 with an `attributes.pkl`, else 1.0.
pub open spec fn legacy_view(
    source: Seq<char>,
    source_path: Seq<char>,
    json: Seq<char>,
    es: Seq<ZipEntryView>,
) -> TorchScriptArchiveView {
    TorchScriptArchiveView {
        source,
        source_path,
        generated_path: None,
        data_pickle: None,
        constants_pickle: None,
        has_bytecode: false,
        model_json: Some(json),
        version: Some(
            if first_where(es, logical_is("attributes.pkl"@), 0) is Some {
                "1.1"@
            } else {
                "1.0"@
            },
        ),
    }
}

/// The version of a TorchScript archive.
fn torchscript_archive_version(archive: &ZipArchive) -> (r: Option<String>)
    ensures
        opt_view(r) == spec_torchscript_archive_version(archive@),
{
    let text = match archive.text_suffix("version") {
        Ok(t) => Some(t),
        Err(_) => match archive.package_version_entry() {
            None => None,
            Some(entry) => match entry.bytes() {
                Ok(b) => utf8_string(b.as_slice()),
                Err(_) => None,
            },
        },
    };
    match text {
        Some(t) => torchscript_version(str_trim(t.as_str())),
        None => None,
    }
}

impl TorchScriptArchive {
    /// Reads a TorchScript archive. A legacy archive's source is the entry
    /// that its `model.json` names.
    pub fn read(data: &[u8]) -> (r: Result<Self, ModelError>)
        ensures
            match spec_torchscript_archive(data@) {
                Ok(v) => r matches Ok(a) && a@ == v,
                Err(k) => r matches Err(e) && e == py_error(k),
            },
    {
        let archive = ZipArchive::open(data)?;
        let version = torchscript_archive_version(&archive);
        if let Some((entry_name, source_path)) = archive.torchscript_source_entry() {
            let source = archive.text(entry_name)?;
            let mut debug_name = String::from_str(entry_name);
            debug_name.append(".debug_pkl");
            let generated_path = match archive.bytes(debug_name.as_str()) {
                Ok(b) => debug_python_path(b.as_slice()),
                Err(_) => None,
            };
            let data_pickle = match archive.bytes_logical("data.pkl") {
                Ok(b) => Some(b),
                Err(_) => None,
            };
            let constants_pickle = match archive.bytes_logical("constants.pkl") {
                Ok(b) => Some(b),
                Err(_) => None,
            };
            let has_bytecode = archive.logical_entry("bytecode.pkl").is_some();
            return Ok(
                TorchScriptArchive {
                    source,
                    source_path,
                    generated_path,
                    data_pickle,
                    constants_pickle,
                    has_bytecode,
                    model_json: None,
                    version,
                },
            );
        }
        let model_json_entry = match archive.legacy_torchscript_model_entry() {
            Some(name) => name,
            None => return Err(invalid(Format::PyTorch, ErrorKind::Missing)),
        };
        let model_json = archive.text(model_json_entry)?;
        let version = if archive.logical_entry("attributes.pkl").is_some() {
            String::from_str("1.1")
        } else {
            String::from_str("1.0")
        };
        let parsed = parse_json_str(model_json.as_str());
        let key = match &parsed {
            Some(value) => opt_str(opt_get(opt_get(value.get("mainModule"), "torchscriptArena"), "key")),
            None => None,
        };
        let (source, source_path) = match key {
            Some(key) => (archive.text_logical(key)?, String::from_str(key)),
            None => (String::new(), String::new()),
        };
        Ok(
            TorchScriptArchive {
                source,
                source_path,
                generated_path: None,
                data_pickle: None,
                constants_pickle: None,
                has_bytecode: false,
                model_json: Some(model_json),
                version: Some(version),
            },
        )
    }
}

} // verus!
