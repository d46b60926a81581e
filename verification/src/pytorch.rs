//! PyTorch models: pickle streams, zip, tar and legacy archives, and the names
//! that the model files use.
use vstd::prelude::*;
use vstd::string::StringExecFns;
use crate::graph::FormatMetadata;
use crate::error::{ErrorKind, Format, ModelError, model_error};

pub mod pickle;
pub mod modules;
pub mod tar;
pub mod zip;
pub mod names;
pub mod entries;
pub mod source;
pub mod archives;
pub mod script;
pub mod exported;
pub mod legacy;
pub mod torchscript;
pub mod detect;
pub mod dtypes;
pub mod scan;
pub mod machine;
pub mod state_dict;
pub mod objects;
pub mod tar_dict;
pub mod package;
pub mod sharded;
pub mod torchscript_archive;
pub mod exported_json;
pub mod lower;
pub mod format;
pub mod exported_read;
pub mod legacy_json;
pub mod legacy_lower;

verus! {

/// The PyTorch model format.
pub struct PyTorchFormat;

impl PyTorchFormat {
    /// The format's name and extensions.
    pub fn metadata(&self) -> (r: FormatMetadata)
        ensures
            r.name@ == "PyTorch"@,
            r.extensions@.map_values(|e: String| e@) == seq!["pt"@, "pth"@, "pkl"@, "ptl"@],
    {
        let mut extensions: Vec<String> = Vec::new();
        extensions.push(String::from_str("pt"));
        extensions.push(String::from_str("pth"));
        extensions.push(String::from_str("pkl"));
        extensions.push(String::from_str("ptl"));
        let r = FormatMetadata { name: String::from_str("PyTorch"), extensions };
        proof {
            assert(r.extensions@.map_values(|e: String| e@) =~= seq!["pt"@, "pth"@, "pkl"@, "ptl"@]);
        }
        r
    }
}

/// The error that the PyTorch reader raises for `kind`.
pub open spec fn py_error(kind: ErrorKind) -> ModelError {
    model_error(Format::PyTorch, kind)
}

/// Whether `r` is what the spec result `s` describes: the value by its view,
/// or the error of its kind.
pub open spec fn py_read<T: View>(r: Result<T, ModelError>, s: Result<T::V, ErrorKind>) -> bool {
    match s {
        Ok(v) => r matches Ok(x) && x@ == v,
        Err(k) => r matches Err(e) && e == py_error(k),
    }
}

} // verus!
