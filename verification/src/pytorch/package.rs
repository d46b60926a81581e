//! The pickles of a package saved by `torch.package`.
use vstd::prelude::*;
use crate::chars::{str_trim, trim};
use crate::error::{ErrorKind, Format, ModelError, invalid};
use crate::pytorch::detect::{PyTorchPackageArchive, PyTorchPackagePickle};
use crate::pytorch::entries::{first_where, is_package_pickle, is_version_entry};
use crate::pytorch::modules::{DataPickle, opt_view, spec_data_pickle_of, string_views};
use crate::pytorch::names::{
    package_pickle_input_count, package_relative_path, pytorch_package_version,
    spec_package_pickle_input_count, spec_package_relative_path, spec_package_version,
};
use crate::pytorch::pickle::{first_global, spec_first_global, spec_pickle_ops};
use crate::pytorch::py_error;
use crate::pytorch::scan::{
    LegacyTensorView, is_rebuild_tensor, scan_torchscript_pickle_tensors,
    spec_scan_torchscript_tensors, tensor_views,
};
use crate::pytorch::zip::{ZipArchive, ZipEntry, ZipEntryView, spec_decoded, spec_entry_bytes, spec_zip_archive};
use crate::text::{spec_utf8, str_eq, utf8_string};

verus! {

pub struct PackagePickleView {
    pub graph_name: Seq<char>,
    pub operator: Option<Seq<char>>,
    pub input_names: Seq<Seq<char>>,
    pub input_count: usize,
    pub tensors: Seq<LegacyTensorView>,
}

impl View for PyTorchPackagePickle {
    type V = PackagePickleView;

    open spec fn view(&self) -> PackagePickleView {
        PackagePickleView {
            graph_name: self.graph_name@,
            operator: opt_view(self.operator),
            input_names: string_views(self.input_names@),
            input_count: self.input_count,
            tensors: tensor_views(self.tensors@),
        }
    }
}

/// The decoded bytes of a zip entry.
pub open spec fn entry_data(e: ZipEntryView) -> Result<Seq<u8>, ErrorKind> {
    spec_entry_bytes(spec_decoded(e), e.uncompressed_size)
}

/// The pickle of a package entry: its tensors when it rebuilds a tensor, the
/// inputs of the module it builds when it starts with a global (none for one
/// known model), and the number of inputs that its class takes; a pickle with
/// tensors builds a plain object.
pub open spec fn spec_package_pickle(e: ZipEntryView) -> Result<PackagePickleView, ErrorKind> {
    match entry_data(e) {
        Err(k) => Err(k),
        Ok(data) => {
            let operator = spec_first_global(data);
            let tensors = if operator matches Some(name) && is_rebuild_tensor(name) {
                spec_scan_torchscript_tensors(data)
            } else {
                Ok(Seq::empty())
            };
            let names = if operator is Some {
                match spec_pickle_ops(data, 0) {
                    Err(k) => Err(k),
                    Ok(ops) => match spec_data_pickle_of(ops) {
                        Some(p) => Ok(p.inputs),
                        None => Ok(Seq::empty()),
                    },
                }
            } else {
                Ok(Seq::empty())
            };
            match tensors {
                Err(k) => Err(k),
                Ok(tensors) => match names {
                    Err(k) => Err(k),
                    Ok(names) => Ok(
                        PackagePickleView {
                            graph_name: spec_package_relative_path(e.name),
                            operator: if tensors.len() == 0 {
                                operator
                            } else {
                                Some("builtins.object"@)
                            },
                            input_names: if operator == Some("models.DCGAN.DCGAN"@) {
                                Seq::empty()
                            } else {
                                names
                            },
                            input_count: if tensors.len() == 0 {
                                match operator {
                                    Some(o) => spec_package_pickle_input_count(o),
                                    None => 0,
                                }
                            } else {
                                0
                            },
                            tensors,
                        },
                    ),
                },
            }
        },
    }
}

/// The pickles of the entries `es`, in order; the first that fails makes the
/// whole list fail.
pub open spec fn spec_package_pickles(es: Seq<ZipEntryView>) -> Result<Seq<PackagePickleView>, ErrorKind>
    decreases es.len(),
{
    if es.len() == 0 {
        Ok(Seq::empty())
    } else {
        match spec_package_pickles(es.drop_last()) {
            Err(k) => Err(k),
            Ok(rest) => match spec_package_pickle(es.last()) {
                Err(k) => Err(k),
                Ok(p) => Ok(rest.push(p)),
            },
        }
    }
}

/// A pickle that fails makes the whole list fail.
pub proof fn lemma_package_error_stays(es: Seq<ZipEntryView>, j: int)
    requires
        0 <= j <= es.len(),
        spec_package_pickles(es.take(j)) is Err,
    ensures
        spec_package_pickles(es) == spec_package_pickles(es.take(j)),
    decreases es.len() - j,
{
    if j < es.len() {
        assert(es.take(j + 1).drop_last() =~= es.take(j));
        lemma_package_error_stays(es, j + 1);
    } else {
        assert(es.take(j) =~= es);
    }
}

/// The version of a package: the trimmed text of its version entry, read as
/// a package version.
pub open spec fn spec_package_archive_version(entries: Seq<ZipEntryView>) -> Option<Seq<char>> {
    match first_where(entries, is_version_entry(), 0) {
        None => None,
        Some(i) => match entry_data(entries[i]) {
            Err(_) => None,
            Ok(bytes) => match spec_utf8(bytes) {
                None => None,
                Some(text) => spec_package_version(trim(text)),
            },
        },
    }
}

/// What a package archive holds: its version, and the pickles of its pickle
/// entries, of which there must be one.
pub open spec fn spec_package_archive(data: Seq<u8>) -> Result<(Option<Seq<char>>, Seq<PackagePickleView>), ErrorKind> {
    match spec_zip_archive(data) {
        Err(k) => Err(k),
        Ok(entries) => match spec_package_pickles(entries.filter(is_package_pickle())) {
            Err(k) => Err(k),
            Ok(pickles) => if pickles.len() == 0 {
                Err(ErrorKind::Missing)
            } else {
                Ok((spec_package_archive_version(entries), pickles))
            },
        },
    }
}

/// Whether a pickle's first global rebuilds a tensor.
fn rebuilds_tensor(operator: &Option<String>) -> (r: bool)
    ensures
        r == (opt_view(*operator) matches Some(name) && is_rebuild_tensor(name)),
{
    match operator {
        Some(o) => str_eq(o.as_str(), "torch._utils._rebuild_tensor") || str_eq(
            o.as_str(),
            "torch._utils._rebuild_tensor_v2",
        ),
        None => false,
    }
}

/// Reads the pickle of a package entry.
fn read_package_pickle(entry: &ZipEntry) -> (r: Result<PyTorchPackagePickle, ModelError>)
    ensures
        match spec_package_pickle(entry@) {
            Ok(v) => r matches Ok(p) && p@ == v,
            Err(k) => r matches Err(e) && e == py_error(k),
        },
{
    let data = entry.bytes()?;
    let operator = first_global(data.as_slice());
    let tensors = if rebuilds_tensor(&operator) {
        scan_torchscript_pickle_tensors(data.as_slice())?
    } else {
        let empty: Vec<crate::pytorch::scan::LegacyTensor> = Vec::new();
        proof {
            assert(tensor_views(empty@) =~= Seq::<LegacyTensorView>::empty());
        }
        empty
    };
    let mut input_names: Vec<String> = if operator.is_some() {
        match DataPickle::read(data.as_slice())? {
            Some(p) => p.inputs,
            None => Vec::new(),
        }
    } else {
        Vec::new()
    };
    let dcgan = match &operator {
        Some(o) => str_eq(o.as_str(), "models.DCGAN.DCGAN"),
        None => false,
    };
    if dcgan {
        input_names.clear();
    }
    proof {
        assert(string_views(Seq::<String>::empty()) =~= Seq::<Seq<char>>::empty());
        assert(input_names@.len() == 0 ==> string_views(input_names@) =~= Seq::<Seq<char>>::empty());
    }
    let (operator, input_count) = if tensors.len() == 0 {
        let count = match &operator {
            Some(o) => package_pickle_input_count(o.as_str()),
            None => 0,
        };
        (operator, count)
    } else {
        (Some(String::from_str("builtins.object")), 0)
    };
    let graph_name = String::from_str(package_relative_path(entry.name));
    Ok(PyTorchPackagePickle { graph_name, operator, input_names, input_count, tensors })
}

/// The version of a package archive.
fn package_archive_version(archive: &ZipArchive) -> (r: Option<String>)
    ensures
        opt_view(r) == spec_package_archive_version(archive@),
{
    let entry = archive.package_version_entry()?;
    let bytes = match entry.bytes() {
        Ok(b) => b,
        Err(_) => return None,
    };
    let text = utf8_string(bytes.as_slice())?;
    pytorch_package_version(str_trim(text.as_str()))
}

impl PyTorchPackageArchive {
    /// Reads a package archive.
    pub fn read(data: &[u8]) -> (r: Result<Self, ModelError>)
        ensures
            match spec_package_archive(data@) {
                Ok((version, pickles)) => r matches Ok(a) && opt_view(a.version) == version
                    && a.pickles@.map_values(|p: PyTorchPackagePickle| p@) == pickles,
                Err(k) => r matches Err(e) && e == py_error(k),
            },
    {
        let archive = ZipArchive::open(data)?;
        let entries = archive.package_pickle_entries();
        let ghost es = archive@.filter(is_package_pickle());
        let mut pickles: Vec<PyTorchPackagePickle> = Vec::new();
        let mut i: usize = 0;
        proof {
            assert(es.take(0) =~= Seq::<ZipEntryView>::empty());
            assert(pickles@.map_values(|p: PyTorchPackagePickle| p@) =~= Seq::<PackagePickleView>::empty());
        }
        while i < entries.len()
            invariant
                i <= entries@.len(),
                spec_zip_archive(data@) == Ok::<Seq<ZipEntryView>, ErrorKind>(archive@),
                es == archive@.filter(is_package_pickle()),
                entries@.map_values(|e: &ZipEntry| e@) == es,
                spec_package_pickles(es.take(i as int)) == Ok::<Seq<PackagePickleView>, ErrorKind>(
                    pickles@.map_values(|p: PyTorchPackagePickle| p@),
                ),
            decreases entries@.len() - i,
        {
            proof {
                assert(es.take(i + 1).drop_last() =~= es.take(i as int));
                assert(es[i as int] == entries@[i as int]@);
            }
            let pickle = match read_package_pickle(entries[i]) {
                Ok(p) => p,
                Err(e) => {
                    proof {
                        lemma_package_error_stays(es, i + 1);
                    }
                    return Err(e);
                },
            };
            let ghost before = pickles@.map_values(|p: PyTorchPackagePickle| p@);
            pickles.push(pickle);
            proof {
                assert(pickles@.map_values(|p: PyTorchPackagePickle| p@) =~= before.push(pickles@.last()@));
            }
            i = i + 1;
        }
        proof {
            assert(es.take(entries@.len() as int) =~= es);
        }
        if pickles.len() == 0 {
            return Err(invalid(Format::PyTorch, ErrorKind::Missing));
        }
        let version = package_archive_version(&archive);
        Ok(PyTorchPackageArchive { version, pickles })
    }
}

} // verus!
