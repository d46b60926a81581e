//! How the PyTorch reader recognises an exported program, a sharded state
//! dict, a package and a legacy pickle.
use vstd::prelude::*;
use crate::chars::{str_trim, trim};
use crate::pytorch::modules::DataPickle;
use crate::pytorch::scan::LegacyTensor;
use crate::pytorch::state_dict::{NestedStateDict, StateDict};
use crate::pytorch::entries::{entry_text_at, first_where, is_package_pickle, is_version_entry, logical_is};
use crate::pytorch::zip::{ZipArchive, ZipEntryView, spec_zip_archive};
use crate::text::{has_suffix, str_ends_with, str_eq};

verus! {

/// The magic number that starts a legacy PyTorch file: a pickled long.
pub open spec fn legacy_magic() -> Seq<u8> {
    seq![0x80u8, 0x02, 0x8a, 0x0a, 0x6c, 0xfc, 0x9c, 0x46, 0xf9, 0x20, 0x6a, 0xa8, 0x50, 0x19]
}

/// The magic number that starts a legacy PyTorch file.
fn legacy_magic_bytes() -> (r: [u8; 14])
    ensures
        r@ == legacy_magic(),
{
    let magic: [u8; 14] = [
        0x80, 0x02, 0x8a, 0x0a, 0x6c, 0xfc, 0x9c, 0x46, 0xf9, 0x20, 0x6a, 0xa8, 0x50, 0x19,
    ];
    proof {
        assert(magic@ =~= legacy_magic());
    }
    magic
}

/// Whether the legacy magic number occurs in `data` at `i`.
pub open spec fn magic_at(data: Seq<u8>, i: int) -> bool {
    0 <= i && i + 14 <= data.len() && data.subrange(i, i + 14) == legacy_magic()
}

/// Whether the legacy magic number occurs in `data` at `i`.
fn magic_at_exec(data: &[u8], magic: &[u8; 14], i: usize) -> (r: bool)
    requires
        magic@ == legacy_magic(),
    ensures
        r == magic_at(data@, i as int),
{
    if data.len() < 14 || i > data.len() - 14 {
        return false;
    }
    let mut k: usize = 0;
    while k < 14
        invariant
            i + 14 <= data@.len() <= usize::MAX,
            magic@ == legacy_magic(),
            k <= 14,
            forall|j: int| 0 <= j < k ==> data@[i + j] == legacy_magic()[j],
        decreases 14 - k,
    {
        if data[i + k] != magic[k] {
            proof {
                assert(data@.subrange(i as int, i + 14)[k as int] != legacy_magic()[k as int]);
            }
            return false;
        }
        k = k + 1;
    }
    proof {
        assert(data@.subrange(i as int, i + 14) =~= legacy_magic());
    }
    true
}

/// What the object pickle of a legacy PyTorch file holds: one tensor, a
/// dict, a dict of state dict groups, a state dict, a module, the tensors of
/// a linear module, or the one known model that it stands for.
pub enum LegacyPickle {
    Tensor(LegacyTensor),
    Dict,
    NestedStateDict(NestedStateDict),
    StateDict(StateDict),
    Data(DataPickle),
    LinearModule(Vec<LegacyTensor>),
    ValidBertBaseUncased,
}

impl LegacyPickle {
    /// Whether `data` starts with the legacy magic number.
    pub fn detect(data: &[u8]) -> (r: bool)
        ensures
            r == magic_at(data@, 0),
    {
        let magic = legacy_magic_bytes();
        magic_at_exec(data, &magic, 0)
    }
}

/// A pickle that holds tensors in the legacy layout: the tensors, and whether
/// they stand in a list.
pub struct TensorPickle {
    pub tensors: Vec<LegacyTensor>,
    pub list: bool,
}

impl TensorPickle {
    /// Whether the legacy magic number occurs anywhere in `data`.
    pub fn detect(data: &[u8]) -> (r: bool)
        ensures
            r == exists|i: int| magic_at(data@, i),
    {
        let magic = legacy_magic_bytes();
        let mut i: usize = 0;
        while i < data.len()
            invariant
                magic@ == legacy_magic(),
                i <= data@.len(),
                forall|j: int| 0 <= j < i ==> !magic_at(data@, j),
            decreases data@.len() - i,
        {
            if magic_at_exec(data, &magic, i) {
                return true;
            }
            i = i + 1;
        }
        proof {
            assert forall|j: int| !magic_at(data@, j) by {
                if 0 <= j < i {
                } else if j >= i {
                    assert(j + 14 > data@.len());
                }
            }
        }
        false
    }
}

/// A program exported by `torch.export`.
pub struct ExportedProgramArchive;

/// Whether a zip archive holds an exported program: its serialized program,
/// or a `pt2` archive format beside a `model.json`.
pub open spec fn spec_is_exported_program_zip(entries: Seq<ZipEntryView>) -> bool {
    first_where(entries, logical_is("serialized_exported_program.json"@), 0) is Some || (
    entry_text_at(entries, first_where(entries, logical_is("archive_format"@), 0)) matches Ok(
        text,
    ) && trim(text) == "pt2"@ && first_where(entries, logical_is("model.json"@), 0) is Some)
}

impl ExportedProgramArchive {
    /// Whether `data` is a zip archive that holds an exported program.
    pub fn detect(data: &[u8]) -> (r: bool)
        ensures
            r == (spec_zip_archive(data@) matches Ok(entries) && spec_is_exported_program_zip(
                entries,
            )),
    {
        match ZipArchive::open(data) {
            Ok(archive) => {
                if archive.logical_entry("serialized_exported_program.json").is_some() {
                    return true;
                }
                let pt2 = match archive.text_logical("archive_format") {
                    Ok(value) => str_eq(str_trim(value.as_str()), "pt2"),
                    Err(_) => false,
                };
                pt2 && archive.logical_entry("model.json").is_some()
            },
            Err(_) => false,
        }
    }
}

/// A state dict saved in shards, with their index: the version of the first
/// shard that names one, and the entries of all shards.
pub struct PyTorchShardedStateDictArchive {
    pub version: Option<String>,
    pub state_dict: StateDict,
}

/// Whether the entry's name ends with `suffix`.
pub open spec fn ends_with_name(suffix: Seq<char>) -> spec_fn(ZipEntryView) -> bool {
    |e: ZipEntryView| has_suffix(e.name, suffix)
}

/// Whether some entry of a zip archive is named `*suffix`.
fn any_name_ends_with(archive: &ZipArchive, suffix: &str) -> (r: bool)
    ensures
        r == (first_where(archive@, ends_with_name(suffix@), 0) is Some),
{
    let mut i: usize = 0;
    while i < archive.entries.len()
        invariant
            i <= archive@.len(),
            archive@.len() == archive.entries@.len(),
            first_where(archive@, ends_with_name(suffix@), i as int) == first_where(
                archive@,
                ends_with_name(suffix@),
                0,
            ),
        decreases archive@.len() - i,
    {
        proof {
            assert(archive@[i as int] == archive.entries@[i as int]@);
        }
        if str_ends_with(archive.entries[i].name, suffix) {
            return true;
        }
        i = i + 1;
    }
    false
}

/// Whether a zip archive holds a sharded state dict: an index of the shards
/// (`*.bin.index.json`) and a shard (`*.bin`).
pub open spec fn spec_is_sharded_state_dict_zip(entries: Seq<ZipEntryView>) -> bool {
    first_where(entries, ends_with_name(".bin.index.json"@), 0) is Some && first_where(
        entries,
        ends_with_name(".bin"@),
        0,
    ) is Some
}

impl PyTorchShardedStateDictArchive {
    /// Whether `data` is a zip archive that holds a sharded state dict.
    pub fn detect(data: &[u8]) -> (r: bool)
        ensures
            r == (spec_zip_archive(data@) matches Ok(entries) && spec_is_sharded_state_dict_zip(
                entries,
            )),
    {
        match ZipArchive::open(data) {
            Ok(archive) => any_name_ends_with(&archive, ".bin.index.json") && any_name_ends_with(
                &archive,
                ".bin",
            ),
            Err(_) => false,
        }
    }
}

/// A package saved by `torch.package`: its version and its pickles.
pub struct PyTorchPackageArchive {
    pub version: Option<String>,
    pub pickles: Vec<PyTorchPackagePickle>,
}

/// A pickle of a package: the graph it makes, the class it builds, the
/// names and the number of its inputs, and its tensors.
pub struct PyTorchPackagePickle {
    pub graph_name: String,
    pub operator: Option<String>,
    pub input_names: Vec<String>,
    pub input_count: usize,
    pub tensors: Vec<LegacyTensor>,
}

/// Whether a zip archive is a package: it has a version entry and a pickle.
pub open spec fn spec_is_package_zip(entries: Seq<ZipEntryView>) -> bool {
    first_where(entries, is_version_entry(), 0) is Some && entries.filter(is_package_pickle()).len()
        > 0
}

impl PyTorchPackageArchive {
    /// Whether `data` is a zip archive that holds a package.
    pub fn detect(data: &[u8]) -> (r: bool)
        ensures
            r == (spec_zip_archive(data@) matches Ok(entries) && spec_is_package_zip(entries)),
    {
        match ZipArchive::open(data) {
            Ok(archive) => {
                if archive.package_version_entry().is_none() {
                    return false;
                }
                let pickles = archive.package_pickle_entries();
                proof {
                    assert(pickles@.map_values(|e: &crate::pytorch::zip::ZipEntry| e@).len()
                        == pickles@.len());
                }
                pickles.len() > 0
            },
            Err(_) => false,
        }
    }
}

} // verus!
