//! A state dict saved in shards: the shards that the index names, or else
//! every `.bin` entry, each a zip archive with a state dict.
use vstd::prelude::*;
use vstd::string::StringExecFns;
use crate::error::{ErrorKind, Format, ModelError, invalid};
use crate::pytorch::archives::{PyTorchZipArchive, spec_pytorch_zip_archive};
use crate::pytorch::detect::{PyTorchShardedStateDictArchive, ends_with_name};
use crate::pytorch::entries::first_where;
use crate::pytorch::modules::opt_view;
use crate::pytorch::package::entry_data;
use crate::pytorch::py_error;
use crate::pytorch::state_dict::{EntryView, StateDict, StateDictEntry, entry_views, spec_state_dict};
use crate::pytorch::zip::{ZipArchive, ZipEntry, ZipEntryView, spec_zip_archive};
use crate::text::{has_suffix, str_ends_with, str_eq};
use crate::json::{JsonValue, JsonView, json_get, json_members, json_object, json_str, json_value_of, parse_json};

verus! {

/// The views of the shard file values of an index.
pub open spec fn file_views(files: Seq<Option<String>>) -> Seq<Option<Seq<char>>> {
    files.map_values(|f: Option<String>| opt_view(f))
}

/// The shard files that an index's values name, once each, in the order of
/// their first mention; values that are no text name nothing.
pub open spec fn shard_names(values: Seq<Option<Seq<char>>>) -> Seq<Seq<char>>
    decreases values.len(),
{
    if values.len() == 0 {
        Seq::empty()
    } else {
        let rest = shard_names(values.drop_last());
        match values.last() {
            Some(n) => if rest.contains(n) {
                rest
            } else {
                rest.push(n)
            },
            None => rest,
        }
    }
}

/// Whether an entry is the shard file `name`: it has that name, or ends with
/// `/name`.
pub open spec fn names_shard(name: Seq<char>) -> spec_fn(ZipEntryView) -> bool {
    |e: ZipEntryView| e.name == name || has_suffix(e.name, "/"@ + name)
}

/// The entries of the shard files `names`, each the first entry that is that
/// file; files without one are left out.
pub open spec fn shard_entries(entries: Seq<ZipEntryView>, names: Seq<Seq<char>>) -> Seq<ZipEntryView>
    decreases names.len(),
{
    if names.len() == 0 {
        Seq::empty()
    } else {
        let rest = shard_entries(entries, names.drop_last());
        match first_where(entries, names_shard(names.last()), 0) {
            Some(i) => rest.push(entries[i]),
            None => rest,
        }
    }
}

/// The index of a sharded state dict: the first entry named
/// `*.bin.index.json`.
pub open spec fn index_entry(entries: Seq<ZipEntryView>) -> Option<int> {
    first_where(entries, ends_with_name(".bin.index.json"@), 0)
}

/// The decoded bytes of the index of a sharded state dict, when it has one
/// that decodes.
pub fn sharded_index_bytes(archive: &ZipArchive) -> (r: Option<Vec<u8>>)
    ensures
        match index_entry(archive@) {
            Some(i) => match entry_data(archive@[i]) {
                Ok(b) => r matches Some(v) && v@ == b,
                Err(_) => r is None,
            },
            None => r is None,
        },
{
    proof {
        crate::pytorch::entries::lemma_first_where_bounds(
            archive@,
            ends_with_name(".bin.index.json"@),
            0,
        );
    }
    let mut i: usize = 0;
    while i < archive.entries.len()
        invariant
            i <= archive@.len(),
            archive@.len() == archive.entries@.len(),
            first_where(archive@, ends_with_name(".bin.index.json"@), i as int) == index_entry(
                archive@,
            ),
        decreases archive@.len() - i,
    {
        proof {
            assert(archive@[i as int] == archive.entries@[i as int]@);
        }
        if str_ends_with(archive.entries[i].name, ".bin.index.json") {
            return match archive.entries[i].bytes() {
                Ok(b) => Some(b),
                Err(_) => None,
            };
        }
        i = i + 1;
    }
    None
}

/// The shard files that an index's values name, once each.
pub fn shard_file_names(files: &[Option<String>]) -> (r: Vec<String>)
    ensures
        r@.map_values(|s: String| s@) == shard_names(file_views(files@)),
{
    let ghost fv = file_views(files@);
    let mut names: Vec<String> = Vec::new();
    let mut i: usize = 0;
    proof {
        assert(fv.take(0) =~= Seq::<Option<Seq<char>>>::empty());
        assert(names@.map_values(|s: String| s@) =~= Seq::<Seq<char>>::empty());
    }
    while i < files.len()
        invariant
            i <= files@.len(),
            fv == file_views(files@),
            names@.map_values(|s: String| s@) == shard_names(fv.take(i as int)),
        decreases files@.len() - i,
    {
        proof {
            assert(fv.take(i + 1).drop_last() =~= fv.take(i as int));
        }
        if let Some(name) = &files[i] {
            let ghost view = names@.map_values(|s: String| s@);
            let mut seen = false;
            let mut j: usize = 0;
            while j < names.len()
                invariant
                    j <= names@.len(),
                    view == names@.map_values(|s: String| s@),
                    seen == (exists|k: int| 0 <= k < j && view[k] == name@),
                decreases names@.len() - j,
            {
                proof {
                    assert(view[j as int] == names@[j as int]@);
                }
                if str_eq(names[j].as_str(), name.as_str()) {
                    seen = true;
                }
                j = j + 1;
            }
            proof {
                assert(seen == view.contains(name@));
            }
            if !seen {
                names.push(name.clone());
                proof {
                    assert(names@.map_values(|s: String| s@) =~= view.push(name@));
                }
            }
        }
        i = i + 1;
    }
    proof {
        assert(fv.take(files@.len() as int) =~= fv);
    }
    names
}

/// The views of entry references.
pub open spec fn entry_ref_views<'a>(v: Seq<&'a ZipEntry<'a>>) -> Seq<ZipEntryView> {
    v.map_values(|e: &ZipEntry<'a>| e@)
}

/// The entry of the shard file `name`.
fn find_shard<'a>(archive: &'a ZipArchive<'a>, name: &str) -> (r: Option<&'a ZipEntry<'a>>)
    ensures
        match first_where(archive@, names_shard(name@), 0) {
            Some(i) => r matches Some(e) && e@ == archive@[i],
            None => r is None,
        },
{
    let mut suffix = String::from_str("/");
    suffix.append(name);
    proof {
        crate::pytorch::entries::lemma_first_where_bounds(archive@, names_shard(name@), 0);
    }
    let mut i: usize = 0;
    while i < archive.entries.len()
        invariant
            i <= archive@.len(),
            archive@.len() == archive.entries@.len(),
            suffix@ == "/"@ + name@,
            first_where(archive@, names_shard(name@), i as int) == first_where(
                archive@,
                names_shard(name@),
                0,
            ),
        decreases archive@.len() - i,
    {
        proof {
            assert(archive@[i as int] == archive.entries@[i as int]@);
        }
        let entry_name = archive.entries[i].name;
        if str_eq(entry_name, name) || str_ends_with(entry_name, suffix.as_str()) {
            return Some(&archive.entries[i]);
        }
        i = i + 1;
    }
    None
}

/// The entries of the shard files that an index's values name.
pub fn sharded_state_dict_entries<'a>(archive: &'a ZipArchive<'a>, files: &[Option<String>]) -> (r: Vec<
    &'a ZipEntry<'a>,
>)
    ensures
        entry_ref_views(r@) == shard_entries(archive@, shard_names(file_views(files@))),
{
    let names = shard_file_names(files);
    let ghost nv = names@.map_values(|s: String| s@);
    let mut out: Vec<&'a ZipEntry<'a>> = Vec::new();
    let mut i: usize = 0;
    proof {
        assert(nv.take(0) =~= Seq::<Seq<char>>::empty());
        assert(entry_ref_views(out@) =~= Seq::<ZipEntryView>::empty());
    }
    while i < names.len()
        invariant
            i <= names@.len(),
            nv == names@.map_values(|s: String| s@),
            entry_ref_views(out@) == shard_entries(archive@, nv.take(i as int)),
        decreases names@.len() - i,
    {
        proof {
            assert(nv.take(i + 1).drop_last() =~= nv.take(i as int));
        }
        if let Some(entry) = find_shard(archive, names[i].as_str()) {
            let ghost before = entry_ref_views(out@);
            out.push(entry);
            proof {
                assert(entry_ref_views(out@) =~= before.push(entry@));
            }
        }
        i = i + 1;
    }
    proof {
        assert(nv.take(names@.len() as int) =~= nv);
    }
    out
}

/// The `.bin` entries of an archive.
fn bin_entries<'a>(archive: &'a ZipArchive<'a>) -> (r: Vec<&'a ZipEntry<'a>>)
    ensures
        entry_ref_views(r@) == archive@.filter(ends_with_name(".bin"@)),
{
    let mut out: Vec<&'a ZipEntry<'a>> = Vec::new();
    let mut i: usize = 0;
    proof {
        assert(archive@.take(0).filter(ends_with_name(".bin"@)) =~= Seq::<ZipEntryView>::empty());
        assert(entry_ref_views(out@) =~= Seq::<ZipEntryView>::empty());
    }
    while i < archive.entries.len()
        invariant
            i <= archive@.len(),
            archive@.len() == archive.entries@.len(),
            entry_ref_views(out@) == archive@.take(i as int).filter(ends_with_name(".bin"@)),
        decreases archive@.len() - i,
    {
        proof {
            assert(archive@[i as int] == archive.entries@[i as int]@);
            assert(archive@.take(i + 1) =~= archive@.take(i as int).push(archive@[i as int]));
            archive@.take(i as int).lemma_filter_push(archive@[i as int], ends_with_name(".bin"@));
        }
        let ghost before = entry_ref_views(out@);
        if str_ends_with(archive.entries[i].name, ".bin") {
            out.push(&archive.entries[i]);
            proof {
                assert(entry_ref_views(out@) =~= before.push(archive@[i as int]));
            }
        }
        i = i + 1;
    }
    proof {
        assert(archive@.take(archive@.len() as int) =~= archive@);
    }
    out
}

/// The shards that a sharded state dict reads: those that the index names,
/// or every `.bin` entry when it names none.
pub open spec fn chosen_shards(entries: Seq<ZipEntryView>, files: Seq<Option<Seq<char>>>) -> Seq<ZipEntryView> {
    let named = shard_entries(entries, shard_names(files));
    if named.len() == 0 {
        entries.filter(ends_with_name(".bin"@))
    } else {
        named
    }
}

/// The version and the entries of the shards `shards`: each is a zip archive
/// with a state dict; the first version named wins; the first shard that
/// fails makes the whole fail.
pub open spec fn spec_shards(shards: Seq<ZipEntryView>) -> Result<(Option<Seq<char>>, Seq<EntryView>), ErrorKind>
    decreases shards.len(),
{
    if shards.len() == 0 {
        Ok((None, Seq::empty()))
    } else {
        match spec_shards(shards.drop_last()) {
            Err(k) => Err(k),
            Ok((version, entries)) => match entry_data(shards.last()) {
                Err(k) => Err(k),
                Ok(bytes) => match spec_pytorch_zip_archive(bytes) {
                    Err(k) => Err(k),
                    Ok(shard) => {
                        let version = if version is None {
                            shard.version
                        } else {
                            version
                        };
                        match spec_state_dict(shard.data_pickle) {
                            Err(k) => Err(k),
                            Ok(None) => Ok((version, entries)),
                            Ok(Some(more)) => Ok((version, entries + more)),
                        }
                    },
                },
            },
        }
    }
}

/// A shard that fails makes the whole fail.
pub proof fn lemma_shards_error_stays(shards: Seq<ZipEntryView>, j: int)
    requires
        0 <= j <= shards.len(),
        spec_shards(shards.take(j)) is Err,
    ensures
        spec_shards(shards) == spec_shards(shards.take(j)),
    decreases shards.len() - j,
{
    if j < shards.len() {
        assert(shards.take(j + 1).drop_last() =~= shards.take(j));
        lemma_shards_error_stays(shards, j + 1);
    } else {
        assert(shards.take(j) =~= shards);
    }
}

/// A sharded state dict: the version and the entries of its shards, of which
/// there must be one.
pub open spec fn spec_sharded_state_dict(data: Seq<u8>, files: Seq<Option<Seq<char>>>) -> Result<
    (Option<Seq<char>>, Seq<EntryView>),
    ErrorKind,
> {
    match spec_zip_archive(data) {
        Err(k) => Err(k),
        Ok(entries) => match spec_shards(chosen_shards(entries, files)) {
            Err(k) => Err(k),
            Ok((version, es)) => if es.len() == 0 {
                Err(ErrorKind::Missing)
            } else {
                Ok((version, es))
            },
        },
    }
}

/// The values of the weight map of an archive's index: none when it has no
/// index, its bytes do not decode, serde_json does not read them, or they
/// have no object `weight_map`; else each value's text, when it is a string.
pub open spec fn spec_archive_index_values(es: Seq<ZipEntryView>) -> Seq<Option<Seq<char>>> {
    match index_entry(es) {
        None => Seq::empty(),
        Some(i) => match entry_data(es[i]) {
            Err(_) => Seq::empty(),
            Ok(b) => match json_value_of(b) {
                None => Seq::empty(),
                Some(v) => match json_object(json_get(v, "weight_map"@)) {
                    None => Seq::empty(),
                    Some(ms) => ms.map_values(|m: (Seq<char>, JsonView)| json_str(Some(m.1))),
                },
            },
        },
    }
}

/// The values of the weight map of the archive's index.
pub fn index_shard_values(archive: &ZipArchive) -> (r: Vec<Option<String>>)
    ensures
        file_views(r@) == spec_archive_index_values(archive@),
{
    let bytes = match sharded_index_bytes(archive) {
        Some(b) => b,
        None => return Vec::new(),
    };
    let value = match parse_json(bytes.as_slice()) {
        Some(v) => v,
        None => return Vec::new(),
    };
    let members = match value.get("weight_map") {
        Some(JsonValue::Object(members)) => members,
        _ => return Vec::new(),
    };
    let ghost views = json_members(members@);
    let ghost want = views.map_values(|m: (Seq<char>, JsonView)| json_str(Some(m.1)));
    let mut out: Vec<Option<String>> = Vec::new();
    let mut i: usize = 0;
    while i < members.len()
        invariant
            views == json_members(members@),
            want == views.map_values(|m: (Seq<char>, JsonView)| json_str(Some(m.1))),
            i <= members@.len(),
            out@.len() == i,
            forall|k: int| 0 <= k < i ==> #[trigger] file_views(out@)[k] == want[k],
        decreases members@.len() - i,
    {
        proof {
            assert(views.len() == members@.len());
            assert(views[i as int] == (members@[i as int].0@, members@[i as int].1@));
            assert(want[i as int] == json_str(Some(members@[i as int].1@)));
        }
        let file = match members[i].1.as_str() {
            Some(f) => Some(f.to_owned()),
            None => None,
        };
        let ghost fv = if file is Some { Some(file->0@) } else { None::<Seq<char>> };
        proof {
            assert(fv == want[i as int]);
        }
        let ghost before = out@;
        out.push(file);
        proof {
            assert forall|k: int| 0 <= k < i + 1 implies #[trigger] file_views(out@)[k] == want[k] by {
                if k < i {
                    assert(out@[k] == before[k]);
                    assert(file_views(before)[k] == want[k]);
                } else {
                    assert(file_views(out@)[k] == opt_view(out@[k]));
                }
            }
        }
        i = i + 1;
    }
    proof {
        assert(file_views(out@) =~= want);
    }
    out
}

impl PyTorchShardedStateDictArchive {
    /// Reads a sharded state dict: the shards that its index's weight map
    /// names, read as JSON by serde_json, or else every `.bin` entry.
    pub fn read(data: &[u8]) -> (r: Result<Self, ModelError>)
        ensures
            match spec_zip_archive(data@) {
                Err(k) => r matches Err(e) && e == py_error(k),
                Ok(es) => match spec_sharded_state_dict(data@, spec_archive_index_values(es)) {
                    Ok((version, entries)) => r matches Ok(a) && opt_view(a.version) == version
                        && entry_views(a.state_dict.entries@) == entries,
                    Err(k) => r matches Err(e) && e == py_error(k),
                },
            },
    {
        let archive = ZipArchive::open(data)?;
        let files = index_shard_values(&archive);
        Self::read_with_shard_files(data, files.as_slice())
    }

    /// Reads a sharded state dict whose index's weight map has the values
    /// `files` (none when it has no index that reads as one).
    pub fn read_with_shard_files(data: &[u8], files: &[Option<String>]) -> (r: Result<Self, ModelError>)
        ensures
            match spec_sharded_state_dict(data@, file_views(files@)) {
                Ok((version, es)) => r matches Ok(a) && opt_view(a.version) == version && entry_views(
                    a.state_dict.entries@,
                ) == es,
                Err(k) => r matches Err(e) && e == py_error(k),
            },
    {
        let archive = ZipArchive::open(data)?;
        let mut shards = sharded_state_dict_entries(&archive, files);
        if shards.len() == 0 {
            shards = bin_entries(&archive);
        }
        let ghost sv = entry_ref_views(shards@);
        let mut version: Option<String> = None;
        let mut entries: Vec<StateDictEntry> = Vec::new();
        let mut i: usize = 0;
        proof {
            assert(sv.take(0) =~= Seq::<ZipEntryView>::empty());
            assert(entry_views(entries@) =~= Seq::<EntryView>::empty());
        }
        while i < shards.len()
            invariant
                i <= shards@.len(),
                sv == entry_ref_views(shards@),
                sv == chosen_shards(archive@, file_views(files@)),
                spec_zip_archive(data@) == Ok::<Seq<ZipEntryView>, ErrorKind>(archive@),
                spec_shards(sv.take(i as int)) == Ok::<(Option<Seq<char>>, Seq<EntryView>), ErrorKind>(
                    (opt_view(version), entry_views(entries@)),
                ),
            decreases shards@.len() - i,
        {
            proof {
                assert(sv.take(i + 1).drop_last() =~= sv.take(i as int));
                assert(sv[i as int] == shards@[i as int]@);
            }
            let bytes = match shards[i].bytes() {
                Ok(b) => b,
                Err(e) => {
                    proof {
                        lemma_shards_error_stays(sv, i + 1);
                    }
                    return Err(e);
                },
            };
            let shard = match PyTorchZipArchive::read(bytes.as_slice()) {
                Ok(s) => s,
                Err(e) => {
                    proof {
                        lemma_shards_error_stays(sv, i + 1);
                    }
                    return Err(e);
                },
            };
            if version.is_none() {
                version = shard.version;
            }
            match StateDict::read(shard.data_pickle.as_slice()) {
                Ok(Some(d)) => {
                    let ghost before = entry_views(entries@);
                    let ghost more = entry_views(d.entries@);
                    let mut more_entries = d.entries;
                    entries.append(&mut more_entries);
                    proof {
                        assert(entry_views(entries@) =~= before + more);
                    }
                },
                Ok(None) => {},
                Err(e) => {
                    proof {
                        lemma_shards_error_stays(sv, i + 1);
                    }
                    return Err(e);
                },
            }
            i = i + 1;
        }
        proof {
            assert(sv.take(shards@.len() as int) =~= sv);
        }
        if entries.len() == 0 {
            return Err(invalid(Format::PyTorch, ErrorKind::Missing));
        }
        Ok(PyTorchShardedStateDictArchive { version, state_dict: StateDict { entries } })
    }
}

} // verus!
