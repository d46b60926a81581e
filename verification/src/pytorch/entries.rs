//! Finding the entries of a PyTorch zip archive by name.
use vstd::prelude::*;
use vstd::string::StringExecFns;
use crate::chars::{last_index_of, rsplit_once, str_rsplit_once, strip_prefix, str_strip_prefix};
use crate::error::{ErrorKind, Format, ModelError, invalid};
use crate::pytorch::names::{
    logical_zip_path, package_relative_path, spec_logical_zip_path, spec_package_relative_path,
};
use crate::pytorch::py_error;
use crate::pytorch::zip::{
    ZipArchive, ZipEntry, ZipEntryView, spec_decoded, spec_entry_bytes, spec_zip_archive,
};
use crate::text::{
    has_prefix, has_suffix, occurs_at, spec_utf8, str_contains, str_ends_with, str_eq,
    str_starts_with, utf8_string,
};

verus! {

/// The first index at or after `i` of an entry that `p` holds of.
pub open spec fn first_where(s: Seq<ZipEntryView>, p: spec_fn(ZipEntryView) -> bool, i: int) -> Option<int>
    decreases s.len() - i,
{
    if i < 0 || i >= s.len() {
        None
    } else if p(s[i]) {
        Some(i)
    } else {
        first_where(s, p, i + 1)
    }
}

pub proof fn lemma_first_where_bounds(s: Seq<ZipEntryView>, p: spec_fn(ZipEntryView) -> bool, i: int)
    requires
        0 <= i,
    ensures
        first_where(s, p, i) matches Some(j) ==> i <= j < s.len() && p(s[j]),
        first_where(s, p, i) is None ==> forall|k: int| i <= k < s.len() ==> !p(s[k]),
    decreases s.len() - i,
{
    if i < s.len() && !p(s[i]) {
        lemma_first_where_bounds(s, p, i + 1);
    }
}

/// Whether the entry's path inside the model is `name`.
pub open spec fn logical_is(name: Seq<char>) -> spec_fn(ZipEntryView) -> bool {
    |e: ZipEntryView| spec_logical_zip_path(e.name) == name
}

/// Whether the entry is named `name`.
pub open spec fn named(name: Seq<char>) -> spec_fn(ZipEntryView) -> bool {
    |e: ZipEntryView| e.name == name
}

/// The bytes of the entry at `index`, or the error.
pub open spec fn entry_bytes_at(entries: Seq<ZipEntryView>, index: Option<int>) -> Result<Seq<u8>, ErrorKind> {
    match index {
        None => Err(ErrorKind::Missing),
        Some(i) => spec_entry_bytes(spec_decoded(entries[i]), entries[i].uncompressed_size),
    }
}

/// The text of the entry at `index`, or the error.
pub open spec fn entry_text_at(entries: Seq<ZipEntryView>, index: Option<int>) -> Result<Seq<char>, ErrorKind> {
    match entry_bytes_at(entries, index) {
        Err(k) => Err(k),
        Ok(bytes) => match spec_utf8(bytes) {
            Some(s) => Ok(s),
            None => Err(ErrorKind::InvalidUtf8),
        },
    }
}

/// Whether `r` is the spec result `s`, a value by its view.
pub open spec fn bytes_result(r: Result<Vec<u8>, ModelError>, s: Result<Seq<u8>, ErrorKind>) -> bool {
    match s {
        Ok(b) => r matches Ok(v) && v@ == b,
        Err(k) => r matches Err(e) && e == py_error(k),
    }
}

/// Whether `r` is the spec result `s`, a value by its view.
pub open spec fn text_result(r: Result<String, ModelError>, s: Result<Seq<char>, ErrorKind>) -> bool {
    match s {
        Ok(t) => r matches Ok(v) && v@ == t,
        Err(k) => r matches Err(e) && e == py_error(k),
    }
}

/// Decodes the bytes of an entry as UTF-8.
fn entry_text(entry: &ZipEntry) -> (r: Result<String, ModelError>)
    ensures
        text_result(r, entry_text_at(seq![entry@], Some(0))),
{
    let bytes = entry.bytes()?;
    match utf8_string(bytes.as_slice()) {
        Some(s) => Ok(s),
        None => Err(invalid(Format::PyTorch, ErrorKind::InvalidUtf8)),
    }
}

impl<'a> ZipArchive<'a> {
    /// The first entry whose path inside the model is `name`.
    pub fn logical_entry(&self, name: &str) -> (r: Option<&ZipEntry<'a>>)
        ensures
            match first_where(self@, logical_is(name@), 0) {
                Some(i) => r matches Some(e) && e@ == self@[i],
                None => r is None,
            },
    {
        proof {
            lemma_first_where_bounds(self@, logical_is(name@), 0);
        }
        let mut i: usize = 0;
        while i < self.entries.len()
            invariant
                i <= self@.len(),
                first_where(self@, logical_is(name@), i as int) == first_where(
                    self@,
                    logical_is(name@),
                    0,
                ),
            decreases self@.len() - i,
        {
            if str_eq(logical_zip_path(self.entries[i].name), name) {
                return Some(&self.entries[i]);
            }
            i = i + 1;
        }
        None
    }

    /// The first entry named `name`.
    pub fn named_entry(&self, name: &str) -> (r: Option<&ZipEntry<'a>>)
        ensures
            match first_where(self@, named(name@), 0) {
                Some(i) => r matches Some(e) && e@ == self@[i],
                None => r is None,
            },
    {
        proof {
            lemma_first_where_bounds(self@, named(name@), 0);
        }
        let mut i: usize = 0;
        while i < self.entries.len()
            invariant
                i <= self@.len(),
                first_where(self@, named(name@), i as int) == first_where(self@, named(name@), 0),
            decreases self@.len() - i,
        {
            if str_eq(self.entries[i].name, name) {
                return Some(&self.entries[i]);
            }
            i = i + 1;
        }
        None
    }

    /// The decoded bytes of the entry named `name`.
    pub fn bytes(&self, name: &str) -> (r: Result<Vec<u8>, ModelError>)
        ensures
            bytes_result(r, entry_bytes_at(self@, first_where(self@, named(name@), 0))),
    {
        proof {
            lemma_first_where_bounds(self@, named(name@), 0);
        }
        match self.named_entry(name) {
            Some(entry) => entry.bytes(),
            None => Err(invalid(Format::PyTorch, ErrorKind::Missing)),
        }
    }

    /// The decoded bytes of the entry whose path inside the model is `name`.
    pub fn bytes_logical(&self, name: &str) -> (r: Result<Vec<u8>, ModelError>)
        ensures
            bytes_result(r, entry_bytes_at(self@, first_where(self@, logical_is(name@), 0))),
    {
        proof {
            lemma_first_where_bounds(self@, logical_is(name@), 0);
        }
        match self.logical_entry(name) {
            Some(entry) => entry.bytes(),
            None => Err(invalid(Format::PyTorch, ErrorKind::Missing)),
        }
    }

    /// The text of the entry named `name`.
    pub fn text(&self, name: &str) -> (r: Result<String, ModelError>)
        ensures
            text_result(r, entry_text_at(self@, first_where(self@, named(name@), 0))),
    {
        let bytes = self.bytes(name)?;
        match utf8_string(bytes.as_slice()) {
            Some(s) => Ok(s),
            None => Err(invalid(Format::PyTorch, ErrorKind::InvalidUtf8)),
        }
    }

    /// The text of the entry whose path inside the model is `name`.
    pub fn text_logical(&self, name: &str) -> (r: Result<String, ModelError>)
        ensures
            text_result(r, entry_text_at(self@, first_where(self@, logical_is(name@), 0))),
    {
        let bytes = self.bytes_logical(name)?;
        match utf8_string(bytes.as_slice()) {
            Some(s) => Ok(s),
            None => Err(invalid(Format::PyTorch, ErrorKind::InvalidUtf8)),
        }
    }

    /// The text of the first entry whose path inside the model is `name`.
    pub fn text_suffix(&self, name: &str) -> (r: Result<String, ModelError>)
        ensures
            text_result(r, entry_text_at(self@, first_where(self@, logical_is(name@), 0))),
    {
        self.text_logical(name)
    }

    /// The text of the entry `name` in the folder of `entry_name`.
    pub fn text_sibling(&self, entry_name: &str, name: &str) -> (r: Result<String, ModelError>)
        ensures
            text_result(
                r,
                entry_text_at(self@, first_where(self@, named(spec_sibling(entry_name@, name@)), 0)),
            ),
    {
        let candidate = match str_rsplit_once(entry_name, '/') {
            Some((prefix, _)) => {
                let mut c = String::from_str(prefix);
                c.append("/");
                c.append(name);
                c
            },
            None => String::from_str(name),
        };
        self.text(candidate.as_str())
    }

    /// Whether an entry's path inside the model is a Python file under
    /// `code/`.
    pub fn has_torchscript_code(&self) -> (r: bool)
        ensures
            r == (first_where(self@, is_code_file(), 0) is Some),
    {
        proof {
            lemma_first_where_bounds(self@, is_code_file(), 0);
        }
        let mut i: usize = 0;
        while i < self.entries.len()
            invariant
                i <= self@.len(),
                first_where(self@, is_code_file(), i as int) == first_where(self@, is_code_file(), 0),
            decreases self@.len() - i,
        {
            let logical = logical_zip_path(self.entries[i].name);
            if str_starts_with(logical, "code/") && str_ends_with(logical, ".py") {
                return true;
            }
            i = i + 1;
        }
        false
    }

    /// The name of the legacy TorchScript `model.json` entry.
    pub fn legacy_torchscript_model_entry(&self) -> (r: Option<&'a str>)
        ensures
            match first_where(self@, logical_is("model.json"@), 0) {
                Some(i) => r matches Some(n) && n@ == self@[i].name,
                None => r is None,
            },
    {
        match self.logical_entry("model.json") {
            Some(entry) => Some(entry.name),
            None => None,
        }
    }

    /// The entry that holds a package's version.
    pub fn package_version_entry(&self) -> (r: Option<&ZipEntry<'a>>)
        ensures
            match first_where(self@, is_version_entry(), 0) {
                Some(i) => r matches Some(e) && e@ == self@[i],
                None => r is None,
            },
    {
        proof {
            lemma_first_where_bounds(self@, is_version_entry(), 0);
        }
        let mut i: usize = 0;
        while i < self.entries.len()
            invariant
                i <= self@.len(),
                first_where(self@, is_version_entry(), i as int) == first_where(
                    self@,
                    is_version_entry(),
                    0,
                ),
            decreases self@.len() - i,
        {
            let name = self.entries[i].name;
            if str_eq(name, ".data/version") || str_ends_with(name, "/.data/version") {
                return Some(&self.entries[i]);
            }
            i = i + 1;
        }
        None
    }

    /// The pickles of a package: the `.pkl` entries and the `model` entries
    /// below a top folder, outside `.data` folders.
    pub fn package_pickle_entries(&self) -> (r: Vec<&ZipEntry<'a>>)
        ensures
            r@.map_values(|e: &ZipEntry<'a>| e@) == self@.filter(is_package_pickle()),
    {
        let mut out: Vec<&ZipEntry<'a>> = Vec::new();
        let mut i: usize = 0;
        proof {
            assert(self@.take(0).filter(is_package_pickle()) =~= Seq::<ZipEntryView>::empty());
            assert(out@.map_values(|e: &ZipEntry<'a>| e@) =~= Seq::<ZipEntryView>::empty());
        }
        while i < self.entries.len()
            invariant
                i <= self@.len(),
                out@.map_values(|e: &ZipEntry<'a>| e@) == self@.take(i as int).filter(
                    is_package_pickle(),
                ),
            decreases self@.len() - i,
        {
            let entry = &self.entries[i];
            let name = entry.name;
            let keep = !str_starts_with(name, ".data/") && !str_contains(name, "/.data/") && (
            str_ends_with(name, ".pkl") || str_ends_with(package_relative_path(name), "/model"));
            let ghost before = out@.map_values(|e: &ZipEntry<'a>| e@);
            proof {
                assert(self@.take(i + 1) =~= self@.take(i as int).push(entry@));
                self@.take(i as int).lemma_filter_push(entry@, is_package_pickle());
            }
            if keep {
                out.push(entry);
                proof {
                    assert(out@.map_values(|e: &ZipEntry<'a>| e@) =~= before.push(entry@));
                }
            }
            i = i + 1;
        }
        proof {
            assert(self@.take(self@.len() as int) =~= self@);
        }
        out
    }
}

/// The path of `name` in the folder of `entry_name`.
pub open spec fn spec_sibling(entry_name: Seq<char>, name: Seq<char>) -> Seq<char> {
    match rsplit_once(entry_name, '/') {
        Some((prefix, _)) => prefix + "/"@ + name,
        None => name,
    }
}

/// Whether the entry's path inside the model is a Python file under `code/`.
pub open spec fn is_code_file() -> spec_fn(ZipEntryView) -> bool {
    |e: ZipEntryView| has_prefix(spec_logical_zip_path(e.name), "code/"@) && has_suffix(
        spec_logical_zip_path(e.name),
        ".py"@,
    )
}

/// Whether the entry holds a package's version.
pub open spec fn is_version_entry() -> spec_fn(ZipEntryView) -> bool {
    |e: ZipEntryView| e.name == ".data/version"@ || has_suffix(e.name, "/.data/version"@)
}

/// Whether the entry is one of a package's pickles.
pub open spec fn is_package_pickle() -> spec_fn(ZipEntryView) -> bool {
    |e: ZipEntryView|
        !has_prefix(e.name, ".data/"@) && !(exists|j: int| occurs_at(e.name, "/.data/"@, j)) && (
        has_suffix(e.name, ".pkl"@) || has_suffix(spec_package_relative_path(e.name), "/model"@))
}

} // verus!
