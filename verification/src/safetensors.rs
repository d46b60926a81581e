//! Safetensors files: the header frame, the checks on each tensor entry, and
//! the sharded index.
use vstd::prelude::*;
use crate::chars::{last_index_of, rsplit_once, split, str_rsplit_once, str_split, str_views};
use crate::error::{ErrorKind, Format, ModelError, invalid, model_error};
use crate::graph::{Confidence, FormatMetadata, extension, spec_extension};
use crate::chars::{ascii_lowercase, str_ascii_lowercase};
use crate::graph::{plain_node, refs_in_range, LoweredModel, LoweredNode, LoweredTensor, LoweredValue, ModelView, NodeView, TensorView, ValueView};
use crate::pytorch::dtypes::TensorElementType;
use vstd::string::StringExecFns;
use crate::json::{
    JsonValue, JsonView, json_get, json_items, json_members, json_object, json_str, json_value_of,
    parse_json,
};
use crate::le::{le_u64_at, read_u64};
use crate::onnx::slice_range;
use crate::text::{has_suffix, str_ends_with, str_eq, str_starts_with};

verus! {

/// The Safetensors model format.
pub struct SafetensorsFormat;

/// The error that the Safetensors reader raises for `kind`.
pub open spec fn st_error(kind: ErrorKind) -> ModelError {
    model_error(Format::Safetensors, kind)
}

/// The longest header that a reader accepts: 100 MiB.
pub const MAX_HEADER_LEN: usize = 104_857_600;

// ---------------------------------------------------------------------------
// Names and paths

/// Whether a file name names a sharded index: `*.safetensors.index.json`.
pub open spec fn spec_is_index_path(file_name: Option<Seq<char>>) -> bool {
    match file_name {
        Some(name) => has_suffix(name, ".safetensors.index.json"@),
        None => false,
    }
}

/// Whether the file `file_name` (the last component of a path, if any) is a
/// sharded index.
pub fn is_index_path(file_name: Option<&str>) -> (r: bool)
    ensures
        r == spec_is_index_path(
            match file_name {
                Some(s) => Some(s@),
                None => None,
            },
        ),
{
    match file_name {
        Some(name) => str_ends_with(name, ".safetensors.index.json"),
        None => false,
    }
}

/// Whether a shard path of an index may leave the index's directory: it is
/// absolute, or one of its components is `..`. Paths are read by Unix rules,
/// as `std::path::Path` reads them there: `/` separates components and a
/// leading `/` makes a path absolute. Windows drive and UNC prefixes, and `\`
/// as a separator, are not recognized.
pub open spec fn spec_is_unsafe_shard_path(file: Seq<char>) -> bool {
    (file.len() > 0 && file[0] == '/') || split(file, '/').contains(".."@)
}

/// Accepts a shard path only when it stays inside the index's directory.
pub fn validate_index_file(file: &str) -> (r: Result<(), ModelError>)
    ensures
        spec_is_unsafe_shard_path(file@) ==> r == Err::<(), ModelError>(
            st_error(ErrorKind::InvalidValue),
        ),
        !spec_is_unsafe_shard_path(file@) ==> r == Ok::<(), ModelError>(()),
{
    let absolute = str_starts_with(file, "/");
    proof {
        reveal_strlit("/");
        assert("/"@ =~= seq!['/']);
        if file@.len() > 0 {
            assert(file@.subrange(0, 1) =~= seq![file@[0]]);
        }
    }
    if absolute {
        proof {
            assert(file@.subrange(0, 1)[0] == '/');
        }
        return Err(invalid(Format::Safetensors, ErrorKind::InvalidValue));
    }
    let parts = str_split(file, '/');
    let mut i: usize = 0;
    while i < parts.len()
        invariant
            i <= parts@.len(),
            str_views(parts@) == split(file@, '/'),
            forall|j: int| 0 <= j < i ==> str_views(parts@)[j] != ".."@,
        decreases parts@.len() - i,
    {
        if str_eq(parts[i], "..") {
            proof {
                assert(split(file@, '/')[i as int] == ".."@);
                assert(split(file@, '/').contains(".."@));
            }
            return Err(invalid(Format::Safetensors, ErrorKind::InvalidValue));
        }
        i = i + 1;
    }
    proof {
        assert(str_views(parts@).len() == parts@.len());
        if split(file@, '/').contains(".."@) {
            let j = choose|j: int| 0 <= j < split(file@, '/').len() && split(file@, '/')[j] == ".."@;
            assert(str_views(parts@)[j] == ".."@);
        }
    }
    Ok(())
}

/// A tensor name split at its last dot into its group and its own name; the
/// group is empty when there is no dot.
pub open spec fn spec_split_group_name(name: Seq<char>) -> (Seq<char>, Seq<char>) {
    match rsplit_once(name, '.') {
        Some(parts) => parts,
        None => (Seq::empty(), name),
    }
}

/// Splits a tensor name at its last dot into its group and its own name.
pub fn split_group_name(name: &str) -> (r: (&str, &str))
    ensures
        (r.0@, r.1@) == spec_split_group_name(name@),
{
    match str_rsplit_once(name, '.') {
        Some(parts) => parts,
        None => {
            proof {
                reveal_strlit("");
            }
            ("", name)
        },
    }
}

/// A tensor name is its group, a dot and its own name when it has a dot; the
/// part after the last dot holds no dot, and a name without a dot has the
/// empty group.
pub proof fn lemma_split_group_name_rejoins(name: Seq<char>)
    ensures
        name.contains('.') ==> spec_split_group_name(name).0 + seq!['.'] + spec_split_group_name(
            name,
        ).1 == name && !spec_split_group_name(name).1.contains('.'),
        !name.contains('.') ==> spec_split_group_name(name) == (Seq::<char>::empty(), name),
{
    crate::chars::lemma_last_index_of_bounds(name, '.', name.len() as int);
    match last_index_of(name, '.', name.len() as int) {
        Some(j) => {
            assert(name.subrange(0, j) + seq!['.'] + name.subrange(j + 1, name.len() as int) =~= name);
            let rest = name.subrange(j + 1, name.len() as int);
            assert forall|k: int| 0 <= k < rest.len() implies #[trigger] rest[k] != '.' by {
                assert(rest[k] == name[j + 1 + k]);
            }
        },
        None => {
            if name.contains('.') {
                let k = choose|k: int| 0 <= k < name.len() && name[k] == '.';
                assert(name[k] != '.');
            }
        },
    }
}

// ---------------------------------------------------------------------------
// The header frame

/// The header length of a Safetensors file: a little-endian `u64` before a
/// JSON object that starts with `{`, non-empty, at most `MAX_HEADER_LEN`
/// bytes, and followed by at least one byte.
pub open spec fn spec_header_len(data: Seq<u8>) -> Option<usize> {
    if data.len() <= 9 {
        None
    } else {
        let header_len = le_u64_at(data, 0) as usize;
        if header_len == 0 || header_len > MAX_HEADER_LEN || 8 + header_len >= data.len()
            || data[8] != 0x7b {
            None
        } else {
            Some(header_len)
        }
    }
}

/// A Safetensors file whose frame was checked.
pub struct Reader<'a> {
    pub data: &'a [u8],
    pub header_len: usize,
}

/// A tensor's entry in the header, as the JSON gives it.
#[derive(Debug)]
pub struct HeaderEntry {
    pub dtype: String,
    pub shape: Vec<i64>,
    pub data_offsets: [usize; 2],
}

/// A tensor that the header describes, with the length of its data.
#[derive(Debug)]
pub struct Entry {
    pub name: String,
    pub dtype: String,
    pub shape: Vec<i64>,
    pub byte_len: usize,
}

/// The view of a header entry: its type name, its shape and its data range.
pub struct HeaderEntryView {
    pub dtype: Seq<char>,
    pub shape: Seq<i64>,
    pub start: usize,
    pub end: usize,
}

/// The view of an entry.
pub struct EntryView {
    pub name: Seq<char>,
    pub dtype: Seq<char>,
    pub shape: Seq<i64>,
    pub byte_len: usize,
}

impl View for HeaderEntry {
    type V = HeaderEntryView;

    open spec fn view(&self) -> HeaderEntryView {
        HeaderEntryView {
            dtype: self.dtype@,
            shape: self.shape@,
            start: self.data_offsets@[0],
            end: self.data_offsets@[1],
        }
    }
}

impl View for Entry {
    type V = EntryView;

    open spec fn view(&self) -> EntryView {
        EntryView { name: self.name@, dtype: self.dtype@, shape: self.shape@, byte_len: self.byte_len }
    }
}

/// The name that the header reserves for its metadata.
pub open spec fn metadata_key() -> Seq<char> {
    "__metadata__"@
}

/// What one member of the header adds: nothing for the metadata, an invalid
/// value for a member that is no tensor entry, has a negative dimension or
/// data outside the file's data, else its entry.
pub open spec fn spec_member(name: Seq<char>, member: Option<HeaderEntryView>, data_len: int) -> Result<
    Option<EntryView>,
    ErrorKind,
> {
    if name == metadata_key() {
        Ok(None)
    } else {
        match member {
            None => Err(ErrorKind::InvalidValue),
            Some(e) => if exists|i: int| 0 <= i < e.shape.len() && e.shape[i] < 0 {
                Err(ErrorKind::InvalidValue)
            } else if e.start > e.end || e.end > data_len {
                Err(ErrorKind::InvalidValue)
            } else {
                Ok(
                    Some(
                        EntryView {
                            name,
                            dtype: e.dtype,
                            shape: e.shape,
                            byte_len: (e.end - e.start) as usize,
                        },
                    ),
                )
            },
        }
    }
}

/// The entries of the header's members, in order; the first member that is
/// refused gives the error.
pub open spec fn spec_entries(
    members: Seq<(Seq<char>, Option<HeaderEntryView>)>,
    data_len: int,
) -> Result<Seq<EntryView>, ErrorKind>
    decreases members.len(),
{
    if members.len() == 0 {
        Ok(Seq::empty())
    } else {
        match spec_entries(members.drop_last(), data_len) {
            Err(e) => Err(e),
            Ok(entries) => match spec_member(members.last().0, members.last().1, data_len) {
                Err(e) => Err(e),
                Ok(None) => Ok(entries),
                Ok(Some(entry)) => Ok(entries.push(entry)),
            },
        }
    }
}

/// The views of the members that the JSON header holds.
pub open spec fn member_views(members: Seq<(String, Option<HeaderEntry>)>) -> Seq<
    (Seq<char>, Option<HeaderEntryView>),
> {
    members.map_values(
        |m: (String, Option<HeaderEntry>)|
            (
                m.0@,
                match m.1 {
                    Some(e) => Some(e@),
                    None => None,
                },
            ),
    )
}

/// The views of entries.
pub open spec fn entry_views(entries: Seq<Entry>) -> Seq<EntryView> {
    entries.map_values(|e: Entry| e@)
}

/// Whether a shape has a negative dimension.
pub fn has_negative(shape: &[i64]) -> (r: bool)
    ensures
        r == exists|i: int| 0 <= i < shape@.len() && shape@[i] < 0,
{
    let mut j: usize = 0;
    while j < shape.len()
        invariant
            j <= shape@.len(),
            forall|k: int| 0 <= k < j ==> shape@[k] >= 0,
        decreases shape@.len() - j,
    {
        if shape[j] < 0 {
            return true;
        }
        j = j + 1;
    }
    false
}

impl<'a> Reader<'a> {
    /// Checks the frame of a Safetensors file.
    pub fn open(data: &'a [u8]) -> (r: Option<Self>)
        ensures
            match spec_header_len(data@) {
                Some(h) => r matches Some(reader) && reader.data == data && reader.header_len == h,
                None => r is None,
            },
    {
        if data.len() <= 9 {
            return None;
        }
        let header_len = #[verifier::truncate] (read_u64(data, 0) as usize);
        if header_len == 0 || header_len > MAX_HEADER_LEN || 8 + header_len >= data.len()
            || data[8] != 0x7b {
            return None;
        }
        Some(Reader { data, header_len })
    }

    /// The JSON header: the `header_len` bytes after the length.
    pub fn header(&self) -> (r: Result<&'a [u8], ModelError>)
        ensures
            8 + self.header_len <= self.data@.len() ==> (r matches Ok(h) && h@
                == self.data@.subrange(8, 8 + self.header_len)),
            8 + self.header_len > self.data@.len() ==> (r matches Err(e) && e == st_error(
                ErrorKind::Truncated,
            )),
    {
        if self.header_len > self.data.len() || 8 > self.data.len() - self.header_len {
            return Err(invalid(Format::Safetensors, ErrorKind::Truncated));
        }
        Ok(slice_range(self.data, 8, 8 + self.header_len))
    }

    /// The tensor entries that the header describes: the header is read as
    /// JSON by serde_json and must be an object; its members are then checked
    /// as by `read`.
    pub fn entries(&self) -> (r: Result<Vec<Entry>, ModelError>)
        ensures
            match spec_reader_entries(self.data@, self.header_len as int) {
                Ok(entries) => r matches Ok(v) && entry_views(v@) == entries,
                Err(k) => r matches Err(e) && e == st_error(k),
            },
    {
        let header = self.header()?;
        match parse_json(header) {
            Some(JsonValue::Object(members)) => {
                let read = header_member_entries(&members);
                self.read(read)
            },
            _ => Err(invalid(Format::Safetensors, ErrorKind::InvalidJson)),
        }
    }

    /// The tensor entries of the header's members, in the header's order:
    /// the metadata member is skipped, and each tensor's data range must lie
    /// inside the data after the header.
    pub fn read(&self, members: Vec<(String, Option<HeaderEntry>)>) -> (r: Result<
        Vec<Entry>,
        ModelError,
    >)
        ensures
            8 + self.header_len > self.data@.len() ==> (r matches Err(e) && e == st_error(
                ErrorKind::Truncated,
            )),
            8 + self.header_len <= self.data@.len() ==> match spec_entries(
                member_views(members@),
                self.data@.len() - 8 - self.header_len,
            ) {
                Ok(entries) => r matches Ok(v) && entry_views(v@) == entries,
                Err(k) => r matches Err(e) && e == st_error(k),
            },
    {
        if self.header_len > self.data.len() || 8 > self.data.len() - self.header_len {
            return Err(invalid(Format::Safetensors, ErrorKind::Truncated));
        }
        let data_len = self.data.len() - 8 - self.header_len;
        let ghost views = member_views(members@);
        let mut entries: Vec<Entry> = Vec::new();
        let mut pending = members;
        let total = pending.len();
        let mut done: usize = 0;
        proof {
            assert(views.len() == members@.len());
            assert(total == pending@.len());
            assert(views.subrange(0, 0) =~= Seq::<(Seq<char>, Option<HeaderEntryView>)>::empty());
            assert(views.subrange(0, views.len() as int) =~= views);
            assert(entry_views(entries@) =~= Seq::<EntryView>::empty());
        }
        while pending.len() > 0
            invariant
                views == member_views(members@),
                self.data@.len() >= 8 + self.header_len,
                done + pending@.len() == views.len(),
                views.len() <= usize::MAX,
                member_views(pending@) == views.subrange(done as int, views.len() as int),
                data_len == self.data@.len() - 8 - self.header_len,
                spec_entries(views.subrange(0, done as int), data_len as int) == Ok::<
                    Seq<EntryView>,
                    ErrorKind,
                >(entry_views(entries@)),
            decreases pending@.len(),
        {
            let ghost i = done as int;
            let ghost rest = pending@;
            let (name, member) = pending.remove(0);
            proof {
                assert(member_views(rest)[0] == views[i]);
                assert forall|k: int| 0 <= k < pending@.len() implies #[trigger] member_views(
                    pending@,
                )[k] == views.subrange(i + 1, views.len() as int)[k] by {
                    assert(pending@[k] == rest[k + 1]);
                    assert(member_views(rest)[k + 1] == views[i + 1 + k]);
                }
                assert(member_views(pending@) =~= views.subrange(i + 1, views.len() as int));
                assert(views.subrange(0, i + 1).drop_last() =~= views.subrange(0, i));
                assert(views.subrange(0, i + 1).last() == views[i]);
                assert(views[i] == (
                    name@,
                    match member {
                        Some(e) => Some(e@),
                        None => None,
                    },
                ));
            }
            if !str_eq(name.as_str(), "__metadata__") {
                let entry = match member {
                    Some(e) => e,
                    None => {
                        proof {
                            lemma_entries_error_stays(views, i + 1, data_len as int);
                        }
                        return Err(invalid(Format::Safetensors, ErrorKind::InvalidValue));
                    },
                };
                if has_negative(entry.shape.as_slice()) {
                    proof {
                        lemma_entries_error_stays(views, i + 1, data_len as int);
                    }
                    return Err(invalid(Format::Safetensors, ErrorKind::InvalidValue));
                }
                let start = entry.data_offsets[0];
                let end = entry.data_offsets[1];
                if start > end || end > data_len {
                    proof {
                        lemma_entries_error_stays(views, i + 1, data_len as int);
                    }
                    return Err(invalid(Format::Safetensors, ErrorKind::InvalidValue));
                }
                let ghost before = entries@;
                entries.push(Entry { name, dtype: entry.dtype, shape: entry.shape, byte_len: end - start });
                proof {
                    assert(entry_views(entries@) =~= entry_views(before).push(entries@.last()@));
                }
            }
            done = done + 1;
        }
        proof {
            assert(views.subrange(0, done as int) =~= views);
        }
        Ok(entries)
    }
}

/// Once the members up to `k` are refused, all of them are, for the same
/// reason.
pub proof fn lemma_entries_error_stays(
    members: Seq<(Seq<char>, Option<HeaderEntryView>)>,
    k: int,
    data_len: int,
)
    requires
        0 <= k <= members.len(),
        spec_entries(members.subrange(0, k), data_len) is Err,
    ensures
        spec_entries(members, data_len) == spec_entries(members.subrange(0, k), data_len),
    decreases members.len() - k,
{
    if k == members.len() {
        assert(members.subrange(0, k) =~= members);
    } else {
        assert(members.subrange(0, k + 1).drop_last() =~= members.subrange(0, k));
        lemma_entries_error_stays(members, k + 1, data_len);
    }
}

// ---------------------------------------------------------------------------
// The header as JSON

/// The integers of a list of numbers, when each is an integer that fits in `i64`.
pub open spec fn json_i64s(items: Seq<JsonView>) -> Option<Seq<i64>>
    decreases items.len(),
{
    if items.len() == 0 {
        Some(Seq::empty())
    } else {
        match (json_i64s(items.drop_last()), items.last()) {
            (Some(v), JsonView::Number(Some(n))) => Some(v.push(n)),
            _ => None,
        }
    }
}

/// A number that is an integer that fits in `usize`.
pub open spec fn json_usize(v: JsonView) -> Option<usize> {
    match v {
        JsonView::Number(Some(n)) => if 0 <= n <= usize::MAX {
            Some(n as usize)
        } else {
            None
        },
        _ => None,
    }
}

/// A tensor entry from its three fields: `dtype` a string, `shape` a list of
/// `i64`, `data_offsets` a list of exactly two `usize`.
pub open spec fn spec_header_fields(
    dtype: Option<JsonView>,
    shape: Option<JsonView>,
    offsets: Option<JsonView>,
) -> Option<HeaderEntryView> {
    match (dtype, shape, offsets) {
        (Some(JsonView::String(d)), Some(JsonView::Array(s)), Some(JsonView::Array(o))) => {
            match json_i64s(s) {
                Some(sh) => if o.len() == 2 && json_usize(o[0]) is Some && json_usize(o[1]) is Some {
                    Some(
                        HeaderEntryView {
                            dtype: d,
                            shape: sh,
                            start: json_usize(o[0]).unwrap(),
                            end: json_usize(o[1]).unwrap(),
                        },
                    )
                } else {
                    None
                },
                None => None,
            }
        },
        _ => None,
    }
}

/// A header member's value as a tensor entry: an object with the three fields
/// (other members are ignored), or a list of exactly the three values in
/// order, as serde's derived reading of the entry accepts both.
pub open spec fn spec_header_entry(v: JsonView) -> Option<HeaderEntryView> {
    match v {
        JsonView::Object(_) => spec_header_fields(
            json_get(v, "dtype"@),
            json_get(v, "shape"@),
            json_get(v, "data_offsets"@),
        ),
        JsonView::Array(items) => if items.len() == 3 {
            spec_header_fields(Some(items[0]), Some(items[1]), Some(items[2]))
        } else {
            None
        },
        _ => None,
    }
}

/// The header's members, each value read as a tensor entry.
pub open spec fn header_members(members: Seq<(Seq<char>, JsonView)>) -> Seq<
    (Seq<char>, Option<HeaderEntryView>),
> {
    members.map_values(|m: (Seq<char>, JsonView)| (m.0, spec_header_entry(m.1)))
}

/// The entries that a header of `header_len` bytes gives for `data`: the
/// header must lie in the data and be a JSON object, whose members are read
/// as by `spec_entries`.
pub open spec fn spec_reader_entries(data: Seq<u8>, header_len: int) -> Result<
    Seq<EntryView>,
    ErrorKind,
> {
    if 8 + header_len > data.len() {
        Err(ErrorKind::Truncated)
    } else {
        match json_value_of(data.subrange(8, 8 + header_len)) {
            Some(JsonView::Object(members)) => spec_entries(
                header_members(members),
                data.len() - 8 - header_len,
            ),
            _ => Err(ErrorKind::InvalidJson),
        }
    }
}

/// The integers of a list of numbers.
fn json_i64_list(items: &Vec<JsonValue>) -> (r: Option<Vec<i64>>)
    ensures
        match json_i64s(json_items(items@)) {
            Some(v) => r matches Some(x) && x@ == v,
            None => r is None,
        },
{
    let ghost views = json_items(items@);
    let mut out: Vec<i64> = Vec::new();
    let mut i: usize = 0;
    proof {
        assert(views.subrange(0, 0) =~= Seq::<JsonView>::empty());
    }
    while i < items.len()
        invariant
            views == json_items(items@),
            i <= items@.len(),
            json_i64s(views.subrange(0, i as int)) == Some(out@),
        decreases items@.len() - i,
    {
        proof {
            assert(views.subrange(0, i + 1).drop_last() =~= views.subrange(0, i as int));
            assert(views[i as int] == items@[i as int]@);
        }
        match &items[i] {
            JsonValue::Number(Some(n)) => out.push(*n),
            _ => {
                proof {
                    lemma_i64s_none_stays(views, i + 1);
                }
                return None;
            },
        }
        i = i + 1;
    }
    proof {
        assert(views.subrange(0, i as int) =~= views);
    }
    Some(out)
}

/// A list whose first `k` items are no integers is none either.
proof fn lemma_i64s_none_stays(items: Seq<JsonView>, k: int)
    requires
        0 <= k <= items.len(),
        json_i64s(items.subrange(0, k)) is None,
    ensures
        json_i64s(items) is None,
    decreases items.len() - k,
{
    if k == items.len() {
        assert(items.subrange(0, k) =~= items);
    } else {
        assert(items.subrange(0, k + 1).drop_last() =~= items.subrange(0, k));
        lemma_i64s_none_stays(items, k + 1);
    }
}

/// A number that is an integer that fits in `usize`.
fn json_usize_exec(v: &JsonValue) -> (r: Option<usize>)
    ensures
        r == json_usize(v@),
{
    match v {
        JsonValue::Number(Some(n)) => {
            if *n >= 0 && (*n as u64) <= (usize::MAX as u64) {
                Some(*n as usize)
            } else {
                None
            }
        },
        _ => None,
    }
}

/// A tensor entry from its three fields.
fn header_fields(
    dtype: Option<&JsonValue>,
    shape: Option<&JsonValue>,
    offsets: Option<&JsonValue>,
) -> (r: Option<HeaderEntry>)
    ensures
        match spec_header_fields(
            match dtype { Some(x) => Some(x@), None => None },
            match shape { Some(x) => Some(x@), None => None },
            match offsets { Some(x) => Some(x@), None => None },
        ) {
            Some(e) => r matches Some(x) && x@ == e,
            None => r is None,
        },
{
    match (dtype, shape, offsets) {
        (Some(JsonValue::String(d)), Some(JsonValue::Array(s)), Some(JsonValue::Array(o))) => {
            let sh = match json_i64_list(s) {
                Some(sh) => sh,
                None => return None,
            };
            if o.len() != 2 {
                return None;
            }
            proof {
                assert(json_items(o@)[0] == o@[0]@);
                assert(json_items(o@)[1] == o@[1]@);
            }
            let start = match json_usize_exec(&o[0]) {
                Some(v) => v,
                None => return None,
            };
            let end = match json_usize_exec(&o[1]) {
                Some(v) => v,
                None => return None,
            };
            let e = HeaderEntry { dtype: d.clone(), shape: sh, data_offsets: [start, end] };
            proof {
                assert(e.data_offsets@[0] == start);
                assert(e.data_offsets@[1] == end);
            }
            Some(e)
        },
        _ => None,
    }
}

/// A header member's value as a tensor entry.
pub fn header_entry(v: &JsonValue) -> (r: Option<HeaderEntry>)
    ensures
        match spec_header_entry(v@) {
            Some(e) => r matches Some(x) && x@ == e,
            None => r is None,
        },
{
    match v {
        JsonValue::Object(_) => header_fields(v.get("dtype"), v.get("shape"), v.get("data_offsets")),
        JsonValue::Array(items) => {
            if items.len() != 3 {
                return None;
            }
            proof {
                assert(json_items(items@)[0] == items@[0]@);
                assert(json_items(items@)[1] == items@[1]@);
                assert(json_items(items@)[2] == items@[2]@);
            }
            header_fields(Some(&items[0]), Some(&items[1]), Some(&items[2]))
        },
        _ => None,
    }
}

/// The header's members with each value read as a tensor entry.
pub fn header_member_entries(members: &Vec<(String, JsonValue)>) -> (r: Vec<(String, Option<HeaderEntry>)>)
    ensures
        member_views(r@) == header_members(json_members(members@)),
{
    let ghost views = json_members(members@);
    let mut out: Vec<(String, Option<HeaderEntry>)> = Vec::new();
    let mut i: usize = 0;
    while i < members.len()
        invariant
            views == json_members(members@),
            i <= members@.len(),
            out@.len() == i,
            forall|k: int| 0 <= k < i ==> #[trigger] member_views(out@)[k] == header_members(views)[k],
        decreases members@.len() - i,
    {
        proof {
            assert(views[i as int] == (members@[i as int].0@, members@[i as int].1@));
        }
        let name = members[i].0.clone();
        let entry = header_entry(&members[i].1);
        let ghost before = out@;
        out.push((name, entry));
        proof {
            assert forall|k: int| 0 <= k < i + 1 implies #[trigger] member_views(out@)[k]
                == header_members(views)[k] by {
                if k < i {
                    assert(out@[k] == before[k]);
                    assert(member_views(before)[k] == header_members(views)[k]);
                }
            }
        }
        i = i + 1;
    }
    proof {
        assert(member_views(out@) =~= header_members(views));
    }
    out
}

// ---------------------------------------------------------------------------
// Lowering the entries into a graph

/// The element type that a dtype name gives.
pub open spec fn spec_lower_element_type(dtype: Seq<char>) -> Option<TensorElementType> {
    if dtype == "I8"@ {
        Some(TensorElementType::Int8)
    } else if dtype == "I16"@ {
        Some(TensorElementType::Int16)
    } else if dtype == "I32"@ {
        Some(TensorElementType::Int32)
    } else if dtype == "I64"@ {
        Some(TensorElementType::Int64)
    } else if dtype == "U8"@ {
        Some(TensorElementType::Uint8)
    } else if dtype == "U16"@ {
        Some(TensorElementType::Uint16)
    } else if dtype == "U32"@ {
        Some(TensorElementType::Uint32)
    } else if dtype == "U64"@ {
        Some(TensorElementType::Uint64)
    } else if dtype == "BF16"@ {
        Some(TensorElementType::BFloat16)
    } else if dtype == "F16"@ {
        Some(TensorElementType::Float16)
    } else if dtype == "F32"@ {
        Some(TensorElementType::Float32)
    } else if dtype == "F64"@ {
        Some(TensorElementType::Float64)
    } else if dtype == "BOOL"@ {
        Some(TensorElementType::Bool)
    } else if dtype == "F8_E4M3"@ {
        Some(TensorElementType::Float8e4m3fn)
    } else if dtype == "F8_E5M2"@ {
        Some(TensorElementType::Float8e5m2)
    } else if dtype == "F8_E8M0"@ {
        Some(TensorElementType::Float8e8m0)
    } else {
        None
    }
}

/// The element type that a dtype name gives; an unsupported name is refused.
pub fn lower_element_type(dtype: &str) -> (r: Result<TensorElementType, ModelError>)
    ensures
        match spec_lower_element_type(dtype@) {
            Some(t) => r == Ok::<TensorElementType, ModelError>(t),
            None => r == Err::<TensorElementType, ModelError>(st_error(ErrorKind::Unsupported)),
        },
{
    if str_eq(dtype, "I8") {
        proof {
            reveal_strlit("I8");
        }
        Ok(TensorElementType::Int8)
    } else if str_eq(dtype, "I16") {
        proof {
            reveal_strlit("I16");
        }
        Ok(TensorElementType::Int16)
    } else if str_eq(dtype, "I32") {
        proof {
            reveal_strlit("I32");
        }
        Ok(TensorElementType::Int32)
    } else if str_eq(dtype, "I64") {
        proof {
            reveal_strlit("I64");
        }
        Ok(TensorElementType::Int64)
    } else if str_eq(dtype, "U8") {
        proof {
            reveal_strlit("U8");
        }
        Ok(TensorElementType::Uint8)
    } else if str_eq(dtype, "U16") {
        proof {
            reveal_strlit("U16");
        }
        Ok(TensorElementType::Uint16)
    } else if str_eq(dtype, "U32") {
        proof {
            reveal_strlit("U32");
        }
        Ok(TensorElementType::Uint32)
    } else if str_eq(dtype, "U64") {
        proof {
            reveal_strlit("U64");
        }
        Ok(TensorElementType::Uint64)
    } else if str_eq(dtype, "BF16") {
        proof {
            reveal_strlit("BF16");
        }
        Ok(TensorElementType::BFloat16)
    } else if str_eq(dtype, "F16") {
        proof {
            reveal_strlit("F16");
        }
        Ok(TensorElementType::Float16)
    } else if str_eq(dtype, "F32") {
        proof {
            reveal_strlit("F32");
        }
        Ok(TensorElementType::Float32)
    } else if str_eq(dtype, "F64") {
        proof {
            reveal_strlit("F64");
        }
        Ok(TensorElementType::Float64)
    } else if str_eq(dtype, "BOOL") {
        proof {
            reveal_strlit("BOOL");
        }
        Ok(TensorElementType::Bool)
    } else if str_eq(dtype, "F8_E4M3") {
        proof {
            reveal_strlit("F8_E4M3");
        }
        Ok(TensorElementType::Float8e4m3fn)
    } else if str_eq(dtype, "F8_E5M2") {
        proof {
            reveal_strlit("F8_E5M2");
        }
        Ok(TensorElementType::Float8e5m2)
    } else if str_eq(dtype, "F8_E8M0") {
        proof {
            reveal_strlit("F8_E8M0");
        }
        Ok(TensorElementType::Float8e8m0)
    } else {
        proof {
            reveal_strlit("I8");
        }
        proof {
            reveal_strlit("I16");
        }
        proof {
            reveal_strlit("I32");
        }
        proof {
            reveal_strlit("I64");
        }
        proof {
            reveal_strlit("U8");
        }
        proof {
            reveal_strlit("U16");
        }
        proof {
            reveal_strlit("U32");
        }
        proof {
            reveal_strlit("U64");
        }
        proof {
            reveal_strlit("BF16");
        }
        proof {
            reveal_strlit("F16");
        }
        proof {
            reveal_strlit("F32");
        }
        proof {
            reveal_strlit("F64");
        }
        proof {
            reveal_strlit("BOOL");
        }
        proof {
            reveal_strlit("F8_E4M3");
        }
        proof {
            reveal_strlit("F8_E5M2");
        }
        proof {
            reveal_strlit("F8_E8M0");
        }
        Err(invalid(Format::Safetensors, ErrorKind::Unsupported))
    }
}

/// The value that an entry lowers to: named by the entry, initialized by a
/// tensor of the same name whose data stays in the file, and typed by it.
pub open spec fn entry_value(e: EntryView, t: TensorElementType) -> ValueView {
    ValueView {
        name: Some(e.name),
        initializer: Some(TensorView { name: Some(e.name), element_type: t, shape: e.shape, byte_len: e.byte_len }),
        element_type: Some(t),
        shape: Some(e.shape),
        layout: None,
    }
}

/// The index of the first group named `g`, from `k` on.
pub open spec fn group_index_from(groups: Seq<(Seq<char>, Seq<usize>)>, g: Seq<char>, k: int) -> Option<int>
    decreases groups.len() - k,
{
    if k < 0 || k >= groups.len() {
        None
    } else if groups[k].0 == g {
        Some(k)
    } else {
        group_index_from(groups, g, k + 1)
    }
}

/// The first group index from `k` lies among the groups and has the name.
pub proof fn lemma_group_index_bounds(groups: Seq<(Seq<char>, Seq<usize>)>, g: Seq<char>, k: int)
    requires
        0 <= k,
    ensures
        group_index_from(groups, g, k) matches Some(j) ==> k <= j < groups.len() && groups[j].0 == g,
    decreases groups.len() - k,
{
    if k < groups.len() && groups[k].0 != g {
        lemma_group_index_bounds(groups, g, k + 1);
    }
}

/// The groups of tensor names, in the order that each group is first met,
/// each with the indices of its tensors in order: a tensor's group is its
/// name before the last dot.
pub open spec fn spec_entry_groups(names: Seq<Seq<char>>) -> Seq<(Seq<char>, Seq<usize>)>
    decreases names.len(),
{
    if names.len() == 0 {
        Seq::empty()
    } else {
        let prev = spec_entry_groups(names.drop_last());
        let g = spec_split_group_name(names.last()).0;
        let i = (names.len() - 1) as usize;
        match group_index_from(prev, g, 0) {
            Some(k) => prev.update(k, (g, prev[k].1.push(i))),
            None => prev.push((g, seq![i])),
        }
    }
}

/// The node of a group: a `Module` named by the group (unnamed for the empty
/// group), whose inputs are the group's values.
pub open spec fn group_node(g: (Seq<char>, Seq<usize>)) -> NodeView {
    NodeView { outputs: Seq::empty(), attributes: Seq::empty(), metadata: Seq::empty(),
        name: if g.0.len() == 0 { None } else { Some(g.0) },
        operator: "Module"@,
        inputs: g.1.map_values(|i: usize| Some(i)),
    }
}

/// The names of entries.
pub open spec fn entry_names(entries: Seq<EntryView>) -> Seq<Seq<char>> {
    entries.map_values(|e: EntryView| e.name)
}

/// The model that tensor entries lower to: one value per entry, and one
/// `Module` node per group of names; refused when an entry's dtype is not
/// supported.
pub open spec fn spec_lower_entries(entries: Seq<EntryView>) -> Result<ModelView, ErrorKind> {
    if exists|i: int| 0 <= i < entries.len() && spec_lower_element_type(#[trigger] entries[i].dtype) is None {
        Err(ErrorKind::Unsupported)
    } else {
        Ok(
            ModelView { inputs: Seq::empty(), outputs: Seq::empty(), producer: None, producer_version: None,
                format: "Safetensors"@,
                version: None,
                values: Seq::new(
                    entries.len(),
                    |i: int| entry_value(entries[i], spec_lower_element_type(entries[i].dtype).unwrap()),
                ),
                nodes: spec_entry_groups(entry_names(entries)).map_values(
                    |g: (Seq<char>, Seq<usize>)| group_node(g),
                ),
            },
        )
    }
}

/// The group indices of a group named `g`, found by a scan.
fn find_group(names: &Vec<String>, g: &str, Ghost(groups): Ghost<Seq<(Seq<char>, Seq<usize>)>>) -> (r: Option<usize>)
    requires
        names@.len() == groups.len(),
        forall|k: int| 0 <= k < groups.len() ==> #[trigger] groups[k].0 == names@[k]@,
    ensures
        match group_index_from(groups, g@, 0) {
            Some(k) => r == Some(k as usize),
            None => r is None,
        },
{
    let mut j: usize = 0;
    while j < names.len()
        invariant
            j <= names@.len(),
            names@.len() == groups.len(),
            forall|k: int| 0 <= k < groups.len() ==> #[trigger] groups[k].0 == names@[k]@,
            group_index_from(groups, g@, j as int) == group_index_from(groups, g@, 0),
        decreases names@.len() - j,
    {
        proof {
            assert(groups[j as int].0 == names@[j as int]@);
        }
        if str_eq(names[j].as_str(), g) {
            return Some(j);
        }
        j = j + 1;
    }
    None
}

/// Lowers tensor entries into a model: one value per entry, initialized by
/// its tensor, and one `Module` node per group of names that takes the
/// group's values.
pub fn lower_entries(entries: &Vec<Entry>) -> (r: Result<LoweredModel, ModelError>)
    ensures
        match spec_lower_entries(entry_views(entries@)) {
            Ok(m) => r matches Ok(model) && model@ == m,
            Err(k) => r matches Err(e) && e == st_error(k),
        },
{
    let ghost ev = entry_views(entries@);
    let ghost names = entry_names(ev);
    let mut values: Vec<LoweredValue> = Vec::new();
    let mut group_names: Vec<String> = Vec::new();
    let mut group_members: Vec<Vec<usize>> = Vec::new();
    let mut i: usize = 0;
    proof {
        assert(names.take(0) =~= Seq::<Seq<char>>::empty());
    }
    while i < entries.len()
        invariant
            ev == entry_views(entries@),
            names == entry_names(ev),
            ev.len() == entries@.len(),
            i <= entries@.len(),
            values@.len() == i,
            forall|k: int| 0 <= k < i ==> spec_lower_element_type(#[trigger] ev[k].dtype) is Some,
            forall|k: int| 0 <= k < i ==> #[trigger] values@[k]@ == entry_value(
                ev[k],
                spec_lower_element_type(ev[k].dtype).unwrap(),
            ),
            group_names@.len() == spec_entry_groups(names.take(i as int)).len(),
            group_members@.len() == group_names@.len(),
            forall|k: int| 0 <= k < group_names@.len() ==> #[trigger] spec_entry_groups(names.take(i as int))[k]
                == (group_names@[k]@, group_members@[k]@),
        decreases entries@.len() - i,
    {
        let entry = &entries[i];
        proof {
            assert(ev[i as int] == entry@);
            assert(names[i as int] == entry.name@);
        }
        let element_type = match lower_element_type(entry.dtype.as_str()) {
            Ok(t) => t,
            Err(e) => {
                proof {
                    assert(spec_lower_element_type(ev[i as int].dtype) is None);
                }
                return Err(e);
            },
        };
        let tensor = LoweredTensor {
            name: Some(entry.name.clone()),
            element_type,
            shape: entry.shape.clone(),
            byte_len: entry.byte_len,
        };
        let value = LoweredValue {
            name: Some(entry.name.clone()),
            initializer: Some(tensor),
            element_type: Some(element_type),
            shape: Some(entry.shape.clone()),
            layout: None,
        };
        let ghost before_values = values@;
        values.push(value);
        proof {
            assert forall|k: int| 0 <= k < i + 1 implies #[trigger] values@[k]@ == entry_value(
                ev[k],
                spec_lower_element_type(ev[k].dtype).unwrap(),
            ) by {
                if k < i {
                    assert(values@[k] == before_values[k]);
                }
            }
        }
        let (group, _) = split_group_name(entry.name.as_str());
        let ghost prev = spec_entry_groups(names.take(i as int));
        proof {
            assert(names.take(i + 1).drop_last() =~= names.take(i as int));
            assert(names.take(i + 1).last() == entry.name@);
            assert forall|k: int| 0 <= k < prev.len() implies #[trigger] prev[k].0 == group_names@[k]@ by {
                assert(prev[k] == (group_names@[k]@, group_members@[k]@));
            }
        }
        let group_count = group_names.len();
        let found = find_group(&group_names, group, Ghost(prev));
        proof {
            lemma_group_index_bounds(prev, group@, 0);
        }
        match found {
            Some(k) => {
                proof {
                    assert(group_index_from(prev, group@, 0) is Some);
                    let j = group_index_from(prev, group@, 0)->0;
                    assert(0 <= j < prev.len());
                    assert(prev.len() == group_count);
                    assert(j as usize == k);
                    assert(j == k as int);
                }
                let mut members = group_members.remove(k);
                members.push(i);
                group_members.insert(k, members);
                proof {
                    let next = spec_entry_groups(names.take(i + 1));
                    assert(spec_split_group_name(names.take(i + 1).last()).0 == group@);
                    assert(group_index_from(prev, group@, 0) == Some(k as int));
                    assert(next == prev.update(k as int, (group@, prev[k as int].1.push(i))));
                    assert forall|q: int| 0 <= q < group_names@.len() implies #[trigger] spec_entry_groups(
                        names.take(i + 1),
                    )[q] == (group_names@[q]@, group_members@[q]@) by {
                        assert(prev[q] == (group_names@[q]@, old_members(q, group_members@, k as int)));
                    }
                }
            },
            None => {
                group_names.push(String::from_str(group));
                let mut members: Vec<usize> = Vec::new();
                members.push(i);
                group_members.push(members);
            },
        }
        i = i + 1;
    }
    proof {
        assert(names.take(i as int) =~= names);
    }
    let ghost groups = spec_entry_groups(names);
    let mut nodes: Vec<LoweredNode> = Vec::new();
    let mut k: usize = 0;
    while k < group_names.len()
        invariant
            groups == spec_entry_groups(names),
            group_names@.len() == groups.len(),
            group_members@.len() == group_names@.len(),
            forall|q: int| 0 <= q < groups.len() ==> #[trigger] groups[q] == (group_names@[q]@, group_members@[q]@),
            k <= groups.len(),
            nodes@.len() == k,
            forall|q: int| 0 <= q < k ==> #[trigger] nodes@[q]@ == group_node(groups[q]),
        decreases groups.len() - k,
    {
        let members = &group_members[k];
        let mut inputs: Vec<Option<usize>> = Vec::new();
        let mut j: usize = 0;
        while j < members.len()
            invariant
                j <= members@.len(),
                inputs@ == members@.take(j as int).map_values(|x: usize| Some(x)),
            decreases members@.len() - j,
        {
            proof {
                assert(members@.take(j + 1) =~= members@.take(j as int).push(members@[j as int]));
            }
            inputs.push(Some(members[j]));
            proof {
                assert(inputs@ =~= members@.take(j + 1).map_values(|x: usize| Some(x)));
            }
            j = j + 1;
        }
        proof {
            assert(members@.take(j as int) =~= members@);
            assert(groups[k as int] == (group_names@[k as int]@, group_members@[k as int]@));
            assert(inputs@ =~= groups[k as int].1.map_values(|i: usize| Some(i)));
        }
        proof {
            reveal_strlit("");
        }
        let name = if str_eq(group_names[k].as_str(), "") {
            proof {
                assert(group_names@[k as int]@.len() == 0);
            }
            None
        } else {
            proof {
                assert(group_names@[k as int]@.len() != 0) by {
                    if group_names@[k as int]@.len() == 0 {
                        assert(group_names@[k as int]@ =~= ""@);
                    }
                }
            }
            Some(group_names[k].clone())
        };
        let node = plain_node(name, String::from_str("Module"), inputs);
        proof {
            reveal_strlit("Module");
            assert(groups[k as int] == (group_names@[k as int]@, group_members@[k as int]@));
            assert(node@ == group_node(groups[k as int]));
        }
        let ghost before_nodes = nodes@;
        nodes.push(node);
        proof {
            reveal_strlit("Module");
            assert forall|q: int| 0 <= q < k + 1 implies #[trigger] nodes@[q]@ == group_node(groups[q]) by {
                if q < k {
                    assert(nodes@[q] == before_nodes[q]);
                }
            }
        }
        k = k + 1;
    }
    let model = LoweredModel { inputs: Vec::new(), outputs: Vec::new(), producer: None, producer_version: None, format: String::from_str("Safetensors"), version: None, values, nodes };
    proof {
        reveal_strlit("Safetensors");
        assert(!(exists|q: int| 0 <= q < ev.len() && spec_lower_element_type(#[trigger] ev[q].dtype) is None));
        assert(model@.values =~= Seq::new(
            ev.len(),
            |q: int| entry_value(ev[q], spec_lower_element_type(ev[q].dtype).unwrap()),
        ));
        assert(model@.nodes =~= groups.map_values(|g: (Seq<char>, Seq<usize>)| group_node(g)));
    }
    Ok(model)
}

/// The members of group `q` before group `k` took one more.
pub open spec fn old_members(q: int, members: Seq<Vec<usize>>, k: int) -> Seq<usize> {
    if q == k {
        members[q]@.drop_last()
    } else {
        members[q]@
    }
}

// ---------------------------------------------------------------------------
// The format

/// How sure the format is of a file: sure by its name (a `.safetensors`
/// extension in any case, or a sharded index), fairly sure by a header frame,
/// else not at all.
pub open spec fn spec_detect(file_name: Option<Seq<char>>, data: Seq<u8>) -> Confidence {
    let by_extension = match file_name {
        Some(n) => match spec_extension(n) {
            Some(e) => ascii_lowercase(e) == "safetensors"@,
            None => false,
        },
        None => false,
    };
    if by_extension || spec_is_index_path(file_name) {
        Confidence::High
    } else if spec_header_len(data) is Some {
        Confidence::Medium
    } else {
        Confidence::NoMatch
    }
}

/// What parsing a file gives: the lowered entries of a framed file; a
/// sharded index needs its shards (see `SafetensorsFormat::parse_index`);
/// anything else is no Safetensors file.
pub open spec fn spec_parse(data: Seq<u8>) -> Result<ModelView, ErrorKind> {
    match spec_header_len(data) {
        Some(h) => match spec_reader_entries(data, h as int) {
            Ok(entries) => spec_lower_entries(entries),
            Err(k) => Err(k),
        },
        None => if spec_read_index(data) is Some {
            Err(ErrorKind::Missing)
        } else {
            Err(ErrorKind::NotFormat)
        },
    }
}

impl SafetensorsFormat {
    /// The format's name and extensions.
    pub fn metadata(&self) -> (r: FormatMetadata)
        ensures
            r.name@ == "Safetensors"@,
            r.extensions@.map_values(|e: String| e@) == seq!["safetensors"@, "safetensors.index.json"@],
    {
        let mut extensions: Vec<String> = Vec::new();
        extensions.push(String::from_str("safetensors"));
        extensions.push(String::from_str("safetensors.index.json"));
        let r = FormatMetadata { name: String::from_str("Safetensors"), extensions };
        proof {
            assert(r.extensions@.map_values(|e: String| e@) =~= seq!["safetensors"@, "safetensors.index.json"@]);
        }
        r
    }

    /// How sure the format is that it reads the file named `file_name`
    /// (the last component of its path) with the contents `data`.
    pub fn detect(&self, file_name: Option<&str>, data: &[u8]) -> (r: Confidence)
        ensures
            r == spec_detect(
                match file_name {
                    Some(s) => Some(s@),
                    None => None,
                },
                data@,
            ),
    {
        let by_extension = match file_name {
            Some(n) => match extension(n) {
                Some(e) => {
                    let lower = str_ascii_lowercase(e);
                    str_eq(lower.as_str(), "safetensors")
                },
                None => false,
            },
            None => false,
        };
        if by_extension || is_index_path(file_name) {
            Confidence::High
        } else if Reader::open(data).is_some() {
            Confidence::Medium
        } else {
            Confidence::NoMatch
        }
    }

    /// Parses a Safetensors file into a model.
    pub fn parse(&self, data: &[u8]) -> (r: Result<LoweredModel, ModelError>)
        ensures
            match spec_parse(data@) {
                Ok(m) => r matches Ok(model) && model@ == m,
                Err(k) => r matches Err(e) && e == st_error(k),
            },
    {
        match Reader::open(data) {
            Some(reader) => {
                let entries = reader.entries()?;
                lower_entries(&entries)
            },
            None => {
                if read_index(data).is_some() {
                    Err(invalid(Format::Safetensors, ErrorKind::Missing))
                } else {
                    Err(invalid(Format::Safetensors, ErrorKind::NotFormat))
                }
            },
        }
    }
}

// ---------------------------------------------------------------------------
// The sharded index

/// A sharded index: each tensor name with the shard file that holds it.
pub struct IndexFile {
    pub weight_map: Vec<(String, String)>,
}

/// The views of the index's pairs.
pub open spec fn pair_views(v: Seq<(String, String)>) -> Seq<(Seq<char>, Seq<char>)> {
    v.map_values(|p: (String, String)| (p.0@, p.1@))
}

/// The views of the weight map's members: each name with its value when the
/// value is a string.
pub open spec fn weight_map_views(v: Seq<(String, Option<String>)>) -> Seq<
    (Seq<char>, Option<Seq<char>>),
> {
    v.map_values(
        |m: (String, Option<String>)|
            (
                m.0@,
                match m.1 {
                    Some(f) => Some(f@),
                    None => None,
                },
            ),
    )
}

/// Whether a weight map value names a shard: a string that ends with
/// `.safetensors`.
pub open spec fn is_shard_value(value: Option<Seq<char>>) -> bool {
    value matches Some(f) && has_suffix(f, ".safetensors"@)
}

/// The index of a weight map: present when the map is not empty and every
/// value names a shard.
pub open spec fn spec_index_file(members: Seq<(Seq<char>, Option<Seq<char>>)>) -> Option<
    Seq<(Seq<char>, Seq<char>)>,
> {
    if members.len() > 0 && forall|i: int| 0 <= i < members.len() ==> is_shard_value(
        #[trigger] members[i].1,
    ) {
        Some(members.map_values(|m: (Seq<char>, Option<Seq<char>>)| (m.0, m.1.unwrap())))
    } else {
        None
    }
}

/// The index of a JSON weight map, given as its members in order, each with
/// its value when that value is a string.
pub fn index_file(weight_map: Vec<(String, Option<String>)>) -> (r: Option<IndexFile>)
    ensures
        match spec_index_file(weight_map_views(weight_map@)) {
            Some(pairs) => r matches Some(index) && pair_views(index.weight_map@) == pairs,
            None => r is None,
        },
{
    let ghost views = weight_map_views(weight_map@);
    let mut pending = weight_map;
    let mut entries: Vec<(String, String)> = Vec::new();
    let n = pending.len();
    proof {
        assert(views.len() == n);
        assert(views.subrange(0, views.len() as int) =~= views);
    }
    while pending.len() > 0
        invariant
            views == weight_map_views(weight_map@),
            entries@.len() + pending@.len() == views.len(),
            weight_map_views(pending@) == views.subrange(entries@.len() as int, views.len() as int),
            forall|i: int| 0 <= i < entries@.len() ==> is_shard_value(#[trigger] views[i].1),
            forall|i: int|
                0 <= i < entries@.len() ==> #[trigger] pair_views(entries@)[i] == (
                    views[i].0,
                    views[i].1.unwrap(),
                ),
        decreases pending@.len(),
    {
        let ghost i = entries@.len() as int;
        let ghost rest = pending@;
        let (key, value) = pending.remove(0);
        proof {
            assert(weight_map_views(rest)[0] == views[i]);
            assert forall|k: int| 0 <= k < pending@.len() implies #[trigger] weight_map_views(
                pending@,
            )[k] == views.subrange(i + 1, views.len() as int)[k] by {
                assert(pending@[k] == rest[k + 1]);
                assert(weight_map_views(rest)[k + 1] == views[i + 1 + k]);
            }
            assert(weight_map_views(pending@) =~= views.subrange(i + 1, views.len() as int));
        }
        let file = match value {
            Some(f) => f,
            None => {
                proof {
                    assert(!is_shard_value(views[i].1));
                }
                return None;
            },
        };
        if !str_ends_with(file.as_str(), ".safetensors") {
            proof {
                assert(!is_shard_value(views[i].1));
            }
            return None;
        }
        let ghost before = entries@;
        entries.push((key, file));
        proof {
            assert forall|k: int| 0 <= k < entries@.len() implies #[trigger] pair_views(entries@)[k]
                == (views[k].0, views[k].1.unwrap()) by {
                if k < before.len() {
                    assert(entries@[k] == before[k]);
                    assert(pair_views(before)[k] == (views[k].0, views[k].1.unwrap()));
                }
            }
        }
    }
    if entries.len() == 0 {
        return None;
    }
    proof {
        let pairs = views.map_values(|m: (Seq<char>, Option<Seq<char>>)| (m.0, m.1.unwrap()));
        assert(pair_views(entries@) =~= pairs);
    }
    Some(IndexFile { weight_map: entries })
}

/// The shard files of an index, each once, in the order of their first
/// mention; the first unsafe path refuses the index.
pub open spec fn spec_shard_files(files: Seq<Seq<char>>) -> Result<Seq<Seq<char>>, ErrorKind>
    decreases files.len(),
{
    if files.len() == 0 {
        Ok(Seq::empty())
    } else {
        match spec_shard_files(files.drop_last()) {
            Err(e) => Err(e),
            Ok(seen) => if spec_is_unsafe_shard_path(files.last()) {
                Err(ErrorKind::InvalidValue)
            } else if seen.contains(files.last()) {
                Ok(seen)
            } else {
                Ok(seen.push(files.last()))
            },
        }
    }
}

/// The views of strings.
pub open spec fn string_views(v: Seq<String>) -> Seq<Seq<char>> {
    v.map_values(|s: String| s@)
}

/// Whether `files` holds `file`.
fn contains_string(files: &Vec<String>, file: &String) -> (r: bool)
    ensures
        r == string_views(files@).contains(file@),
{
    let mut i: usize = 0;
    while i < files.len()
        invariant
            i <= files@.len(),
            forall|k: int| 0 <= k < i ==> string_views(files@)[k] != file@,
        decreases files@.len() - i,
    {
        if str_eq(files[i].as_str(), file.as_str()) {
            proof {
                assert(string_views(files@)[i as int] == file@);
            }
            return true;
        }
        i = i + 1;
    }
    false
}

/// The weight map's members of a JSON index document, each name with its
/// value when that value is a string.
pub open spec fn json_weight_map(members: Seq<(Seq<char>, JsonView)>) -> Seq<
    (Seq<char>, Option<Seq<char>>),
> {
    members.map_values(|m: (Seq<char>, JsonView)| (m.0, json_str(Some(m.1))))
}

/// The index that a JSON document gives: none when the bytes are no JSON, or
/// have no object `weight_map`, else as `spec_index_file` reads its members.
pub open spec fn spec_read_index(data: Seq<u8>) -> Option<Seq<(Seq<char>, Seq<char>)>> {
    match json_value_of(data) {
        None => None,
        Some(v) => match json_object(json_get(v, "weight_map"@)) {
            None => None,
            Some(members) => spec_index_file(json_weight_map(members)),
        },
    }
}

/// Reads a sharded index document: the JSON is read by serde_json, and its
/// `weight_map` object must map each tensor name to a `.safetensors` file.
pub fn read_index(data: &[u8]) -> (r: Option<IndexFile>)
    ensures
        match spec_read_index(data@) {
            Some(pairs) => r matches Some(index) && pair_views(index.weight_map@) == pairs,
            None => r is None,
        },
{
    let value = match parse_json(data) {
        Some(v) => v,
        None => return None,
    };
    let members = match value.get("weight_map") {
        Some(JsonValue::Object(members)) => members,
        _ => return None,
    };
    let ghost views = json_members(members@);
    let mut pairs: Vec<(String, Option<String>)> = Vec::new();
    let mut i: usize = 0;
    while i < members.len()
        invariant
            views == json_members(members@),
            i <= members@.len(),
            pairs@.len() == i,
            forall|k: int| 0 <= k < i ==> #[trigger] weight_map_views(pairs@)[k] == json_weight_map(views)[k],
        decreases members@.len() - i,
    {
        proof {
            assert(views[i as int] == (members@[i as int].0@, members@[i as int].1@));
        }
        let name = members[i].0.clone();
        let file = match members[i].1.as_str() {
            Some(f) => Some(f.to_owned()),
            None => None,
        };
        let ghost before = pairs@;
        let ghost pair_view = (name@, if file is Some { Some(file->0@) } else { None::<Seq<char>> });
        proof {
            assert(name@ == views[i as int].0);
            assert(json_str(Some(views[i as int].1)) == match file {
                Some(f) => Some(f@),
                None => None::<Seq<char>>,
            });
        }
        pairs.push((name, file));
        proof {
            assert forall|k: int| 0 <= k < i + 1 implies #[trigger] weight_map_views(pairs@)[k]
                == json_weight_map(views)[k] by {
                if k < i {
                    assert(pairs@[k] == before[k]);
                    assert(weight_map_views(before)[k] == json_weight_map(views)[k]);
                } else {
                    assert(views.len() == members@.len());
                    assert(json_weight_map(views)[k] == (views[k].0, json_str(Some(views[k].1))));
                    assert(weight_map_views(pairs@)[k] == pair_view);
                }
            }
        }
        i = i + 1;
    }
    proof {
        assert(weight_map_views(pairs@) =~= json_weight_map(views));
    }
    index_file(pairs)
}

impl IndexFile {
    /// The shard files that the index names, each once, in the order of
    /// their first mention, after checking that each stays inside the
    /// index's directory.
    pub fn shard_files(&self) -> (r: Result<Vec<String>, ModelError>)
        ensures
            match spec_shard_files(pair_views(self.weight_map@).map_values(|p: (Seq<char>, Seq<char>)| p.1)) {
                Ok(files) => r matches Ok(v) && string_views(v@) == files,
                Err(k) => r matches Err(e) && e == st_error(k),
            },
    {
        let ghost files = pair_views(self.weight_map@).map_values(|p: (Seq<char>, Seq<char>)| p.1);
        let mut out: Vec<String> = Vec::new();
        let mut i: usize = 0;
        proof {
            assert(files.subrange(0, 0) =~= Seq::<Seq<char>>::empty());
            assert(string_views(out@) =~= Seq::<Seq<char>>::empty());
        }
        while i < self.weight_map.len()
            invariant
                i <= self.weight_map@.len(),
                files == pair_views(self.weight_map@).map_values(|p: (Seq<char>, Seq<char>)| p.1),
                spec_shard_files(files.subrange(0, i as int)) == Ok::<Seq<Seq<char>>, ErrorKind>(
                    string_views(out@),
                ),
            decreases self.weight_map@.len() - i,
        {
            let file = &self.weight_map[i].1;
            proof {
                assert(files.subrange(0, i + 1).drop_last() =~= files.subrange(0, i as int));
                assert(files.subrange(0, i + 1).last() == file@);
            }
            if validate_index_file(file.as_str()).is_err() {
                proof {
                    lemma_shards_error_stays(files, i + 1);
                }
                return Err(invalid(Format::Safetensors, ErrorKind::InvalidValue));
            }
            if !contains_string(&out, file) {
                let ghost before = out@;
                out.push(file.clone());
                proof {
                    assert(string_views(out@) =~= string_views(before).push(file@));
                }
            }
            i = i + 1;
        }
        proof {
            assert(files.subrange(0, i as int) =~= files);
        }
        Ok(out)
    }
}

/// Once the files up to `k` are refused, the whole list is, for the same
/// reason.
pub proof fn lemma_shards_error_stays(files: Seq<Seq<char>>, k: int)
    requires
        0 <= k <= files.len(),
        spec_shard_files(files.subrange(0, k)) is Err,
    ensures
        spec_shard_files(files) == spec_shard_files(files.subrange(0, k)),
    decreases files.len() - k,
{
    if k == files.len() {
        assert(files.subrange(0, k) =~= files);
    } else {
        assert(files.subrange(0, k + 1).drop_last() =~= files.subrange(0, k));
        lemma_shards_error_stays(files, k + 1);
    }
}

// ---------------------------------------------------------------------------
// Lowering a sharded index

/// The entries of each shard, in order; the first shard that has no header
/// frame, or whose header is refused, refuses them all.
pub open spec fn spec_shard_entries(shards: Seq<Seq<u8>>) -> Result<Seq<Seq<EntryView>>, ErrorKind>
    decreases shards.len(),
{
    if shards.len() == 0 {
        Ok(Seq::empty())
    } else {
        match spec_shard_entries(shards.drop_last()) {
            Err(k) => Err(k),
            Ok(prev) => match spec_header_len(shards.last()) {
                None => Err(ErrorKind::NotFormat),
                Some(h) => match spec_reader_entries(shards.last(), h as int) {
                    Err(k) => Err(k),
                    Ok(es) => Ok(prev.push(es)),
                },
            },
        }
    }
}

/// The index of the first file named `f`, from `k` on.
pub open spec fn file_index_from(files: Seq<Seq<char>>, f: Seq<char>, k: int) -> Option<int>
    decreases files.len() - k,
{
    if k < 0 || k >= files.len() {
        None
    } else if files[k] == f {
        Some(k)
    } else {
        file_index_from(files, f, k + 1)
    }
}

/// The index of the last entry before `j` named `name`.
pub open spec fn last_named_before(es: Seq<EntryView>, name: Seq<char>, j: int) -> Option<int>
    decreases j,
{
    if j <= 0 || j > es.len() {
        None
    } else if es[j - 1].name == name {
        Some(j - 1)
    } else {
        last_named_before(es, name, j - 1)
    }
}

/// The entry that the `k`th pair of the weight map takes: the last entry of
/// that name in its shard; refused when the shard is not among the files,
/// when an earlier pair already took it, or when the shard has no such entry.
pub open spec fn spec_index_entry(
    pairs: Seq<(Seq<char>, Seq<char>)>,
    files: Seq<Seq<char>>,
    shard_entries: Seq<Seq<EntryView>>,
    k: int,
) -> Result<EntryView, ErrorKind> {
    match file_index_from(files, pairs[k].1, 0) {
        None => Err(ErrorKind::Missing),
        Some(f) => if exists|j: int| 0 <= j < k && pairs[j] == pairs[k] {
            Err(ErrorKind::Missing)
        } else {
            match last_named_before(shard_entries[f], pairs[k].0, shard_entries[f].len() as int) {
                None => Err(ErrorKind::Missing),
                Some(j) => Ok(shard_entries[f][j]),
            }
        },
    }
}

/// The entries that the first `n` pairs of the weight map take, in order.
pub open spec fn spec_index_entries(
    pairs: Seq<(Seq<char>, Seq<char>)>,
    files: Seq<Seq<char>>,
    shard_entries: Seq<Seq<EntryView>>,
    n: int,
) -> Result<Seq<EntryView>, ErrorKind>
    decreases n,
{
    if n <= 0 {
        Ok(Seq::empty())
    } else {
        match spec_index_entries(pairs, files, shard_entries, n - 1) {
            Err(k) => Err(k),
            Ok(v) => match spec_index_entry(pairs, files, shard_entries, n - 1) {
                Err(k) => Err(k),
                Ok(e) => Ok(v.push(e)),
            },
        }
    }
}

/// The views of the shards' contents.
pub open spec fn shard_views(shards: Seq<Vec<u8>>) -> Seq<Seq<u8>> {
    shards.map_values(|v: Vec<u8>| v@)
}

/// The model that a sharded index lowers to, given the contents of its
/// shard files in the order of `IndexFile::shard_files`: the entries that
/// its weight map names, in its order, lowered as one file's entries.
pub open spec fn spec_parse_index(pairs: Seq<(Seq<char>, Seq<char>)>, shards: Seq<Seq<u8>>) -> Result<
    ModelView,
    ErrorKind,
> {
    match spec_shard_files(pairs.map_values(|p: (Seq<char>, Seq<char>)| p.1)) {
        Err(k) => Err(k),
        Ok(files) => if shards.len() != files.len() {
            Err(ErrorKind::Missing)
        } else {
            match spec_shard_entries(shards) {
                Err(k) => Err(k),
                Ok(se) => match spec_index_entries(pairs, files, se, pairs.len() as int) {
                    Err(k) => Err(k),
                    Ok(es) => spec_lower_entries(es),
                },
            }
        },
    }
}

/// Once the first `n` shards are refused, all are, for the same reason.
pub proof fn lemma_shard_entries_error_stays(shards: Seq<Seq<u8>>, n: int)
    requires
        0 <= n <= shards.len(),
        spec_shard_entries(shards.take(n)) is Err,
    ensures
        spec_shard_entries(shards) == spec_shard_entries(shards.take(n)),
    decreases shards.len() - n,
{
    if n == shards.len() {
        assert(shards.take(n) =~= shards);
    } else {
        assert(shards.take(n + 1).drop_last() =~= shards.take(n));
        lemma_shard_entries_error_stays(shards, n + 1);
    }
}

/// Once the first `n` pairs are refused, all are, for the same reason.
pub proof fn lemma_index_entries_error_stays(
    pairs: Seq<(Seq<char>, Seq<char>)>,
    files: Seq<Seq<char>>,
    se: Seq<Seq<EntryView>>,
    n: int,
    m: int,
)
    requires
        0 <= n <= m,
        spec_index_entries(pairs, files, se, n) is Err,
    ensures
        spec_index_entries(pairs, files, se, m) == spec_index_entries(pairs, files, se, n),
    decreases m - n,
{
    if m > n {
        lemma_index_entries_error_stays(pairs, files, se, n, m - 1);
    }
}

/// The first file index lies among the files and has the name.
pub proof fn lemma_file_index_bounds(files: Seq<Seq<char>>, f: Seq<char>, k: int)
    requires
        0 <= k,
    ensures
        file_index_from(files, f, k) matches Some(j) ==> k <= j < files.len() && files[j] == f,
    decreases files.len() - k,
{
    if k < files.len() && files[k] != f {
        lemma_file_index_bounds(files, f, k + 1);
    }
}

/// The index of the first file named `file`.
fn find_file(files: &Vec<String>, file: &str) -> (r: Option<usize>)
    ensures
        match file_index_from(string_views(files@), file@, 0) {
            Some(k) => r == Some(k as usize),
            None => r is None,
        },
{
    let ghost fv = string_views(files@);
    let mut f: usize = 0;
    while f < files.len()
        invariant
            fv == string_views(files@),
            f <= files@.len(),
            file_index_from(fv, file@, f as int) == file_index_from(fv, file@, 0),
        decreases files@.len() - f,
    {
        proof {
            assert(fv[f as int] == files@[f as int]@);
        }
        if str_eq(files[f].as_str(), file) {
            return Some(f);
        }
        f = f + 1;
    }
    None
}

/// A copy of an entry.
fn copy_entry(e: &Entry) -> (r: Entry)
    ensures
        r@ == e@,
{
    Entry { name: e.name.clone(), dtype: e.dtype.clone(), shape: e.shape.clone(), byte_len: e.byte_len }
}

/// The entry that the `k`th pair of the weight map takes.
fn index_entry(
    index: &IndexFile,
    files: &Vec<String>,
    shard_entries: &Vec<Vec<Entry>>,
    k: usize,
    Ghost(se): Ghost<Seq<Seq<EntryView>>>,
) -> (r: Result<Entry, ModelError>)
    requires
        k < index.weight_map@.len(),
        se.len() == shard_entries@.len(),
        shard_entries@.len() == files@.len(),
        forall|f: int| 0 <= f < se.len() ==> #[trigger] se[f] == entry_views(shard_entries@[f]@),
    ensures
        match spec_index_entry(pair_views(index.weight_map@), string_views(files@), se, k as int) {
            Ok(e) => r matches Ok(x) && x@ == e,
            Err(kind) => r matches Err(x) && x == st_error(kind),
        },
{
    let ghost pairs = pair_views(index.weight_map@);
    let ghost fv = string_views(files@);
    let name = index.weight_map[k].0.as_str();
    let file = index.weight_map[k].1.as_str();
    proof {
        assert(pairs[k as int] == (name@, file@));
    }
    let file_count = files.len();
    let f = match find_file(files, file) {
        Some(f) => f,
        None => return Err(invalid(Format::Safetensors, ErrorKind::Missing)),
    };
    proof {
        lemma_file_index_bounds(fv, file@, 0);
        let j = file_index_from(fv, file@, 0)->0;
        assert(fv.len() == file_count);
        assert(j as usize == f);
        assert(j == f as int);
    }
    let mut j: usize = 0;
    while j < k
        invariant
            pairs == pair_views(index.weight_map@),
            pairs[k as int] == (name@, file@),
            k < pairs.len(),
            j <= k,
            forall|q: int| 0 <= q < j ==> pairs[q] != pairs[k as int],
        decreases k - j,
    {
        proof {
            assert(pairs[j as int] == (index.weight_map@[j as int].0@, index.weight_map@[j as int].1@));
        }
        if str_eq(index.weight_map[j].0.as_str(), name) && str_eq(index.weight_map[j].1.as_str(), file) {
            return Err(invalid(Format::Safetensors, ErrorKind::Missing));
        }
        j = j + 1;
    }
    let shard = &shard_entries[f];
    let ghost sev = se[f as int];
    proof {
        assert(sev == entry_views(shard@));
    }
    let mut e: usize = shard.len();
    while e > 0
        invariant
            sev == entry_views(shard@),
            e <= shard@.len(),
            pairs == pair_views(index.weight_map@),
            pairs[k as int] == (name@, file@),
            k < pairs.len(),
            forall|q: int| 0 <= q < k ==> pairs[q] != pairs[k as int],
            fv == string_views(files@),
            file_index_from(fv, file@, 0) == Some(f as int),
            f < se.len(),
            sev == se[f as int],
            last_named_before(sev, name@, e as int) == last_named_before(sev, name@, shard@.len() as int),
        decreases e,
    {
        proof {
            assert(sev[e - 1] == shard@[e - 1]@);
        }
        if str_eq(shard[e - 1].name.as_str(), name) {
            proof {
                assert(!(exists|q: int| 0 <= q < k && pairs[q] == pairs[k as int]));
                assert(file_index_from(fv, pairs[k as int].1, 0) == Some(f as int));
                assert(last_named_before(se[f as int], pairs[k as int].0, se[f as int].len() as int) == Some(
                    e - 1,
                ));
            }
            return Ok(copy_entry(&shard[e - 1]));
        }
        e = e - 1;
    }
    proof {
        assert(!(exists|q: int| 0 <= q < k && pairs[q] == pairs[k as int]));
        assert(file_index_from(fv, pairs[k as int].1, 0) == Some(f as int));
        assert(last_named_before(se[f as int], pairs[k as int].0, se[f as int].len() as int) is None);
    }
    Err(invalid(Format::Safetensors, ErrorKind::Missing))
}

impl SafetensorsFormat {
    /// Parses a sharded index whose shard files, in the order that
    /// `IndexFile::shard_files` gives them, hold `shards`: the entries that
    /// the weight map names are taken from their shards and lowered.
    pub fn parse_index(&self, index: &IndexFile, shards: &Vec<Vec<u8>>) -> (r: Result<LoweredModel, ModelError>)
        ensures
            match spec_parse_index(pair_views(index.weight_map@), shard_views(shards@)) {
                Ok(m) => r matches Ok(model) && model@ == m,
                Err(k) => r matches Err(e) && e == st_error(k),
            },
    {
        let ghost pairs = pair_views(index.weight_map@);
        let ghost sv = shard_views(shards@);
        proof {
            assert(pairs.map_values(|p: (Seq<char>, Seq<char>)| p.1) =~= pair_views(index.weight_map@).map_values(
                |p: (Seq<char>, Seq<char>)| p.1,
            ));
        }
        let files = index.shard_files()?;
        if shards.len() != files.len() {
            return Err(invalid(Format::Safetensors, ErrorKind::Missing));
        }
        let mut shard_entries: Vec<Vec<Entry>> = Vec::new();
        let mut i: usize = 0;
        proof {
            assert(sv.take(0) =~= Seq::<Seq<u8>>::empty());
        }
        while i < shards.len()
            invariant
                sv == shard_views(shards@),
                sv.len() == files@.len(),
                pairs == pair_views(index.weight_map@),
                spec_shard_files(pairs.map_values(|p: (Seq<char>, Seq<char>)| p.1)) == Ok::<
                    Seq<Seq<char>>,
                    ErrorKind,
                >(string_views(files@)),
                i <= shards@.len(),
                shard_entries@.len() == i,
                spec_shard_entries(sv.take(i as int)) matches Ok(prev) && prev.len() == i
                    && forall|f: int| 0 <= f < i ==> #[trigger] prev[f] == entry_views(shard_entries@[f]@),
            decreases shards@.len() - i,
        {
            proof {
                assert(sv.take(i + 1).drop_last() =~= sv.take(i as int));
                assert(sv.take(i + 1).last() == shards@[i as int]@);
            }
            let reader = match Reader::open(shards[i].as_slice()) {
                Some(r) => r,
                None => {
                    proof {
                        assert(spec_header_len(shards@[i as int]@) is None);
                        assert(spec_shard_entries(sv.take(i + 1)) is Err);
                        lemma_shard_entries_error_stays(sv, i + 1);
                        assert(spec_shard_files(pairs.map_values(|p: (Seq<char>, Seq<char>)| p.1)) == Ok::<Seq<Seq<char>>, ErrorKind>(string_views(files@)));
                        assert(sv.len() == files@.len());
                        assert(spec_shard_entries(sv) == Err::<Seq<Seq<EntryView>>, ErrorKind>(ErrorKind::NotFormat));
                    }
                    return Err(invalid(Format::Safetensors, ErrorKind::NotFormat));
                },
            };
            let entries = match reader.entries() {
                Ok(es) => es,
                Err(e) => {
                    proof {
                        assert(spec_shard_entries(sv.take(i + 1)) is Err);
                        lemma_shard_entries_error_stays(sv, i + 1);
                    }
                    return Err(e);
                },
            };
            let ghost before = shard_entries@;
            shard_entries.push(entries);
            proof {
                let prev = spec_shard_entries(sv.take(i + 1))->Ok_0;
                assert forall|f: int| 0 <= f < i + 1 implies #[trigger] prev[f] == entry_views(shard_entries@[f]@) by {
                    if f < i {
                        assert(shard_entries@[f] == before[f]);
                    }
                }
            }
            i = i + 1;
        }
        proof {
            assert(sv.take(i as int) =~= sv);
        }
        let ghost se = spec_shard_entries(sv)->Ok_0;
        let ghost fv = string_views(files@);
        let mut entries: Vec<Entry> = Vec::new();
        let mut k: usize = 0;
        proof {
            assert(entry_views(entries@) =~= Seq::<EntryView>::empty());
        }
        while k < index.weight_map.len()
            invariant
                pairs == pair_views(index.weight_map@),
                fv == string_views(files@),
                sv == shard_views(shards@),
                sv.len() == files@.len(),
                spec_shard_entries(sv) == Ok::<Seq<Seq<EntryView>>, ErrorKind>(se),
                spec_shard_files(pairs.map_values(|p: (Seq<char>, Seq<char>)| p.1)) == Ok::<
                    Seq<Seq<char>>,
                    ErrorKind,
                >(fv),
                se.len() == shard_entries@.len(),
                shard_entries@.len() == files@.len(),
                forall|f: int| 0 <= f < se.len() ==> #[trigger] se[f] == entry_views(shard_entries@[f]@),
                k <= index.weight_map@.len(),
                spec_index_entries(pairs, fv, se, k as int) == Ok::<Seq<EntryView>, ErrorKind>(entry_views(entries@)),
            decreases index.weight_map@.len() - k,
        {
            let entry = match index_entry(index, &files, &shard_entries, k, Ghost(se)) {
                Ok(e) => e,
                Err(e) => {
                    proof {
                        lemma_index_entries_error_stays(pairs, fv, se, k + 1, pairs.len() as int);
                    }
                    return Err(e);
                },
            };
            let ghost before = entries@;
            entries.push(entry);
            proof {
                assert(entry_views(entries@) =~= entry_views(before).push(entry@));
            }
            k = k + 1;
        }
        lower_entries(&entries)
    }
}

proof fn lemma_entry_groups_in_range(names: Seq<Seq<char>>)
    requires
        names.len() <= usize::MAX,
    ensures
        forall|k: int, j: int|
            0 <= k < spec_entry_groups(names).len() && 0 <= j < spec_entry_groups(names)[k].1.len()
                ==> (#[trigger] spec_entry_groups(names)[k].1[j] as int) < names.len(),
    decreases names.len(),
{
    if names.len() > 0 {
        let prev = spec_entry_groups(names.drop_last());
        lemma_entry_groups_in_range(names.drop_last());
        let g = spec_split_group_name(names.last()).0;
        lemma_group_index_bounds(prev, g, 0);
        let out = spec_entry_groups(names);
        assert forall|k: int, j: int| 0 <= k < out.len() && 0 <= j < out[k].1.len() implies (#[trigger] out[k].1[j]
            as int) < names.len() by {
            match group_index_from(prev, g, 0) {
                Some(i) => {
                    if k == i && j == prev[i].1.len() {
                        assert(out[k].1[j] == (names.len() - 1) as usize);
                    } else if k == i {
                        assert(out[k].1[j] == prev[k].1[j]);
                    } else {
                        assert(out[k] == prev[k]);
                    }
                },
                None => {
                    if k < prev.len() {
                        assert(out[k] == prev[k]);
                    }
                },
            }
        }
    }
}

/// Every input of every `Module` node of a lowered Safetensors file names one
/// of the model's values.
pub proof fn lemma_lower_entries_refs_in_range(entries: Seq<EntryView>)
    ensures
        spec_lower_entries(entries) matches Ok(m) ==> (m.values.len() <= usize::MAX ==> refs_in_range(m)),
{
    if spec_lower_entries(entries) is Ok {
        let m = spec_lower_entries(entries)->Ok_0;
        let names = entry_names(entries);
        let groups = spec_entry_groups(names);
        if m.values.len() <= usize::MAX {
            lemma_entry_groups_in_range(names);
            assert forall|k: int, j: int|
                0 <= k < m.nodes.len() && 0 <= j < m.nodes[k].inputs.len() && #[trigger] m.nodes[k].inputs[j] is Some
                    implies (m.nodes[k].inputs[j]->Some_0 as int) < m.values.len() by {
                assert(m.nodes[k] == group_node(groups[k]));
                assert(m.nodes[k].inputs[j] == Some(groups[k].1[j]));
            }
        }
    }
}

/// Whether `dtype` is the Safetensors name of elements of type `t`: its kind
/// (`I` signed, `U` unsigned, `F` float, `BF` brain float, `F8_` 8-bit
/// float formats) and its width in bits.
pub open spec fn is_safetensors_dtype_of(dtype: Seq<char>, t: TensorElementType) -> bool {
    match t {
        TensorElementType::Int8 => dtype == "I8"@,
        TensorElementType::Int16 => dtype == "I16"@,
        TensorElementType::Int32 => dtype == "I32"@,
        TensorElementType::Int64 => dtype == "I64"@,
        TensorElementType::Uint8 => dtype == "U8"@,
        TensorElementType::Uint16 => dtype == "U16"@,
        TensorElementType::Uint32 => dtype == "U32"@,
        TensorElementType::Uint64 => dtype == "U64"@,
        TensorElementType::BFloat16 => dtype == "BF16"@,
        TensorElementType::Float16 => dtype == "F16"@,
        TensorElementType::Float32 => dtype == "F32"@,
        TensorElementType::Float64 => dtype == "F64"@,
        TensorElementType::Bool => dtype == "BOOL"@,
        TensorElementType::Float8e4m3fn => dtype == "F8_E4M3"@,
        TensorElementType::Float8e5m2 => dtype == "F8_E5M2"@,
        TensorElementType::Float8e8m0 => dtype == "F8_E8M0"@,
        _ => false,
    }
}

/// A Safetensors dtype lowers to the element type that it names: `I64` to
/// `Int64`, `F32` to `Float32`, and so on; so distinct dtype names lower to
/// distinct element types.
pub proof fn lemma_lower_element_type_named(dtype: Seq<char>)
    ensures
        spec_lower_element_type(dtype) matches Some(t) ==> is_safetensors_dtype_of(dtype, t),
{
}

/// Whether a value is typed, and initialized by a tensor typed, by the
/// element type that `dtype` names.
pub open spec fn typed_by_dtype(v: ValueView, dtype: Seq<char>) -> bool {
    match v.element_type {
        Some(t) => is_safetensors_dtype_of(dtype, t) && (match v.initializer {
            Some(x) => x.element_type == t,
            None => false,
        }),
        None => false,
    }
}

/// Each value of a lowered Safetensors file is typed, and initialized, by
/// the element type that its entry's dtype names.
pub proof fn lemma_lower_entries_typed_by_dtype(entries: Seq<EntryView>)
    ensures
        spec_lower_entries(entries) matches Ok(m) ==> (m.values.len() == entries.len() && forall|i: int|
            0 <= i < entries.len() ==> typed_by_dtype(#[trigger] m.values[i], entries[i].dtype)),
{
    if spec_lower_entries(entries) is Ok {
        let m = spec_lower_entries(entries)->Ok_0;
        assert forall|i: int| 0 <= i < entries.len() implies typed_by_dtype(#[trigger] m.values[i], entries[i].dtype) by {
            lemma_lower_element_type_named(entries[i].dtype);
            assert(spec_lower_element_type(entries[i].dtype) is Some);
        }
    }
}

/// Every Safetensors dtype name of an element type is read as that type.
pub proof fn lemma_lower_element_type_complete(dtype: Seq<char>, t: TensorElementType)
    requires
        is_safetensors_dtype_of(dtype, t),
    ensures
        spec_lower_element_type(dtype) == Some(t),
{
    reveal_strlit("I8");
    reveal_strlit("I16");
    reveal_strlit("I32");
    reveal_strlit("I64");
    reveal_strlit("U8");
    reveal_strlit("U16");
    reveal_strlit("U32");
    reveal_strlit("U64");
    reveal_strlit("BF16");
    reveal_strlit("F16");
    reveal_strlit("F32");
    reveal_strlit("F64");
    reveal_strlit("BOOL");
    reveal_strlit("F8_E4M3");
    reveal_strlit("F8_E5M2");
    reveal_strlit("F8_E8M0");
    assert("I8"@.len() == 2);
    assert("I16"@.len() == 3);
    assert("I32"@.len() == 3);
    assert("I64"@.len() == 3);
    assert("U8"@.len() == 2);
    assert("U16"@.len() == 3);
    assert("U32"@.len() == 3);
    assert("U64"@.len() == 3);
    assert("BF16"@.len() == 4);
    assert("F16"@.len() == 3);
    assert("F32"@.len() == 3);
    assert("F64"@.len() == 3);
    assert("BOOL"@.len() == 4);
    assert("F8_E4M3"@.len() == 7);
    assert("F8_E5M2"@.len() == 7);
    assert("F8_E8M0"@.len() == 7);
    assert("BF16"@[1] == 'F');
    assert("BOOL"@[1] == 'O');
    assert("F16"@[0] == 'F');
    assert("F16"@[1] == '1');
    assert("F32"@[0] == 'F');
    assert("F32"@[1] == '3');
    assert("F64"@[0] == 'F');
    assert("F64"@[1] == '6');
    assert("F8_E4M3"@[4] == '4');
    assert("F8_E5M2"@[4] == '5');
    assert("F8_E8M0"@[4] == '8');
    assert("I16"@[0] == 'I');
    assert("I16"@[1] == '1');
    assert("I32"@[0] == 'I');
    assert("I32"@[1] == '3');
    assert("I64"@[0] == 'I');
    assert("I64"@[1] == '6');
    assert("I8"@[0] == 'I');
    assert("U16"@[0] == 'U');
    assert("U16"@[1] == '1');
    assert("U32"@[0] == 'U');
    assert("U32"@[1] == '3');
    assert("U64"@[0] == 'U');
    assert("U64"@[1] == '6');
    assert("U8"@[0] == 'U');
}

/// Distinct Safetensors dtype names lower to distinct element types.
pub proof fn lemma_lower_element_type_injective(d1: Seq<char>, d2: Seq<char>)
    ensures
        spec_lower_element_type(d1) is Some && spec_lower_element_type(d1) == spec_lower_element_type(d2) ==> d1
            == d2,
{
    lemma_lower_element_type_named(d1);
    lemma_lower_element_type_named(d2);
}

} // verus!
