//! The state dict of a legacy tar archive: its storages, its tensors and the
//! names of its entries, each read from an entry of the archive.
use vstd::prelude::*;
use vstd::string::StringExecFns;
use crate::error::{ErrorKind, Format, ModelError, invalid};
use crate::le::{le_u32_at, le_u64_at};
use crate::onnx::slice_range;
use crate::pytorch::dtypes::{TensorElementType, spec_storage_element_type, storage_element_type};
use crate::pytorch::legacy::{
    checked_byte_len, fold_ops, last_int_fold, read_legacy_tar_i32, read_legacy_tar_i64,
    legacy_tar_pickle_entries, read_legacy_tar_tensor_record, read_legacy_tar_u64,
    read_pickle_int_record, record_at, spec_tar_pickle_entries,
    skip_legacy_tar_bytes, spec_byte_len, tensor_record_fold,
};
use crate::pytorch::pickle::{
    PickleCursor, PickleOp, PickleOpView, lemma_next_op_advances, opt_string_view, spec_advance,
};
use crate::pytorch::py_error;
use crate::pytorch::machine::{StateDictTensor, TensorView, copy_ints};
use crate::pytorch::scan::is_storage_class;
use crate::pytorch::state_dict::{
    EntryValueView, EntryView, StateDict, StateDictEntry, StateDictEntryValue, entry_views,
};
use crate::pytorch::tar::{PyTorchTarArchive, spec_tar_find};
use crate::text::{has_suffix, str_ends_with, str_starts_with};

verus! {

// ---------------------------------------------------------------------------
// Records

/// The element type and size of a storage.
#[derive(Clone, Copy)]
pub struct LegacyTarStorage {
    pub element_type: TensorElementType,
    pub element_size: usize,
}

/// The last integer of the pickle record at `offset` and the offset past it.
pub open spec fn spec_int_record(data: Seq<u8>, offset: int) -> Result<(i64, int), ErrorKind> {
    if offset > data.len() {
        Err(ErrorKind::Truncated)
    } else {
        match fold_ops(record_at(data, offset), 0, None, last_int_fold()) {
            Err(k) => Err(k),
            Ok((last, n)) => match last {
                Some(v) => Ok((v, offset + n)),
                None => Err(ErrorKind::Missing),
            },
        }
    }
}

/// Reads the count that a pickle record at `*offset` holds.
fn read_count(data: &[u8], offset: &mut usize) -> (r: Result<usize, ModelError>)
    requires
        *old(offset) <= data@.len(),
    ensures
        match spec_int_record(data@, *old(offset) as int) {
            Err(k) => r matches Err(e) && e == py_error(k),
            Ok((v, n)) => if v < 0 || v > usize::MAX {
                r matches Err(e) && e == py_error(ErrorKind::InvalidValue)
            } else {
                r == Ok::<usize, ModelError>(v as usize) && *final(offset) == n
            },
        },
{
    let v = read_pickle_int_record(data, offset, "count")?;
    if v < 0 || v as u64 > usize::MAX as u64 {
        return Err(invalid(Format::PyTorch, ErrorKind::InvalidValue));
    }
    Ok(v as usize)
}

/// The first integer and the last storage class of a stream so far.
pub open spec fn storage_record_step(s: (Option<i64>, Option<Seq<char>>), op: PickleOpView) -> (
    Option<i64>,
    Option<Seq<char>>,
) {
    match op {
        PickleOpView::Int(v) => if s.0 is None {
            (Some(v), s.1)
        } else {
            s
        },
        PickleOpView::Global(name) => if is_storage_class(name) {
            (s.0, Some(name))
        } else {
            s
        },
        _ => s,
    }
}

/// Collects the first integer and the last storage class of a stream.
pub open spec fn storage_record_fold() -> spec_fn((Option<i64>, Option<Seq<char>>), PickleOpView) -> (
    Option<i64>,
    Option<Seq<char>>,
) {
    |s: (Option<i64>, Option<Seq<char>>), op: PickleOpView| storage_record_step(s, op)
}

/// The storage record at `offset`: its first integer is the storage's key and
/// its last storage class gives its type; and the offset past it.
pub open spec fn spec_storage_record(data: Seq<u8>, offset: int) -> Result<
    ((i64, LegacyTarStorage), int),
    ErrorKind,
> {
    if offset > data.len() {
        Err(ErrorKind::Truncated)
    } else {
        match fold_ops(record_at(data, offset), 0, (None, None), storage_record_fold()) {
            Err(k) => Err(k),
            Ok((s, n)) => match s.0 {
                None => Err(ErrorKind::Missing),
                Some(key) => match s.1 {
                    None => Err(ErrorKind::Missing),
                    Some(name) => match spec_storage_element_type(name) {
                        None => Err(ErrorKind::Unsupported),
                        Some((t, size)) => Ok(
                            ((key, LegacyTarStorage { element_type: t, element_size: size }), offset + n),
                        ),
                    },
                },
            },
        }
    }
}

/// Reads the storage record at `*offset` and moves `*offset` past it.
pub fn read_legacy_tar_storage_record(data: &[u8], offset: &mut usize) -> (r: Result<
    (i64, LegacyTarStorage),
    ModelError,
>)
    ensures
        match spec_storage_record(data@, *old(offset) as int) {
            Err(k) => r matches Err(e) && e == py_error(k),
            Ok((v, n)) => r == Ok::<(i64, LegacyTarStorage), ModelError>(v) && *final(offset) == n,
        },
{
    let start = *offset;
    if start > data.len() {
        return Err(invalid(Format::PyTorch, ErrorKind::Truncated));
    }
    let rest = slice_range(data, start, data.len());
    let mut cursor = PickleCursor::new(rest);
    let mut key: Option<i64> = None;
    let mut storage_name: Option<String> = None;
    loop
        invariant
            cursor.data == rest,
            start == *old(offset),
            start <= data@.len(),
            rest@ == record_at(data@, start as int),
            cursor.offset <= rest@.len(),
            start + rest@.len() == data@.len(),
            data@.len() <= usize::MAX,
            fold_ops(
                rest@,
                cursor.offset as int,
                (key, opt_string_view(storage_name)),
                storage_record_fold(),
            ) == fold_ops(rest@, 0, (None::<i64>, None::<Seq<char>>), storage_record_fold()),
        decreases rest@.len() - cursor.offset,
    {
        proof {
            lemma_next_op_advances(rest@, cursor.offset as int);
        }
        match cursor.next()? {
            None => {
                *offset = start + cursor.offset;
                let key = match key {
                    Some(k) => k,
                    None => return Err(invalid(Format::PyTorch, ErrorKind::Missing)),
                };
                let name = match storage_name {
                    Some(n) => n,
                    None => return Err(invalid(Format::PyTorch, ErrorKind::Missing)),
                };
                let (element_type, element_size) = storage_element_type(name.as_str())?;
                return Ok((key, LegacyTarStorage { element_type, element_size }));
            },
            Some(op) => {
                match op {
                    PickleOp::Int(v) => {
                        if key.is_none() {
                            key = Some(v);
                        }
                    },
                    PickleOp::Global(name) => {
                        if str_starts_with(name.as_str(), "torch.") && str_ends_with(
                            name.as_str(),
                            "Storage",
                        ) {
                            storage_name = Some(name);
                        }
                    },
                    _ => {},
                }
            },
        }
    }
}

// ---------------------------------------------------------------------------
// Storages

/// The storages from `offset` on, `count` more of them, after `acc`: each is
/// a record, its element count, and its data, which is skipped.
pub open spec fn spec_storages_from(
    data: Seq<u8>,
    offset: int,
    count: nat,
    acc: Seq<(i64, LegacyTarStorage)>,
) -> Result<Seq<(i64, LegacyTarStorage)>, ErrorKind>
    decreases count,
{
    if count == 0 {
        Ok(acc)
    } else {
        match spec_storage_record(data, offset) {
            Err(e) => Err(e),
            Ok(((key, storage), o1)) => match spec_advance(data, o1, 8) {
                Err(e) => Err(e),
                Ok(o2) => {
                    let numel = le_u64_at(data, o1);
                    if numel > usize::MAX || numel * storage.element_size > usize::MAX {
                        Err(ErrorKind::Overflow)
                    } else {
                        match spec_advance(data, o2, numel * storage.element_size) {
                            Err(e) => Err(e),
                            Ok(o3) => spec_storages_from(
                                data,
                                o3,
                                (count - 1) as nat,
                                acc.push((key, storage)),
                            ),
                        }
                    }
                },
            },
        }
    }
}

/// The storages of a legacy tar archive: a count, then that many storages.
pub open spec fn spec_legacy_tar_storages(data: Seq<u8>) -> Result<Seq<(i64, LegacyTarStorage)>, ErrorKind> {
    match spec_int_record(data, 0) {
        Err(e) => Err(e),
        Ok((v, o)) => if v < 0 || v > usize::MAX {
            Err(ErrorKind::InvalidValue)
        } else {
            spec_storages_from(data, o, v as nat, Seq::empty())
        },
    }
}

/// The storages of a legacy tar archive, in order, with their keys.
pub fn legacy_tar_storages(data: &[u8]) -> (r: Result<Vec<(i64, LegacyTarStorage)>, ModelError>)
    ensures
        match spec_legacy_tar_storages(data@) {
            Ok(s) => r matches Ok(v) && v@ == s,
            Err(k) => r matches Err(e) && e == py_error(k),
        },
{
    let mut offset: usize = 0;
    let count = read_count(data, &mut offset)?;
    let mut storages: Vec<(i64, LegacyTarStorage)> = Vec::new();
    let mut i: usize = 0;
    while i < count
        invariant
            i <= count,
            spec_storages_from(data@, offset as int, (count - i) as nat, storages@)
                == spec_legacy_tar_storages(data@),
        decreases count - i,
    {
        let (key, storage) = read_legacy_tar_storage_record(data, &mut offset)?;
        let numel = read_legacy_tar_u64(data, &mut offset, "size")?;
        if numel as u128 > usize::MAX as u128 {
            return Err(invalid(Format::PyTorch, ErrorKind::Overflow));
        }
        let byte_len = match (numel as usize).checked_mul(storage.element_size) {
            Some(n) => n,
            None => return Err(invalid(Format::PyTorch, ErrorKind::Overflow)),
        };
        skip_legacy_tar_bytes(data, &mut offset, byte_len, "data")?;
        storages.push((key, storage));
        i = i + 1;
    }
    Ok(storages)
}

// ---------------------------------------------------------------------------
// Tensors

/// `n` more little-endian `i64` values from `offset` on, after `acc`, and the
/// offset past them.
pub open spec fn spec_read_i64s(data: Seq<u8>, offset: int, n: nat, acc: Seq<i64>) -> Result<
    (Seq<i64>, int),
    ErrorKind,
>
    decreases n,
{
    if n == 0 {
        Ok((acc, offset))
    } else {
        match spec_advance(data, offset, 8) {
            Err(e) => Err(e),
            Ok(o) => spec_read_i64s(data, o, (n - 1) as nat, acc.push(le_u64_at(data, offset) as i64)),
        }
    }
}

/// Reads `n` little-endian `i64` values at `*offset` and moves past them.
fn read_i64s(data: &[u8], offset: &mut usize, n: usize) -> (r: Result<Vec<i64>, ModelError>)
    ensures
        match spec_read_i64s(data@, *old(offset) as int, n as nat, Seq::empty()) {
            Err(k) => r matches Err(e) && e == py_error(k),
            Ok((v, o)) => r matches Ok(x) && x@ == v && *final(offset) == o,
        },
{
    let mut out: Vec<i64> = Vec::new();
    let mut i: usize = 0;
    while i < n
        invariant
            i <= n,
            spec_read_i64s(data@, *offset as int, (n - i) as nat, out@) == spec_read_i64s(
                data@,
                *old(offset) as int,
                n as nat,
                Seq::empty(),
            ),
        decreases n - i,
    {
        let v = read_legacy_tar_i64(data, offset, "value")?;
        out.push(v);
        i = i + 1;
    }
    Ok(out)
}

/// The storage of `key`: the last one read with that key.
pub open spec fn storage_lookup(s: Seq<(i64, LegacyTarStorage)>, key: i64) -> Option<LegacyTarStorage>
    decreases s.len(),
{
    if s.len() == 0 {
        None
    } else if s.last().0 == key {
        Some(s.last().1)
    } else {
        storage_lookup(s.drop_last(), key)
    }
}

/// The storage of `key`.
fn find_storage(storages: &Vec<(i64, LegacyTarStorage)>, key: i64) -> (r: Option<LegacyTarStorage>)
    ensures
        r == storage_lookup(storages@, key),
{
    let mut n = storages.len();
    proof {
        assert(storages@.take(n as int) =~= storages@);
    }
    while n > 0
        invariant
            n <= storages@.len(),
            storage_lookup(storages@.take(n as int), key) == storage_lookup(storages@, key),
        decreases n,
    {
        proof {
            assert(storages@.take(n as int).drop_last() =~= storages@.take(n - 1));
        }
        if storages[n - 1].0 == key {
            return Some(storages[n - 1].1);
        }
        n = n - 1;
    }
    proof {
        assert(storages@.take(0) =~= Seq::<(i64, LegacyTarStorage)>::empty());
    }
    None
}

/// The storage that a tensor class names: `torch.XTensor` has the type of
/// `torch.XStorage`.
pub open spec fn spec_storage_from_tensor_name(name: Option<Seq<char>>) -> Option<LegacyTarStorage> {
    match name {
        None => None,
        Some(n) => if has_suffix(n, "Tensor"@) {
            match spec_storage_element_type(n.take(n.len() - 6) + "Storage"@) {
                Some((t, size)) => Some(LegacyTarStorage { element_type: t, element_size: size }),
                None => None,
            }
        } else {
            None
        },
    }
}

/// The storage that a tensor class names.
pub fn legacy_tar_storage_from_tensor_name(name: Option<&str>) -> (r: Option<LegacyTarStorage>)
    ensures
        r == spec_storage_from_tensor_name(match name {
            Some(n) => Some(n@),
            None => None,
        }),
{
    let name = name?;
    if !str_ends_with(name, "Tensor") {
        return None;
    }
    let chars = crate::text::str_chars(name);
    proof {
        reveal_strlit("Tensor");
    }
    let prefix_len = chars.len() - 6;
    let prefix = vstd::slice::slice_subrange(chars.as_slice(), 0, prefix_len);
    let mut storage_name = crate::text::chars_string(prefix);
    storage_name.append("Storage");
    match storage_element_type(storage_name.as_str()) {
        Ok((element_type, element_size)) => Some(LegacyTarStorage { element_type, element_size }),
        Err(_) => None,
    }
}

/// A tensor of the state dict of a legacy tar archive.
pub struct TarTensorView {
    pub element_type: TensorElementType,
    pub shape: Seq<i64>,
    pub byte_len: usize,
}

/// The tensor record at `offset` with the storages `storages`: its key, its
/// tensor, and the offset past it. The record is a pickle with the tensor's
/// key, its storage's key and its class, then the rank, four reserved bytes,
/// the shape, the strides and the storage offset; the storage of the key,
/// or else the one that the class names, gives the type.
pub open spec fn spec_tensor_entry(data: Seq<u8>, offset: int, storages: Seq<(i64, LegacyTarStorage)>) -> Result<
    ((i64, TarTensorView), int),
    ErrorKind,
> {
    if offset > data.len() {
        Err(ErrorKind::Truncated)
    } else {
        match fold_ops(
            record_at(data, offset),
            0,
            (Seq::<i64>::empty(), None::<Seq<char>>),
            tensor_record_fold(),
        ) {
            Err(k) => Err(k),
            Ok((st, n)) => if st.0.len() < 2 {
                Err(ErrorKind::Missing)
            } else {
                let o1 = offset + n;
                match spec_advance(data, o1, 4) {
                    Err(e) => Err(e),
                    Ok(o2) => {
                        let ndim = le_u32_at(data, o1) as i32;
                        if ndim < 0 {
                            Err(ErrorKind::InvalidValue)
                        } else {
                            match spec_advance(data, o2, 4) {
                                Err(e) => Err(e),
                                Ok(o3) => match spec_read_i64s(data, o3, ndim as nat, Seq::empty()) {
                                    Err(e) => Err(e),
                                    Ok((shape, o4)) => match spec_read_i64s(
                                        data,
                                        o4,
                                        ndim as nat,
                                        Seq::empty(),
                                    ) {
                                        Err(e) => Err(e),
                                        Ok((_, o5)) => match spec_advance(data, o5, 8) {
                                            Err(e) => Err(e),
                                            Ok(o6) => {
                                                let storage = match storage_lookup(storages, st.0[1]) {
                                                    Some(s) => Some(s),
                                                    None => spec_storage_from_tensor_name(st.1),
                                                };
                                                match storage {
                                                    None => Err(ErrorKind::Missing),
                                                    Some(s) => match spec_byte_len(
                                                        shape,
                                                        s.element_size as int,
                                                    ) {
                                                        Err(e) => Err(e),
                                                        Ok(b) => Ok(
                                                            (
                                                                (
                                                                    st.0[0],
                                                                    TarTensorView {
                                                                        element_type: s.element_type,
                                                                        shape,
                                                                        byte_len: b as usize,
                                                                    },
                                                                ),
                                                                o6,
                                                            ),
                                                        ),
                                                    },
                                                }
                                            },
                                        },
                                    },
                                },
                            }
                        }
                    },
                }
            },
        }
    }
}

/// A tensor of the state dict of a legacy tar archive.
pub struct TarTensor {
    pub element_type: TensorElementType,
    pub shape: Vec<i64>,
    pub byte_len: usize,
}

impl View for TarTensor {
    type V = TarTensorView;

    open spec fn view(&self) -> TarTensorView {
        TarTensorView { element_type: self.element_type, shape: self.shape@, byte_len: self.byte_len }
    }
}

/// Reads the tensor record at `*offset` and moves `*offset` past it.
fn read_tensor_entry(data: &[u8], offset: &mut usize, storages: &Vec<(i64, LegacyTarStorage)>) -> (r:
    Result<(i64, TarTensor), ModelError>)
    ensures
        match spec_tensor_entry(data@, *old(offset) as int, storages@) {
            Err(k) => r matches Err(e) && e == py_error(k),
            Ok(((key, t), n)) => r matches Ok((k, x)) && k == key && x@ == t && *final(offset) == n,
        },
{
    let (tensor_key, storage_key, tensor_name) = read_legacy_tar_tensor_record(data, offset)?;
    let ndim = read_legacy_tar_i32(data, offset, "rank")?;
    if ndim < 0 {
        return Err(invalid(Format::PyTorch, ErrorKind::InvalidValue));
    }
    let ndim = ndim as usize;
    skip_legacy_tar_bytes(data, offset, 4, "reserved")?;
    let shape = read_i64s(data, offset, ndim)?;
    let _strides = read_i64s(data, offset, ndim)?;
    read_legacy_tar_i64(data, offset, "storage offset")?;
    let storage = match find_storage(storages, storage_key) {
        Some(s) => s,
        None => {
            let name = match &tensor_name {
                Some(n) => Some(n.as_str()),
                None => None,
            };
            match legacy_tar_storage_from_tensor_name(name) {
                Some(s) => s,
                None => return Err(invalid(Format::PyTorch, ErrorKind::Missing)),
            }
        },
    };
    let byte_len = checked_byte_len(shape.as_slice(), storage.element_size)?;
    Ok((tensor_key, TarTensor { element_type: storage.element_type, shape, byte_len }))
}

/// The tensors from `offset` on, `count` more of them, after `acc`.
pub open spec fn spec_tensors_from(
    data: Seq<u8>,
    offset: int,
    count: nat,
    storages: Seq<(i64, LegacyTarStorage)>,
    acc: Seq<(i64, TarTensorView)>,
) -> Result<Seq<(i64, TarTensorView)>, ErrorKind>
    decreases count,
{
    if count == 0 {
        Ok(acc)
    } else {
        match spec_tensor_entry(data, offset, storages) {
            Err(e) => Err(e),
            Ok((entry, o)) => spec_tensors_from(data, o, (count - 1) as nat, storages, acc.push(entry)),
        }
    }
}

/// The tensors of a legacy tar archive: a count, then that many tensor
/// records.
pub open spec fn spec_legacy_tar_tensors(data: Seq<u8>, storages: Seq<(i64, LegacyTarStorage)>) -> Result<
    Seq<(i64, TarTensorView)>,
    ErrorKind,
> {
    match spec_int_record(data, 0) {
        Err(e) => Err(e),
        Ok((v, o)) => if v < 0 || v > usize::MAX {
            Err(ErrorKind::InvalidValue)
        } else {
            spec_tensors_from(data, o, v as nat, storages, Seq::empty())
        },
    }
}

/// The views of keyed tensors.
pub open spec fn keyed_tensor_views(v: Seq<(i64, TarTensor)>) -> Seq<(i64, TarTensorView)> {
    v.map_values(|e: (i64, TarTensor)| (e.0, e.1@))
}

/// The tensors of a legacy tar archive, in order, with their keys.
pub fn legacy_tar_tensors(data: &[u8], storages: &Vec<(i64, LegacyTarStorage)>) -> (r: Result<
    Vec<(i64, TarTensor)>,
    ModelError,
>)
    ensures
        match spec_legacy_tar_tensors(data@, storages@) {
            Ok(s) => r matches Ok(v) && keyed_tensor_views(v@) == s,
            Err(k) => r matches Err(e) && e == py_error(k),
        },
{
    let mut offset: usize = 0;
    let count = read_count(data, &mut offset)?;
    let mut tensors: Vec<(i64, TarTensor)> = Vec::new();
    let mut i: usize = 0;
    proof {
        assert(keyed_tensor_views(tensors@) =~= Seq::<(i64, TarTensorView)>::empty());
    }
    while i < count
        invariant
            i <= count,
            spec_tensors_from(data@, offset as int, (count - i) as nat, storages@, keyed_tensor_views(tensors@))
                == spec_legacy_tar_tensors(data@, storages@),
        decreases count - i,
    {
        let (key, tensor) = read_tensor_entry(data, &mut offset, storages)?;
        let ghost before = keyed_tensor_views(tensors@);
        tensors.push((key, tensor));
        proof {
            assert(keyed_tensor_views(tensors@) =~= before.push((key, tensors@.last().1@)));
        }
        i = i + 1;
    }
    Ok(tensors)
}

// ---------------------------------------------------------------------------
// The state dict

/// The tensor of `key`: the last one read with that key.
pub open spec fn tensor_lookup(s: Seq<(i64, TarTensorView)>, key: i64) -> Option<TarTensorView>
    decreases s.len(),
{
    if s.len() == 0 {
        None
    } else if s.last().0 == key {
        Some(s.last().1)
    } else {
        tensor_lookup(s.drop_last(), key)
    }
}

/// A copy of the tensor of `key`, as a state dict tensor.
fn find_tensor(tensors: &Vec<(i64, TarTensor)>, key: i64) -> (r: Option<StateDictTensor>)
    ensures
        match tensor_lookup(keyed_tensor_views(tensors@), key) {
            Some(t) => r matches Some(x) && x@ == tar_tensor_view(t),
            None => r is None,
        },
{
    let ghost view = keyed_tensor_views(tensors@);
    let mut n = tensors.len();
    proof {
        assert(view.take(n as int) =~= view);
    }
    while n > 0
        invariant
            n <= tensors@.len(),
            view == keyed_tensor_views(tensors@),
            tensor_lookup(view.take(n as int), key) == tensor_lookup(view, key),
        decreases n,
    {
        proof {
            assert(view.take(n as int).drop_last() =~= view.take(n - 1));
        }
        if tensors[n - 1].0 == key {
            let t = &tensors[n - 1].1;
            return Some(
                StateDictTensor {
                    element_type: t.element_type,
                    shape: copy_ints(&t.shape),
                    byte_len: t.byte_len,
                    layout: None,
                },
            );
        }
        n = n - 1;
    }
    proof {
        assert(view.take(0) =~= Seq::<(i64, TarTensorView)>::empty());
    }
    None
}

/// A tensor of a legacy tar archive as a state dict tensor.
pub open spec fn tar_tensor_view(t: TarTensorView) -> TensorView {
    TensorView { element_type: t.element_type, shape: t.shape, byte_len: t.byte_len, layout: None }
}

/// The state dict entries of the names and tensor keys `pes`: each key must
/// have a tensor.
pub open spec fn tar_entries_with(pes: Seq<(Seq<char>, i64)>, tensors: Seq<(i64, TarTensorView)>) -> Result<
    Seq<EntryView>,
    ErrorKind,
>
    decreases pes.len(),
{
    if pes.len() == 0 {
        Ok(Seq::empty())
    } else {
        match tar_entries_with(pes.drop_last(), tensors) {
            Err(e) => Err(e),
            Ok(rest) => match tensor_lookup(tensors, pes.last().1) {
                None => Err(ErrorKind::Missing),
                Some(t) => Ok(
                    rest.push(
                        EntryView { key: pes.last().0, value: EntryValueView::Tensor(tar_tensor_view(t)) },
                    ),
                ),
            },
        }
    }
}

/// An entry whose tensor is missing makes the whole list fail.
pub proof fn lemma_tar_entries_error_stays(
    pes: Seq<(Seq<char>, i64)>,
    tensors: Seq<(i64, TarTensorView)>,
    j: int,
)
    requires
        0 <= j <= pes.len(),
        tar_entries_with(pes.take(j), tensors) is Err,
    ensures
        tar_entries_with(pes, tensors) == tar_entries_with(pes.take(j), tensors),
    decreases pes.len() - j,
{
    if j < pes.len() {
        assert(pes.take(j + 1).drop_last() =~= pes.take(j));
        lemma_tar_entries_error_stays(pes, tensors, j + 1);
    } else {
        assert(pes.take(j) =~= pes);
    }
}

/// What the state dict of an archive is, once its entry list is known.
pub open spec fn non_empty_entries(r: Result<Seq<EntryView>, ErrorKind>) -> Result<Seq<EntryView>, ErrorKind> {
    match r {
        Err(e) => Err(e),
        Ok(es) => if es.len() == 0 {
            Err(ErrorKind::Missing)
        } else {
            Ok(es)
        },
    }
}

/// The state dict of a legacy tar archive: the storages of its `storages`
/// entry type the tensors of its `tensors` entry, which the names of its
/// `pickle` entry take by key; there must be at least one entry.
pub open spec fn spec_tar_state_dict(entries: Seq<(Seq<char>, Seq<u8>)>) -> Result<Seq<EntryView>, ErrorKind> {
    match spec_tar_find(entries, "storages"@) {
        None => Err(ErrorKind::Missing),
        Some(sd) => match spec_legacy_tar_storages(sd) {
            Err(e) => Err(e),
            Ok(storages) => match spec_tar_find(entries, "tensors"@) {
                None => Err(ErrorKind::Missing),
                Some(td) => match spec_legacy_tar_tensors(td, storages) {
                    Err(e) => Err(e),
                    Ok(tensors) => match spec_tar_find(entries, "pickle"@) {
                        None => Err(ErrorKind::Missing),
                        Some(pd) => match spec_tar_pickle_entries(pd) {
                            Err(e) => Err(e),
                            Ok(pes) => non_empty_entries(tar_entries_with(pes, tensors)),
                        },
                    },
                },
            },
        },
    }
}

impl<'a> PyTorchTarArchive<'a> {
    /// The state dict of the archive.
    pub fn state_dict(&self) -> (r: Result<StateDict, ModelError>)
        ensures
            match spec_tar_state_dict(self@) {
                Ok(es) => r matches Ok(d) && entry_views(d.entries@) == es,
                Err(k) => r matches Err(e) && e == py_error(k),
            },
    {
        let storages = legacy_tar_storages(self.entry("storages")?)?;
        let tensors = legacy_tar_tensors(self.entry("tensors")?, &storages)?;
        let names = legacy_tar_pickle_entries(self.entry("pickle")?)?;
        let ghost pes = crate::pytorch::legacy::entry_views(names@);
        let ghost tv = keyed_tensor_views(tensors@);
        let mut entries: Vec<StateDictEntry> = Vec::new();
        let mut i: usize = 0;
        proof {
            assert(pes.take(0) =~= Seq::<(Seq<char>, i64)>::empty());
            assert(entry_views(entries@) =~= Seq::<EntryView>::empty());
        }
        while i < names.len()
            invariant
                i <= names@.len(),
                pes == crate::pytorch::legacy::entry_views(names@),
                tv == keyed_tensor_views(tensors@),
                spec_tar_state_dict(self@) == non_empty_entries(tar_entries_with(pes, tv)),
                tar_entries_with(pes.take(i as int), tv) == Ok::<Seq<EntryView>, ErrorKind>(
                    entry_views(entries@),
                ),
            decreases names@.len() - i,
        {
            proof {
                assert(pes.take(i + 1).drop_last() =~= pes.take(i as int));
            }
            let tensor = match find_tensor(&tensors, names[i].1) {
                Some(t) => t,
                None => {
                    proof {
                        lemma_tar_entries_error_stays(pes, tv, i + 1);
                    }
                    return Err(invalid(Format::PyTorch, ErrorKind::Missing));
                },
            };
            let ghost before = entry_views(entries@);
            entries.push(
                StateDictEntry { key: names[i].0.clone(), value: StateDictEntryValue::Tensor(tensor) },
            );
            proof {
                assert(entry_views(entries@) =~= before.push(entries@.last()@));
            }
            i = i + 1;
        }
        proof {
            assert(pes.take(names@.len() as int) =~= pes);
        }
        if entries.len() == 0 {
            return Err(invalid(Format::PyTorch, ErrorKind::Missing));
        }
        Ok(StateDict { entries })
    }
}

} // verus!
