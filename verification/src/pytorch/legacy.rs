//! The records of the legacy tar format: pickle records and raw little-endian
//! fields, read one after another from an offset.
use vstd::prelude::*;
use crate::chars::{parse_i64, parse_i64_exec};
use crate::error::{ErrorKind, Format, ModelError, invalid};
use crate::le::{le_u32_at, le_u64_at, read_u32, read_u64};
use crate::onnx::slice_range;
use crate::pytorch::py_error;
use crate::pytorch::pickle::{
    PickleCursor, PickleOp, PickleOpView, lemma_next_op_advances, opt_string_view, spec_advance,
    spec_next_op, spec_pickle_end,
};
use crate::text::{has_prefix, has_suffix, str_ends_with, str_starts_with};

verus! {

// ---------------------------------------------------------------------------
// Folding a pickle stream

/// Folds `f` over the ops of the stream from `offset` on, starting from `s`:
/// the final state and the offset past the stop opcode, or the error of the
/// stream.
pub open spec fn fold_ops<S>(data: Seq<u8>, offset: int, s: S, f: spec_fn(S, PickleOpView) -> S) -> Result<
    (S, int),
    ErrorKind,
>
    decreases data.len() - offset,
{
    match spec_next_op(data, offset) {
        Err(e) => Err(e),
        Ok((None, n)) => Ok((s, n)),
        Ok((Some(op), n)) => if offset < n <= data.len() {
            fold_ops(data, n, f(s, op), f)
        } else {
            Ok((f(s, op), n))
        },
    }
}

/// The last integer seen so far.
pub open spec fn last_int_step(last: Option<i64>, op: PickleOpView) -> Option<i64> {
    match op {
        PickleOpView::Int(v) => Some(v),
        _ => last,
    }
}

/// Keeps the last integer of a stream.
pub open spec fn last_int_fold() -> spec_fn(Option<i64>, PickleOpView) -> Option<i64> {
    |last: Option<i64>, op: PickleOpView| last_int_step(last, op)
}

/// Whether `name` names a tensor class of torch: `torch.` ... `Tensor`.
pub open spec fn is_tensor_class(name: Seq<char>) -> bool {
    has_prefix(name, "torch."@) && has_suffix(name, "Tensor"@)
}

/// The integers of a stream so far, and its last tensor class.
pub open spec fn tensor_record_step(state: (Seq<i64>, Option<Seq<char>>), op: PickleOpView) -> (
    Seq<i64>,
    Option<Seq<char>>,
) {
    match op {
        PickleOpView::Int(v) => (state.0.push(v), state.1),
        PickleOpView::Global(name) => if is_tensor_class(name) {
            (state.0, Some(name))
        } else {
            state
        },
        _ => state,
    }
}

/// Collects the integers and the last tensor class of a stream.
pub open spec fn tensor_record_fold() -> spec_fn((Seq<i64>, Option<Seq<char>>), PickleOpView) -> (
    Seq<i64>,
    Option<Seq<char>>,
) {
    |state: (Seq<i64>, Option<Seq<char>>), op: PickleOpView| tensor_record_step(state, op)
}

/// The stream that starts at `start`, when `start` lies inside the data.
pub open spec fn record_at(data: Seq<u8>, start: int) -> Seq<u8> {
    data.subrange(start, data.len() as int)
}

/// However a stream is folded, the fold ends where the stream ends: at the
/// offset that skipping the stream gives, or with the error that skipping it
/// meets.
pub proof fn lemma_fold_ops_ends_with_stream<S>(
    data: Seq<u8>,
    offset: int,
    s: S,
    f: spec_fn(S, PickleOpView) -> S,
)
    ensures
        match fold_ops(data, offset, s, f) {
            Ok((_, n)) => spec_pickle_end(data, offset) == Ok::<int, ErrorKind>(n),
            Err(k) => spec_pickle_end(data, offset) == Err::<int, ErrorKind>(k),
        },
    decreases data.len() - offset,
{
    if let Ok((Some(op), n)) = spec_next_op(data, offset) {
        if offset < n <= data.len() {
            lemma_fold_ops_ends_with_stream(data, n, f(s, op), f);
        }
    }
}

// ---------------------------------------------------------------------------
// Pickle records

/// Reads the pickle record at `*offset` and keeps its last integer; moves
/// `*offset` past the record.
pub fn read_pickle_int_record(data: &[u8], offset: &mut usize, _description: &str) -> (r: Result<
    i64,
    ModelError,
>)
    ensures
        *old(offset) > data@.len() ==> r == Err::<i64, ModelError>(py_error(ErrorKind::Truncated)),
        *old(offset) <= data@.len() ==> match fold_ops(
            record_at(data@, *old(offset) as int),
            0,
            None,
            last_int_fold(),
        ) {
            Err(k) => r == Err::<i64, ModelError>(py_error(k)),
            Ok((last, n)) => *final(offset) == *old(offset) + n && match last {
                Some(v) => r == Ok::<i64, ModelError>(v),
                None => r == Err::<i64, ModelError>(py_error(ErrorKind::Missing)),
            },
        },
{
    let start = *offset;
    if start > data.len() {
        return Err(invalid(Format::PyTorch, ErrorKind::Truncated));
    }
    let rest = slice_range(data, start, data.len());
    let mut cursor = PickleCursor::new(rest);
    let mut value: Option<i64> = None;
    loop
        invariant
            cursor.data == rest,
            start == *old(offset),
            start <= data@.len(),
            rest@ == record_at(data@, start as int),
            cursor.offset <= rest@.len(),
            start + rest@.len() == data@.len(),
            data@.len() <= usize::MAX,
            fold_ops(rest@, cursor.offset as int, value, last_int_fold()) == fold_ops(
                rest@,
                0,
                None,
                last_int_fold(),
            ),
        decreases rest@.len() - cursor.offset,
    {
        proof {
            lemma_next_op_advances(rest@, cursor.offset as int);
        }
        match cursor.next()? {
            None => {
                *offset = start + cursor.offset;
                return match value {
                    Some(v) => Ok(v),
                    None => Err(invalid(Format::PyTorch, ErrorKind::Missing)),
                };
            },
            Some(op) => {
                if let PickleOp::Int(v) = op {
                    value = Some(v);
                }
            },
        }
    }
}

/// The views of the integers read so far.
pub open spec fn record_state(keys: Seq<i64>, name: Option<String>) -> (Seq<i64>, Option<Seq<char>>) {
    (keys, opt_string_view(name))
}

/// Reads the pickle record of a tensor at `*offset`: its first two integers,
/// the tensor's key and its storage's key, and its last tensor class; moves
/// `*offset` past the record.
pub fn read_legacy_tar_tensor_record(data: &[u8], offset: &mut usize) -> (r: Result<
    (i64, i64, Option<String>),
    ModelError,
>)
    ensures
        *old(offset) > data@.len() ==> (r matches Err(e) && e == py_error(ErrorKind::Truncated)),
        *old(offset) <= data@.len() ==> match fold_ops(
            record_at(data@, *old(offset) as int),
            0,
            (Seq::<i64>::empty(), None::<Seq<char>>),
            tensor_record_fold(),
        ) {
            Err(k) => r matches Err(e) && e == py_error(k),
            Ok((state, n)) => *final(offset) == *old(offset) + n && if state.0.len() < 2 {
                r matches Err(e) && e == py_error(ErrorKind::Missing)
            } else {
                r matches Ok((a, b, name)) && a == state.0[0] && b == state.0[1]
                    && opt_string_view(name) == state.1
            },
        },
{
    let start = *offset;
    if start > data.len() {
        return Err(invalid(Format::PyTorch, ErrorKind::Truncated));
    }
    let rest = slice_range(data, start, data.len());
    let mut cursor = PickleCursor::new(rest);
    let mut keys: Vec<i64> = Vec::new();
    let mut tensor_name: Option<String> = None;
    loop
        invariant
            cursor.data == rest,
            start == *old(offset),
            start <= data@.len(),
            rest@ == record_at(data@, start as int),
            cursor.offset <= rest@.len(),
            start + rest@.len() == data@.len(),
            data@.len() <= usize::MAX,
            fold_ops(
                rest@,
                cursor.offset as int,
                record_state(keys@, tensor_name),
                tensor_record_fold(),
            ) == fold_ops(
                rest@,
                0,
                (Seq::<i64>::empty(), None::<Seq<char>>),
                tensor_record_fold(),
            ),
        decreases rest@.len() - cursor.offset,
    {
        proof {
            lemma_next_op_advances(rest@, cursor.offset as int);
        }
        match cursor.next()? {
            None => {
                *offset = start + cursor.offset;
                if keys.len() < 2 {
                    return Err(invalid(Format::PyTorch, ErrorKind::Missing));
                }
                return Ok((keys[0], keys[1], tensor_name));
            },
            Some(op) => {
                match op {
                    PickleOp::Int(v) => keys.push(v),
                    PickleOp::Global(name) => {
                        if str_starts_with(name.as_str(), "torch.") && str_ends_with(
                            name.as_str(),
                            "Tensor",
                        ) {
                            tensor_name = Some(name);
                        }
                    },
                    _ => {},
                }
            },
        }
    }
}

// ---------------------------------------------------------------------------
// The state dict of a legacy tar archive

/// The state dict entries read so far, and the key and the tensor key that
/// wait for their persistent id.
pub struct EntryState {
    pub entries: Seq<(Seq<char>, i64)>,
    pub key: Option<Seq<char>>,
    pub tensor_key: Option<Seq<char>>,
}

/// One op of the state dict pickle: the first two strings are the entry's key
/// and its tensor key, and a persistent id ends the entry.
pub open spec fn entry_step(s: EntryState, op: PickleOpView) -> Result<EntryState, ErrorKind> {
    match op {
        PickleOpView::Text(v) => if s.key is None {
            Ok(EntryState { key: Some(v), ..s })
        } else if s.tensor_key is None {
            Ok(EntryState { tensor_key: Some(v), ..s })
        } else {
            Ok(s)
        },
        PickleOpView::BinPersid => match s.key {
            None => Err(ErrorKind::Missing),
            Some(k) => match s.tensor_key {
                None => Err(ErrorKind::Missing),
                Some(t) => match parse_i64(t) {
                    None => Err(ErrorKind::InvalidValue),
                    Some(v) => Ok(
                        EntryState { entries: s.entries.push((k, v)), key: None, tensor_key: None },
                    ),
                },
            },
        },
        _ => Ok(s),
    }
}

/// The entries of the state dict pickle from `offset` on, with the state `s`:
/// the first error stops the reading.
pub open spec fn spec_tar_entries_from(data: Seq<u8>, offset: int, s: EntryState) -> Result<
    Seq<(Seq<char>, i64)>,
    ErrorKind,
>
    decreases data.len() - offset,
{
    match spec_next_op(data, offset) {
        Err(e) => Err(e),
        Ok((None, _)) => Ok(s.entries),
        Ok((Some(op), n)) => match entry_step(s, op) {
            Err(e) => Err(e),
            Ok(next) => if offset < n <= data.len() {
                spec_tar_entries_from(data, n, next)
            } else {
                Ok(next.entries)
            },
        },
    }
}

/// The entries of the state dict pickle of a legacy tar archive.
pub open spec fn spec_tar_pickle_entries(data: Seq<u8>) -> Result<Seq<(Seq<char>, i64)>, ErrorKind> {
    spec_tar_entries_from(
        data,
        0,
        EntryState { entries: Seq::empty(), key: None, tensor_key: None },
    )
}

/// The views of state dict entries.
pub open spec fn entry_views(v: Seq<(String, i64)>) -> Seq<(Seq<char>, i64)> {
    v.map_values(|e: (String, i64)| (e.0@, e.1))
}

/// The state dict entries of a legacy tar archive's pickle: each name with
/// the key of its tensor.
pub fn legacy_tar_pickle_entries(data: &[u8]) -> (r: Result<Vec<(String, i64)>, ModelError>)
    ensures
        match spec_tar_pickle_entries(data@) {
            Ok(entries) => r matches Ok(v) && entry_views(v@) == entries,
            Err(k) => r matches Err(e) && e == py_error(k),
        },
{
    let mut cursor = PickleCursor::new(data);
    let mut key: Option<String> = None;
    let mut tensor_key: Option<String> = None;
    let mut entries: Vec<(String, i64)> = Vec::new();
    proof {
        assert(entry_views(entries@) =~= Seq::<(Seq<char>, i64)>::empty());
    }
    loop
        invariant
            cursor.data == data,
            cursor.offset <= data@.len(),
            spec_tar_entries_from(
                data@,
                cursor.offset as int,
                EntryState {
                    entries: entry_views(entries@),
                    key: opt_string_view(key),
                    tensor_key: opt_string_view(tensor_key),
                },
            ) == spec_tar_pickle_entries(data@),
        decreases data@.len() - cursor.offset,
    {
        proof {
            lemma_next_op_advances(data@, cursor.offset as int);
        }
        match cursor.next()? {
            None => return Ok(entries),
            Some(op) => match op {
                PickleOp::Text(value) => {
                    if key.is_none() {
                        key = Some(value);
                    } else if tensor_key.is_none() {
                        tensor_key = Some(value);
                    }
                },
                PickleOp::BinPersid => {
                    let name = match key {
                        Some(k) => k,
                        None => return Err(invalid(Format::PyTorch, ErrorKind::Missing)),
                    };
                    let tensor = match tensor_key {
                        Some(t) => t,
                        None => return Err(invalid(Format::PyTorch, ErrorKind::Missing)),
                    };
                    let value = match parse_i64_exec(tensor.as_str()) {
                        Some(v) => v,
                        None => return Err(invalid(Format::PyTorch, ErrorKind::InvalidValue)),
                    };
                    let ghost before = entries@;
                    entries.push((name, value));
                    key = None;
                    tensor_key = None;
                    proof {
                        assert(entry_views(entries@) =~= entry_views(before).push((name@, value)));
                    }
                },
                _ => {},
            },
        }
    }
}

// ---------------------------------------------------------------------------
// Raw fields

/// Reads the `N` bytes at `*offset` and moves `*offset` past them.
pub fn read_legacy_tar_array<'a, const N: usize>(
    data: &'a [u8],
    offset: &mut usize,
    _description: &str,
) -> (r: Result<&'a [u8], ModelError>)
    ensures
        match spec_advance(data@, *old(offset) as int, N as int) {
            Err(k) => r matches Err(e) && e == py_error(k) && *final(offset) == *old(offset),
            Ok(end) => r matches Ok(bytes) && bytes@ == data@.subrange(*old(offset) as int, end)
                && *final(offset) == end,
        },
{
    let start = *offset;
    let end = match start.checked_add(N) {
        Some(end) => end,
        None => return Err(invalid(Format::PyTorch, ErrorKind::Overflow)),
    };
    if end > data.len() {
        return Err(invalid(Format::PyTorch, ErrorKind::Truncated));
    }
    *offset = end;
    Ok(slice_range(data, start, end))
}

/// Reads the little-endian `i32` at `*offset` and moves `*offset` past it.
pub fn read_legacy_tar_i32(data: &[u8], offset: &mut usize, description: &str) -> (r: Result<
    i32,
    ModelError,
>)
    ensures
        match spec_advance(data@, *old(offset) as int, 4) {
            Err(k) => r == Err::<i32, ModelError>(py_error(k)),
            Ok(end) => r == Ok::<i32, ModelError>(le_u32_at(data@, *old(offset) as int) as i32)
                && *final(offset) == end,
        },
{
    let bytes = read_legacy_tar_array::<4>(data, offset, description)?;
    let v = read_u32(bytes, 0);
    Ok(#[verifier::truncate] (v as i32))
}

/// Reads the little-endian `i64` at `*offset` and moves `*offset` past it.
pub fn read_legacy_tar_i64(data: &[u8], offset: &mut usize, description: &str) -> (r: Result<
    i64,
    ModelError,
>)
    ensures
        match spec_advance(data@, *old(offset) as int, 8) {
            Err(k) => r == Err::<i64, ModelError>(py_error(k)),
            Ok(end) => r == Ok::<i64, ModelError>(le_u64_at(data@, *old(offset) as int) as i64)
                && *final(offset) == end,
        },
{
    let bytes = read_legacy_tar_array::<8>(data, offset, description)?;
    let v = read_u64(bytes, 0);
    Ok(#[verifier::truncate] (v as i64))
}

/// Reads the little-endian `u64` at `*offset` and moves `*offset` past it.
pub fn read_legacy_tar_u64(data: &[u8], offset: &mut usize, description: &str) -> (r: Result<
    u64,
    ModelError,
>)
    ensures
        match spec_advance(data@, *old(offset) as int, 8) {
            Err(k) => r == Err::<u64, ModelError>(py_error(k)),
            Ok(end) => r == Ok::<u64, ModelError>(le_u64_at(data@, *old(offset) as int))
                && *final(offset) == end,
        },
{
    let bytes = read_legacy_tar_array::<8>(data, offset, description)?;
    Ok(read_u64(bytes, 0))
}

/// Skips the `len` bytes at `*offset`.
pub fn skip_legacy_tar_bytes(data: &[u8], offset: &mut usize, len: usize, _description: &str) -> (r:
    Result<(), ModelError>)
    ensures
        match spec_advance(data@, *old(offset) as int, len as int) {
            Err(k) => r == Err::<(), ModelError>(py_error(k)),
            Ok(end) => r == Ok::<(), ModelError>(()) && *final(offset) == end,
        },
{
    let start = *offset;
    let end = match start.checked_add(len) {
        Some(end) => end,
        None => return Err(invalid(Format::PyTorch, ErrorKind::Overflow)),
    };
    if end > data.len() {
        return Err(invalid(Format::PyTorch, ErrorKind::Truncated));
    }
    *offset = end;
    Ok(())
}

// ---------------------------------------------------------------------------
// Tensor sizes

/// The number of elements of a tensor of shape `shape`: an invalid value at
/// the first dimension that is negative or past `usize`, an overflow at the first product past
/// `usize`.
pub open spec fn spec_element_count(shape: Seq<i64>) -> Result<nat, ErrorKind>
    decreases shape.len(),
{
    if shape.len() == 0 {
        Ok(1)
    } else {
        match spec_element_count(shape.drop_last()) {
            Err(e) => Err(e),
            Ok(count) => if shape.last() < 0 || shape.last() > usize::MAX {
                Err(ErrorKind::InvalidValue)
            } else if count * shape.last() > usize::MAX {
                Err(ErrorKind::Overflow)
            } else {
                Ok((count * shape.last()) as nat)
            },
        }
    }
}

/// A dimension of size one changes neither the element count of a shape nor
/// why it has none.
pub proof fn lemma_unit_dimension(shape: Seq<i64>)
    ensures
        spec_element_count(shape.push(1)) == spec_element_count(shape),
{
    assert(shape.push(1).drop_last() =~= shape);
}

/// The byte length of a tensor of shape `shape` with elements of
/// `element_size` bytes.
pub open spec fn spec_byte_len(shape: Seq<i64>, element_size: int) -> Result<nat, ErrorKind> {
    match spec_element_count(shape) {
        Err(e) => Err(e),
        Ok(count) => if count * element_size > usize::MAX {
            Err(ErrorKind::Overflow)
        } else {
            Ok((count * element_size) as nat)
        },
    }
}

/// The byte length of a tensor of shape `shape` with elements of
/// `element_size` bytes.
pub fn checked_byte_len(shape: &[i64], element_size: usize) -> (r: Result<usize, ModelError>)
    ensures
        match spec_byte_len(shape@, element_size as int) {
            Ok(n) => r == Ok::<usize, ModelError>(n as usize),
            Err(k) => r == Err::<usize, ModelError>(py_error(k)),
        },
{
    let mut elements: usize = 1;
    let mut i: usize = 0;
    while i < shape.len()
        invariant
            i <= shape@.len(),
            spec_element_count(shape@.subrange(0, i as int)) == Ok::<nat, ErrorKind>(
                elements as nat,
            ),
        decreases shape@.len() - i,
    {
        let ghost prefix = shape@.subrange(0, i as int + 1);
        proof {
            assert(prefix.drop_last() =~= shape@.subrange(0, i as int));
            assert(prefix.last() == shape@[i as int]);
        }
        let dimension = shape[i];
        if dimension < 0 || dimension as u64 > usize::MAX as u64 {
            assert(spec_element_count(prefix) == Err::<nat, ErrorKind>(ErrorKind::InvalidValue));
            proof {
                lemma_count_error_stays(shape@, i as int + 1);
            }
            return Err(invalid(Format::PyTorch, ErrorKind::InvalidValue));
        }
        let dim = dimension as usize;
        match elements.checked_mul(dim) {
            Some(product) => {
                elements = product;
                assert(spec_element_count(prefix) == Ok::<nat, ErrorKind>(elements as nat));
            },
            None => {
                assert(spec_element_count(prefix) == Err::<nat, ErrorKind>(ErrorKind::Overflow));
                proof {
                    lemma_count_error_stays(shape@, i as int + 1);
                }
                return Err(invalid(Format::PyTorch, ErrorKind::Overflow));
            },
        }
        i = i + 1;
    }
    proof {
        assert(shape@.subrange(0, shape@.len() as int) =~= shape@);
    }
    match elements.checked_mul(element_size) {
        Some(n) => Ok(n),
        None => Err(invalid(Format::PyTorch, ErrorKind::Overflow)),
    }
}

/// Once a prefix of a shape has no element count, the whole shape has none,
/// and for the same reason.
pub proof fn lemma_count_error_stays(shape: Seq<i64>, k: int)
    requires
        0 <= k <= shape.len(),
        spec_element_count(shape.subrange(0, k)) is Err,
    ensures
        spec_element_count(shape) == spec_element_count(shape.subrange(0, k)),
    decreases shape.len() - k,
{
    if k == shape.len() {
        assert(shape.subrange(0, k) =~= shape);
    } else {
        assert(shape.subrange(0, k + 1).drop_last() =~= shape.subrange(0, k));
        lemma_count_error_stays(shape, k + 1);
    }
}

} // verus!
