//! Tensors found by scanning a pickle stream: a storage class, a persistent
//! id, then the integers of the storage offset and of the shape.
use vstd::prelude::*;
use crate::error::{ErrorKind, Format, ModelError, invalid};
use crate::onnx::slice_range;
use crate::pytorch::dtypes::{TensorElementType, spec_storage_element_type, storage_element_type};
use crate::pytorch::legacy::{checked_byte_len, spec_byte_len};
use crate::pytorch::pickle::{
    PickleCursor, PickleOp, PickleOpView, lemma_next_op_advances, skip_pickle, spec_next_op,
    spec_pickle_end,
};
use crate::pytorch::py_error;
use crate::pytorch::detect::{LegacyPickle, TensorPickle, magic_at};
use crate::text::{has_prefix, has_suffix, str_ends_with, str_eq, str_starts_with};

verus! {

// ---------------------------------------------------------------------------
// Folding a stream that may fail at each op

/// Folds `f` over the ops of the stream from `offset` on, starting from `s`;
/// the first error, of the stream or of `f`, ends the fold.
pub open spec fn try_fold_ops<S>(
    data: Seq<u8>,
    offset: int,
    s: S,
    f: spec_fn(S, PickleOpView) -> Result<S, ErrorKind>,
) -> Result<S, ErrorKind>
    decreases data.len() - offset,
{
    match spec_next_op(data, offset) {
        Err(e) => Err(e),
        Ok((None, _)) => Ok(s),
        Ok((Some(op), n)) => match f(s, op) {
            Err(e) => Err(e),
            Ok(t) => if offset < n <= data.len() {
                try_fold_ops(data, n, t, f)
            } else {
                Ok(t)
            },
        },
    }
}

// ---------------------------------------------------------------------------
// Tensors

/// A tensor found in a pickle: its element type and size, its shape and its
/// length in bytes.
#[derive(Debug)]
pub struct LegacyTensor {
    pub element_type: TensorElementType,
    pub element_size: usize,
    pub shape: Vec<i64>,
    pub byte_len: usize,
}

pub struct LegacyTensorView {
    pub element_type: TensorElementType,
    pub element_size: usize,
    pub shape: Seq<i64>,
    pub byte_len: usize,
}

impl View for LegacyTensor {
    type V = LegacyTensorView;

    open spec fn view(&self) -> LegacyTensorView {
        LegacyTensorView {
            element_type: self.element_type,
            element_size: self.element_size,
            shape: self.shape@,
            byte_len: self.byte_len,
        }
    }
}

/// The views of tensors.
pub open spec fn tensor_views(v: Seq<LegacyTensor>) -> Seq<LegacyTensorView> {
    v.map_values(|t: LegacyTensor| t@)
}

/// Whether `name` names a storage class of torch: `torch.` ... `Storage`.
pub open spec fn is_storage_class(name: Seq<char>) -> bool {
    has_prefix(name, "torch."@) && has_suffix(name, "Storage"@)
}

/// Whether `name` names a storage class of torch.
fn is_storage_class_exec(name: &str) -> (r: bool)
    ensures
        r == is_storage_class(name@),
{
    str_starts_with(name, "torch.") && str_ends_with(name, "Storage")
}

/// The tensors with one more, of the storage's type and the shape `shape`:
/// missing without a storage type, or the error of its byte length.
pub open spec fn spec_push_tensor(
    tensors: Seq<LegacyTensorView>,
    storage: Option<(TensorElementType, usize)>,
    shape: Seq<i64>,
) -> Result<Seq<LegacyTensorView>, ErrorKind> {
    match storage {
        None => Err(ErrorKind::Missing),
        Some((t, size)) => match spec_byte_len(shape, size as int) {
            Err(e) => Err(e),
            Ok(n) => Ok(
                tensors.push(
                    LegacyTensorView { element_type: t, element_size: size, shape, byte_len: n as usize },
                ),
            ),
        },
    }
}

/// Adds a tensor of the storage's type and the shape `shape`.
pub fn push_tensor(
    tensors: &mut Vec<LegacyTensor>,
    storage: Option<(TensorElementType, usize)>,
    shape: Vec<i64>,
) -> (r: Result<(), ModelError>)
    ensures
        match spec_push_tensor(tensor_views(old(tensors)@), storage, shape@) {
            Ok(v) => r is Ok && tensor_views(final(tensors)@) == v,
            Err(k) => r == Err::<(), ModelError>(py_error(k)) && final(tensors)@ == old(tensors)@,
        },
{
    let (element_type, element_size) = match storage {
        Some(s) => s,
        None => return Err(invalid(Format::PyTorch, ErrorKind::Missing)),
    };
    let byte_len = checked_byte_len(shape.as_slice(), element_size)?;
    let ghost before = tensor_views(tensors@);
    tensors.push(LegacyTensor { element_type, element_size, shape, byte_len });
    proof {
        assert(tensor_views(tensors@) =~= before.push(tensors@.last()@));
    }
    Ok(())
}

/// The last `k` integers, when there are that many.
pub open spec fn last_ints(ints: Seq<i64>, k: int) -> Option<Seq<i64>> {
    if ints.len() >= k {
        Some(ints.subrange(ints.len() - k, ints.len() as int))
    } else {
        None
    }
}

/// A copy of the last `k` integers.
fn copy_last(ints: &Vec<i64>, k: usize) -> (r: Vec<i64>)
    requires
        k <= ints@.len(),
    ensures
        r@ == ints@.subrange(ints@.len() - k, ints@.len() as int),
{
    let start = ints.len() - k;
    let mut out: Vec<i64> = Vec::new();
    let mut i = start;
    while i < ints.len()
        invariant
            start == ints@.len() - k,
            start <= i <= ints@.len(),
            out@ == ints@.subrange(start as int, i as int),
        decreases ints@.len() - i,
    {
        out.push(ints[i]);
        proof {
            assert(out@ =~= ints@.subrange(start as int, i + 1));
        }
        i = i + 1;
    }
    out
}

/// The number of integers that a fixed-size tuple opcode takes, if `op` is
/// one.
pub open spec fn fixed_tuple_len(op: PickleOpView) -> Option<int> {
    match op {
        PickleOpView::Tuple1 => Some(1),
        PickleOpView::Tuple2 => Some(2),
        PickleOpView::Tuple3 => Some(3),
        _ => None,
    }
}

/// The number of integers that a fixed-size tuple opcode takes, if `op` is
/// one.
fn fixed_tuple_len_exec(op: &PickleOp) -> (r: Option<usize>)
    ensures
        match fixed_tuple_len(op@) {
            Some(k) => r == Some(k as usize),
            None => r is None,
        },
{
    match op {
        PickleOp::Tuple1 => Some(1),
        PickleOp::Tuple2 => Some(2),
        PickleOp::Tuple3 => Some(3),
        _ => None,
    }
}

// ---------------------------------------------------------------------------
// Tensors of a TorchScript data pickle

/// What the scan of a data pickle has seen: the tensors so far, the last
/// storage type, whether a persistent id came after it, whether the storage
/// offset was skipped, and the integers since.
pub struct ScanState {
    pub tensors: Vec<LegacyTensor>,
    pub storage: Option<(TensorElementType, usize)>,
    pub after_storage: bool,
    pub skipped_offset: bool,
    pub tuple_ints: Vec<i64>,
}

pub struct ScanView {
    pub tensors: Seq<LegacyTensorView>,
    pub storage: Option<(TensorElementType, usize)>,
    pub after_storage: bool,
    pub skipped_offset: bool,
    pub tuple_ints: Seq<i64>,
}

impl View for ScanState {
    type V = ScanView;

    open spec fn view(&self) -> ScanView {
        ScanView {
            tensors: tensor_views(self.tensors@),
            storage: self.storage,
            after_storage: self.after_storage,
            skipped_offset: self.skipped_offset,
            tuple_ints: self.tuple_ints@,
        }
    }
}

/// The scan before any op.
pub open spec fn scan_start() -> ScanView {
    ScanView {
        tensors: Seq::empty(),
        storage: None,
        after_storage: false,
        skipped_offset: false,
        tuple_ints: Seq::empty(),
    }
}

/// The scan after a tensor of shape `shape` was added.
pub open spec fn scan_tensor_done(s: ScanView, shape: Seq<i64>) -> Result<ScanView, ErrorKind> {
    match spec_push_tensor(s.tensors, s.storage, shape) {
        Err(e) => Err(e),
        Ok(t) => Ok(ScanView { tensors: t, after_storage: false, tuple_ints: Seq::empty(), ..s }),
    }
}

/// One op of the scan: a storage class sets the storage type, a persistent id
/// after it starts a tensor, the first integer after that is the storage
/// offset and the next ones the shape, which a tuple opcode closes.
pub open spec fn scan_step(s: ScanView, op: PickleOpView) -> Result<ScanView, ErrorKind> {
    match op {
        PickleOpView::Global(name) => if is_storage_class(name) {
            match spec_storage_element_type(name) {
                None => Err(ErrorKind::Unsupported),
                Some(t) => Ok(ScanView { storage: Some(t), ..s }),
            }
        } else {
            Ok(s)
        },
        PickleOpView::BinPersid => if s.storage is Some {
            Ok(ScanView { after_storage: true, skipped_offset: false, tuple_ints: Seq::empty(), ..s })
        } else {
            Ok(s)
        },
        PickleOpView::Int(v) => if s.after_storage {
            if s.skipped_offset {
                Ok(ScanView { tuple_ints: s.tuple_ints.push(v), ..s })
            } else {
                Ok(ScanView { skipped_offset: true, ..s })
            }
        } else {
            Ok(s)
        },
        PickleOpView::Tuple => if s.after_storage && s.skipped_offset {
            scan_tensor_done(s, s.tuple_ints)
        } else {
            Ok(s)
        },
        _ => match fixed_tuple_len(op) {
            Some(k) => if s.after_storage && s.skipped_offset && s.tuple_ints.len() >= k {
                scan_tensor_done(s, last_ints(s.tuple_ints, k).unwrap())
            } else {
                Ok(s)
            },
            None => Ok(s),
        },
    }
}

/// The scan as a fold.
pub open spec fn scan_fold() -> spec_fn(ScanView, PickleOpView) -> Result<ScanView, ErrorKind> {
    |s: ScanView, op: PickleOpView| scan_step(s, op)
}

/// The tensors of a TorchScript data pickle, in order.
pub open spec fn spec_scan_torchscript_tensors(data: Seq<u8>) -> Result<Seq<LegacyTensorView>, ErrorKind> {
    match try_fold_ops(data, 0, scan_start(), scan_fold()) {
        Err(e) => Err(e),
        Ok(s) => Ok(s.tensors),
    }
}

impl ScanState {
    /// Closes the tensor whose shape is `shape`.
    fn tensor_done(&mut self, shape: Vec<i64>) -> (r: Result<(), ModelError>)
        ensures
            match scan_tensor_done(old(self)@, shape@) {
                Ok(t) => r is Ok && final(self)@ == t,
                Err(k) => r == Err::<(), ModelError>(py_error(k)),
            },
    {
        push_tensor(&mut self.tensors, self.storage, shape)?;
        self.after_storage = false;
        self.tuple_ints.clear();
        Ok(())
    }

    /// Applies one op.
    fn step(&mut self, op: PickleOp) -> (r: Result<(), ModelError>)
        ensures
            match scan_step(old(self)@, op@) {
                Ok(t) => r is Ok && final(self)@ == t,
                Err(k) => r == Err::<(), ModelError>(py_error(k)),
            },
    {
        let fixed = fixed_tuple_len_exec(&op);
        match op {
            PickleOp::Global(name) => {
                if is_storage_class_exec(name.as_str()) {
                    self.storage = Some(storage_element_type(name.as_str())?);
                }
                Ok(())
            },
            PickleOp::BinPersid => {
                if self.storage.is_some() {
                    self.after_storage = true;
                    self.skipped_offset = false;
                    self.tuple_ints.clear();
                }
                Ok(())
            },
            PickleOp::Int(v) => {
                if self.after_storage {
                    if self.skipped_offset {
                        self.tuple_ints.push(v);
                    } else {
                        self.skipped_offset = true;
                    }
                }
                Ok(())
            },
            PickleOp::Tuple => {
                if self.after_storage && self.skipped_offset {
                    let mut shape: Vec<i64> = Vec::new();
                    std::mem::swap(&mut shape, &mut self.tuple_ints);
                    self.tensor_done(shape)
                } else {
                    Ok(())
                }
            },
            _ => match fixed {
                Some(k) => {
                    if self.after_storage && self.skipped_offset && self.tuple_ints.len() >= k {
                        let shape = copy_last(&self.tuple_ints, k);
                        self.tensor_done(shape)
                    } else {
                        Ok(())
                    }
                },
                None => Ok(()),
            },
        }
    }
}

/// The tensors of a TorchScript data pickle, in the order of their records.
pub fn scan_torchscript_pickle_tensors(data: &[u8]) -> (r: Result<Vec<LegacyTensor>, ModelError>)
    ensures
        match spec_scan_torchscript_tensors(data@) {
            Ok(v) => r matches Ok(t) && tensor_views(t@) == v,
            Err(k) => r matches Err(e) && e == py_error(k),
        },
{
    let mut cursor = PickleCursor::new(data);
    let mut state = ScanState {
        tensors: Vec::new(),
        storage: None,
        after_storage: false,
        skipped_offset: false,
        tuple_ints: Vec::new(),
    };
    proof {
        assert(tensor_views(state.tensors@) =~= Seq::<LegacyTensorView>::empty());
        assert(state.tuple_ints@ =~= Seq::<i64>::empty());
    }
    loop
        invariant
            cursor.data == data,
            cursor.offset <= data@.len(),
            try_fold_ops(data@, cursor.offset as int, state@, scan_fold()) == try_fold_ops(
                data@,
                0,
                scan_start(),
                scan_fold(),
            ),
        decreases data@.len() - cursor.offset,
    {
        proof {
            lemma_next_op_advances(data@, cursor.offset as int);
        }
        match cursor.next()? {
            None => return Ok(state.tensors),
            Some(op) => {
                state.step(op)?;
            },
        }
    }
}

// ---------------------------------------------------------------------------
// The storage type of a storage pickle

/// The offset past the pickle that starts at `offset`.
pub open spec fn spec_skip_pickle(data: Seq<u8>, offset: int) -> Result<int, ErrorKind> {
    if offset > data.len() {
        Err(ErrorKind::Truncated)
    } else {
        match spec_pickle_end(data.subrange(offset, data.len() as int), 0) {
            Err(e) => Err(e),
            Ok(n) => Ok(offset + n),
        }
    }
}

/// The fourth pickle of `data`: three are skipped, and the bytes of the next
/// one are taken.
pub open spec fn spec_fourth_pickle(data: Seq<u8>) -> Result<Seq<u8>, ErrorKind> {
    match spec_skip_pickle(data, 0) {
        Err(e) => Err(e),
        Ok(a) => match spec_skip_pickle(data, a) {
            Err(e) => Err(e),
            Ok(b) => match spec_skip_pickle(data, b) {
                Err(e) => Err(e),
                Ok(c) => match spec_skip_pickle(data, c) {
                    Err(e) => Err(e),
                    Ok(d) => if c <= d <= data.len() {
                        Ok(data.subrange(c, d))
                    } else {
                        Err(ErrorKind::Truncated)
                    },
                },
            },
        },
    }
}

/// A stream ends inside the data, at or after where it starts.
pub proof fn lemma_pickle_end_bounds(data: Seq<u8>, offset: int)
    requires
        0 <= offset <= data.len(),
    ensures
        spec_pickle_end(data, offset) matches Ok(n) ==> offset <= n <= data.len(),
    decreases data.len() - offset,
{
    lemma_next_op_advances(data, offset);
    if let Ok((Some(_), n)) = spec_next_op(data, offset) {
        if offset < n <= data.len() {
            lemma_pickle_end_bounds(data, n);
        }
    }
}

/// Skips the pickle at `offset`.
fn skip_one(data: &[u8], offset: usize) -> (r: Result<usize, ModelError>)
    ensures
        match spec_skip_pickle(data@, offset as int) {
            Ok(n) => r == Ok::<usize, ModelError>(n as usize) && offset <= n <= data@.len(),
            Err(k) => r matches Err(e) && e == py_error(k),
        },
{
    if offset <= data.len() {
        proof {
            lemma_pickle_end_bounds(data@.subrange(offset as int, data@.len() as int), 0);
        }
    }
    skip_pickle(data, offset)
}

/// The bytes of the fourth pickle of `data`.
pub fn fourth_pickle(data: &[u8]) -> (r: Result<&[u8], ModelError>)
    ensures
        match spec_fourth_pickle(data@) {
            Ok(bytes) => r matches Ok(b) && b@ == bytes,
            Err(k) => r matches Err(e) && e == py_error(k),
        },
{
    let len = data.len();
    let a = skip_one(data, 0)?;
    let b = skip_one(data, a)?;
    let c = skip_one(data, b)?;
    let d = skip_one(data, c)?;
    if c <= d && d <= len {
        Ok(slice_range(data, c, d))
    } else {
        Err(invalid(Format::PyTorch, ErrorKind::Truncated))
    }
}

/// The first storage class named in the stream from `offset` on.
pub open spec fn spec_first_storage_class(data: Seq<u8>, offset: int) -> Result<Option<Seq<char>>, ErrorKind>
    decreases data.len() - offset,
{
    match spec_next_op(data, offset) {
        Err(e) => Err(e),
        Ok((None, _)) => Ok(None),
        Ok((Some(op), n)) => match op {
            PickleOpView::Global(name) if is_storage_class(name) => Ok(Some(name)),
            _ => if offset < n <= data.len() {
                spec_first_storage_class(data, n)
            } else {
                Ok(None)
            },
        },
    }
}

/// The storage type of a storage pickle: the type of the first storage class
/// of its fourth pickle.
pub open spec fn spec_scan_storage_pickle(data: Seq<u8>) -> Result<(TensorElementType, usize), ErrorKind> {
    match spec_fourth_pickle(data) {
        Err(e) => Err(e),
        Ok(object) => match spec_first_storage_class(object, 0) {
            Err(e) => Err(e),
            Ok(None) => Err(ErrorKind::Missing),
            Ok(Some(name)) => match spec_storage_element_type(name) {
                Some(t) => Ok(t),
                None => Err(ErrorKind::Unsupported),
            },
        },
    }
}

/// The element type and size of a storage pickle.
pub fn scan_storage_pickle(data: &[u8]) -> (r: Result<(TensorElementType, usize), ModelError>)
    ensures
        match spec_scan_storage_pickle(data@) {
            Ok(t) => r == Ok::<(TensorElementType, usize), ModelError>(t),
            Err(k) => r matches Err(e) && e == py_error(k),
        },
{
    let object = fourth_pickle(data)?;
    let mut cursor = PickleCursor::new(object);
    loop
        invariant
            cursor.data == object,
            cursor.offset <= object@.len(),
            spec_fourth_pickle(data@) == Ok::<Seq<u8>, ErrorKind>(object@),
            spec_first_storage_class(object@, cursor.offset as int) == spec_first_storage_class(
                object@,
                0,
            ),
        decreases object@.len() - cursor.offset,
    {
        proof {
            lemma_next_op_advances(object@, cursor.offset as int);
        }
        match cursor.next()? {
            None => return Err(invalid(Format::PyTorch, ErrorKind::Missing)),
            Some(op) => {
                if let PickleOp::Global(name) = op {
                    if is_storage_class_exec(name.as_str()) {
                        return storage_element_type(name.as_str());
                    }
                }
            },
        }
    }
}

} // verus!

verus! {

// ---------------------------------------------------------------------------
// The tensor of a legacy tensor pickle

/// What the scan of a tensor pickle has seen: whether a rebuild call came,
/// the storage type after it, whether a persistent id came, whether the
/// storage offset was skipped, the integers since, and the shape.
pub struct TensorScan {
    pub seen_rebuild: bool,
    pub storage: Option<(TensorElementType, usize)>,
    pub after_storage: bool,
    pub skipped_offset: bool,
    pub tuple_ints: Vec<i64>,
    pub shape: Option<Vec<i64>>,
}

pub struct TensorScanView {
    pub seen_rebuild: bool,
    pub storage: Option<(TensorElementType, usize)>,
    pub after_storage: bool,
    pub skipped_offset: bool,
    pub tuple_ints: Seq<i64>,
    pub shape: Option<Seq<i64>>,
}

impl View for TensorScan {
    type V = TensorScanView;

    open spec fn view(&self) -> TensorScanView {
        TensorScanView {
            seen_rebuild: self.seen_rebuild,
            storage: self.storage,
            after_storage: self.after_storage,
            skipped_offset: self.skipped_offset,
            tuple_ints: self.tuple_ints@,
            shape: match self.shape {
                Some(s) => Some(s@),
                None => None,
            },
        }
    }
}

/// The tensor scan before any op.
pub open spec fn tensor_scan_start() -> TensorScanView {
    TensorScanView {
        seen_rebuild: false,
        storage: None,
        after_storage: false,
        skipped_offset: false,
        tuple_ints: Seq::empty(),
        shape: None,
    }
}

/// Whether `name` is one of the rebuild calls of a tensor.
pub open spec fn is_rebuild_tensor(name: Seq<char>) -> bool {
    name == "torch._utils._rebuild_tensor_v2"@ || name == "torch._utils._rebuild_tensor"@
}

/// One op of the tensor scan: after a rebuild call, the first storage class
/// gives the type; after a persistent id, the first integer is the storage
/// offset and the next ones, up to the first tuple that closes them, the
/// shape.
pub open spec fn tensor_scan_step(s: TensorScanView, op: PickleOpView) -> Result<TensorScanView, ErrorKind> {
    let open = s.after_storage && s.shape is None;
    match op {
        PickleOpView::Global(name) => if is_rebuild_tensor(name) {
            Ok(TensorScanView { seen_rebuild: true, ..s })
        } else if s.seen_rebuild && s.storage is None && is_storage_class(name) {
            match spec_storage_element_type(name) {
                None => Err(ErrorKind::Unsupported),
                Some(t) => Ok(TensorScanView { storage: Some(t), ..s }),
            }
        } else {
            Ok(s)
        },
        PickleOpView::BinPersid => if s.seen_rebuild {
            Ok(TensorScanView { after_storage: true, tuple_ints: Seq::empty(), ..s })
        } else {
            Ok(s)
        },
        PickleOpView::Int(v) => if open {
            if s.skipped_offset {
                Ok(TensorScanView { tuple_ints: s.tuple_ints.push(v), ..s })
            } else {
                Ok(TensorScanView { skipped_offset: true, ..s })
            }
        } else {
            Ok(s)
        },
        PickleOpView::Tuple => if open && s.tuple_ints.len() > 0 {
            Ok(TensorScanView { shape: Some(s.tuple_ints), tuple_ints: Seq::empty(), ..s })
        } else {
            Ok(s)
        },
        _ => match fixed_tuple_len(op) {
            Some(k) => if open && s.tuple_ints.len() >= k {
                Ok(
                    TensorScanView {
                        shape: last_ints(s.tuple_ints, k),
                        tuple_ints: Seq::empty(),
                        ..s
                    },
                )
            } else {
                Ok(s)
            },
            None => Ok(s),
        },
    }
}

/// The tensor scan as a fold.
pub open spec fn tensor_scan_fold() -> spec_fn(TensorScanView, PickleOpView) -> Result<
    TensorScanView,
    ErrorKind,
> {
    |s: TensorScanView, op: PickleOpView| tensor_scan_step(s, op)
}

/// The tensor of a legacy tensor pickle: its storage type and shape must
/// both have been seen.
pub open spec fn spec_scan_tensor_pickle(data: Seq<u8>) -> Result<LegacyTensorView, ErrorKind> {
    match try_fold_ops(data, 0, tensor_scan_start(), tensor_scan_fold()) {
        Err(e) => Err(e),
        Ok(s) => tensor_scan_result(s),
    }
}

/// Whether `name` is one of the rebuild calls of a tensor.
fn is_rebuild_tensor_exec(name: &str) -> (r: bool)
    ensures
        r == is_rebuild_tensor(name@),
{
    str_eq(name, "torch._utils._rebuild_tensor_v2") || str_eq(name, "torch._utils._rebuild_tensor")
}

impl TensorScan {
    /// Applies one op.
    fn step(&mut self, op: PickleOp) -> (r: Result<(), ModelError>)
        ensures
            match tensor_scan_step(old(self)@, op@) {
                Ok(t) => r is Ok && final(self)@ == t,
                Err(k) => r == Err::<(), ModelError>(py_error(k)),
            },
    {
        let fixed = fixed_tuple_len_exec(&op);
        let open = self.after_storage && self.shape.is_none();
        match op {
            PickleOp::Global(name) => {
                if is_rebuild_tensor_exec(name.as_str()) {
                    self.seen_rebuild = true;
                } else if self.seen_rebuild && self.storage.is_none() && is_storage_class_exec(
                    name.as_str(),
                ) {
                    self.storage = Some(storage_element_type(name.as_str())?);
                }
                Ok(())
            },
            PickleOp::BinPersid => {
                if self.seen_rebuild {
                    self.after_storage = true;
                    self.tuple_ints.clear();
                }
                Ok(())
            },
            PickleOp::Int(v) => {
                if open {
                    if self.skipped_offset {
                        self.tuple_ints.push(v);
                    } else {
                        self.skipped_offset = true;
                    }
                }
                Ok(())
            },
            PickleOp::Tuple => {
                if open && self.tuple_ints.len() > 0 {
                    let mut shape: Vec<i64> = Vec::new();
                    std::mem::swap(&mut shape, &mut self.tuple_ints);
                    self.shape = Some(shape);
                }
                Ok(())
            },
            _ => {
                if let Some(k) = fixed {
                    if open && self.tuple_ints.len() >= k {
                        let shape = copy_last(&self.tuple_ints, k);
                        self.shape = Some(shape);
                        self.tuple_ints.clear();
                    }
                }
                Ok(())
            },
        }
    }
}

/// The tensor that a finished scan found.
pub open spec fn tensor_scan_result(s: TensorScanView) -> Result<LegacyTensorView, ErrorKind> {
    match s.storage {
        None => Err(ErrorKind::Missing),
        Some((t, size)) => match s.shape {
            None => Err(ErrorKind::Missing),
            Some(shape) => match spec_byte_len(shape, size as int) {
                Err(e) => Err(e),
                Ok(n) => Ok(
                    LegacyTensorView { element_type: t, element_size: size, shape, byte_len: n as usize },
                ),
            },
        },
    }
}

impl TensorScan {
    /// The tensor that the scan found.
    fn finish(self) -> (r: Result<LegacyTensor, ModelError>)
        ensures
            match tensor_scan_result(self@) {
                Ok(v) => r matches Ok(t) && t@ == v,
                Err(k) => r matches Err(e) && e == py_error(k),
            },
    {
        let (element_type, element_size) = match self.storage {
            Some(s) => s,
            None => return Err(invalid(Format::PyTorch, ErrorKind::Missing)),
        };
        let shape = match self.shape {
            Some(s) => s,
            None => return Err(invalid(Format::PyTorch, ErrorKind::Missing)),
        };
        let byte_len = checked_byte_len(shape.as_slice(), element_size)?;
        Ok(LegacyTensor { element_type, element_size, shape, byte_len })
    }
}

/// The tensor of a legacy tensor pickle.
pub fn scan_tensor_pickle(data: &[u8]) -> (r: Result<LegacyTensor, ModelError>)
    ensures
        match spec_scan_tensor_pickle(data@) {
            Ok(v) => r matches Ok(t) && t@ == v,
            Err(k) => r matches Err(e) && e == py_error(k),
        },
{
    let mut cursor = PickleCursor::new(data);
    let mut state = TensorScan {
        seen_rebuild: false,
        storage: None,
        after_storage: false,
        skipped_offset: false,
        tuple_ints: Vec::new(),
        shape: None,
    };
    proof {
        assert(state.tuple_ints@ =~= Seq::<i64>::empty());
    }
    loop
        invariant
            cursor.data == data,
            cursor.offset <= data@.len(),
            try_fold_ops(data@, cursor.offset as int, state@, tensor_scan_fold()) == try_fold_ops(
                data@,
                0,
                tensor_scan_start(),
                tensor_scan_fold(),
            ),
        decreases data@.len() - cursor.offset,
    {
        proof {
            lemma_next_op_advances(data@, cursor.offset as int);
        }
        match cursor.next()? {
            None => return state.finish(),
            Some(op) => {
                state.step(op)?;
            },
        }
    }
}

} // verus!

verus! {

// ---------------------------------------------------------------------------
// The tensors of a tensor pickle

/// What the scan of a tensor pickle has seen: the tensors so far, the storage
/// type of the last storage pickle not yet used, whether one came, whether
/// its offset was skipped, the integers since, and whether a list came first.
pub struct PendingScan {
    pub tensors: Vec<LegacyTensor>,
    pub pending: Option<(TensorElementType, usize)>,
    pub after_storage: bool,
    pub skipped_offset: bool,
    pub tuple_ints: Vec<i64>,
    pub list: bool,
}

pub struct PendingScanView {
    pub tensors: Seq<LegacyTensorView>,
    pub pending: Option<(TensorElementType, usize)>,
    pub after_storage: bool,
    pub skipped_offset: bool,
    pub tuple_ints: Seq<i64>,
    pub list: bool,
}

impl View for PendingScan {
    type V = PendingScanView;

    open spec fn view(&self) -> PendingScanView {
        PendingScanView {
            tensors: tensor_views(self.tensors@),
            pending: self.pending,
            after_storage: self.after_storage,
            skipped_offset: self.skipped_offset,
            tuple_ints: self.tuple_ints@,
            list: self.list,
        }
    }
}

/// The scan before any op.
pub open spec fn pending_scan_start() -> PendingScanView {
    PendingScanView {
        tensors: Seq::empty(),
        pending: None,
        after_storage: false,
        skipped_offset: false,
        tuple_ints: Seq::empty(),
        list: false,
    }
}

/// The scan after a tensor of shape `shape` was added with the pending
/// storage type, which is then used up.
pub open spec fn pending_tensor_done(s: PendingScanView, shape: Seq<i64>) -> Result<PendingScanView, ErrorKind> {
    match spec_push_tensor(s.tensors, s.pending, shape) {
        Err(e) => Err(e),
        Ok(t) => Ok(
            PendingScanView {
                tensors: t,
                pending: None,
                after_storage: false,
                tuple_ints: Seq::empty(),
                ..s
            },
        ),
    }
}

/// One op of the scan: an empty list before any tensor marks a list; bytes
/// that hold a legacy pickle are a storage, whose type is pending; after it
/// the first integer is the storage offset and the next ones the shape, which
/// a tuple opcode closes.
pub open spec fn pending_scan_step(s: PendingScanView, op: PickleOpView) -> Result<PendingScanView, ErrorKind> {
    match op {
        PickleOpView::EmptyList => if s.tensors.len() == 0 && s.pending is None {
            Ok(PendingScanView { list: true, ..s })
        } else {
            Ok(s)
        },
        PickleOpView::Bytes(bytes) => if magic_at(bytes, 0) {
            match spec_scan_storage_pickle(bytes) {
                Err(e) => Err(e),
                Ok(t) => Ok(
                    PendingScanView {
                        pending: Some(t),
                        after_storage: true,
                        skipped_offset: false,
                        tuple_ints: Seq::empty(),
                        ..s
                    },
                ),
            }
        } else {
            Ok(s)
        },
        PickleOpView::Int(v) => if s.after_storage {
            if s.skipped_offset {
                Ok(PendingScanView { tuple_ints: s.tuple_ints.push(v), ..s })
            } else {
                Ok(PendingScanView { skipped_offset: true, ..s })
            }
        } else {
            Ok(s)
        },
        PickleOpView::Tuple => if s.after_storage && s.tuple_ints.len() > 0 {
            pending_tensor_done(s, s.tuple_ints)
        } else {
            Ok(s)
        },
        _ => match fixed_tuple_len(op) {
            Some(k) => if s.after_storage && s.tuple_ints.len() >= k {
                pending_tensor_done(s, last_ints(s.tuple_ints, k).unwrap())
            } else {
                Ok(s)
            },
            None => Ok(s),
        },
    }
}

/// The scan as a fold.
pub open spec fn pending_scan_fold() -> spec_fn(PendingScanView, PickleOpView) -> Result<
    PendingScanView,
    ErrorKind,
> {
    |s: PendingScanView, op: PickleOpView| pending_scan_step(s, op)
}

/// The tensors of a tensor pickle and whether they stand in a list; none
/// when the data holds no legacy magic number or no tensor.
pub open spec fn spec_tensor_pickle(data: Seq<u8>) -> Result<Option<(Seq<LegacyTensorView>, bool)>, ErrorKind> {
    if !(exists|i: int| magic_at(data, i)) {
        Ok(None)
    } else {
        match try_fold_ops(data, 0, pending_scan_start(), pending_scan_fold()) {
            Err(e) => Err(e),
            Ok(s) => if s.tensors.len() == 0 {
                Ok(None)
            } else {
                Ok(Some((s.tensors, s.list)))
            },
        }
    }
}

impl PendingScan {
    /// Closes the tensor whose shape is `shape`.
    fn tensor_done(&mut self, shape: Vec<i64>) -> (r: Result<(), ModelError>)
        ensures
            match pending_tensor_done(old(self)@, shape@) {
                Ok(t) => r is Ok && final(self)@ == t,
                Err(k) => r == Err::<(), ModelError>(py_error(k)),
            },
    {
        let pending = self.pending;
        self.pending = None;
        push_tensor(&mut self.tensors, pending, shape)?;
        self.after_storage = false;
        self.tuple_ints.clear();
        Ok(())
    }

    /// Applies one op.
    fn step(&mut self, op: PickleOp) -> (r: Result<(), ModelError>)
        ensures
            match pending_scan_step(old(self)@, op@) {
                Ok(t) => r is Ok && final(self)@ == t,
                Err(k) => r == Err::<(), ModelError>(py_error(k)),
            },
    {
        let fixed = fixed_tuple_len_exec(&op);
        match op {
            PickleOp::EmptyList => {
                if self.tensors.len() == 0 && self.pending.is_none() {
                    self.list = true;
                }
                Ok(())
            },
            PickleOp::Bytes(bytes) => {
                if LegacyPickle::detect(bytes.as_slice()) {
                    let storage = scan_storage_pickle(bytes.as_slice())?;
                    self.pending = Some(storage);
                    self.after_storage = true;
                    self.skipped_offset = false;
                    self.tuple_ints.clear();
                }
                Ok(())
            },
            PickleOp::Int(v) => {
                if self.after_storage {
                    if self.skipped_offset {
                        self.tuple_ints.push(v);
                    } else {
                        self.skipped_offset = true;
                    }
                }
                Ok(())
            },
            PickleOp::Tuple => {
                if self.after_storage && self.tuple_ints.len() > 0 {
                    let mut shape: Vec<i64> = Vec::new();
                    std::mem::swap(&mut shape, &mut self.tuple_ints);
                    self.tensor_done(shape)
                } else {
                    Ok(())
                }
            },
            _ => match fixed {
                Some(k) => {
                    if self.after_storage && self.tuple_ints.len() >= k {
                        let shape = copy_last(&self.tuple_ints, k);
                        self.tensor_done(shape)
                    } else {
                        Ok(())
                    }
                },
                None => Ok(()),
            },
        }
    }
}

impl TensorPickle {
    /// The tensors of a pickle that holds the legacy magic number; none when
    /// it holds none, or no tensor.
    pub fn read(data: &[u8]) -> (r: Result<Option<Self>, ModelError>)
        ensures
            match spec_tensor_pickle(data@) {
                Ok(None) => r matches Ok(None),
                Ok(Some((tensors, list))) => r matches Ok(Some(p)) && tensor_views(p.tensors@)
                    == tensors && p.list == list,
                Err(k) => r matches Err(e) && e == py_error(k),
            },
    {
        if !TensorPickle::detect(data) {
            return Ok(None);
        }
        let mut cursor = PickleCursor::new(data);
        let mut state = PendingScan {
            tensors: Vec::new(),
            pending: None,
            after_storage: false,
            skipped_offset: false,
            tuple_ints: Vec::new(),
            list: false,
        };
        proof {
            assert(tensor_views(state.tensors@) =~= Seq::<LegacyTensorView>::empty());
            assert(state.tuple_ints@ =~= Seq::<i64>::empty());
        }
        loop
            invariant
                cursor.data == data,
                cursor.offset <= data@.len(),
                exists|i: int| magic_at(data@, i),
                try_fold_ops(data@, cursor.offset as int, state@, pending_scan_fold()) == try_fold_ops(
                    data@,
                    0,
                    pending_scan_start(),
                    pending_scan_fold(),
                ),
            decreases data@.len() - cursor.offset,
        {
            proof {
                lemma_next_op_advances(data@, cursor.offset as int);
            }
            match cursor.next()? {
                None => {
                    if state.tensors.len() == 0 {
                        return Ok(None);
                    }
                    return Ok(Some(TensorPickle { tensors: state.tensors, list: state.list }));
                },
                Some(op) => {
                    state.step(op)?;
                },
            }
        }
    }
}

} // verus!
