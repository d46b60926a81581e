//! The opcodes of a pickle stream, read one at a time.
use vstd::prelude::*;
use vstd::string::StringExecFns;
use crate::error::{ErrorKind, Format, ModelError, invalid};
use crate::le::{le_u16_at, le_u32_at, read_u16, read_u32};
use crate::onnx::slice_range;
use crate::pytorch::py_error;
use crate::text::{spec_utf8, str_eq, utf8_str, utf8_string};

verus! {

/// A pickle opcode, with the value that it carries.
pub enum PickleOp {
    Appends,
    Bytes(Vec<u8>),
    Bool,
    Build,
    EmptyDict,
    EmptyList,
    EmptyTuple,
    Global(String),
    Get(usize),
    Int(i64),
    Mark,
    Memoize,
    NoneValue,
    Put(usize),
    Reduce,
    SetItem,
    SetItems,
    StackGlobal,
    Text(String),
    Tuple,
    Tuple1,
    Tuple2,
    Tuple3,
    BinPersid,
}

pub enum PickleOpView {
    Appends,
    Bytes(Seq<u8>),
    Bool,
    Build,
    EmptyDict,
    EmptyList,
    EmptyTuple,
    Global(Seq<char>),
    Get(usize),
    Int(i64),
    Mark,
    Memoize,
    NoneValue,
    Put(usize),
    Reduce,
    SetItem,
    SetItems,
    StackGlobal,
    Text(Seq<char>),
    Tuple,
    Tuple1,
    Tuple2,
    Tuple3,
    BinPersid,
}

impl View for PickleOp {
    type V = PickleOpView;

    open spec fn view(&self) -> PickleOpView {
        match self {
            PickleOp::Appends => PickleOpView::Appends,
            PickleOp::Bytes(b) => PickleOpView::Bytes(b@),
            PickleOp::Bool => PickleOpView::Bool,
            PickleOp::Build => PickleOpView::Build,
            PickleOp::EmptyDict => PickleOpView::EmptyDict,
            PickleOp::EmptyList => PickleOpView::EmptyList,
            PickleOp::EmptyTuple => PickleOpView::EmptyTuple,
            PickleOp::Global(s) => PickleOpView::Global(s@),
            PickleOp::Get(i) => PickleOpView::Get(*i),
            PickleOp::Int(v) => PickleOpView::Int(*v),
            PickleOp::Mark => PickleOpView::Mark,
            PickleOp::Memoize => PickleOpView::Memoize,
            PickleOp::NoneValue => PickleOpView::NoneValue,
            PickleOp::Put(i) => PickleOpView::Put(*i),
            PickleOp::Reduce => PickleOpView::Reduce,
            PickleOp::SetItem => PickleOpView::SetItem,
            PickleOp::SetItems => PickleOpView::SetItems,
            PickleOp::StackGlobal => PickleOpView::StackGlobal,
            PickleOp::Text(s) => PickleOpView::Text(s@),
            PickleOp::Tuple => PickleOpView::Tuple,
            PickleOp::Tuple1 => PickleOpView::Tuple1,
            PickleOp::Tuple2 => PickleOpView::Tuple2,
            PickleOp::Tuple3 => PickleOpView::Tuple3,
            PickleOp::BinPersid => PickleOpView::BinPersid,
        }
    }
}

// ---------------------------------------------------------------------------
// What the reader reads

/// The offset just past `len` bytes at `offset`: an overflow when it does not
/// fit in `usize`, truncated when it lies past the data.
pub open spec fn spec_advance(data: Seq<u8>, offset: int, len: int) -> Result<int, ErrorKind> {
    if offset + len > usize::MAX {
        Err(ErrorKind::Overflow)
    } else if offset + len > data.len() {
        Err(ErrorKind::Truncated)
    } else {
        Ok(offset + len)
    }
}

/// The byte at `offset` and the offset after it.
pub open spec fn spec_read_byte(data: Seq<u8>, offset: int) -> Result<(u8, int), ErrorKind> {
    if 0 <= offset < data.len() {
        Ok((data[offset], offset + 1))
    } else {
        Err(ErrorKind::Truncated)
    }
}

/// The `len` bytes at `offset` and the offset after them.
pub open spec fn spec_read_bytes(data: Seq<u8>, offset: int, len: int) -> Result<(Seq<u8>, int), ErrorKind> {
    match spec_advance(data, offset, len) {
        Err(e) => Err(e),
        Ok(end) => Ok((data.subrange(offset, end), end)),
    }
}

/// The little-endian `u16` at `offset`.
pub open spec fn spec_read_u16(data: Seq<u8>, offset: int) -> Result<(u16, int), ErrorKind> {
    match spec_advance(data, offset, 2) {
        Err(e) => Err(e),
        Ok(end) => Ok((le_u16_at(data, offset), end)),
    }
}

/// The little-endian `u32` at `offset`.
pub open spec fn spec_read_u32(data: Seq<u8>, offset: int) -> Result<(u32, int), ErrorKind> {
    match spec_advance(data, offset, 4) {
        Err(e) => Err(e),
        Ok(end) => Ok((le_u32_at(data, offset), end)),
    }
}

/// The little-endian `i32` at `offset`.
pub open spec fn spec_read_i32(data: Seq<u8>, offset: int) -> Result<(i32, int), ErrorKind> {
    match spec_read_u32(data, offset) {
        Err(e) => Err(e),
        Ok((v, end)) => Ok((v as i32, end)),
    }
}

/// The UTF-8 string of the `len` bytes at `offset`.
pub open spec fn spec_read_string(data: Seq<u8>, offset: int, len: int) -> Result<(Seq<char>, int), ErrorKind> {
    match spec_read_bytes(data, offset, len) {
        Err(e) => Err(e),
        Ok((bytes, end)) => match spec_utf8(bytes) {
            Some(s) => Ok((s, end)),
            None => Err(ErrorKind::InvalidUtf8),
        },
    }
}

/// The number that little-endian bytes hold, unsigned.
pub open spec fn le_unsigned(bytes: Seq<u8>) -> nat
    decreases bytes.len(),
{
    if bytes.len() == 0 {
        0
    } else {
        (bytes[0] + 256 * le_unsigned(bytes.drop_first())) as nat
    }
}

/// `256` to the power `n`.
pub open spec fn pow256(n: nat) -> nat
    decreases n,
{
    if n == 0 {
        1
    } else {
        256 * pow256((n - 1) as nat)
    }
}

/// The number that little-endian two's complement bytes hold.
pub open spec fn le_signed(bytes: Seq<u8>) -> int {
    if bytes.len() > 0 && bytes.last() >= 0x80 {
        le_unsigned(bytes) - pow256(bytes.len())
    } else {
        le_unsigned(bytes) as int
    }
}

/// A long integer of `len` bytes at `offset`: zero when it has no byte,
/// `None` when it has more than eight.
pub open spec fn spec_read_long(data: Seq<u8>, offset: int, len: int) -> Result<(Option<i64>, int), ErrorKind> {
    match spec_read_bytes(data, offset, len) {
        Err(e) => Err(e),
        Ok((bytes, end)) => if len == 0 {
            Ok((Some(0), end))
        } else if len > 8 {
            Ok((None, end))
        } else {
            Ok((Some(le_signed(bytes) as i64), end))
        },
    }
}

/// The index of the first newline at or after `offset`.
pub open spec fn spec_find_newline(data: Seq<u8>, offset: int) -> Option<int>
    decreases data.len() - offset,
{
    if offset < 0 || offset >= data.len() {
        None
    } else if data[offset] == 0x0a {
        Some(offset)
    } else {
        spec_find_newline(data, offset + 1)
    }
}

/// The UTF-8 line that starts at `offset` and the offset past its newline.
pub open spec fn spec_read_line(data: Seq<u8>, offset: int) -> Result<(Seq<char>, int), ErrorKind> {
    match spec_find_newline(data, offset) {
        None => Err(ErrorKind::Unterminated),
        Some(end) => match spec_utf8(data.subrange(offset, end)) {
            Some(s) => Ok((s, end + 1)),
            None => Err(ErrorKind::InvalidUtf8),
        },
    }
}

proof fn lemma_find_newline_bounds(data: Seq<u8>, offset: int)
    requires
        0 <= offset,
    ensures
        spec_find_newline(data, offset) matches Some(i) ==> offset <= i < data.len() && data[i]
            == 0x0a,
    decreases data.len() - offset,
{
    if 0 <= offset < data.len() && data[offset] != 0x0a {
        lemma_find_newline_bounds(data, offset + 1);
    }
}

/// Finds the first newline at or after `offset`.
pub fn find_newline(data: &[u8], offset: usize) -> (r: Option<usize>)
    ensures
        match spec_find_newline(data@, offset as int) {
            Some(i) => r == Some(i as usize) && offset <= i < data@.len() && data@[i] == 0x0a,
            None => r is None,
        },
{
    proof {
        lemma_find_newline_bounds(data@, offset as int);
    }
    let mut i = offset;
    while i < data.len()
        invariant
            offset <= i,
            spec_find_newline(data@, i as int) == spec_find_newline(data@, offset as int),
        decreases data@.len() - i,
    {
        if data[i] == 0x0a {
            return Some(i);
        }
        i = i + 1;
    }
    None
}

// ---------------------------------------------------------------------------
// The cursor

/// Reads a pickle stream from `offset` on.
pub struct PickleCursor<'a> {
    pub data: &'a [u8],
    pub offset: usize,
}

impl<'a> PickleCursor<'a> {
    /// A cursor at the start of `data`.
    pub fn new(data: &'a [u8]) -> (r: Self)
        ensures
            r.data == data,
            r.offset == 0,
    {
        PickleCursor { data, offset: 0 }
    }

    /// Reads a byte.
    pub fn byte(&mut self) -> (r: Result<u8, ModelError>)
        ensures
            final(self).data == old(self).data,
            match spec_read_byte(old(self).data@, old(self).offset as int) {
                Err(k) => r == Err::<u8, ModelError>(py_error(k)),
                Ok((v, end)) => r == Ok::<u8, ModelError>(v) && final(self).offset == end,
            },
    {
        if self.offset >= self.data.len() {
            return Err(invalid(Format::PyTorch, ErrorKind::Truncated));
        }
        let value = self.data[self.offset];
        self.offset = self.offset + 1;
        Ok(value)
    }

    /// Reads a byte as an unsigned number.
    pub fn u8(&mut self) -> (r: Result<u8, ModelError>)
        ensures
            final(self).data == old(self).data,
            match spec_read_byte(old(self).data@, old(self).offset as int) {
                Err(k) => r == Err::<u8, ModelError>(py_error(k)),
                Ok((v, end)) => r == Ok::<u8, ModelError>(v) && final(self).offset == end,
            },
    {
        self.byte()
    }

    /// Reads `len` bytes.
    pub fn bytes(&mut self, len: usize) -> (r: Result<&'a [u8], ModelError>)
        ensures
            final(self).data == old(self).data,
            match spec_read_bytes(old(self).data@, old(self).offset as int, len as int) {
                Err(k) => r == Err::<&'a [u8], ModelError>(py_error(k)),
                Ok((bytes, end)) => r matches Ok(b) && b@ == bytes && final(self).offset == end,
            },
    {
        let end = match self.offset.checked_add(len) {
            Some(end) => end,
            None => return Err(invalid(Format::PyTorch, ErrorKind::Overflow)),
        };
        if end > self.data.len() {
            return Err(invalid(Format::PyTorch, ErrorKind::Truncated));
        }
        let bytes = slice_range(self.data, self.offset, end);
        self.offset = end;
        Ok(bytes)
    }

    /// Skips `len` bytes.
    pub fn skip(&mut self, len: usize) -> (r: Result<(), ModelError>)
        ensures
            final(self).data == old(self).data,
            match spec_advance(old(self).data@, old(self).offset as int, len as int) {
                Err(k) => r == Err::<(), ModelError>(py_error(k)),
                Ok(end) => r is Ok && final(self).offset == end,
            },
    {
        match self.bytes(len) {
            Ok(_) => Ok(()),
            Err(e) => Err(e),
        }
    }

    /// Reads a little-endian `u16`.
    pub fn u16(&mut self) -> (r: Result<u16, ModelError>)
        ensures
            final(self).data == old(self).data,
            match spec_read_u16(old(self).data@, old(self).offset as int) {
                Err(k) => r == Err::<u16, ModelError>(py_error(k)),
                Ok((v, end)) => r == Ok::<u16, ModelError>(v) && final(self).offset == end,
            },
    {
        let start = self.offset;
        let bytes = self.bytes(2)?;
        proof {
            assert(le_u16_at(bytes@, 0) == le_u16_at(self.data@, start as int));
        }
        Ok(read_u16(bytes, 0))
    }

    /// Reads a little-endian `u32`.
    pub fn u32(&mut self) -> (r: Result<u32, ModelError>)
        ensures
            final(self).data == old(self).data,
            match spec_read_u32(old(self).data@, old(self).offset as int) {
                Err(k) => r == Err::<u32, ModelError>(py_error(k)),
                Ok((v, end)) => r == Ok::<u32, ModelError>(v) && final(self).offset == end,
            },
    {
        let start = self.offset;
        let bytes = self.bytes(4)?;
        proof {
            assert(le_u32_at(bytes@, 0) == le_u32_at(self.data@, start as int));
        }
        Ok(read_u32(bytes, 0))
    }

    /// Reads a little-endian `i32`.
    pub fn i32(&mut self) -> (r: Result<i32, ModelError>)
        ensures
            final(self).data == old(self).data,
            match spec_read_i32(old(self).data@, old(self).offset as int) {
                Err(k) => r == Err::<i32, ModelError>(py_error(k)),
                Ok((v, end)) => r == Ok::<i32, ModelError>(v) && final(self).offset == end,
            },
    {
        let v = self.u32()?;
        Ok(#[verifier::truncate] (v as i32))
    }

    /// Reads a UTF-8 string of `len` bytes.
    pub fn string(&mut self, len: usize) -> (r: Result<String, ModelError>)
        ensures
            final(self).data == old(self).data,
            match spec_read_string(old(self).data@, old(self).offset as int, len as int) {
                Err(k) => r matches Err(e) && e == py_error(k),
                Ok((s, end)) => r matches Ok(x) && x@ == s && final(self).offset == end,
            },
    {
        let bytes = self.bytes(len)?;
        match utf8_string(bytes) {
            Some(s) => Ok(s),
            None => Err(invalid(Format::PyTorch, ErrorKind::InvalidUtf8)),
        }
    }

    /// Reads a UTF-8 line ended by a newline, and steps past the newline.
    pub fn line(&mut self) -> (r: Result<&'a str, ModelError>)
        ensures
            final(self).data == old(self).data,
            match spec_read_line(old(self).data@, old(self).offset as int) {
                Err(k) => r matches Err(e) && e == py_error(k),
                Ok((s, end)) => r matches Ok(x) && x@ == s && final(self).offset == end,
            },
    {
        let end = match find_newline(self.data, self.offset) {
            Some(end) => end,
            None => return Err(invalid(Format::PyTorch, ErrorKind::Unterminated)),
        };
        let len = self.data.len();
        let bytes = slice_range(self.data, self.offset, end);
        self.offset = end + 1;
        match utf8_str(bytes) {
            Some(s) => Ok(s),
            None => Err(invalid(Format::PyTorch, ErrorKind::InvalidUtf8)),
        }
    }

    /// Reads a little-endian two's complement integer of `len` bytes: zero
    /// for no byte, `None` for more than eight.
    pub fn long_i64(&mut self, len: usize) -> (r: Result<Option<i64>, ModelError>)
        ensures
            final(self).data == old(self).data,
            match spec_read_long(old(self).data@, old(self).offset as int, len as int) {
                Err(k) => r == Err::<Option<i64>, ModelError>(py_error(k)),
                Ok((v, end)) => r == Ok::<Option<i64>, ModelError>(v) && final(self).offset == end,
            },
    {
        let bytes = self.bytes(len)?;
        if len == 0 {
            return Ok(Some(0));
        }
        if len > 8 {
            return Ok(None);
        }
        let value = le_unsigned_exec(bytes);
        let modulus = pow256_exec(len);
        proof {
            lemma_pow256_mono(len as nat, 8);
            reveal_with_fuel(pow256, 9);
        }
        if bytes[len - 1] >= 0x80 {
            Ok(Some(#[verifier::truncate] ((value as i128 - #[verifier::truncate] (modulus as i128)) as i64)))
        } else {
            Ok(Some(#[verifier::truncate] (value as i64)))
        }
    }
}

proof fn lemma_le_unsigned_step(s: Seq<u8>, i: int)
    requires
        0 < i <= s.len(),
    ensures
        le_unsigned(s.subrange(i - 1, s.len() as int)) == s[i - 1] + 256 * le_unsigned(
            s.subrange(i, s.len() as int),
        ),
{
    assert(s.subrange(i - 1, s.len() as int).drop_first() =~= s.subrange(i, s.len() as int));
}

/// The unsigned number that at most eight little-endian bytes hold.
fn le_unsigned_exec(bytes: &[u8]) -> (r: u64)
    requires
        bytes@.len() <= 8,
    ensures
        r == le_unsigned(bytes@),
{
    let len = bytes.len();
    let mut value: u64 = 0;
    let mut i = len;
    proof {
        assert(bytes@.subrange(len as int, len as int) =~= Seq::<u8>::empty());
        reveal_with_fuel(pow256, 9);
    }
    while i > 0
        invariant
            len == bytes@.len() <= 8,
            i <= len,
            value == le_unsigned(bytes@.subrange(i as int, len as int)),
            value < pow256((len - i) as nat),
            pow256((len - i) as nat) <= pow256(8),
            pow256(8) == 0x1_0000_0000_0000_0000,
        decreases i,
    {
        proof {
            lemma_le_unsigned_step(bytes@, i as int);
            lemma_pow256_mono((len - i + 1) as nat, 8);
        }
        i = i - 1;
        assert(value < pow256((len - i - 1) as nat));
        assert(pow256((len - i) as nat) == 256 * pow256((len - i - 1) as nat));
        value = value * 256 + bytes[i] as u64;
    }
    proof {
        assert(bytes@.subrange(0, len as int) =~= bytes@);
    }
    value
}

proof fn lemma_pow256_mono(a: nat, b: nat)
    requires
        a <= b,
    ensures
        pow256(a) <= pow256(b),
    decreases b,
{
    if a < b {
        lemma_pow256_mono(a, (b - 1) as nat);
    }
}

/// `256` to the power `n`, for at most eight.
fn pow256_exec(n: usize) -> (r: u128)
    requires
        n <= 8,
    ensures
        r == pow256(n as nat),
{
    let mut r: u128 = 1;
    let mut i: usize = 0;
    proof {
        reveal_with_fuel(pow256, 9);
    }
    while i < n
        invariant
            i <= n <= 8,
            r == pow256(i as nat),
            pow256(8) == 0x1_0000_0000_0000_0000,
        decreases n - i,
    {
        proof {
            lemma_pow256_mono((i + 1) as nat, 8);
        }
        r = r * 256;
        i = i + 1;
    }
    r
}

// ---------------------------------------------------------------------------
// One opcode

/// What the opcode at an offset does: ends the stream, is skipped, gives an
/// op, or fails; with the offset after it.
pub enum OpStepView {
    End(int),
    Skip(int),
    Op(PickleOpView, int),
    Fail(ErrorKind),
}

/// Skips to `r`'s offset, or fails with its error.
pub open spec fn skip_to(r: Result<int, ErrorKind>) -> OpStepView {
    match r {
        Ok(end) => OpStepView::Skip(end),
        Err(e) => OpStepView::Fail(e),
    }
}

/// The bytes op of `len` bytes at `offset`.
pub open spec fn bytes_op(data: Seq<u8>, offset: int, len: int) -> OpStepView {
    match spec_read_bytes(data, offset, len) {
        Ok((b, end)) => OpStepView::Op(PickleOpView::Bytes(b), end),
        Err(e) => OpStepView::Fail(e),
    }
}

/// The string op of `len` bytes at `offset`.
pub open spec fn string_op(data: Seq<u8>, offset: int, len: int) -> OpStepView {
    match spec_read_string(data, offset, len) {
        Ok((s, end)) => OpStepView::Op(PickleOpView::Text(s), end),
        Err(e) => OpStepView::Fail(e),
    }
}

/// The integer op of a long of `len` bytes at `offset`; skipped when it is too
/// long.
pub open spec fn long_op(data: Seq<u8>, offset: int, len: int) -> OpStepView {
    match spec_read_long(data, offset, len) {
        Ok((Some(v), end)) => OpStepView::Op(PickleOpView::Int(v), end),
        Ok((None, end)) => OpStepView::Skip(end),
        Err(e) => OpStepView::Fail(e),
    }
}

/// An op that a byte-long argument at `offset` completes.
pub open spec fn u8_op(data: Seq<u8>, offset: int, op: spec_fn(u8) -> PickleOpView) -> OpStepView {
    match spec_read_byte(data, offset) {
        Ok((v, end)) => OpStepView::Op(op(v), end),
        Err(e) => OpStepView::Fail(e),
    }
}

/// An op that a four-byte argument at `offset` completes.
pub open spec fn u32_op(data: Seq<u8>, offset: int, op: spec_fn(u32) -> PickleOpView) -> OpStepView {
    match spec_read_u32(data, offset) {
        Ok((v, end)) => OpStepView::Op(op(v), end),
        Err(e) => OpStepView::Fail(e),
    }
}

/// An op without argument.
pub open spec fn plain_op(op: PickleOpView, offset: int) -> OpStepView {
    OpStepView::Op(op, offset)
}

/// The global op: a module line, then a name line, named `module.name`.
pub open spec fn global_op(data: Seq<u8>, offset: int) -> OpStepView {
    match spec_read_line(data, offset) {
        Err(e) => OpStepView::Fail(e),
        Ok((module, after_module)) => match spec_read_line(data, after_module) {
            Err(e) => OpStepView::Fail(e),
            Ok((name, end)) => OpStepView::Op(PickleOpView::Global(module + "."@ + name), end),
        },
    }
}

/// What the opcode at `offset` does.
#[verifier::opaque]
pub open spec fn spec_op_at(data: Seq<u8>, offset: int) -> OpStepView {
    let c = data[offset];
    let p = offset + 1;
    if c == 0x2e {
        OpStepView::End(p)
    } else if c == 0x80 {
        skip_to(spec_advance(data, p, 1))
    } else if c == 0x95 || c == 0x47 {
        skip_to(spec_advance(data, p, 8))
    } else if c == 0x63 {
        global_op(data, p)
    } else if c == 0x42 {
        match spec_read_u32(data, p) {
            Ok((len, q)) => bytes_op(data, q, len as int),
            Err(e) => OpStepView::Fail(e),
        }
    } else if c == 0x43 {
        match spec_read_byte(data, p) {
            Ok((len, q)) => bytes_op(data, q, len as int),
            Err(e) => OpStepView::Fail(e),
        }
    } else if c == 0x4a {
        match spec_read_i32(data, p) {
            Ok((v, q)) => OpStepView::Op(PickleOpView::Int(v as i64), q),
            Err(e) => OpStepView::Fail(e),
        }
    } else if c == 0x4b {
        u8_op(data, p, |v: u8| PickleOpView::Int(v as i64))
    } else if c == 0x4d {
        match spec_read_u16(data, p) {
            Ok((v, q)) => OpStepView::Op(PickleOpView::Int(v as i64), q),
            Err(e) => OpStepView::Fail(e),
        }
    } else if c == 0x58 || c == 0x54 {
        match spec_read_u32(data, p) {
            Ok((len, q)) => string_op(data, q, len as int),
            Err(e) => OpStepView::Fail(e),
        }
    } else if c == 0x55 || c == 0x8c {
        match spec_read_byte(data, p) {
            Ok((len, q)) => string_op(data, q, len as int),
            Err(e) => OpStepView::Fail(e),
        }
    } else if c == 0x8a {
        match spec_read_byte(data, p) {
            Ok((len, q)) => long_op(data, q, len as int),
            Err(e) => OpStepView::Fail(e),
        }
    } else if c == 0x8b {
        match spec_read_u32(data, p) {
            Ok((len, q)) => long_op(data, q, len as int),
            Err(e) => OpStepView::Fail(e),
        }
    } else if c == 0x74 {
        plain_op(PickleOpView::Tuple, p)
    } else if c == 0x85 {
        plain_op(PickleOpView::Tuple1, p)
    } else if c == 0x86 {
        plain_op(PickleOpView::Tuple2, p)
    } else if c == 0x87 {
        plain_op(PickleOpView::Tuple3, p)
    } else if c == 0x51 {
        plain_op(PickleOpView::BinPersid, p)
    } else if c == 0x29 {
        plain_op(PickleOpView::EmptyTuple, p)
    } else if c == 0x5d {
        plain_op(PickleOpView::EmptyList, p)
    } else if c == 0x7d {
        plain_op(PickleOpView::EmptyDict, p)
    } else if c == 0x28 {
        plain_op(PickleOpView::Mark, p)
    } else if c == 0x4e {
        plain_op(PickleOpView::NoneValue, p)
    } else if c == 0x52 {
        plain_op(PickleOpView::Reduce, p)
    } else if c == 0x62 {
        plain_op(PickleOpView::Build, p)
    } else if c == 0x75 {
        plain_op(PickleOpView::SetItems, p)
    } else if c == 0x73 {
        plain_op(PickleOpView::SetItem, p)
    } else if c == 0x65 {
        plain_op(PickleOpView::Appends, p)
    } else if c == 0x71 {
        u8_op(data, p, |v: u8| PickleOpView::Put(v as usize))
    } else if c == 0x68 {
        u8_op(data, p, |v: u8| PickleOpView::Get(v as usize))
    } else if c == 0x72 {
        u32_op(data, p, |v: u32| PickleOpView::Put(v as usize))
    } else if c == 0x6a {
        u32_op(data, p, |v: u32| PickleOpView::Get(v as usize))
    } else if c == 0x88 || c == 0x89 {
        plain_op(PickleOpView::Bool, p)
    } else if c == 0x93 {
        plain_op(PickleOpView::StackGlobal, p)
    } else if c == 0x94 {
        plain_op(PickleOpView::Memoize, p)
    } else if c == 0x81 || c == 0x61 || c == 0x6f {
        OpStepView::Skip(p)
    } else {
        OpStepView::Fail(ErrorKind::UnsupportedOpcode)
    }
}

/// The offset that a step ends at, when it does not fail.
pub open spec fn step_end(s: OpStepView) -> Option<int> {
    match s {
        OpStepView::End(n) => Some(n),
        OpStepView::Skip(n) => Some(n),
        OpStepView::Op(_, n) => Some(n),
        OpStepView::Fail(_) => None,
    }
}

proof fn lemma_read_line_advances(data: Seq<u8>, offset: int)
    requires
        0 <= offset,
    ensures
        spec_read_line(data, offset) matches Ok((_, end)) ==> offset < end <= data.len(),
{
    lemma_find_newline_bounds(data, offset);
}

/// Each step that does not fail moves past the opcode and stays inside the
/// data.
#[verifier::rlimit(50)]
pub proof fn lemma_op_at_advances(data: Seq<u8>, offset: int)
    requires
        0 <= offset < data.len(),
    ensures
        step_end(spec_op_at(data, offset)) matches Some(n) ==> offset < n <= data.len(),
{
    reveal(spec_op_at);
    lemma_read_line_advances(data, offset + 1);
    if let Ok((_, q)) = spec_read_line(data, offset + 1) {
        lemma_read_line_advances(data, q);
    }
}

/// An opcode, read by the exec reader.
enum Step {
    End,
    Skip,
    Op(PickleOp),
}

/// Whether `r` is what the step `s` describes, the cursor having moved to
/// `offset` afterwards.
spec fn step_matches(r: Result<Step, ModelError>, s: OpStepView, offset: int) -> bool {
    match s {
        OpStepView::End(n) => r matches Ok(Step::End) && offset == n,
        OpStepView::Skip(n) => r matches Ok(Step::Skip) && offset == n,
        OpStepView::Op(op, n) => r matches Ok(Step::Op(o)) && o@ == op && offset == n,
        OpStepView::Fail(k) => r matches Err(e) && e == py_error(k),
    }
}

impl<'a> PickleCursor<'a> {
    /// Reads a string op whose length is `len`.
    fn string_step(&mut self, len: usize) -> (r: Result<Step, ModelError>)
        ensures
            final(self).data == old(self).data,
            step_matches(r, string_op(old(self).data@, old(self).offset as int, len as int), final(self).offset as int),
    {
        let s = self.string(len)?;
        Ok(Step::Op(PickleOp::Text(s)))
    }

    /// Reads a bytes op whose length is `len`.
    fn bytes_step(&mut self, len: usize) -> (r: Result<Step, ModelError>)
        ensures
            final(self).data == old(self).data,
            step_matches(r, bytes_op(old(self).data@, old(self).offset as int, len as int), final(self).offset as int),
    {
        let b = self.bytes(len)?;
        Ok(Step::Op(PickleOp::Bytes(vstd::slice::slice_to_vec(b))))
    }

    /// Reads a long integer op whose length is `len`.
    fn long_step(&mut self, len: usize) -> (r: Result<Step, ModelError>)
        ensures
            final(self).data == old(self).data,
            step_matches(r, long_op(old(self).data@, old(self).offset as int, len as int), final(self).offset as int),
    {
        match self.long_i64(len)? {
            Some(v) => Ok(Step::Op(PickleOp::Int(v))),
            None => Ok(Step::Skip),
        }
    }

    /// Reads a global op: a module line and a name line.
    fn global_step(&mut self) -> (r: Result<Step, ModelError>)
        ensures
            final(self).data == old(self).data,
            step_matches(r, global_op(old(self).data@, old(self).offset as int), final(self).offset as int),
    {
        let module = self.line()?;
        let name = self.line()?;
        let mut global = String::from_str(module);
        global.append(".");
        global.append(name);
        Ok(Step::Op(PickleOp::Global(global)))
    }

    /// Reads the opcode at the cursor, with its argument.
    fn step(&mut self) -> (r: Result<Step, ModelError>)
        requires
            old(self).offset < old(self).data@.len(),
        ensures
            final(self).data == old(self).data,
            step_matches(r, spec_op_at(old(self).data@, old(self).offset as int), final(self).offset as int),
    {
        proof {
            reveal(spec_op_at);
        }
        let opcode = self.byte()?;
        if opcode == 0x2e {
            Ok(Step::End)
        } else if opcode == 0x80 {
            self.skip(1)?;
            Ok(Step::Skip)
        } else if opcode == 0x95 || opcode == 0x47 {
            self.skip(8)?;
            Ok(Step::Skip)
        } else if opcode == 0x63 {
            self.global_step()
        } else if opcode == 0x42 {
            let len = self.u32()? as usize;
            self.bytes_step(len)
        } else if opcode == 0x43 {
            let len = self.u8()? as usize;
            self.bytes_step(len)
        } else if opcode == 0x4a {
            Ok(Step::Op(PickleOp::Int(self.i32()? as i64)))
        } else if opcode == 0x4b {
            Ok(Step::Op(PickleOp::Int(self.u8()? as i64)))
        } else if opcode == 0x4d {
            Ok(Step::Op(PickleOp::Int(self.u16()? as i64)))
        } else if opcode == 0x58 || opcode == 0x54 {
            let len = self.u32()? as usize;
            self.string_step(len)
        } else if opcode == 0x55 || opcode == 0x8c {
            let len = self.u8()? as usize;
            self.string_step(len)
        } else if opcode == 0x8a {
            let len = self.u8()? as usize;
            self.long_step(len)
        } else if opcode == 0x8b {
            let len = self.u32()? as usize;
            self.long_step(len)
        } else if opcode == 0x74 {
            Ok(Step::Op(PickleOp::Tuple))
        } else if opcode == 0x85 {
            Ok(Step::Op(PickleOp::Tuple1))
        } else if opcode == 0x86 {
            Ok(Step::Op(PickleOp::Tuple2))
        } else if opcode == 0x87 {
            Ok(Step::Op(PickleOp::Tuple3))
        } else if opcode == 0x51 {
            Ok(Step::Op(PickleOp::BinPersid))
        } else if opcode == 0x29 {
            Ok(Step::Op(PickleOp::EmptyTuple))
        } else if opcode == 0x5d {
            Ok(Step::Op(PickleOp::EmptyList))
        } else if opcode == 0x7d {
            Ok(Step::Op(PickleOp::EmptyDict))
        } else if opcode == 0x28 {
            Ok(Step::Op(PickleOp::Mark))
        } else if opcode == 0x4e {
            Ok(Step::Op(PickleOp::NoneValue))
        } else if opcode == 0x52 {
            Ok(Step::Op(PickleOp::Reduce))
        } else if opcode == 0x62 {
            Ok(Step::Op(PickleOp::Build))
        } else if opcode == 0x75 {
            Ok(Step::Op(PickleOp::SetItems))
        } else if opcode == 0x73 {
            Ok(Step::Op(PickleOp::SetItem))
        } else if opcode == 0x65 {
            Ok(Step::Op(PickleOp::Appends))
        } else if opcode == 0x71 {
            Ok(Step::Op(PickleOp::Put(self.u8()? as usize)))
        } else if opcode == 0x68 {
            Ok(Step::Op(PickleOp::Get(self.u8()? as usize)))
        } else if opcode == 0x72 {
            Ok(Step::Op(PickleOp::Put(self.u32()? as usize)))
        } else if opcode == 0x6a {
            Ok(Step::Op(PickleOp::Get(self.u32()? as usize)))
        } else if opcode == 0x88 || opcode == 0x89 {
            Ok(Step::Op(PickleOp::Bool))
        } else if opcode == 0x93 {
            Ok(Step::Op(PickleOp::StackGlobal))
        } else if opcode == 0x94 {
            Ok(Step::Op(PickleOp::Memoize))
        } else if opcode == 0x81 || opcode == 0x61 || opcode == 0x6f {
            Ok(Step::Skip)
        } else {
            Err(invalid(Format::PyTorch, ErrorKind::UnsupportedOpcode))
        }
    }
}

// ---------------------------------------------------------------------------
// The stream

/// The next op from `offset` on, skipping what the reader skips, and the
/// offset after it; `None` at a stop opcode or at the end of the data.
pub open spec fn spec_next_op(data: Seq<u8>, offset: int) -> Result<(Option<PickleOpView>, int), ErrorKind>
    decreases data.len() - offset,
{
    if offset < 0 || offset >= data.len() {
        Ok((None, offset))
    } else {
        match spec_op_at(data, offset) {
            OpStepView::End(n) => Ok((None, n)),
            OpStepView::Fail(e) => Err(e),
            OpStepView::Op(op, n) => Ok((Some(op), n)),
            OpStepView::Skip(n) => if offset < n <= data.len() {
                spec_next_op(data, n)
            } else {
                Ok((None, n))
            },
        }
    }
}

/// An op moves the reader forward and keeps it inside the data.
pub proof fn lemma_next_op_advances(data: Seq<u8>, offset: int)
    requires
        0 <= offset <= data.len(),
    ensures
        spec_next_op(data, offset) matches Ok((Some(_), n)) ==> offset < n <= data.len(),
        spec_next_op(data, offset) matches Ok((None, n)) ==> offset <= n <= data.len(),
    decreases data.len() - offset,
{
    if offset < data.len() {
        lemma_op_at_advances(data, offset);
        if let OpStepView::Skip(n) = spec_op_at(data, offset) {
            lemma_next_op_advances(data, n);
        }
    }
}

impl<'a> PickleCursor<'a> {
    /// Reads the next op, skipping the opcodes that carry nothing for the
    /// reader; `None` at a stop opcode or at the end of the data.
    pub fn next(&mut self) -> (r: Result<Option<PickleOp>, ModelError>)
        ensures
            final(self).data == old(self).data,
            match spec_next_op(old(self).data@, old(self).offset as int) {
                Err(k) => r matches Err(e) && e == py_error(k),
                Ok((None, n)) => r matches Ok(None) && final(self).offset == n,
                Ok((Some(op), n)) => r matches Ok(Some(o)) && o@ == op && final(self).offset == n,
            },
    {
        let ghost start = self.offset as int;
        let ghost data = self.data@;
        while self.offset < self.data.len()
            invariant
                self.data == old(self).data,
                data == self.data@,
                start == old(self).offset,
                spec_next_op(data, self.offset as int) == spec_next_op(data, start),
            decreases data.len() - self.offset,
        {
            let ghost before = self.offset as int;
            proof {
                lemma_op_at_advances(data, before);
            }
            match self.step()? {
                Step::End => return Ok(None),
                Step::Op(op) => return Ok(Some(op)),
                Step::Skip => {},
            }
        }
        Ok(None)
    }
}

/// The offset where the pickle stream that starts at `offset` stops.
pub open spec fn spec_pickle_end(data: Seq<u8>, offset: int) -> Result<int, ErrorKind>
    decreases data.len() - offset,
{
    match spec_next_op(data, offset) {
        Err(e) => Err(e),
        Ok((None, n)) => Ok(n),
        Ok((Some(_), n)) => if offset < n <= data.len() {
            spec_pickle_end(data, n)
        } else {
            Ok(n)
        },
    }
}

/// The ops of the pickle stream from `offset` on.
pub open spec fn spec_pickle_ops(data: Seq<u8>, offset: int) -> Result<Seq<PickleOpView>, ErrorKind>
    decreases data.len() - offset,
{
    match spec_next_op(data, offset) {
        Err(e) => Err(e),
        Ok((None, _)) => Ok(Seq::empty()),
        Ok((Some(op), n)) => if offset < n <= data.len() {
            match spec_pickle_ops(data, n) {
                Ok(rest) => Ok(seq![op] + rest),
                Err(e) => Err(e),
            }
        } else {
            Ok(seq![op])
        },
    }
}

/// Reading all the ops of a stream and skipping the stream succeed on the
/// same data and fail with the same error.
pub proof fn lemma_ops_and_end_agree(data: Seq<u8>, offset: int)
    ensures
        spec_pickle_ops(data, offset) is Ok <==> spec_pickle_end(data, offset) is Ok,
        spec_pickle_ops(data, offset) matches Err(k) ==> spec_pickle_end(data, offset) == Err::<
            int,
            ErrorKind,
        >(k),
    decreases data.len() - offset,
{
    if let Ok((Some(op), n)) = spec_next_op(data, offset) {
        if offset < n <= data.len() {
            lemma_ops_and_end_agree(data, n);
        }
    }
}

/// The offset just past the pickle stream that starts at `offset`.
pub fn skip_pickle(data: &[u8], offset: usize) -> (r: Result<usize, ModelError>)
    ensures
        offset > data@.len() ==> (r matches Err(e) && e == py_error(ErrorKind::Truncated)),
        offset <= data@.len() ==> match spec_pickle_end(data@.subrange(offset as int, data@.len() as int), 0) {
            Ok(n) => r == Ok::<usize, ModelError>((offset + n) as usize),
            Err(k) => r matches Err(e) && e == py_error(k),
        },
{
    if offset > data.len() {
        return Err(invalid(Format::PyTorch, ErrorKind::Truncated));
    }
    let rest = slice_range(data, offset, data.len());
    let mut cursor = PickleCursor::new(rest);
    loop
        invariant
            cursor.data == rest,
            rest@ == data@.subrange(offset as int, data@.len() as int),
            data@.len() <= usize::MAX,
            cursor.offset <= rest@.len(),
            offset + rest@.len() == data@.len(),
            spec_pickle_end(rest@, cursor.offset as int) == spec_pickle_end(rest@, 0),
        decreases rest@.len() - cursor.offset,
    {
        let ghost before = cursor.offset as int;
        proof {
            lemma_next_op_advances(rest@, before);
        }
        match cursor.next()? {
            Some(_) => {},
            None => return Ok(offset + cursor.offset),
        }
    }
}

/// `acc` followed by the ops of `rest`, or its error.
pub open spec fn prepend_ops(acc: Seq<PickleOpView>, rest: Result<Seq<PickleOpView>, ErrorKind>) -> Result<
    Seq<PickleOpView>,
    ErrorKind,
> {
    match rest {
        Ok(r) => Ok(acc + r),
        Err(e) => Err(e),
    }
}

/// The views of a list of ops.
pub open spec fn op_views(ops: Seq<PickleOp>) -> Seq<PickleOpView> {
    ops.map_values(|op: PickleOp| op@)
}

/// All the ops of a pickle stream.
pub fn pickle_ops(data: &[u8]) -> (r: Result<Vec<PickleOp>, ModelError>)
    ensures
        match spec_pickle_ops(data@, 0) {
            Ok(ops) => r matches Ok(v) && op_views(v@) == ops,
            Err(k) => r matches Err(e) && e == py_error(k),
        },
{
    let mut cursor = PickleCursor::new(data);
    let mut ops: Vec<PickleOp> = Vec::new();
    proof {
        assert(op_views(ops@) + Seq::<PickleOpView>::empty() =~= Seq::<PickleOpView>::empty());
        assert(prepend_ops(op_views(ops@), spec_pickle_ops(data@, 0)) =~~= spec_pickle_ops(data@, 0));
    }
    loop
        invariant
            cursor.data == data,
            cursor.offset <= data@.len(),
            prepend_ops(op_views(ops@), spec_pickle_ops(data@, cursor.offset as int)) == spec_pickle_ops(
                data@,
                0,
            ),
        decreases data@.len() - cursor.offset,
    {
        let ghost before = cursor.offset as int;
        let ghost acc = op_views(ops@);
        proof {
            lemma_next_op_advances(data@, before);
        }
        match cursor.next() {
            Err(e) => return Err(e),
            Ok(None) => {
                proof {
                    assert(acc + Seq::<PickleOpView>::empty() =~= acc);
                }
                return Ok(ops);
            },
            Ok(Some(op)) => {
                ops.push(op);
                proof {
                    assert(op_views(ops@) =~= acc.push(op@));
                    if let Ok(rest) = spec_pickle_ops(data@, cursor.offset as int) {
                        assert(acc + (seq![op@] + rest) =~= acc.push(op@) + rest);
                    }
                }
            },
        }
    }
}

// ---------------------------------------------------------------------------
// Looking into a stream

/// The ops that a reader gets before the stream stops or fails.
pub open spec fn spec_ops_before_error(data: Seq<u8>, offset: int) -> Seq<PickleOpView>
    decreases data.len() - offset,
{
    match spec_next_op(data, offset) {
        Ok((Some(op), n)) => if offset < n <= data.len() {
            seq![op] + spec_ops_before_error(data, n)
        } else {
            seq![op]
        },
        _ => Seq::empty(),
    }
}

/// The name of the first global of a pickle stream that starts with it,
/// after an optional protocol opcode: `module.name`.
pub open spec fn spec_first_global(data: Seq<u8>) -> Option<Seq<char>> {
    let start = if data.len() > 0 && data[0] == 0x80 {
        2int
    } else {
        0int
    };
    if start < data.len() && data[start] == 0x63 {
        match spec_read_line(data, start + 1) {
            Ok((module, after)) => match spec_read_line(data, after) {
                Ok((name, _)) => Some(module + "."@ + name),
                Err(_) => None,
            },
            Err(_) => None,
        }
    } else {
        None
    }
}

/// The name of the global that a pickle stream starts with.
pub fn first_global(data: &[u8]) -> (r: Option<String>)
    ensures
        opt_string_view(r) == spec_first_global(data@),
{
    let start: usize = if data.len() > 0 && data[0] == 0x80 {
        2
    } else {
        0
    };
    if !(start < data.len() && data[start] == 0x63) {
        return None;
    }
    let mut cursor = PickleCursor { data, offset: start + 1 };
    let module = match cursor.line() {
        Ok(module) => module,
        Err(_) => return None,
    };
    let name = match cursor.line() {
        Ok(name) => name,
        Err(_) => return None,
    };
    let mut global = String::from_str(module);
    global.append(".");
    global.append(name);
    Some(global)
}

/// The characters of an optional string.
pub open spec fn opt_string_view(s: Option<String>) -> Option<Seq<char>> {
    match s {
        Some(x) => Some(x@),
        None => None,
    }
}

/// The first opcode from `offset` on that is neither a protocol opcode nor a
/// frame, with their arguments.
pub open spec fn spec_payload_opcode_from(data: Seq<u8>, offset: int) -> Option<u8>
    decreases data.len() + 9 - offset,
{
    if offset < 0 || offset >= data.len() {
        None
    } else if data[offset] == 0x80 {
        spec_payload_opcode_from(data, offset + 2)
    } else if data[offset] == 0x95 {
        spec_payload_opcode_from(data, offset + 9)
    } else {
        Some(data[offset])
    }
}

/// The first opcode of a pickle stream that is neither a protocol opcode nor
/// a frame.
pub fn first_pickle_payload_opcode(data: &[u8]) -> (r: Option<u8>)
    ensures
        r == spec_payload_opcode_from(data@, 0),
{
    let len = data.len();
    let mut offset: usize = 0;
    loop
        invariant
            len == data@.len(),
            spec_payload_opcode_from(data@, offset as int) == spec_payload_opcode_from(data@, 0),
        decreases data@.len() + 9 - offset,
    {
        if offset >= len {
            return None;
        }
        let opcode = data[offset];
        if opcode == 0x80 || opcode == 0x95 {
            let step: usize = if opcode == 0x80 {
                2
            } else {
                9
            };
            offset = match offset.checked_add(step) {
                Some(next) => next,
                None => {
                    assert(spec_payload_opcode_from(data@, offset + step) == None::<u8>);
                    return None;
                },
            };
        } else {
            return Some(opcode);
        }
    }
}

/// Whether the stream's first payload opcode makes a dict.
pub fn is_top_level_pickle_dict(data: &[u8]) -> (r: bool)
    ensures
        r == (spec_payload_opcode_from(data@, 0) == Some(0x7du8)),
{
    match first_pickle_payload_opcode(data) {
        Some(opcode) => opcode == 0x7d,
        None => false,
    }
}

/// Whether the stream's first payload opcode makes a list.
pub fn is_top_level_pickle_list(data: &[u8]) -> (r: bool)
    ensures
        r == (spec_payload_opcode_from(data@, 0) == Some(0x5du8)),
{
    match first_pickle_payload_opcode(data) {
        Some(opcode) => opcode == 0x5d,
        None => false,
    }
}

/// The index and the name of the first global op at or after `start`.
pub open spec fn spec_next_global(ops: Seq<PickleOpView>, start: int) -> Option<(int, Seq<char>)>
    decreases ops.len() - start,
{
    if start < 0 || start >= ops.len() {
        None
    } else {
        match ops[start] {
            PickleOpView::Global(name) => Some((start, name)),
            _ => spec_next_global(ops, start + 1),
        }
    }
}

/// Finds the first global op at or after `start`.
pub fn next_global(ops: &[PickleOp], start: usize) -> (r: Option<(usize, &str)>)
    ensures
        match spec_next_global(op_views(ops@), start as int) {
            Some((i, name)) => r matches Some((j, s)) && j == i && s@ == name,
            None => r is None,
        },
{
    let mut i = start;
    while i < ops.len()
        invariant
            start <= i,
            spec_next_global(op_views(ops@), i as int) == spec_next_global(op_views(ops@), start as int),
        decreases ops@.len() - i,
    {
        match &ops[i] {
            PickleOp::Global(name) => {
                return Some((i, name.as_str()));
            },
            _ => {},
        }
        i = i + 1;
    }
    None
}

/// The global that builds a cloudpickle class skeleton.
pub open spec fn make_skeleton_class() -> Seq<char> {
    "cloudpickle.cloudpickle._make_skeleton_class"@
}

/// Scans ops for a class skeleton: after the skeleton global, the first
/// string is the class name; after the string `__module__`, the next string
/// is its module; the result is `module.class`.
pub open spec fn skeleton_scan(
    ops: Seq<PickleOpView>,
    saw_skeleton: bool,
    class_name: Option<Seq<char>>,
    expect_module: bool,
) -> Option<Seq<char>>
    decreases ops.len(),
{
    if ops.len() == 0 {
        None
    } else {
        let rest = ops.drop_first();
        match ops[0] {
            PickleOpView::Global(name) => if name == make_skeleton_class() {
                skeleton_scan(rest, true, class_name, expect_module)
            } else {
                skeleton_scan(rest, saw_skeleton, class_name, expect_module)
            },
            PickleOpView::Text(value) => if saw_skeleton && class_name is None {
                skeleton_scan(rest, saw_skeleton, Some(value), expect_module)
            } else if saw_skeleton && value == "__module__"@ {
                skeleton_scan(rest, saw_skeleton, class_name, true)
            } else if expect_module {
                match class_name {
                    Some(c) => Some(value + "."@ + c),
                    None => None,
                }
            } else {
                skeleton_scan(rest, saw_skeleton, class_name, expect_module)
            },
            _ => skeleton_scan(rest, saw_skeleton, class_name, expect_module),
        }
    }
}

/// The class that a cloudpickle stream builds a skeleton of, as
/// `module.class`.
pub fn cloudpickle_skeleton_class(data: &[u8]) -> (r: Option<String>)
    ensures
        opt_string_view(r) == skeleton_scan(spec_ops_before_error(data@, 0), false, None, false),
{
    let mut cursor = PickleCursor::new(data);
    let mut saw_skeleton = false;
    let mut class_name: Option<String> = None;
    let mut expect_module = false;
    loop
        invariant
            cursor.data == data,
            cursor.offset <= data@.len(),
            skeleton_scan(
                spec_ops_before_error(data@, cursor.offset as int),
                saw_skeleton,
                opt_string_view(class_name),
                expect_module,
            ) == skeleton_scan(spec_ops_before_error(data@, 0), false, None, false),
        decreases data@.len() - cursor.offset,
    {
        let ghost before = cursor.offset as int;
        proof {
            lemma_next_op_advances(data@, before);
        }
        let op = match cursor.next() {
            Ok(Some(op)) => op,
            _ => return None,
        };
        proof {
            assert((seq![op@] + spec_ops_before_error(data@, cursor.offset as int)).drop_first()
                =~= spec_ops_before_error(data@, cursor.offset as int));
        }
        match op {
            PickleOp::Global(name) => {
                if str_eq(name.as_str(), "cloudpickle.cloudpickle._make_skeleton_class") {
                    saw_skeleton = true;
                }
            },
            PickleOp::Text(value) => {
                if saw_skeleton && class_name.is_none() {
                    class_name = Some(value);
                } else if saw_skeleton && str_eq(value.as_str(), "__module__") {
                    expect_module = true;
                } else if expect_module {
                    let class_name = match class_name {
                        Some(c) => c,
                        None => return None,
                    };
                    let mut result = value;
                    result.append(".");
                    result.append(class_name.as_str());
                    return Some(result);
                }
            },
            _ => {},
        }
    }
}

} // verus!
