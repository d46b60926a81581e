//! SentencePiece models: a protobuf reader and the model's framing checks.
use vstd::prelude::*;
use vstd::string::StringExecFns;
use crate::graph::{Confidence, FormatMetadata, LoweredModel};
use crate::sentencepiece::lower::{lower_sentencepiece_model, spec_lower_sentencepiece};
use crate::sentencepiece::model::{ModelProto, looks_like_sentencepiece, spec_looks_like_sentencepiece, spec_model};
use crate::error::{ErrorKind, Format, ModelError, invalid, model_error};
use crate::fmt::{decimal, u64_to_string};
use crate::le::{le_u32_at, read_u32};
use crate::onnx::slice_range;
use crate::text::{spec_utf8, utf8_string};
use crate::varint::varint_error_stop;
use crate::varint::{lemma_varint_bounds, spec_varint, varint_from};

pub mod model;
pub mod lower;

verus! {

/// The SentencePiece model format.
pub struct SentencePieceFormat;

impl SentencePieceFormat {
    /// How sure the format is that it reads `data`: sure of a model whose
    /// first piece is complete, that has pieces, a trainer spec with a
    /// vocabulary size and a normalizer spec; else not at all.
    pub fn detect(&self, data: &[u8]) -> (r: Confidence)
        ensures
            r == (if spec_looks_like_sentencepiece(data@) {
                Confidence::High
            } else {
                Confidence::NoMatch
            }),
    {
        if looks_like_sentencepiece(data) {
            Confidence::High
        } else {
            Confidence::NoMatch
        }
    }

    /// Reads a SentencePiece model and lowers it.
    pub fn parse(&self, data: &[u8]) -> (r: Result<LoweredModel, ModelError>)
        ensures
            match spec_model(data@) {
                Ok(m) => r matches Ok(x) && x@ == spec_lower_sentencepiece(m),
                Err(k) => r matches Err(e) && e == sp_error(k),
            },
    {
        match ModelProto::read(data) {
            Ok(proto) => Ok(lower_sentencepiece_model(proto)),
            Err(e) => Err(e),
        }
    }

    /// The format's name and extensions.
    pub fn metadata(&self) -> (r: FormatMetadata)
        ensures
            r.name@ == "SentencePiece"@,
            r.extensions@.map_values(|e: String| e@) == seq!["model"@],
    {
        let mut extensions: Vec<String> = Vec::new();
        extensions.push(String::from_str("model"));
        let r = FormatMetadata { name: String::from_str("SentencePiece"), extensions };
        proof {
            assert(r.extensions@.map_values(|e: String| e@) =~= seq!["model"@]);
        }
        r
    }
}

/// The error that the SentencePiece reader raises for `kind`.
pub open spec fn sp_error(kind: ErrorKind) -> ModelError {
    model_error(Format::SentencePiece, kind)
}

/// The key at `pos`: the field number, the wire type, and the position after
/// it. Field 0 and field numbers beyond `u32` are errors.
pub open spec fn sp_key(data: Seq<u8>, pos: int) -> Result<(u32, u8, int), ErrorKind> {
    match spec_varint(data, pos) {
        Err(e) => Err(e),
        Ok((v, p)) => if (v >> 3u64) > u32::MAX {
            Err(ErrorKind::Overflow)
        } else if (v >> 3u64) == 0 {
            Err(ErrorKind::FieldZero)
        } else {
            Ok(((v >> 3u64) as u32, (v & 7) as u8, p))
        },
    }
}

/// The end of `len` bytes from `pos`.
pub open spec fn sp_advance(data: Seq<u8>, pos: int, len: int) -> Result<int, ErrorKind> {
    if pos + len > usize::MAX {
        Err(ErrorKind::Overflow)
    } else if pos + len > data.len() {
        Err(ErrorKind::Truncated)
    } else {
        Ok(pos + len)
    }
}

/// A length-delimited value at `pos`: its start and its end.
pub open spec fn sp_bytes(data: Seq<u8>, pos: int) -> Result<(int, int), ErrorKind> {
    match spec_varint(data, pos) {
        Err(e) => Err(e),
        Ok((len, p)) => if len > usize::MAX {
            Err(ErrorKind::Overflow)
        } else {
            match sp_advance(data, p, len as int) {
                Ok(end) => Ok((p, end)),
                Err(e) => Err(e),
            }
        },
    }
}

/// Where a reader stops when a length-delimited value at `pos` is refused: where
/// its varint read stopped, or just past the length when the length is refused.
pub open spec fn sp_bytes_error_stop(data: Seq<u8>, pos: int) -> int {
    match spec_varint(data, pos) {
        Err(_) => varint_error_stop(data, pos),
        Ok((_, p)) => p,
    }
}

/// The position after a value of wire type `wire` at `pos`.
pub open spec fn sp_skip(data: Seq<u8>, pos: int, wire: u8) -> Result<int, ErrorKind> {
    if wire == 0 {
        match spec_varint(data, pos) {
            Ok((_, p)) => Ok(p),
            Err(e) => Err(e),
        }
    } else if wire == 1 {
        sp_advance(data, pos, 8)
    } else if wire == 2 {
        match sp_bytes(data, pos) {
            Ok((_, end)) => Ok(end),
            Err(e) => Err(e),
        }
    } else if wire == 5 {
        sp_advance(data, pos, 4)
    } else {
        Err(ErrorKind::UnsupportedWireType)
    }
}

/// Reads the fields of a SentencePiece protobuf message.
pub struct ProtoReader<'a> {
    data: &'a [u8],
    offset: usize,
}

impl<'a> ProtoReader<'a> {
    #[verifier::type_invariant]
    spec fn inv(self) -> bool {
        self.offset <= self.data@.len()
    }

    /// The message being read.
    pub closed spec fn data(self) -> Seq<u8> {
        self.data@
    }

    /// The position of the next byte to read.
    pub closed spec fn pos(self) -> int {
        self.offset as int
    }

    /// A reader at the start of `data`.
    pub fn new(data: &'a [u8]) -> (r: Self)
        ensures
            r.data() == data@,
            r.pos() == 0,
    {
        Self { data, offset: 0 }
    }

    /// Whether every byte has been read.
    pub fn is_empty(&self) -> (r: bool)
        ensures
            r == (self.pos() >= self.data().len()),
            0 <= self.pos() <= self.data().len(),
    {
        proof {
            use_type_invariant(self);
        }
        self.offset >= self.data.len()
    }

    /// Reads a key: the field number and the wire type.
    pub fn key(&mut self) -> (r: Result<(u32, u8), ModelError>)
        ensures
            final(self).data() == old(self).data(),
            0 <= final(self).pos() <= final(self).data().len(),
            match sp_key(old(self).data(), old(self).pos()) {
                Ok((f, w, p)) => r == Ok::<(u32, u8), ModelError>((f, w)) && final(self).pos() == p,
                Err(k) => r == Err::<(u32, u8), ModelError>(sp_error(k)),
            },
    {
        let value = self.varint()?;
        if (value >> 3) > u32::MAX as u64 {
            return Err(invalid(Format::SentencePiece, ErrorKind::Overflow));
        }
        let field = (value >> 3) as u32;
        let wire_type = (value & 7) as u8;
        if field == 0 {
            return Err(invalid(Format::SentencePiece, ErrorKind::FieldZero));
        }
        Ok((field, wire_type))
    }

    /// Reads a length-delimited string, which must be UTF-8.
    pub fn string(&mut self, wire_type: u8) -> (r: Result<String, ModelError>)
        ensures
            final(self).data() == old(self).data(),
            0 <= final(self).pos() <= final(self).data().len(),
            wire_type != 2 ==> r == Err::<String, ModelError>(sp_error(ErrorKind::WrongWireType)),
            wire_type == 2 ==> match sp_bytes(old(self).data(), old(self).pos()) {
                Ok((start, end)) => match spec_utf8(old(self).data().subrange(start, end)) {
                    Some(s) => r matches Ok(x) && x@ == s && final(self).pos() == end,
                    None => r == Err::<String, ModelError>(sp_error(ErrorKind::InvalidUtf8)),
                },
                Err(k) => r == Err::<String, ModelError>(sp_error(k)),
            },
    {
        let bytes = self.bytes_with_type(wire_type)?;
        match utf8_string(bytes) {
            Some(s) => Ok(s),
            None => Err(invalid(Format::SentencePiece, ErrorKind::InvalidUtf8)),
        }
    }

    /// Reads a length-delimited value, whose wire type must be 2.
    pub fn bytes_with_type(&mut self, wire_type: u8) -> (r: Result<&'a [u8], ModelError>)
        ensures
            final(self).data() == old(self).data(),
            0 <= final(self).pos() <= final(self).data().len(),
            wire_type != 2 ==> r == Err::<&'a [u8], ModelError>(sp_error(ErrorKind::WrongWireType))
                && final(self).pos() == old(self).pos(),
            wire_type == 2 ==> match sp_bytes(old(self).data(), old(self).pos()) {
                Ok((start, end)) => r matches Ok(b) && b@ == old(self).data().subrange(start, end)
                    && final(self).pos() == end,
                Err(k) => r == Err::<&'a [u8], ModelError>(sp_error(k)) && final(self).pos()
                    == sp_bytes_error_stop(old(self).data(), old(self).pos()),
            },
    {
        if wire_type != 2 {
            proof {
                use_type_invariant(&*self);
            }
            return Err(invalid(Format::SentencePiece, ErrorKind::WrongWireType));
        }
        self.bytes()
    }

    /// Reads a length-delimited value.
    pub fn bytes(&mut self) -> (r: Result<&'a [u8], ModelError>)
        ensures
            final(self).data() == old(self).data(),
            0 <= final(self).pos() <= final(self).data().len(),
            match sp_bytes(old(self).data(), old(self).pos()) {
                Ok((start, end)) => r matches Ok(b) && b@ == old(self).data().subrange(start, end)
                    && final(self).pos() == end,
                Err(k) => r == Err::<&'a [u8], ModelError>(sp_error(k)) && final(self).pos()
                    == sp_bytes_error_stop(old(self).data(), old(self).pos()),
            },
    {
        let len = self.varint()?;
        if len > usize::MAX as u64 {
            return Err(invalid(Format::SentencePiece, ErrorKind::Overflow));
        }
        let len = len as usize;
        proof {
            use_type_invariant(&*self);
        }
        let end = match self.offset.checked_add(len) {
            Some(end) => end,
            None => return Err(invalid(Format::SentencePiece, ErrorKind::Overflow)),
        };
        if end > self.data.len() {
            return Err(invalid(Format::SentencePiece, ErrorKind::Truncated));
        }
        let bytes = slice_range(self.data, self.offset, end);
        self.offset = end;
        Ok(bytes)
    }

    /// Reads an `int32` varint, sign-extended.
    pub fn int32(&mut self, wire_type: u8) -> (r: Result<i64, ModelError>)
        ensures
            final(self).data() == old(self).data(),
            0 <= final(self).pos() <= final(self).data().len(),
            wire_type != 0 ==> r == Err::<i64, ModelError>(sp_error(ErrorKind::WrongWireType)),
            wire_type == 0 ==> match spec_varint(old(self).data(), old(self).pos()) {
                Ok((v, p)) => r == Ok::<i64, ModelError>((v as i32) as i64) && final(self).pos()
                    == p,
                Err(k) => r == Err::<i64, ModelError>(sp_error(k)),
            },
    {
        proof {
            use_type_invariant(&*self);
        }
        if wire_type != 0 {
            return Err(invalid(Format::SentencePiece, ErrorKind::WrongWireType));
        }
        Ok((self.varint()? as i32) as i64)
    }

    /// Reads a `uint64` varint as decimal text.
    pub fn uint64_string(&mut self, wire_type: u8) -> (r: Result<String, ModelError>)
        ensures
            final(self).data() == old(self).data(),
            0 <= final(self).pos() <= final(self).data().len(),
            wire_type != 0 ==> r == Err::<String, ModelError>(sp_error(ErrorKind::WrongWireType)),
            wire_type == 0 ==> match spec_varint(old(self).data(), old(self).pos()) {
                Ok((v, p)) => r matches Ok(s) && s@ == decimal(v as int) && final(self).pos() == p,
                Err(k) => r == Err::<String, ModelError>(sp_error(k)),
            },
    {
        proof {
            use_type_invariant(&*self);
        }
        if wire_type != 0 {
            return Err(invalid(Format::SentencePiece, ErrorKind::WrongWireType));
        }
        Ok(u64_to_string(self.varint()?))
    }

    /// Reads a `bool` varint: true when it is not zero.
    pub fn bool(&mut self, wire_type: u8) -> (r: Result<bool, ModelError>)
        ensures
            final(self).data() == old(self).data(),
            0 <= final(self).pos() <= final(self).data().len(),
            wire_type != 0 ==> r == Err::<bool, ModelError>(sp_error(ErrorKind::WrongWireType)),
            wire_type == 0 ==> match spec_varint(old(self).data(), old(self).pos()) {
                Ok((v, p)) => r == Ok::<bool, ModelError>(v != 0) && final(self).pos() == p,
                Err(k) => r == Err::<bool, ModelError>(sp_error(k)),
            },
    {
        proof {
            use_type_invariant(&*self);
        }
        if wire_type != 0 {
            return Err(invalid(Format::SentencePiece, ErrorKind::WrongWireType));
        }
        Ok(self.varint()? != 0)
    }

    /// Reads a 32-bit fixed value of wire type 5, as the bits of the float.
    pub fn float32_bits(&mut self, wire_type: u8) -> (r: Result<u32, ModelError>)
        ensures
            final(self).data() == old(self).data(),
            0 <= final(self).pos() <= final(self).data().len(),
            wire_type != 5 ==> r == Err::<u32, ModelError>(sp_error(ErrorKind::WrongWireType)),
            wire_type == 5 ==> match sp_advance(old(self).data(), old(self).pos(), 4) {
                Ok(p) => r == Ok::<u32, ModelError>(le_u32_at(old(self).data(), old(self).pos()))
                    && final(self).pos() == p,
                Err(_) => r == Err::<u32, ModelError>(sp_error(ErrorKind::Truncated)),
            },
    {
        proof {
            use_type_invariant(&*self);
        }
        if wire_type != 5 {
            return Err(invalid(Format::SentencePiece, ErrorKind::WrongWireType));
        }
        self.fixed32_bits()
    }

    /// Reads a 32-bit fixed value.
    pub fn fixed32_bits(&mut self) -> (r: Result<u32, ModelError>)
        ensures
            final(self).data() == old(self).data(),
            0 <= final(self).pos() <= final(self).data().len(),
            match sp_advance(old(self).data(), old(self).pos(), 4) {
                Ok(p) => r == Ok::<u32, ModelError>(le_u32_at(old(self).data(), old(self).pos()))
                    && final(self).pos() == p,
                Err(_) => r == Err::<u32, ModelError>(sp_error(ErrorKind::Truncated)),
            },
    {
        proof {
            use_type_invariant(&*self);
        }
        if self.data.len() - self.offset < 4 {
            return Err(invalid(Format::SentencePiece, ErrorKind::Truncated));
        }
        let value = read_u32(self.data, self.offset);
        self.offset = self.offset + 4;
        Ok(value)
    }

    /// Reads a varint.
    pub fn varint(&mut self) -> (r: Result<u64, ModelError>)
        ensures
            final(self).data() == old(self).data(),
            0 <= final(self).pos() <= final(self).data().len(),
            match spec_varint(old(self).data(), old(self).pos()) {
                Ok((v, p)) => r == Ok::<u64, ModelError>(v) && final(self).pos() == p,
                Err(k) => r == Err::<u64, ModelError>(sp_error(k)) && final(self).pos()
                    == varint_error_stop(old(self).data(), old(self).pos()),
            },
    {
        proof {
            use_type_invariant(&*self);
        }
        let ghost start = self.offset as int;
        let mut value: u64 = 0;
        let mut k: u64 = 0;
        while k < 10
            invariant
                self.data@ == old(self).data@,
                start == old(self).offset,
                self.offset == start + k,
                self.offset <= self.data@.len(),
                k <= 10,
                varint_from(self.data@, start, k as nat, value) == spec_varint(self.data@, start),
            decreases 10 - k,
        {
            if self.offset >= self.data.len() {
                return Err(invalid(Format::SentencePiece, ErrorKind::Truncated));
            }
            let byte = self.data[self.offset];
            self.offset = self.offset + 1;
            value = value | (((byte & 0x7f) as u64) << (7 * k));
            if byte & 0x80 == 0 {
                return Ok(value);
            }
            k = k + 1;
        }
        Err(invalid(Format::SentencePiece, ErrorKind::VarintTooLong))
    }

    /// Skips a value of the given wire type.
    pub fn skip(&mut self, wire_type: u8) -> (r: Result<(), ModelError>)
        ensures
            final(self).data() == old(self).data(),
            0 <= final(self).pos() <= final(self).data().len(),
            match sp_skip(old(self).data(), old(self).pos(), wire_type) {
                Ok(p) => r is Ok && final(self).pos() == p,
                Err(k) => r == Err::<(), ModelError>(sp_error(k)),
            },
    {
        proof {
            use_type_invariant(&*self);
        }
        match wire_type {
            0 => {
                self.varint()?;
                Ok(())
            },
            1 => self.advance(8),
            2 => {
                self.bytes()?;
                Ok(())
            },
            5 => self.advance(4),
            _ => Err(invalid(Format::SentencePiece, ErrorKind::UnsupportedWireType)),
        }
    }

    /// Moves `len` bytes ahead.
    pub fn advance(&mut self, len: usize) -> (r: Result<(), ModelError>)
        ensures
            final(self).data() == old(self).data(),
            0 <= final(self).pos() <= final(self).data().len(),
            match sp_advance(old(self).data(), old(self).pos(), len as int) {
                Ok(p) => r is Ok && final(self).pos() == p,
                Err(k) => r == Err::<(), ModelError>(sp_error(k)) && final(self).pos() == old(
                    self,
                ).pos(),
            },
    {
        proof {
            use_type_invariant(&*self);
        }
        let end = match self.offset.checked_add(len) {
            Some(end) => end,
            None => return Err(invalid(Format::SentencePiece, ErrorKind::Overflow)),
        };
        if end > self.data.len() {
            return Err(invalid(Format::SentencePiece, ErrorKind::Truncated));
        }
        self.offset = end;
        Ok(())
    }
}

/// Every key that is read, and every value that is skipped, lies inside the data;
/// a key takes at least one byte.
pub proof fn lemma_sp_advances(data: Seq<u8>, pos: int, wire: u8)
    requires
        0 <= pos <= data.len(),
    ensures
        sp_key(data, pos) matches Ok((f, w, p)) ==> pos < p <= data.len(),
        sp_skip(data, pos, wire) matches Ok(p) ==> pos <= p <= data.len(),
        sp_bytes(data, pos) matches Ok((start, end)) ==> pos < start <= end <= data.len(),
{
    lemma_varint_bounds(data, pos, 0, 0);
}

/// Folds `step` over the fields of `data` from `pos` on. `step` sees the field
/// number, the wire type and where the value starts; the fold then skips the
/// value. It stops at the first error, of `step` or of the framing.
pub open spec fn sp_fold<A>(
    data: Seq<u8>,
    pos: int,
    acc: A,
    step: spec_fn(A, u32, u8, int) -> Result<A, ErrorKind>,
) -> Result<A, ErrorKind>
    decreases data.len() - pos,
{
    if pos < 0 || pos >= data.len() {
        Ok(acc)
    } else {
        match sp_key(data, pos) {
            Err(e) => Err(e),
            Ok((f, w, p1)) => match step(acc, f, w, p1) {
                Err(e) => Err(e),
                Ok(next) => match sp_skip(data, p1, w) {
                    Err(e) => Err(e),
                    Ok(p2) => if pos < p2 <= data.len() {
                        sp_fold(data, p2, next, step)
                    } else {
                        Ok(next)
                    },
                },
            },
        }
    }
}

/// Which of a piece's text (field 1, length-delimited), score (field 2,
/// fixed32) and type (field 3, varint) were seen.
pub open spec fn piece_step(acc: (bool, bool, bool), f: u32, w: u8, p: int) -> Result<
    (bool, bool, bool),
    ErrorKind,
> {
    if f == 1 && w == 2 {
        Ok((true, acc.1, acc.2))
    } else if f == 2 && w == 5 {
        Ok((acc.0, true, acc.2))
    } else if f == 3 && w == 0 {
        Ok((acc.0, acc.1, true))
    } else {
        Ok(acc)
    }
}

pub open spec fn piece_stepper() -> spec_fn((bool, bool, bool), u32, u8, int) -> Result<
    (bool, bool, bool),
    ErrorKind,
> {
    |acc: (bool, bool, bool), f: u32, w: u8, p: int| piece_step(acc, f, w, p)
}

/// Whether a piece is well-formed and has its text and a score or a type.
pub open spec fn spec_piece_complete(data: Seq<u8>) -> bool {
    match sp_fold(data, 0, (false, false, false), piece_stepper()) {
        Ok((piece, score, kind)) => piece && (score || kind),
        Err(_) => false,
    }
}

/// Whether the piece `data` is well-formed and has its text and a score or a
/// type.
pub fn sentence_piece_complete(data: &[u8]) -> (r: bool)
    ensures
        r == spec_piece_complete(data@),
{
    let mut reader = ProtoReader::new(data);
    let mut has_piece = false;
    let mut has_score = false;
    let mut has_type = false;
    loop
        invariant
            reader.data() == data@,
            0 <= reader.pos() <= data@.len(),
            sp_fold(data@, reader.pos(), (has_piece, has_score, has_type), piece_stepper())
                == sp_fold(data@, 0, (false, false, false), piece_stepper()),
        decreases data@.len() - reader.pos(),
    {
        if reader.is_empty() {
            return has_piece && (has_score || has_type);
        }
        let ghost pos = reader.pos();
        let (field, wire_type) = match reader.key() {
            Ok(key) => key,
            Err(_) => return false,
        };
        let ghost p1 = reader.pos();
        proof {
            lemma_sp_advances(data@, pos, wire_type);
            lemma_sp_advances(data@, p1, wire_type);
        }
        if field == 1 && wire_type == 2 {
            if reader.bytes().is_err() {
                return false;
            }
            has_piece = true;
        } else if field == 2 && wire_type == 5 {
            if reader.fixed32_bits().is_err() {
                return false;
            }
            has_score = true;
        } else if field == 3 && wire_type == 0 {
            if reader.varint().is_err() {
                return false;
            }
            has_type = true;
        } else {
            if reader.skip(wire_type).is_err() {
                return false;
            }
        }
    }
}

/// Counts the samples of a self-test message: its length-delimited fields 1.
pub open spec fn sample_step(acc: nat, f: u32, w: u8, p: int) -> Result<nat, ErrorKind> {
    if f == 1 && w == 2 {
        Ok(acc + 1)
    } else {
        Ok(acc)
    }
}

pub open spec fn sample_stepper() -> spec_fn(nat, u32, u8, int) -> Result<nat, ErrorKind> {
    |acc: nat, f: u32, w: u8, p: int| sample_step(acc, f, w, p)
}

/// The self-test data of a model.
pub struct SelfTestData;

impl SelfTestData {
    /// How many samples the self-test message `data` holds.
    pub fn sample_count(data: &[u8]) -> (r: Result<usize, ModelError>)
        ensures
            match sp_fold(data@, 0, 0nat, sample_stepper()) {
                Ok(n) => r == Ok::<usize, ModelError>(n as usize) && n <= data@.len(),
                Err(k) => r == Err::<usize, ModelError>(sp_error(k)),
            },
    {
        let mut reader = ProtoReader::new(data);
        let mut count: usize = 0;
        loop
            invariant
                reader.data() == data@,
                0 <= reader.pos() <= data@.len(),
                count <= reader.pos(),
                sp_fold(data@, reader.pos(), count as nat, sample_stepper()) == sp_fold(
                    data@,
                    0,
                    0nat,
                    sample_stepper(),
                ),
            decreases data@.len() - reader.pos(),
        {
            if reader.is_empty() {
                return Ok(count);
            }
            let ghost pos = reader.pos();
            let (field, wire_type) = reader.key()?;
            let ghost p1 = reader.pos();
            proof {
                lemma_sp_advances(data@, pos, wire_type);
                lemma_sp_advances(data@, p1, wire_type);
            }
            if field == 1 && wire_type == 2 {
                reader.bytes()?;
                count += 1;
            } else {
                reader.skip(wire_type)?;
            }
        }
    }
}

/// The placeholder text of an object that is not shown.
pub open spec fn object_placeholder() -> Seq<char> {
    "[object Object]"@
}

/// As many placeholders as `count`, at most 16.
pub fn object_placeholders(count: usize) -> (r: Vec<String>)
    ensures
        r@.len() == if count < 16 {
            count
        } else {
            16
        },
        forall|i: int| 0 <= i < r@.len() ==> r@[i]@ == object_placeholder(),
{
    let n = if count < 16 {
        count
    } else {
        16
    };
    let mut values: Vec<String> = Vec::new();
    let mut i: usize = 0;
    while i < n
        invariant
            i <= n,
            values@.len() == i,
            forall|j: int| 0 <= j < i ==> values@[j]@ == object_placeholder(),
        decreases n - i,
    {
        values.push("[object Object]".to_owned());
        i += 1;
    }
    values
}

} // verus!
