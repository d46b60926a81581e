//! Zip archives: the local headers, the central directory, zip64 extra
//! fields, and the bytes of an entry.
use vstd::prelude::*;
use crate::error::{ErrorKind, Format, ModelError, invalid};
use crate::le::{le_u16_at, le_u32_at, le_u64_at, read_u16, read_u32, read_u64};
use crate::onnx::slice_range;
use crate::pytorch::py_error;
use crate::text::{spec_utf8, utf8_str};

verus! {

// ---------------------------------------------------------------------------
// Little-endian fields

/// The little-endian `u16` at `data[offset..offset + 2]`.
pub fn le_u16(data: &[u8], offset: usize) -> (r: u16)
    requires
        offset + 2 <= data@.len(),
    ensures
        r == le_u16_at(data@, offset as int),
{
    read_u16(data, offset)
}

/// The little-endian `u32` at `data[offset..offset + 4]`.
pub fn le_u32(data: &[u8], offset: usize) -> (r: u32)
    requires
        offset + 4 <= data@.len(),
    ensures
        r == le_u32_at(data@, offset as int),
{
    read_u32(data, offset)
}

/// The little-endian `u64` at `data[offset..offset + 8]`.
pub fn le_u64(data: &[u8], offset: usize) -> (r: u64)
    requires
        offset + 8 <= data@.len(),
    ensures
        r == le_u64_at(data@, offset as int),
{
    read_u64(data, offset)
}

// ---------------------------------------------------------------------------
// Zip64 extra fields

/// The next eight-byte field of a zip64 extra field.
pub open spec fn spec_zip64_field(payload: Seq<u8>, offset: int) -> Result<(u64, int), ErrorKind> {
    if offset + 8 > usize::MAX {
        Err(ErrorKind::Overflow)
    } else if offset + 8 > payload.len() {
        Err(ErrorKind::Truncated)
    } else {
        Ok((le_u64_at(payload, offset), offset + 8))
    }
}

/// Reads the next eight-byte field of a zip64 extra field and steps past it.
pub fn read_zip64_field(payload: &[u8], offset: &mut usize) -> (r: Result<u64, ModelError>)
    ensures
        match spec_zip64_field(payload@, *old(offset) as int) {
            Ok((v, end)) => r == Ok::<u64, ModelError>(v) && *final(offset) == end,
            Err(k) => r matches Err(e) && e == py_error(k) && *final(offset) == *old(offset),
        },
{
    let value_offset = *offset;
    let end = match value_offset.checked_add(8) {
        Some(end) => end,
        None => return Err(invalid(Format::PyTorch, ErrorKind::Overflow)),
    };
    if end > payload.len() {
        return Err(invalid(Format::PyTorch, ErrorKind::Truncated));
    }
    *offset = end;
    Ok(le_u64(payload, value_offset))
}

/// The zip64 values that a central header asks for.
pub struct Zip64ExtraValues {
    pub uncompressed_size: Option<u64>,
    pub compressed_size: Option<u64>,
    pub local_offset: Option<u64>,
}

/// The values asked for, in order, from the payload of a zip64 extra field:
/// the uncompressed size, the compressed size, the local header offset.
pub open spec fn spec_zip64_payload(payload: Seq<u8>, need_u: bool, need_c: bool, need_l: bool) -> Result<
    (Option<u64>, Option<u64>, Option<u64>),
    ErrorKind,
> {
    let c_at: int = if need_u {
        8
    } else {
        0
    };
    let l_at: int = c_at + if need_c {
        8int
    } else {
        0int
    };
    if need_u && 8 > payload.len() {
        Err(ErrorKind::Truncated)
    } else if need_c && c_at + 8 > payload.len() {
        Err(ErrorKind::Truncated)
    } else if need_l && l_at + 8 > payload.len() {
        Err(ErrorKind::Truncated)
    } else {
        Ok(
            (
                if need_u {
                    Some(le_u64_at(payload, 0))
                } else {
                    None
                },
                if need_c {
                    Some(le_u64_at(payload, c_at))
                } else {
                    None
                },
                if need_l {
                    Some(le_u64_at(payload, l_at))
                } else {
                    None
                },
            ),
        )
    }
}

/// The values of the first zip64 extra field (id 1) of the extra fields from
/// `offset` on; missing when there is none.
pub open spec fn spec_zip64_extra(extra: Seq<u8>, offset: int, need_u: bool, need_c: bool, need_l: bool) -> Result<
    (Option<u64>, Option<u64>, Option<u64>),
    ErrorKind,
>
    decreases extra.len() - offset,
{
    if offset < 0 || offset + 4 > extra.len() {
        Err(ErrorKind::Missing)
    } else {
        let id = le_u16_at(extra, offset);
        let start = offset + 4;
        let end = start + le_u16_at(extra, offset + 2);
        if end > usize::MAX {
            Err(ErrorKind::Overflow)
        } else if end > extra.len() {
            Err(ErrorKind::Truncated)
        } else if id == 1 {
            spec_zip64_payload(extra.subrange(start, end), need_u, need_c, need_l)
        } else {
            spec_zip64_extra(extra, end, need_u, need_c, need_l)
        }
    }
}

/// Reads the values that a central header asks for from its zip64 extra
/// field.
pub fn zip64_extra_values(
    extra: &[u8],
    need_uncompressed_size: bool,
    need_compressed_size: bool,
    need_local_offset: bool,
) -> (r: Result<Zip64ExtraValues, ModelError>)
    ensures
        match spec_zip64_extra(
            extra@,
            0,
            need_uncompressed_size,
            need_compressed_size,
            need_local_offset,
        ) {
            Ok((u, c, l)) => r matches Ok(v) && v.uncompressed_size == u && v.compressed_size == c
                && v.local_offset == l,
            Err(k) => r matches Err(e) && e == py_error(k),
        },
{
    let len = extra.len();
    let mut offset: usize = 0;
    while offset <= len && len - offset >= 4
        invariant
            len == extra@.len(),
            spec_zip64_extra(
                extra@,
                offset as int,
                need_uncompressed_size,
                need_compressed_size,
                need_local_offset,
            ) == spec_zip64_extra(
                extra@,
                0,
                need_uncompressed_size,
                need_compressed_size,
                need_local_offset,
            ),
        decreases extra@.len() - offset,
    {
        let header_id = le_u16(extra, offset);
        let field_len = le_u16(extra, offset + 2) as usize;
        let start = offset + 4;
        let end = match start.checked_add(field_len) {
            Some(end) => end,
            None => return Err(invalid(Format::PyTorch, ErrorKind::Overflow)),
        };
        if end > len {
            return Err(invalid(Format::PyTorch, ErrorKind::Truncated));
        }
        if header_id == 1 {
            let payload = slice_range(extra, start, end);
            let mut payload_offset: usize = 0;
            let uncompressed_size = if need_uncompressed_size {
                Some(read_zip64_field(payload, &mut payload_offset)?)
            } else {
                None
            };
            let compressed_size = if need_compressed_size {
                Some(read_zip64_field(payload, &mut payload_offset)?)
            } else {
                None
            };
            let local_offset = if need_local_offset {
                Some(read_zip64_field(payload, &mut payload_offset)?)
            } else {
                None
            };
            return Ok(Zip64ExtraValues { uncompressed_size, compressed_size, local_offset });
        }
        offset = end;
    }
    Err(invalid(Format::PyTorch, ErrorKind::Missing))
}

// ---------------------------------------------------------------------------
// Entries

/// An entry of a zip archive: its name, its compression method, its stored
/// bytes and the length they decode to.
pub struct ZipEntry<'a> {
    pub name: &'a str,
    pub method: u16,
    pub compressed: &'a [u8],
    pub uncompressed_size: usize,
}

pub struct ZipEntryView {
    pub name: Seq<char>,
    pub method: u16,
    pub compressed: Seq<u8>,
    pub uncompressed_size: usize,
}

impl<'a> View for ZipEntry<'a> {
    type V = ZipEntryView;

    open spec fn view(&self) -> ZipEntryView {
        ZipEntryView {
            name: self.name@,
            method: self.method,
            compressed: self.compressed@,
            uncompressed_size: self.uncompressed_size,
        }
    }
}

/// The most bytes that the output buffer of a DEFLATE stream is sized for
/// ahead of decoding (1 GiB); a longer stream grows the buffer as it decodes.
pub const MAX_INFLATE_CAPACITY: usize = 1_073_741_824;

/// What the DEFLATE stream at the start of `compressed` decodes to, or `None`
/// when it is not a valid stream.
pub uninterp spec fn deflate_decoded(compressed: Seq<u8>) -> Option<Seq<u8>>;

/// `flate2::read::DeflateDecoder` read to its end: trusted to give
/// `deflate_decoded(compressed)`, the bytes that the DEFLATE stream decodes to,
/// or `None` when the decoder reports an error. `capacity` only sizes the
/// output buffer; `Vec::with_capacity` panics above `isize::MAX` bytes, which
/// `requires` leaves out.
#[verifier::external_body]
fn inflate(compressed: &[u8], capacity: usize) -> (r: Option<Vec<u8>>)
    requires
        capacity <= MAX_INFLATE_CAPACITY,
    ensures
        match deflate_decoded(compressed@) {
            Some(bytes) => r matches Some(v) && v@ == bytes,
            None => r is None,
        },
{
    let mut decoder = flate2::read::DeflateDecoder::new(compressed);
    let mut output = Vec::with_capacity(capacity);
    match std::io::Read::read_to_end(&mut decoder, &mut output) {
        Ok(_) => Some(output),
        Err(_) => None,
    }
}

/// What an entry's bytes decode to: stored (method 0) or DEFLATE (method 8)
/// data; other methods are not supported.
pub open spec fn spec_decoded(entry: ZipEntryView) -> Result<Seq<u8>, ErrorKind> {
    if entry.method == 0 {
        Ok(entry.compressed)
    } else if entry.method == 8 {
        match deflate_decoded(entry.compressed) {
            Some(bytes) => Ok(bytes),
            None => Err(ErrorKind::InvalidValue),
        }
    } else {
        Err(ErrorKind::Unsupported)
    }
}

/// The decoded bytes of an entry, which must have the length its header
/// gives.
pub open spec fn spec_entry_bytes(decoded: Result<Seq<u8>, ErrorKind>, uncompressed_size: usize) -> Result<
    Seq<u8>,
    ErrorKind,
> {
    match decoded {
        Err(k) => Err(k),
        Ok(bytes) => if bytes.len() != uncompressed_size {
            Err(ErrorKind::SizeMismatch)
        } else {
            Ok(bytes)
        },
    }
}

/// Checks that decoded bytes have the length that the entry's header gives.
pub fn checked_entry_bytes(decoded: Result<Vec<u8>, ModelError>, uncompressed_size: usize) -> (r: Result<
    Vec<u8>,
    ModelError,
>)
    ensures
        match decoded {
            Err(e) => r matches Err(x) && x == e,
            Ok(bytes) => if bytes@.len() != uncompressed_size {
                r matches Err(x) && x == py_error(ErrorKind::SizeMismatch)
            } else {
                r matches Ok(v) && v@ == bytes@
            },
        },
{
    let bytes = decoded?;
    if bytes.len() != uncompressed_size {
        return Err(invalid(Format::PyTorch, ErrorKind::SizeMismatch));
    }
    Ok(bytes)
}

impl<'a> ZipEntry<'a> {
    /// The entry's bytes, decoded.
    pub fn bytes(&self) -> (r: Result<Vec<u8>, ModelError>)
        ensures
            match spec_entry_bytes(spec_decoded(self@), self.uncompressed_size) {
                Ok(bytes) => r matches Ok(v) && v@ == bytes,
                Err(k) => r matches Err(e) && e == py_error(k),
            },
    {
        let decoded = if self.method == 0 {
            Ok(vstd::slice::slice_to_vec(self.compressed))
        } else if self.method == 8 {
            let capacity = if self.uncompressed_size <= MAX_INFLATE_CAPACITY {
                self.uncompressed_size
            } else {
                MAX_INFLATE_CAPACITY
            };
            match inflate(self.compressed, capacity) {
                Some(bytes) => Ok(bytes),
                None => Err(invalid(Format::PyTorch, ErrorKind::InvalidValue)),
            }
        } else {
            Err(invalid(Format::PyTorch, ErrorKind::Unsupported))
        };
        checked_entry_bytes(decoded, self.uncompressed_size)
    }
}

// ---------------------------------------------------------------------------
// Local headers

/// The signature of a local file header, `PK\x03\x04`.
pub open spec fn local_signature() -> Seq<u8> {
    seq![0x50u8, 0x4b, 0x03, 0x04]
}

/// The signature of a central directory header, `PK\x01\x02`.
pub open spec fn central_signature() -> Seq<u8> {
    seq![0x50u8, 0x4b, 0x01, 0x02]
}

/// The signature of the end of the central directory, `PK\x05\x06`.
pub open spec fn end_signature() -> Seq<u8> {
    seq![0x50u8, 0x4b, 0x05, 0x06]
}

/// Whether `data` holds the four bytes `sig` at `offset`.
pub open spec fn has_signature(data: Seq<u8>, offset: int, sig: Seq<u8>) -> bool {
    0 <= offset && offset + 4 <= data.len() && data.subrange(offset, offset + 4) == sig
}

/// Whether `data` holds the four bytes `sig` at `offset`.
fn signature_at(data: &[u8], offset: usize, sig: [u8; 4]) -> (r: bool)
    ensures
        r == has_signature(data@, offset as int, sig@),
{
    let len = data.len();
    if offset > len || len - offset < 4 {
        return false;
    }
    let r = data[offset] == sig[0] && data[offset + 1] == sig[1] && data[offset + 2] == sig[2]
        && data[offset + 3] == sig[3];
    proof {
        if r {
            assert(data@.subrange(offset as int, offset + 4) =~= sig@);
        } else {
            let w = data@.subrange(offset as int, offset + 4);
            assert(w[0] == data@[offset as int] && w[1] == data@[offset + 1] && w[2] == data@[offset
                + 2] && w[3] == data@[offset + 3]);
        }
    }
    r
}

/// The entries of the local headers that follow one another from `offset`:
/// each one's name, then its extra field, then its data; a header that uses a
/// data descriptor is not supported.
pub open spec fn spec_local_entries(data: Seq<u8>, offset: int) -> Result<Seq<ZipEntryView>, ErrorKind>
    decreases data.len() - offset,
{
    if !has_signature(data, offset, local_signature()) {
        Ok(Seq::empty())
    } else if offset + 30 > data.len() {
        Err(ErrorKind::Truncated)
    } else if le_u16_at(data, offset + 6) & 0x08 != 0 {
        Err(ErrorKind::Unsupported)
    } else {
        let name_start = offset + 30;
        let name_end = name_start + le_u16_at(data, offset + 26);
        let extra_end = name_end + le_u16_at(data, offset + 28);
        let data_end = extra_end + le_u32_at(data, offset + 18);
        if name_end > usize::MAX || extra_end > usize::MAX || data_end > usize::MAX {
            Err(ErrorKind::Overflow)
        } else if name_end > data.len() {
            Err(ErrorKind::Truncated)
        } else {
            match spec_utf8(data.subrange(name_start, name_end)) {
                None => Err(ErrorKind::InvalidUtf8),
                Some(name) => if data_end > data.len() {
                    Err(ErrorKind::Truncated)
                } else {
                    let entry = ZipEntryView {
                        name,
                        method: le_u16_at(data, offset + 8),
                        compressed: data.subrange(extra_end, data_end),
                        uncompressed_size: le_u32_at(data, offset + 22) as usize,
                    };
                    match spec_local_entries(data, data_end) {
                        Err(e) => Err(e),
                        Ok(rest) => Ok(seq![entry] + rest),
                    }
                },
            }
        }
    }
}

/// `acc` followed by the entries of `rest`, or its error.
pub open spec fn prepend_entries(acc: Seq<ZipEntryView>, rest: Result<Seq<ZipEntryView>, ErrorKind>) -> Result<
    Seq<ZipEntryView>,
    ErrorKind,
> {
    match rest {
        Ok(r) => Ok(acc + r),
        Err(e) => Err(e),
    }
}

/// A zip archive's entries.
pub struct ZipArchive<'a> {
    pub entries: Vec<ZipEntry<'a>>,
}

/// The views of a list of entries.
pub open spec fn entry_views<'a>(entries: Seq<ZipEntry<'a>>) -> Seq<ZipEntryView> {
    entries.map_values(|e: ZipEntry<'a>| e@)
}

impl<'a> View for ZipArchive<'a> {
    type V = Seq<ZipEntryView>;

    open spec fn view(&self) -> Seq<ZipEntryView> {
        entry_views(self.entries@)
    }
}

impl<'a> ZipArchive<'a> {
    /// Reads the entries by walking the local headers from the start.
    pub fn open_local(data: &'a [u8]) -> (r: Result<Self, ModelError>)
        ensures
            match spec_local_entries(data@, 0) {
                Ok(entries) => r matches Ok(a) && a@ == entries,
                Err(k) => r matches Err(e) && e == py_error(k),
            },
    {
        let len = data.len();
        let mut offset: usize = 0;
        let mut entries: Vec<ZipEntry<'a>> = Vec::new();
        proof {
            assert(entry_views(entries@) + Seq::<ZipEntryView>::empty() =~= Seq::<ZipEntryView>::empty());
            assert(prepend_entries(entry_views(entries@), spec_local_entries(data@, 0)) =~~= spec_local_entries(data@, 0));
        }
        while signature_at(data, offset, [0x50u8, 0x4b, 0x03, 0x04])
            invariant
                len == data@.len(),
                offset <= len,
                prepend_entries(entry_views(entries@), spec_local_entries(data@, offset as int))
                    == spec_local_entries(data@, 0),
            decreases data@.len() - offset,
        {
            proof {
                assert([0x50u8, 0x4b, 0x03, 0x04]@ =~= local_signature());
            }
            if len - offset < 30 {
                return Err(invalid(Format::PyTorch, ErrorKind::Truncated));
            }
            let flags = le_u16(data, offset + 6);
            if flags & 0x08 != 0 {
                return Err(invalid(Format::PyTorch, ErrorKind::Unsupported));
            }
            let method = le_u16(data, offset + 8);
            let compressed_size = le_u32(data, offset + 18) as usize;
            let uncompressed_size = le_u32(data, offset + 22) as usize;
            let name_len = le_u16(data, offset + 26) as usize;
            let extra_len = le_u16(data, offset + 28) as usize;
            let name_start = offset + 30;
            let name_end = match name_start.checked_add(name_len) {
                Some(v) => v,
                None => return Err(invalid(Format::PyTorch, ErrorKind::Overflow)),
            };
            let extra_end = match name_end.checked_add(extra_len) {
                Some(v) => v,
                None => return Err(invalid(Format::PyTorch, ErrorKind::Overflow)),
            };
            let data_end = match extra_end.checked_add(compressed_size) {
                Some(v) => v,
                None => return Err(invalid(Format::PyTorch, ErrorKind::Overflow)),
            };
            if name_end > len {
                return Err(invalid(Format::PyTorch, ErrorKind::Truncated));
            }
            let name = match utf8_str(slice_range(data, name_start, name_end)) {
                Some(name) => name,
                None => return Err(invalid(Format::PyTorch, ErrorKind::InvalidUtf8)),
            };
            if data_end > len {
                return Err(invalid(Format::PyTorch, ErrorKind::Truncated));
            }
            let compressed = slice_range(data, extra_end, data_end);
            let entry = ZipEntry { name, method, compressed, uncompressed_size };
            let ghost before = entry_views(entries@);
            entries.push(entry);
            proof {
                assert(entry_views(entries@) =~= before.push(entry@));
                if let Ok(rest) = spec_local_entries(data@, data_end as int) {
                    assert(before + (seq![entry@] + rest) =~= before.push(entry@) + rest);
                }
            }
            offset = data_end;
        }
        proof {
            assert([0x50u8, 0x4b, 0x03, 0x04]@ =~= local_signature());
            assert(entry_views(entries@) + Seq::<ZipEntryView>::empty() =~= entry_views(entries@));
        }
        Ok(ZipArchive { entries })
    }
}

// ---------------------------------------------------------------------------
// The central directory

/// The sizes and the local header offset of a central header: the 32-bit
/// fields, each replaced by its zip64 value when it is `u32::MAX`.
pub open spec fn spec_central_sizes(data: Seq<u8>, offset: int, name_end: int) -> Result<(int, int, int), ErrorKind> {
    let c32 = le_u32_at(data, offset + 20);
    let u32v = le_u32_at(data, offset + 24);
    let l32 = le_u32_at(data, offset + 42);
    let extra_len = le_u16_at(data, offset + 30);
    if c32 == u32::MAX || u32v == u32::MAX || l32 == u32::MAX {
        if name_end + extra_len > data.len() {
            Err(ErrorKind::Truncated)
        } else {
            match spec_zip64_extra(
                data.subrange(name_end, name_end + extra_len),
                0,
                u32v == u32::MAX,
                c32 == u32::MAX,
                l32 == u32::MAX,
            ) {
                Err(e) => Err(e),
                Ok((u, c, l)) => Ok(
                    (
                        match c {
                            Some(v) => v as int,
                            None => c32 as int,
                        },
                        match u {
                            Some(v) => v as int,
                            None => u32v as int,
                        },
                        match l {
                            Some(v) => v as int,
                            None => l32 as int,
                        },
                    ),
                ),
            }
        }
    } else {
        Ok((c32 as int, u32v as int, l32 as int))
    }
}

/// The entry of the central header at `offset` and the offset of the next
/// header: the central header gives the name and the sizes, the local header
/// that it points to gives where the data starts.
pub open spec fn spec_central_entry(data: Seq<u8>, offset: int) -> Result<(ZipEntryView, int), ErrorKind> {
    if offset < 0 || offset + 46 > data.len() {
        Err(ErrorKind::Truncated)
    } else if data.subrange(offset, offset + 4) != central_signature() {
        Err(ErrorKind::NotFormat)
    } else {
        let name_start = offset + 46;
        let name_end = name_start + le_u16_at(data, offset + 28);
        let next = name_end + le_u16_at(data, offset + 30) + le_u16_at(data, offset + 32);
        if name_end > usize::MAX || next > usize::MAX {
            Err(ErrorKind::Overflow)
        } else if name_end > data.len() {
            Err(ErrorKind::Truncated)
        } else {
            match spec_utf8(data.subrange(name_start, name_end)) {
                None => Err(ErrorKind::InvalidUtf8),
                Some(name) => match spec_central_sizes(data, offset, name_end) {
                    Err(e) => Err(e),
                    Ok((compressed_size, uncompressed_size, local_offset)) => if compressed_size
                        > usize::MAX || uncompressed_size > usize::MAX || local_offset > usize::MAX {
                        Err(ErrorKind::Overflow)
                    } else if local_offset + 30 > data.len() {
                        Err(ErrorKind::Truncated)
                    } else if data.subrange(local_offset, local_offset + 4) != local_signature() {
                        Err(ErrorKind::NotFormat)
                    } else {
                        let data_start = local_offset + 30 + le_u16_at(data, local_offset + 26)
                            + le_u16_at(data, local_offset + 28);
                        let data_end = data_start + compressed_size;
                        if data_start > usize::MAX || data_end > usize::MAX {
                            Err(ErrorKind::Overflow)
                        } else if data_end > data.len() {
                            Err(ErrorKind::Truncated)
                        } else {
                            Ok(
                                (
                                    ZipEntryView {
                                        name,
                                        method: le_u16_at(data, offset + 10),
                                        compressed: data.subrange(data_start, data_end),
                                        uncompressed_size: uncompressed_size as usize,
                                    },
                                    next,
                                ),
                            )
                        }
                    },
                },
            }
        }
    }
}

/// The entries of `count` central headers from `offset` on.
pub open spec fn spec_central_entries(data: Seq<u8>, offset: int, count: nat) -> Result<Seq<ZipEntryView>, ErrorKind>
    decreases count,
{
    if count == 0 {
        Ok(Seq::empty())
    } else {
        match spec_central_entry(data, offset) {
            Err(e) => Err(e),
            Ok((entry, next)) => match spec_central_entries(data, next, (count - 1) as nat) {
                Err(e) => Err(e),
                Ok(rest) => Ok(seq![entry] + rest),
            },
        }
    }
}

/// The last offset below `n` where the end of the central directory's
/// signature starts.
pub open spec fn spec_last_end_signature(data: Seq<u8>, n: int) -> Option<int>
    decreases n,
{
    if n <= 0 {
        None
    } else if has_signature(data, n - 1, end_signature()) {
        Some(n - 1)
    } else {
        spec_last_end_signature(data, n - 1)
    }
}

/// The entries that the central directory lists: the last end record gives
/// the number of entries and the offset of the first header.
pub open spec fn spec_central_directory(data: Seq<u8>) -> Result<Seq<ZipEntryView>, ErrorKind> {
    match spec_last_end_signature(data, data.len() - 3) {
        None => Err(ErrorKind::Missing),
        Some(end) => if end + 22 > data.len() {
            Err(ErrorKind::Truncated)
        } else {
            spec_central_entries(
                data,
                le_u32_at(data, end + 16) as int,
                le_u16_at(data, end + 10) as nat,
            )
        },
    }
}

/// The entries of a zip archive: from the central directory, or, when that
/// cannot be read, from the local headers; the archive must start with a
/// local header.
pub open spec fn spec_zip_archive(data: Seq<u8>) -> Result<Seq<ZipEntryView>, ErrorKind> {
    if !has_signature(data, 0, local_signature()) {
        Err(ErrorKind::NotFormat)
    } else {
        match spec_central_directory(data) {
            Ok(entries) => Ok(entries),
            Err(_) => spec_local_entries(data, 0),
        }
    }
}

/// Reads the entry of the central header at `offset`.
fn central_entry<'a>(data: &'a [u8], offset: usize) -> (r: Result<(ZipEntry<'a>, usize), ModelError>)
    ensures
        match spec_central_entry(data@, offset as int) {
            Ok((entry, next)) => r matches Ok((e, n)) && e@ == entry && n == next,
            Err(k) => r matches Err(e) && e == py_error(k),
        },
{
    let len = data.len();
    if offset > len || len - offset < 46 {
        return Err(invalid(Format::PyTorch, ErrorKind::Truncated));
    }
    if !signature_at(data, offset, [0x50u8, 0x4b, 0x01, 0x02]) {
        proof {
            assert([0x50u8, 0x4b, 0x01, 0x02]@ =~= central_signature());
        }
        return Err(invalid(Format::PyTorch, ErrorKind::NotFormat));
    }
    proof {
        assert([0x50u8, 0x4b, 0x01, 0x02]@ =~= central_signature());
    }
    let method = le_u16(data, offset + 10);
    let compressed32 = le_u32(data, offset + 20);
    let uncompressed32 = le_u32(data, offset + 24);
    let name_len = le_u16(data, offset + 28) as usize;
    let extra_len = le_u16(data, offset + 30) as usize;
    let comment_len = le_u16(data, offset + 32) as usize;
    let local32 = le_u32(data, offset + 42);
    let name_start = offset + 46;
    let name_end = match name_start.checked_add(name_len) {
        Some(v) => v,
        None => return Err(invalid(Format::PyTorch, ErrorKind::Overflow)),
    };
    let next = match name_end.checked_add(extra_len) {
        Some(v) => match v.checked_add(comment_len) {
            Some(w) => w,
            None => return Err(invalid(Format::PyTorch, ErrorKind::Overflow)),
        },
        None => return Err(invalid(Format::PyTorch, ErrorKind::Overflow)),
    };
    if name_end > len {
        return Err(invalid(Format::PyTorch, ErrorKind::Truncated));
    }
    let name = match utf8_str(slice_range(data, name_start, name_end)) {
        Some(name) => name,
        None => return Err(invalid(Format::PyTorch, ErrorKind::InvalidUtf8)),
    };
    let mut compressed_size = compressed32 as u64;
    let mut uncompressed_size = uncompressed32 as u64;
    let mut local_offset = local32 as u64;
    if compressed32 == u32::MAX || uncompressed32 == u32::MAX || local32 == u32::MAX {
        if name_end + extra_len > len {
            return Err(invalid(Format::PyTorch, ErrorKind::Truncated));
        }
        let extra = slice_range(data, name_end, name_end + extra_len);
        let zip64 = zip64_extra_values(
            extra,
            uncompressed32 == u32::MAX,
            compressed32 == u32::MAX,
            local32 == u32::MAX,
        )?;
        if let Some(value) = zip64.uncompressed_size {
            uncompressed_size = value;
        }
        if let Some(value) = zip64.compressed_size {
            compressed_size = value;
        }
        if let Some(value) = zip64.local_offset {
            local_offset = value;
        }
    }
    if compressed_size > usize::MAX as u64 || uncompressed_size > usize::MAX as u64 || local_offset
        > usize::MAX as u64 {
        return Err(invalid(Format::PyTorch, ErrorKind::Overflow));
    }
    let compressed_size = compressed_size as usize;
    let uncompressed_size = uncompressed_size as usize;
    let local_offset = local_offset as usize;
    if local_offset > len || len - local_offset < 30 {
        return Err(invalid(Format::PyTorch, ErrorKind::Truncated));
    }
    if !signature_at(data, local_offset, [0x50u8, 0x4b, 0x03, 0x04]) {
        proof {
            assert([0x50u8, 0x4b, 0x03, 0x04]@ =~= local_signature());
        }
        return Err(invalid(Format::PyTorch, ErrorKind::NotFormat));
    }
    proof {
        assert([0x50u8, 0x4b, 0x03, 0x04]@ =~= local_signature());
    }
    let local_name_len = le_u16(data, local_offset + 26) as usize;
    let local_extra_len = le_u16(data, local_offset + 28) as usize;
    let data_start = match (local_offset + 30).checked_add(local_name_len) {
        Some(v) => match v.checked_add(local_extra_len) {
            Some(w) => w,
            None => return Err(invalid(Format::PyTorch, ErrorKind::Overflow)),
        },
        None => return Err(invalid(Format::PyTorch, ErrorKind::Overflow)),
    };
    let data_end = match data_start.checked_add(compressed_size) {
        Some(v) => v,
        None => return Err(invalid(Format::PyTorch, ErrorKind::Overflow)),
    };
    if data_end > len {
        return Err(invalid(Format::PyTorch, ErrorKind::Truncated));
    }
    let compressed = slice_range(data, data_start, data_end);
    Ok((ZipEntry { name, method, compressed, uncompressed_size }, next))
}

impl<'a> ZipArchive<'a> {
    /// Reads the entries that the central directory lists.
    pub fn open_central(data: &'a [u8]) -> (r: Result<Self, ModelError>)
        ensures
            match spec_central_directory(data@) {
                Ok(entries) => r matches Ok(a) && a@ == entries,
                Err(k) => r matches Err(e) && e == py_error(k),
            },
    {
        let len = data.len();
        if len < 4 {
            return Err(invalid(Format::PyTorch, ErrorKind::Missing));
        }
        let mut n: usize = len - 3;
        loop
            invariant
                len == data@.len() >= 4,
                n <= len - 3,
                spec_last_end_signature(data@, n as int) == spec_last_end_signature(
                    data@,
                    data@.len() - 3,
                ),
            ensures
                n > 0,
                spec_last_end_signature(data@, data@.len() - 3) == Some((n - 1) as int),
            decreases n,
        {
            if n == 0 {
                return Err(invalid(Format::PyTorch, ErrorKind::Missing));
            }
            proof {
                assert([0x50u8, 0x4b, 0x05, 0x06]@ =~= end_signature());
            }
            if signature_at(data, n - 1, [0x50u8, 0x4b, 0x05, 0x06]) {
                break;
            }
            n = n - 1;
        }
        let end = n - 1;
        if end > len || len - end < 22 {
            return Err(invalid(Format::PyTorch, ErrorKind::Truncated));
        }
        let entry_count = le_u16(data, end + 10);
        let central_offset = le_u32(data, end + 16) as usize;
        let mut offset = central_offset;
        let mut entries: Vec<ZipEntry<'a>> = Vec::new();
        let mut i: u16 = 0;
        let ghost total = spec_central_entries(data@, central_offset as int, entry_count as nat);
        proof {
            assert(entry_views(entries@) + Seq::<ZipEntryView>::empty() =~= Seq::<ZipEntryView>::empty());
            assert(prepend_entries(entry_views(entries@), total) =~~= total);
        }
        while i < entry_count
            invariant
                i <= entry_count,
                total == spec_central_entries(data@, central_offset as int, entry_count as nat),
                spec_central_directory(data@) == total,
                prepend_entries(
                    entry_views(entries@),
                    spec_central_entries(data@, offset as int, (entry_count - i) as nat),
                ) == total,
            decreases entry_count - i,
        {
            let (entry, next) = central_entry(data, offset)?;
            let ghost before = entry_views(entries@);
            entries.push(entry);
            proof {
                assert(entry_views(entries@) =~= before.push(entry@));
                if let Ok(rest) = spec_central_entries(data@, next as int, (entry_count - i - 1) as nat) {
                    assert(before + (seq![entry@] + rest) =~= before.push(entry@) + rest);
                }
            }
            offset = next;
            i = i + 1;
        }
        proof {
            assert(entry_views(entries@) + Seq::<ZipEntryView>::empty() =~= entry_views(entries@));
        }
        Ok(ZipArchive { entries })
    }

    /// Reads a zip archive: from its central directory, or from its local
    /// headers when the directory cannot be read.
    pub fn open(data: &'a [u8]) -> (r: Result<Self, ModelError>)
        ensures
            match spec_zip_archive(data@) {
                Ok(entries) => r matches Ok(a) && a@ == entries,
                Err(k) => r matches Err(e) && e == py_error(k),
            },
    {
        if !signature_at(data, 0, [0x50u8, 0x4b, 0x03, 0x04]) {
            proof {
                assert([0x50u8, 0x4b, 0x03, 0x04]@ =~= local_signature());
            }
            return Err(invalid(Format::PyTorch, ErrorKind::NotFormat));
        }
        proof {
            assert([0x50u8, 0x4b, 0x03, 0x04]@ =~= local_signature());
        }
        match Self::open_central(data) {
            Ok(archive) => Ok(archive),
            Err(_) => Self::open_local(data),
        }
    }
}

} // verus!
