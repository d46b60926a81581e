//! The tar archives that the oldest PyTorch versions saved.
use vstd::prelude::*;
use crate::error::{ErrorKind, Format, ModelError, invalid};
use crate::onnx::slice_range;
use crate::pytorch::py_error;
use crate::text::{spec_utf8, str_eq, utf8_str};

verus! {

/// The length of the name at the start of a tar header: up to its first zero
/// byte, at most 100 bytes.
pub open spec fn spec_tar_name_len(header: Seq<u8>, i: int) -> int
    decreases 100 - i,
{
    if i >= 100 || i < 0 {
        100
    } else if header[i] == 0 {
        i
    } else {
        spec_tar_name_len(header, i + 1)
    }
}

proof fn lemma_tar_name_len_bounds(header: Seq<u8>, i: int)
    requires
        0 <= i <= 100,
    ensures
        i <= spec_tar_name_len(header, i) <= 100,
    decreases 100 - i,
{
    if i < 100 && header[i] != 0 {
        lemma_tar_name_len_bounds(header, i + 1);
    }
}

/// The name that a tar header holds, which must be UTF-8.
pub open spec fn spec_tar_header_name(header: Seq<u8>) -> Result<Seq<char>, ErrorKind> {
    match spec_utf8(header.subrange(0, spec_tar_name_len(header, 0))) {
        Some(name) => Ok(name),
        None => Err(ErrorKind::InvalidUtf8),
    }
}

/// Reads the name of a tar header.
pub fn tar_header_name(header: &[u8]) -> (r: Result<&str, ModelError>)
    requires
        header@.len() >= 100,
    ensures
        match spec_tar_header_name(header@) {
            Ok(name) => r matches Ok(s) && s@ == name,
            Err(k) => r matches Err(e) && e == py_error(k),
        },
{
    let mut end: usize = 0;
    while end < 100 && header[end] != 0
        invariant
            header@.len() >= 100,
            end <= 100,
            spec_tar_name_len(header@, end as int) == spec_tar_name_len(header@, 0),
        decreases 100 - end,
    {
        end = end + 1;
    }
    match utf8_str(slice_range(header, 0, end)) {
        Some(name) => Ok(name),
        None => Err(invalid(Format::PyTorch, ErrorKind::InvalidUtf8)),
    }
}

/// Whether `b` is ASCII whitespace: space, tab, line feed, form feed or
/// carriage return.
pub open spec fn is_ascii_space(b: u8) -> bool {
    b == 0x20 || b == 0x09 || b == 0x0a || b == 0x0c || b == 0x0d
}

/// The number that the octal digits of `s` spell, whitespace skipped: an
/// error at the first byte that is no digit, or when the number overflows.
pub open spec fn spec_octal(s: Seq<u8>) -> Result<int, ErrorKind>
    decreases s.len(),
{
    if s.len() == 0 {
        Ok(0)
    } else {
        match spec_octal(s.drop_last()) {
            Err(e) => Err(e),
            Ok(v) => {
                let b = s.last();
                if is_ascii_space(b) {
                    Ok(v)
                } else if !(0x30 <= b <= 0x37) {
                    Err(ErrorKind::InvalidValue)
                } else if v * 8 + (b - 0x30) > usize::MAX {
                    Err(ErrorKind::Overflow)
                } else {
                    Ok(v * 8 + (b - 0x30))
                }
            },
        }
    }
}

/// The bytes of `s` before its first zero byte.
pub open spec fn before_zero(s: Seq<u8>, i: int) -> Seq<u8>
    decreases s.len() - i,
{
    if i < 0 || i >= s.len() {
        s
    } else if s[i] == 0 {
        s.subrange(0, i)
    } else {
        before_zero(s, i + 1)
    }
}

pub proof fn lemma_octal_range(s: Seq<u8>)
    ensures
        spec_octal(s) matches Ok(v) ==> 0 <= v <= usize::MAX,
    decreases s.len(),
{
    if s.len() > 0 {
        lemma_octal_range(s.drop_last());
    }
}

proof fn lemma_octal_err(s: Seq<u8>, k: int)
    requires
        0 <= k <= s.len(),
        spec_octal(s.subrange(0, k)) is Err,
    ensures
        spec_octal(s) == spec_octal(s.subrange(0, k)),
    decreases s.len() - k,
{
    if k < s.len() {
        assert(s.subrange(0, k + 1).drop_last() =~= s.subrange(0, k));
        lemma_octal_err(s, k + 1);
    } else {
        assert(s.subrange(0, k) =~= s);
    }
}

/// Reads an octal number field of a tar header: the digits before the first
/// zero byte, whitespace skipped.
pub fn tar_octal_usize(data: &[u8]) -> (r: Result<usize, ModelError>)
    ensures
        match spec_octal(before_zero(data@, 0)) {
            Ok(v) => 0 <= v <= usize::MAX && r == Ok::<usize, ModelError>(v as usize),
            Err(k) => r matches Err(e) && e == py_error(k),
        },
{
    let mut end: usize = 0;
    while end < data.len() && data[end] != 0
        invariant
            end <= data@.len(),
            before_zero(data@, end as int) == before_zero(data@, 0),
        decreases data@.len() - end,
    {
        end = end + 1;
    }
    proof {
        if end == data@.len() {
            assert(data@.subrange(0, end as int) =~= data@);
        }
    }
    let digits = slice_range(data, 0, end);
    let mut value: usize = 0;
    let mut i: usize = 0;
    proof {
        assert(digits@.subrange(0, 0) =~= Seq::<u8>::empty());
        lemma_octal_range(digits@);
    }
    while i < end
        invariant
            digits@ == before_zero(data@, 0),
            spec_octal(digits@) matches Ok(v) ==> 0 <= v <= usize::MAX,
            digits@.len() == end,
            i <= end,
            spec_octal(digits@.subrange(0, i as int)) == Ok::<int, ErrorKind>(value as int),
        decreases end - i,
    {
        let b = digits[i];
        proof {
            assert(digits@.subrange(0, i + 1).drop_last() =~= digits@.subrange(0, i as int));
        }
        if b == 0x20 || b == 0x09 || b == 0x0a || b == 0x0c || b == 0x0d {
            i = i + 1;
            continue;
        }
        if b < 0x30 || b > 0x37 {
            proof {
                lemma_octal_err(digits@, i + 1);
            }
            return Err(invalid(Format::PyTorch, ErrorKind::InvalidValue));
        }
        let next = match value.checked_mul(8) {
            Some(v) => v.checked_add((b - 0x30) as usize),
            None => None,
        };
        value = match next {
            Some(v) => v,
            None => {
                proof {
                    lemma_octal_err(digits@, i + 1);
                }
                return Err(invalid(Format::PyTorch, ErrorKind::Overflow));
            },
        };
        i = i + 1;
    }
    proof {
        assert(digits@.subrange(0, end as int) =~= digits@);
    }
    Ok(value)
}

// ---------------------------------------------------------------------------
// The archive

/// An entry of a tar archive: its name and its bytes.
pub struct TarEntry<'a> {
    pub name: &'a str,
    pub data: &'a [u8],
}

/// The name and the bytes of an entry.
pub open spec fn tar_entry_view(e: TarEntry) -> (Seq<char>, Seq<u8>) {
    (e.name@, e.data@)
}

/// A tar archive that holds PyTorch's legacy entries.
pub struct PyTorchTarArchive<'a> {
    pub entries: Vec<TarEntry<'a>>,
}

impl<'a> View for PyTorchTarArchive<'a> {
    type V = Seq<(Seq<char>, Seq<u8>)>;

    open spec fn view(&self) -> Seq<(Seq<char>, Seq<u8>)> {
        self.entries@.map_values(|e: TarEntry<'a>| tar_entry_view(e))
    }
}

/// Whether the 512 bytes at `offset` are all zero: the end of the archive.
pub open spec fn is_zero_block(data: Seq<u8>, offset: int) -> bool {
    forall|i: int| offset <= i < offset + 512 ==> data[i] == 0
}

/// The bytes of a size rounded up to whole 512-byte blocks.
pub open spec fn padded(size: int) -> int {
    (size + 511) / 512 * 512
}

pub proof fn lemma_padded_bounds(size: int)
    requires
        size >= 0,
    ensures
        size <= padded(size) <= size + 511,
{
    assert(size <= (size + 511) / 512 * 512 <= size + 511) by (nonlinear_arith)
        requires
            size >= 0,
    ;
}

/// The entries of the archive from the header at `offset` on: each header's
/// name and size, then the entry's bytes padded to whole blocks; entries
/// without a name are left out; a zero block or the end of the data ends the
/// archive.
pub open spec fn spec_tar_entries(data: Seq<u8>, offset: int) -> Result<Seq<(Seq<char>, Seq<u8>)>, ErrorKind>
    decreases data.len() + 512 - offset,
{
    if offset < 0 || offset + 512 > data.len() || is_zero_block(data, offset) {
        Ok(Seq::empty())
    } else {
        let header = data.subrange(offset, offset + 512);
        match spec_tar_header_name(header) {
            Err(e) => Err(e),
            Ok(name) => match spec_octal(before_zero(header.subrange(124, 136), 0)) {
                Err(e) => Err(e),
                Ok(size) => {
                    let start = offset + 512;
                    if start + size > usize::MAX {
                        Err(ErrorKind::Overflow)
                    } else if start + size > data.len() {
                        Err(ErrorKind::Truncated)
                    } else if size + 511 > usize::MAX || start + padded(size) > usize::MAX {
                        Err(ErrorKind::Overflow)
                    } else {
                        proof {
                            lemma_octal_range(before_zero(header.subrange(124, 136), 0));
                            lemma_padded_bounds(size);
                        }
                        let entry = (name, data.subrange(start, start + size));
                        match spec_tar_entries(data, start + padded(size)) {
                            Err(e) => Err(e),
                            Ok(rest) => Ok(
                                if name.len() == 0 {
                                    rest
                                } else {
                                    seq![entry] + rest
                                },
                            ),
                        }
                    }
                },
            },
        }
    }
}

/// The archive's entries, which must not be empty.
pub open spec fn spec_tar_archive(data: Seq<u8>) -> Result<Seq<(Seq<char>, Seq<u8>)>, ErrorKind> {
    match spec_tar_entries(data, 0) {
        Err(e) => Err(e),
        Ok(entries) => if entries.len() == 0 {
            Err(ErrorKind::NotFormat)
        } else {
            Ok(entries)
        },
    }
}

/// The bytes of the first entry named `name`.
pub open spec fn spec_tar_find(entries: Seq<(Seq<char>, Seq<u8>)>, name: Seq<char>) -> Option<Seq<u8>>
    decreases entries.len(),
{
    if entries.len() == 0 {
        None
    } else if entries[0].0 == name {
        Some(entries[0].1)
    } else {
        spec_tar_find(entries.drop_first(), name)
    }
}

/// `acc` followed by the entries of `rest`, or its error.
pub open spec fn prepend_entries(
    acc: Seq<(Seq<char>, Seq<u8>)>,
    rest: Result<Seq<(Seq<char>, Seq<u8>)>, ErrorKind>,
) -> Result<Seq<(Seq<char>, Seq<u8>)>, ErrorKind> {
    match rest {
        Ok(r) => Ok(acc + r),
        Err(e) => Err(e),
    }
}

/// Whether the 512 bytes at `offset` are all zero.
fn zero_block(data: &[u8], offset: usize) -> (r: bool)
    requires
        offset + 512 <= data@.len(),
    ensures
        r == is_zero_block(data@, offset as int),
{
    let len = data.len();
    let end = offset + 512;
    let mut i: usize = offset;
    while i < end
        invariant
            end == offset + 512,
            offset + 512 <= data@.len(),
            offset <= i <= offset + 512,
            forall|j: int| offset <= j < i ==> data@[j] == 0,
        decreases offset + 512 - i,
    {
        if data[i] != 0 {
            return false;
        }
        i = i + 1;
    }
    true
}

impl<'a> PyTorchTarArchive<'a> {
    /// Reads the entries of a tar archive.
    pub fn open(data: &'a [u8]) -> (r: Result<Self, ModelError>)
        ensures
            match spec_tar_archive(data@) {
                Ok(entries) => r matches Ok(a) && a@ == entries,
                Err(k) => r matches Err(e) && e == py_error(k),
            },
    {
        let len = data.len();
        let mut offset: usize = 0;
        let mut entries: Vec<TarEntry<'a>> = Vec::new();
        let ghost views = Seq::<(Seq<char>, Seq<u8>)>::empty();
        proof {
            assert(entries@.map_values(|e: TarEntry<'a>| tar_entry_view(e)) =~= views);
            assert(views + Seq::<(Seq<char>, Seq<u8>)>::empty() =~= views);
        }
        loop
            invariant
                len == data@.len(),
                views == entries@.map_values(|e: TarEntry<'a>| tar_entry_view(e)),
                prepend_entries(views, spec_tar_entries(data@, offset as int)) == spec_tar_entries(
                    data@,
                    0,
                ),
            ensures
                spec_tar_entries(data@, 0) == Ok::<Seq<(Seq<char>, Seq<u8>)>, ErrorKind>(views),
                views == entries@.map_values(|e: TarEntry<'a>| tar_entry_view(e)),
            decreases data@.len() + 512 - offset,
        {
            let block_end = match offset.checked_add(512) {
                Some(end) => end,
                None => {
                    proof {
                        assert(views + Seq::<(Seq<char>, Seq<u8>)>::empty() =~= views);
                    }
                    break;
                },
            };
            if block_end > len {
                proof {
                    assert(views + Seq::<(Seq<char>, Seq<u8>)>::empty() =~= views);
                }
                break;
            }
            if zero_block(data, offset) {
                proof {
                    assert(views + Seq::<(Seq<char>, Seq<u8>)>::empty() =~= views);
                }
                break;
            }
            let header = slice_range(data, offset, block_end);
            let name = tar_header_name(header)?;
            let size = tar_octal_usize(slice_range(header, 124, 136))?;
            let start = block_end;
            let end = match start.checked_add(size) {
                Some(end) => end,
                None => return Err(invalid(Format::PyTorch, ErrorKind::Overflow)),
            };
            if end > len {
                return Err(invalid(Format::PyTorch, ErrorKind::Truncated));
            }
            let payload = slice_range(data, start, end);
            let rounded = match size.checked_add(511) {
                Some(v) => v / 512 * 512,
                None => return Err(invalid(Format::PyTorch, ErrorKind::Overflow)),
            };
            let next = match start.checked_add(rounded) {
                Some(next) => next,
                None => return Err(invalid(Format::PyTorch, ErrorKind::Overflow)),
            };
            let ghost before = views;
            if !name.is_empty() {
                entries.push(TarEntry { name, data: payload });
                proof {
                    views = views.push((name@, payload@));
                    assert(entries@.map_values(|e: TarEntry<'a>| tar_entry_view(e)) =~= views);
                }
            }
            proof {
                lemma_padded_bounds(size as int);
                assert(padded(size as int) == rounded);
                if let Ok(rest) = spec_tar_entries(data@, next as int) {
                    if name@.len() != 0 {
                        assert(before + (seq![(name@, payload@)] + rest) =~= views + rest);
                    }
                }
            }
            offset = next;
        }
        if entries.len() == 0 {
            return Err(invalid(Format::PyTorch, ErrorKind::NotFormat));
        }
        Ok(PyTorchTarArchive { entries })
    }

    /// The bytes of the first entry named `name`.
    pub fn find(&self, name: &str) -> (r: Option<&'a [u8]>)
        ensures
            match spec_tar_find(self@, name@) {
                Some(bytes) => r matches Some(b) && b@ == bytes,
                None => r is None,
            },
    {
        let mut i: usize = 0;
        proof {
            assert(self@.subrange(0, self@.len() as int) =~= self@);
        }
        while i < self.entries.len()
            invariant
                i <= self@.len(),
                spec_tar_find(self@.subrange(i as int, self@.len() as int), name@) == spec_tar_find(
                    self@,
                    name@,
                ),
            decreases self@.len() - i,
        {
            proof {
                assert(self@.subrange(i as int, self@.len() as int).drop_first() =~= self@.subrange(
                    i + 1,
                    self@.len() as int,
                ));
            }
            if str_eq(self.entries[i].name, name) {
                return Some(self.entries[i].data);
            }
            i = i + 1;
        }
        None
    }

    /// The bytes of the entry named `name`, which must be there.
    pub fn entry(&self, name: &str) -> (r: Result<&'a [u8], ModelError>)
        ensures
            match spec_tar_find(self@, name@) {
                Some(bytes) => r matches Ok(b) && b@ == bytes,
                None => r matches Err(e) && e == py_error(ErrorKind::Missing),
            },
    {
        match self.find(name) {
            Some(bytes) => Ok(bytes),
            None => Err(invalid(Format::PyTorch, ErrorKind::Missing)),
        }
    }

    /// Whether `data` is a tar archive with a `pickle` entry.
    pub fn detect(data: &'a [u8]) -> (r: bool)
        ensures
            r == (spec_tar_archive(data@) matches Ok(entries) && spec_tar_find(entries, "pickle"@) is Some),
    {
        match Self::open(data) {
            Ok(archive) => archive.find("pickle").is_some(),
            Err(_) => false,
        }
    }

    /// Reads a tar archive, which must have a `pickle` entry.
    pub fn read(data: &'a [u8]) -> (r: Result<Self, ModelError>)
        ensures
            match spec_tar_archive(data@) {
                Ok(entries) => if spec_tar_find(entries, "pickle"@) is Some {
                    r matches Ok(a) && a@ == entries
                } else {
                    r matches Err(e) && e == py_error(ErrorKind::Missing)
                },
                Err(k) => r matches Err(e) && e == py_error(k),
            },
    {
        let archive = Self::open(data)?;
        if archive.find("pickle").is_none() {
            return Err(invalid(Format::PyTorch, ErrorKind::Missing));
        }
        Ok(archive)
    }
}

} // verus!
