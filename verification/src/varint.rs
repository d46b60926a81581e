use vstd::prelude::*;
use crate::error::ErrorKind;

verus! {

/// The low seven bits of `byte`, placed at bit `7 * k` of a `u64`.
pub open spec fn varint_part(byte: u8, k: nat) -> u64 {
    ((byte & 0x7f) as u64) << ((7 * k) as u64)
}

/// Where a reader that reads a varint at `pos` stops when the varint is refused:
/// at the end of the data when it runs out, else after the ten bytes it looked at.
pub open spec fn varint_error_stop(data: Seq<u8>, pos: int) -> int {
    if pos + 10 <= data.len() {
        pos + 10
    } else {
        data.len() as int
    }
}

/// Reads the base-128 varint whose first byte is `data[pos]`, having already
/// gathered `k` bytes into `acc`: a varint ends at the first byte whose high bit
/// is clear, holds at most ten bytes, and its bits beyond the 64th are dropped.
/// The result is the value and the position just past the varint.
pub open spec fn varint_from(data: Seq<u8>, pos: int, k: nat, acc: u64) -> Result<
    (u64, int),
    ErrorKind,
>
    decreases 10 - k,
{
    if k >= 10 {
        Err(ErrorKind::VarintTooLong)
    } else if pos + k < 0 || pos + k >= data.len() {
        Err(ErrorKind::Truncated)
    } else {
        let byte = data[pos + k];
        let acc2 = acc | varint_part(byte, k);
        if byte & 0x80 == 0 {
            Ok((acc2, pos + k + 1))
        } else {
            varint_from(data, pos, k + 1, acc2)
        }
    }
}

/// The varint at `pos` in `data`, with the position after it.
pub open spec fn spec_varint(data: Seq<u8>, pos: int) -> Result<(u64, int), ErrorKind> {
    varint_from(data, pos, 0, 0)
}

/// A varint that is read takes between one and ten bytes, all inside the data.
pub proof fn lemma_varint_bounds(data: Seq<u8>, pos: int, k: nat, acc: u64)
    requires
        0 <= pos,
    ensures
        varint_from(data, pos, k, acc) matches Ok((v, p)) ==> pos + k < p <= data.len() && p
            <= pos + 10,
    decreases 10 - k,
{
    if k < 10 && pos + k < data.len() {
        let byte = data[pos + k];
        if byte & 0x80 != 0 {
            lemma_varint_bounds(data, pos, k + 1, acc | varint_part(byte, k));
        }
    }
}

/// A varint is read the same from any data that holds the same bytes from its
/// start to its end: what follows it does not matter.
pub proof fn lemma_varint_prefix(data: Seq<u8>, other: Seq<u8>, pos: int, k: nat, acc: u64)
    requires
        0 <= pos,
        varint_from(data, pos, k, acc) is Ok,
        forall|i: int| pos <= i < varint_from(data, pos, k, acc)->Ok_0.1 ==> i < other.len()
            && other[i] == data[i],
    ensures
        varint_from(other, pos, k, acc) == varint_from(data, pos, k, acc),
    decreases 10 - k,
{
    lemma_varint_bounds(data, pos, k, acc);
    let byte = data[pos + k];
    if byte & 0x80 != 0 {
        lemma_varint_prefix(data, other, pos, k + 1, acc | varint_part(byte, k));
    }
}

} // verus!
