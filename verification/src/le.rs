use vstd::prelude::*;

verus! {

/// The unsigned 16-bit little-endian number held in `s[i..i + 2]`.
pub open spec fn le_u16_at(s: Seq<u8>, i: int) -> u16 {
    (s[i] + 0x100 * s[i + 1]) as u16
}

/// The unsigned 32-bit little-endian number held in `s[i..i + 4]`.
pub open spec fn le_u32_at(s: Seq<u8>, i: int) -> u32 {
    (s[i] + 0x100 * s[i + 1] + 0x1_0000 * s[i + 2] + 0x100_0000 * s[i + 3]) as u32
}

/// The unsigned 64-bit little-endian number held in `s[i..i + 8]`.
pub open spec fn le_u64_at(s: Seq<u8>, i: int) -> u64 {
    (le_u32_at(s, i) + 0x1_0000_0000 * le_u32_at(s, i + 4)) as u64
}

/// Computes the little-endian `u16` at `data[offset..offset + 2]`.
pub fn read_u16(data: &[u8], offset: usize) -> (r: u16)
    requires
        offset + 2 <= data@.len(),
    ensures
        r == le_u16_at(data@, offset as int),
{
    data[offset] as u16 + data[offset + 1] as u16 * 0x100
}

/// Computes the little-endian `u32` at `data[offset..offset + 4]`.
pub fn read_u32(data: &[u8], offset: usize) -> (r: u32)
    requires
        offset + 4 <= data@.len(),
    ensures
        r == le_u32_at(data@, offset as int),
{
    data[offset] as u32 + data[offset + 1] as u32 * 0x100 + data[offset + 2] as u32 * 0x1_0000
        + data[offset + 3] as u32 * 0x100_0000
}

/// Computes the little-endian `u64` at `data[offset..offset + 8]`.
pub fn read_u64(data: &[u8], offset: usize) -> (r: u64)
    requires
        offset + 8 <= data@.len(),
    ensures
        r == le_u64_at(data@, offset as int),
{
    let _len = data.len();
    let low = read_u32(data, offset) as u64;
    let high = read_u32(data, offset + 4) as u64;
    low + high * 0x1_0000_0000
}

} // verus!
