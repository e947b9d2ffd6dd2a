//! The guest memory bridge.
//!
//! Guests are 32-bit: every address they hand the kernel is a `u32` offset
//! into their linear memory, zero-extended to machine width. The bridge is
//! the only surface that turns guest integers into memory accesses; every
//! ABI stub delegates to it. Bounds are re-checked on every call because the
//! linear memory may grow between calls. A bounds violation is a guest trap,
//! not a host fault.

use vstd::prelude::*;

use crate::fault::TrapKind;

verus! {

/// Whether the byte range [addr, addr + len) lies inside a memory of
/// `mem_len` bytes.
pub open spec fn spec_in_bounds(mem_len: nat, addr: u32, len: nat) -> bool {
    addr + len <= mem_len
}

/// Reads `len` bytes at `addr` out of the guest's linear memory.
///
/// Returns exactly the bytes of the range, or `OutOfBounds` if and only if
/// the range leaves the memory.
pub fn read_bytes(mem: &Vec<u8>, addr: u32, len: usize) -> (r: Result<Vec<u8>, TrapKind>)
    ensures
        r is Ok <==> spec_in_bounds(mem@.len(), addr, len as nat),
        r matches Ok(b) ==> b@ =~= mem@.subrange(addr as int, addr + len),
        r matches Err(t) ==> t == TrapKind::OutOfBounds,
{
    if (addr as u128) + (len as u128) > mem.len() as u128 {
        return Err(TrapKind::OutOfBounds);
    }
    let mut out: Vec<u8> = Vec::new();
    let mut i: usize = 0;
    while i < len
        invariant
            i <= len,
            addr + len <= mem@.len(),
            mem@.len() <= usize::MAX,
            out@ =~= mem@.subrange(addr as int, addr + i),
        decreases len - i,
    {
        out.push(mem[addr as usize + i]);
        proof {
            assert(out@ =~= mem@.subrange(addr as int, addr + i + 1));
        }
        i = i + 1;
    }
    Ok(out)
}

/// The memory after a successful write of `src` at `addr`: the range is
/// replaced, everything else is kept.
pub open spec fn spec_written(mem: Seq<u8>, addr: u32, src: Seq<u8>) -> Seq<u8> {
    mem.subrange(0, addr as int) + src + mem.subrange(addr + src.len(), mem.len() as int)
}

/// Copies `src` into the guest's linear memory at `addr`.
///
/// Succeeds exactly when the range fits; on `OutOfBounds` the memory is
/// unchanged.
pub fn write_bytes(mem: &mut Vec<u8>, addr: u32, src: &Vec<u8>) -> (r: Result<(), TrapKind>)
    ensures
        r is Ok <==> spec_in_bounds(old(mem)@.len(), addr, src@.len()),
        r is Ok ==> final(mem)@ =~= spec_written(old(mem)@, addr, src@),
        r is Err ==> final(mem)@ =~= old(mem)@ && r == Err::<(), TrapKind>(TrapKind::OutOfBounds),
        final(mem)@.len() == old(mem)@.len(),
{
    if (addr as u128) + (src.len() as u128) > mem.len() as u128 {
        return Err(TrapKind::OutOfBounds);
    }
    let n = src.len();
    let mut i: usize = 0;
    while i < n
        invariant
            i <= n,
            n == src@.len(),
            addr + n <= mem@.len(),
            mem@.len() <= usize::MAX,
            mem@.len() == old(mem)@.len(),
            forall|j: int| 0 <= j < i ==> mem@[addr + j] == src@[j],
            forall|j: int| 0 <= j < mem@.len() && !(addr <= j < addr + i) ==> mem@[j] == old(
                mem,
            )@[j],
        decreases n - i,
    {
        mem.set(addr as usize + i, src[i]);
        i = i + 1;
    }
    proof {
        assert(mem@ =~= spec_written(old(mem)@, addr, src@));
    }
    Ok(())
}

/// Reads a little-endian `u32` at `addr`.
pub fn read_u32(mem: &Vec<u8>, addr: u32) -> (r: Result<u32, TrapKind>)
    ensures
        r is Ok <==> spec_in_bounds(mem@.len(), addr, 4),
        r matches Ok(v) ==> v == vstd::bytes::spec_u32_from_le_bytes(
            mem@.subrange(addr as int, addr + 4),
        ),
        r matches Err(t) ==> t == TrapKind::OutOfBounds,
{
    let bytes = read_bytes(mem, addr, 4)?;
    Ok(vstd::bytes::u32_from_le_bytes(bytes.as_slice()))
}

/// Reads a little-endian `u64` at `addr`.
pub fn read_u64(mem: &Vec<u8>, addr: u32) -> (r: Result<u64, TrapKind>)
    ensures
        r is Ok <==> spec_in_bounds(mem@.len(), addr, 8),
        r matches Ok(v) ==> v == vstd::bytes::spec_u64_from_le_bytes(
            mem@.subrange(addr as int, addr + 8),
        ),
        r matches Err(t) ==> t == TrapKind::OutOfBounds,
{
    let bytes = read_bytes(mem, addr, 8)?;
    Ok(vstd::bytes::u64_from_le_bytes(bytes.as_slice()))
}

/// Writes a little-endian `u32` at `addr`.
pub fn write_u32(mem: &mut Vec<u8>, addr: u32, v: u32) -> (r: Result<(), TrapKind>)
    ensures
        r is Ok <==> spec_in_bounds(old(mem)@.len(), addr, 4),
        r is Ok ==> final(mem)@ =~= spec_written(
            old(mem)@,
            addr,
            vstd::bytes::spec_u32_to_le_bytes(v),
        ),
        r is Err ==> final(mem)@ =~= old(mem)@ && r == Err::<(), TrapKind>(TrapKind::OutOfBounds),
        final(mem)@.len() == old(mem)@.len(),
{
    let bytes = vstd::bytes::u32_to_le_bytes(v);
    proof {
        vstd::bytes::lemma_auto_spec_u32_to_from_le_bytes();
    }
    write_bytes(mem, addr, &bytes)
}

/// Writes a little-endian `u64` at `addr`.
pub fn write_u64(mem: &mut Vec<u8>, addr: u32, v: u64) -> (r: Result<(), TrapKind>)
    ensures
        r is Ok <==> spec_in_bounds(old(mem)@.len(), addr, 8),
        r is Ok ==> final(mem)@ =~= spec_written(
            old(mem)@,
            addr,
            vstd::bytes::spec_u64_to_le_bytes(v),
        ),
        r is Err ==> final(mem)@ =~= old(mem)@ && r == Err::<(), TrapKind>(TrapKind::OutOfBounds),
        final(mem)@.len() == old(mem)@.len(),
{
    let bytes = vstd::bytes::u64_to_le_bytes(v);
    proof {
        vstd::bytes::lemma_auto_spec_u64_to_from_le_bytes();
    }
    write_bytes(mem, addr, &bytes)
}

/// Reading a just-written range gives the written bytes back: the bridge
/// neither copies stale data nor mixes neighbouring bytes into the range.
pub proof fn lemma_written_region_reads_back(mem: Seq<u8>, addr: u32, src: Seq<u8>)
    requires
        spec_in_bounds(mem.len(), addr, src.len()),
    ensures
        spec_written(mem, addr, src).subrange(addr as int, addr + src.len()) =~= src,
        spec_written(mem, addr, src).len() == mem.len(),
{
}

} // verus!
