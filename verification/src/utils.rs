//! The storage reader: one block of bytes out of the storage region.
//!
//! The region is addressed in bytes and reports its size in units of
//! [`REGION_PAGE_BYTES`]. Its first [`HEADER_BYTES`] bytes belong to the file
//! system layer; the offsets that callers pass count from the end of that
//! header. A region that was never grown reads as zeros.

use vstd::prelude::*;

verus! {

/// Bytes at the start of the storage region that the file system layer keeps
/// for itself.
pub const HEADER_BYTES: u64 = 8;

/// Bytes in one unit of the region's reported size.
pub const REGION_PAGE_BYTES: u64 = 65536;

/// Why a block could not be read.
#[derive(Clone, Copy, Debug, PartialEq, Eq, Structural)]
pub enum ReadError {
    /// The page number is below 1, or the page starts beyond the last
    /// 64-bit offset.
    InvalidPage,
    /// The block reaches beyond the end of the storage region.
    OutOfRange,
}

/// What a read or a backup came to, with its bytes as a sequence.
pub open spec fn outcome(r: Result<Vec<u8>, ReadError>) -> Result<Seq<u8>, ReadError> {
    match r {
        Ok(bytes) => Ok(bytes@),
        Err(e) => Err(e),
    }
}

/// What reading a block amounts to, once the region's length is known.
#[derive(Clone, Copy, Debug, PartialEq, Eq, Structural)]
pub enum ReadStep {
    /// The region was never grown: nothing is copied and the buffer keeps
    /// what it held.
    Skip,
    /// Copy the block that starts at region offset `from`.
    Copy { from: u64 },
    /// The block does not lie within the region.
    Fail,
}

/// Length in bytes of a region that reports `pages` size units, capped at
/// the last 64-bit offset.
pub open spec fn region_len(pages: u64) -> u64 {
    if pages * REGION_PAGE_BYTES <= u64::MAX {
        (pages * REGION_PAGE_BYTES) as u64
    } else {
        u64::MAX
    }
}

/// The step for a block of `length` bytes at logical `offset`, in a region of
/// `region` bytes.
pub open spec fn read_step(region: u64, offset: u64, length: int) -> ReadStep {
    if region == 0 {
        ReadStep::Skip
    } else if offset + HEADER_BYTES + length <= region {
        ReadStep::Copy { from: (offset + HEADER_BYTES) as u64 }
    } else {
        ReadStep::Fail
    }
}

/// Computes [`region_len`].
pub fn region_len_of(pages: u64) -> (len: u64)
    ensures
        len == region_len(pages),
{
    match pages.checked_mul(REGION_PAGE_BYTES) {
        Some(len) => len,
        None => u64::MAX,
    }
}

/// Decides how a block of `length` bytes at logical `offset` is to be read
/// from a region of `region` bytes.
pub fn plan_read(region: u64, offset: u64, length: usize) -> (step: ReadStep)
    ensures
        step == read_step(region, offset, length as int),
{
    if region == 0 {
        return ReadStep::Skip;
    }
    let end: u128 = offset as u128 + HEADER_BYTES as u128 + length as u128;
    if end <= region as u128 {
        ReadStep::Copy { from: offset + HEADER_BYTES }
    } else {
        ReadStep::Fail
    }
}

/// A size that the canister's stable memory has reported, in units of
/// [`REGION_PAGE_BYTES`].
///
/// Stable memory grows and never shrinks, so a block that lies below a
/// reported size stays readable.
struct RegionSize {
    pages: u64,
}

impl RegionSize {
    /// Asks `ic_cdk::api::stable::stable64_size` for the current size of
    /// stable memory.
    ///
    /// Nothing is claimed of the number: it is whatever the canister's
    /// memory holds at the time of the call. Outside a canister there is no
    /// stable memory, and the call panics.
    #[verifier::external_body]
    fn report() -> (size: RegionSize) {
        RegionSize { pages: ic_cdk::api::stable::stable64_size() }
    }

    /// Has `ic_cdk::api::stable::stable64_read` fill `buf` from stable
    /// memory, starting at region offset `from`.
    ///
    /// The system call traps on a block that reaches beyond stable memory
    /// or beyond the last 64-bit offset, so the block has to lie below this
    /// reported size. All that is claimed of the outcome is that `buf` keeps
    /// its length: what the bytes are depends on the memory.
    #[verifier::external_body]
    fn copy(&self, from: u64, buf: &mut [u8])
        requires
            from + old(buf)@.len() <= self.pages * REGION_PAGE_BYTES,
            from + old(buf)@.len() <= u64::MAX,
        ensures
            final(buf)@.len() == old(buf)@.len(),
    {
        ic_cdk::api::stable::stable64_read(from, buf)
    }
}

/// Reads `buf.len()` bytes at logical `offset` of stable memory into `buf`.
///
/// A memory that was never grown leaves `buf` as it is. Otherwise the block
/// is copied whole, or, where it reaches beyond the memory, nothing is
/// copied and the read fails. A block within the first size unit never
/// fails, whatever the memory's size.
///
/// For code that runs in a canister; [`read_from`] reads a region that is
/// held in memory.
pub fn read(buf: &mut [u8], offset: u64) -> (r: Result<(), ReadError>)
    ensures
        final(buf)@.len() == old(buf)@.len(),
        r is Err ==> final(buf)@ == old(buf)@,
        r is Err ==> r == Err::<(), ReadError>(ReadError::OutOfRange),
        offset + HEADER_BYTES + old(buf)@.len() <= REGION_PAGE_BYTES ==> r is Ok,
{
    let size = RegionSize::report();
    match plan_read(region_len_of(size.pages), offset, buf.len()) {
        ReadStep::Skip => Ok(()),
        ReadStep::Copy { from } => {
            size.copy(from, buf);
            Ok(())
        },
        ReadStep::Fail => Err(ReadError::OutOfRange),
    }
}

/// What a buffer that held `before` holds after a block read at logical
/// `offset` of a region with the bytes `region`; `None` where the read fails.
///
/// A region without bytes leaves the buffer as it was. Otherwise the block
/// is the region's bytes from `offset` past the header, and has to lie
/// within the region.
pub open spec fn block_of(region: Seq<u8>, offset: u64, before: Seq<u8>) -> Option<Seq<u8>> {
    if region.len() == 0 {
        Some(before)
    } else if offset + HEADER_BYTES + before.len() <= region.len() {
        Some(region.subrange(offset + HEADER_BYTES, offset + HEADER_BYTES + before.len()))
    } else {
        None
    }
}

/// Copies the `count` bytes of `source` that start at `from` to the front of
/// `buf`; what `buf` holds behind them stays.
pub(crate) fn copy_block(source: &[u8], from: usize, buf: &mut [u8], count: usize)
    requires
        from + count <= source@.len(),
        count <= old(buf)@.len(),
    ensures
        final(buf)@ == source@.subrange(from as int, from + count) + old(buf)@.subrange(
            count as int,
            old(buf)@.len() as int,
        ),
{
    assert(source.len() == source@.len());
    let mut i: usize = 0;
    while i < count
        invariant
            i <= count <= buf@.len(),
            buf@.len() == old(buf)@.len(),
            from + count <= source@.len() <= usize::MAX,
            forall|k: int| 0 <= k < i ==> buf@[k] == source@[from + k],
            forall|k: int| i <= k < buf@.len() ==> buf@[k] == old(buf)@[k],
        decreases count - i,
    {
        buf[i] = source[from + i];
        i += 1;
    }
    assert(buf@ =~= source@.subrange(from as int, from + count) + old(buf)@.subrange(
        count as int,
        old(buf)@.len() as int,
    ));
}

/// Reads `buf.len()` bytes at logical `offset` of `region`, a storage region
/// held in memory, into `buf`.
///
/// Behaves as [`read`] does on stable memory with the same bytes.
pub fn read_from(region: &[u8], buf: &mut [u8], offset: u64) -> (r: Result<(), ReadError>)
    ensures
        match block_of(region@, offset, old(buf)@) {
            Some(block) => r is Ok && final(buf)@ == block,
            None => r == Err::<(), ReadError>(ReadError::OutOfRange) && final(buf)@ == old(buf)@,
        },
{
    let length = buf.len();
    match plan_read(region.len() as u64, offset, length) {
        ReadStep::Skip => Ok(()),
        ReadStep::Copy { from } => {
            copy_block(region, from as usize, buf, length);
            assert(buf@ =~= region@.subrange(from as int, from + length));
            Ok(())
        },
        ReadStep::Fail => Err(ReadError::OutOfRange),
    }
}

} // verus!
