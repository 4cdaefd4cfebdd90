//! The region memory subsystem's transport strategies.
//!
//! A transport moves bytes between the host and one device memory
//! region.  Three strategies exist, chosen per region at construction:
//! direct memory copies through the architecture window, blocking calls
//! into the kernel driver, and a user-space buffered path that drives
//! the DMA engine directly through the device file.  The byte movement
//! itself is operating-system work done by the surrounding process; the
//! library selects the strategy, checks the ranges and plans the
//! buffer-sized pieces of a large transfer.

use vstd::prelude::*;
use vstd::math::min;

use crate::DeviceAddress;
use crate::DeviceSize;
use crate::status::MemoryArea;

verus! {

/// Failures of a transport.
#[derive(Clone, Copy, Debug, PartialEq, Eq, Structural)]
pub enum Error {
    /// The addressed range does not lie inside the region's window.
    OutOfRange { offset: DeviceAddress, len: DeviceSize },
}

/// Settings of the user-space buffered transport: the sizes and counts
/// of its two fixed pools of pinned host buffers.
#[derive(Clone, Copy, Debug, PartialEq, Eq, Structural)]
pub struct DmaSettings {
    /// Size of one read buffer in bytes.
    pub read_buffer_size: usize,
    /// Number of read buffers.
    pub read_buffers: usize,
    /// Size of one write buffer in bytes.
    pub write_buffer_size: usize,
    /// Number of write buffers.
    pub write_buffers: usize,
}

/// The transport capability of one memory region, selected once at
/// device-construction time from the classified platform.
#[derive(Clone, Copy, Debug, PartialEq, Eq, Structural)]
pub enum Transport {
    /// The region is already host-memory-mapped behind the architecture
    /// window at `[base, base + size)`: reads and writes are plain
    /// memory copies, used only for small PE local-memory windows.
    Direct { base: DeviceAddress, size: DeviceSize },
    /// Each read and write is forwarded to the kernel driver as a
    /// single blocking call; the driver performs the copy.
    Driver,
    /// User space drives the DMA engine (at `engine_offset` in the
    /// platform address space) directly through the device file.
    UserSpace { engine_offset: DeviceAddress, settings: DmaSettings },
}

/// One piece of a transfer that fits into a single pinned buffer.
#[derive(Clone, Copy, Debug, PartialEq, Eq, Structural)]
pub struct Chunk {
    /// Offset of the piece inside the whole transfer.
    pub offset: u64,
    /// Length of the piece in bytes.
    pub len: u64,
}

/// Splits a transfer of `len` bytes into buffer-sized pieces, queued in
/// order: piece `i` starts at `i * buffer_size`, every piece but the
/// last is exactly `buffer_size` long, and together they cover the
/// transfer exactly.  Per-call ordering is preserved by transferring the
/// pieces in this order, reusing each buffer only after its completion.
pub fn transfer_chunks(len: u64, buffer_size: u64) -> (r: Vec<Chunk>)
    requires
        buffer_size >= 1,
    ensures
        len == 0 ==> r@.len() == 0,
        len > 0 ==> (r@.len() - 1) * buffer_size < len <= r@.len() * buffer_size,
        forall|i: int|
            0 <= i < r@.len() ==> {
                &&& (#[trigger] r@[i]).offset == i * buffer_size
                &&& r@[i].len == min(buffer_size as int, len - r@[i].offset)
            },
{
    let mut chunks: Vec<Chunk> = Vec::new();
    let mut off: u64 = 0;
    proof {
        assert(chunks@.len() * buffer_size == 0) by (nonlinear_arith)
            requires
                chunks@.len() == 0,
        ;
    }
    while off < len
        invariant
            buffer_size >= 1,
            off <= len,
            off == if chunks@.len() * buffer_size <= len {
                chunks@.len() * buffer_size
            } else {
                len as int
            },
            chunks@.len() > 0 ==> (chunks@.len() - 1) * buffer_size < len,
            forall|i: int|
                0 <= i < chunks@.len() ==> {
                    &&& (#[trigger] chunks@[i]).offset == i * buffer_size
                    &&& chunks@[i].len == min(buffer_size as int, len - chunks@[i].offset)
                },
        decreases len - off,
    {
        let remaining = len - off;
        let this_len = if remaining >= buffer_size {
            buffer_size
        } else {
            remaining
        };
        proof {
            assert((chunks@.len() + 1) * buffer_size == chunks@.len() * buffer_size + buffer_size)
                by (nonlinear_arith);
        }
        chunks.push(Chunk { offset: off, len: this_len });
        off = off + this_len;
    }
    proof {
        if len > 0 && chunks@.len() == 0 {
            assert(chunks@.len() * buffer_size == 0) by (nonlinear_arith)
                requires
                    chunks@.len() == 0,
            ;
        }
    }
    chunks
}

/// Resolves a region-relative address to an offset inside the
/// architecture window `[base, base + size)` that backs a direct-mapped
/// region.  Succeeds exactly when `[addr, addr + len)` fits inside the
/// window; the copy itself is a plain memory access at the returned
/// window offset.
pub fn direct_window_offset(window: MemoryArea, addr: DeviceAddress, len: DeviceSize) -> (r:
    Result<DeviceAddress, Error>)
    requires
        window.base + window.size <= u64::MAX,
    ensures
        r is Ok <==> addr + len <= window.size,
        r matches Ok(o) ==> o == window.base + addr,
        r is Err ==> r == Err::<DeviceAddress, Error>(Error::OutOfRange { offset: addr, len }),
{
    if len <= window.size && addr <= window.size - len {
        Ok(window.base + addr)
    } else {
        Err(Error::OutOfRange { offset: addr, len })
    }
}

} // verus!
