//! The region memory subsystem's allocators.
//!
//! An allocator manages a free-space map over one physical address range
//! of the device.  Two strategies exist: [`GenericAllocator`] manages the
//! map purely in host memory (used for the PCIe global region and all PE
//! local-memory regions), and [`DriverAllocator`] stands for the
//! strategy whose placement decisions the kernel driver owns (used on
//! SoC-class platforms, e.g. for cache-coherency reasons); its
//! allocate/free requests travel over the device's control file in the
//! surrounding process.

use vstd::prelude::*;
use vstd::arithmetic::div_mod::lemma_fundamental_div_mod;
use vstd::arithmetic::div_mod::lemma_mod_bound;
use vstd::arithmetic::div_mod::lemma_mod_multiples_basic;

use crate::DeviceAddress;
use crate::DeviceSize;

verus! {

/// Failures of an allocator.
#[derive(Clone, Copy, Debug, PartialEq, Eq, Structural)]
pub enum Error {
    /// No free range of the requested size and alignment exists.
    OutOfMemory { size: DeviceSize },
    /// The requested fixed address is unavailable, misaligned or out of
    /// range.
    FixedUnavailable { offset: DeviceAddress },
    /// The freed address is not the start of a live allocation.
    UnknownAddress { offset: DeviceAddress },
    /// A zero size or a zero alignment was requested.
    InvalidRequest { size: DeviceSize, alignment: DeviceSize },
    /// The region's end would not fit into an address.
    InvalidRegion { base: DeviceAddress, size: DeviceSize },
}

/// One live allocation: the half-open range `[addr, addr + size)`.
#[derive(Clone, Copy, Debug, PartialEq, Eq, Structural)]
pub struct Block {
    /// First address of the allocation.
    pub addr: DeviceAddress,
    /// Length of the allocation in bytes.
    pub size: DeviceSize,
}

/// Whether the range `[p, p + size)` intersects the block `b`.
pub open spec fn overlaps(p: int, size: int, b: Block) -> bool {
    p < b.addr + b.size && b.addr < p + size
}

/// Whether two blocks occupy disjoint ranges.
pub open spec fn blocks_disjoint(a: Block, b: Block) -> bool {
    a.addr + a.size <= b.addr || b.addr + b.size <= a.addr
}

/// The least multiple of `a` that is at least `x`.
pub open spec fn spec_align_up(x: int, a: int) -> int
    recommends
        a >= 1,
        x >= 0,
{
    if x % a == 0 {
        x
    } else {
        x + a - x % a
    }
}

proof fn lemma_align_up(x: int, a: int)
    requires
        a >= 1,
        x >= 0,
    ensures
        spec_align_up(x, a) % a == 0,
        spec_align_up(x, a) >= x,
        forall|p: int| x <= p < spec_align_up(x, a) ==> #[trigger] (p % a) != 0,
{
    lemma_fundamental_div_mod(x, a);
    lemma_mod_bound(x, a);
    let q = x / a;
    let r = x % a;
    if r == 0 {
        assert(forall|p: int| x <= p < spec_align_up(x, a) ==> #[trigger] (p % a) != 0);
    } else {
        let up = x + a - r;
        assert(up == (q + 1) * a) by (nonlinear_arith)
            requires
                x == a * q + r,
                up == x + a - r,
        ;
        lemma_mod_multiples_basic(q + 1, a);
        assert forall|p: int| x <= p < up implies #[trigger] (p % a) != 0 by {
            if p % a == 0 {
                lemma_fundamental_div_mod(p, a);
                let k = p / a;
                assert(false) by (nonlinear_arith)
                    requires
                        a >= 1,
                        p == a * k,
                        x == a * q + r,
                        0 < r < a,
                        x <= p,
                        p < (q + 1) * a,
                ;
            }
        }
    }
}

/// Rounds `x` up to the next multiple of `alignment`; `None` when that
/// multiple does not fit into an address.
fn align_up(x: u64, alignment: u64) -> (r: Option<u64>)
    requires
        alignment >= 1,
    ensures
        match r {
            Some(y) => y == spec_align_up(x as int, alignment as int),
            None => spec_align_up(x as int, alignment as int) > u64::MAX,
        },
{
    let rem = x % alignment;
    if rem == 0 {
        Some(x)
    } else {
        let pad = alignment - rem;
        if x <= u64::MAX - pad {
            Some(x + pad)
        } else {
            None
        }
    }
}

/// Removing a live block keeps an allocator well-formed.
proof fn lemma_remove_keeps_wf(pre: GenericAllocator, post: GenericAllocator, i: int)
    requires
        pre.wf(),
        0 <= i < pre.blocks@.len(),
        post.base == pre.base,
        post.size == pre.size,
        post.alignment == pre.alignment,
        post.blocks@ == pre.blocks@.remove(i),
    ensures
        post.wf(),
{
    assert forall|j: int|
        0 <= j < post.blocks@.len() implies post.block_in_range(#[trigger] post.blocks@[j]) by {
        let k = if j < i {
            j
        } else {
            j + 1
        };
        assert(post.blocks@[j] == pre.blocks@[k]);
        assert(pre.block_in_range(pre.blocks@[k]));
    }
    assert forall|j: int, l: int|
        0 <= j < post.blocks@.len() && 0 <= l < post.blocks@.len() && j != l implies blocks_disjoint(
        #[trigger] post.blocks@[j],
        #[trigger] post.blocks@[l],
    ) by {
        let kj = if j < i {
            j
        } else {
            j + 1
        };
        let kl = if l < i {
            l
        } else {
            l + 1
        };
        assert(post.blocks@[j] == pre.blocks@[kj]);
        assert(post.blocks@[l] == pre.blocks@[kl]);
        assert(blocks_disjoint(pre.blocks@[kj], pre.blocks@[kl]));
    }
}

/// Appending a fresh in-range block that overlaps no live block keeps an
/// allocator well-formed.
proof fn lemma_push_keeps_wf(pre: GenericAllocator, post: GenericAllocator, b: Block)
    requires
        pre.wf(),
        post.base == pre.base,
        post.size == pre.size,
        post.alignment == pre.alignment,
        post.blocks@ == pre.blocks@.push(b),
        b.size > 0,
        pre.base <= b.addr,
        b.addr + b.size <= pre.base + pre.size,
        forall|i: int|
            0 <= i < pre.blocks@.len() ==> !overlaps(b.addr as int, b.size as int, #[trigger] pre.blocks@[i]),
    ensures
        post.wf(),
{
    let n = pre.blocks@.len() as int;
    assert forall|j: int|
        0 <= j < post.blocks@.len() implies post.block_in_range(#[trigger] post.blocks@[j]) by {
        if j < n {
            assert(post.blocks@[j] == pre.blocks@[j]);
            assert(pre.block_in_range(pre.blocks@[j]));
        } else {
            assert(post.blocks@[j] == b);
        }
    }
    assert forall|j: int, l: int|
        0 <= j < post.blocks@.len() && 0 <= l < post.blocks@.len() && j != l implies blocks_disjoint(
        #[trigger] post.blocks@[j],
        #[trigger] post.blocks@[l],
    ) by {
        if j < n && l < n {
            assert(blocks_disjoint(pre.blocks@[j], pre.blocks@[l]));
        } else if j < n {
            assert(!overlaps(b.addr as int, b.size as int, pre.blocks@[j]));
            assert(pre.block_in_range(pre.blocks@[j]));
        } else {
            assert(!overlaps(b.addr as int, b.size as int, pre.blocks@[l]));
            assert(pre.block_in_range(pre.blocks@[l]));
        }
    }
}

/// An allocator that manages its free-space map purely in host memory:
/// a list of live allocations over the range `[base, base + size)`.
#[derive(Clone, Debug)]
pub struct GenericAllocator {
    /// First address of the managed range.
    pub base: DeviceAddress,
    /// Length of the managed range in bytes.
    pub size: DeviceSize,
    /// Default alignment of the region, chosen at construction.
    pub alignment: DeviceSize,
    /// The currently-live allocations.
    pub blocks: Vec<Block>,
}

impl GenericAllocator {
    /// Whether `b` is a non-empty block inside the managed range.
    pub open spec fn block_in_range(self, b: Block) -> bool {
        b.size > 0 && self.base <= b.addr && b.addr + b.size <= self.base + self.size
    }

    /// Well-formedness: the range's end fits into an address and the
    /// live blocks are non-empty, in range and pairwise disjoint.
    pub open spec fn wf(self) -> bool {
        &&& self.alignment >= 1
        &&& self.base + self.size <= u64::MAX
        &&& forall|i: int|
            0 <= i < self.blocks@.len() ==> self.block_in_range(#[trigger] self.blocks@[i])
        &&& forall|i: int, j: int|
            0 <= i < self.blocks@.len() && 0 <= j < self.blocks@.len() && i != j
                ==> blocks_disjoint(#[trigger] self.blocks@[i], #[trigger] self.blocks@[j])
    }

    /// Whether `p` is a valid placement for a fresh allocation of
    /// `size` bytes at `align`: aligned, inside the managed range, and
    /// disjoint from every live allocation.
    pub open spec fn candidate_ok(self, p: int, size: int, align: int) -> bool {
        &&& p % align == 0
        &&& self.base <= p
        &&& p + size <= self.base + self.size
        &&& forall|i: int|
            0 <= i < self.blocks@.len() ==> !overlaps(p, size, #[trigger] self.blocks@[i])
    }

    /// Creates an allocator over `[base, base + size)` with the given
    /// default alignment.  Fails when the alignment is zero or the
    /// range's end does not fit into an address.
    pub fn new(base: DeviceAddress, size: DeviceSize, alignment: DeviceSize) -> (r: Result<
        GenericAllocator,
        Error,
    >)
        ensures
            match r {
                Ok(a) => {
                    &&& alignment >= 1
                    &&& base + size <= u64::MAX
                    &&& a.base == base
                    &&& a.size == size
                    &&& a.alignment == alignment
                    &&& a.blocks@.len() == 0
                    &&& a.wf()
                },
                Err(e) => {
                    &&& alignment == 0 || base + size > u64::MAX
                    &&& e == if alignment == 0 {
                        Error::InvalidRequest { size, alignment }
                    } else {
                        Error::InvalidRegion { base, size }
                    }
                },
            },
    {
        if alignment == 0 {
            Err(Error::InvalidRequest { size, alignment })
        } else if size > u64::MAX - base {
            Err(Error::InvalidRegion { base, size })
        } else {
            Ok(GenericAllocator { base, size, alignment, blocks: Vec::new() })
        }
    }

    /// Whether some live allocation intersects `[p, p + size)`; on a hit
    /// also returns the end of one intersecting block.
    fn find_overlap(&self, p: u64, size: u64) -> (r: Option<u64>)
        requires
            self.wf(),
            p + size <= self.base + self.size,
        ensures
            match r {
                Some(e) => exists|i: int|
                    0 <= i < self.blocks@.len() && overlaps(p as int, size as int, #[trigger] self.blocks@[i])
                        && e == self.blocks@[i].addr + self.blocks@[i].size,
                None => forall|i: int|
                    0 <= i < self.blocks@.len() ==> !overlaps(p as int, size as int, #[trigger] self.blocks@[i]),
            },
    {
        let n = self.blocks.len();
        let mut i: usize = 0;
        while i < n
            invariant
                self.wf(),
                n == self.blocks@.len(),
                p + size <= self.base + self.size,
                forall|k: int| 0 <= k < i ==> !overlaps(p as int, size as int, #[trigger] self.blocks@[k]),
            decreases n - i,
        {
            let b = self.blocks[i];
            assert(self.block_in_range(self.blocks@[i as int]));
            if p < b.addr + b.size && b.addr < p + size {
                return Some(b.addr + b.size);
            }
            i = i + 1;
        }
        None
    }

    /// Returns a device address such that `[address, address + size)`
    /// lies within the region, is aligned to `alignment`, and does not
    /// overlap any currently-live allocation.  With a fixed address the
    /// result equals that address exactly, or the call fails when the
    /// address is unavailable, misaligned or out of range.  Without one,
    /// the lowest valid placement is returned, and the call fails with
    /// `OutOfMemory` exactly when no valid placement exists.
    pub fn allocate(
        &mut self,
        size: DeviceSize,
        alignment: DeviceSize,
        fixed: Option<DeviceAddress>,
    ) -> (r: Result<DeviceAddress, Error>)
        requires
            old(self).wf(),
        ensures
            final(self).wf(),
            final(self).base == old(self).base,
            final(self).size == old(self).size,
            final(self).alignment == old(self).alignment,
            r matches Ok(a) ==> {
                &&& size > 0 && alignment > 0
                &&& old(self).candidate_ok(a as int, size as int, alignment as int)
                &&& final(self).blocks@ == old(self).blocks@.push(Block { addr: a, size })
            },
            r is Err ==> *final(self) == *old(self),
            size == 0 || alignment == 0 ==> r == Err::<DeviceAddress, Error>(
                Error::InvalidRequest { size, alignment },
            ),
            size > 0 && alignment > 0 ==> match fixed {
                Some(f) => r == if old(self).candidate_ok(f as int, size as int, alignment as int) {
                    Ok::<DeviceAddress, Error>(f)
                } else {
                    Err::<DeviceAddress, Error>(Error::FixedUnavailable { offset: f })
                },
                None => {
                    &&& (r is Ok <==> exists|p: int|
                        old(self).candidate_ok(p, size as int, alignment as int))
                    &&& (r is Err ==> r == Err::<DeviceAddress, Error>(Error::OutOfMemory { size }))
                    &&& (r matches Ok(a) ==> forall|p: int|
                        p < a ==> !old(self).candidate_ok(p, size as int, alignment as int))
                },
            },
    {
        if size == 0 || alignment == 0 {
            return Err(Error::InvalidRequest { size, alignment });
        }
        let end = self.base + self.size;
        match fixed {
            Some(f) => {
                if f % alignment != 0 || f < self.base || size > end || f > end - size {
                    return Err(Error::FixedUnavailable { offset: f });
                }
                match self.find_overlap(f, size) {
                    Some(_) => Err(Error::FixedUnavailable { offset: f }),
                    None => {
                        self.blocks.push(Block { addr: f, size });
                        proof {
                            lemma_push_keeps_wf(*old(self), *self, Block { addr: f, size });
                        }
                        Ok(f)
                    },
                }
            },
            None => {
                if size > self.size {
                    assert forall|p: int| !old(self).candidate_ok(p, size as int, alignment as int) by {}
                    return Err(Error::OutOfMemory { size });
                }
                let mut cand = match align_up(self.base, alignment) {
                    Some(c) => c,
                    None => {
                        proof {
                            lemma_align_up(self.base as int, alignment as int);
                        }
                        return Err(Error::OutOfMemory { size });
                    },
                };
                proof {
                    lemma_align_up(self.base as int, alignment as int);
                }
                loop
                    invariant
                        fixed is None,
                        self.wf(),
                        *self == *old(self),
                        0 < size <= self.size,
                        0 < alignment,
                        end == self.base + self.size,
                        cand as int % alignment as int == 0,
                        cand >= self.base,
                        forall|p: int|
                            p < cand ==> !old(self).candidate_ok(p, size as int, alignment as int),
                    decreases (if cand <= end { end - cand + 1 } else { 0 }) as int,
                {
                    if cand > end - size {
                        assert forall|p: int|
                            !old(self).candidate_ok(p, size as int, alignment as int) by {}
                        return Err(Error::OutOfMemory { size });
                    }
                    match self.find_overlap(cand, size) {
                        None => {
                            let ghost pre = *self;
                            proof {
                                assert(old(self).candidate_ok(
                                    cand as int,
                                    size as int,
                                    alignment as int,
                                ));
                            }
                            self.blocks.push(Block { addr: cand, size });
                            proof {
                                lemma_push_keeps_wf(pre, *self, Block { addr: cand, size });
                            }
                            return Ok(cand);
                        },
                        Some(block_end) => {
                            let ghost prev = cand as int;
                            let ghost bi: int = choose|i: int|
                                0 <= i < self.blocks@.len() && overlaps(
                                    prev,
                                    size as int,
                                    #[trigger] self.blocks@[i],
                                ) && block_end == self.blocks@[i].addr + self.blocks@[i].size;
                            assert(self.block_in_range(self.blocks@[bi]));
                            cand = match align_up(block_end, alignment) {
                                Some(c) => c,
                                None => {
                                    proof {
                                        lemma_align_up(block_end as int, alignment as int);
                                        assert forall|p: int|
                                            !old(self).candidate_ok(
                                                p,
                                                size as int,
                                                alignment as int,
                                            ) by {
                                            if prev <= p && p % alignment as int == 0
                                                && p < block_end {
                                                assert(overlaps(p, size as int, self.blocks@[bi]));
                                            }
                                        }
                                    }
                                    return Err(Error::OutOfMemory { size });
                                },
                            };
                            proof {
                                lemma_align_up(block_end as int, alignment as int);
                                assert forall|p: int|
                                    p < cand implies !old(self).candidate_ok(
                                    p,
                                    size as int,
                                    alignment as int,
                                ) by {
                                    if prev <= p && p % alignment as int == 0 && p < block_end {
                                        assert(overlaps(p, size as int, self.blocks@[bi]));
                                    }
                                }
                            }
                        },
                    }
                }
            },
        }
    }

    /// Returns the block starting at `address` to the free-space map.
    /// Fails with `UnknownAddress` exactly when no live allocation
    /// starts there.
    pub fn free(&mut self, address: DeviceAddress) -> (r: Result<(), Error>)
        requires
            old(self).wf(),
        ensures
            final(self).wf(),
            final(self).base == old(self).base,
            final(self).size == old(self).size,
            final(self).alignment == old(self).alignment,
            r is Ok <==> exists|i: int|
                0 <= i < old(self).blocks@.len() && (#[trigger] old(self).blocks@[i]).addr == address,
            r is Ok ==> exists|i: int|
                0 <= i < old(self).blocks@.len() && (#[trigger] old(self).blocks@[i]).addr == address
                    && final(self).blocks@ == old(self).blocks@.remove(i),
            r is Err ==> *final(self) == *old(self) && r == Err::<(), Error>(
                Error::UnknownAddress { offset: address },
            ),
    {
        let n = self.blocks.len();
        let mut i: usize = 0;
        while i < n
            invariant
                old(self).wf(),
                *self == *old(self),
                n == self.blocks@.len(),
                i <= n,
                forall|k: int| 0 <= k < i ==> (#[trigger] self.blocks@[k]).addr != address,
            decreases n - i,
        {
            if self.blocks[i].addr == address {
                self.blocks.remove(i);
                proof {
                    lemma_remove_keeps_wf(*old(self), *self, i as int);
                }
                return Ok(());
            }
            i = i + 1;
        }
        Err(Error::UnknownAddress { offset: address })
    }
}

/// Law: freeing a live block makes that exact range allocatable again.
/// Once the block at index `i` has left the live set, its old address is
/// a valid placement for a block of its old size, at every alignment
/// that the address satisfies.
pub proof fn lemma_freed_range_allocatable(
    pre: GenericAllocator,
    post: GenericAllocator,
    i: int,
    alignment: int,
)
    requires
        pre.wf(),
        0 <= i < pre.blocks@.len(),
        post.blocks@ == pre.blocks@.remove(i),
        post.base == pre.base,
        post.size == pre.size,
        alignment >= 1,
        pre.blocks@[i].addr as int % alignment == 0,
    ensures
        post.candidate_ok(pre.blocks@[i].addr as int, pre.blocks@[i].size as int, alignment),
{
    let b = pre.blocks@[i];
    assert(pre.block_in_range(b));
    assert forall|j: int|
        0 <= j < post.blocks@.len() implies !overlaps(
        b.addr as int,
        b.size as int,
        #[trigger] post.blocks@[j],
    ) by {
        let k = if j < i {
            j
        } else {
            j + 1
        };
        assert(post.blocks@[j] == pre.blocks@[k]);
        assert(blocks_disjoint(pre.blocks@[i], pre.blocks@[k]));
    }
}

/// The allocation strategy whose placement decisions the kernel driver
/// makes: every allocate and free request is forwarded to the driver by
/// the surrounding process, which owns the device's control file.
#[derive(Clone, Copy, Debug, PartialEq, Eq, Structural)]
pub struct DriverAllocator {}

impl DriverAllocator {
    /// Creates the driver-delegated strategy marker.
    pub fn new() -> (r: DriverAllocator)
        ensures
            r == (DriverAllocator {}),
    {
        DriverAllocator {}
    }
}

/// The allocation capability of one memory region, selected once at
/// device-construction time from the classified platform.
#[derive(Clone, Debug)]
pub enum Allocator {
    /// Free-space map managed in host memory.
    Generic(GenericAllocator),
    /// Placement delegated to the kernel driver.
    Driver(DriverAllocator),
}

impl Allocator {
    /// Well-formedness of the underlying strategy.
    pub open spec fn wf(self) -> bool {
        match self {
            Allocator::Generic(g) => g.wf(),
            Allocator::Driver(_) => true,
        }
    }

    /// Whether allocation decisions are made in host memory (as opposed
    /// to being forwarded to the kernel driver).
    pub fn is_host_managed(&self) -> (r: bool)
        ensures
            r == (self is Generic),
    {
        match self {
            Allocator::Generic(_) => true,
            Allocator::Driver(_) => false,
        }
    }
}

} // verus!
