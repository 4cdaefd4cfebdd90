//! Jobs: the handle returned by PE acquisition, and parameter staging.
//!
//! A job binds one acquired PE instance to the scheduler that issued
//! it; the instance is returned to exactly one pool exactly once, via
//! [`crate::device::Device::release_pe`].  Staging resolves each
//! [`PEParameter`] to an inline value or a device address, performing
//! any needed allocation; the byte movement of a transfer is done by
//! the surrounding process, driven by the returned [`TransferTask`].
//! Placement of a local-memory transfer is deferred: its region is
//! chosen only here, after the PE instance has been selected.

use vstd::prelude::*;

use crate::DeviceAddress;
use crate::allocator::Allocator;
use crate::device::Device;
use crate::device::Error;
use crate::device::OffchipMemory;
use crate::device::PEParameter;
use crate::scheduler::PE;

verus! {

/// A handle to one acquired PE instance for the duration of one
/// execution.
#[derive(Clone, Copy, Debug, PartialEq, Eq, Structural)]
pub struct Job {
    /// The acquired instance.
    pub pe: PE,
}

/// A parameter resolved to the value passed to the PE's register file.
#[derive(Clone, Copy, Debug, PartialEq, Eq, Structural)]
pub enum PEArgument {
    /// A 32 bit register value.
    Arg32(u32),
    /// A 64 bit register value (scalars and device addresses).
    Arg64(u64),
}

/// The memory region a transfer targets.
#[derive(Clone, Copy, Debug, PartialEq, Eq, Structural)]
pub enum RegionRef {
    /// Index into the device's global region list.
    Global(usize),
    /// Index into the scheduler's PE local-memory region list.
    Local(usize),
}

/// An allocation request for a region whose placement the kernel
/// driver owns: the surrounding process forwards it over the control
/// file and completes the staging with the driver's address through
/// [`driver_allocated`].
#[derive(Debug)]
pub struct DriverAllocation {
    /// Index of the driver-managed region in the global region list.
    pub region: usize,
    /// The host-side bytes of the transfer.
    pub data: Vec<u8>,
    /// Stage the bytes before execution.
    pub to_device: bool,
    /// Retrieve the bytes after execution.
    pub from_device: bool,
    /// Release the device-side allocation after execution.
    pub free: bool,
    /// Does the allocation on the device have to be on a certain
    /// offset?
    pub fixed: Option<DeviceAddress>,
}

/// The result of staging one parameter: resolved at once, or an
/// allocation request that the kernel driver must place first.
#[derive(Debug)]
pub enum StagedParameter {
    /// The parameter is resolved; any byte movement is in the task.
    Ready(PEArgument, Option<TransferTask>),
    /// The targeted region delegates placement to the kernel driver.
    NeedsDriverAllocation(DriverAllocation),
}

/// One pending transfer produced by staging: the surrounding process
/// moves the bytes (before execution when `to_device`, after execution
/// when `from_device`, in parameter order) and then hands the task to
/// [`Device::release_transfer`].
#[derive(Debug)]
pub struct TransferTask {
    /// The region holding the device-side buffer.
    pub region: RegionRef,
    /// Start of the device-side buffer.
    pub device_address: DeviceAddress,
    /// The host-side bytes of the transfer.
    pub data: Vec<u8>,
    /// Stage the bytes before execution.
    pub to_device: bool,
    /// Retrieve the bytes after execution.
    pub from_device: bool,
    /// Release the device-side allocation after execution.
    pub free: bool,
}

impl Device {
    /// Resolves one parameter immediately before the instance is
    /// started: scalars and raw addresses pass inline; an `Alloc` or
    /// `Local` transfer allocates its device-side buffer (in the named
    /// global region, or in the selected PE's own local memory) and a
    /// `Prealloc` transfer uses the caller-supplied address unchanged.
    /// An `Alloc` transfer naming a driver-delegated region becomes a
    /// placement request for the kernel driver; [`driver_allocated`]
    /// turns the driver's answer into the resolved parameter.  PE
    /// local-memory regions are host-managed on every platform, so a
    /// `Local` transfer always allocates here.
    pub fn stage_parameter(&mut self, job: &Job, p: PEParameter) -> (r: Result<
        StagedParameter,
        Error,
    >)
        requires
            old(self).wf(),
            p matches PEParameter::DataTransferAlloc(t) ==> t.memory < old(
                self,
            ).offchip_memory@.len(),
            p matches PEParameter::DataTransferLocal(_) ==> (job.pe.local_memory matches Some(m)
                && m < old(self).scheduler.local_memories@.len() && old(self).scheduler.local_memories@[m as int].allocator is Generic),
        ensures
            final(self).wf(),
            final(self).access == old(self).access,
            final(self).status == old(self).status,
            r is Err ==> {
                &&& final(self).offchip_memory@ == old(self).offchip_memory@
                &&& final(self).scheduler.pools == old(self).scheduler.pools
                &&& final(self).scheduler.local_memories@ == old(self).scheduler.local_memories@
                &&& final(self).scheduler.interrupts_routed == old(self).scheduler.interrupts_routed
                &&& r matches Err(Error::AllocatorError { .. })
            },
            p matches PEParameter::Single32(x) ==> r == Ok::<StagedParameter, Error>(
                StagedParameter::Ready(PEArgument::Arg32(x), None),
            ) && *final(self) == *old(self),
            p matches PEParameter::Single64(x) ==> r == Ok::<StagedParameter, Error>(
                StagedParameter::Ready(PEArgument::Arg64(x), None),
            ) && *final(self) == *old(self),
            p matches PEParameter::DeviceAddress(a) ==> r == Ok::<StagedParameter, Error>(
                StagedParameter::Ready(PEArgument::Arg64(a), None),
            ) && *final(self) == *old(self),
            p matches PEParameter::DataTransferPrealloc(t) ==> *final(self) == *old(self) && (
            r matches Ok(StagedParameter::Ready(a0, o1)) && a0 == PEArgument::Arg64(
                t.device_address,
            ) && (o1 matches Some(task) && task.region == RegionRef::Global(t.memory)
                && task.device_address == t.device_address && task.data == t.data
                && task.to_device == t.to_device && task.from_device == t.from_device && task.free
                == t.free)),
            p matches PEParameter::DataTransferAlloc(t) ==> (old(
                self,
            ).offchip_memory@[t.memory as int].allocator is Driver ==> *final(self) == *old(self)
                && (r matches Ok(StagedParameter::NeedsDriverAllocation(q)) && q.region == t.memory
                && q.data == t.data && q.to_device == t.to_device && q.from_device == t.from_device
                && q.free == t.free && q.fixed == t.fixed)),
            p matches PEParameter::DataTransferAlloc(t) ==> (old(
                self,
            ).offchip_memory@[t.memory as int].allocator is Generic ==> {
                let g = old(self).offchip_memory@[t.memory as int].allocator->Generic_0;
                &&& (r is Ok <==> t.data@.len() > 0 && match t.fixed {
                    Some(f) => g.candidate_ok(f as int, t.data@.len() as int, g.alignment as int),
                    None => exists|q: int|
                        g.candidate_ok(q, t.data@.len() as int, g.alignment as int),
                })
                &&& (r matches Ok(StagedParameter::Ready(a0, o1)) ==> {
                    let g2 = final(self).offchip_memory@[t.memory as int].allocator->Generic_0;
                    &&& (o1 matches Some(task) && a0 == PEArgument::Arg64(task.device_address)
                        && task.region == RegionRef::Global(t.memory) && task.data == t.data
                        && task.to_device == t.to_device && task.from_device == t.from_device
                        && task.free == t.free && g.candidate_ok(
                        task.device_address as int,
                        t.data@.len() as int,
                        g.alignment as int,
                    ) && g2.blocks@ == g.blocks@.push(
                        crate::allocator::Block {
                            addr: task.device_address,
                            size: t.data@.len() as u64,
                        },
                    ) && (t.fixed matches Some(f) ==> task.device_address == f))
                    &&& final(self).offchip_memory@.len() == old(self).offchip_memory@.len()
                    &&& forall|i: int|
                        0 <= i < old(self).offchip_memory@.len() && i != t.memory ==> final(self).offchip_memory@[i] == old(self).offchip_memory@[i]
                    &&& final(self).scheduler == old(self).scheduler
                })
                &&& (r is Ok ==> (r matches Ok(sp) && sp is Ready))
            }),
            p matches PEParameter::DataTransferLocal(t) ==> {
                let m = job.pe.local_memory->0;
                let g = old(self).scheduler.local_memories@[m as int].allocator->Generic_0;
                &&& (r is Ok <==> t.data@.len() > 0 && match t.fixed {
                    Some(f) => g.candidate_ok(f as int, t.data@.len() as int, g.alignment as int),
                    None => exists|q: int|
                        g.candidate_ok(q, t.data@.len() as int, g.alignment as int),
                })
                &&& (r is Ok ==> (r matches Ok(sp) && sp is Ready))
                &&& (r matches Ok(StagedParameter::Ready(a0, o1)) ==> {
                    let g2 = final(self).scheduler.local_memories@[m as int].allocator->Generic_0;
                    &&& (o1 matches Some(task) && a0 == PEArgument::Arg64(task.device_address)
                        && task.region == RegionRef::Local(m) && task.data == t.data
                        && task.to_device == t.to_device && task.from_device == t.from_device
                        && task.free == t.free && g.candidate_ok(
                        task.device_address as int,
                        t.data@.len() as int,
                        g.alignment as int,
                    ) && g2.blocks@ == g.blocks@.push(
                        crate::allocator::Block {
                            addr: task.device_address,
                            size: t.data@.len() as u64,
                        },
                    ) && (t.fixed matches Some(f) ==> task.device_address == f))
                    &&& final(self).offchip_memory == old(self).offchip_memory
                    &&& final(self).scheduler.pools == old(self).scheduler.pools
                    &&& final(self).scheduler.local_memories@.len() == old(self).scheduler.local_memories@.len()
                    &&& forall|i: int|
                        0 <= i < old(self).scheduler.local_memories@.len() && i != m ==> final(self).scheduler.local_memories@[i] == old(self).scheduler.local_memories@[i]
                })
            },
    {
        match p {
            PEParameter::Single32(x) => Ok(StagedParameter::Ready(PEArgument::Arg32(x), None)),
            PEParameter::Single64(x) => Ok(StagedParameter::Ready(PEArgument::Arg64(x), None)),
            PEParameter::DeviceAddress(a) => Ok(StagedParameter::Ready(PEArgument::Arg64(a), None)),
            PEParameter::DataTransferPrealloc(t) => Ok(
                StagedParameter::Ready(
                    PEArgument::Arg64(t.device_address),
                    Some(
                        TransferTask {
                            region: RegionRef::Global(t.memory),
                            device_address: t.device_address,
                            data: t.data,
                            to_device: t.to_device,
                            from_device: t.from_device,
                            free: t.free,
                        },
                    ),
                ),
            ),
            PEParameter::DataTransferAlloc(t) => {
                if !self.offchip_memory[t.memory].allocator.is_host_managed() {
                    return Ok(
                        StagedParameter::NeedsDriverAllocation(
                            DriverAllocation {
                                region: t.memory,
                                data: t.data,
                                to_device: t.to_device,
                                from_device: t.from_device,
                                free: t.free,
                                fixed: t.fixed,
                            },
                        ),
                    );
                }
                let mut region = self.offchip_memory.remove(t.memory);
                let outcome = allocate_in(&mut region, t.data.len() as u64, t.fixed);
                self.offchip_memory.insert(t.memory, region);
                match outcome {
                    Ok(addr) => Ok(
                        StagedParameter::Ready(
                            PEArgument::Arg64(addr),
                            Some(
                                TransferTask {
                                    region: RegionRef::Global(t.memory),
                                    device_address: addr,
                                    data: t.data,
                                    to_device: t.to_device,
                                    from_device: t.from_device,
                                    free: t.free,
                                },
                            ),
                        ),
                    ),
                    Err(source) => {
                        proof {
                            assert(self.offchip_memory@ =~= old(self).offchip_memory@);
                        }
                        Err(Error::AllocatorError { source })
                    },
                }
            },
            PEParameter::DataTransferLocal(t) => {
                let m = match job.pe.local_memory {
                    Some(m) => m,
                    None => {
                        proof {
                            assert(false);
                        }
                        return Err(Error::AllocatorError {
                            source: crate::allocator::Error::InvalidRequest {
                                size: 0,
                                alignment: 0,
                            },
                        });
                    },
                };
                let mut region = self.scheduler.local_memories.remove(m);
                let outcome = allocate_in(&mut region, t.data.len() as u64, t.fixed);
                self.scheduler.local_memories.insert(m, region);
                match outcome {
                    Ok(addr) => Ok(
                        StagedParameter::Ready(
                            PEArgument::Arg64(addr),
                            Some(
                                TransferTask {
                                    region: RegionRef::Local(m),
                                    device_address: addr,
                                    data: t.data,
                                    to_device: t.to_device,
                                    from_device: t.from_device,
                                    free: t.free,
                                },
                            ),
                        ),
                    ),
                    Err(source) => {
                        proof {
                            assert(self.scheduler.local_memories@ =~= old(self).scheduler.local_memories@);
                        }
                        Err(Error::AllocatorError { source })
                    },
                }
            },
        }
    }

    /// Completion handling for one staged transfer: after any
    /// `from_device` bytes have been retrieved by the surrounding
    /// process, releases the device-side allocation when the task asks
    /// for it.  Tasks are handed back in parameter order.
    #[verifier::spinoff_prover]
    #[verifier::rlimit(100)]
    pub fn release_transfer(&mut self, task: TransferTask) -> (r: Result<(), Error>)
        requires
            old(self).wf(),
            task.region matches RegionRef::Global(i) ==> i < old(self).offchip_memory@.len(),
            task.region matches RegionRef::Local(m) ==> m < old(self).scheduler.local_memories@.len() && old(self).scheduler.local_memories@[m as int].allocator
                is Generic,
        ensures
            final(self).wf(),
            final(self).access == old(self).access,
            final(self).status == old(self).status,
            !task.free ==> *final(self) == *old(self) && r is Ok,
            task.free ==> final(self).offchip_memory@.len() == old(self).offchip_memory@.len()
                && final(self).scheduler.local_memories@.len() == old(self).scheduler.local_memories@.len() && final(self).scheduler.pools == old(self).scheduler.pools && final(self).scheduler.interrupts_routed == old(self).scheduler.interrupts_routed,
            task.free && task.region is Global && old(self).offchip_memory@[task.region->Global_0 as int].allocator is Driver ==> *final(self) == *old(self) && r is Ok,
            task.free && task.region is Global && old(self).offchip_memory@[task.region->Global_0 as int].allocator is Generic ==> freed_region_post(
                old(self).offchip_memory@[task.region->Global_0 as int].allocator->Generic_0,
                final(self).offchip_memory@[task.region->Global_0 as int].allocator->Generic_0,
                task.device_address,
                r,
            ) && final(self).scheduler.local_memories@ == old(self).scheduler.local_memories@
                && (forall|j: int|
                0 <= j < old(self).offchip_memory@.len() && j != task.region->Global_0 ==> final(self).offchip_memory@[j] == old(self).offchip_memory@[j]),
            task.free && task.region is Local ==> freed_region_post(
                old(self).scheduler.local_memories@[task.region->Local_0 as int].allocator->Generic_0,
                final(self).scheduler.local_memories@[task.region->Local_0 as int].allocator->Generic_0,
                task.device_address,
                r,
            ) && final(self).offchip_memory@ == old(self).offchip_memory@ && (forall|j: int|
                0 <= j < old(self).scheduler.local_memories@.len() && j != task.region->Local_0
                    ==> final(self).scheduler.local_memories@[j] == old(self).scheduler.local_memories@[j]),
    {
        if !task.free {
            return Ok(());
        }
        match task.region {
            RegionRef::Global(i) => {
                if !self.offchip_memory[i].allocator.is_host_managed() {
                    // The kernel driver owns the region's placement: the
                    // free request travels over the control file in the
                    // surrounding process, with no host-side bookkeeping.
                    return Ok(());
                }
                let mut region = self.offchip_memory.remove(i);
                let outcome = free_in(&mut region, task.device_address);
                let ghost fixed_region = region;
                self.offchip_memory.insert(i, region);
                proof {
                    assert(self.offchip_memory@[i as int] == fixed_region);
                    assert(self.offchip_memory@.len() == old(self).offchip_memory@.len());
                    assert(forall|j: int|
                        0 <= j < old(self).offchip_memory@.len() && j != i
                            ==> self.offchip_memory@[j] == old(self).offchip_memory@[j]);
                }
                match outcome {
                    Ok(()) => Ok(()),
                    Err(source) => {
                        proof {
                            assert(self.offchip_memory@ =~= old(self).offchip_memory@);
                        }
                        Err(Error::AllocatorError { source })
                    },
                }
            },
            RegionRef::Local(m) => {
                let mut region = self.scheduler.local_memories.remove(m);
                let outcome = free_in(&mut region, task.device_address);
                let ghost fixed_region = region;
                self.scheduler.local_memories.insert(m, region);
                proof {
                    assert(self.scheduler.local_memories@[m as int] == fixed_region);
                    assert(self.scheduler.local_memories@.len() == old(self).scheduler.local_memories@.len());
                    assert(forall|j: int|
                        0 <= j < old(self).scheduler.local_memories@.len() && j != m
                            ==> self.scheduler.local_memories@[j] == old(self).scheduler.local_memories@[j]);
                }
                match outcome {
                    Ok(()) => Ok(()),
                    Err(source) => {
                        proof {
                            assert(self.scheduler.local_memories@ =~= old(self).scheduler.local_memories@);
                        }
                        Err(Error::AllocatorError { source })
                    },
                }
            },
        }
    }
}

/// Completes the staging of a driver-placed allocation: the kernel
/// driver chose `address` for the request, and the parameter resolves
/// to that address with the transfer otherwise unchanged.  Holds for
/// every address the driver may answer with.
pub fn driver_allocated(request: DriverAllocation, address: DeviceAddress) -> (r: (
    PEArgument,
    TransferTask,
))
    ensures
        r.0 == PEArgument::Arg64(address),
        r.1.region == RegionRef::Global(request.region),
        r.1.device_address == address,
        r.1.data == request.data,
        r.1.to_device == request.to_device,
        r.1.from_device == request.from_device,
        r.1.free == request.free,
{
    (
        PEArgument::Arg64(address),
        TransferTask {
            region: RegionRef::Global(request.region),
            device_address: address,
            data: request.data,
            to_device: request.to_device,
            from_device: request.from_device,
            free: request.free,
        },
    )
}

/// How a release with `free` relates a region's allocator before and
/// after the call: success exactly when a live block starts at
/// `address`, that block gone on success, and the allocator untouched
/// on failure.
pub open spec fn freed_region_post(
    pre: crate::allocator::GenericAllocator,
    post: crate::allocator::GenericAllocator,
    address: DeviceAddress,
    r: Result<(), Error>,
) -> bool {
    &&& (r is Ok <==> exists|k: int|
        0 <= k < pre.blocks@.len() && (#[trigger] pre.blocks@[k]).addr == address)
    &&& (r is Ok ==> exists|k: int|
        0 <= k < pre.blocks@.len() && (#[trigger] pre.blocks@[k]).addr == address && post.blocks@
            == pre.blocks@.remove(k))
    &&& (r is Err ==> post == pre && r == Err::<(), Error>(
        Error::AllocatorError {
            source: crate::allocator::Error::UnknownAddress { offset: address },
        },
    ))
}

/// Allocates `size` bytes in a host-managed region at the region's own
/// default alignment.
fn allocate_in(region: &mut OffchipMemory, size: u64, fixed: Option<DeviceAddress>) -> (r: Result<
    DeviceAddress,
    crate::allocator::Error,
>)
    requires
        old(region).wf(),
        old(region).allocator is Generic,
    ensures
        final(region).wf(),
        final(region).dma == old(region).dma,
        final(region).allocator is Generic,
        ({
            let g = old(region).allocator->Generic_0;
            let g2 = final(region).allocator->Generic_0;
            &&& g2.base == g.base && g2.size == g.size && g2.alignment == g.alignment
            &&& (r is Ok <==> size > 0 && match fixed {
                Some(f) => g.candidate_ok(f as int, size as int, g.alignment as int),
                None => exists|q: int| g.candidate_ok(q, size as int, g.alignment as int),
            })
            &&& (r matches Ok(a) ==> g.candidate_ok(a as int, size as int, g.alignment as int)
                && g2.blocks@ == g.blocks@.push(crate::allocator::Block { addr: a, size })
                && (fixed matches Some(f) ==> a == f))
            &&& (r is Err ==> *final(region) == *old(region))
        }),
{
    match &mut region.allocator {
        Allocator::Generic(g) => {
            let alignment = g.alignment;
            g.allocate(size, alignment, fixed)
        },
        Allocator::Driver(_) => {
            proof {
                assert(false);
            }
            Err(crate::allocator::Error::InvalidRequest { size, alignment: 0 })
        },
    }
}

/// Frees the block starting at `address` in a host-managed region.
fn free_in(region: &mut OffchipMemory, address: DeviceAddress) -> (r: Result<
    (),
    crate::allocator::Error,
>)
    requires
        old(region).wf(),
        old(region).allocator is Generic,
    ensures
        final(region).wf(),
        final(region).dma == old(region).dma,
        final(region).allocator is Generic,
        ({
            let g = old(region).allocator->Generic_0;
            let g2 = final(region).allocator->Generic_0;
            &&& g2.base == g.base && g2.size == g.size && g2.alignment == g.alignment
            &&& (r is Ok <==> exists|k: int|
                0 <= k < g.blocks@.len() && (#[trigger] g.blocks@[k]).addr == address)
            &&& (r is Ok ==> exists|k: int|
                0 <= k < g.blocks@.len() && (#[trigger] g.blocks@[k]).addr == address
                    && g2.blocks@ == g.blocks@.remove(k))
            &&& (r is Err ==> *final(region) == *old(region) && r == Err::<(),
                crate::allocator::Error,
            >(crate::allocator::Error::UnknownAddress { offset: address }))
        }),
{
    match &mut region.allocator {
        Allocator::Generic(g) => g.free(address),
        Allocator::Driver(_) => {
            proof {
                assert(false);
            }
            Err(crate::allocator::Error::UnknownAddress { offset: address })
        },
    }
}

} // verus!
