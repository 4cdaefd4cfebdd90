//! The device: the access-mode state machine, platform classification,
//! the region list and the scheduler.
//!
//! A device is created once per physical device during enumeration.
//! Construction classifies the platform by name, builds the region
//! memory subsystem and the scheduler from the decoded status
//! descriptor, and plans the transition into monitor mode.  A caller
//! wanting to run work transitions the device to exclusive mode and
//! acquires a PE; the returned [`crate::job::Job`] binds the instance to
//! the scheduler that granted it.

use vstd::prelude::*;

use crate::DeviceAddress;
use crate::DeviceId;
use crate::DeviceSize;
use crate::PEId;
use crate::access::AccessMode;
use crate::access::DriverCommand;
use crate::access::transition_commands;
use crate::allocator::Allocator;
use crate::allocator::DriverAllocator;
use crate::allocator::GenericAllocator;
use crate::job::Job;
use crate::scheduler::Scheduler;
use crate::scheduler::index_of;
use crate::scheduler::pools_match_decls;
use crate::status::StatusDescriptor;
use crate::status::clock_frequency;
use crate::status::count_of_type;
use crate::status::dma_engine_offset;
use crate::status::local_windows;
use crate::transport::DmaSettings;
use crate::transport::Transport;

verus! {

/// Failures of the device runtime.  The driver, file and decode
/// variants are raised by the surrounding process, which owns the
/// device files; the library itself never constructs them.
#[derive(Debug)]
pub enum Error {
    /// The device's files could not be opened or mapped.
    DeviceUnavailable { id: DeviceId },
    /// A memory area required by construction is absent from the
    /// bitstream.
    AreaMissing { area: String },
    /// Decoding the status core failed.
    StatusCoreDecoding {},
    /// The driver refused to create the requested access mode.
    IOCTLCreate { id: DeviceId, access: AccessMode },
    /// PE acquisition requires exclusive access mode.
    ExclusiveRequired {},
    /// The descriptor lists no usable DMA engine.
    DMAEngineMissing {},
    /// The driver refused to destroy the current access mode.
    IOCTLDestroy { id: DeviceId },
    /// The scheduler failed.
    SchedulerError { source: crate::scheduler::Error },
    /// A transport failed.
    DMAError { source: crate::transport::Error },
    /// An allocator failed.
    AllocatorError { source: crate::allocator::Error },
    /// A lock around shared state was poisoned by a previous holder.
    MutexError {},
    /// The platform name matches no supported device type.
    DeviceType { name: String },
    /// A configuration key is missing or has the wrong type.
    ConfigError {},
}

/// One memory region on the device: exactly one allocator paired with
/// exactly one transport, never shared with another region.
#[derive(Debug)]
pub struct OffchipMemory {
    /// Manages the free-space map of the region.
    pub allocator: Allocator,
    /// Moves bytes between the host and the region.
    pub dma: Transport,
}

impl OffchipMemory {
    /// Well-formedness of the region's allocator.
    pub open spec fn wf(self) -> bool {
        self.allocator.wf()
    }

    /// A fresh host-managed region over `[base, base + size)` with the
    /// given default alignment and transport.
    pub open spec fn is_fresh_generic(
        self,
        base: u64,
        size: u64,
        alignment: u64,
        dma: Transport,
    ) -> bool {
        &&& self.allocator matches Allocator::Generic(g) && g.base == base && g.size == size
            && g.alignment == alignment && g.blocks@.len() == 0
        &&& self.dma == dma
    }

    /// A region whose allocation and transfers are both delegated to
    /// the kernel driver.
    pub open spec fn is_driver_delegated(self) -> bool {
        &&& self.allocator is Driver
        &&& self.dma is Driver
    }
}

/// Size of the global region of a PCIe-class platform.
pub const PCIE_REGION_SIZE: u64 = 4 * 1024 * 1024 * 1024;

/// Default alignment of the global region of a PCIe-class platform.
pub const PCIE_REGION_ALIGNMENT: u64 = 64;

/// Describes a transfer to local memory.  The specific memory to use is
/// determined after the PE has been selected.
#[derive(Debug)]
pub struct DataTransferLocal {
    /// The bytes used for this transfer.
    pub data: Vec<u8>,
    /// Should the buffer be transferred back after job execution?
    pub from_device: bool,
    /// Should the buffer be transferred to the device before job
    /// execution?
    pub to_device: bool,
    /// Should the buffer on the device be released after job execution?
    pub free: bool,
    /// Does the allocation on the device have to be on a certain
    /// offset?
    pub fixed: Option<DeviceAddress>,
}

/// Data transfer parameter which requires allocation on the device.
#[derive(Debug)]
pub struct DataTransferAlloc {
    /// The bytes used for this transfer.
    pub data: Vec<u8>,
    /// Should the buffer be transferred back after job execution?
    pub from_device: bool,
    /// Should the buffer be transferred to the device before job
    /// execution?
    pub to_device: bool,
    /// Should the buffer on the device be released after job execution?
    pub free: bool,
    /// Which memory to target: an index into the device's region list.
    pub memory: usize,
    /// Does the allocation on the device have to be on a certain
    /// offset?
    pub fixed: Option<DeviceAddress>,
}

/// Data transfer parameter with preallocated memory on the device.
#[derive(Debug)]
pub struct DataTransferPrealloc {
    /// The bytes used for this transfer.
    pub data: Vec<u8>,
    /// Allocation on the device to use.
    pub device_address: DeviceAddress,
    /// Should the buffer be transferred back after job execution?
    pub from_device: bool,
    /// Should the buffer be transferred to the device before job
    /// execution?
    pub to_device: bool,
    /// Should the buffer on the device be released after job execution?
    pub free: bool,
    /// Which memory to target: an index into the device's region list.
    pub memory: usize,
}

/// All parameters supported by a PE.
#[derive(Debug)]
pub enum PEParameter {
    /// Single 32 bit parameter.
    Single32(u32),
    /// Single 64 bit parameter.
    Single64(u64),
    /// Single address transferred as a 64 bit parameter.
    DeviceAddress(DeviceAddress),
    /// Transfer using the selected PE's local memory.
    DataTransferLocal(DataTransferLocal),
    /// Transfer using any memory, allocated eagerly.
    DataTransferAlloc(DataTransferAlloc),
    /// Transfer using any memory with preallocated space.
    DataTransferPrealloc(DataTransferPrealloc),
}

/// Whether the platform name selects a supported device type.
pub open spec fn is_supported_platform(name: Seq<char>) -> bool {
    name == "pcie"@ || name == "zynq"@ || name == "zynqmp"@
}

/// Whether construction succeeds on the given descriptor and platform
/// name: both control regions present, a supported platform, and (for
/// PCIe) a usable DMA engine.
pub open spec fn construction_succeeds(status: StatusDescriptor, name: Seq<char>) -> bool {
    &&& status.platform_base is Some
    &&& status.arch_base is Some
    &&& (name == "pcie"@ ==> dma_engine_offset(status.platform@) != 0)
    &&& is_supported_platform(name)
}

/// Description of one device: identity, access mode, decoded status
/// descriptor, region list and scheduler.  The device's files and
/// mappings are owned by the surrounding process; every driver request
/// the device plans is handed out as [`DriverCommand`] values.
#[derive(Debug)]
pub struct Device {
    /// Identifier of the device.
    pub id: DeviceId,
    /// Vendor identifier.
    pub vendor: u32,
    /// Product identifier.
    pub product: u32,
    /// Platform name, e.g. `"pcie"`.
    pub name: String,
    /// Current access mode.  It changes only when the surrounding
    /// process confirms a planned driver request through
    /// [`Device::driver_confirmed`].
    pub access: AccessMode,
    /// The decoded status descriptor.
    pub status: StatusDescriptor,
    /// Size of the platform control window.
    pub platform_size: DeviceSize,
    /// Size of the architecture control window.
    pub arch_size: DeviceSize,
    /// The globally addressable memory regions; index `0` is the
    /// default region for general allocation.
    pub offchip_memory: Vec<OffchipMemory>,
    /// The PE scheduler.
    pub scheduler: Scheduler,
}

impl Device {
    /// Well-formedness: at least one global region, well-formed regions
    /// and a well-formed scheduler.
    pub open spec fn wf(self) -> bool {
        &&& self.offchip_memory@.len() >= 1
        &&& forall|i: int|
            0 <= i < self.offchip_memory@.len() ==> (#[trigger] self.offchip_memory@[i]).wf()
        &&& self.scheduler.wf()
    }

    /// Sets up all components of a device: classifies the platform,
    /// builds one global region (a host-managed byte-range allocator
    /// paired with the user-space buffered transport on PCIe; a fully
    /// driver-delegated region on Zynq-class platforms), one extra
    /// region per PE that declares a local-memory window, and the
    /// scheduler; and plans the transition into monitor mode, returned
    /// beside the device.  The device starts inactive: the surrounding
    /// process, which opens and maps the device files and decodes the
    /// descriptor, completes construction by issuing the returned
    /// requests on the control file and reporting each success through
    /// [`Device::driver_confirmed`]; a refusal aborts construction and
    /// the device is discarded.
    pub fn new(
        id: DeviceId,
        vendor: u32,
        product: u32,
        name: String,
        status: StatusDescriptor,
        settings: DmaSettings,
    ) -> (r: Result<(Device, Vec<DriverCommand>), Error>)
        ensures
            r is Ok <==> construction_succeeds(status, name@),
            r matches Ok((d, cmds)) ==> {
                &&& cmds@ == transition_commands(AccessMode::Inactive, AccessMode::Monitor)
                &&& d.wf()
                &&& d.id == id
                &&& d.vendor == vendor
                &&& d.product == product
                &&& d.name == name
                &&& d.status == status
                &&& d.access == AccessMode::Inactive
                &&& (status.platform_base matches Some(a) && d.platform_size == a.size)
                &&& (status.arch_base matches Some(a) && d.arch_size == a.size)
                &&& d.offchip_memory@.len() == 1
                &&& (name@ == "pcie"@ ==> d.offchip_memory@[0].is_fresh_generic(
                    0,
                    PCIE_REGION_SIZE,
                    PCIE_REGION_ALIGNMENT,
                    Transport::UserSpace {
                        engine_offset: dma_engine_offset(status.platform@),
                        settings,
                    },
                ))
                &&& (name@ == "zynq"@ || name@ == "zynqmp"@
                    ==> d.offchip_memory@[0].is_driver_delegated())
                &&& forall|t: PEId|
                    #[trigger] d.scheduler.num_pes_spec(t) == count_of_type(status.pe@, t)
                &&& forall|t: PEId|
                    #[trigger] d.scheduler.free_of(t) == count_of_type(status.pe@, t)
                &&& pools_match_decls(d.scheduler.pools@, status.pe@)
                &&& d.scheduler.local_memories@.len() == local_windows(status.pe@).len()
                &&& forall|k: int|
                    0 <= k < local_windows(status.pe@).len()
                        ==> (#[trigger] d.scheduler.local_memories@[k]).is_fresh_generic(
                        0,
                        local_windows(status.pe@)[k].size,
                        1,
                        Transport::Direct {
                            base: local_windows(status.pe@)[k].base,
                            size: local_windows(status.pe@)[k].size,
                        },
                    )
                &&& !d.scheduler.interrupts_routed
            },
            r matches Err(e) ==> {
                if status.platform_base is None {
                    e matches Error::AreaMissing { area } && area@ == "Platform"@
                } else if status.arch_base is None {
                    e matches Error::AreaMissing { area } && area@ == "Architecture"@
                } else if name@ == "pcie"@ && dma_engine_offset(status.platform@) == 0 {
                    e is DMAEngineMissing
                } else {
                    e matches Error::DeviceType { name: n } && n@ == name@
                }
            },
    {
        proof {
            reveal_strlit("pcie");
            reveal_strlit("zynq");
            reveal_strlit("zynqmp");
            assert("pcie"@ != "zynq"@) by {
                assert("pcie"@[0] == 'p');
                assert("zynq"@[0] == 'z');
            }
            assert("pcie"@ != "zynqmp"@) by {
                assert("pcie"@[0] == 'p');
                assert("zynqmp"@[0] == 'z');
            }
        }
        let platform_size = match &status.platform_base {
            Some(base) => base.size,
            None => {
                return Err(Error::AreaMissing { area: "Platform".to_owned() });
            },
        };
        let arch_size = match &status.arch_base {
            Some(base) => base.size,
            None => {
                return Err(Error::AreaMissing { area: "Architecture".to_owned() });
            },
        };
        let mut offchip: Vec<OffchipMemory> = Vec::new();
        if name == "pcie".to_owned() {
            let dma_offset = find_dma_engine(&status);
            if dma_offset == 0 {
                return Err(Error::DMAEngineMissing {});
            }
            let generic = match GenericAllocator::new(0, PCIE_REGION_SIZE, PCIE_REGION_ALIGNMENT) {
                Ok(g) => g,
                Err(source) => {
                    return Err(Error::AllocatorError { source });
                },
            };
            offchip.push(
                OffchipMemory {
                    allocator: Allocator::Generic(generic),
                    dma: Transport::UserSpace { engine_offset: dma_offset, settings },
                },
            );
        } else if name == "zynq".to_owned() || name == "zynqmp".to_owned() {
            offchip.push(
                OffchipMemory {
                    allocator: Allocator::Driver(DriverAllocator::new()),
                    dma: Transport::Driver,
                },
            );
        } else {
            return Err(Error::DeviceType { name });
        }
        let local_memories = build_local_regions(&status);
        let scheduler = crate::scheduler::build_scheduler(&status.pe, local_memories);
        let device = Device {
            id,
            vendor,
            product,
            name,
            access: AccessMode::Inactive,
            status,
            platform_size,
            arch_size,
            offchip_memory: offchip,
            scheduler,
        };
        let cmds = device.change_access(AccessMode::Monitor);
        Ok((device, cmds))
    }

    /// No driver request is planned when the device already holds
    /// `access`.  Otherwise returns the requests of the transition, in
    /// order: a teardown of the current mode (unless inactive) followed
    /// by a request for the new one.  Nothing is committed here: the
    /// surrounding process issues each request on the control file and
    /// reports each success through [`Device::driver_confirmed`], which
    /// alone updates the in-memory mode.  When the driver refuses a
    /// request, the mode keeps describing the last confirmed state —
    /// the driver's actual state is then unknown and the device should
    /// be discarded rather than used further.
    pub fn change_access(&self, access: AccessMode) -> (cmds: Vec<DriverCommand>)
        ensures
            cmds@ == transition_commands(self.access, access),
            self.access == access ==> cmds@.len() == 0,
    {
        if self.access == access {
            return Vec::new();
        }
        let mut cmds = self.destroy();
        cmds.push(DriverCommand::Create { mode: access });
        proof {
            assert(cmds@ =~= transition_commands(self.access, access));
        }
        cmds
    }

    /// Plans the teardown of the current access mode, returning the
    /// driver request to issue; no request is planned when the device
    /// is already inactive.  Used before requesting a new mode.
    fn destroy(&self) -> (cmds: Vec<DriverCommand>)
        ensures
            cmds@ == if self.access != AccessMode::Inactive {
                seq![DriverCommand::Destroy { mode: self.access }]
            } else {
                Seq::<DriverCommand>::empty()
            },
    {
        let mut cmds: Vec<DriverCommand> = Vec::new();
        if self.access != AccessMode::Inactive {
            cmds.push(DriverCommand::Destroy { mode: self.access });
        }
        cmds
    }

    /// The driver confirmed one planned request; only here does the
    /// in-memory mode change.  A confirmed teardown leaves the device
    /// inactive; a confirmed mode request sets the new mode, and
    /// entering exclusive mode additionally resets all interrupt
    /// routing through the scheduler (the driver rebinds interrupts on
    /// the exclusivity transition and stale routing would misdeliver
    /// completions).  A refused request is not reported here: the mode
    /// then still names the last confirmed state, which may disagree
    /// with the driver's actual state.
    pub fn driver_confirmed(&mut self, cmd: DriverCommand)
        requires
            old(self).wf(),
        ensures
            final(self).wf(),
            cmd matches DriverCommand::Destroy { .. } ==> final(self).access
                == AccessMode::Inactive && final(self).scheduler.interrupts_routed == old(self).scheduler.interrupts_routed,
            cmd matches DriverCommand::Create { mode } ==> final(self).access == mode && final(self).scheduler.interrupts_routed == (if mode == AccessMode::Exclusive {
                true
            } else {
                old(self).scheduler.interrupts_routed
            }),
            final(self).id == old(self).id,
            final(self).vendor == old(self).vendor,
            final(self).product == old(self).product,
            final(self).name == old(self).name,
            final(self).status == old(self).status,
            final(self).platform_size == old(self).platform_size,
            final(self).arch_size == old(self).arch_size,
            final(self).offchip_memory == old(self).offchip_memory,
            final(self).scheduler.pools == old(self).scheduler.pools,
            final(self).scheduler.local_memories == old(self).scheduler.local_memories,
    {
        match cmd {
            DriverCommand::Destroy { .. } => {
                self.access = AccessMode::Inactive;
            },
            DriverCommand::Create { mode } => {
                self.access = mode;
                if mode == AccessMode::Exclusive {
                    self.scheduler.reset_interrupts();
                }
            },
        }
    }

    /// Succeeds exactly when the device holds exclusive access.
    fn check_exclusive_access(&self) -> (r: Result<(), Error>)
        ensures
            r is Ok <==> self.access == AccessMode::Exclusive,
            r is Err ==> r == Err::<(), Error>(Error::ExclusiveRequired {}),
    {
        if self.access != AccessMode::Exclusive {
            Err(Error::ExclusiveRequired {})
        } else {
            Ok(())
        }
    }

    /// Requests a PE of the given type from the scheduler and wraps it
    /// in a [`Job`].  Requires exclusive access mode and fails with
    /// `ExclusiveRequired` in every other mode, whatever the type; an
    /// unknown type or an exhausted pool surfaces as `SchedulerError`.
    pub fn acquire_pe(&mut self, pe: PEId) -> (r: Result<Job, Error>)
        requires
            old(self).wf(),
        ensures
            final(self).wf(),
            final(self).access == old(self).access,
            final(self).id == old(self).id,
            final(self).name == old(self).name,
            final(self).status == old(self).status,
            final(self).offchip_memory == old(self).offchip_memory,
            final(self).scheduler.local_memories == old(self).scheduler.local_memories,
            final(self).scheduler.interrupts_routed == old(self).scheduler.interrupts_routed,
            forall|t: PEId|
                #[trigger] final(self).scheduler.num_pes_spec(t) == old(self).scheduler.num_pes_spec(t),
            old(self).access != AccessMode::Exclusive ==> r == Err::<Job, Error>(
                Error::ExclusiveRequired {},
            ) && *final(self) == *old(self),
            old(self).access == AccessMode::Exclusive ==> {
                &&& (r is Ok <==> old(self).scheduler.can_acquire(pe))
                &&& (r matches Ok(job) ==> {
                    &&& job.pe == old(self).scheduler.pools@[index_of(
                        old(self).scheduler.pools@,
                        pe,
                    )].free_pes@.last()
                    &&& job.pe.type_id == pe
                    &&& job.pe.instance < old(self).scheduler.num_pes_spec(pe)
                    &&& (job.pe.local_memory matches Some(m) ==> m < final(self).scheduler.local_memories@.len())
                    &&& !final(self).scheduler.instance_free(pe, job.pe.instance)
                    &&& final(self).scheduler.free_of(pe) == old(self).scheduler.free_of(pe) - 1
                    &&& forall|t: PEId|
                        t != pe ==> #[trigger] final(self).scheduler.free_of(t) == old(self).scheduler.free_of(t)
                })
                &&& (r is Err ==> *final(self) == *old(self) && r == Err::<Job, Error>(
                    Error::SchedulerError {
                        source: if old(self).scheduler.has_type(pe) {
                            crate::scheduler::Error::OutOfPEs { id: pe }
                        } else {
                            crate::scheduler::Error::UnknownPeType { id: pe }
                        },
                    },
                ))
            },
    {
        match self.check_exclusive_access() {
            Err(e) => Err(e),
            Ok(()) => match self.scheduler.acquire_pe(pe) {
                Ok(p) => Ok(Job { pe: p }),
                Err(source) => Err(Error::SchedulerError { source }),
            },
        }
    }

    /// Returns an acquired PE to the scheduler's pool.  Must be called
    /// exactly once per job, on completion or abandonment.
    pub fn release_pe(&mut self, job: Job)
        requires
            old(self).wf(),
            old(self).scheduler.has_type(job.pe.type_id),
            job.pe.instance < old(self).scheduler.num_pes_spec(job.pe.type_id),
            !old(self).scheduler.instance_free(job.pe.type_id, job.pe.instance),
            job.pe.local_memory matches Some(m) ==> m < old(self).scheduler.local_memories@.len(),
        ensures
            final(self).wf(),
            final(self).access == old(self).access,
            final(self).name == old(self).name,
            final(self).status == old(self).status,
            final(self).offchip_memory == old(self).offchip_memory,
            final(self).scheduler.local_memories == old(self).scheduler.local_memories,
            final(self).scheduler.interrupts_routed == old(self).scheduler.interrupts_routed,
            forall|t: PEId|
                #[trigger] final(self).scheduler.num_pes_spec(t) == old(self).scheduler.num_pes_spec(t),
            final(self).scheduler.free_of(job.pe.type_id) == old(self).scheduler.free_of(
                job.pe.type_id,
            ) + 1,
            forall|t: PEId|
                t != job.pe.type_id ==> #[trigger] final(self).scheduler.free_of(t) == old(self).scheduler.free_of(t),
    {
        self.scheduler.release_pe(job.pe);
    }

    /// Frequency in MHz of the first clock with the given name, `0`
    /// when the descriptor lists none.
    fn clock_frequency_mhz(&self, name: &String) -> (r: u64)
        ensures
            r == clock_frequency(self.status.clocks@, name@),
    {
        let n = self.status.clocks.len();
        let mut i: usize = 0;
        proof {
            assert(self.status.clocks@.skip(0) =~= self.status.clocks@);
        }
        while i < n
            invariant
                n == self.status.clocks@.len(),
                i <= n,
                clock_frequency(self.status.clocks@, name@) == clock_frequency(
                    self.status.clocks@.skip(i as int),
                    name@,
                ),
            decreases n - i,
        {
            proof {
                assert(self.status.clocks@.skip(i as int)[0] == self.status.clocks@[i as int]);
                assert(self.status.clocks@.skip(i as int).drop_first() =~= self.status.clocks@.skip(
                    i as int + 1,
                ));
            }
            if self.status.clocks[i].name == *name {
                return self.status.clocks[i].frequency_mhz;
            }
            i = i + 1;
        }
        proof {
            assert(self.status.clocks@.skip(n as int).len() == 0);
        }
        0
    }

    /// Frequency in MHz used by the design, as indicated by the status
    /// descriptor; `0` when the descriptor lists no `"Design"` clock.
    pub fn design_frequency_mhz(&self) -> (r: u64)
        ensures
            r == clock_frequency(self.status.clocks@, "Design"@),
    {
        self.clock_frequency_mhz(&"Design".to_owned())
    }

    /// Frequency in MHz used by the memory, as indicated by the status
    /// descriptor; `0` when the descriptor lists no `"Memory"` clock.
    pub fn memory_frequency_mhz(&self) -> (r: u64)
        ensures
            r == clock_frequency(self.status.clocks@, "Memory"@),
    {
        self.clock_frequency_mhz(&"Memory".to_owned())
    }

    /// Frequency in MHz used by the host, as indicated by the status
    /// descriptor; `0` when the descriptor lists no `"Host"` clock.
    pub fn host_frequency_mhz(&self) -> (r: u64)
        ensures
            r == clock_frequency(self.status.clocks@, "Host"@),
    {
        self.clock_frequency_mhz(&"Host".to_owned())
    }

    /// The main memory region: index `0` of the region list.  Might be
    /// used to preallocate memory and transfer data independent of a
    /// job.
    pub fn default_memory(&self) -> (r: &OffchipMemory)
        requires
            self.wf(),
        ensures
            *r == self.offchip_memory@[0],
    {
        &self.offchip_memory[0]
    }

    /// Number of PEs of the given type in the bitstream, free or
    /// acquired; `0` for an unknown type.
    pub fn num_pes(&self, pe: PEId) -> (r: usize)
        requires
            self.wf(),
        ensures
            r == self.scheduler.num_pes_spec(pe),
    {
        self.scheduler.num_pes(pe)
    }
}

/// Offset of the last descriptor component named
/// `PLATFORM_COMPONENT_DMA0`, `0` when none exists.
fn find_dma_engine(status: &StatusDescriptor) -> (r: DeviceAddress)
    ensures
        r == dma_engine_offset(status.platform@),
{
    let dma_name: String = "PLATFORM_COMPONENT_DMA0".to_owned();
    let n = status.platform.len();
    let mut dma_offset: u64 = 0;
    let mut i: usize = 0;
    while i < n
        invariant
            n == status.platform@.len(),
            i <= n,
            dma_offset == dma_engine_offset(status.platform@.take(i as int)),
            dma_name@ == "PLATFORM_COMPONENT_DMA0"@,
        decreases n - i,
    {
        proof {
            assert(status.platform@.take(i as int + 1).drop_last() =~= status.platform@.take(
                i as int,
            ));
            assert(status.platform@.take(i as int + 1).last() == status.platform@[i as int]);
        }
        if status.platform[i].name == dma_name {
            dma_offset = status.platform[i].offset;
        }
        i = i + 1;
    }
    proof {
        assert(status.platform@.take(n as int) =~= status.platform@);
    }
    dma_offset
}

/// Builds one region per PE instance that declares a local-memory
/// window: a host-managed allocator spanning exactly that window with
/// byte alignment, paired with the direct memory-mapped transport
/// addressing the architecture window at the window's base and size.
fn build_local_regions(status: &StatusDescriptor) -> (r: Vec<OffchipMemory>)
    ensures
        r@.len() == local_windows(status.pe@).len(),
        forall|k: int|
            0 <= k < r@.len() ==> (#[trigger] r@[k]).is_fresh_generic(
                0,
                local_windows(status.pe@)[k].size,
                1,
                Transport::Direct {
                    base: local_windows(status.pe@)[k].base,
                    size: local_windows(status.pe@)[k].size,
                },
            ),
        forall|k: int| 0 <= k < r@.len() ==> (#[trigger] r@[k]).wf(),
{
    let n = status.pe.len();
    let mut regions: Vec<OffchipMemory> = Vec::new();
    let mut j: usize = 0;
    while j < n
        invariant
            n == status.pe@.len(),
            j <= n,
            regions@.len() == local_windows(status.pe@.take(j as int)).len(),
            forall|k: int|
                0 <= k < regions@.len() ==> (#[trigger] regions@[k]).is_fresh_generic(
                    0,
                    local_windows(status.pe@.take(j as int))[k].size,
                    1,
                    Transport::Direct {
                        base: local_windows(status.pe@.take(j as int))[k].base,
                        size: local_windows(status.pe@.take(j as int))[k].size,
                    },
                ),
            forall|k: int| 0 <= k < regions@.len() ==> (#[trigger] regions@[k]).wf(),
        decreases n - j,
    {
        proof {
            assert(status.pe@.take(j as int + 1).drop_last() =~= status.pe@.take(j as int));
            assert(status.pe@.take(j as int + 1).last() == status.pe@[j as int]);
        }
        match &status.pe[j].local_memory {
            Some(l) => {
                let generic = match GenericAllocator::new(0, l.size, 1) {
                    Ok(g) => g,
                    Err(_) => {
                        proof {
                            assert(false);
                        }
                        return regions;
                    },
                };
                regions.push(
                    OffchipMemory {
                        allocator: Allocator::Generic(generic),
                        dma: Transport::Direct { base: l.base, size: l.size },
                    },
                );
            },
            None => {},
        }
        j = j + 1;
    }
    proof {
        assert(status.pe@.take(n as int) =~= status.pe@);
    }
    regions
}

} // verus!
