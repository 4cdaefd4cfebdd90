use tapasco::access::AccessMode;
use tapasco::device::DataTransferAlloc;
use tapasco::device::DataTransferLocal;
use tapasco::device::DataTransferPrealloc;
use tapasco::device::Device;
use tapasco::device::Error;
use tapasco::device::PEParameter;
use tapasco::job::PEArgument;
use tapasco::job::RegionRef;
use tapasco::job::StagedParameter;
use tapasco::job::TransferTask;
use tapasco::job::driver_allocated;
use tapasco::status::Clock;
use tapasco::status::Component;
use tapasco::status::MemoryArea;
use tapasco::status::PeDecl;
use tapasco::status::StatusDescriptor;
use tapasco::transport::DmaSettings;

fn ready(sp: StagedParameter) -> (PEArgument, Option<TransferTask>) {
    match sp {
        StagedParameter::Ready(a, t) => (a, t),
        other => panic!("expected a resolved parameter, got {other:?}"),
    }
}

fn staged_device() -> Device {
    let desc = StatusDescriptor {
        platform_base: Some(MemoryArea { base: 8192, size: 4096 }),
        arch_base: Some(MemoryArea { base: 4096, size: 4096 }),
        platform: vec![Component {
            name: "PLATFORM_COMPONENT_DMA0".to_string(),
            offset: 0x300000,
        }],
        pe: vec![PeDecl {
            type_id: 9,
            offset: 0x0200,
            local_memory: Some(MemoryArea { base: 0x1000, size: 256 }),
        }],
        clocks: vec![Clock { name: "Design".to_string(), frequency_mhz: 100 }],
    };
    let settings = DmaSettings {
        read_buffer_size: 4096,
        read_buffers: 4,
        write_buffer_size: 4096,
        write_buffers: 4,
    };
    let (mut d, cmds) = Device::new(1, 0, 0, "pcie".to_string(), desc, settings)
        .expect("construction succeeds");
    for cmd in cmds {
        d.driver_confirmed(cmd);
    }
    for cmd in d.change_access(AccessMode::Exclusive) {
        d.driver_confirmed(cmd);
    }
    d
}

#[test]
fn scalars_pass_inline() {
    let mut d = staged_device();
    let job = d.acquire_pe(9).expect("instance available");
    let (a32, t32) = ready(d.stage_parameter(&job, PEParameter::Single32(5)).unwrap());
    assert_eq!(a32, PEArgument::Arg32(5));
    assert!(t32.is_none());
    let (a64, t64) = ready(d.stage_parameter(&job, PEParameter::Single64(1 << 40)).unwrap());
    assert_eq!(a64, PEArgument::Arg64(1 << 40));
    assert!(t64.is_none());
    let (addr, ta) = ready(d.stage_parameter(&job, PEParameter::DeviceAddress(0x42)).unwrap());
    assert_eq!(addr, PEArgument::Arg64(0x42));
    assert!(ta.is_none());
}

#[test]
fn alloc_transfers_allocate_in_the_named_region() {
    let mut d = staged_device();
    let job = d.acquire_pe(9).expect("instance available");
    let p = PEParameter::DataTransferAlloc(DataTransferAlloc {
        data: vec![1, 2, 3],
        from_device: false,
        to_device: true,
        free: true,
        memory: 0,
        fixed: None,
    });
    let (arg, task) = ready(d.stage_parameter(&job, p).unwrap());
    let task = task.expect("a transfer is pending");
    assert_eq!(arg, PEArgument::Arg64(0));
    assert_eq!(task.region, RegionRef::Global(0));
    assert_eq!(task.device_address, 0);
    assert_eq!(task.data, vec![1, 2, 3]);
    assert!(task.to_device && !task.from_device && task.free);

    let p2 = PEParameter::DataTransferAlloc(DataTransferAlloc {
        data: vec![4],
        from_device: true,
        to_device: false,
        free: false,
        memory: 0,
        fixed: None,
    });
    let (arg2, _task2) = ready(d.stage_parameter(&job, p2).unwrap());
    assert_eq!(arg2, PEArgument::Arg64(64));

    d.release_transfer(task).expect("freeing a live allocation succeeds");
    let p3 = PEParameter::DataTransferAlloc(DataTransferAlloc {
        data: vec![5, 6],
        from_device: false,
        to_device: true,
        free: false,
        memory: 0,
        fixed: Some(0),
    });
    let (arg3, _task3) = ready(d.stage_parameter(&job, p3).unwrap());
    assert_eq!(arg3, PEArgument::Arg64(0));
}

#[test]
fn local_transfers_use_the_selected_pe_memory() {
    let mut d = staged_device();
    let job = d.acquire_pe(9).expect("instance available");
    assert_eq!(job.pe.local_memory, Some(0));
    let p = PEParameter::DataTransferLocal(DataTransferLocal {
        data: vec![7, 8, 9],
        from_device: true,
        to_device: true,
        free: true,
        fixed: None,
    });
    let (arg, task) = ready(d.stage_parameter(&job, p).unwrap());
    let task = task.expect("a transfer is pending");
    assert_eq!(arg, PEArgument::Arg64(0));
    assert_eq!(task.region, RegionRef::Local(0));
    assert_eq!(task.device_address, 0);
    d.release_transfer(task).expect("freeing a live allocation succeeds");
}

#[test]
fn prealloc_transfers_do_not_allocate() {
    let mut d = staged_device();
    let job = d.acquire_pe(9).expect("instance available");
    let p = PEParameter::DataTransferPrealloc(DataTransferPrealloc {
        data: vec![1],
        device_address: 0x800,
        from_device: true,
        to_device: false,
        free: false,
        memory: 0,
    });
    let (arg, task) = ready(d.stage_parameter(&job, p).unwrap());
    let task = task.expect("a transfer is pending");
    assert_eq!(arg, PEArgument::Arg64(0x800));
    assert_eq!(task.device_address, 0x800);
    assert!(!task.free);
    d.release_transfer(task).expect("nothing to free");
}

#[test]
fn releasing_an_unknown_allocation_is_an_error() {
    let mut d = staged_device();
    let job = d.acquire_pe(9).expect("instance available");
    let p = PEParameter::DataTransferPrealloc(DataTransferPrealloc {
        data: vec![1],
        device_address: 0x800,
        from_device: false,
        to_device: true,
        free: true,
        memory: 0,
    });
    let (_, task) = ready(d.stage_parameter(&job, p).unwrap());
    let e = d.release_transfer(task.unwrap()).unwrap_err();
    assert!(matches!(
        e,
        Error::AllocatorError {
            source: tapasco::allocator::Error::UnknownAddress { offset: 0x800 }
        }
    ));
}

#[test]
fn oversized_local_transfers_fail_with_an_allocator_error() {
    let mut d = staged_device();
    let job = d.acquire_pe(9).expect("instance available");
    let p = PEParameter::DataTransferLocal(DataTransferLocal {
        data: vec![0; 300],
        from_device: false,
        to_device: true,
        free: true,
        fixed: None,
    });
    let e = d.stage_parameter(&job, p).unwrap_err();
    assert!(matches!(
        e,
        Error::AllocatorError { source: tapasco::allocator::Error::OutOfMemory { size: 300 } }
    ));
}

fn zynq_device() -> Device {
    let desc = StatusDescriptor {
        platform_base: Some(MemoryArea { base: 8192, size: 4096 }),
        arch_base: Some(MemoryArea { base: 4096, size: 4096 }),
        platform: Vec::new(),
        pe: vec![PeDecl { type_id: 3, offset: 0, local_memory: None }],
        clocks: Vec::new(),
    };
    let settings = DmaSettings {
        read_buffer_size: 4096,
        read_buffers: 4,
        write_buffer_size: 4096,
        write_buffers: 4,
    };
    let (mut d, cmds) =
        Device::new(2, 0, 0, "zynq".to_string(), desc, settings).expect("construction succeeds");
    for cmd in cmds {
        d.driver_confirmed(cmd);
    }
    for cmd in d.change_access(tapasco::access::AccessMode::Exclusive) {
        d.driver_confirmed(cmd);
    }
    d
}

#[test]
fn driver_region_allocation_is_planned_for_the_driver() {
    let mut d = zynq_device();
    let job = d.acquire_pe(3).expect("instance available");
    let p = PEParameter::DataTransferAlloc(DataTransferAlloc {
        data: vec![1, 2],
        from_device: false,
        to_device: true,
        free: true,
        memory: 0,
        fixed: None,
    });
    let request = match d.stage_parameter(&job, p).unwrap() {
        StagedParameter::NeedsDriverAllocation(q) => q,
        other => panic!("expected a driver placement request, got {other:?}"),
    };
    assert_eq!(request.region, 0);
    assert_eq!(request.data, vec![1, 2]);
    assert!(request.to_device && !request.from_device && request.free);
    let (arg, task) = driver_allocated(request, 0x5000);
    assert_eq!(arg, PEArgument::Arg64(0x5000));
    assert_eq!(task.region, RegionRef::Global(0));
    assert_eq!(task.device_address, 0x5000);
    assert_eq!(task.data, vec![1, 2]);
    // Freeing a driver-placed allocation is the driver's work too: the
    // library changes nothing and reports success.
    assert!(d.release_transfer(task).is_ok());
}
