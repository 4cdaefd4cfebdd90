use tapasco::access::AccessMode;
use tapasco::access::DriverCommand;
use tapasco::allocator::Allocator;
use tapasco::device::Device;
use tapasco::device::Error;
use tapasco::status::Clock;
use tapasco::status::Component;
use tapasco::status::MemoryArea;
use tapasco::status::PeDecl;
use tapasco::status::StatusDescriptor;
use tapasco::transport::DmaSettings;
use tapasco::transport::Transport;

fn settings() -> DmaSettings {
    DmaSettings {
        read_buffer_size: 4096,
        read_buffers: 4,
        write_buffer_size: 4096,
        write_buffers: 4,
    }
}

fn descriptor(with_dma: bool) -> StatusDescriptor {
    StatusDescriptor {
        platform_base: Some(MemoryArea { base: 8192, size: 4096 }),
        arch_base: Some(MemoryArea { base: 4096, size: 4096 }),
        platform: if with_dma {
            vec![
                Component { name: "PLATFORM_COMPONENT_INTC0".to_string(), offset: 0x100000 },
                Component { name: "PLATFORM_COMPONENT_DMA0".to_string(), offset: 0x300000 },
            ]
        } else {
            vec![Component { name: "PLATFORM_COMPONENT_INTC0".to_string(), offset: 0x100000 }]
        },
        pe: vec![
            PeDecl { type_id: 7, offset: 0x0000, local_memory: None },
            PeDecl { type_id: 7, offset: 0x0100, local_memory: None },
            PeDecl {
                type_id: 9,
                offset: 0x0200,
                local_memory: Some(MemoryArea { base: 0x1000, size: 256 }),
            },
        ],
        clocks: vec![
            Clock { name: "Design".to_string(), frequency_mhz: 100 },
            Clock { name: "Memory".to_string(), frequency_mhz: 200 },
        ],
    }
}

fn new_device(name: &str, with_dma: bool) -> Result<Device, Error> {
    let (mut d, cmds) =
        Device::new(0, 0x10ee, 0x7038, name.to_string(), descriptor(with_dma), settings())?;
    for cmd in cmds {
        d.driver_confirmed(cmd);
    }
    Ok(d)
}

fn apply_access(d: &mut Device, mode: AccessMode) {
    for cmd in d.change_access(mode) {
        d.driver_confirmed(cmd);
    }
}

#[test]
fn pcie_construction_selects_user_space_pairing() {
    let d = new_device("pcie", true).expect("construction succeeds");
    assert_eq!(d.access, AccessMode::Monitor);
    assert_eq!(d.offchip_memory.len(), 1);
    match &d.offchip_memory[0].allocator {
        Allocator::Generic(g) => {
            assert_eq!(g.base, 0);
            assert_eq!(g.size, 4 * 1024 * 1024 * 1024);
            assert_eq!(g.alignment, 64);
        },
        Allocator::Driver(_) => panic!("pcie must manage the region in host memory"),
    }
    assert!(matches!(
        d.offchip_memory[0].dma,
        Transport::UserSpace { engine_offset: 0x300000, .. }
    ));
}

#[test]
fn zynq_construction_selects_driver_pairing() {
    for name in ["zynq", "zynqmp"] {
        let d = new_device(name, false).expect("construction succeeds");
        assert!(matches!(d.offchip_memory[0].allocator, Allocator::Driver(_)));
        assert!(matches!(d.offchip_memory[0].dma, Transport::Driver));
    }
}

#[test]
fn unknown_platform_name_is_rejected() {
    let e = new_device("versal", true).unwrap_err();
    match e {
        Error::DeviceType { name } => assert_eq!(name, "versal"),
        other => panic!("unexpected error {other:?}"),
    }
}

#[test]
fn missing_areas_fail_construction() {
    let mut desc = descriptor(true);
    desc.platform_base = None;
    let e = Device::new(0, 0, 0, "pcie".to_string(), desc, settings()).unwrap_err();
    match e {
        Error::AreaMissing { area } => assert_eq!(area, "Platform"),
        other => panic!("unexpected error {other:?}"),
    }
    let mut desc = descriptor(true);
    desc.arch_base = None;
    let e = Device::new(0, 0, 0, "pcie".to_string(), desc, settings()).unwrap_err();
    match e {
        Error::AreaMissing { area } => assert_eq!(area, "Architecture"),
        other => panic!("unexpected error {other:?}"),
    }
}

#[test]
fn pcie_without_dma_engine_fails_construction() {
    let e = new_device("pcie", false).unwrap_err();
    assert!(matches!(e, Error::DMAEngineMissing {}));
    let mut desc = descriptor(true);
    desc.platform[1].offset = 0;
    let e = Device::new(0, 0, 0, "pcie".to_string(), desc, settings()).unwrap_err();
    assert!(matches!(e, Error::DMAEngineMissing {}));
}

#[test]
fn pe_local_memory_regions_are_direct_mapped() {
    let d = new_device("pcie", true).expect("construction succeeds");
    assert_eq!(d.scheduler.local_memories.len(), 1);
    let region = &d.scheduler.local_memories[0];
    match &region.allocator {
        Allocator::Generic(g) => {
            assert_eq!(g.base, 0);
            assert_eq!(g.size, 256);
            assert_eq!(g.alignment, 1);
        },
        Allocator::Driver(_) => panic!("local memory must be host managed"),
    }
    assert!(matches!(region.dma, Transport::Direct { base: 0x1000, size: 256 }));
}

#[test]
fn change_access_is_idempotent() {
    let mut d = new_device("pcie", true).expect("construction succeeds");
    let first = d.change_access(AccessMode::Exclusive);
    assert_eq!(
        first,
        vec![
            DriverCommand::Destroy { mode: AccessMode::Monitor },
            DriverCommand::Create { mode: AccessMode::Exclusive },
        ]
    );
    for cmd in first {
        d.driver_confirmed(cmd);
    }
    assert_eq!(d.access, AccessMode::Exclusive);
    let second = d.change_access(AccessMode::Exclusive);
    assert_eq!(second, Vec::new());
    assert_eq!(d.access, AccessMode::Exclusive);
}

#[test]
fn mode_changes_only_on_driver_confirmation() {
    let (d, cmds) =
        Device::new(0, 0, 0, "pcie".to_string(), descriptor(true), settings()).unwrap();
    assert_eq!(d.access, AccessMode::Inactive);
    assert_eq!(cmds, vec![DriverCommand::Create { mode: AccessMode::Monitor }]);
}

#[test]
fn refused_teardown_leaves_the_old_mode() {
    let mut d = new_device("pcie", true).expect("construction succeeds");
    let cmds = d.change_access(AccessMode::Exclusive);
    assert!(matches!(cmds[0], DriverCommand::Destroy { mode: AccessMode::Monitor }));
    // The driver refuses the teardown: nothing is confirmed.
    assert_eq!(d.access, AccessMode::Monitor);
    assert!(!d.scheduler.interrupts_routed);
}

#[test]
fn refused_mode_request_leaves_the_device_inactive() {
    let mut d = new_device("pcie", true).expect("construction succeeds");
    let cmds = d.change_access(AccessMode::Exclusive);
    // The teardown succeeds, the mode request is refused.
    d.driver_confirmed(cmds[0]);
    assert_eq!(d.access, AccessMode::Inactive);
    assert!(!d.scheduler.interrupts_routed);
    assert!(matches!(d.acquire_pe(7).unwrap_err(), Error::ExclusiveRequired {}));
}

#[test]
fn transition_into_exclusive_resets_interrupt_routing() {
    let mut d = new_device("pcie", true).expect("construction succeeds");
    assert!(!d.scheduler.interrupts_routed);
    apply_access(&mut d, AccessMode::Exclusive);
    assert!(d.scheduler.interrupts_routed);
}

#[test]
fn acquisition_requires_exclusive_access() {
    let mut d = new_device("pcie", true).expect("construction succeeds");
    assert!(matches!(d.acquire_pe(7).unwrap_err(), Error::ExclusiveRequired {}));
    assert!(matches!(d.acquire_pe(9).unwrap_err(), Error::ExclusiveRequired {}));
    assert!(matches!(d.acquire_pe(1234).unwrap_err(), Error::ExclusiveRequired {}));
    apply_access(&mut d, AccessMode::Inactive);
    assert!(matches!(d.acquire_pe(7).unwrap_err(), Error::ExclusiveRequired {}));
}

#[test]
fn acquisition_and_release_round_trip() {
    let mut d = new_device("pcie", true).expect("construction succeeds");
    assert!(matches!(d.acquire_pe(7).unwrap_err(), Error::ExclusiveRequired {}));
    apply_access(&mut d, AccessMode::Exclusive);
    assert_eq!(d.num_pes(7), 2);
    let job = d.acquire_pe(7).expect("a free instance exists");
    assert_eq!(job.pe.type_id, 7);
    assert_eq!(d.num_pes(7), 2);
    d.release_pe(job);
    assert_eq!(d.num_pes(7), 2);
}

#[test]
fn exhausted_type_fails_until_a_release() {
    let mut d = new_device("pcie", true).expect("construction succeeds");
    apply_access(&mut d, AccessMode::Exclusive);
    let first = d.acquire_pe(7).expect("first instance");
    let _second = d.acquire_pe(7).expect("second instance");
    assert!(matches!(
        d.acquire_pe(7).unwrap_err(),
        Error::SchedulerError { source: tapasco::scheduler::Error::OutOfPEs { id: 7 } }
    ));
    d.release_pe(first);
    let _third = d.acquire_pe(7).expect("exactly one acquisition succeeds again");
    assert!(matches!(
        d.acquire_pe(7).unwrap_err(),
        Error::SchedulerError { source: tapasco::scheduler::Error::OutOfPEs { id: 7 } }
    ));
}

#[test]
fn unknown_pe_type_fails_acquisition_in_exclusive_mode() {
    let mut d = new_device("pcie", true).expect("construction succeeds");
    apply_access(&mut d, AccessMode::Exclusive);
    assert!(matches!(
        d.acquire_pe(1234).unwrap_err(),
        Error::SchedulerError { source: tapasco::scheduler::Error::UnknownPeType { id: 1234 } }
    ));
}

#[test]
fn frequency_queries_return_zero_for_absent_clocks() {
    let d = new_device("pcie", true).expect("construction succeeds");
    assert_eq!(d.design_frequency_mhz(), 100);
    assert_eq!(d.memory_frequency_mhz(), 200);
    assert_eq!(d.host_frequency_mhz(), 0);
}

#[test]
fn default_memory_is_region_zero() {
    let d = new_device("pcie", true).expect("construction succeeds");
    let m = d.default_memory();
    assert!(matches!(m.dma, Transport::UserSpace { .. }));
}
