use tapasco::allocator::Allocator;
use tapasco::allocator::GenericAllocator;
use tapasco::device::OffchipMemory;
use tapasco::scheduler::Error;
use tapasco::scheduler::build_scheduler;
use tapasco::status::MemoryArea;
use tapasco::status::PeDecl;
use tapasco::transport::Transport;

fn local_regions() -> Vec<OffchipMemory> {
    vec![OffchipMemory {
        allocator: Allocator::Generic(GenericAllocator::new(0, 256, 1).expect("valid region")),
        dma: Transport::Direct { base: 0x1000, size: 256 },
    }]
}

fn two_adders_one_mult() -> Vec<PeDecl> {
    vec![
        PeDecl { type_id: 7, offset: 0x0000, local_memory: None },
        PeDecl { type_id: 7, offset: 0x0100, local_memory: None },
        PeDecl {
            type_id: 9,
            offset: 0x0200,
            local_memory: Some(MemoryArea { base: 0x1000, size: 256 }),
        },
    ]
}

#[test]
fn pool_sizes_follow_the_descriptor() {
    let s = build_scheduler(&two_adders_one_mult(), local_regions());
    assert_eq!(s.num_pes(7), 2);
    assert_eq!(s.num_pes(9), 1);
    assert_eq!(s.num_pes(1234), 0);
}

#[test]
fn acquire_of_unknown_type_fails_immediately() {
    let mut s = build_scheduler(&two_adders_one_mult(), local_regions());
    assert_eq!(s.acquire_pe(1234).unwrap_err(), Error::UnknownPeType { id: 1234 });
}

#[test]
fn conservation_of_instances() {
    let mut s = build_scheduler(&two_adders_one_mult(), local_regions());
    let first = s.acquire_pe(7).expect("one free instance");
    let second = s.acquire_pe(7).expect("another free instance");
    assert_ne!(first.instance, second.instance);
    assert_eq!(s.acquire_pe(7).unwrap_err(), Error::OutOfPEs { id: 7 });
    assert_eq!(s.num_pes(7), 2);
    s.release_pe(first);
    let third = s.acquire_pe(7).expect("released instance is free again");
    assert_eq!(third.instance, first.instance);
    assert_eq!(s.acquire_pe(7).unwrap_err(), Error::OutOfPEs { id: 7 });
    assert_eq!(s.num_pes(7), 2);
}

#[test]
fn acquired_instances_carry_their_type_and_offset() {
    let mut s = build_scheduler(&two_adders_one_mult(), local_regions());
    let pe = s.acquire_pe(9).expect("one instance of the type");
    assert_eq!(pe.type_id, 9);
    assert_eq!(pe.offset, 0x0200);
    assert_eq!(pe.local_memory, Some(0));
}

#[test]
fn interrupt_routing_reset_marks_the_scheduler() {
    let mut s = build_scheduler(&two_adders_one_mult(), local_regions());
    assert!(!s.interrupts_routed);
    s.reset_interrupts();
    assert!(s.interrupts_routed);
}
