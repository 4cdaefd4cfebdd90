//! The decoded status descriptor.
//!
//! The wire encoding of the descriptor is consumed outside the library:
//! the surrounding process copies the status window of the device file
//! byte by byte into a private buffer (hardware on some platforms
//! mis-handles unaligned reads on the live mapping) and decodes it.  The
//! library receives the result as plain values: memory-region sizes, the
//! PE instance list and the clock table.

use vstd::prelude::*;

use crate::DeviceAddress;
use crate::DeviceSize;
use crate::PEId;

verus! {

/// One contiguous address range on the device.
#[derive(Clone, Copy, Debug, PartialEq, Eq, Structural)]
pub struct MemoryArea {
    /// First address of the range.
    pub base: DeviceAddress,
    /// Length of the range in bytes.
    pub size: DeviceSize,
}

/// One platform component listed by the descriptor, such as a DMA engine.
#[derive(Clone, Debug)]
pub struct Component {
    /// Component name as written in the descriptor.
    pub name: String,
    /// Offset of the component's registers in the platform address space.
    pub offset: DeviceAddress,
}

/// One clock entry of the descriptor.
#[derive(Clone, Debug)]
pub struct Clock {
    /// Clock name as written in the descriptor.
    pub name: String,
    /// Frequency of the clock in MHz.
    pub frequency_mhz: u64,
}

/// One PE instance listed by the descriptor.
#[derive(Clone, Debug)]
pub struct PeDecl {
    /// The PE type this instance belongs to.
    pub type_id: PEId,
    /// Offset of the instance's register window in the architecture
    /// address space.
    pub offset: DeviceAddress,
    /// The instance's private local-memory window, if it declares one.
    pub local_memory: Option<MemoryArea>,
}

/// Decoded snapshot of a loaded bitstream: region sizes, PE population
/// and clocks.
#[derive(Clone, Debug)]
pub struct StatusDescriptor {
    /// The platform control region, if the bitstream declares one.
    pub platform_base: Option<MemoryArea>,
    /// The architecture control region, if the bitstream declares one.
    pub arch_base: Option<MemoryArea>,
    /// Platform components (DMA engines and the like).
    pub platform: Vec<Component>,
    /// All PE instances on the fabric, in descriptor order.
    pub pe: Vec<PeDecl>,
    /// Clock names and frequencies.
    pub clocks: Vec<Clock>,
}

/// Frequency of the first clock named `name`, or `0` when no clock of
/// that name exists.
pub open spec fn clock_frequency(clocks: Seq<Clock>, name: Seq<char>) -> u64
    decreases clocks.len(),
{
    if clocks.len() == 0 {
        0
    } else if clocks[0].name@ == name {
        clocks[0].frequency_mhz
    } else {
        clock_frequency(clocks.drop_first(), name)
    }
}

/// Offset of the DMA engine component: the offset of the *last*
/// component named `PLATFORM_COMPONENT_DMA0`, or `0` when none exists.
/// `0` is the sentinel for a missing engine.
pub open spec fn dma_engine_offset(comps: Seq<Component>) -> DeviceAddress
    decreases comps.len(),
{
    if comps.len() == 0 {
        0
    } else if comps.last().name@ == "PLATFORM_COMPONENT_DMA0"@ {
        comps.last().offset
    } else {
        dma_engine_offset(comps.drop_last())
    }
}

/// The local-memory windows declared by the PE list, in declaration
/// order.
pub open spec fn local_windows(pes: Seq<PeDecl>) -> Seq<MemoryArea>
    decreases pes.len(),
{
    if pes.len() == 0 {
        Seq::empty()
    } else {
        local_windows(pes.drop_last()) + match pes.last().local_memory {
            Some(w) => seq![w],
            None => Seq::empty(),
        }
    }
}

/// Extending a prefix of the PE list by one declaration raises exactly
/// that declaration's type count by one.
pub proof fn lemma_count_step(pes: Seq<PeDecl>, j: int, id: PEId)
    requires
        0 <= j < pes.len(),
    ensures
        count_of_type(pes.take(j + 1), id) == count_of_type(pes.take(j), id) + if pes[j].type_id
            == id {
            1int
        } else {
            0int
        },
{
    assert(pes.take(j + 1).drop_last() =~= pes.take(j));
    assert(pes.take(j + 1).last() == pes[j]);
}

/// A type's count over a prefix of the PE list never shrinks as the
/// prefix grows.
pub proof fn lemma_count_monotone(pes: Seq<PeDecl>, a: int, b: int, id: PEId)
    requires
        0 <= a <= b <= pes.len(),
    ensures
        count_of_type(pes.take(a), id) <= count_of_type(pes.take(b), id),
    decreases b - a,
{
    if a < b {
        lemma_count_step(pes, b - 1, id);
        lemma_count_monotone(pes, a, b - 1, id);
    }
}

/// How many instances of PE type `id` the PE list declares.
pub open spec fn count_of_type(pes: Seq<PeDecl>, id: PEId) -> nat
    decreases pes.len(),
{
    if pes.len() == 0 {
        0
    } else {
        count_of_type(pes.drop_last(), id) + if pes.last().type_id == id {
            1nat
        } else {
            0nat
        }
    }
}

} // verus!
