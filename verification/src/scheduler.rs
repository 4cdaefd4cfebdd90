//! The PE scheduler: one pool of free instances per PE type.
//!
//! The scheduler grants exclusive use of one instance per acquisition
//! and reclaims it on release.  The PE population is fixed by the loaded
//! bitstream: pool sizes never change at runtime, only the free/acquired
//! split does.  It also owns the interrupt-routing reset performed on
//! every transition into exclusive mode.

use vstd::prelude::*;

use crate::DeviceAddress;
use crate::PEId;
use crate::device::OffchipMemory;
use crate::status::PeDecl;
use crate::status::count_of_type;
use crate::status::local_windows;

verus! {

/// Failures of the scheduler.
#[derive(Clone, Copy, Debug, PartialEq, Eq, Structural)]
pub enum Error {
    /// No PE of the requested type exists on the fabric.
    UnknownPeType { id: PEId },
    /// All instances of the requested type are currently acquired.
    OutOfPEs { id: PEId },
}

/// One hardware PE instance on the fabric.
#[derive(Clone, Copy, Debug, PartialEq, Eq, Structural)]
pub struct PE {
    /// The PE type this instance belongs to.
    pub type_id: PEId,
    /// Instance number within its type's pool.
    pub instance: usize,
    /// Offset of the instance's register window in the architecture
    /// address space.
    pub offset: DeviceAddress,
    /// Index of the instance's private local-memory region in the
    /// scheduler's region list, if it declares one.
    pub local_memory: Option<usize>,
}

/// The pool of one PE type: the fixed instance count and the instances
/// that are currently free.
#[derive(Clone, Debug)]
pub struct Pool {
    /// The PE type this pool holds.
    pub pe_type: PEId,
    /// Fixed number of instances of this type on the fabric.
    pub total: usize,
    /// The currently-free instances.
    pub free_pes: Vec<PE>,
}

impl Pool {
    /// Well-formedness: the free instances belong to this pool, carry
    /// in-range instance numbers and are pairwise distinct.
    pub open spec fn wf(self) -> bool {
        &&& self.free_pes@.len() <= self.total
        &&& forall|k: int|
            0 <= k < self.free_pes@.len() ==> {
                &&& (#[trigger] self.free_pes@[k]).type_id == self.pe_type
                &&& self.free_pes@[k].instance < self.total
            }
        &&& forall|k: int, l: int|
            0 <= k < self.free_pes@.len() && 0 <= l < self.free_pes@.len() && k != l
                ==> (#[trigger] self.free_pes@[k]).instance != (#[trigger] self.free_pes@[l]).instance
    }
}

/// Whether some pool holds PE type `t`.
pub open spec fn has_type_in(pools: Seq<Pool>, t: PEId) -> bool {
    exists|i: int| 0 <= i < pools.len() && (#[trigger] pools[i]).pe_type == t
}

/// The index of the pool holding PE type `t` (meaningful only when
/// `has_type_in` holds and the pool types are distinct).
pub open spec fn index_of(pools: Seq<Pool>, t: PEId) -> int {
    choose|i: int| 0 <= i < pools.len() && (#[trigger] pools[i]).pe_type == t
}

/// Total number of instances of type `t`, free or acquired.
pub open spec fn num_in(pools: Seq<Pool>, t: PEId) -> nat {
    if has_type_in(pools, t) {
        pools[index_of(pools, t)].total as nat
    } else {
        0
    }
}

/// Number of currently-free instances of type `t`.
pub open spec fn free_in(pools: Seq<Pool>, t: PEId) -> nat {
    if has_type_in(pools, t) {
        pools[index_of(pools, t)].free_pes@.len()
    } else {
        0
    }
}

/// Whether every pool holds a different PE type.
pub open spec fn types_distinct(pools: Seq<Pool>) -> bool {
    forall|i: int, j: int|
        0 <= i < pools.len() && 0 <= j < pools.len() && i != j
            ==> (#[trigger] pools[i]).pe_type != (#[trigger] pools[j]).pe_type
}

/// With distinct pool types, the pool at index `i` is the one that
/// `index_of` finds for its type.
pub proof fn lemma_index_of(pools: Seq<Pool>, i: int)
    requires
        types_distinct(pools),
        0 <= i < pools.len(),
    ensures
        has_type_in(pools, pools[i].pe_type),
        index_of(pools, pools[i].pe_type) == i,
{
    assert(has_type_in(pools, pools[i].pe_type));
    let j = index_of(pools, pools[i].pe_type);
    if j != i {
        assert(pools[i].pe_type != pools[j].pe_type);
    }
}

/// Replacing one pool by a pool of the same type and total leaves every
/// type's presence and totals unchanged, and every other type's free
/// count unchanged.
pub proof fn lemma_pools_agree(a: Seq<Pool>, b: Seq<Pool>, i: int)
    requires
        types_distinct(a),
        a.len() == b.len(),
        0 <= i < a.len(),
        forall|j: int| 0 <= j < a.len() && j != i ==> a[j] == b[j],
        b[i].pe_type == a[i].pe_type,
        b[i].total == a[i].total,
    ensures
        types_distinct(b),
        forall|t: PEId| has_type_in(b, t) == has_type_in(a, t),
        forall|t: PEId| #[trigger] num_in(b, t) == num_in(a, t),
        forall|t: PEId|
            t != a[i].pe_type ==> #[trigger] free_in(b, t) == free_in(a, t),
        free_in(a, a[i].pe_type) == a[i].free_pes@.len(),
        free_in(b, a[i].pe_type) == b[i].free_pes@.len(),
{
    assert forall|j: int| 0 <= j < b.len() implies (#[trigger] b[j]).pe_type == a[j].pe_type by {}
    assert forall|t: PEId| has_type_in(b, t) == has_type_in(a, t) by {
        if has_type_in(a, t) {
            let w = choose|w: int| 0 <= w < a.len() && (#[trigger] a[w]).pe_type == t;
            assert(b[w].pe_type == t);
        }
        if has_type_in(b, t) {
            let w = choose|w: int| 0 <= w < b.len() && (#[trigger] b[w]).pe_type == t;
            assert(a[w].pe_type == t);
        }
    }
    assert forall|t: PEId| #[trigger] num_in(b, t) == num_in(a, t) by {
        if has_type_in(a, t) {
            let wa = index_of(a, t);
            lemma_index_of(a, wa);
            lemma_index_of(b, wa);
            assert(index_of(b, t) == wa);
        }
    }
    assert forall|t: PEId| t != a[i].pe_type implies #[trigger] free_in(b, t) == free_in(a, t) by {
        if has_type_in(a, t) {
            let wa = index_of(a, t);
            lemma_index_of(a, wa);
            lemma_index_of(b, wa);
            assert(wa != i);
            assert(index_of(b, t) == wa);
        }
    }
    lemma_index_of(a, i);
    lemma_index_of(b, i);
}

/// Appending a pool of a type held by no existing pool adds that type
/// and leaves every other type's counts unchanged.
pub proof fn lemma_pools_push(a: Seq<Pool>, p: Pool)
    requires
        types_distinct(a),
        forall|i: int| 0 <= i < a.len() ==> (#[trigger] a[i]).pe_type != p.pe_type,
    ensures
        types_distinct(a.push(p)),
        has_type_in(a.push(p), p.pe_type),
        num_in(a.push(p), p.pe_type) == p.total,
        free_in(a.push(p), p.pe_type) == p.free_pes@.len(),
        forall|t: PEId|
            t != p.pe_type ==> #[trigger] has_type_in(a.push(p), t) == has_type_in(a, t),
        forall|t: PEId| t != p.pe_type ==> #[trigger] num_in(a.push(p), t) == num_in(a, t),
        forall|t: PEId| t != p.pe_type ==> #[trigger] free_in(a.push(p), t) == free_in(a, t),
{
    let b = a.push(p);
    assert(b[a.len() as int] == p);
    assert forall|i: int, j: int|
        0 <= i < b.len() && 0 <= j < b.len() && i != j implies (#[trigger] b[i]).pe_type != (
    #[trigger] b[j]).pe_type by {
        if i < a.len() && j < a.len() {
            assert(a[i].pe_type != a[j].pe_type);
        }
    }
    lemma_index_of(b, a.len() as int);
    assert forall|t: PEId|
        t != p.pe_type implies #[trigger] has_type_in(b, t) == has_type_in(a, t) by {
        if has_type_in(a, t) {
            let w = choose|w: int| 0 <= w < a.len() && (#[trigger] a[w]).pe_type == t;
            assert(b[w].pe_type == t);
        }
        if has_type_in(b, t) {
            let w = choose|w: int| 0 <= w < b.len() && (#[trigger] b[w]).pe_type == t;
            assert(w < a.len());
            assert(a[w].pe_type == t);
        }
    }
    assert forall|t: PEId| t != p.pe_type implies #[trigger] num_in(b, t) == num_in(a, t) by {
        if has_type_in(a, t) {
            let wa = index_of(a, t);
            lemma_index_of(a, wa);
            lemma_index_of(b, wa);
        }
    }
    assert forall|t: PEId| t != p.pe_type implies #[trigger] free_in(b, t) == free_in(a, t) by {
        if has_type_in(a, t) {
            let wa = index_of(a, t);
            lemma_index_of(a, wa);
            lemma_index_of(b, wa);
        }
    }
}

/// Owns the pools of PE instances, the PE local-memory regions and the
/// interrupt-routing state.
#[derive(Debug)]
pub struct Scheduler {
    /// One pool per PE type.
    pub pools: Vec<Pool>,
    /// The PE local-memory regions, one per PE instance that declares a
    /// local-memory window, in descriptor order.
    pub local_memories: Vec<OffchipMemory>,
    /// Whether interrupt routing has been re-established for every
    /// known instance since the last transition into exclusive mode.
    /// The PE population is fixed by the loaded bitstream, so a single
    /// mark covers the whole fabric; the model does not keep the
    /// per-instance routing table itself.
    pub interrupts_routed: bool,
}

impl Scheduler {
    /// Whether some pool holds PE type `t`.
    pub open spec fn has_type(self, t: PEId) -> bool {
        has_type_in(self.pools@, t)
    }

    /// Total number of instances of type `t`, free or acquired.
    pub open spec fn num_pes_spec(self, t: PEId) -> nat {
        num_in(self.pools@, t)
    }

    /// Number of currently-free instances of type `t`.
    pub open spec fn free_of(self, t: PEId) -> nat {
        free_in(self.pools@, t)
    }

    /// Number of instances of type `t` currently acquired and not yet
    /// released.
    pub open spec fn acquired_of(self, t: PEId) -> int {
        self.num_pes_spec(t) - self.free_of(t)
    }

    /// Whether an acquisition of type `t` succeeds right now.
    pub open spec fn can_acquire(self, t: PEId) -> bool {
        self.has_type(t) && self.free_of(t) > 0
    }

    /// Whether instance `inst` of type `t` is currently free.
    pub open spec fn instance_free(self, t: PEId, inst: usize) -> bool {
        self.has_type(t) && exists|k: int|
            0 <= k < self.pools@[index_of(self.pools@, t)].free_pes@.len()
                && (#[trigger] self.pools@[index_of(self.pools@, t)].free_pes@[k]).instance == inst
    }

    /// Well-formedness: distinct pool types, well-formed pools, local
    /// memory references inside the region list, and well-formed
    /// regions.
    pub open spec fn wf(self) -> bool {
        &&& types_distinct(self.pools@)
        &&& forall|i: int| 0 <= i < self.pools@.len() ==> (#[trigger] self.pools@[i]).wf()
        &&& forall|i: int, k: int|
            0 <= i < self.pools@.len() && 0 <= k < self.pools@[i].free_pes@.len()
                ==> ((#[trigger] self.pools@[i].free_pes@[k]).local_memory matches Some(m)
                    ==> m < self.local_memories@.len())
        &&& forall|m: int|
            0 <= m < self.local_memories@.len() ==> (#[trigger] self.local_memories@[m]).wf()
    }

    /// Index of the pool holding type `id`, when one exists.
    fn find_pool(&self, id: PEId) -> (r: Option<usize>)
        requires
            self.wf(),
        ensures
            match r {
                Some(i) => {
                    &&& i < self.pools@.len()
                    &&& self.pools@[i as int].pe_type == id
                    &&& self.has_type(id)
                    &&& index_of(self.pools@, id) == i
                },
                None => !self.has_type(id),
            },
    {
        let n = self.pools.len();
        let mut i: usize = 0;
        while i < n
            invariant
                self.wf(),
                n == self.pools@.len(),
                i <= n,
                forall|k: int| 0 <= k < i ==> (#[trigger] self.pools@[k]).pe_type != id,
            decreases n - i,
        {
            if self.pools[i].pe_type == id {
                proof {
                    lemma_index_of(self.pools@, i as int);
                }
                return Some(i);
            }
            i = i + 1;
        }
        None
    }

    /// Removes and returns one free instance of the requested type.
    /// Fails with `UnknownPeType` when no pool holds the type and with
    /// `OutOfPEs` when the pool is exhausted; the caller may wait and
    /// retry on exhaustion.  Totals never change.
    pub fn acquire_pe(&mut self, id: PEId) -> (r: Result<PE, Error>)
        requires
            old(self).wf(),
        ensures
            final(self).wf(),
            final(self).local_memories == old(self).local_memories,
            final(self).interrupts_routed == old(self).interrupts_routed,
            forall|t: PEId| #[trigger] final(self).num_pes_spec(t) == old(self).num_pes_spec(t),
            forall|t: PEId| #[trigger] final(self).has_type(t) == old(self).has_type(t),
            !old(self).has_type(id) ==> r == Err::<PE, Error>(Error::UnknownPeType { id })
                && *final(self) == *old(self),
            old(self).has_type(id) && old(self).free_of(id) == 0 ==> r == Err::<PE, Error>(
                Error::OutOfPEs { id },
            ) && *final(self) == *old(self),
            old(self).can_acquire(id) ==> {
                &&& r matches Ok(pe)
                &&& pe == old(self).pools@[index_of(old(self).pools@, id)].free_pes@.last()
                &&& pe.type_id == id
                &&& pe.instance < old(self).num_pes_spec(id)
                &&& (pe.local_memory matches Some(m) ==> m < old(self).local_memories@.len())
                &&& !final(self).instance_free(id, pe.instance)
                &&& final(self).free_of(id) == old(self).free_of(id) - 1
                &&& forall|t: PEId|
                    t != id ==> #[trigger] final(self).free_of(t) == old(self).free_of(t)
            },
    {
        match self.find_pool(id) {
            None => Err(Error::UnknownPeType { id }),
            Some(i) => {
                if self.pools[i].free_pes.len() == 0 {
                    return Err(Error::OutOfPEs { id });
                }
                let ghost pre = *self;
                let mut pool = self.pools.remove(i);
                match pool.free_pes.pop() {
                    None => Err(Error::OutOfPEs { id }),
                    Some(pe) => {
                        self.pools.insert(i, pool);
                        proof {
                            assert(pool.free_pes@ =~= pre.pools@[i as int].free_pes@.drop_last());
                        }
                        proof {
                            assert(forall|j: int|
                                0 <= j < pre.pools@.len() && j != i ==> self.pools@[j]
                                    == pre.pools@[j]);
                            lemma_pools_agree(pre.pools@, self.pools@, i as int);
                            lemma_index_of(pre.pools@, i as int);
                            lemma_index_of(self.pools@, i as int);
                            assert forall|k: int|
                                0 <= k < self.pools@[i as int].free_pes@.len()
                                    implies (#[trigger] self.pools@[
                                i as int].free_pes@[k]).instance != pe.instance by {
                                assert(pre.pools@[i as int].free_pes@[k]
                                    == self.pools@[i as int].free_pes@[k]);
                                assert(pre.pools@[i as int].wf());
                            }
                        }
                        Ok(pe)
                    },
                }
            },
        }
    }

    /// Returns an acquired instance to its pool.  Must be invoked
    /// exactly once per successfully acquired instance; the instance
    /// must belong to a known pool and not already be free.
    pub fn release_pe(&mut self, pe: PE)
        requires
            old(self).wf(),
            old(self).has_type(pe.type_id),
            pe.instance < old(self).num_pes_spec(pe.type_id),
            !old(self).instance_free(pe.type_id, pe.instance),
            pe.local_memory matches Some(m) ==> m < old(self).local_memories@.len(),
        ensures
            final(self).wf(),
            final(self).local_memories == old(self).local_memories,
            final(self).interrupts_routed == old(self).interrupts_routed,
            forall|t: PEId| #[trigger] final(self).num_pes_spec(t) == old(self).num_pes_spec(t),
            forall|t: PEId| #[trigger] final(self).has_type(t) == old(self).has_type(t),
            final(self).free_of(pe.type_id) == old(self).free_of(pe.type_id) + 1,
            forall|t: PEId|
                t != pe.type_id ==> #[trigger] final(self).free_of(t) == old(self).free_of(t),
    {
        let id = pe.type_id;
        match self.find_pool(id) {
            None => (),
            Some(i) => {
                let ghost pre = *self;
                let mut pool = self.pools.remove(i);
                pool.free_pes.push(pe);
                self.pools.insert(i, pool);
                proof {
                    assert(forall|j: int|
                        0 <= j < pre.pools@.len() && j != i ==> self.pools@[j] == pre.pools@[j]);
                    lemma_index_of(pre.pools@, i as int);
                    assert(pre.pools@[i as int].free_pes@.len() < pre.pools@[i as int].total) by {
                        assert(pre.pools@[i as int].wf());
                        if pre.pools@[i as int].free_pes@.len() == pre.pools@[i as int].total {
                            lemma_free_count_full(pre.pools@[i as int], pe.instance);
                        }
                    }
                    lemma_pools_agree(pre.pools@, self.pools@, i as int);
                    lemma_index_of(self.pools@, i as int);
                }
            },
        }
    }

    /// Marks interrupt routing as re-established for every known
    /// instance; the registrations themselves happen on the kernel
    /// module's interrupt interface, outside this library, one per
    /// instance of the descriptor's fixed PE list.  Called once per
    /// transition into exclusive mode, never during normal operation.
    pub fn reset_interrupts(&mut self)
        ensures
            final(self).pools == old(self).pools,
            final(self).local_memories == old(self).local_memories,
            final(self).interrupts_routed,
    {
        self.interrupts_routed = true;
    }

    /// Total number of instances of a type on the fabric, free or not,
    /// fixed at construction time.  `0` for an unknown type.
    pub fn num_pes(&self, id: PEId) -> (r: usize)
        requires
            self.wf(),
        ensures
            r == self.num_pes_spec(id),
    {
        match self.find_pool(id) {
            None => 0,
            Some(i) => self.pools[i].total,
        }
    }
}

/// A full pool of `total` distinct instance numbers below `total` holds
/// every instance number below `total`; used to show that a pool
/// holding a released (hence not free) instance cannot be full.
proof fn lemma_free_count_full(pool: Pool, inst: usize)
    requires
        pool.wf(),
        pool.free_pes@.len() == pool.total,
        inst < pool.total,
    ensures
        exists|k: int|
            0 <= k < pool.free_pes@.len() && (#[trigger] pool.free_pes@[k]).instance == inst as int,
{
    broadcast use vstd::set::group_set_axioms;

    let n = pool.free_pes@.len() as int;
    let instances = Seq::new(n as nat, |k: int| pool.free_pes@[k].instance as int);
    assert(instances.no_duplicates()) by {
        assert forall|i: int, j: int|
            0 <= i < n && 0 <= j < n && i != j implies instances[i] != instances[j] by {
            assert(pool.free_pes@[i].instance != pool.free_pes@[j].instance);
        }
    }
    instances.unique_seq_to_set();
    let iset = instances.to_set();
    let all = vstd::set_lib::set_int_range(0, pool.total as int);
    vstd::set_lib::lemma_int_range(0, pool.total as int);
    if !iset.contains(inst as int) {
        let smaller = all.remove(inst as int);
        assert forall|v: int| iset.contains(v) implies smaller.contains(v) by {
            let k = choose|k: int| 0 <= k < instances.len() && instances[k] == v;
            assert(pool.free_pes@[k].instance < pool.total);
            assert(v != inst as int);
        }
        assert(all.contains(inst as int));
        assert(smaller.len() == all.len() - 1);
        vstd::set_lib::lemma_len_subset(iset, smaller);
        assert(false);
    }
    let k = choose|k: int| 0 <= k < instances.len() && instances[k] == inst as int;
    assert(pool.free_pes@[k].instance == inst as int);
}

/// The instance that declaration `j` of the PE list contributes: its
/// type, an instance number counting the earlier declarations of the
/// same type, the declaration's own register offset, and — when it
/// declares a local-memory window — the region index counting the
/// earlier declaring PEs.
pub open spec fn pe_for_decl(pes: Seq<PeDecl>, j: int) -> PE {
    PE {
        type_id: pes[j].type_id,
        instance: count_of_type(pes.take(j), pes[j].type_id) as usize,
        offset: pes[j].offset,
        local_memory: if pes[j].local_memory is Some {
            Some(local_windows(pes.take(j)).len() as usize)
        } else {
            None
        },
    }
}

/// The pool entry holding declaration `j`'s instance in a freshly
/// built pool list: in the pool of its type, at the position given by
/// its instance number.
pub open spec fn entry_in(pools: Seq<Pool>, pes: Seq<PeDecl>, j: int) -> PE {
    pools[index_of(pools, pes[j].type_id)].free_pes@[count_of_type(
        pes.take(j),
        pes[j].type_id,
    ) as int]
}

/// Whether a freshly built pool list binds every declaration to its
/// own instance, register offset and local-memory region.
pub open spec fn pools_match_decls(pools: Seq<Pool>, pes: Seq<PeDecl>) -> bool {
    forall|j: int|
        0 <= j < pes.len() ==> #[trigger] entry_in(pools, pes, j) == pe_for_decl(pes, j)
}

/// Builds the scheduler from the descriptor's PE list: one pool per PE
/// type with every instance free, each instance carrying its
/// declaration's register offset, and the `k`-th PE that declares a
/// local-memory window owning the `k`-th local-memory region.
pub fn build_scheduler(pes: &Vec<PeDecl>, local_memories: Vec<OffchipMemory>) -> (s: Scheduler)
    requires
        forall|m: int|
            0 <= m < local_memories@.len() ==> (#[trigger] local_memories@[m]).wf(),
        local_memories@.len() == local_windows(pes@).len(),
    ensures
        s.wf(),
        !s.interrupts_routed,
        s.local_memories == local_memories,
        forall|t: PEId| #[trigger] s.num_pes_spec(t) == count_of_type(pes@, t),
        forall|t: PEId| #[trigger] s.free_of(t) == count_of_type(pes@, t),
        pools_match_decls(s.pools@, pes@),
{
    let mut pools: Vec<Pool> = Vec::new();
    let mut local_idx: usize = 0;
    let mut j: usize = 0;
    while j < pes.len()
        invariant
            j <= pes@.len(),
            local_idx <= j,
            local_idx == local_windows(pes@.take(j as int)).len(),
            types_distinct(pools@),
            forall|i: int| 0 <= i < pools@.len() ==> (#[trigger] pools@[i]).wf(),
            forall|i: int| 0 <= i < pools@.len() ==> (#[trigger] pools@[i]).total <= j,
            forall|i: int, k: int|
                0 <= i < pools@.len() && 0 <= k < pools@[i].free_pes@.len()
                    ==> ((#[trigger] pools@[i].free_pes@[k]).local_memory matches Some(m)
                        ==> m < local_idx),
            forall|t: PEId| #[trigger] num_in(pools@, t) == count_of_type(pes@.take(j as int), t),
            forall|t: PEId| #[trigger] free_in(pools@, t) == num_in(pools@, t),
            forall|i: int|
                0 <= i < pools@.len() ==> (#[trigger] pools@[i]).free_pes@.len()
                    == pools@[i].total,
            forall|j2: int|
                0 <= j2 < j ==> #[trigger] has_type_in(pools@, pes@[j2].type_id),
            forall|j2: int|
                0 <= j2 < j ==> #[trigger] entry_in(pools@, pes@, j2) == pe_for_decl(pes@, j2),
        decreases pes@.len() - j,
    {
        let decl = &pes[j];
        proof {
            assert(pes@.take(j as int + 1).drop_last() =~= pes@.take(j as int));
            assert(pes@.take(j as int + 1).last() == pes@[j as int]);
        }
        let lm: Option<usize> = match decl.local_memory {
            Some(_) => {
                let m = local_idx;
                local_idx = local_idx + 1;
                Some(m)
            },
            None => None,
        };
        let mut i: usize = 0;
        let n = pools.len();
        let mut found: Option<usize> = None;
        while i < n && found.is_none()
            invariant
                n == pools@.len(),
                i <= n,
                match found {
                    Some(f) => f < n && pools@[f as int].pe_type == decl.type_id,
                    None => forall|k: int|
                        0 <= k < i ==> (#[trigger] pools@[k]).pe_type != decl.type_id,
                },
            decreases n - i,
        {
            if pools[i].pe_type == decl.type_id {
                found = Some(i);
            }
            i = i + 1;
        }
        let ghost pre_pools = pools@;
        match found {
            Some(f) => {
                let mut pool = pools.remove(f);
                let inst = pool.total;
                pool.free_pes.push(
                    PE { type_id: decl.type_id, instance: inst, offset: decl.offset, local_memory: lm },
                );
                pool.total = inst + 1;
                pools.insert(f, pool);
                proof {
                    assert(forall|k: int|
                        0 <= k < pre_pools.len() && k != f ==> pools@[k] == pre_pools[k]);
                    lemma_index_of(pre_pools, f as int);
                    lemma_pools_agree_grow(pre_pools, pools@, f as int);
                    assert forall|t: PEId|
                        #[trigger] num_in(pools@, t) == count_of_type(
                            pes@.take(j as int + 1),
                            t,
                        ) by {
                        crate::status::lemma_count_step(pes@, j as int, t);
                    }
                    lemma_index_of(pools@, f as int);
                    assert forall|j2: int|
                        0 <= j2 < j as int + 1 implies #[trigger] entry_in(pools@, pes@, j2)
                            == pe_for_decl(pes@, j2) by {
                        if j2 == j as int {
                            assert(num_in(pre_pools, decl.type_id) == count_of_type(
                                pes@.take(j as int),
                                decl.type_id,
                            ));
                            assert(pre_pools[f as int].free_pes@.len()
                                == pre_pools[f as int].total);
                        } else {
                            let t2 = pes@[j2].type_id;
                            assert(entry_in(pre_pools, pes@, j2) == pe_for_decl(pes@, j2));
                            if t2 == decl.type_id {
                                crate::status::lemma_count_step(pes@, j2, t2);
                                crate::status::lemma_count_monotone(pes@, j2 + 1, j as int, t2);
                                assert(num_in(pre_pools, t2) == count_of_type(
                                    pes@.take(j as int),
                                    t2,
                                ));
                                assert(pre_pools[f as int].free_pes@.len()
                                    == pre_pools[f as int].total);
                            } else {
                                assert(has_type_in(pre_pools, t2));
                                let wa = index_of(pre_pools, t2);
                                assert(0 <= wa < pre_pools.len() && pre_pools[wa].pe_type == t2);
                                lemma_index_of(pre_pools, wa);
                                lemma_index_of(pools@, wa);
                            }
                        }
                    }
                }
            },
            None => {
                let mut free_pes: Vec<PE> = Vec::new();
                free_pes.push(
                    PE { type_id: decl.type_id, instance: 0, offset: decl.offset, local_memory: lm },
                );
                let pool = Pool { pe_type: decl.type_id, total: 1, free_pes };
                let ghost p = pool;
                pools.push(pool);
                proof {
                    assert(!has_type_in(pre_pools, decl.type_id));
                    lemma_pools_push(pre_pools, p);
                    assert(pools@ == pre_pools.push(p));
                    assert forall|t: PEId|
                        #[trigger] num_in(pools@, t) == count_of_type(
                            pes@.take(j as int + 1),
                            t,
                        ) by {
                        crate::status::lemma_count_step(pes@, j as int, t);
                        if t == decl.type_id {
                            assert(num_in(pre_pools, t) == 0);
                            assert(num_in(pools@, t) == 1);
                        } else {
                            assert(num_in(pools@, t) == num_in(pre_pools, t));
                        }
                    }
                    lemma_index_of(pools@, pre_pools.len() as int);
                    assert forall|j2: int|
                        0 <= j2 < j as int + 1 implies #[trigger] entry_in(pools@, pes@, j2)
                            == pe_for_decl(pes@, j2) by {
                        if j2 == j as int {
                            assert(num_in(pre_pools, decl.type_id) == count_of_type(
                                pes@.take(j as int),
                                decl.type_id,
                            ));
                        } else {
                            let t2 = pes@[j2].type_id;
                            assert(entry_in(pre_pools, pes@, j2) == pe_for_decl(pes@, j2));
                            assert(has_type_in(pre_pools, t2));
                            let wa = index_of(pre_pools, t2);
                            assert(0 <= wa < pre_pools.len() && pre_pools[wa].pe_type == t2);
                            lemma_index_of(pre_pools, wa);
                            lemma_index_of(pools@, wa);
                        }
                    }
                }
            },
        }
        j = j + 1;
    }
    proof {
        assert(pes@.take(pes@.len() as int) =~= pes@);
    }
    Scheduler { pools, local_memories, interrupts_routed: false }
}

/// Replacing one pool by a pool of the same type whose total and free
/// list both grew by the same fresh instance keeps every count in step.
proof fn lemma_pools_agree_grow(a: Seq<Pool>, b: Seq<Pool>, i: int)
    requires
        types_distinct(a),
        a.len() == b.len(),
        0 <= i < a.len(),
        forall|j: int| 0 <= j < a.len() && j != i ==> a[j] == b[j],
        b[i].pe_type == a[i].pe_type,
        b[i].total == a[i].total + 1,
        b[i].free_pes@.len() == a[i].free_pes@.len() + 1,
    ensures
        types_distinct(b),
        forall|t: PEId| #[trigger] has_type_in(b, t) == has_type_in(a, t),
        num_in(b, a[i].pe_type) == num_in(a, a[i].pe_type) + 1,
        free_in(b, a[i].pe_type) == free_in(a, a[i].pe_type) + 1,
        forall|t: PEId| t != a[i].pe_type ==> #[trigger] num_in(b, t) == num_in(a, t),
        forall|t: PEId| t != a[i].pe_type ==> #[trigger] free_in(b, t) == free_in(a, t),
{
    assert forall|j: int| 0 <= j < b.len() implies (#[trigger] b[j]).pe_type == a[j].pe_type by {}
    assert forall|t: PEId| #[trigger] has_type_in(b, t) == has_type_in(a, t) by {
        if has_type_in(a, t) {
            let w = choose|w: int| 0 <= w < a.len() && (#[trigger] a[w]).pe_type == t;
            assert(b[w].pe_type == t);
        }
        if has_type_in(b, t) {
            let w = choose|w: int| 0 <= w < b.len() && (#[trigger] b[w]).pe_type == t;
            assert(a[w].pe_type == t);
        }
    }
    assert forall|i2: int, j2: int|
        0 <= i2 < b.len() && 0 <= j2 < b.len() && i2 != j2 implies (#[trigger] b[i2]).pe_type != (
    #[trigger] b[j2]).pe_type by {
        assert(a[i2].pe_type != a[j2].pe_type);
    }
    lemma_index_of(a, i);
    lemma_index_of(b, i);
    assert forall|t: PEId| t != a[i].pe_type implies #[trigger] num_in(b, t) == num_in(a, t) by {
        if has_type_in(a, t) {
            let wa = index_of(a, t);
            lemma_index_of(a, wa);
            lemma_index_of(b, wa);
        }
    }
    assert forall|t: PEId| t != a[i].pe_type implies #[trigger] free_in(b, t) == free_in(a, t) by {
        if has_type_in(a, t) {
            let wa = index_of(a, t);
            lemma_index_of(a, wa);
            lemma_index_of(b, wa);
        }
    }
}

/// Law: instances are conserved.  The number of instances of a type
/// that are simultaneously acquired and not yet released never exceeds
/// the type's fixed population.
pub proof fn lemma_acquired_bounded(s: Scheduler, t: PEId)
    requires
        s.wf(),
    ensures
        0 <= s.acquired_of(t) <= s.num_pes_spec(t),
{
    if s.has_type(t) {
        let i = index_of(s.pools@, t);
        assert(s.pools@[i].wf());
    }
}

/// Law: releasing one instance of an exhausted type makes exactly one
/// subsequent acquisition of that type succeed.  After the release one
/// acquisition can succeed, and once it does the type is exhausted
/// again.
pub proof fn lemma_release_enables_one_acquisition(pre: Scheduler, post: Scheduler, t: PEId)
    requires
        pre.wf(),
        pre.has_type(t),
        pre.num_pes_spec(t) > 0,
        pre.free_of(t) == 0,
        post.has_type(t),
        post.free_of(t) == pre.free_of(t) + 1,
    ensures
        !pre.can_acquire(t),
        post.can_acquire(t),
        post.free_of(t) - 1 == 0,
{
}

} // verus!
