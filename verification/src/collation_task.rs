//! Grouping parachain blocks per relay parent and core until enough of them make a collation.
use vstd::prelude::*;
use std::collections::HashMap;
use crate::hash::Hash256;

verus! {

broadcast use vstd::std_specs::hash::group_hash_axioms;

/// What adding a block to a relay parent's blocks calls for.
#[derive(Clone, Copy, PartialEq, Eq, Structural, Debug)]
pub enum AddOutcome {
    /// Enough blocks for the core are there: submit a collation.
    SubmitCollation,
    /// Nothing to do yet.
    Nothing,
}

impl AddOutcome {
    /// Whether a collation is to be submitted.
    pub fn submit_collation(self) -> (r: bool)
        ensures
            r == (self == AddOutcome::SubmitCollation),
    {
        match self {
            AddOutcome::SubmitCollation => true,
            AddOutcome::Nothing => false,
        }
    }
}

/// The blocks built for one core, on top of one parent header.
pub struct PerCore<B, Hd> {
    pub blocks: Vec<B>,
    pub parent_header: Hd,
}

/// How many blocks of one core go into one collation.
pub open spec fn spec_blocks_per_core(
    num_cores: nat,
    parachain_slot_duration: u64,
    relay_chain_slot_duration: u64,
) -> int {
    if parachain_slot_duration < relay_chain_slot_duration && num_cores > 0 {
        ((relay_chain_slot_duration / parachain_slot_duration) as usize) as int / num_cores as int
    } else {
        num_cores as int
    }
}

/// `after` is `before` with `block`, built for `core` on `parent_header`, added, with outcome
/// `r`: a block for a core that is not scheduled is dropped; the parent header is kept from the
/// first block of the core; a collation is called for once the core holds exactly
/// `blocks_per_core` blocks.
pub open spec fn added<B, Hd>(
    before: PerRelayParent<B, Hd>,
    after: PerRelayParent<B, Hd>,
    block: B,
    parent_header: Hd,
    core: u32,
    r: AddOutcome,
) -> bool {
    &&& after.scheduled_cores@ == before.scheduled_cores@
    &&& after.blocks_per_core == before.blocks_per_core
    &&& !before.scheduled_cores@.contains(core) ==> {
        &&& after.parachain_blocks@ == before.parachain_blocks@
        &&& r == AddOutcome::Nothing
    }
    &&& before.scheduled_cores@.contains(core) ==> {
        let b = before.parachain_blocks@;
        let a = after.parachain_blocks@;
        &&& a.dom() == b.dom().insert(core)
        &&& forall|c: u32| c != core && #[trigger] b.contains_key(c) ==> a[c] == b[c]
        &&& a[core].blocks@ == (if b.contains_key(core) {
            b[core].blocks@
        } else {
            Seq::empty()
        }).push(block)
        &&& a[core].parent_header == (if b.contains_key(core) {
            b[core].parent_header
        } else {
            parent_header
        })
        &&& (r == AddOutcome::SubmitCollation <==> a[core].blocks@.len() == after.blocks_per_core)
    }
}

/// `p` is what a relay parent starts with, for the given scheduled cores and slot durations.
pub open spec fn fresh_per_relay_parent<B, Hd>(
    p: PerRelayParent<B, Hd>,
    scheduled_cores: Seq<u32>,
    parachain_slot_duration: u64,
    relay_chain_slot_duration: u64,
) -> bool {
    &&& p.parachain_blocks@ == Map::<u32, PerCore<B, Hd>>::empty()
    &&& p.scheduled_cores@ == scheduled_cores
    &&& p.blocks_per_core as int == spec_blocks_per_core(
        scheduled_cores.len(),
        parachain_slot_duration,
        relay_chain_slot_duration,
    )
}

/// The parachain slots of one relay chain slot are shared evenly among the scheduled cores: where
/// a parachain slot is shorter than a relay chain slot and `n` cores are scheduled, each core
/// gets the largest number of blocks `b` with `n * b` slots fitting in a relay chain slot, that
/// is `n * b <= r / p < n * (b + 1)`; otherwise each core gets one block per core scheduled.
pub proof fn lemma_blocks_per_core_shares_relay_slot<B, Hd>(
    x: PerRelayParent<B, Hd>,
    scheduled_cores: Seq<u32>,
    parachain_slot_duration: u64,
    relay_chain_slot_duration: u64,
)
    requires
        fresh_per_relay_parent(x, scheduled_cores, parachain_slot_duration, relay_chain_slot_duration),
        parachain_slot_duration > 0,
        relay_chain_slot_duration as int / parachain_slot_duration as int <= usize::MAX,
    ensures
        parachain_slot_duration < relay_chain_slot_duration && scheduled_cores.len() > 0 ==> {
            let slots = relay_chain_slot_duration as int / parachain_slot_duration as int;
            let n = scheduled_cores.len() as int;
            &&& n * x.blocks_per_core <= slots
            &&& slots < n * (x.blocks_per_core + 1)
        },
        !(parachain_slot_duration < relay_chain_slot_duration && scheduled_cores.len() > 0)
            ==> x.blocks_per_core == scheduled_cores.len(),
{
    if parachain_slot_duration < relay_chain_slot_duration && scheduled_cores.len() > 0 {
        let slots = relay_chain_slot_duration as int / parachain_slot_duration as int;
        let n = scheduled_cores.len() as int;
        assert(0 <= slots);
        assert(((relay_chain_slot_duration / parachain_slot_duration) as usize) as int == slots);
        let b = slots / n;
        assert(x.blocks_per_core == b);
        assert(n * b <= slots && slots < n * (b + 1)) by (nonlinear_arith)
            requires
                n > 0,
                slots >= 0,
                b == slots / n,
        ;
    }
}

/// The parachain blocks built on one relay parent.
pub struct PerRelayParent<B, Hd> {
    /// Parachain blocks built on top of this relay parent, per core.
    pub parachain_blocks: HashMap<u32, PerCore<B, Hd>>,
    /// The cores scheduled for this parachain at this relay parent.
    pub scheduled_cores: Vec<u32>,
    /// The number of blocks per core that are put into one collation.
    pub blocks_per_core: usize,
}

impl<B, Hd> PerRelayParent<B, Hd> {
    /// No blocks yet; `blocks_per_core` is the number of parachain slots in a relay chain slot
    /// shared among the scheduled cores, or the number of cores where a parachain slot is not
    /// shorter than a relay chain slot (or no core is scheduled).
    pub fn new(
        scheduled_cores: Vec<u32>,
        parachain_slot_duration: u64,
        relay_chain_slot_duration: u64,
    ) -> (r: PerRelayParent<B, Hd>)
        requires
            parachain_slot_duration > 0 || relay_chain_slot_duration == 0 || scheduled_cores@.len()
                == 0,
        ensures
            fresh_per_relay_parent(r, scheduled_cores@, parachain_slot_duration, relay_chain_slot_duration),
    {
        let blocks_per_core = if parachain_slot_duration < relay_chain_slot_duration
            && !scheduled_cores.is_empty() {
            (relay_chain_slot_duration / parachain_slot_duration) as usize / scheduled_cores.len()
        } else {
            scheduled_cores.len()
        };
        PerRelayParent { parachain_blocks: HashMap::new(), scheduled_cores, blocks_per_core }
    }

    /// Add a block built for `core` on `parent_header`. A block for a core that is not scheduled
    /// is dropped. The parent header is kept from the first block of the core. The outcome calls
    /// for a collation once the core holds exactly `blocks_per_core` blocks.
    pub fn add_parachain_block(&mut self, block: B, parent_header: Hd, core: u32) -> (r:
        AddOutcome)
        ensures
            added(*old(self), *final(self), block, parent_header, core, r),
    {
        let mut i: usize = 0;
        let mut scheduled = false;
        while i < self.scheduled_cores.len()
            invariant
                i <= self.scheduled_cores@.len(),
                scheduled <==> exists|k: int| 0 <= k < i && self.scheduled_cores@[k] == core,
            decreases self.scheduled_cores@.len() - i,
        {
            if self.scheduled_cores[i] == core {
                scheduled = true;
            }
            i = i + 1;
        }
        proof {
            if scheduled {
                let k = choose|k: int| 0 <= k < i && self.scheduled_cores@[k] == core;
                assert(self.scheduled_cores@.contains(core));
            }
        }
        if !scheduled {
            return AddOutcome::Nothing;
        }
        let mut per_core = match self.parachain_blocks.remove(&core) {
            Some(existing) => existing,
            None => PerCore { blocks: Vec::new(), parent_header },
        };
        per_core.blocks.push(block);
        let count = per_core.blocks.len();
        self.parachain_blocks.insert(core, per_core);
        let r = if count == self.blocks_per_core {
            AddOutcome::SubmitCollation
        } else {
            AddOutcome::Nothing
        };
        proof {
            let b = old(self).parachain_blocks@;
            let a = self.parachain_blocks@;
            assert(a.dom() =~= b.dom().insert(core));
            assert forall|c: u32| c != core && #[trigger] b.contains_key(c) implies a[c] == b[c] by {}
        }
        r
    }
}

/// The parachain slot duration, in milliseconds, that blocks per core are counted with.
pub const PARACHAIN_SLOT_DURATION_MS: u64 = 500;

/// The relay chain slot duration, in milliseconds, that blocks per core are counted with.
pub const RELAY_CHAIN_SLOT_DURATION_MS: u64 = 6000;

/// No relay parent occurs twice among the entries.
pub open spec fn keys_distinct<B, Hd>(entries: Seq<(Hash256, PerRelayParent<B, Hd>)>) -> bool {
    forall|i: int, j: int|
        0 <= i < j < entries.len() ==> #[trigger] entries[i].0 != #[trigger] entries[j].0
}

/// `after` is `before` with `block`, built for `core` on `parent_header`, added to the blocks of
/// `relay_parent`, with outcome `r`; a relay parent without an entry starts empty, with
/// `scheduled_cores`. Other relay parents keep their blocks.
pub open spec fn added_to_relay_parent<B, Hd>(
    before: RelayParents<B, Hd>,
    after: RelayParents<B, Hd>,
    relay_parent: Hash256,
    scheduled_cores: Seq<u32>,
    block: B,
    parent_header: Hd,
    core: u32,
    r: AddOutcome,
) -> bool {
    &&& after.has(relay_parent)
    &&& before.has(relay_parent) ==> added(before.get(relay_parent), after.get(relay_parent), block, parent_header, core, r)
    &&& !before.has(relay_parent) ==> exists|p: PerRelayParent<B, Hd>| {
        &&& fresh_per_relay_parent(p, scheduled_cores, PARACHAIN_SLOT_DURATION_MS, RELAY_CHAIN_SLOT_DURATION_MS)
        &&& #[trigger] added(p, after.get(relay_parent), block, parent_header, core, r)
    }
    &&& forall|other: Hash256| other != relay_parent ==> (#[trigger] after.has(other) <==> before.has(other))
    &&& forall|other: Hash256| other != relay_parent && #[trigger] before.has(other) ==> after.get(other) == before.get(other)
}

/// The blocks collected per relay parent, in the order the relay parents were first seen.
pub struct RelayParents<B, Hd> {
    pub entries: Vec<(Hash256, PerRelayParent<B, Hd>)>,
}

impl<B, Hd> RelayParents<B, Hd> {
    /// Each relay parent has one entry.
    pub open spec fn wf(&self) -> bool {
        keys_distinct(self.entries@)
    }

    /// Whether `relay_parent` has an entry.
    pub open spec fn has(&self, relay_parent: Hash256) -> bool {
        exists|i: int| 0 <= i < self.entries@.len() && #[trigger] self.entries@[i].0 == relay_parent
    }

    /// The entry of `relay_parent`, where it has one.
    pub open spec fn get(&self, relay_parent: Hash256) -> PerRelayParent<B, Hd> {
        let i = choose|i: int| 0 <= i < self.entries@.len() && #[trigger] self.entries@[i].0 == relay_parent;
        self.entries@[i].1
    }

    /// No relay parent yet.
    pub fn new() -> (r: RelayParents<B, Hd>)
        ensures
            r.wf(),
            r.entries@.len() == 0,
    {
        RelayParents { entries: Vec::new() }
    }

    /// The index of the entry of `relay_parent`, if it has one.
    pub fn find(&self, relay_parent: Hash256) -> (r: Option<usize>)
        ensures
            match r {
                Some(i) => i < self.entries@.len() && self.entries@[i as int].0 == relay_parent,
                None => !self.has(relay_parent),
            },
    {
        let mut i: usize = 0;
        while i < self.entries.len()
            invariant
                i <= self.entries@.len(),
                forall|k: int| 0 <= k < i ==> #[trigger] self.entries@[k].0 != relay_parent,
            decreases self.entries@.len() - i,
        {
            if self.entries[i].0 == relay_parent {
                return Some(i);
            }
            i = i + 1;
        }
        None
    }

    /// Adds `block`, built for `core` on `parent_header`, to the blocks of `relay_parent`, which
    /// starts empty, with `scheduled_cores`, where it has no entry yet. The outcome tells
    /// whether the core's blocks are to be submitted as a collation. Other relay parents keep
    /// their blocks.
    pub fn handle_collation_message(
        &mut self,
        relay_parent: Hash256,
        scheduled_cores: Vec<u32>,
        block: B,
        parent_header: Hd,
        core: u32,
    ) -> (r: AddOutcome)
        requires
            old(self).wf(),
        ensures
            final(self).wf(),
            added_to_relay_parent(*old(self), *final(self), relay_parent, scheduled_cores@, block, parent_header, core, r),
    {
        let ghost before = self.entries@;
        let idx = match self.find(relay_parent) {
            Some(i) => i,
            None => {
                let fresh = PerRelayParent::new(scheduled_cores, PARACHAIN_SLOT_DURATION_MS, RELAY_CHAIN_SLOT_DURATION_MS);
                self.entries.push((relay_parent, fresh));
                proof {
                    assert forall|i: int, j: int| 0 <= i < j < self.entries@.len() implies #[trigger] self.entries@[i].0 != #[trigger] self.entries@[j].0 by {
                        if j == self.entries@.len() - 1 {
                            assert(before[i].0 != relay_parent);
                        } else {
                            assert(before[i].0 != before[j].0);
                        }
                    }
                }
                self.entries.len() - 1
            },
        };
        let ghost mid = self.entries@;
        let (key, mut per) = self.entries.remove(idx);
        let ghost old_per = per;
        let r = per.add_parachain_block(block, parent_header, core);
        self.entries.insert(idx, (key, per));
        proof {
            assert(self.entries@ =~= mid.update(idx as int, (key, per)));
            assert(self.entries@[idx as int].0 == relay_parent);
            assert forall|i: int, j: int| 0 <= i < j < self.entries@.len() implies #[trigger] self.entries@[i].0 != #[trigger] self.entries@[j].0 by {
                assert(mid[i].0 != mid[j].0);
            }
            assert(self.has(relay_parent));
            let g = choose|i: int| 0 <= i < self.entries@.len() && #[trigger] self.entries@[i].0 == relay_parent;
            assert(g == idx);
            if before.len() < mid.len() {
                assert(fresh_per_relay_parent(old_per, scheduled_cores@, PARACHAIN_SLOT_DURATION_MS, RELAY_CHAIN_SLOT_DURATION_MS));
                assert(added(old_per, self.get(relay_parent), block, parent_header, core, r));
            } else {
                let g0 = choose|i: int| 0 <= i < before.len() && #[trigger] before[i].0 == relay_parent;
                assert(g0 == idx);
            }
            assert forall|other: Hash256| other != relay_parent implies (#[trigger] self.has(other) <==> old(self).has(other)) by {
                if self.has(other) {
                    let k = choose|i: int| 0 <= i < self.entries@.len() && #[trigger] self.entries@[i].0 == other;
                    assert(k != idx);
                    assert(k < before.len());
                    assert(before[k].0 == other);
                }
                if old(self).has(other) {
                    let k = choose|i: int| 0 <= i < before.len() && #[trigger] before[i].0 == other;
                    assert(self.entries@[k].0 == other);
                }
            }
            assert forall|other: Hash256| other != relay_parent && #[trigger] old(self).has(other) implies self.get(other) == old(self).get(other) by {
                let k = choose|i: int| 0 <= i < before.len() && #[trigger] before[i].0 == other;
                assert(self.entries@[k].0 == other);
                let k2 = choose|i: int| 0 <= i < self.entries@.len() && #[trigger] self.entries@[i].0 == other;
                assert(k2 == k);
            }
        }
        r
    }

    /// Adds an imported `block`, built on `parent_header`, to the blocks of `relay_parent` for
    /// the core that `core_selector` picks among `scheduled_cores` (the selector modulo their
    /// number), as `handle_collation_message` does; no collation is submitted here.
    pub fn handle_block_import(
        &mut self,
        relay_parent: Hash256,
        scheduled_cores: Vec<u32>,
        core_selector: u8,
        block: B,
        parent_header: Hd,
    )
        requires
            old(self).wf(),
            scheduled_cores@.len() > 0,
        ensures
            final(self).wf(),
            exists|r: AddOutcome| #[trigger] added_to_relay_parent(
                *old(self),
                *final(self),
                relay_parent,
                scheduled_cores@,
                block,
                parent_header,
                scheduled_cores@[(core_selector as int) % (scheduled_cores@.len() as int)],
                r,
            ),
    {
        let index = (core_selector as usize) % scheduled_cores.len();
        let core = scheduled_cores[index];
        let ghost cores = scheduled_cores@;
        let r = self.handle_collation_message(relay_parent, scheduled_cores, block, parent_header, core);
        assert(added_to_relay_parent(*old(self), *self, relay_parent, cores, block, parent_header, core, r));
    }
}

} // verus!
