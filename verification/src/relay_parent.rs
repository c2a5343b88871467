//! Choosing the relay chain block that the next parachain block is built on.
use vstd::prelude::*;
use crate::hash::Hash256;
use crate::relay_root_index::{recorded, RelayRootIndex};
use crate::slot_timing::{first_babe_slot, relay_slot_for_header};

verus! {

/// What is known of a relay chain header on the way back from the best relay block.
pub struct RelayHeader {
    pub hash: Hash256,
    pub number: u32,
    /// Per digest item, the slot of its BABE pre-digest, if it is one.
    pub babe_slots: Vec<Option<u64>>,
}

/// The relay chain slot of a header.
pub open spec fn header_slot(h: RelayHeader) -> u64 {
    if h.number == 0 {
        0
    } else {
        first_babe_slot(h.babe_slots@)->0
    }
}

/// Every header but genesis carries a BABE pre-digest.
pub open spec fn headers_have_slots(chain: Seq<RelayHeader>) -> bool {
    forall|i: int|
        0 <= i < chain.len() ==> (#[trigger] chain[i]).number != 0 ==> first_babe_slot(
            chain[i].babe_slots@,
        ) is Some
}

/// The first header on the way back whose slot is at most `slot`.
pub open spec fn first_at_or_below(chain: Seq<RelayHeader>, slot: u64, k: int) -> bool {
    &&& 0 <= k < chain.len()
    &&& header_slot(chain[k]) <= slot
    &&& forall|i: int| 0 <= i < k ==> header_slot(#[trigger] chain[i]) > slot
}

/// Some header on the way back has a slot of at most `slot`.
pub open spec fn reaches_slot(chain: Seq<RelayHeader>, slot: u64) -> bool {
    exists|k: int| 0 <= k < chain.len() && header_slot(#[trigger] chain[k]) <= slot
}

/// The slot just after the best parachain block's relay parent, where it is still recent:
/// after `current_slot - 2`.
pub open spec fn preferred_slot(current_slot: u64, best_para_relay_parent_slot: Option<u64>) -> Option<u64> {
    match best_para_relay_parent_slot {
        Some(s) => if current_slot - 2 < s + 1 {
            Some((s + 1) as u64)
        } else {
            None
        },
        None => None,
    }
}

/// The relay block chosen to build on (see `determine_best_relay_block_to_build_on`): the block
/// the walk back meets exactly in the preferred slot, where there is a preferred slot and such a
/// block; otherwise the first block whose slot is at most the current slot.
pub open spec fn relay_block_chosen(
    current_slot: u64,
    best_para_relay_parent_slot: Option<u64>,
    chain: Seq<RelayHeader>,
    r: Hash256,
) -> bool {
    let fallback = exists|k: int| first_at_or_below(chain, current_slot, k) && r == chain[k].hash;
    match preferred_slot(current_slot, best_para_relay_parent_slot) {
        Some(s) => exists|k: int| #[trigger]
            first_at_or_below(chain, s, k) && if header_slot(chain[k]) == s {
                r == chain[k].hash
            } else {
                fallback
            },
        None => fallback,
    }
}

/// Index of the first header whose slot is at most `slot`.
fn walk_back_to_slot(chain: &Vec<RelayHeader>, slot: u64) -> (k: usize)
    requires
        headers_have_slots(chain@),
        reaches_slot(chain@, slot),
    ensures
        first_at_or_below(chain@, slot, k as int),
{
    let mut k: usize = 0;
    let mut header_slot_k = relay_slot_for_header(chain[0].number, &chain[0].babe_slots);
    while header_slot_k > slot
        invariant
            headers_have_slots(chain@),
            reaches_slot(chain@, slot),
            k < chain@.len(),
            header_slot_k == header_slot(chain@[k as int]),
            forall|i: int| 0 <= i < k ==> header_slot(#[trigger] chain@[i]) > slot,
        decreases chain@.len() - k,
    {
        proof {
            let w = choose|w: int| 0 <= w < chain@.len() && header_slot(#[trigger] chain@[w]) <= slot;
            if w < k {
                assert(header_slot(chain@[w]) > slot);
            }
            assert(w != k);
            assert(k + 1 < chain.len());
        }
        k = k + 1;
        header_slot_k = relay_slot_for_header(chain[k].number, &chain[k].babe_slots);
    }
    k
}

/// The relay block to build on, walking back from the best relay block (`chain[0]`, each next
/// header the parent of the one before): where the best parachain block's relay parent slot is
/// recent (its successor slot lies after `current_slot - 2`), the block in that successor slot,
/// if the walk meets one exactly there; otherwise the first block whose slot is at most the
/// current slot.
pub fn determine_best_relay_block_to_build_on(
    current_slot: u64,
    best_para_relay_parent_slot: Option<u64>,
    chain: &Vec<RelayHeader>,
) -> (r: Hash256)
    requires
        headers_have_slots(chain@),
        reaches_slot(chain@, current_slot),
        best_para_relay_parent_slot matches Some(s) ==> current_slot >= 2 && s < u64::MAX,
        preferred_slot(current_slot, best_para_relay_parent_slot) matches Some(s) ==> reaches_slot(
            chain@,
            s,
        ),
    ensures
        relay_block_chosen(current_slot, best_para_relay_parent_slot, chain@, r),
{
    let preferred = match best_para_relay_parent_slot {
        Some(s) => if current_slot - 2 < s + 1 {
            Some(s + 1)
        } else {
            None
        },
        None => None,
    };
    match preferred {
        Some(slot) => {
            let k = walk_back_to_slot(chain, slot);
            let slot_k = relay_slot_for_header(chain[k].number, &chain[k].babe_slots);
            if slot_k == slot {
                return chain[k].hash;
            }
            let j = walk_back_to_slot(chain, current_slot);
            chain[j].hash
        },
        None => {
            let j = walk_back_to_slot(chain, current_slot);
            chain[j].hash
        },
    }
}

/// Building right after the best parachain block's relay parent: where that relay parent is in
/// slot `s` and its successor slot `s + 1` lies after `current_slot - 2`, and the walk back from
/// the best relay block meets a block exactly in slot `s + 1` (every block before it on the walk
/// is in a later slot), that block is chosen.
pub proof fn lemma_block_after_parachain_parent_is_chosen(
    current_slot: u64,
    s: u64,
    chain: Seq<RelayHeader>,
    k: int,
    r: Hash256,
)
    requires
        relay_block_chosen(current_slot, Some(s), chain, r),
        current_slot >= 2,
        s < u64::MAX,
        current_slot - 2 < s + 1,
        0 <= k < chain.len(),
        header_slot(chain[k]) == s + 1,
        forall|i: int| 0 <= i < k ==> header_slot(#[trigger] chain[i]) > s + 1,
    ensures
        r == chain[k].hash,
{
    let p = (s + 1) as u64;
    assert(preferred_slot(current_slot, Some(s)) == Some(p));
    let k2 = choose|k2: int| #[trigger]
        first_at_or_below(chain, p, k2) && if header_slot(chain[k2]) == p {
            r == chain[k2].hash
        } else {
            exists|j: int| first_at_or_below(chain, current_slot, j) && r == chain[j].hash
        };
    if k2 < k {
        assert(header_slot(chain[k2]) > s + 1);
    }
    if k < k2 {
        assert(header_slot(chain[k]) > p);
    }
    assert(k2 == k);
}

/// Otherwise the walk stops at the current slot: without a recent parachain relay parent, or
/// where the walk meets no block exactly in the slot after it, the chosen block is the first
/// on the walk back whose slot is at most the current slot.
pub proof fn lemma_otherwise_current_slot_is_chosen(
    current_slot: u64,
    best_para_relay_parent_slot: Option<u64>,
    chain: Seq<RelayHeader>,
    k: int,
    r: Hash256,
)
    requires
        relay_block_chosen(current_slot, best_para_relay_parent_slot, chain, r),
        best_para_relay_parent_slot matches Some(s) ==> current_slot >= 2 && s < u64::MAX && (
        current_slot - 2 >= s + 1 || forall|i: int| 0 <= i < chain.len() ==> header_slot(
            #[trigger] chain[i],
        ) != s + 1),
        0 <= k < chain.len(),
        header_slot(chain[k]) <= current_slot,
        forall|i: int| 0 <= i < k ==> header_slot(#[trigger] chain[i]) > current_slot,
    ensures
        r == chain[k].hash,
{
    let j = choose|j: int| first_at_or_below(chain, current_slot, j) && r == chain[j].hash;
    match preferred_slot(current_slot, best_para_relay_parent_slot) {
        Some(p) => {
            let k2 = choose|k2: int| #[trigger]
                first_at_or_below(chain, p, k2) && if header_slot(chain[k2]) == p {
                    r == chain[k2].hash
                } else {
                    exists|j: int| first_at_or_below(chain, current_slot, j) && r == chain[j].hash
                };
            assert(header_slot(chain[k2]) != p);
            let j2 = choose|j2: int| first_at_or_below(chain, current_slot, j2) && r == chain[j2].hash;
            if j2 < k {
                assert(header_slot(chain[j2]) > current_slot);
            }
            if k < j2 {
                assert(header_slot(chain[k]) > current_slot);
            }
        },
        None => {
            if j < k {
                assert(header_slot(chain[j]) > current_slot);
            }
            if k < j {
                assert(header_slot(chain[k]) > current_slot);
            }
        },
    }
}

/// How many parachain blocks in a row, from the best one back, were built on `relay_parent`:
/// the best block itself, and then each ancestor (`ancestor_relay_parents[i]` is the relay
/// parent of the `i + 1`-th ancestor, `None` where it could not be found) until one differs.
pub fn count_on_same_parent(ancestor_relay_parents: &Vec<Option<Hash256>>, relay_parent: Hash256) -> (n: usize)
    requires
        ancestor_relay_parents@.len() < usize::MAX,
    ensures
        1 <= n <= ancestor_relay_parents@.len() + 1,
        forall|i: int| 0 <= i < n - 1 ==> ancestor_relay_parents@[i] == Some(relay_parent),
        n - 1 < ancestor_relay_parents@.len() ==> ancestor_relay_parents@[n - 1] != Some(
            relay_parent,
        ),
{
    let mut i: usize = 0;
    while i < ancestor_relay_parents.len()
        invariant
            i <= ancestor_relay_parents@.len(),
            forall|k: int| 0 <= k < i ==> ancestor_relay_parents@[k] == Some(relay_parent),
        decreases ancestor_relay_parents@.len() - i,
    {
        match ancestor_relay_parents[i] {
            Some(rp) => {
                if rp != relay_parent {
                    return i + 1;
                }
            },
            None => {
                return i + 1;
            },
        }
        i = i + 1;
    }
    i + 1
}

/// Where to build the next parachain block.
#[derive(PartialEq, Eq, Structural, Debug, Clone, Copy)]
pub enum RelayParentChoice {
    /// Build on this relay parent.
    BuildOn(Hash256),
    /// Determine the relay block to build on by walking back from the best relay block, with
    /// the slot of the best parachain block's relay parent where known.
    Determine(Option<u64>),
}

/// The decision of where to build: on the best parachain block's relay parent, unless it is not
/// known (then determine without a slot), its slot is more than two slots behind the current one,
/// or `max_para_blocks_per_relay` blocks were already built on it (then determine with its slot).
pub fn relay_parent_to_build_on(
    current_slot: u64,
    best_para_relay_parent: Option<Hash256>,
    best_para_relay_parent_slot: Option<u64>,
    on_same_parent: usize,
    max_para_blocks_per_relay: usize,
) -> (r: RelayParentChoice)
    requires
        best_para_relay_parent_slot matches Some(s) ==> s + 2 <= u64::MAX,
    ensures
        r == match (best_para_relay_parent, best_para_relay_parent_slot) {
            (Some(parent), Some(slot)) => if slot + 2 < current_slot || on_same_parent
                >= max_para_blocks_per_relay {
                RelayParentChoice::Determine(Some(slot))
            } else {
                RelayParentChoice::BuildOn(parent)
            },
            _ => RelayParentChoice::Determine(None),
        },
{
    match (best_para_relay_parent, best_para_relay_parent_slot) {
        (Some(parent), Some(slot)) => {
            if slot + 2 < current_slot {
                RelayParentChoice::Determine(Some(slot))
            } else if on_same_parent >= max_para_blocks_per_relay {
                RelayParentChoice::Determine(Some(slot))
            } else {
                RelayParentChoice::BuildOn(parent)
            }
        },
        _ => RelayParentChoice::Determine(None),
    }
}

/// The most parachain blocks built on one relay parent before another is looked for.
pub const MAX_PARA_BLOCKS_PER_RELAY: usize = 12;

/// How many relay chain storage roots are kept for finding relay parents.
pub const RELAY_ROOTS_KEPT: u32 = 50;

/// What the block builder knows of the relay chain: its best block, the blocks of recent
/// storage roots, and how many parachain blocks it builds on one relay parent at most.
pub struct RelayParentState {
    pub best_hash: Hash256,
    pub best_number: u32,
    pub roots: RelayRootIndex,
    pub max_para_blocks_per_relay: usize,
}

impl RelayParentState {
    /// The state at start: the best relay block, with its storage root recorded.
    pub fn new(best_hash: Hash256, best_number: u32, best_state_root: Hash256) -> (r: RelayParentState)
        ensures
            r.best_hash == best_hash,
            r.best_number == best_number,
            r.max_para_blocks_per_relay == MAX_PARA_BLOCKS_PER_RELAY,
            r.roots.capacity() == RELAY_ROOTS_KEPT,
            exists|ok: bool, empty: RelayRootIndex| {
                &&& empty.view().dom() == Set::<(u64, u64, u64, u64)>::empty()
                &&& empty.recency() == Seq::<(u64, u64, u64, u64)>::empty()
                &&& empty.capacity() == RELAY_ROOTS_KEPT
                &&& #[trigger] recorded(empty, r.roots, best_state_root, best_hash, ok)
            },
    {
        let mut roots = RelayRootIndex::new(RELAY_ROOTS_KEPT);
        let ghost empty = roots;
        let ok = roots.insert(best_state_root, best_hash);
        let r = RelayParentState {
            best_hash,
            best_number,
            roots,
            max_para_blocks_per_relay: MAX_PARA_BLOCKS_PER_RELAY,
        };
        assert(empty.view().dom() == Set::<(u64, u64, u64, u64)>::empty());
        assert(empty.capacity() == RELAY_ROOTS_KEPT);
        assert(empty.recency() == Seq::<(u64, u64, u64, u64)>::empty());
        assert(recorded(empty, r.roots, best_state_root, best_hash, ok));
        r
    }

    /// Takes in an imported relay block: it becomes the best block where its number is higher
    /// than the best one's, and its storage root is recorded.
    pub fn on_relay_import(&mut self, hash: Hash256, number: u32, state_root: Hash256)
        ensures
            number > old(self).best_number ==> final(self).best_hash == hash && final(self).best_number == number,
            number <= old(self).best_number ==> final(self).best_hash == old(self).best_hash
                && final(self).best_number == old(self).best_number,
            final(self).max_para_blocks_per_relay == old(self).max_para_blocks_per_relay,
            exists|ok: bool| #[trigger] recorded(old(self).roots, final(self).roots, state_root, hash, ok),
    {
        if number > self.best_number {
            self.best_hash = hash;
            self.best_number = number;
        }
        let ghost before = self.roots;
        let ok = self.roots.insert(state_root, hash);
        assert(recorded(before, self.roots, state_root, hash, ok));
    }
}

} // verus!
