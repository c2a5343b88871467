//! Slot arithmetic of the slot-based block builder: when the next slot starts, which relay chain
//! slot a header belongs to, which core a block goes to, and how large its proof may be.
use vstd::prelude::*;

verus! {

/// Milliseconds from `now_millis` (shifted back by `drift_millis`) until the next slot
/// boundary: `slot - (now - drift) % slot`, which is between 1 and the slot duration, so that
/// `now - drift` plus the result is a multiple of the slot duration. The result is truncated to
/// 64 bits.
pub fn millis_until_next_slot(now_millis: u128, slot_millis: u128, drift_millis: u128) -> (r: u64)
    requires
        drift_millis <= now_millis,
        slot_millis > 0,
        now_millis - drift_millis + slot_millis <= u128::MAX,
    ensures
        r == ((slot_millis - ((now_millis - drift_millis) as int) % (slot_millis as int)) as u64),
{
    let now = now_millis - drift_millis;
    let next_slot = (now + slot_millis) / slot_millis;
    proof {
        lemma_next_slot_boundary(now as int, slot_millis as int);
    }
    let remaining_millis = next_slot * slot_millis - now;
    remaining_millis as u64
}

/// The wait until the next slot lands on a slot boundary and is never longer than a slot:
/// `((now + slot) / slot) * slot - now == slot - now % slot`, which lies in `1 ..= slot`, and the
/// boundary is at most `now + slot`.
pub proof fn lemma_next_slot_boundary(now: int, slot: int)
    requires
        now >= 0,
        slot > 0,
    ensures
        ((now + slot) / slot) * slot - now == slot - now % slot,
        ((now + slot) / slot) * slot <= now + slot,
        0 < slot - now % slot <= slot,
{
    let q = now / slot;
    let r = now % slot;
    vstd::arithmetic::div_mod::lemma_fundamental_div_mod(now, slot);
    vstd::arithmetic::div_mod::lemma_mod_bound(now, slot);
    vstd::arithmetic::div_mod::lemma_div_plus_one(now, slot);
    assert((slot + now) / slot == q + 1);
    assert((now + slot) / slot == q + 1);
    assert((q + 1) * slot == slot * q + slot) by (nonlinear_arith);
}

/// The relay chain slot of the clock: the milliseconds since the Unix epoch, minus
/// `4000 / 6000` (which is zero), truncated to 64 bits.
pub fn relay_chain_slot_from_millis(millis_since_epoch: u128) -> (r: u64)
    ensures
        r == millis_since_epoch as u64,
{
    (millis_since_epoch - 4000 / 6000) as u64
}

/// The first BABE slot among the digest items, where there is one.
pub open spec fn first_babe_slot(slots: Seq<Option<u64>>) -> Option<u64>
    decreases slots.len(),
{
    if slots.len() == 0 {
        None
    } else if slots[0] is Some {
        slots[0]
    } else {
        first_babe_slot(slots.drop_first())
    }
}

/// The relay chain slot of a header: zero for the genesis header, else the slot of the first
/// BABE pre-digest among its digest items (`babe_slots` holds, per digest item, the slot of its
/// BABE pre-digest, if it is one). Every relay chain block but genesis carries one.
pub fn relay_slot_for_header(number: u32, babe_slots: &Vec<Option<u64>>) -> (r: u64)
    requires
        number != 0 ==> first_babe_slot(babe_slots@) is Some,
    ensures
        r == if number == 0 {
            0
        } else {
            first_babe_slot(babe_slots@)->0
        },
{
    if number == 0 {
        return 0;
    }
    let mut i: usize = 0;
    proof {
        assert(babe_slots@.skip(0) =~= babe_slots@);
    }
    while i < babe_slots.len()
        invariant
            number != 0,
            i <= babe_slots@.len(),
            first_babe_slot(babe_slots@) == first_babe_slot(babe_slots@.skip(i as int)),
        decreases babe_slots@.len() - i,
    {
        proof {
            assert(babe_slots@.skip(i as int)[0] == babe_slots@[i as int]);
            assert(babe_slots@.skip(i as int).drop_first() =~= babe_slots@.skip(i + 1));
        }
        match babe_slots[i] {
            Some(slot) => {
                assert(first_babe_slot(babe_slots@.skip(i as int)) == Some(slot));
                return slot;
            },
            None => {},
        }
        i = i + 1;
    }
    proof {
        assert(babe_slots@.skip(i as int) =~= Seq::<Option<u64>>::empty());
    }
    0
}

/// The proof size allowed for a block: the full maximum PoV size where `full_pov_size` is
/// configured, else half of it.
pub fn allowed_pov_size(max_pov_size: u32, full_pov_size: bool) -> (r: usize)
    ensures
        r as int == if full_pov_size {
            max_pov_size as int
        } else {
            max_pov_size as int / 2
        },
{
    if full_pov_size {
        max_pov_size as usize
    } else {
        (max_pov_size / 2) as usize
    }
}

/// The core that a core selector picks among the scheduled cores: the selector modulo their
/// number. `None` where no core is scheduled.
pub fn core_for_selector(core_selector: u8, scheduled_cores: &Vec<u32>) -> (r: Option<u32>)
    ensures
        scheduled_cores@.len() == 0 ==> r is None,
        scheduled_cores@.len() > 0 ==> r == Some(
            scheduled_cores@[(core_selector as int) % (scheduled_cores@.len() as int)],
        ),
{
    if scheduled_cores.len() == 0 {
        return None;
    }
    let index = (core_selector as usize) % scheduled_cores.len();
    Some(scheduled_cores[index])
}

/// The slot that a timestamp falls in: the timestamp divided by the slot duration, both in
/// milliseconds.
pub fn slot_from_timestamp(timestamp_millis: u64, slot_duration_millis: u64) -> (r: u64)
    requires
        slot_duration_millis > 0,
    ensures
        r == timestamp_millis / slot_duration_millis,
{
    timestamp_millis / slot_duration_millis
}

} // verus!
