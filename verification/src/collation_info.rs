//! Merging the collation information of consecutive parachain blocks into one collation, and
//! deciding whether the parachain has a core.
use vstd::prelude::*;

verus! {

/// What executing one parachain block tells about the collation it goes into.
pub struct CollationInfo<U, H, C, D> {
    /// Messages sent upward to the relay chain.
    pub upward_messages: Vec<U>,
    /// Messages sent to other parachains.
    pub horizontal_messages: Vec<H>,
    /// A new validation code, if the block sets one.
    pub new_validation_code: Option<C>,
    /// The number of downward messages the block processed.
    pub processed_downward_messages: u32,
    /// The HRMP watermark after the block.
    pub hrmp_watermark: u32,
    /// The head data after the block.
    pub head_data: D,
}

/// The upward messages of all blocks, in order.
pub open spec fn all_upward<U, H, C, D>(s: Seq<CollationInfo<U, H, C, D>>) -> Seq<U>
    decreases s.len(),
{
    if s.len() == 0 {
        Seq::empty()
    } else {
        all_upward(s.drop_last()) + s.last().upward_messages@
    }
}

/// The horizontal messages of all blocks, in order.
pub open spec fn all_horizontal<U, H, C, D>(s: Seq<CollationInfo<U, H, C, D>>) -> Seq<H>
    decreases s.len(),
{
    if s.len() == 0 {
        Seq::empty()
    } else {
        all_horizontal(s.drop_last()) + s.last().horizontal_messages@
    }
}

/// The first new validation code that a block sets.
pub open spec fn first_code<U, H, C, D>(s: Seq<CollationInfo<U, H, C, D>>) -> Option<C>
    decreases s.len(),
{
    if s.len() == 0 {
        None
    } else if first_code(s.drop_last()) is Some {
        first_code(s.drop_last())
    } else {
        s.last().new_validation_code
    }
}

/// The downward messages that all blocks processed together.
pub open spec fn total_processed<U, H, C, D>(s: Seq<CollationInfo<U, H, C, D>>) -> int
    decreases s.len(),
{
    if s.len() == 0 {
        0
    } else {
        total_processed(s.drop_last()) + s.last().processed_downward_messages
    }
}

proof fn lemma_total_processed_prefix<U, H, C, D>(s: Seq<CollationInfo<U, H, C, D>>, k: int)
    requires
        0 <= k <= s.len(),
    ensures
        0 <= total_processed(s.take(k)) <= total_processed(s),
    decreases s.len() - k,
{
    if k < s.len() {
        lemma_total_processed_prefix(s, k + 1);
        assert(s.take(k + 1).drop_last() =~= s.take(k));
    } else {
        assert(s.take(k) =~= s);
    }
    lemma_total_processed_nonneg(s.take(k));
}

proof fn lemma_total_processed_nonneg<U, H, C, D>(s: Seq<CollationInfo<U, H, C, D>>)
    ensures
        total_processed(s) >= 0,
    decreases s.len(),
{
    if s.len() > 0 {
        lemma_total_processed_nonneg(s.drop_last());
    }
}

/// The collation information of a run of blocks: the messages of all blocks in order, the first
/// new validation code, the sum of processed downward messages, and the watermark and head data
/// of the last block. `None` when there are no blocks.
pub fn merge_collation_infos<U, H, C, D>(infos: Vec<CollationInfo<U, H, C, D>>) -> (r: Option<
    CollationInfo<U, H, C, D>,
>)
    requires
        total_processed(infos@) <= u32::MAX,
    ensures
        infos@.len() == 0 <==> r is None,
        r matches Some(m) ==> {
            &&& m.upward_messages@ == all_upward(infos@)
            &&& m.horizontal_messages@ == all_horizontal(infos@)
            &&& m.new_validation_code == first_code(infos@)
            &&& m.processed_downward_messages == total_processed(infos@)
            &&& m.hrmp_watermark == infos@.last().hrmp_watermark
            &&& m.head_data == infos@.last().head_data
        },
{
    let ghost all = infos@;
    let mut infos = infos;
    if infos.len() == 0 {
        return None;
    }
    let mut merged = infos.remove(0);
    let ghost mut k: int = 1;
    proof {
        assert(all.take(1).drop_last() =~= Seq::<CollationInfo<U, H, C, D>>::empty());
        assert(all.take(1).last() == all[0]);
        assert(all_upward(all.take(1).drop_last()) =~= Seq::<U>::empty());
        assert(all_horizontal(all.take(1).drop_last()) =~= Seq::<H>::empty());
        assert(first_code(all.take(1).drop_last()) is None);
        assert(total_processed(all.take(1).drop_last()) == 0);
        assert(merged.upward_messages@ =~= all_upward(all.take(1)));
        assert(merged.horizontal_messages@ =~= all_horizontal(all.take(1)));
        assert(infos@ =~= all.skip(1));
    }
    while infos.len() > 0
        invariant
            1 <= k <= all.len(),
            total_processed(all) <= u32::MAX,
            infos@ == all.skip(k),
            merged.upward_messages@ == all_upward(all.take(k)),
            merged.horizontal_messages@ == all_horizontal(all.take(k)),
            merged.new_validation_code == first_code(all.take(k)),
            merged.processed_downward_messages == total_processed(all.take(k)),
            merged.hrmp_watermark == all[k - 1].hrmp_watermark,
            merged.head_data == all[k - 1].head_data,
        decreases infos.len(),
    {
        let mut next = infos.remove(0);
        proof {
            assert(next == all[k]);
            assert(all.take(k + 1).drop_last() =~= all.take(k));
            assert(all.take(k + 1).last() == all[k]);
            lemma_total_processed_prefix(all, k + 1);
        }
        merged.upward_messages.append(&mut next.upward_messages);
        merged.horizontal_messages.append(&mut next.horizontal_messages);
        if merged.new_validation_code.is_none() {
            merged.new_validation_code = next.new_validation_code;
        }
        merged.processed_downward_messages = merged.processed_downward_messages
            + next.processed_downward_messages;
        merged.hrmp_watermark = next.hrmp_watermark;
        merged.head_data = next.head_data;
        proof {
            k = k + 1;
            assert(infos@ =~= all.skip(k));
        }
    }
    proof {
        assert(all.take(k) =~= all);
    }
    Some(merged)
}

/// Whether some availability core is assigned to `para_id`.
pub fn para_scheduled_on_any_core(core_paras: &Vec<Option<u32>>, para_id: u32) -> (r: bool)
    ensures
        r == exists|i: int| 0 <= i < core_paras@.len() && core_paras@[i] == Some(para_id),
{
    let mut i: usize = 0;
    while i < core_paras.len()
        invariant
            i <= core_paras.len(),
            forall|k: int| 0 <= k < i ==> core_paras@[k] != Some(para_id),
        decreases core_paras.len() - i,
    {
        match core_paras[i] {
            Some(p) => {
                if p == para_id {
                    return true;
                }
            },
            None => {},
        }
        i = i + 1;
    }
    false
}

/// The most upward messages a collation may carry.
pub const MAX_UPWARD_MESSAGE_NUM: u32 = 16 * 1024;

/// The most horizontal messages a collation may carry.
pub const MAX_HORIZONTAL_MESSAGE_NUM: u32 = 16 * 1024;

/// The merged information where its messages fit a collation, `None` (the collation is skipped)
/// where there are more upward or more horizontal messages than a collation may carry.
pub fn bounded_messages<U, H, C, D>(info: CollationInfo<U, H, C, D>) -> (r: Option<CollationInfo<U, H, C, D>>)
    ensures
        r is Some <==> info.upward_messages@.len() <= MAX_UPWARD_MESSAGE_NUM
            && info.horizontal_messages@.len() <= MAX_HORIZONTAL_MESSAGE_NUM,
        r matches Some(kept) ==> kept == info,
{
    if info.upward_messages.len() <= MAX_UPWARD_MESSAGE_NUM as usize
        && info.horizontal_messages.len() <= MAX_HORIZONTAL_MESSAGE_NUM as usize {
        Some(info)
    } else {
        None
    }
}

} // verus!
