//! A bounded, least-recently-used index from relay chain storage roots to relay block hashes,
//! and finding the relay parent of a parachain block with it.
use vstd::prelude::*;
use schnellru::{ByLength, LruMap, RandomState};
use crate::hash::Hash256;

verus! {

/// A storage root or block hash as the tuple of its words.
pub type RootKey = (u64, u64, u64, u64);

/// A `schnellru::LruMap` from storage roots to block hashes, limited by length.
#[verifier::external_body]
pub struct RootLru {
    map: LruMap<RootKey, Hash256, ByLength, RandomState>,
}

/// The entries of a storage-root index.
pub uninterp spec fn lru_contents(m: RootLru) -> Map<
    RootKey,
    Hash256,
>;

/// The length limit a storage-root index was made with.
pub uninterp spec fn lru_max_length(m: RootLru) -> u32;

/// The keys of a storage-root index in the order of their last use, least recently used first.
pub uninterp spec fn lru_recency(m: RootLru) -> Seq<RootKey>;

/// The recency order holds each key of the entries once, and nothing else.
pub open spec fn recency_matches(m: RootLru) -> bool {
    &&& lru_recency(m).no_duplicates()
    &&& forall|x: RootKey| #[trigger] lru_contents(m).contains_key(x) <==> lru_recency(m).contains(x)
}

/// A recency order without the key `k`.
pub open spec fn without_key(order: Seq<RootKey>, k: RootKey) -> Seq<RootKey> {
    order.filter(|x: RootKey| x != k)
}

/// `LruMap::new(ByLength::new(max_length))`: an empty map that holds at most `max_length`
/// entries.
#[verifier::external_body]
fn lru_new(max_length: u32) -> (m: RootLru)
    ensures
        lru_contents(m).dom() == Set::<RootKey>::empty(),
        lru_recency(m) == Seq::<RootKey>::empty(),
        lru_max_length(m) == max_length,
{
    RootLru { map: LruMap::new(ByLength::new(max_length)) }
}

/// `LruMap::insert` with a `ByLength` limiter. When it reports success the key maps to the
/// value and is the most recently used; every entry afterwards is the new one or an entry that
/// was there before, unchanged; the entries evicted are the least recently used ones (the map
/// pops its oldest entries to stay within its limit, and more of them where it cannot grow);
/// replacing the value of a present key always succeeds where the limit is not zero; the map
/// never holds more entries than its limit. Whether a new key is taken is left open: the map
/// refuses it where it cannot allocate room, which depends on the machine.
#[verifier::external_body]
fn lru_insert(m: &mut RootLru, k: RootKey, v: Hash256) -> (r:
    bool)
    ensures
        lru_max_length(*final(m)) == lru_max_length(*old(m)),
        r ==> lru_contents(*final(m)).contains_key(k) && lru_contents(*final(m))[k] == v,
        forall|x: RootKey| #[trigger]
            lru_contents(*final(m)).contains_key(x) ==> if x == k {
                lru_contents(*final(m))[x] == v
            } else {
                lru_contents(*old(m)).contains_key(x) && lru_contents(*final(m))[x] == lru_contents(
                    *old(m),
                )[x]
            },
        lru_max_length(*old(m)) > 0 && lru_contents(*old(m)).contains_key(k) ==> r,
        lru_contents(*final(m)).dom().finite(),
        lru_contents(*final(m)).dom().len() <= lru_max_length(*final(m)),
        recency_matches(*final(m)),
        exists|evicted: int|
            0 <= evicted <= without_key(lru_recency(*old(m)), k).len() && #[trigger] lru_recency(*final(m))
                == without_key(lru_recency(*old(m)), k).skip(evicted) + (if r {
                seq![k]
            } else {
                Seq::<RootKey>::empty()
            }),
{
    m.map.insert(k, v)
}

/// `LruMap::get`: the value of a key, if present. It marks the entry as most recently used and
/// leaves the entries themselves unchanged.
#[verifier::external_body]
fn lru_get(m: &mut RootLru, k: RootKey) -> (r: Option<
    Hash256,
>)
    ensures
        lru_contents(*final(m)) == lru_contents(*old(m)),
        lru_max_length(*final(m)) == lru_max_length(*old(m)),
        recency_matches(*final(m)),
        lru_recency(*final(m)) == if lru_contents(*old(m)).contains_key(k) {
            without_key(lru_recency(*old(m)), k).push(k)
        } else {
            lru_recency(*old(m))
        },
        r == if lru_contents(*old(m)).contains_key(k) {
            Some(lru_contents(*old(m))[k])
        } else {
            None
        },
{
    m.map.get(&k).copied()
}

/// Relay block hashes by their storage root, for the most recently seen relay blocks.
pub struct RelayRootIndex {
    map: RootLru,
}

/// `after` is `before` with `state_root` recorded as the root of `block_hash`, reporting `r`:
/// the capacity is kept; on success the root maps to the block and is the most recently used;
/// every root afterwards maps to that block or is an earlier root with its earlier block; the
/// roots evicted are the least recently used ones; replacing a known root succeeds where the
/// capacity is not zero; the index never exceeds its capacity.
pub open spec fn recorded(before: RelayRootIndex, after: RelayRootIndex, state_root: Hash256, block_hash: Hash256, r: bool) -> bool {
    &&& after.capacity() == before.capacity()
    &&& r ==> after.view().contains_key(state_root.words()) && after.view()[state_root.words()] == block_hash
    &&& forall|x: RootKey| #[trigger]
        after.view().contains_key(x) ==> if x == state_root.words() {
            after.view()[x] == block_hash
        } else {
            before.view().contains_key(x) && after.view()[x] == before.view()[x]
        }
    &&& before.capacity() > 0 && before.view().contains_key(state_root.words()) ==> r
    &&& after.view().dom().len() <= after.capacity()
    &&& after.recency_consistent()
    &&& exists|evicted: int|
        0 <= evicted <= without_key(before.recency(), state_root.words()).len() && #[trigger] after.recency()
            == without_key(before.recency(), state_root.words()).skip(evicted) + (if r {
            seq![state_root.words()]
        } else {
            Seq::<RootKey>::empty()
        })
}

impl RelayRootIndex {
    /// The storage roots known, with the hash of the block of each.
    pub closed spec fn view(&self) -> Map<RootKey, Hash256> {
        lru_contents(self.map)
    }

    /// The number of storage roots the index keeps at most.
    pub closed spec fn capacity(&self) -> u32 {
        lru_max_length(self.map)
    }

    /// The storage roots known, least recently used first.
    pub closed spec fn recency(&self) -> Seq<RootKey> {
        lru_recency(self.map)
    }

    /// The recency order holds each known root once, and nothing else.
    pub open spec fn recency_consistent(&self) -> bool {
        &&& self.recency().no_duplicates()
        &&& forall|x: RootKey| #[trigger] self.view().contains_key(x) <==> self.recency().contains(x)
    }

    /// An empty index that keeps at most `capacity` storage roots.
    pub fn new(capacity: u32) -> (r: RelayRootIndex)
        ensures
            r.view().dom() == Set::<RootKey>::empty(),
            r.recency() == Seq::<RootKey>::empty(),
            r.capacity() == capacity,
    {
        RelayRootIndex { map: lru_new(capacity) }
    }

    /// Record that the relay block `block_hash` has the storage root `state_root`. When this
    /// reports success the root maps to the block afterwards; other roots keep their block or are
    /// evicted.
    pub fn insert(&mut self, state_root: Hash256, block_hash: Hash256) -> (r: bool)
        ensures
            recorded(*old(self), *final(self), state_root, block_hash, r),
    {
        let ghost before = *self;
        let k = (state_root.w0, state_root.w1, state_root.w2, state_root.w3);
        let r = lru_insert(&mut self.map, k, block_hash);
        proof {
            let evicted = choose|evicted: int|
                0 <= evicted <= without_key(lru_recency(before.map), k).len() && #[trigger] lru_recency(self.map)
                    == without_key(lru_recency(before.map), k).skip(evicted) + (if r {
                    seq![k]
                } else {
                    Seq::<RootKey>::empty()
                });
            assert(self.recency() == without_key(before.recency(), state_root.words()).skip(evicted) + (
            if r {
                seq![state_root.words()]
            } else {
                Seq::<RootKey>::empty()
            }));
        }
        r
    }

    /// The block with storage root `state_root`, if the index knows it.
    pub fn lookup(&mut self, state_root: Hash256) -> (r: Option<Hash256>)
        ensures
            final(self).view() == old(self).view(),
            final(self).capacity() == old(self).capacity(),
            final(self).recency_consistent(),
            final(self).recency() == if old(self).view().contains_key(state_root.words()) {
                without_key(old(self).recency(), state_root.words()).push(state_root.words())
            } else {
                old(self).recency()
            },
            r == found_by_root(*old(self), state_root),
    {
        lru_get(&mut self.map, (state_root.w0, state_root.w1, state_root.w2, state_root.w3))
    }

    /// The relay parent of a parachain block: the one its digest names, where it names one;
    /// else the block whose storage root the digest names, where the index knows it.
    pub fn extract_relay_parent(
        &mut self,
        digest_relay_parent: Option<Hash256>,
        digest_storage_root: Option<Hash256>,
    ) -> (r: Option<Hash256>)
        ensures
            final(self).view() == old(self).view(),
            final(self).capacity() == old(self).capacity(),
            r == relay_parent_of(*old(self), digest_relay_parent, digest_storage_root),
    {
        if let Some(parent) = digest_relay_parent {
            return Some(parent);
        }
        match digest_storage_root {
            Some(root) => self.lookup(root),
            None => None,
        }
    }
}

/// The block the index holds for a storage root, if it knows the root.
pub open spec fn found_by_root(index: RelayRootIndex, state_root: Hash256) -> Option<Hash256> {
    if index.view().contains_key(state_root.words()) {
        Some(index.view()[state_root.words()])
    } else {
        None
    }
}

/// The relay parent that a digest gives: the relay parent it names, else the block the index
/// holds for the storage root it names.
pub open spec fn relay_parent_of(
    index: RelayRootIndex,
    digest_relay_parent: Option<Hash256>,
    digest_storage_root: Option<Hash256>,
) -> Option<Hash256> {
    match digest_relay_parent {
        Some(parent) => Some(parent),
        None => match digest_storage_root {
            Some(root) => found_by_root(index, root),
            None => None,
        },
    }
}

/// A relay block recorded under its storage root is found by it: after an `insert` of `root` and
/// `block` that reports success, a `lookup` of `root` gives `block`, and so does
/// `extract_relay_parent` for a digest that names only that storage root.
pub proof fn lemma_recorded_root_is_found(
    before: RelayRootIndex,
    after: RelayRootIndex,
    root: Hash256,
    block: Hash256,
)
    requires
        recorded(before, after, root, block, true),
    ensures
        found_by_root(after, root) == Some(block),
        relay_parent_of(after, None, Some(root)) == Some(block),
        after.recency().len() > 0 && after.recency().last() == root.words(),
{
    let evicted = choose|evicted: int|
        0 <= evicted <= without_key(before.recency(), root.words()).len() && #[trigger] after.recency()
            == without_key(before.recency(), root.words()).skip(evicted) + seq![root.words()];
    assert(after.recency() == without_key(before.recency(), root.words()).skip(evicted) + seq![root.words()]);
}

} // verus!
