//! Choosing the parachain blocks that go into one collation.
//!
//! Starting at the included block, blocks are collected that descend from it and were built on
//! the same relay parent as their parent (a child of the included block may have any relay
//! parent). Of the collected blocks, the longest chain that starts at a child of the included
//! block and ends at a collected block without collected children is chosen.
//!
//! The block tree is handed over as a vector of [`TreeBlock`]s, and blocks are named by their
//! index in it.
use vstd::prelude::*;
use crate::hash::Hash256;

verus! {

/// What is known of one block of the parachain's block tree.
pub struct TreeBlock {
    /// The block's number.
    pub number: u64,
    /// Index of the block's parent (the parent hash in its header); any index out of range
    /// stands for a parent that is not in the tree.
    pub parent: usize,
    /// The relay parent that the block's digest names; `None` where the header could not be
    /// read or its digest names none.
    pub relay_parent: Option<Hash256>,
    /// Indices of the block's children; `None` where they could not be read.
    pub children: Option<Vec<usize>>,
}

/// `c` is among the children that `p` lists.
pub open spec fn lists_child(t: Seq<TreeBlock>, p: usize, c: usize) -> bool {
    &&& p < t.len()
    &&& t[p as int].children is Some
    &&& t[p as int].children->0@.contains(c)
}

/// The tree is consistent: listed children exist, name their lister as parent and have a
/// higher number.
pub open spec fn tree_wf(t: Seq<TreeBlock>, root: usize) -> bool {
    &&& root < t.len()
    &&& forall|p: usize, c: usize| #[trigger]
        lists_child(t, p, c) ==> {
            &&& c < t.len()
            &&& t[c as int].parent == p
            &&& t[c as int].number == t[p as int].number + 1
        }
}

/// `c` is collected: it is a child of the included block `root` with a known relay parent, or
/// it is listed by its collected parent and has the same relay parent.
pub open spec fn is_collected(t: Seq<TreeBlock>, root: usize, c: usize) -> bool
    decreases
            (if c < t.len() {
                t[c as int].number as int
            } else {
                0int
            }),
{
    if c < t.len() && t[c as int].relay_parent is Some {
        if lists_child(t, root, c) {
            true
        } else {
            let p = t[c as int].parent;
            &&& p < t.len()
            &&& t[p as int].number < t[c as int].number
            &&& lists_child(t, p, c)
            &&& t[p as int].relay_parent == t[c as int].relay_parent
            &&& is_collected(t, root, p)
        }
    } else {
        false
    }
}

/// `c` was collected as a descendant deeper than the children of the included block.
pub open spec fn is_deeper_collected(t: Seq<TreeBlock>, root: usize, c: usize) -> bool {
    is_collected(t, root, c) && !lists_child(t, root, c)
}

/// Some collected block deeper than the children of `root` has `p` as its parent.
pub open spec fn has_collected_child(t: Seq<TreeBlock>, root: usize, p: usize) -> bool {
    exists|c: usize| #[trigger] is_deeper_collected(t, root, c) && t[c as int].parent == p
}

/// `c` is a collected block that ends a chain of at least two blocks.
pub open spec fn is_chain_end(t: Seq<TreeBlock>, root: usize, c: usize) -> bool {
    is_deeper_collected(t, root, c) && !has_collected_child(t, root, c)
}

/// The chain of collected blocks from a child of `root` down to `c`.
pub open spec fn path_to(t: Seq<TreeBlock>, root: usize, c: usize) -> Seq<usize>
    decreases
            (if c < t.len() {
                t[c as int].number as int
            } else {
                0int
            }),
{
    if c < t.len() && !lists_child(t, root, c) && t[c as int].parent < t.len() && t[t[
    c as int].parent as int].number < t[c as int].number {
        path_to(t, root, t[c as int].parent).push(c)
    } else {
        seq![c]
    }
}

/// Whether `p` lists `c` among its children.
fn lists(t: &Vec<TreeBlock>, p: usize, c: usize) -> (r: bool)
    ensures
        r == lists_child(t@, p, c),
{
    if p >= t.len() {
        return false;
    }
    let v = match &t[p].children {
        None => {
            return false;
        },
        Some(v) => v,
    };
    let mut i: usize = 0;
    while i < v.len()
        invariant
            p < t@.len(),
            t@[p as int].children == Some(*v),
            i <= v.len(),
            forall|k: int| 0 <= k < i ==> v@[k] != c,
        decreases v.len() - i,
    {
        if v[i] == c {
            assert(v@[i as int] == c);
            assert(v@.contains(c));
            return true;
        }
        i = i + 1;
    }
    false
}

/// Whether two relay parents are the same.
fn same_relay_parent(a: &Option<Hash256>, b: &Option<Hash256>) -> (r: bool)
    ensures
        r == (*a == *b),
{
    match (a, b) {
        (Some(x), Some(y)) => *x == *y,
        (None, None) => true,
        _ => false,
    }
}

/// Whether block `c` is collected.
fn collected(t: &Vec<TreeBlock>, root: usize, c: usize) -> (r: bool)
    requires
        tree_wf(t@, root),
    ensures
        r == is_collected(t@, root, c),
{
    let mut cur = c;
    loop
        invariant
            tree_wf(t@, root),
            is_collected(t@, root, c) == is_collected(t@, root, cur),
        decreases
                (if cur < t@.len() {
                    t@[cur as int].number as int
                } else {
                    0int
                }),
    {
        if cur >= t.len() {
            return false;
        }
        if t[cur].relay_parent.is_none() {
            return false;
        }
        if lists(t, root, cur) {
            return true;
        }
        let p = t[cur].parent;
        if p >= t.len() {
            return false;
        }
        if !lists(t, p, cur) {
            return false;
        }
        if !same_relay_parent(&t[p].relay_parent, &t[cur].relay_parent) {
            return false;
        }
        cur = p;
    }
}

/// Whether some collected block deeper than the children of `root` has `p` as its parent.
fn collected_child_exists(t: &Vec<TreeBlock>, root: usize, p: usize) -> (r: bool)
    requires
        tree_wf(t@, root),
    ensures
        r == has_collected_child(t@, root, p),
{
    let mut j: usize = 0;
    while j < t.len()
        invariant
            j <= t.len(),
            tree_wf(t@, root),
            forall|c: usize| c < j ==> !(#[trigger] is_deeper_collected(t@, root, c) && t@[c as int].parent
                == p),
        decreases t.len() - j,
    {
        if t[j].parent == p && collected(t, root, j) && !lists(t, root, j) {
            assert(is_deeper_collected(t@, root, j));
            return true;
        }
        j = j + 1;
    }
    proof {
        assert forall|c: usize| !(#[trigger] is_deeper_collected(t@, root, c) && t@[c as int].parent
            == p) by {
            if c >= t@.len() {
                assert(!is_collected(t@, root, c));
            }
        }
    }
    false
}

/// Every collected block is reached by a chain of collected blocks that starts at a child of the
/// included block `root`, each block the parent of the next, one block per height: the chain is
/// as long as the block is high above the included block.
pub proof fn lemma_path_to_collected(t: Seq<TreeBlock>, root: usize, c: usize)
    requires
        tree_wf(t, root),
        is_collected(t, root, c),
    ensures
        path_to(t, root, c).len() >= 1,
        path_to(t, root, c).last() == c,
        lists_child(t, root, path_to(t, root, c)[0]),
        path_to(t, root, c).len() == t[c as int].number - t[root as int].number,
        forall|i: int|
            0 <= i < path_to(t, root, c).len() ==> is_collected(t, root, #[trigger] path_to(
                t,
                root,
                c,
            )[i]),
        forall|i: int|
            1 <= i < path_to(t, root, c).len() ==> t[#[trigger] path_to(t, root, c)[i] as int].parent
                == path_to(t, root, c)[i - 1],
    decreases t[c as int].number,
{
    if lists_child(t, root, c) {
        assert(path_to(t, root, c) == seq![c]);
        assert(lists_child(t, root, c));
        assert(t[c as int].parent == root);
        assert(t[c as int].number == t[root as int].number + 1);
    } else {
        let p = t[c as int].parent;
        lemma_path_to_collected(t, root, p);
        assert(path_to(t, root, c) == path_to(t, root, p).push(c));
    }
}

/// The blocks of a collation are all built on one relay chain block: every block on the chain
/// of collected blocks down to `c` names the relay parent that `c` names.
pub proof fn lemma_chain_shares_relay_parent(t: Seq<TreeBlock>, root: usize, c: usize)
    requires
        tree_wf(t, root),
        is_collected(t, root, c),
    ensures
        t[c as int].relay_parent is Some,
        forall|i: int|
            0 <= i < path_to(t, root, c).len() ==> t[#[trigger] path_to(t, root, c)[i] as int].relay_parent
                == t[c as int].relay_parent,
    decreases t[c as int].number,
{
    if !lists_child(t, root, c) {
        let p = t[c as int].parent;
        lemma_chain_shares_relay_parent(t, root, p);
        assert(path_to(t, root, c) == path_to(t, root, p).push(c));
        assert forall|i: int| 0 <= i < path_to(t, root, c).len() implies t[#[trigger] path_to(t, root, c)[i] as int].relay_parent
            == t[c as int].relay_parent by {
            if i < path_to(t, root, p).len() {
                assert(path_to(t, root, c)[i] == path_to(t, root, p)[i]);
            }
        }
    } else {
        assert(path_to(t, root, c) == seq![c]);
    }
}

/// The longest chain of collected blocks: it starts at a child of the included block `root`,
/// each block is the parent of the next, and it ends at a collected block without collected
/// children; no such chain is longer. Empty where no such chain of two or more blocks exists.
pub fn longest_chain(t: &Vec<TreeBlock>, root: usize) -> (chain: Vec<usize>)
    requires
        tree_wf(t@, root),
    ensures
        chain@.len() == 0 <==> (forall|c: usize| !#[trigger] is_chain_end(t@, root, c)),
        chain@.len() > 0 ==> {
            &&& is_chain_end(t@, root, chain@.last())
            &&& chain@ == path_to(t@, root, chain@.last())
            &&& forall|c: usize| #[trigger]
                is_chain_end(t@, root, c) ==> t@[c as int].number <= t@[chain@.last() as int].number
        },
{
    let mut best: Option<usize> = None;
    let mut j: usize = 0;
    while j < t.len()
        invariant
            tree_wf(t@, root),
            j <= t.len(),
            match best {
                None => forall|c: usize| c < j ==> !#[trigger] is_chain_end(t@, root, c),
                Some(b) => {
                    &&& b < t.len()
                    &&& is_chain_end(t@, root, b)
                    &&& forall|c: usize|
                        c < j && #[trigger] is_chain_end(t@, root, c) ==> t@[c as int].number
                            <= t@[b as int].number
                },
            },
        decreases t.len() - j,
    {
        if collected(t, root, j) && !lists(t, root, j) && !collected_child_exists(t, root, j) {
            assert(is_chain_end(t@, root, j));
            match best {
                None => {
                    best = Some(j);
                },
                Some(b) => {
                    if t[j].number > t[b].number {
                        best = Some(j);
                    }
                },
            }
        }
        j = j + 1;
    }
    proof {
        assert forall|c: usize| c >= t@.len() implies !#[trigger] is_chain_end(t@, root, c) by {
            assert(!is_collected(t@, root, c));
        }
    }
    match best {
        None => Vec::new(),
        Some(b) => {
            let mut chain: Vec<usize> = Vec::new();
            chain.push(b);
            let mut cur = b;
            proof {
                assert(chain@.skip(1) =~= Seq::<usize>::empty());
                assert(path_to(t@, root, b) =~= path_to(t@, root, cur) + chain@.skip(1));
            }
            while !lists(t, root, cur)
                invariant
                    tree_wf(t@, root),
                    cur < t.len(),
                    is_collected(t@, root, cur),
                    chain@.len() >= 1,
                    chain@[0] == cur,
                    chain@.last() == b,
                    path_to(t@, root, b) == path_to(t@, root, cur) + chain@.skip(1),
                decreases t@[cur as int].number,
            {
                let p = t[cur].parent;
                proof {
                    assert(path_to(t@, root, cur) == path_to(t@, root, p).push(cur));
                }
                let ghost old_chain = chain@;
                chain.insert(0, p);
                proof {
                    assert(chain@.skip(1) =~= old_chain);
                    assert(old_chain =~= seq![cur] + old_chain.skip(1));
                    assert(path_to(t@, root, b) =~= path_to(t@, root, p) + chain@.skip(1));
                }
                cur = p;
            }
            proof {
                assert(path_to(t@, root, cur) == seq![cur]);
                assert(chain@ =~= seq![cur] + chain@.skip(1));
            }
            chain
        },
    }
}

} // verus!
