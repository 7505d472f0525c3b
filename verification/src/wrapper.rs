//! The single-writer wrapper around one chain snapshot, and the billing
//! query: walk the chain from newest toward oldest, collect blocks up to
//! and including the queried user's most recent billing record, and return
//! them as a freshly built sub-chain.

use vstd::prelude::*;

use crate::block::{block_hash, block_valid, zero_hash, Block, BlockV};
use crate::chain::{linkage_ok, Blockchain};
use crate::crypto::{billing_match, matches_query, BillingQuery, BillingQueryV};

verus! {

/// Errors the wrapper reports to the outside: the specific insertion
/// failures collapse into `InvalidBlock`.
#[derive(Debug)]
pub enum BlockchainError {
    /// The block was rejected by the chain.
    InvalidBlock,
    /// The synchronization primitive guarding the chain is poisoned.
    CannotGetLock,
    /// The head of an empty chain was requested.
    EmptyChain,
}

/// The collected prefix of the walk, newest first: all blocks down to and
/// including the first one matching the query. `None` when a genesis-like
/// block is reached without a match.
pub open spec fn billing_walk(s: Seq<BlockV>, q: BillingQueryV) -> Option<Seq<BlockV>>
    decreases s.len(),
{
    if s.len() == 0 {
        Some(Seq::empty())
    } else if billing_match(s[0], q) {
        Some(seq![s[0]])
    } else if s[0].prev_hash == zero_hash() {
        None
    } else {
        match billing_walk(s.skip(1), q) {
            None => None,
            Some(t) => Some(seq![s[0]] + t),
        }
    }
}

/// The abstract values of a sequence of blocks, in the same order.
pub open spec fn views_of(s: Seq<Block>) -> Seq<BlockV> {
    Seq::new(s.len(), |k: int| s[k]@)
}

/// A collected slice can be rebuilt into a chain by inserting its blocks
/// oldest first: every block is individually valid and adjacent blocks
/// link up. This always holds of a slice cut from a valid chain.
pub open spec fn insertable(c: Seq<BlockV>) -> bool {
    &&& forall|i: int| 0 <= i < c.len() ==> block_valid(#[trigger] c[i])
    &&& forall|i: int| 0 <= i && i + 1 < c.len() ==> (#[trigger] c[i]).prev_hash == block_hash(
        c[i + 1],
    )
}

/// Walking a chain whose first `i` blocks neither match the query nor are
/// genesis-like walks on past them.
proof fn lemma_walk_prefix(s: Seq<BlockV>, q: BillingQueryV, i: int)
    requires
        0 <= i <= s.len(),
        forall|k: int| 0 <= k < i ==> !billing_match(#[trigger] s[k], q) && s[k].prev_hash
            != zero_hash(),
    ensures
        billing_walk(s, q) == (match billing_walk(s.skip(i), q) {
            None => None::<Seq<BlockV>>,
            Some(t) => Some(s.take(i) + t),
        }),
    decreases i,
{
    if i == 0 {
        assert(s.skip(0) =~= s);
        match billing_walk(s, q) {
            None => {},
            Some(t) => {
                assert(s.take(0) + t =~= t);
            },
        }
    } else {
        lemma_walk_prefix(s.skip(1), q, i - 1);
        assert(s.skip(1).skip(i - 1) =~= s.skip(i));
        assert(forall|k: int| 0 <= k < i - 1 ==> !billing_match(#[trigger] s.skip(1)[k], q)
            && s.skip(1)[k].prev_hash != zero_hash());
        match billing_walk(s.skip(i), q) {
            None => {},
            Some(t) => {
                assert(seq![s[0]] + (s.skip(1).take(i - 1) + t) =~= s.take(i) + t);
            },
        }
    }
}

/// A chain holding no billing record matching the query, but holding a
/// genesis-like block, yields a null billing result.
pub proof fn lemma_no_billing_returns_none(s: Seq<BlockV>, q: BillingQueryV)
    requires
        forall|i: int| 0 <= i < s.len() ==> !billing_match(#[trigger] s[i], q),
        exists|i: int| 0 <= i < s.len() && (#[trigger] s[i]).prev_hash == zero_hash(),
    ensures
        billing_walk(s, q) is None,
    decreases s.len(),
{
    if s[0].prev_hash != zero_hash() {
        let i = choose|i: int| 0 <= i < s.len() && (#[trigger] s[i]).prev_hash == zero_hash();
        assert(s.skip(1)[i - 1].prev_hash == zero_hash());
        lemma_no_billing_returns_none(s.skip(1), q);
    }
}

/// The walk stops at the queried user's most recent billing record: if the
/// blocks newer than position `i` neither match nor are genesis-like and
/// the block at `i` matches, the walk returns exactly the blocks down to
/// `i`, whose oldest element is that billing record.
pub proof fn lemma_walk_stops_at_first_billing(s: Seq<BlockV>, q: BillingQueryV, i: int)
    requires
        0 <= i < s.len(),
        billing_match(s[i], q),
        forall|k: int| 0 <= k < i ==> !billing_match(#[trigger] s[k], q) && s[k].prev_hash
            != zero_hash(),
    ensures
        billing_walk(s, q) == Some(s.take(i + 1)),
        s.take(i + 1).last() == s[i],
    decreases s.len(),
{
    lemma_walk_prefix(s, q, i);
    assert(s.skip(i)[0] == s[i]);
    assert(s.take(i) + seq![s[i]] =~= s.take(i + 1));
}

/// Whatever the walk collects is a prefix of the chain, newest first.
proof fn lemma_walk_is_prefix(s: Seq<BlockV>, q: BillingQueryV)
    ensures
        billing_walk(s, q) matches Some(c) ==> c.len() <= s.len() && c == s.take(c.len() as int),
    decreases s.len(),
{
    if s.len() == 0 {
    } else if billing_match(s[0], q) {
        assert(seq![s[0]] =~= s.take(1));
    } else if s[0].prev_hash == zero_hash() {
    } else {
        lemma_walk_is_prefix(s.skip(1), q);
        match billing_walk(s.skip(1), q) {
            None => {},
            Some(t) => {
                assert(seq![s[0]] + t =~= s.take(t.len() as int + 1));
            },
        }
    }
}

/// On a fully valid chain the rebuild step of the billing query cannot
/// fail: whatever the walk collects can be inserted back, oldest first,
/// into an empty chain.
pub proof fn lemma_walk_of_valid_chain_is_insertable(s: Seq<BlockV>, q: BillingQueryV)
    requires
        crate::chain::chain_fully_valid(s),
    ensures
        billing_walk(s, q) matches Some(c) ==> insertable(c),
{
    lemma_walk_is_prefix(s, q);
    match billing_walk(s, q) {
        None => {},
        Some(c) => {
            assert forall|i: int| 0 <= i < c.len() implies block_valid(#[trigger] c[i]) by {
                if i > 0 {
                    assert(crate::chain::link_ok(s[i - 1], s[i]));
                }
            }
            assert forall|i: int| 0 <= i && i + 1 < c.len() implies (#[trigger] c[i]).prev_hash
                == block_hash(c[i + 1]) by {
                assert(crate::chain::link_ok(s[i], s[i + 1]));
            }
        },
    }
}

/// Wrapper holding one chain snapshot. The caller guards it with a
/// readers-writer primitive; every mutation goes through `append`, which
/// replaces the snapshot only after a successful insert.
pub struct WrappedChain {
    chain: Blockchain,
}

impl View for WrappedChain {
    type V = Seq<BlockV>;

    closed spec fn view(&self) -> Seq<BlockV> {
        self.chain@
    }
}

impl WrappedChain {
    /// Wraps a blockchain.
    pub fn new(chain: Blockchain) -> (r: Self)
        ensures
            r@ == chain@,
    {
        Self { chain }
    }

    /// Appends a block by replacing the wrapped snapshot. On an insertion
    /// failure the snapshot is unchanged and the specific error collapses
    /// into `InvalidBlock`.
    pub fn append(&mut self, block: Block) -> (r: Result<(), BlockchainError>)
        requires
            old(self)@.len() < usize::MAX,
        ensures
            match r {
                Ok(()) => linkage_ok(old(self)@, block@) && block_valid(block@) && final(self)@
                    == seq![block@] + old(self)@,
                Err(e) => {
                    &&& !(linkage_ok(old(self)@, block@) && block_valid(block@))
                    &&& e is InvalidBlock
                    &&& final(self)@ == old(self)@
                },
            },
    {
        match self.chain.insert(block) {
            Ok(new_chain) => {
                self.chain = new_chain;
                Ok(())
            },
            Err(_) => Err(BlockchainError::InvalidBlock),
        }
    }

    /// Returns the length of the wrapped chain.
    pub fn len(&self) -> (r: usize)
        ensures
            r == self@.len(),
    {
        self.chain.len()
    }

    /// Returns a reference to the wrapped chain snapshot.
    pub fn snapshot(&self) -> (r: &Blockchain)
        ensures
            r@ == self@,
    {
        &self.chain
    }

    /// Returns a copy of the latest block, if any.
    pub fn latest_block(&self) -> (r: Option<Block>)
        ensures
            self@.len() == 0 ==> r is None,
            self@.len() > 0 ==> (r matches Some(b) && b@ == self@[0]),
    {
        match self.chain.tail().0 {
            Some(b) => Some(b.clone()),
            None => None,
        }
    }

    /// Returns a cursor over the wrapped chain's blocks, newest first.
    pub fn iter(&self) -> (r: crate::stack::Iter<'_, Block>)
        ensures
            r@.len() == self@.len(),
            forall|i: int| 0 <= i < r@.len() ==> r@[i]@ == self@[i],
    {
        self.chain.iter()
    }

    /// The billing query: walks the chain from newest toward oldest,
    /// collecting blocks up to and including the first billing record that
    /// matches the queried user and validates under the supplied signee
    /// key. The collected blocks are returned as a freshly built chain in
    /// the same newest-first order. Returns null when a genesis-like block
    /// is reached without a match, or when rebuilding fails because the
    /// collected slice was not valid.
    #[verifier::rlimit(100)]
    #[verifier::spinoff_prover]
    pub fn last_billing(&self, query: &BillingQuery) -> (r: Option<Blockchain>)
        ensures
            match billing_walk(self@, query@) {
                None => r is None,
                Some(c) => if insertable(c) {
                    r matches Some(sub) && sub@ == c
                } else {
                    r is None
                },
            },
    {
        let refs = self.chain.block_refs();
        let n = refs.len();
        let mut collected: Vec<Block> = Vec::new();
        let mut i: usize = 0;
        while i < n
            invariant
                n == refs@.len(),
                refs@.len() == self@.len(),
                forall|k: int| 0 <= k < refs@.len() ==> refs@[k]@ == self@[k],
                i <= n,
                collected@.len() == i,
                forall|k: int| 0 <= k < i ==> collected@[k]@ == self@[k],
                forall|k: int| 0 <= k < i ==> !billing_match(#[trigger] self@[k], query@)
                    && self@[k].prev_hash != zero_hash(),
            decreases n - i,
        {
            collected.push(refs[i].clone());
            if matches_query(refs[i], query) {
                proof {
                    lemma_walk_stops_at_first_billing(self@, query@, i as int);
                    assert(views_of(collected@) =~= self@.take(i as int + 1));
                }
                return rebuild(collected);
            }
            if refs[i].is_genesis() {
                proof {
                    lemma_walk_prefix(self@, query@, i as int);
                    assert(self@.skip(i as int)[0] == self@[i as int]);
                    assert(billing_walk(self@.skip(i as int), query@) is None);
                }
                return None;
            }
            i = i + 1;
        }
        proof {
            lemma_walk_prefix(self@, query@, n as int);
            assert(self@.skip(n as int) =~= Seq::<BlockV>::empty());
            assert(self@.take(n as int) + Seq::<BlockV>::empty() =~= self@);
            assert(views_of(collected@) =~= self@);
        }
        rebuild(collected)
    }
}

/// Rebuilds a chain from collected blocks, newest first, by inserting them
/// oldest first into an empty chain. Returns null as soon as an insert is
/// rejected, which cannot happen when the blocks came from a valid chain.
fn rebuild(blocks: Vec<Block>) -> (r: Option<Blockchain>)
    ensures
        r is Some <==> insertable(views_of(blocks@)),
        r matches Some(c) ==> c@ == views_of(blocks@),
{
    let ghost views = views_of(blocks@);
    let total: usize = blocks.len();
    let mut j: usize = total;
    let mut chain = Blockchain::new();
    while j > 0
        invariant
            views == views_of(blocks@),
            views.len() == total,
            blocks@.len() == total,
            forall|k: int| 0 <= k < views.len() ==> views[k] == blocks@[k]@,
            j <= total,
            chain@.len() == views.len() - j,
            chain@ == views.skip(j as int),
            forall|k: int| j <= k < views.len() ==> block_valid(#[trigger] views[k]),
            forall|k: int| j <= k && k + 1 < views.len() ==> (#[trigger] views[k]).prev_hash
                == block_hash(views[k + 1]),
        decreases j,
    {
        j = j - 1;
        let b = blocks[j].clone();
        proof {
            assert(b@ == views[j as int]);
        }
        match chain.insert(b) {
            Ok(c) => {
                proof {
                    assert(c@ =~= views.skip(j as int));
                }
                chain = c;
            },
            Err(_) => {
                proof {
                    let k = j as int;
                    if !block_valid(b@) {
                        assert(!insertable(views));
                    } else {
                        assert(!linkage_ok(chain@, b@));
                        assert(chain@.len() > 0);
                        assert(chain@[0] == views[k + 1]);
                        assert(views[k].prev_hash != block_hash(views[k + 1]));
                        assert(!insertable(views));
                    }
                }
                return None;
            },
        }
    }
    proof {
        assert(views.skip(0) =~= views);
    }
    Some(chain)
}

} // verus!
