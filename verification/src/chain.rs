//! The blockchain: a persistent stack of blocks enforcing hash linkage,
//! version and difficulty on insertion, with validation, mining-based
//! appending, and a deterministic encoding of whole chains that decodes
//! back to the same chain.

use vstd::prelude::*;

use crate::block::{
    block_enc, block_hash, block_valid, block_wf, dec_block, decode_block, with_nonce, zero_hash,
    Block, BlockV, VERSION,
};
use crate::codec::{dec_u64, encode_u64, eq32, push_bytes, read_u64, u64_le};
use crate::stack::Stack;
use crate::tx::{SignedData, SignedDataV};

verus! {

/// Enumeration of errors that can occur when working with the blockchain.
#[derive(Debug)]
pub enum BlockchainError {
    /// The hash of a block does not match its difficulty: carries the hash
    /// and the difficulty it missed.
    InvalidBlockHash([u8; 32], usize),
    /// The `prev_hash` field does not match the previous block: carries the
    /// observed predecessor hash and the expected one.
    InvalidPrevHash([u8; 32], [u8; 32]),
    /// An unknown version number.
    UnknownVersion(u8),
}

/// Errors that can occur when persisting or loading a blockchain.
#[derive(Debug)]
pub enum PersistingError {
    /// Deserialization failed.
    DeserializingError,
    /// Serialization failed.
    SerializingError,
    /// An IO error occurred.
    IoError,
}

/// One adjacent pair of the chain is in order: the newer block links to the
/// older one's hash, time does not decrease, and the older block is
/// individually valid.
pub open spec fn link_ok(newer: BlockV, older: BlockV) -> bool {
    &&& newer.prev_hash == block_hash(older)
    &&& newer.time >= older.time
    &&& block_valid(older)
}

/// A valid chain: every adjacent pair, newest first, is in order. The
/// newest block itself is not separately checked.
pub open spec fn chain_valid(s: Seq<BlockV>) -> bool {
    forall|i: int| 0 <= i && i + 1 < s.len() ==> link_ok(#[trigger] s[i], s[i + 1])
}

/// A valid chain whose newest block is itself valid: the shape every chain
/// built through `insert` has.
pub open spec fn chain_fully_valid(s: Seq<BlockV>) -> bool {
    chain_valid(s) && (s.len() > 0 ==> block_valid(s[0]))
}

/// A block may be linked onto the chain: either the chain is empty, or the
/// block names the current head's hash as its predecessor.
pub open spec fn linkage_ok(s: Seq<BlockV>, b: BlockV) -> bool {
    s.len() == 0 || b.prev_hash == block_hash(s[0])
}

/// The predecessor hash a freshly generated block carries on this chain.
pub open spec fn next_prev_hash(s: Seq<BlockV>) -> Seq<u8> {
    if s.len() == 0 {
        zero_hash()
    } else {
        block_hash(s[0])
    }
}

/// The block that mining for this chain would test with the given time and
/// nonce.
pub open spec fn mining_candidate(
    s: Seq<BlockV>,
    data: SignedDataV,
    difficulty: usize,
    time: u64,
    nonce: u64,
) -> BlockV {
    BlockV {
        version: VERSION,
        prev_hash: next_prev_hash(s),
        time,
        difficulty,
        nonce,
        data,
    }
}

/// Mining for this chain at one time value found no nonce at all whose
/// hash satisfies the difficulty: the exhaustion case of `append`.
pub open spec fn mining_exhausted(
    s: Seq<BlockV>,
    data: SignedDataV,
    difficulty: usize,
    time: u64,
) -> bool {
    forall|n: u64|
        !crate::block::meets_difficulty(
            block_hash(#[trigger] mining_candidate(s, data, difficulty, time, n)),
            difficulty as nat,
        )
}

/// A freshly generated block for this chain: current version, the declared
/// difficulty and payload, and linked to the head (or genesis-like).
pub open spec fn generated_ok(s: Seq<BlockV>, b: BlockV, data: SignedDataV, difficulty: usize) -> bool {
    &&& b.version == VERSION
    &&& b.difficulty == difficulty
    &&& b.data == data
    &&& b.prev_hash == next_prev_hash(s)
}

/// The encoding of a sequence of blocks, newest first.
pub open spec fn blocks_enc(s: Seq<BlockV>) -> Seq<u8>
    decreases s.len(),
{
    if s.len() == 0 {
        Seq::empty()
    } else {
        block_enc(s[0]) + blocks_enc(s.skip(1))
    }
}

/// The encoding of a chain: a 64-bit count, then the blocks newest first.
pub open spec fn chain_enc(s: Seq<BlockV>) -> Seq<u8> {
    u64_le(s.len() as u64) + blocks_enc(s)
}

/// Consumes `n` blocks from the front of `s`.
pub open spec fn dec_blocks(s: Seq<u8>, n: nat) -> Option<(Seq<BlockV>, Seq<u8>)>
    decreases n,
{
    if n == 0 {
        Some((Seq::empty(), s))
    } else {
        match dec_block(s) {
            None => None,
            Some((b, r)) => match dec_blocks(r, (n - 1) as nat) {
                None => None,
                Some((bs, r2)) => Some((seq![b] + bs, r2)),
            },
        }
    }
}

/// Decodes a chain: a 64-bit count, then that many blocks. Bytes after the
/// last block are ignored, as a stream reader would leave them unread.
pub open spec fn dec_chain(s: Seq<u8>) -> Option<Seq<BlockV>> {
    match dec_u64(s) {
        None => None,
        Some((n, r)) => match dec_blocks(r, n as nat) {
            None => None,
            Some((bs, _)) => Some(bs),
        },
    }
}

/// Reading `n` blocks undoes writing them.
#[verifier::rlimit(100)]
#[verifier::spinoff_prover]
pub proof fn lemma_dec_blocks_of(s: Seq<BlockV>, rest: Seq<u8>)
    requires
        forall|i: int| 0 <= i < s.len() ==> block_wf(#[trigger] s[i]),
    ensures
        dec_blocks(blocks_enc(s) + rest, s.len()) == Some((s, rest)),
    decreases s.len(),
{
    if s.len() == 0 {
        assert(blocks_enc(s) + rest =~= rest);
    } else {
        assert(blocks_enc(s) + rest =~= block_enc(s[0]) + (blocks_enc(s.skip(1)) + rest));
        crate::block::lemma_dec_block_of(s[0], blocks_enc(s.skip(1)) + rest);
        lemma_dec_blocks_of(s.skip(1), rest);
        assert(seq![s[0]] + s.skip(1) =~= s);
    }
}

/// Serialization round-trip: decoding the encoding of any chain of
/// well-formed blocks yields that chain again.
pub proof fn lemma_chain_round_trip(s: Seq<BlockV>)
    requires
        s.len() <= u64::MAX,
        forall|i: int| 0 <= i < s.len() ==> block_wf(#[trigger] s[i]),
    ensures
        dec_chain(chain_enc(s)) == Some(s),
{
    crate::codec::lemma_dec_u64_of(s.len() as u64, blocks_enc(s));
    assert(chain_enc(s) =~= u64_le(s.len() as u64) + blocks_enc(s));
    lemma_dec_blocks_of(s, Seq::empty());
    assert(blocks_enc(s) + Seq::<u8>::empty() =~= blocks_enc(s));
}

/// Appending a freshly validated block onto a fully valid chain keeps the
/// chain fully valid, provided the new block's time does not precede the
/// head's.
pub proof fn lemma_append_preserves_validity(s: Seq<BlockV>, b: BlockV)
    requires
        chain_fully_valid(s),
        linkage_ok(s, b),
        block_valid(b),
        s.len() > 0 ==> b.time >= s[0].time,
    ensures
        chain_fully_valid(seq![b] + s),
{
    let t = seq![b] + s;
    assert forall|i: int| 0 <= i && i + 1 < t.len() implies link_ok(#[trigger] t[i], t[i + 1]) by {
        if i == 0 {
            assert(t[0] == b && t[1] == s[0]);
        } else {
            assert(t[i] == s[i - 1] && t[i + 1] == s[i]);
        }
    }
}

/// Encoding one more block extends the encoding of the blocks before it.
proof fn lemma_blocks_enc_take(s: Seq<BlockV>, i: int)
    requires
        0 <= i < s.len(),
    ensures
        blocks_enc(s.take(i + 1)) == blocks_enc(s.take(i)) + block_enc(s[i]),
    decreases i,
{
    if i == 0 {
        assert(s.take(1) =~= seq![s[0]]);
        assert(s.take(0) =~= Seq::<BlockV>::empty());
        assert(seq![s[0]].skip(1) =~= Seq::<BlockV>::empty());
        assert(blocks_enc(s.take(0)) + block_enc(s[0]) =~= block_enc(s[0]));
    } else {
        lemma_blocks_enc_take(s.skip(1), i - 1);
        assert(s.take(i + 1).skip(1) =~= s.skip(1).take(i));
        assert(s.take(i).skip(1) =~= s.skip(1).take(i - 1));
        assert(s.skip(1)[i - 1] == s[i]);
        assert(s.take(i + 1)[0] == s[0]);
        assert(s.take(i)[0] == s[0]);
        assert(blocks_enc(s.take(i)) + block_enc(s[i]) =~= block_enc(s[0]) + (blocks_enc(s.skip(
            1,
        ).take(i - 1)) + block_enc(s[i])));
    }
}

/// The blockchain: an immutable persistent stack of blocks, newest first.
pub struct Blockchain {
    blocks: Stack<Block>,
}

impl View for Blockchain {
    type V = Seq<BlockV>;

    closed spec fn view(&self) -> Seq<BlockV> {
        self.blocks@.map_values(|b: Block| b@)
    }
}

impl Blockchain {
    /// Creates a new, empty blockchain.
    pub fn new() -> (r: Self)
        ensures
            r@ == Seq::<BlockV>::empty(),
    {
        let r = Blockchain { blocks: Stack::new() };
        proof {
            assert(r@ =~= Seq::<BlockV>::empty());
        }
        r
    }

    /// Returns the length of the blockchain in constant time.
    pub fn len(&self) -> (r: usize)
        ensures
            r == self@.len(),
    {
        self.blocks.len()
    }

    /// Removes the latest block from the blockchain: returns a reference to
    /// it (if any) together with the chain of the remaining blocks. The
    /// receiver is unchanged.
    pub fn tail(&self) -> (r: (Option<&Block>, Blockchain))
        ensures
            self@.len() == 0 ==> r.0 is None && r.1@ == self@,
            self@.len() > 0 ==> (r.0 matches Some(b) && b@ == self@[0]) && r.1@ == self@.skip(1),
    {
        let t = self.blocks.tail();
        let r = (t.0, Blockchain { blocks: t.1 });
        proof {
            if self@.len() == 0 {
                assert(r.1@ =~= self@);
            } else {
                assert(r.1@ =~= self@.skip(1));
            }
        }
        r
    }

    /// Returns a cursor over the blocks, newest first.
    pub fn iter(&self) -> (r: crate::stack::Iter<'_, Block>)
        ensures
            r@.len() == self@.len(),
            forall|i: int| 0 <= i < r@.len() ==> r@[i]@ == self@[i],
    {
        self.blocks.iter()
    }

    /// Collects references to all blocks, newest first.
    pub(crate) fn block_refs(&self) -> (r: Vec<&Block>)
        ensures
            r@.len() == self@.len(),
            forall|i: int| 0 <= i < r@.len() ==> r@[i]@ == self@[i],
    {
        let mut v: Vec<&Block> = Vec::new();
        let mut it = self.blocks.iter();
        let mut cur = it.next();
        proof {
            if cur is Some {
                assert(it@ =~= self.blocks@.skip(1));
            }
        }
        while cur.is_some()
            invariant
                v@.len() <= self.blocks@.len(),
                self@.len() == self.blocks@.len(),
                forall|i: int| 0 <= i < v@.len() ==> v@[i]@ == self@[i],
                match cur {
                    Some(b) => v@.len() < self.blocks@.len() && *b == self.blocks@[v@.len() as int]
                        && it@ == self.blocks@.skip(v@.len() as int + 1),
                    None => v@.len() == self.blocks@.len(),
                },
            decreases self.blocks@.len() - v@.len(),
        {
            let b = cur.unwrap();
            v.push(b);
            let ghost prev_rest = it@;
            cur = it.next();
            proof {
                if cur is Some {
                    assert(prev_rest[0] == self.blocks@[v@.len() as int]);
                    assert(prev_rest.skip(1) =~= self.blocks@.skip(v@.len() as int + 1));
                }
            }
        }
        v
    }

    /// Appends a block with difficulty 0 and a zero predecessor hash to the
    /// chain without any checking. This may corrupt the blockchain; it is a
    /// diagnostic back door, and production callers use `insert`.
    pub fn unchecked_append(&self, data: SignedData) -> (r: Self)
        requires
            self@.len() < usize::MAX,
        ensures
            r@.len() == self@.len() + 1,
            r@.skip(1) == self@,
            r@[0].version == VERSION,
            r@[0].difficulty == 0,
            r@[0].nonce == 0,
            r@[0].prev_hash == zero_hash(),
            r@[0].data == data@,
    {
        let block = Block::new(data, 0);
        let r = Blockchain { blocks: self.blocks.append(block) };
        proof {
            assert(r@ =~= seq![block@] + self@);
            assert(r@.skip(1) =~= self@);
        }
        r
    }

    /// Validates the blockchain: walks it newest to oldest and checks that
    /// every adjacent pair is in order (linkage, non-decreasing time, and
    /// individual validity of the older block).
    pub fn validate_chain(&self) -> (r: bool)
        ensures
            r == chain_valid(self@),
    {
        let refs = self.block_refs();
        let n = refs.len();
        if n == 0 {
            return true;
        }
        let mut i: usize = 0;
        while i + 1 < n
            invariant
                n == refs@.len(),
                refs@.len() == self@.len(),
                forall|k: int| 0 <= k < refs@.len() ==> refs@[k]@ == self@[k],
                i < n,
                forall|j: int| 0 <= j && j + 1 <= i ==> link_ok(#[trigger] self@[j], self@[j + 1]),
            decreases n - i,
        {
            if !check_pair(refs[i], refs[i + 1]) {
                proof {
                    assert(!link_ok(self@[i as int], self@[i as int + 1]));
                }
                return false;
            }
            i = i + 1;
        }
        true
    }

    /// Appends a block to the blockchain after validating it. On success a
    /// new chain is returned; on failure the most specific error, and the
    /// chain is unchanged. The checks, in order: the block must link to the
    /// current head (an empty chain accepts any predecessor hash), carry the
    /// current version, and satisfy its declared difficulty. Time is not
    /// checked here; only `validate_chain` enforces it.
    pub fn insert(&self, block: Block) -> (r: Result<Blockchain, BlockchainError>)
        requires
            self@.len() < usize::MAX,
        ensures
            match r {
                Ok(c) => linkage_ok(self@, block@) && block_valid(block@) && c@ == seq![block@]
                    + self@,
                Err(e) => {
                    &&& !(linkage_ok(self@, block@) && block_valid(block@))
                    &&& (e matches BlockchainError::InvalidPrevHash(observed, expected) ==> {
                        &&& !linkage_ok(self@, block@)
                        &&& observed@ == block@.prev_hash
                        &&& self@.len() > 0 && expected@ == block_hash(self@[0])
                    })
                    &&& (e matches BlockchainError::UnknownVersion(v) ==> linkage_ok(self@, block@)
                        && block@.version != VERSION && v == block@.version)
                    &&& (e matches BlockchainError::InvalidBlockHash(h, d) ==> {
                        &&& linkage_ok(self@, block@)
                        &&& block@.version == VERSION
                        &&& !meets_difficulty_of(block@)
                        &&& h@ == block_hash(block@)
                        &&& d == block@.difficulty
                    })
                },
            },
    {
        match self.blocks.head() {
            Some(head) => {
                let head_hash = head.hash();
                proof {
                    assert(head@ == self@[0]);
                }
                if !eq32(block.prev_hash(), &head_hash) {
                    return Err(
                        BlockchainError::InvalidPrevHash(*block.prev_hash(), head_hash),
                    );
                }
            },
            None => {},
        }
        if block.version() != VERSION {
            return Err(BlockchainError::UnknownVersion(block.version()));
        }
        if !block.validate_difficulty() {
            return Err(BlockchainError::InvalidBlockHash(block.hash(), block.difficulty()));
        }
        let r = Blockchain { blocks: self.blocks.append(block) };
        proof {
            assert(r@ =~= seq![block@] + self@);
        }
        Ok(r)
    }

    /// Generates a new block ready to append: linked to the current head
    /// (or genesis-like on an empty chain) and mined to the given
    /// difficulty. Mining sweeps the whole nonce space at the moment's
    /// time; only when no nonce at all would do does the result miss its
    /// difficulty, and the contract says exactly that.
    pub fn generate_block(&self, data: SignedData, difficulty: u8) -> (r: Block)
        ensures
            generated_ok(self@, r@, data@, difficulty as usize),
            !block_valid(r@) ==> forall|n: u64|
                !crate::block::meets_difficulty(
                    block_hash(with_nonce(r@, n)),
                    difficulty as nat,
                ),
    {
        let prev_hash: [u8; 32] = match self.blocks.head() {
            Some(head) => {
                let h = head.hash();
                proof {
                    assert(head@ == self@[0]);
                }
                h
            },
            None => {
                let z = [0u8; 32];
                proof {
                    assert(z@ =~= zero_hash());
                }
                z
            },
        };
        let block = Block::new_with_hash(data, prev_hash, difficulty as usize);
        block.proof_of_work()
    }

    /// Appends a new block carrying `data`, mined to `difficulty`. In every
    /// practical run the freshly mined block is valid and the result is the
    /// chain grown by one; only if mining exhausted the whole nonce space
    /// without success is the chain returned unchanged, and the contract
    /// states that impossibility exactly.
    pub fn append(&self, data: SignedData, difficulty: u8) -> (r: Blockchain)
        requires
            self@.len() < usize::MAX,
        ensures
            r@.len() == self@.len() + 1 ==> {
                &&& r@.skip(1) == self@
                &&& generated_ok(self@, r@[0], data@, difficulty as usize)
                &&& block_valid(r@[0])
                &&& (chain_fully_valid(self@) && (self@.len() > 0 ==> r@[0].time >= self@[0].time)
                    ==> chain_fully_valid(r@))
            },
            r@.len() != self@.len() + 1 ==> r@ == self@ && (exists|t: u64|
                #[trigger] mining_exhausted(self@, data@, difficulty as usize, t)),
    {
        let block = self.generate_block(data, difficulty);
        let ghost bv = block@;
        match self.insert(block) {
            Ok(c) => {
                proof {
                    assert(c@.skip(1) =~= self@);
                    if chain_fully_valid(self@) && (self@.len() > 0 ==> c@[0].time
                        >= self@[0].time) {
                        lemma_append_preserves_validity(self@, bv);
                        assert(seq![bv] + self@ =~= c@);
                    }
                }
                c
            },
            Err(_) => {
                let r = self.clone();
                proof {
                    let t = bv.time;
                    assert forall|n: u64|
                        !crate::block::meets_difficulty(
                            block_hash(#[trigger] mining_candidate(self@, data@, difficulty as usize, t, n)),
                            difficulty as nat,
                        ) by {
                        assert(mining_candidate(self@, data@, difficulty as usize, t, n)
                            == with_nonce(bv, n));
                    }
                    assert(mining_exhausted(self@, data@, difficulty as usize, t));
                }
                r
            },
        }
    }

    /// Returns the deterministic encoding of the chain.
    pub fn to_bytes(&self) -> (r: Vec<u8>)
        ensures
            r@ == chain_enc(self@),
    {
        let refs = self.block_refs();
        let mut out: Vec<u8> = Vec::new();
        encode_u64(&mut out, refs.len() as u64);
        let mut i: usize = 0;
        while i < refs.len()
            invariant
                refs@.len() == self@.len(),
                forall|k: int| 0 <= k < refs@.len() ==> refs@[k]@ == self@[k],
                i <= refs@.len(),
                out@ == u64_le(self@.len() as u64) + blocks_enc(self@.take(i as int)),
            decreases refs@.len() - i,
        {
            let bytes = refs[i].as_bytes();
            push_bytes(&mut out, &bytes);
            proof {
                lemma_blocks_enc_take(self@, i as int);
            }
            i = i + 1;
        }
        proof {
            assert(self@.take(self@.len() as int) =~= self@);
        }
        out
    }

    /// Decodes a chain from its deterministic encoding. Returns the decoding
    /// error if the bytes do not hold a chain; bytes after the last block
    /// are ignored. A successful load is not re-validated: callers choosing
    /// to trust the bytes accept them verbatim.
    pub fn from_bytes(bytes: &Vec<u8>) -> (r: Result<Blockchain, PersistingError>)
        ensures
            match dec_chain(bytes@) {
                None => r matches Err(PersistingError::DeserializingError),
                Some(s) => r matches Ok(c) && c@ == s,
            },
    {
        let (count, pos) = match read_u64(bytes, 0) {
            None => {
                return Err(PersistingError::DeserializingError);
            },
            Some(p) => p,
        };
        proof {
            assert(bytes@.skip(0) =~= bytes@);
        }
        let blocks = match read_blocks(bytes, pos, count) {
            None => {
                return Err(PersistingError::DeserializingError);
            },
            Some(p) => p.0,
        };
        let ghost views = (match dec_blocks(bytes@.skip(pos as int), count as nat) {
            Some((bs, _)) => bs,
            None => Seq::<BlockV>::empty(),
        });
        let mut v = blocks;
        let total: usize = v.len();
        let mut stack: Stack<Block> = Stack::new();
        while v.len() > 0
            invariant
                views.len() == total,
                v@.len() <= views.len(),
                forall|k: int| 0 <= k < v@.len() ==> v@[k]@ == views[k],
                stack@.len() == views.len() - v@.len(),
                forall|k: int| 0 <= k < stack@.len() ==> stack@[k]@ == views[v@.len() + k],
            decreases v@.len(),
        {
            let ghost v_old = v@;
            let b = match v.pop() {
                Some(b) => b,
                None => {
                    proof {
                        assert(false);
                    }
                    unreached()
                },
            };
            proof {
                assert(b@ == views[v_old.len() - 1]);
            }
            let ghost old_stack = stack@;
            stack = stack.append(b);
        }
        let r = Blockchain { blocks: stack };
        proof {
            assert(r@ =~= views);
        }
        Ok(r)
    }
}

/// Reads `n` blocks at `pos`, newest first.
fn read_blocks(bytes: &Vec<u8>, pos: usize, n: u64) -> (r: Option<(Vec<Block>, usize)>)
    requires
        pos <= bytes@.len(),
    ensures
        match dec_blocks(bytes@.skip(pos as int), n as nat) {
            None => r is None,
            Some((bs, rest)) => r matches Some(p) && p.0@.len() == bs.len() && (forall|k: int|
                0 <= k < bs.len() ==> p.0@[k]@ == bs[k]) && p.1 <= bytes@.len() && bytes@.skip(
                p.1 as int,
            ) == rest,
        },
    decreases n,
{
    if n == 0 {
        let v: Vec<Block> = Vec::new();
        Some((v, pos))
    } else {
        match decode_block(bytes, pos) {
            None => None,
            Some((b, p1)) => match read_blocks(bytes, p1, n - 1) {
                None => None,
                Some((mut v, p2)) => {
                    v.insert(0, b);
                    Some((v, p2))
                },
            },
        }
    }
}

/// Checks one adjacent pair of the chain: linkage, non-decreasing time,
/// and individual validity of the older block.
fn check_pair(newer: &Block, older: &Block) -> (r: bool)
    ensures
        r == link_ok(newer@, older@),
{
    let older_hash = older.hash();
    if !eq32(newer.prev_hash(), &older_hash) {
        return false;
    }
    if newer.time() < older.time() {
        return false;
    }
    if older.version() != VERSION {
        return false;
    }
    if !older.validate_difficulty() {
        return false;
    }
    true
}

/// Shorthand used by `insert`'s contract: the block's own hash satisfies
/// its declared difficulty.
pub open spec fn meets_difficulty_of(b: BlockV) -> bool {
    crate::block::meets_difficulty(block_hash(b), b.difficulty as nat)
}

impl PartialEq for Blockchain {
    /// Two chains are equal iff they have equal lengths and equal blocks in
    /// newest-first order.
    fn eq(&self, other: &Self) -> (r: bool) {
        let a = self.block_refs();
        let b = other.block_refs();
        if a.len() != b.len() {
            return false;
        }
        let n = a.len();
        let mut i: usize = 0;
        while i < n
            invariant
                n == a@.len(),
                a@.len() == self@.len(),
                b@.len() == other@.len(),
                a@.len() == b@.len(),
                forall|k: int| 0 <= k < a@.len() ==> a@[k]@ == self@[k],
                forall|k: int| 0 <= k < b@.len() ==> b@[k]@ == other@[k],
                i <= n,
                forall|k: int| 0 <= k < i ==> self@[k] == other@[k],
            decreases n - i,
        {
            if !a[i].eq(b[i]) {
                proof {
                    assert(a@[i as int]@ != b@[i as int]@);
                    assert(self@[i as int] != other@[i as int]);
                    assert(self@ != other@);
                }
                return false;
            }
            i = i + 1;
        }
        proof {
            assert(self@ =~= other@);
        }
        true
    }
}

impl vstd::std_specs::cmp::PartialEqSpecImpl for Blockchain {
    open spec fn obeys_eq_spec() -> bool {
        true
    }

    open spec fn eq_spec(&self, other: &Self) -> bool {
        self@ == other@
    }
}

impl Default for Blockchain {
    /// The default blockchain is empty.
    fn default() -> (r: Self)
        ensures
            r@ == Seq::<BlockV>::empty(),
    {
        Blockchain::new()
    }
}

impl Clone for Blockchain {
    /// The clone has the same abstract value as the original.
    fn clone(&self) -> (r: Self)
        ensures
            r@ == self@,
    {
        Blockchain { blocks: self.blocks.clone() }
    }
}

} // verus!
