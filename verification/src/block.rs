//! Blocks: a versioned, timestamped payload with the predecessor's hash, a
//! difficulty and a nonce. A block's hash is SHA-256 of its deterministic
//! encoding, and mining searches for a nonce whose hash has the demanded
//! number of leading zero bits.

use vstd::prelude::*;

use crate::codec::{
    dec_fixed, dec_signed, dec_u64, dec_u8, encode_signed_into, encode_u64, read_arr32, read_u64,
    read_u8, signed_enc, signed_wf,
};
use crate::tx::{SignedData, SignedDataV};

verus! {

/// The current block version.
pub const VERSION: u8 = 1;

/// Number of bytes in the hash function's output (SHA-256).
pub const HASH_SIZE: usize = 32;

/// The hash of a byte sequence under the chain's hash function.
pub uninterp spec fn sha256_of(bytes: Seq<u8>) -> Seq<u8>;

/// Relies on sha2::Sha256: SHA-256 is a pure function of the input bytes and
/// its output is always 32 bytes wide.
#[verifier::external_body]
pub(crate) fn sha256(bytes: &Vec<u8>) -> (r: [u8; 32])
    ensures
        r@ == sha256_of(bytes@),
{
    let digest = <sha2::Sha256 as sha2::Digest>::digest(bytes.as_slice());
    digest.into()
}

/// Relies on std::time::SystemTime: returns the seconds since the Unix
/// epoch, or 0 if the clock reports a moment before the epoch.
#[verifier::external_body]
pub fn current_time() -> u64 {
    match std::time::SystemTime::now().duration_since(std::time::UNIX_EPOCH) {
        Ok(d) => d.as_secs(),
        Err(_) => 0,
    }
}

/// A block of the chain.
pub struct Block {
    version: u8,
    prev_hash: [u8; 32],
    time: u64,
    difficulty: usize,
    nonce: u64,
    data: SignedData,
}

/// Abstract value of a block.
pub ghost struct BlockV {
    pub version: u8,
    pub prev_hash: Seq<u8>,
    pub time: u64,
    pub difficulty: usize,
    pub nonce: u64,
    pub data: SignedDataV,
}

impl View for Block {
    type V = BlockV;

    closed spec fn view(&self) -> BlockV {
        BlockV {
            version: self.version,
            prev_hash: self.prev_hash@,
            time: self.time,
            difficulty: self.difficulty,
            nonce: self.nonce,
            data: self.data@,
        }
    }
}

/// The all-zero hash: the predecessor hash of a genesis block.
pub open spec fn zero_hash() -> Seq<u8> {
    Seq::new(32, |i: int| 0u8)
}

/// The integer encoding, under a local name so that the block encoding
/// below reads field by field.
pub open spec fn u64_le_of(v: u64) -> Seq<u8> {
    crate::codec::u64_le(v)
}

/// The encoding of a block: its six fields in order.
pub open spec fn block_enc(b: BlockV) -> Seq<u8> {
    seq![b.version] + b.prev_hash + u64_le_of(b.time) + u64_le_of(b.difficulty as u64) + u64_le_of(
        b.nonce,
    ) + signed_enc(b.data)
}

/// The hash of a block: the hash function applied to the block's encoding.
#[verifier::opaque]
pub open spec fn block_hash(b: BlockV) -> Seq<u8> {
    sha256_of(block_enc(b))
}

/// An upper bound expressing that a byte has at least `rem` leading zero
/// bits: the byte must be below 2^(8 - rem).
pub open spec fn rem_bound(rem: nat) -> u8 {
    if rem == 1 {
        128
    } else if rem == 2 {
        64
    } else if rem == 3 {
        32
    } else if rem == 4 {
        16
    } else if rem == 5 {
        8
    } else if rem == 6 {
        4
    } else {
        2
    }
}

/// The difficulty predicate: the first `d / 8` bytes of `h` are zero and, if
/// `d` is not a multiple of 8, the next byte has at least `d % 8` leading
/// zero bits. Equivalently, `h` has at least `d` leading zero bits.
pub open spec fn meets_difficulty(h: Seq<u8>, d: nat) -> bool {
    &&& forall|i: int| 0 <= i < h.len() && 8 * i + 8 <= d ==> h[i] == 0
    &&& (d % 8 != 0 && d / 8 < h.len() ==> h[(d / 8) as int] < rem_bound(d % 8))
}

/// An individually valid block: the version is current and the block's own
/// hash satisfies its declared difficulty.
pub open spec fn block_valid(b: BlockV) -> bool {
    b.version == VERSION && meets_difficulty(block_hash(b), b.difficulty as nat)
}

/// The same block with another nonce.
pub open spec fn with_nonce(b: BlockV, n: u64) -> BlockV {
    BlockV { nonce: n, ..b }
}

/// A block whose encoding round-trips through decoding.
pub open spec fn block_wf(b: BlockV) -> bool {
    b.prev_hash.len() == 32 && signed_wf(b.data)
}

/// Consumes a block from the front of `s`.
pub open spec fn dec_block(s: Seq<u8>) -> Option<(BlockV, Seq<u8>)> {
    match dec_u8(s) {
        None => None,
        Some((version, r1)) => match dec_fixed(r1, 32) {
            None => None,
            Some((prev_hash, r2)) => match dec_u64(r2) {
                None => None,
                Some((time, r3)) => match dec_u64(r3) {
                    None => None,
                    Some((diff, r4)) => if diff > usize::MAX {
                        None
                    } else {
                        match dec_u64(r4) {
                            None => None,
                            Some((nonce, r5)) => match dec_signed(r5) {
                                None => None,
                                Some((data, r6)) => Some(
                                    (
                                        BlockV {
                                            version,
                                            prev_hash,
                                            time,
                                            difficulty: diff as usize,
                                            nonce,
                                            data,
                                        },
                                        r6,
                                    ),
                                ),
                            },
                        }
                    },
                },
            },
        },
    }
}

/// Reading a block undoes writing one.
#[verifier::rlimit(100)]
#[verifier::spinoff_prover]
pub proof fn lemma_dec_block_of(b: BlockV, rest: Seq<u8>)
    requires
        block_wf(b),
    ensures
        dec_block(block_enc(b) + rest) == Some((b, rest)),
{
    let s = block_enc(b) + rest;
    let r1 = b.prev_hash + (u64_le_of(b.time) + u64_le_of(b.difficulty as u64) + u64_le_of(b.nonce)
        + signed_enc(b.data) + rest);
    assert(s =~= seq![b.version] + (b.prev_hash + (u64_le_of(b.time) + u64_le_of(
        b.difficulty as u64,
    ) + u64_le_of(b.nonce) + signed_enc(b.data) + rest)));
    crate::codec::lemma_dec_u8_of(b.version, r1);
    let r2 = u64_le_of(b.time) + (u64_le_of(b.difficulty as u64) + u64_le_of(b.nonce) + signed_enc(
        b.data,
    ) + rest);
    assert(r1 =~= b.prev_hash + (u64_le_of(b.time) + (u64_le_of(b.difficulty as u64) + u64_le_of(
        b.nonce,
    ) + signed_enc(b.data) + rest)));
    crate::codec::lemma_dec_fixed_of(
        b.prev_hash,
        u64_le_of(b.time) + (u64_le_of(b.difficulty as u64) + u64_le_of(b.nonce) + signed_enc(
            b.data,
        ) + rest),
    );
    crate::codec::lemma_dec_u64_of(
        b.time,
        u64_le_of(b.difficulty as u64) + (u64_le_of(b.nonce) + signed_enc(b.data) + rest),
    );
    assert(u64_le_of(b.difficulty as u64) + u64_le_of(b.nonce) + signed_enc(b.data) + rest
        =~= u64_le_of(b.difficulty as u64) + (u64_le_of(b.nonce) + signed_enc(b.data) + rest));
    crate::codec::lemma_dec_u64_of(b.difficulty as u64, u64_le_of(b.nonce) + signed_enc(b.data) + rest);
    assert(u64_le_of(b.nonce) + signed_enc(b.data) + rest =~= u64_le_of(b.nonce) + (signed_enc(
        b.data,
    ) + rest));
    crate::codec::lemma_dec_u64_of(b.nonce, signed_enc(b.data) + rest);
    crate::codec::lemma_dec_signed_of(b.data, rest);
}

impl Block {
    /// Returns the length of the hash function's output in bytes.
    pub fn hash_length_byte() -> (r: usize)
        ensures
            r == HASH_SIZE,
    {
        HASH_SIZE
    }

    /// Returns the length of the hash function's output in bits.
    pub fn hash_length_bit() -> (r: usize)
        ensures
            r == 8 * HASH_SIZE,
    {
        8 * HASH_SIZE
    }

    /// Creates a new block with the given data and difficulty. The nonce is
    /// initialized to 0 and the predecessor hash is all zero, so the block is
    /// genesis-like. The time field is initialized with the current Unix
    /// timestamp.
    pub fn new(data: SignedData, difficulty: usize) -> (r: Self)
        requires
            difficulty <= 8 * HASH_SIZE,
        ensures
            r@.version == VERSION,
            r@.prev_hash == zero_hash(),
            r@.difficulty == difficulty,
            r@.nonce == 0,
            r@.data == data@,
    {
        let r = Block {
            version: VERSION,
            prev_hash: [0u8; 32],
            time: current_time(),
            difficulty,
            nonce: 0,
            data,
        };
        proof {
            assert(r@.prev_hash =~= zero_hash());
        }
        r
    }

    /// Creates a new block with the given data, predecessor hash and
    /// difficulty. The nonce is initialized to 0, so the block's own hash
    /// need not satisfy the difficulty yet.
    pub fn new_with_hash(data: SignedData, prev_hash: [u8; 32], difficulty: usize) -> (r: Self)
        requires
            difficulty <= 8 * HASH_SIZE,
        ensures
            r@.version == VERSION,
            r@.prev_hash == prev_hash@,
            r@.difficulty == difficulty,
            r@.nonce == 0,
            r@.data == data@,
    {
        Block { version: VERSION, prev_hash, time: current_time(), difficulty, nonce: 0, data }
    }

    /// Returns the block version.
    pub fn version(&self) -> (r: u8)
        ensures
            r == self@.version,
    {
        self.version
    }

    /// Returns the difficulty of the block.
    pub fn difficulty(&self) -> (r: usize)
        ensures
            r == self@.difficulty,
    {
        self.difficulty
    }

    /// Returns the time the block was created or last modified, as a Unix
    /// timestamp.
    pub fn time(&self) -> (r: u64)
        ensures
            r == self@.time,
    {
        self.time
    }

    /// Returns a reference to the data inside the block.
    pub fn data(&self) -> (r: &SignedData)
        ensures
            r@ == self@.data,
    {
        &self.data
    }

    /// Returns the hash of the previous block.
    pub fn prev_hash(&self) -> (r: &[u8; 32])
        ensures
            r@ == self@.prev_hash,
    {
        &self.prev_hash
    }

    /// Returns the nonce.
    pub fn nonce(&self) -> (r: u64)
        ensures
            r == self@.nonce,
    {
        self.nonce
    }

    /// Returns whether the block is genesis-like: its predecessor hash is
    /// the all-zero array.
    pub fn is_genesis(&self) -> (r: bool)
        ensures
            r == (self@.prev_hash == zero_hash()),
    {
        let mut i: usize = 0;
        while i < 32
            invariant
                i <= 32,
                forall|j: int| 0 <= j < i ==> self@.prev_hash[j] == 0,
            decreases 32 - i,
        {
            if self.prev_hash[i] != 0 {
                assert(self@.prev_hash != zero_hash());
                return false;
            }
            i = i + 1;
        }
        proof {
            assert(self@.prev_hash =~= zero_hash());
        }
        true
    }

    /// Sets the nonce to an arbitrary value and replaces the time. Returns a
    /// new block, consuming the old one; every other field is kept.
    pub fn set_nonce(self, nonce: u64, time: u64) -> (r: Self)
        ensures
            r@ == (BlockV { nonce, time, ..self@ }),
    {
        Block { nonce, time, ..self }
    }

    /// Increments the nonce by 1, wrapping around to 0 on overflow, and
    /// replaces the time. Returns a new block, consuming the old one.
    pub fn increment_nonce(self, time: u64) -> (r: Self)
        ensures
            r@ == (BlockV {
                nonce: if self@.nonce == u64::MAX {
                    0
                } else {
                    (self@.nonce + 1) as u64
                },
                time,
                ..self@
            }),
    {
        let nonce = self.nonce;
        self.set_nonce(nonce.wrapping_add(1), time)
    }

    /// Returns the deterministic encoding of the block.
    pub fn as_bytes(&self) -> (r: Vec<u8>)
        ensures
            r@ == block_enc(self@),
    {
        let mut out: Vec<u8> = Vec::new();
        out.push(self.version);
        let mut i: usize = 0;
        while i < 32
            invariant
                i <= 32,
                out@ == seq![self@.version] + self@.prev_hash.take(i as int),
            decreases 32 - i,
        {
            out.push(self.prev_hash[i]);
            assert(out@ =~= seq![self@.version] + self@.prev_hash.take(i + 1));
            i = i + 1;
        }
        assert(out@ =~= seq![self@.version] + self@.prev_hash);
        encode_u64(&mut out, self.time);
        encode_u64(&mut out, self.difficulty as u64);
        encode_u64(&mut out, self.nonce);
        encode_signed_into(&mut out, &self.data);
        assert(out@ =~= block_enc(self@));
        out
    }

    /// Returns the hash of the block: the hash function applied to the
    /// block's encoding.
    pub fn hash(&self) -> (r: [u8; 32])
        ensures
            r@ == block_hash(self@),
    {
        proof {
            reveal(block_hash);
        }
        let bytes = self.as_bytes();
        sha256(&bytes)
    }

    /// Returns whether the block's own hash satisfies its declared
    /// difficulty.
    #[verifier::rlimit(50)]
    #[verifier::loop_isolation(false)]
    pub fn validate_difficulty(&self) -> (r: bool)
        ensures
            r == meets_difficulty(block_hash(self@), self@.difficulty as nat),
    {
        let h = self.hash();
        let d = self.difficulty;
        let mut i: usize = 0;
        while i < 32 && 8 * i + 8 <= d
            invariant
                i <= 32,
                h@ == block_hash(self@),
                h@.len() == 32,
                forall|j: int| 0 <= j < i ==> h@[j] == 0,
                i < 32 ==> 8 * i <= d,
            decreases 32 - i,
        {
            if h[i] != 0 {
                return false;
            }
            i = i + 1;
        }
        let rem = d % 8;
        if rem != 0 && d / 8 < 32 {
            let bound: u8 = if rem == 1 {
                128
            } else if rem == 2 {
                64
            } else if rem == 3 {
                32
            } else if rem == 4 {
                16
            } else if rem == 5 {
                8
            } else if rem == 6 {
                4
            } else {
                2
            };
            if h[d / 8] >= bound {
                return false;
            }
        }
        true
    }

    /// Mines the block: searches for a nonce whose hash satisfies the
    /// block's difficulty, updating the time to the moment mining started.
    /// Only the nonce and the time change. If the difficulty already holds
    /// on entry the block is returned unchanged. The search sweeps the whole
    /// nonce space, so it may run for a very long time; only when no nonce
    /// at all satisfies the difficulty at the drawn time does the result
    /// miss it, and the contract says exactly that.
    #[verifier::rlimit(50)]
    pub fn proof_of_work(self) -> (r: Self)
        ensures
            r@.version == self@.version,
            r@.prev_hash == self@.prev_hash,
            r@.difficulty == self@.difficulty,
            r@.data == self@.data,
            meets_difficulty(block_hash(self@), self@.difficulty as nat) ==> r@ == self@,
            !meets_difficulty(block_hash(r@), r@.difficulty as nat) ==> forall|n: u64|
                !meets_difficulty(block_hash(with_nonce(r@, n)), r@.difficulty as nat),
    {
        let ghost orig = self@;
        if self.validate_difficulty() {
            return self;
        }
        let time = current_time();
        let mut n: u64 = 0;
        let mut b = self.set_nonce(0, time);
        let mut done = b.validate_difficulty();
        while !done && n < u64::MAX
            invariant
                b@ == with_nonce(BlockV { time, ..orig }, n),
                done == meets_difficulty(block_hash(b@), b@.difficulty as nat),
                !done ==> forall|m: u64| m <= n ==> !meets_difficulty(
                    block_hash(with_nonce(b@, m)),
                    b@.difficulty as nat,
                ),
            decreases u64::MAX - n,
        {
            n = n + 1;
            let ghost b_old = b@;
            b = b.set_nonce(n, time);
            done = b.validate_difficulty();
            proof {
                if !done {
                    assert forall|m: u64| m <= n implies !meets_difficulty(
                        block_hash(with_nonce(b@, m)),
                        b@.difficulty as nat,
                    ) by {
                        if m < n {
                            assert(with_nonce(b@, m) == with_nonce(b_old, m));
                        } else {
                            assert(with_nonce(b@, m) == b@);
                        }
                    }
                }
            }
        }
        b
    }
}

impl PartialEq for Block {
    /// Two blocks are equal iff all six fields are equal.
    fn eq(&self, other: &Self) -> (r: bool) {
        self.version == other.version && crate::codec::eq32(&self.prev_hash, &other.prev_hash)
            && self.time == other.time && self.difficulty == other.difficulty && self.nonce
            == other.nonce && self.data == other.data
    }
}

impl vstd::std_specs::cmp::PartialEqSpecImpl for Block {
    open spec fn obeys_eq_spec() -> bool {
        true
    }

    open spec fn eq_spec(&self, other: &Self) -> bool {
        self@ == other@
    }
}

impl Clone for Block {
    /// The clone has the same abstract value as the original.
    fn clone(&self) -> (r: Self)
        ensures
            r@ == self@,
    {
        Block {
            version: self.version,
            prev_hash: self.prev_hash,
            time: self.time,
            difficulty: self.difficulty,
            nonce: self.nonce,
            data: self.data.clone(),
        }
    }
}

/// Reads a block from `bytes` starting at `pos`, returning the block and
/// the position just past it.
pub fn decode_block(bytes: &Vec<u8>, pos: usize) -> (r: Option<(Block, usize)>)
    requires
        pos <= bytes@.len(),
    ensures
        match dec_block(bytes@.skip(pos as int)) {
            None => r is None,
            Some((bv, rest)) => r matches Some(p) && p.0@ == bv && p.1 <= bytes@.len()
                && bytes@.skip(p.1 as int) == rest,
        },
{
    let ghost s = bytes@.skip(pos as int);
    let (version, p1) = match read_u8(bytes, pos) {
        None => {
            return None;
        },
        Some(p) => p,
    };
    let (prev_hash, p2) = match read_arr32(bytes, p1) {
        None => {
            return None;
        },
        Some(p) => p,
    };
    let (time, p3) = match read_u64(bytes, p2) {
        None => {
            return None;
        },
        Some(p) => p,
    };
    let (diff, p4) = match read_u64(bytes, p3) {
        None => {
            return None;
        },
        Some(p) => p,
    };
    if diff > usize::MAX as u64 {
        return None;
    }
    let (nonce, p5) = match read_u64(bytes, p4) {
        None => {
            return None;
        },
        Some(p) => p,
    };
    let (data, p6) = match crate::codec::read_signed(bytes, p5) {
        None => {
            return None;
        },
        Some(p) => p,
    };
    let block = Block {
        version,
        prev_hash,
        time,
        difficulty: diff as usize,
        nonce,
        data,
    };
    Some((block, p6))
}

} // verus!
