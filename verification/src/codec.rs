//! The deterministic binary encoding used for hashing, signing and
//! persistence: little-endian multi-byte integers, fixed-width arrays as raw
//! bytes, and length-prefixed byte sequences with 64-bit little-endian
//! lengths. Every encoder and decoder here is verified against the spec-level
//! encoding functions, and decoding is proved to invert encoding.

use vstd::prelude::*;

use crate::tx::{Data, DataV, SignedData, SignedDataV};

verus! {

/// The little-endian encoding of a 64-bit unsigned integer.
pub open spec fn u64_le(v: u64) -> Seq<u8> {
    seq![
        (v % 0x100) as u8,
        ((v / 0x100) % 0x100) as u8,
        ((v / 0x10000) % 0x100) as u8,
        ((v / 0x1000000) % 0x100) as u8,
        ((v / 0x100000000) % 0x100) as u8,
        ((v / 0x10000000000) % 0x100) as u8,
        ((v / 0x1000000000000) % 0x100) as u8,
        ((v / 0x100000000000000) % 0x100) as u8,
    ]
}

/// The value of 8 bytes read as a little-endian 64-bit unsigned integer.
pub open spec fn le8(s: Seq<u8>) -> u64
    recommends
        s.len() == 8,
{
    (s[0] + s[1] * 0x100 + s[2] * 0x10000 + s[3] * 0x1000000 + s[4] * 0x100000000 + s[5]
        * 0x10000000000 + s[6] * 0x1000000000000 + s[7] * 0x100000000000000) as u64
}

/// The length-prefixed encoding of a byte sequence.
pub open spec fn bytes_enc(b: Seq<u8>) -> Seq<u8> {
    u64_le(b.len() as u64) + b
}

/// The encoding of a payload: a 1-byte tag, then the variant body.
pub open spec fn data_enc(d: DataV) -> Seq<u8> {
    match d {
        DataV::Billing(fp) => seq![0u8] + bytes_enc(fp),
        DataV::Usage(u) => seq![1u8] + u64_le(u),
    }
}

/// The encoding of a signed payload: the raw signature bytes, then the
/// payload encoding.
pub open spec fn signed_enc(s: SignedDataV) -> Seq<u8> {
    s.signature + data_enc(s.data)
}

/// Consumes one byte from the front of `s`.
pub open spec fn dec_u8(s: Seq<u8>) -> Option<(u8, Seq<u8>)> {
    if s.len() < 1 {
        None
    } else {
        Some((s[0], s.skip(1)))
    }
}

/// Consumes a little-endian 64-bit unsigned integer from the front of `s`.
pub open spec fn dec_u64(s: Seq<u8>) -> Option<(u64, Seq<u8>)> {
    if s.len() < 8 {
        None
    } else {
        Some((le8(s.take(8)), s.skip(8)))
    }
}

/// Consumes a 64-bit length prefix and that many bytes from the front of `s`.
pub open spec fn dec_bytes(s: Seq<u8>) -> Option<(Seq<u8>, Seq<u8>)> {
    match dec_u64(s) {
        None => None,
        Some((n, r)) => if r.len() >= n {
            Some((r.take(n as int), r.skip(n as int)))
        } else {
            None
        },
    }
}

/// Consumes exactly `n` raw bytes from the front of `s`.
pub open spec fn dec_fixed(s: Seq<u8>, n: nat) -> Option<(Seq<u8>, Seq<u8>)> {
    if s.len() >= n {
        Some((s.take(n as int), s.skip(n as int)))
    } else {
        None
    }
}

/// Consumes a payload from the front of `s`.
pub open spec fn dec_data(s: Seq<u8>) -> Option<(DataV, Seq<u8>)> {
    match dec_u8(s) {
        None => None,
        Some((tag, r)) => if tag == 0 {
            match dec_bytes(r) {
                None => None,
                Some((fp, r2)) => Some((DataV::Billing(fp), r2)),
            }
        } else if tag == 1 {
            match dec_u64(r) {
                None => None,
                Some((u, r2)) => Some((DataV::Usage(u), r2)),
            }
        } else {
            None
        },
    }
}

/// Consumes a signed payload from the front of `s`.
pub open spec fn dec_signed(s: Seq<u8>) -> Option<(SignedDataV, Seq<u8>)> {
    match dec_fixed(s, 64) {
        None => None,
        Some((sig, r)) => match dec_data(r) {
            None => None,
            Some((d, r2)) => Some((SignedDataV { signature: sig, data: d }, r2)),
        },
    }
}

/// A payload whose encoding round-trips: a billing fingerprint must be
/// expressible with a 64-bit length prefix.
pub open spec fn data_wf(d: DataV) -> bool {
    match d {
        DataV::Billing(fp) => fp.len() <= u64::MAX,
        DataV::Usage(_) => true,
    }
}

/// A signed payload whose encoding round-trips: the signature is 64 bytes
/// wide and the payload is well-formed.
pub open spec fn signed_wf(s: SignedDataV) -> bool {
    s.signature.len() == 64 && data_wf(s.data)
}

/// One step of the positional breakdown: a value splits into its low byte
/// and the rest, and dividing by the next power of 0x100 composes.
proof fn lemma_byte_split(x: int, p: int)
    requires
        x >= 0,
        p >= 1,
    ensures
        x / p == 0x100 * (x / (p * 0x100)) + (x / p) % 0x100,
{
    vstd::arithmetic::div_mod::lemma_fundamental_div_mod(x / p, 0x100);
    vstd::arithmetic::div_mod::lemma_div_denominator(x, p, 0x100);
}

proof fn lemma_le8_of_u64_le(v: u64)
    ensures
        le8(u64_le(v)) == v,
{
    let x = v as int;
    vstd::arithmetic::div_mod::lemma_fundamental_div_mod(x, 0x100);
    lemma_byte_split(x, 0x100);
    lemma_byte_split(x, 0x10000);
    lemma_byte_split(x, 0x1000000);
    lemma_byte_split(x, 0x100000000);
    lemma_byte_split(x, 0x10000000000);
    lemma_byte_split(x, 0x1000000000000);
    lemma_byte_split(x, 0x100000000000000);
    assert(x / 0x100000000000000 < 0x100);
    assert((x / 0x100000000000000) % 0x100 == x / 0x100000000000000) by {
        vstd::arithmetic::div_mod::lemma_small_mod(
            (x / 0x100000000000000) as nat,
            0x100,
        );
    };
}

/// Reading a 64-bit integer undoes writing one.
pub proof fn lemma_dec_u64_of(v: u64, rest: Seq<u8>)
    ensures
        dec_u64(u64_le(v) + rest) == Some((v, rest)),
{
    let s = u64_le(v) + rest;
    assert(s.take(8) =~= u64_le(v));
    assert(s.skip(8) =~= rest);
    lemma_le8_of_u64_le(v);
}

/// Reading one byte undoes writing one.
pub proof fn lemma_dec_u8_of(b: u8, rest: Seq<u8>)
    ensures
        dec_u8(seq![b] + rest) == Some((b, rest)),
{
    let s = seq![b] + rest;
    assert(s.skip(1) =~= rest);
}

/// Reading a length-prefixed byte sequence undoes writing one.
pub proof fn lemma_dec_bytes_of(b: Seq<u8>, rest: Seq<u8>)
    requires
        b.len() <= u64::MAX,
    ensures
        dec_bytes(bytes_enc(b) + rest) == Some((b, rest)),
{
    let n = b.len() as u64;
    let s = bytes_enc(b) + rest;
    assert(s =~= u64_le(n) + (b + rest));
    lemma_dec_u64_of(n, b + rest);
    assert((b + rest).take(n as int) =~= b);
    assert((b + rest).skip(n as int) =~= rest);
}

/// Reading a fixed-width byte array undoes writing one.
pub proof fn lemma_dec_fixed_of(b: Seq<u8>, rest: Seq<u8>)
    ensures
        dec_fixed(b + rest, b.len()) == Some((b, rest)),
{
    let s = b + rest;
    assert(s.take(b.len() as int) =~= b);
    assert(s.skip(b.len() as int) =~= rest);
}

/// Reading a payload undoes writing one.
pub proof fn lemma_dec_data_of(d: DataV, rest: Seq<u8>)
    requires
        data_wf(d),
    ensures
        dec_data(data_enc(d) + rest) == Some((d, rest)),
{
    match d {
        DataV::Billing(fp) => {
            let s = data_enc(d) + rest;
            assert(s =~= seq![0u8] + (bytes_enc(fp) + rest));
            lemma_dec_u8_of(0u8, bytes_enc(fp) + rest);
            lemma_dec_bytes_of(fp, rest);
        },
        DataV::Usage(u) => {
            let s = data_enc(d) + rest;
            assert(s =~= seq![1u8] + (u64_le(u) + rest));
            lemma_dec_u8_of(1u8, u64_le(u) + rest);
            lemma_dec_u64_of(u, rest);
        },
    }
}

/// Reading a signed payload undoes writing one.
pub proof fn lemma_dec_signed_of(sd: SignedDataV, rest: Seq<u8>)
    requires
        signed_wf(sd),
    ensures
        dec_signed(signed_enc(sd) + rest) == Some((sd, rest)),
{
    let s = signed_enc(sd) + rest;
    assert(s =~= sd.signature + (data_enc(sd.data) + rest));
    lemma_dec_fixed_of(sd.signature, data_enc(sd.data) + rest);
    lemma_dec_data_of(sd.data, rest);
}

/// Appends the little-endian encoding of `v` to `out`.
pub fn encode_u64(out: &mut Vec<u8>, v: u64)
    ensures
        final(out)@ == old(out)@ + u64_le(v),
{
    out.push((v % 0x100) as u8);
    out.push(((v / 0x100) % 0x100) as u8);
    out.push(((v / 0x10000) % 0x100) as u8);
    out.push(((v / 0x1000000) % 0x100) as u8);
    out.push(((v / 0x100000000) % 0x100) as u8);
    out.push(((v / 0x10000000000) % 0x100) as u8);
    out.push(((v / 0x1000000000000) % 0x100) as u8);
    out.push(((v / 0x100000000000000) % 0x100) as u8);
    assert(out@ =~= old(out)@ + u64_le(v));
}

/// Appends all of `b` to `out`.
pub fn push_bytes(out: &mut Vec<u8>, b: &Vec<u8>)
    ensures
        final(out)@ == old(out)@ + b@,
{
    let mut i: usize = 0;
    while i < b.len()
        invariant
            i <= b@.len(),
            out@ == old(out)@ + b@.take(i as int),
        decreases b@.len() - i,
    {
        out.push(b[i]);
        assert(out@ =~= old(out)@ + b@.take(i + 1));
        i = i + 1;
    }
    assert(out@ =~= old(out)@ + b@);
}

/// Returns a copy of a byte vector with the same abstract value.
pub fn clone_bytes(v: &Vec<u8>) -> (r: Vec<u8>)
    ensures
        r@ == v@,
{
    let mut out: Vec<u8> = Vec::new();
    push_bytes(&mut out, v);
    assert(out@ =~= v@);
    out
}

/// Compares two byte vectors for equality of contents.
pub fn bytes_eq(a: &Vec<u8>, b: &Vec<u8>) -> (r: bool)
    ensures
        r == (a@ == b@),
{
    if a.len() != b.len() {
        assert(a@ != b@);
        return false;
    }
    let mut i: usize = 0;
    while i < a.len()
        invariant
            i <= a@.len(),
            a@.len() == b@.len(),
            forall|j: int| 0 <= j < i ==> a@[j] == b@[j],
        decreases a@.len() - i,
    {
        if a[i] != b[i] {
            return false;
        }
        i = i + 1;
    }
    assert(a@ =~= b@);
    true
}

/// Compares two 64-byte arrays for equality of contents.
pub fn eq64(a: &[u8; 64], b: &[u8; 64]) -> (r: bool)
    ensures
        r == (a@ == b@),
{
    let mut i: usize = 0;
    while i < 64
        invariant
            i <= 64,
            forall|j: int| 0 <= j < i ==> a@[j] == b@[j],
        decreases 64 - i,
    {
        if a[i] != b[i] {
            return false;
        }
        i = i + 1;
    }
    assert(a@ =~= b@);
    true
}

/// Compares two 32-byte arrays for equality of contents.
pub fn eq32(a: &[u8; 32], b: &[u8; 32]) -> (r: bool)
    ensures
        r == (a@ == b@),
{
    let mut i: usize = 0;
    while i < 32
        invariant
            i <= 32,
            forall|j: int| 0 <= j < i ==> a@[j] == b@[j],
        decreases 32 - i,
    {
        if a[i] != b[i] {
            return false;
        }
        i = i + 1;
    }
    assert(a@ =~= b@);
    true
}

/// Appends the encoding of a payload to `out`.
pub fn encode_data_into(out: &mut Vec<u8>, d: &Data)
    ensures
        final(out)@ == old(out)@ + data_enc(d@),
{
    match d {
        Data::Billing(fp) => {
            out.push(0u8);
            encode_u64(out, fp.len() as u64);
            push_bytes(out, fp);
            assert(out@ =~= old(out)@ + data_enc(d@));
        },
        Data::Usage(u) => {
            out.push(1u8);
            encode_u64(out, *u);
            assert(out@ =~= old(out)@ + data_enc(d@));
        },
    }
}

/// Returns the encoding of a payload.
pub fn encode_data(d: &Data) -> (r: Vec<u8>)
    ensures
        r@ == data_enc(d@),
{
    let mut out: Vec<u8> = Vec::new();
    encode_data_into(&mut out, d);
    assert(out@ =~= data_enc(d@));
    out
}

/// Appends the encoding of a signed payload to `out`.
pub fn encode_signed_into(out: &mut Vec<u8>, s: &SignedData)
    ensures
        final(out)@ == old(out)@ + signed_enc(s@),
{
    let sig = s.signature();
    let mut i: usize = 0;
    while i < 64
        invariant
            i <= 64,
            sig@ == s@.signature,
            out@ == old(out)@ + s@.signature.take(i as int),
        decreases 64 - i,
    {
        out.push(sig[i]);
        assert(out@ =~= old(out)@ + s@.signature.take(i + 1));
        i = i + 1;
    }
    assert(out@ =~= old(out)@ + s@.signature);
    encode_data_into(out, s.data());
    assert(out@ =~= old(out)@ + signed_enc(s@));
}

/// Reads one byte at `pos`, returning it and the position just past it.
pub fn read_u8(bytes: &Vec<u8>, pos: usize) -> (r: Option<(u8, usize)>)
    requires
        pos <= bytes@.len(),
    ensures
        match dec_u8(bytes@.skip(pos as int)) {
            None => r is None,
            Some((v, rest)) => r matches Some(p) && p.0 == v && p.1 <= bytes@.len()
                && bytes@.skip(p.1 as int) == rest,
        },
{
    if bytes.len() - pos >= 1 {
        let v = bytes[pos];
        proof {
            assert(bytes@.skip(pos as int)[0] == bytes@[pos as int]);
            assert(bytes@.skip(pos as int).skip(1) =~= bytes@.skip(pos as int + 1));
        }
        Some((v, pos + 1))
    } else {
        None
    }
}

/// Reads a little-endian 64-bit unsigned integer at `pos`.
pub fn read_u64(bytes: &Vec<u8>, pos: usize) -> (r: Option<(u64, usize)>)
    requires
        pos <= bytes@.len(),
    ensures
        match dec_u64(bytes@.skip(pos as int)) {
            None => r is None,
            Some((v, rest)) => r matches Some(p) && p.0 == v && p.1 <= bytes@.len()
                && bytes@.skip(p.1 as int) == rest,
        },
{
    if bytes.len() - pos >= 8 {
        let b0 = bytes[pos] as u64;
        let b1 = bytes[pos + 1] as u64;
        let b2 = bytes[pos + 2] as u64;
        let b3 = bytes[pos + 3] as u64;
        let b4 = bytes[pos + 4] as u64;
        let b5 = bytes[pos + 5] as u64;
        let b6 = bytes[pos + 6] as u64;
        let b7 = bytes[pos + 7] as u64;
        let v = b0 + b1 * 0x100 + b2 * 0x10000 + b3 * 0x1000000 + b4 * 0x100000000 + b5
            * 0x10000000000 + b6 * 0x1000000000000 + b7 * 0x100000000000000;
        proof {
            let s = bytes@.skip(pos as int);
            assert(forall|j: int| 0 <= j < 8 ==> s.take(8)[j] == bytes@[pos + j]);
            assert(s.skip(8) =~= bytes@.skip(pos as int + 8));
        }
        Some((v, pos + 8))
    } else {
        None
    }
}

/// Reads 32 raw bytes at `pos` into a fixed-width array.
pub fn read_arr32(bytes: &Vec<u8>, pos: usize) -> (r: Option<([u8; 32], usize)>)
    requires
        pos <= bytes@.len(),
    ensures
        match dec_fixed(bytes@.skip(pos as int), 32) {
            None => r is None,
            Some((v, rest)) => r matches Some(p) && p.0@ == v && p.1 <= bytes@.len()
                && bytes@.skip(p.1 as int) == rest,
        },
{
    if bytes.len() - pos >= 32 {
        let mut a = [0u8; 32];
        let mut i: usize = 0;
        while i < 32
            invariant
                i <= 32,
                bytes@.len() <= usize::MAX,
                pos + 32 <= bytes@.len(),
                forall|j: int| 0 <= j < i ==> a@[j] == bytes@[pos + j],
            decreases 32 - i,
        {
            a[i] = bytes[pos + i];
            i = i + 1;
        }
        proof {
            assert(a@ =~= bytes@.skip(pos as int).take(32));
            assert(bytes@.skip(pos as int).skip(32) =~= bytes@.skip(pos as int + 32));
        }
        Some((a, pos + 32))
    } else {
        None
    }
}

/// Reads 64 raw bytes at `pos` into a fixed-width array.
pub fn read_arr64(bytes: &Vec<u8>, pos: usize) -> (r: Option<([u8; 64], usize)>)
    requires
        pos <= bytes@.len(),
    ensures
        match dec_fixed(bytes@.skip(pos as int), 64) {
            None => r is None,
            Some((v, rest)) => r matches Some(p) && p.0@ == v && p.1 <= bytes@.len()
                && bytes@.skip(p.1 as int) == rest,
        },
{
    if bytes.len() - pos >= 64 {
        let mut a = [0u8; 64];
        let mut i: usize = 0;
        while i < 64
            invariant
                i <= 64,
                bytes@.len() <= usize::MAX,
                pos + 64 <= bytes@.len(),
                forall|j: int| 0 <= j < i ==> a@[j] == bytes@[pos + j],
            decreases 64 - i,
        {
            a[i] = bytes[pos + i];
            i = i + 1;
        }
        proof {
            assert(a@ =~= bytes@.skip(pos as int).take(64));
            assert(bytes@.skip(pos as int).skip(64) =~= bytes@.skip(pos as int + 64));
        }
        Some((a, pos + 64))
    } else {
        None
    }
}

/// Reads a 64-bit length prefix and that many bytes at `pos`.
pub fn read_bytes(bytes: &Vec<u8>, pos: usize) -> (r: Option<(Vec<u8>, usize)>)
    requires
        pos <= bytes@.len(),
    ensures
        match dec_bytes(bytes@.skip(pos as int)) {
            None => r is None,
            Some((v, rest)) => r matches Some(p) && p.0@ == v && p.1 <= bytes@.len()
                && bytes@.skip(p.1 as int) == rest,
        },
{
    match read_u64(bytes, pos) {
        None => None,
        Some((n, p1)) => {
            if n <= (bytes.len() - p1) as u64 {
                let count = n as usize;
                let mut v: Vec<u8> = Vec::new();
                let mut i: usize = 0;
                while i < count
                    invariant
                        i <= count,
                        bytes@.len() <= usize::MAX,
                        p1 + count <= bytes@.len(),
                        v@.len() == i,
                        forall|j: int| 0 <= j < i ==> v@[j] == bytes@[p1 + j],
                    decreases count - i,
                {
                    v.push(bytes[p1 + i]);
                    i = i + 1;
                }
                proof {
                    assert(v@ =~= bytes@.skip(p1 as int).take(count as int));
                    assert(bytes@.skip(p1 as int).skip(count as int) =~= bytes@.skip(
                        p1 as int + count,
                    ));
                }
                Some((v, p1 + count))
            } else {
                None
            }
        },
    }
}

/// Reads a payload at `pos`.
pub fn read_data(bytes: &Vec<u8>, pos: usize) -> (r: Option<(Data, usize)>)
    requires
        pos <= bytes@.len(),
    ensures
        match dec_data(bytes@.skip(pos as int)) {
            None => r is None,
            Some((v, rest)) => r matches Some(p) && p.0@ == v && p.1 <= bytes@.len()
                && bytes@.skip(p.1 as int) == rest,
        },
{
    match read_u8(bytes, pos) {
        None => None,
        Some((tag, p1)) => {
            if tag == 0 {
                match read_bytes(bytes, p1) {
                    None => None,
                    Some((fp, p2)) => Some((Data::Billing(fp), p2)),
                }
            } else if tag == 1 {
                match read_u64(bytes, p1) {
                    None => None,
                    Some((u, p2)) => Some((Data::Usage(u), p2)),
                }
            } else {
                None
            }
        },
    }
}

/// Reads a signed payload at `pos`.
pub fn read_signed(bytes: &Vec<u8>, pos: usize) -> (r: Option<(SignedData, usize)>)
    requires
        pos <= bytes@.len(),
    ensures
        match dec_signed(bytes@.skip(pos as int)) {
            None => r is None,
            Some((v, rest)) => r matches Some(p) && p.0@ == v && p.1 <= bytes@.len()
                && bytes@.skip(p.1 as int) == rest,
        },
{
    match read_arr64(bytes, pos) {
        None => None,
        Some((sig, p1)) => match read_data(bytes, p1) {
            None => None,
            Some((d, p2)) => Some((SignedData::new(sig, d), p2)),
        },
    }
}

} // verus!
