//! The document keystream: each 8-byte block is XORed with the triple-DES
//! encryption of a counter block whose counter runs modulo 1024.

use cipher::{BlockEncrypt, KeyInit};
use vstd::prelude::*;

verus! {

/// Base value added to the block counter to form the keystream seed.
pub const IVEC_BASE: u32 = 0x6fe21307;

/// The block counter runs modulo this value.
pub const COUNTER_WRAP: u32 = 1024;

/// Cipher block size in bytes.
pub const BLOCK_SIZE: usize = 8;

#[derive(Debug)]
pub enum DESError {
    InvalidLength(usize),
    EncryptionFailed(String),
}

/// The triple-DES-EDE3 encryption of one 8-byte block under a 24-byte key.
pub uninterp spec fn tdes_ede3_encrypt(key: Seq<u8>, block: Seq<u8>) -> Seq<u8>;

/// Relies on des::TdesEde3 (through cipher's KeyInit::new and
/// BlockEncrypt::encrypt_block): encrypts one block, the result depending
/// on the key and the block alone.
#[verifier::external_body]
fn tdes_encrypt_block(key: &[u8; 24], block: &[u8; 8]) -> (r: [u8; 8])
    ensures
        r@ == tdes_ede3_encrypt(key@, block@),
{
    let tdes = ::des::TdesEde3::new(&(*key).into());
    let mut b = (*block).into();
    tdes.encrypt_block(&mut b);
    b.into()
}

/// The three 8-byte keys of the document format, concatenated.
pub open spec fn key_bytes() -> Seq<u8> {
    seq![
        0x16u8, 0xA7, 0xA7, 0x32, 0x68, 0xA7, 0xBA, 0x73,
        0xD9, 0xA8, 0x86, 0xA4, 0x34, 0x45, 0x94, 0x10,
        0x3D, 0x80, 0x8C, 0xB5, 0xDF, 0xB3, 0x80, 0x6B,
    ]
}

/// The keystream seed of block number `k`: the base plus the counter
/// (which restarts at 0 every 1024 blocks), modulo 2^32.
pub open spec fn seed(k: nat) -> u32 {
    IVEC_BASE.wrapping_add((k % (COUNTER_WRAP as nat)) as u32)
}

/// Four zero bytes, then the seed in little-endian order.
pub open spec fn counter_block(s: u32) -> Seq<u8> {
    seq![0u8, 0u8, 0u8, 0u8, s as u8, (s >> 8u32) as u8, (s >> 16u32) as u8, (s >> 24u32) as u8]
}

/// The mask XORed into block number `k`.
pub open spec fn block_mask(k: nat) -> Seq<u8> {
    tdes_ede3_encrypt(key_bytes(), counter_block(seed(k)))
}

/// The protected form of `data`: byte `i` XORed with byte `i % 8` of the
/// mask of block `i / 8`.
pub open spec fn protected(data: Seq<u8>) -> Seq<u8> {
    Seq::new(data.len(), |i: int| data[i] ^ block_mask((i / 8) as nat)[i % 8])
}

fn tdes_key() -> (r: [u8; 24])
    ensures
        r@ == key_bytes(),
{
    let k: [u8; 24] = [
        0x16, 0xA7, 0xA7, 0x32, 0x68, 0xA7, 0xBA, 0x73,
        0xD9, 0xA8, 0x86, 0xA4, 0x34, 0x45, 0x94, 0x10,
        0x3D, 0x80, 0x8C, 0xB5, 0xDF, 0xB3, 0x80, 0x6B,
    ];
    assert(k@ =~= key_bytes());
    k
}

fn make_counter_block(s: u32) -> (r: [u8; 8])
    ensures
        r@ == counter_block(s),
{
    let b: [u8; 8] = [0, 0, 0, 0, s as u8, (s >> 8u32) as u8, (s >> 16u32) as u8, (s >> 24u32) as u8];
    assert(b@ =~= counter_block(s));
    b
}

/// Protects `data` in place: block `k` is XORed with `block_mask(k)`.
/// Fails, leaving `data` untouched, when its length is not a multiple of 8.
pub fn encrypt_document(data: &mut Vec<u8>) -> (r: Result<(), DESError>)
    ensures
        match r {
            Ok(()) => old(data)@.len() % 8 == 0 && final(data)@ == protected(old(data)@),
            Err(e) => old(data)@.len() % 8 != 0 && final(data)@ == old(data)@
                && e == DESError::InvalidLength(old(data)@.len() as usize),
        },
{
    let len = data.len();
    if len % BLOCK_SIZE != 0 {
        return Err(DESError::InvalidLength(len));
    }
    let key = tdes_key();
    let n = len / BLOCK_SIZE;
    let mut counter: u32 = 0;
    let mut b: usize = 0;
    while b < n
        invariant
            data@.len() == len,
            len == old(data)@.len(),
            n * 8 == len,
            b <= n,
            counter as nat == (b as nat) % 1024,
            key@ == key_bytes(),
            forall|i: int|
                0 <= i < b * 8 ==> #[trigger] data@[i] == old(data)@[i] ^ block_mask(
                    (i / 8) as nat,
                )[i % 8],
            forall|i: int| b * 8 <= i < len ==> #[trigger] data@[i] == old(data)@[i],
        decreases n - b,
    {
        let s = IVEC_BASE.wrapping_add(counter);
        let iv = make_counter_block(s);
        let mask = tdes_encrypt_block(&key, &iv);
        assert(mask@ == block_mask(b as nat));
        assert(b * 8 + 8 <= len) by (nonlinear_arith)
            requires b < n, n * 8 == len;
        let base = b * BLOCK_SIZE;
        let mut j: usize = 0;
        while j < BLOCK_SIZE
            invariant
                data@.len() == len,
                len == old(data)@.len(),
                b < n,
                n * 8 == len,
                base == b * 8,
                base + 8 <= len,
                j <= 8,
                mask@ == block_mask(b as nat),
                forall|i: int|
                    0 <= i < base + j ==> #[trigger] data@[i] == old(data)@[i] ^ block_mask(
                        (i / 8) as nat,
                    )[i % 8],
                forall|i: int| base + j <= i < len ==> #[trigger] data@[i] == old(data)@[i],
            decreases 8 - j,
        {
            let x = data[base + j] ^ mask[j];
            data[base + j] = x;
            assert(((base + j) as int) / 8 == b as int && ((base + j) as int) % 8 == j as int)
                by (nonlinear_arith)
                requires base == b * 8, j < 8;
            j += 1;
        }
        counter += 1;
        if counter == COUNTER_WRAP {
            counter = 0;
        }
        b += 1;
    }
    assert(data@ =~= protected(old(data)@));
    Ok(())
}

/// Protection depends on the input bytes alone: equal inputs are
/// protected to equal outputs.
pub proof fn lemma_protect_deterministic(a: Seq<u8>, b: Seq<u8>)
    requires
        a == b,
    ensures
        protected(a) == protected(b),
{
}

/// Protection keeps the length and tells inputs apart: two different
/// inputs of one length are protected to two different outputs.
pub proof fn lemma_protect_injective(a: Seq<u8>, b: Seq<u8>)
    requires
        a.len() == b.len(),
        a != b,
    ensures
        protected(a).len() == a.len(),
        protected(a) != protected(b),
{
    assert(!(a =~= b));
    let i = choose|i: int| 0 <= i < a.len() && a[i] != b[i];
    let m = block_mask((i / 8) as nat)[i % 8];
    let x = a[i];
    let y = b[i];
    assert(x ^ m != y ^ m) by (bit_vector)
        requires x != y;
    assert(protected(a)[i] != protected(b)[i]);
}

/// The keystream repeats after exactly 1024 blocks.
pub proof fn lemma_mask_period(k: nat)
    ensures
        block_mask(k + 1024) == block_mask(k),
{
    assert((k + 1024) % 1024 == k % 1024) by (nonlinear_arith);
}

} // verus!
