//! The cipher capability: the interface an embedding application implements
//! to encrypt and decrypt fixed-size data blocks in place.
#![allow(unused_imports)]
use vstd::prelude::*;

verus! {

/// A block cipher supplied by the embedding application.
///
/// `data` is transformed in place; `metadata` carries the fixed-size
/// auxiliary buffer (nonce/MAC) paired with the block. `block_index` is an
/// addressing unit, not a counter: implementations typically derive a
/// per-block keystream from it. A `false` result reports a per-block cipher
/// failure, forwarded verbatim to the caller.
///
/// Each implementation fixes its behaviour with the two specification
/// functions; the executable methods must realize them exactly, and must
/// leave both buffer lengths unchanged, since the engine hands the cipher
/// fixed-size buffers that it reinterprets in place.
pub trait CustomCipher: Sized {
    /// What encryption does: the new data, the new metadata, and the result.
    spec fn encrypt_spec(&self, block_index: u64, data: Seq<u8>, metadata: Seq<u8>) -> (
        Seq<u8>,
        Seq<u8>,
        bool,
    );

    /// What decryption does: the new data and the result. The metadata
    /// buffer is read-only during decryption.
    spec fn decrypt_spec(&self, block_index: u64, data: Seq<u8>, metadata: Seq<u8>) -> (
        Seq<u8>,
        bool,
    );

    /// Encrypts one block in place, writing the auxiliary buffer as well.
    fn encrypt_block(&self, block_index: u64, data: &mut Vec<u8>, metadata: &mut Vec<u8>) -> (ok:
        bool)
        ensures
            (final(data)@, final(metadata)@, ok) == self.encrypt_spec(
                block_index,
                old(data)@,
                old(metadata)@,
            ),
            final(data)@.len() == old(data)@.len(),
            final(metadata)@.len() == old(metadata)@.len(),
    ;

    /// Decrypts one block in place; the metadata buffer is only read.
    fn decrypt_block(&self, block_index: u64, data: &mut Vec<u8>, metadata: &Vec<u8>) -> (ok: bool)
        ensures
            (final(data)@, ok) == self.decrypt_spec(block_index, old(data)@, metadata@),
            final(data)@.len() == old(data)@.len(),
    ;
}

/// A correct cipher: whenever encryption succeeds, decrypting the resulting
/// data with the same block index and the metadata buffer encryption left
/// behind succeeds and restores the original data.
pub open spec fn inverts<C: CustomCipher>(c: C) -> bool {
    forall|block_index: u64, data: Seq<u8>, metadata: Seq<u8>|
        (#[trigger] c.encrypt_spec(block_index, data, metadata)).2 ==> {
            let encd = c.encrypt_spec(block_index, data, metadata);
            c.decrypt_spec(block_index, encd.0, encd.1) == (data, true)
        }
}

/// The keystream byte an [`XorBlockCipher`] derives for one block.
pub open spec fn block_mask(key: u8, block_index: u64) -> u8 {
    key ^ ((block_index & 0xff) as u8)
}

/// Every byte of `data`, masked with `m`.
pub open spec fn xor_with(data: Seq<u8>, m: u8) -> Seq<u8> {
    data.map(|i: int, b: u8| b ^ m)
}

/// A minimal correct cipher: a one-byte key combined with the low byte of
/// the block index masks every byte of the block. It never fails, leaves
/// the metadata buffer alone, and tolerates concurrent use (it holds no
/// mutable state).
pub struct XorBlockCipher {
    pub key: u8,
}

impl CustomCipher for XorBlockCipher {
    open spec fn encrypt_spec(&self, block_index: u64, data: Seq<u8>, metadata: Seq<u8>) -> (
        Seq<u8>,
        Seq<u8>,
        bool,
    ) {
        (xor_with(data, block_mask(self.key, block_index)), metadata, true)
    }

    open spec fn decrypt_spec(&self, block_index: u64, data: Seq<u8>, metadata: Seq<u8>) -> (
        Seq<u8>,
        bool,
    ) {
        (xor_with(data, block_mask(self.key, block_index)), true)
    }

    fn encrypt_block(&self, block_index: u64, data: &mut Vec<u8>, metadata: &mut Vec<u8>) -> (ok:
        bool) {
        mask_in_place(self.key, block_index, data);
        true
    }

    fn decrypt_block(&self, block_index: u64, data: &mut Vec<u8>, metadata: &Vec<u8>) -> (ok:
        bool) {
        mask_in_place(self.key, block_index, data);
        true
    }
}

/// Masks every byte of `data` with the keystream byte for this block.
fn mask_in_place(key: u8, block_index: u64, data: &mut Vec<u8>)
    ensures
        final(data)@ == xor_with(old(data)@, block_mask(key, block_index)),
{
    let m: u8 = key ^ ((block_index & 0xff) as u8);
    let mut i: usize = 0;
    while i < data.len()
        invariant
            i <= data@.len(),
            data@.len() == old(data)@.len(),
            m == block_mask(key, block_index),
            forall|j: int| 0 <= j < i ==> data@[j] == (old(data)@[j] ^ m),
            forall|j: int| i <= j < data@.len() ==> data@[j] == old(data)@[j],
        decreases data@.len() - i,
    {
        let b = data[i];
        data.set(i, b ^ m);
        i = i + 1;
    }
    proof {
        assert(data@ =~= xor_with(old(data)@, block_mask(key, block_index)));
    }
}

/// Law: an [`XorBlockCipher`] is a correct cipher — for every block index,
/// data block and metadata buffer, encrypting and then decrypting with the
/// same index restores the original data.
pub proof fn lemma_xor_cipher_inverts(c: XorBlockCipher)
    ensures
        inverts(c),
{
    assert forall|block_index: u64, data: Seq<u8>, metadata: Seq<u8>|
        (#[trigger] c.encrypt_spec(block_index, data, metadata)).2 implies {
        let encd = c.encrypt_spec(block_index, data, metadata);
        c.decrypt_spec(block_index, encd.0, encd.1) == (data, true)
    } by {
        let m = block_mask(c.key, block_index);
        let decd = xor_with(xor_with(data, m), m);
        assert forall|j: int| 0 <= j < data.len() implies decd[j] == data[j] by {
            let b = data[j];
            assert(((b ^ m) ^ m) == b) by (bit_vector);
        }
        assert(decd =~= data);
    }
}

} // verus!
