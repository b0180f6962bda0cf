//! The cipher bridge: one record per encrypted environment, joining a boxed
//! cipher capability with the two fixed byte-length parameters, exposed to
//! the engine boundary as a single opaque address.
//!
//! The boundary is modelled as a table of stable slots: registering a bridge
//! hands out a fresh address (slot index), the three entry points recover
//! the record from that address, and destroying a bridge vacates its slot
//! and appends the address to the destroy log. Addresses are never reused,
//! so a destroyed bridge can never come back to life.
#![allow(unused_imports)]
use vstd::prelude::*;

use crate::cipher::CustomCipher;
use crate::cipher::inverts;

verus! {

/// The single heap record handed across the boundary: the cipher capability
/// together with the block and metadata sizes used for every call over the
/// life of the owning environment. Sizes are cached here at construction
/// time and never re-supplied per call.
pub struct CipherBridge<C> {
    pub cipher: C,
    pub block_size: usize,
    pub metadata_size: usize,
}

/// The boundary's view of every bridge record ever handed over.
///
/// A slot index is the opaque address the engine holds. A slot is live
/// between registration and the one destroy call; `destroy_log` records, in
/// order, each address on which destroy has fired.
pub struct BridgeTable<C> {
    pub slots: Vec<Option<CipherBridge<C>>>,
    pub destroy_log: Vec<usize>,
}

impl<C> BridgeTable<C> {
    /// How many addresses have ever been handed out.
    pub open spec fn slot_count(self) -> int {
        self.slots@.len() as int
    }

    /// Whether the record at `addr` is still alive: registered, not yet
    /// destroyed, and not released by a failed construction.
    pub open spec fn live(self, addr: int) -> bool {
        0 <= addr < self.slot_count() && self.slots@[addr] is Some
    }

    /// The record at a live address.
    pub open spec fn record(self, addr: int) -> CipherBridge<C> {
        self.slots@[addr]->0
    }

    /// The addresses on which destroy has fired, oldest first.
    pub open spec fn log(self) -> Seq<usize> {
        self.destroy_log@
    }

    /// Well-formedness: destroy only ever fired on addresses that were
    /// handed out and are dead now, and fired at most once per address.
    pub open spec fn wf(self) -> bool {
        &&& forall|i: int|
            0 <= i < self.log().len() ==> (#[trigger] self.log()[i]) < self.slot_count() && !self.live(
                self.log()[i] as int,
            )
        &&& forall|i: int, j: int|
            0 <= i < j < self.log().len() ==> self.log()[i] != self.log()[j]
    }

    /// An empty table: no address handed out, no destroy fired.
    pub fn empty() -> (t: BridgeTable<C>)
        ensures
            t.wf(),
            t.slot_count() == 0,
            t.log() =~= Seq::<usize>::empty(),
    {
        BridgeTable { slots: Vec::new(), destroy_log: Vec::new() }
    }

    /// Allocates one independent bridge record for `cipher` and the two
    /// sizes, and hands out its fresh opaque address. Nothing already
    /// registered moves or changes.
    pub fn register(&mut self, cipher: C, block_size: usize, metadata_size: usize) -> (addr: usize)
        requires
            old(self).wf(),
        ensures
            final(self).wf(),
            addr == old(self).slot_count(),
            final(self).slot_count() == old(self).slot_count() + 1,
            final(self).live(addr as int),
            final(self).record(addr as int) == (CipherBridge { cipher, block_size, metadata_size }),
            forall|a: int|
                0 <= a < old(self).slot_count() ==> final(self).slots@[a] == old(self).slots@[a],
            final(self).log() == old(self).log(),
    {
        let addr = self.slots.len();
        self.slots.push(Some(CipherBridge { cipher, block_size, metadata_size }));
        proof {
            assert forall|i: int|
                0 <= i < self.log().len() implies (#[trigger] self.log()[i]) < self.slot_count()
                && !self.live(self.log()[i] as int) by {
                assert(old(self).log()[i] < old(self).slot_count());
                assert(!old(self).live(old(self).log()[i] as int));
            }
        }
        addr
    }

    /// Releases a bridge whose surrounding environment construction failed:
    /// destroy will never fire for it, so the constructing side reclaims
    /// the record immediately. Only the most recently handed-out address
    /// can be in that state.
    pub fn release_unconstructed(&mut self, addr: usize)
        requires
            old(self).wf(),
            old(self).live(addr as int),
            addr as int == old(self).slot_count() - 1,
        ensures
            final(self).wf(),
            final(self).slots@ == old(self).slots@.drop_last(),
            final(self).log() == old(self).log(),
    {
        self.slots.pop();
        proof {
            assert(self.slots@ =~= old(self).slots@.drop_last());
            assert forall|i: int|
                0 <= i < self.log().len() implies (#[trigger] self.log()[i]) < self.slot_count()
                && !self.live(self.log()[i] as int) by {
                assert(old(self).log()[i] < old(self).slot_count());
                assert(!old(self).live(old(self).log()[i] as int));
                assert(old(self).log()[i] != addr);
            }
        }
    }
}

/// The destroy entry point: reclaims the record at `addr` and records the
/// event. Every other record is untouched. The engine owes that this call
/// is serialized after all encrypt/decrypt calls on `addr` and issued
/// exactly once; the precondition and the log state that protocol.
pub fn destroy<C>(table: &mut BridgeTable<C>, addr: usize)
    requires
        old(table).wf(),
        old(table).live(addr as int),
    ensures
        final(table).wf(),
        final(table).slot_count() == old(table).slot_count(),
        !final(table).live(addr as int),
        forall|a: int|
            0 <= a < old(table).slot_count() && a != addr ==> final(table).slots@[a] == old(
                table,
            ).slots@[a],
        final(table).log() == old(table).log().push(addr),
{
    table.slots.set(addr, None);
    table.destroy_log.push(addr);
    proof {
        assert forall|i: int|
            0 <= i < table.log().len() implies (#[trigger] table.log()[i]) < table.slot_count()
            && !table.live(table.log()[i] as int) by {
            if i < old(table).log().len() {
                assert(old(table).log()[i] == table.log()[i]);
                assert(!old(table).live(table.log()[i] as int));
            }
        }
    }
}

/// The encrypt entry point: recovers the bridge record from the opaque
/// address and invokes the cipher's encrypt operation in place, forwarding
/// its result unchanged. The buffers must have exactly the lengths fixed at
/// construction; the engine owes that the address is live.
pub fn encrypt_block<C: CustomCipher>(
    table: &BridgeTable<C>,
    addr: usize,
    block_index: u64,
    data: &mut Vec<u8>,
    metadata: &mut Vec<u8>,
) -> (ok: bool)
    requires
        table.live(addr as int),
        old(data)@.len() == table.record(addr as int).block_size,
        old(metadata)@.len() == table.record(addr as int).metadata_size,
    ensures
        (final(data)@, final(metadata)@, ok) == table.record(addr as int).cipher.encrypt_spec(
            block_index,
            old(data)@,
            old(metadata)@,
        ),
        final(data)@.len() == old(data)@.len(),
        final(metadata)@.len() == old(metadata)@.len(),
{
    match &table.slots[addr] {
        Some(bridge) => bridge.cipher.encrypt_block(block_index, data, metadata),
        None => vstd::pervasive::unreached(),
    }
}

/// The decrypt entry point: identical shape to encryption, except the
/// metadata buffer is read-only and the data buffer goes from ciphertext
/// back to plaintext in place.
pub fn decrypt_block<C: CustomCipher>(
    table: &BridgeTable<C>,
    addr: usize,
    block_index: u64,
    data: &mut Vec<u8>,
    metadata: &Vec<u8>,
) -> (ok: bool)
    requires
        table.live(addr as int),
        old(data)@.len() == table.record(addr as int).block_size,
        metadata@.len() == table.record(addr as int).metadata_size,
    ensures
        (final(data)@, ok) == table.record(addr as int).cipher.decrypt_spec(
            block_index,
            old(data)@,
            metadata@,
        ),
        final(data)@.len() == old(data)@.len(),
{
    match &table.slots[addr] {
        Some(bridge) => bridge.cipher.decrypt_block(block_index, data, metadata),
        None => vstd::pervasive::unreached(),
    }
}

/// Law (round trip): for a correct cipher behind a live bridge, whenever
/// encryption of a block succeeds, decrypting the result with the same
/// block index and the metadata buffer encryption produced yields the
/// original plaintext.
pub proof fn lemma_round_trip<C: CustomCipher>(
    table: BridgeTable<C>,
    addr: int,
    block_index: u64,
    data: Seq<u8>,
    metadata: Seq<u8>,
)
    requires
        table.live(addr),
        inverts(table.record(addr).cipher),
        table.record(addr).cipher.encrypt_spec(block_index, data, metadata).2,
    ensures
        ({
            let encd = table.record(addr).cipher.encrypt_spec(block_index, data, metadata);
            table.record(addr).cipher.decrypt_spec(block_index, encd.0, encd.1) == (data, true)
        }),
{
}

/// Law (exactly-once release): in a well-formed table the destroy log never
/// names the same address twice — destroy fires at most once per bridge.
pub proof fn lemma_destroy_at_most_once<C>(table: BridgeTable<C>, i: int, j: int)
    requires
        table.wf(),
        0 <= i < j < table.log().len(),
    ensures
        table.log()[i] != table.log()[j],
{
}

/// Law (no calls after destroy): once destroy has fired on an address, the
/// bridge there is gone for good, so no encrypt or decrypt call can ever be
/// admitted on it again — both entry points demand a live address.
pub proof fn lemma_no_calls_after_destroy<C>(table: BridgeTable<C>, addr: usize)
    requires
        table.wf(),
        table.log().contains(addr),
    ensures
        !table.live(addr as int),
{
    let i = choose|i: int| 0 <= i < table.log().len() && table.log()[i] == addr;
    assert(table.log()[i] == addr);
}

} // verus!
