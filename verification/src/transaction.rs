//! Transactions: the fixed-shape records a bundle is made of, their essence
//! encoding, and the attached form produced by proof of work.

use vstd::prelude::*;
use crate::trits::{
    valid_trits, is_hash_trits, encode_trits, encode_signed_trits, zero_trits, int_to_trits,
    nat_to_trits, copy_trits, lemma_encode_trits_wf, lemma_encode_signed_trits_wf, HASH_TRITS,
    TAG_TRITS, VALUE_TRITS, INDEX_TRITS, FRAGMENT_TRITS, NONCE_TRITS,
};

verus! {

/// Length in trits of one transaction's essence: address, value, tag,
/// timestamp, bundle index and last index.
pub const ESSENCE_TRITS: usize = 486;

/// Length in trits of the sealed record that proof of work hashes: essence,
/// bundle hash, trunk, branch, nonce and padding.
pub const ATTACH_TRITS: usize = 1458;

/// One transaction of a bundle, before attachment: trunk, branch and nonce
/// are still unset.
#[derive(Debug)]
pub struct Transaction {
    /// Destination (credit) or source (debit) address, 243 trits.
    pub address: Vec<i8>,
    /// Transferred value: positive credit, negative debit, zero fragment.
    pub value: i128,
    /// Tag, 81 trits.
    pub tag: Vec<i8>,
    /// Signature or message fragment, 6561 trits.
    pub fragment: Vec<i8>,
    /// Bundle construction timestamp.
    pub timestamp: u64,
    /// Position of this transaction inside its bundle.
    pub index: u64,
    /// Highest index of the bundle.
    pub last_index: u64,
    /// Hash shared by every transaction of the bundle, 243 trits.
    pub bundle_hash: Vec<i8>,
}

impl Transaction {
    /// Field shapes of a well-formed transaction.
    pub open spec fn wf(&self) -> bool {
        &&& is_hash_trits(self.address@)
        &&& self.tag@.len() == TAG_TRITS && valid_trits(self.tag@)
        &&& self.fragment@.len() == FRAGMENT_TRITS && valid_trits(self.fragment@)
        &&& -0x80000000000000000000000000000000 < self.value
        &&& is_hash_trits(self.bundle_hash@)
    }

    /// The tail of a bundle is its first-indexed transaction.
    pub fn is_tail(&self) -> (r: bool)
        ensures
            r == (self.index == 0),
    {
        self.index == 0
    }
}

/// Checks that every transaction in the sequence has the well-formed field
/// shapes, so that callers at the crate's boundary can establish what the
/// attachment entry points require.
pub fn validate_transactions(ts: &Vec<Transaction>) -> (r: bool)
    ensures
        r == (forall|i: int| 0 <= i < ts@.len() ==> (#[trigger] ts@[i]).wf()),
{
    let mut k: usize = 0;
    while k < ts.len()
        invariant
            0 <= k <= ts@.len(),
            forall|i: int| 0 <= i < k ==> (#[trigger] ts@[i]).wf(),
        decreases ts@.len() - k,
    {
        let t = &ts[k];
        if t.address.len() != HASH_TRITS || !crate::trits::check_trits(&t.address) {
            return false;
        }
        if t.tag.len() != TAG_TRITS || !crate::trits::check_trits(&t.tag) {
            return false;
        }
        if t.fragment.len() != FRAGMENT_TRITS || !crate::trits::check_trits(&t.fragment) {
            return false;
        }
        if t.value < -0x7fffffffffffffffffffffffffffffffi128 {
            return false;
        }
        if t.bundle_hash.len() != HASH_TRITS || !crate::trits::check_trits(&t.bundle_hash) {
            return false;
        }
        k += 1;
    }
    true
}

/// The essence of a transaction: the fields the bundle hash commits to.
pub open spec fn tx_essence(t: Transaction) -> Seq<i8> {
    t.address@ + encode_signed_trits(t.value as int, VALUE_TRITS as nat) + t.tag@ + encode_trits(
        t.timestamp as int,
        INDEX_TRITS as nat,
    ) + encode_trits(t.index as int, INDEX_TRITS as nat) + encode_trits(
        t.last_index as int,
        INDEX_TRITS as nat,
    )
}

pub proof fn lemma_tx_essence_wf(t: Transaction)
    requires
        t.wf(),
    ensures
        tx_essence(t).len() == ESSENCE_TRITS,
        valid_trits(tx_essence(t)),
{
    lemma_encode_signed_trits_wf(t.value as int, VALUE_TRITS as nat);
    lemma_encode_trits_wf(t.timestamp as int, INDEX_TRITS as nat);
    lemma_encode_trits_wf(t.index as int, INDEX_TRITS as nat);
    lemma_encode_trits_wf(t.last_index as int, INDEX_TRITS as nat);
}

/// The concatenated essences of a transaction sequence: what the bundle
/// hash is computed over.
pub open spec fn bundle_essence(txs: Seq<Transaction>) -> Seq<i8>
    decreases txs.len(),
{
    if txs.len() == 0 {
        Seq::empty()
    } else {
        bundle_essence(txs.drop_last()) + tx_essence(txs.last())
    }
}

pub proof fn lemma_bundle_essence_wf(txs: Seq<Transaction>)
    requires
        forall|i: int| 0 <= i < txs.len() ==> txs[i].wf(),
    ensures
        bundle_essence(txs).len() == ESSENCE_TRITS * txs.len(),
        bundle_essence(txs).len() % 243 == 0,
        valid_trits(bundle_essence(txs)),
    decreases txs.len(),
{
    if txs.len() > 0 {
        lemma_bundle_essence_wf(txs.drop_last());
        lemma_tx_essence_wf(txs.last());
    }
}

/// The sum of the transaction values of a sequence.
pub open spec fn sum_values(txs: Seq<Transaction>) -> int
    decreases txs.len(),
{
    if txs.len() == 0 {
        0
    } else {
        sum_values(txs.drop_last()) + txs.last().value
    }
}

/// Appends the trits of `src` to `out`.
pub fn append_trits(out: &mut Vec<i8>, src: &Vec<i8>)
    ensures
        final(out)@ == old(out)@ + src@,
{
    let mut k: usize = 0;
    while k < src.len()
        invariant
            0 <= k <= src@.len(),
            out@ == old(out)@ + src@.take(k as int),
        decreases src@.len() - k,
    {
        out.push(src[k]);
        proof {
            assert(old(out)@ + src@.take((k + 1) as int) =~= (old(out)@ + src@.take(k as int)).push(
                src@[k as int],
            ));
        }
        k += 1;
    }
    proof {
        assert(src@.take(src@.len() as int) =~= src@);
    }
}

/// Appends the essence of `t` to `out`.
pub fn append_tx_essence(out: &mut Vec<i8>, t: &Transaction)
    requires
        t.wf(),
    ensures
        final(out)@ == old(out)@ + tx_essence(*t),
{
    append_trits(out, &t.address);
    let value_trits = int_to_trits(t.value, VALUE_TRITS);
    append_trits(out, &value_trits);
    append_trits(out, &t.tag);
    let ts_trits = nat_to_trits(t.timestamp as u128, INDEX_TRITS);
    append_trits(out, &ts_trits);
    let idx_trits = nat_to_trits(t.index as u128, INDEX_TRITS);
    append_trits(out, &idx_trits);
    let last_trits = nat_to_trits(t.last_index as u128, INDEX_TRITS);
    append_trits(out, &last_trits);
    proof {
        assert(out@ =~= old(out)@ + tx_essence(*t));
    }
}

/// A transaction with resolved trunk and branch references and a nonce that
/// satisfies the difficulty predicate; immutable once produced.
#[derive(Debug)]
pub struct AttachedTransaction {
    /// The underlying transaction, unchanged by attachment.
    pub tx: Transaction,
    /// First predecessor reference in the tangle graph.
    pub trunk: Vec<i8>,
    /// Second predecessor reference in the tangle graph.
    pub branch: Vec<i8>,
    /// The proof-of-work nonce.
    pub nonce: u64,
    /// The transaction's own hash under that nonce.
    pub hash: Vec<i8>,
}

impl AttachedTransaction {
    /// Field shapes of a well-formed attached transaction.
    pub open spec fn wf(&self) -> bool {
        &&& self.tx.wf()
        &&& is_hash_trits(self.trunk@)
        &&& is_hash_trits(self.branch@)
        &&& is_hash_trits(self.hash@)
    }

    /// The tail of an attached bundle is its first-indexed transaction.
    pub fn is_tail(&self) -> (r: bool)
        ensures
            r == (self.tx.index == 0),
    {
        self.tx.index == 0
    }
}

/// The sealed record proof of work hashes for one transaction: essence,
/// bundle hash, trunk, branch, nonce, zero padding.
pub open spec fn attach_record(t: Transaction, trunk: Seq<i8>, branch: Seq<i8>, nonce: u64) -> Seq<
    i8,
> {
    tx_essence(t) + t.bundle_hash@ + trunk + branch + encode_trits(nonce as int, NONCE_TRITS as nat)
        + zero_trits(162)
}

pub proof fn lemma_attach_record_wf(t: Transaction, trunk: Seq<i8>, branch: Seq<i8>, nonce: u64)
    requires
        t.wf(),
        is_hash_trits(trunk),
        is_hash_trits(branch),
    ensures
        attach_record(t, trunk, branch, nonce).len() == ATTACH_TRITS,
        attach_record(t, trunk, branch, nonce).len() % 243 == 0,
        valid_trits(attach_record(t, trunk, branch, nonce)),
{
    lemma_tx_essence_wf(t);
    lemma_encode_trits_wf(nonce as int, NONCE_TRITS as nat);
}

/// Builds the sealed record for one transaction and nonce.
pub fn build_attach_record(t: &Transaction, trunk: &Vec<i8>, branch: &Vec<i8>, nonce: u64) -> (r:
    Vec<i8>)
    requires
        t.wf(),
        is_hash_trits(trunk@),
        is_hash_trits(branch@),
    ensures
        r@ == attach_record(*t, trunk@, branch@, nonce),
{
    let mut out: Vec<i8> = Vec::new();
    append_tx_essence(&mut out, t);
    append_trits(&mut out, &t.bundle_hash);
    append_trits(&mut out, trunk);
    append_trits(&mut out, branch);
    let nonce_trits = nat_to_trits(nonce as u128, NONCE_TRITS);
    append_trits(&mut out, &nonce_trits);
    let pad = crate::trits::make_zero_trits(162);
    append_trits(&mut out, &pad);
    proof {
        assert(out@ =~= attach_record(*t, trunk@, branch@, nonce));
    }
    out
}

/// Copies a transaction, giving it its bundle position and bundle hash.
pub fn finalize_tx(t: &Transaction, index: u64, last_index: u64, bundle_hash: &Vec<i8>) -> (r:
    Transaction)
    ensures
        r.address@ == t.address@,
        r.value == t.value,
        r.tag@ == t.tag@,
        r.fragment@ == t.fragment@,
        r.timestamp == t.timestamp,
        r.index == index,
        r.last_index == last_index,
        r.bundle_hash@ == bundle_hash@,
{
    Transaction {
        address: copy_trits(&t.address),
        value: t.value,
        tag: copy_trits(&t.tag),
        fragment: copy_trits(&t.fragment),
        timestamp: t.timestamp,
        index,
        last_index,
        bundle_hash: copy_trits(bundle_hash),
    }
}

} // verus!
