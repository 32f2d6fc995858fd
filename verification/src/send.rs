//! The transfer submission orchestrator: a single-use builder that composes
//! bundle preparation, order reversal, proof-of-work attachment and
//! broadcast validation, applying safe defaults.

use vstd::prelude::*;
use crate::address::{Address, Seed};
use crate::attach::{attach, attach_stalled, attached_chain, tx_fields_eq};
use crate::bundle::{
    prepare, prepared_bundle, prepare_ok, essence_fields_eq, output_tx_ok,
    input_tx_ok, lemma_bundle_essence_congruence, lemma_sum_values_congruence,
    lemma_security_sum_le,
};
use crate::error::Error;
use crate::transaction::{Transaction, AttachedTransaction, finalize_tx, bundle_essence};
use crate::transfer::{
    Transfer, Input, input_total, security_sum, lemma_security_sum_bound, inputs_wf,
};
use crate::trits::is_hash_trits;

verus! {

/// A sent bundle: the transactions, read back in preparation order, form a
/// prepared bundle, and the submitted sequence is chained and sealed by
/// proof of work.
pub open spec fn sent_bundle(
    seed: Seq<i8>,
    transfers: Seq<Transfer>,
    inputs: Seq<Input>,
    remainder: Option<Address>,
    security: u8,
    timestamp: u64,
    mwm: int,
    trunk: Seq<i8>,
    branch: Seq<i8>,
    out: Seq<AttachedTransaction>,
) -> bool {
    &&& prepared_bundle(
        seed,
        transfers,
        inputs,
        remainder,
        security,
        timestamp,
        out.map_values(|a: AttachedTransaction| a.tx).reverse(),
    )
    &&& attached_chain(out, trunk, branch, mwm)
}

/// A prepared-bundle statement carries over to any sequence that holds the
/// same transactions field for field.
pub proof fn lemma_prepared_bundle_congruence(
    seed: Seq<i8>,
    transfers: Seq<Transfer>,
    inputs: Seq<Input>,
    remainder: Option<Address>,
    security: u8,
    timestamp: u64,
    s1: Seq<Transaction>,
    s2: Seq<Transaction>,
)
    requires
        prepared_bundle(seed, transfers, inputs, remainder, security, timestamp, s1),
        inputs_wf(inputs),
        s2.len() == s1.len(),
        forall|k: int| 0 <= k < s2.len() ==> #[trigger] tx_fields_eq(s2[k], s1[k]),
    ensures
        prepared_bundle(seed, transfers, inputs, remainder, security, timestamp, s2),
{
    lemma_security_sum_bound(inputs, inputs.len() as int);
    assert forall|k: int| 0 <= k < s1.len() implies essence_fields_eq(s2[k], s1[k]) by {
        assert(tx_fields_eq(s2[k], s1[k]));
    }
    lemma_bundle_essence_congruence(s2, s1);
    assert forall|k: int| 0 <= k < s1.len() implies s2[k].value == s1[k].value by {
        assert(tx_fields_eq(s2[k], s1[k]));
    }
    lemma_sum_values_congruence(s2, s1);
    let t = transfers.len() as int;
    assert forall|k: int| 0 <= k < t implies #[trigger] output_tx_ok(s2, transfers, k) by {
        assert(output_tx_ok(s1, transfers, k));
        assert(tx_fields_eq(s2[k], s1[k]));
    }
    assert forall|a: int, b: int|
        0 <= a < inputs.len() && 0 <= b < inputs[a].security implies #[trigger] input_tx_ok(
        s2,
        t,
        inputs,
        a,
        b,
    ) by {
        lemma_security_sum_bound(inputs, a);
        lemma_security_sum_le(inputs, a + 1, inputs.len() as int);
        lemma_security_sum_bound(inputs, inputs.len() as int);
        assert(input_tx_ok(s1, t, inputs, a, b));
        let p = t + security_sum(inputs, a) + b;
        assert(tx_fields_eq(s2[p], s1[p]));
    }
    if s1.len() > 0 {
        assert(tx_fields_eq(s2[s1.len() - 1], s1[s1.len() - 1]));
    }
    assert forall|k: int| 0 <= k < s2.len() implies ((#[trigger] s2[k]).index == k
        && s2[k].last_index == s2.len() - 1 && s2[k].timestamp == timestamp && s2[k].wf()
        && s2[k].bundle_hash@ == kerl_of_essence(s2)) by {
        assert(tx_fields_eq(s2[k], s1[k]));
    }
}

/// The bundle hash a sequence should share: the digest of its essences.
pub open spec fn kerl_of_essence(txs: Seq<Transaction>) -> Seq<i8> {
    crate::crypto::kerl_of(bundle_essence(txs))
}

/// One concrete piece of evidence that a valid submission stalled:
/// `prepared` is the bundle the request determines, `submitted` is its
/// reversal into submission order, and position `k` of the submission
/// admits no proof-of-work nonce under the trunk reference its chain hands
/// it.
pub open spec fn send_stall_witness(
    seed: Seq<i8>,
    transfers: Seq<Transfer>,
    inputs: Seq<Input>,
    remainder: Option<Address>,
    security: u8,
    timestamp: u64,
    mwm: int,
    trunk: Seq<i8>,
    branch: Seq<i8>,
    prepared: Seq<Transaction>,
    submitted: Seq<Transaction>,
    prefix: Seq<AttachedTransaction>,
    k: int,
) -> bool {
    &&& prepared_bundle(seed, transfers, inputs, remainder, security, timestamp, prepared)
    &&& submitted.len() == prepared.len()
    &&& forall|a: int|
        0 <= a < submitted.len() ==> #[trigger] tx_fields_eq(
            submitted[a],
            prepared[prepared.len() - 1 - a],
        )
    &&& attach_stalled(submitted, trunk, branch, mwm, prefix, k)
}

/// A valid submission may fail only because some position of its reversed
/// bundle exhausted the nonce space at the configured difficulty.
pub open spec fn send_stalled(
    seed: Seq<i8>,
    transfers: Seq<Transfer>,
    inputs: Seq<Input>,
    remainder: Option<Address>,
    security: u8,
    timestamp: u64,
    mwm: int,
    trunk: Seq<i8>,
    branch: Seq<i8>,
) -> bool {
    exists|
        prepared: Seq<Transaction>,
        submitted: Seq<Transaction>,
        prefix: Seq<AttachedTransaction>,
        k: int,
    |
        #[trigger] send_stall_witness(
            seed,
            transfers,
            inputs,
            remainder,
            security,
            timestamp,
            mwm,
            trunk,
            branch,
            prepared,
            submitted,
            prefix,
            k,
        )
}

/// Copies a transaction sequence in reverse order.
fn reverse_txs(txs: &Vec<Transaction>) -> (r: Vec<Transaction>)
    ensures
        r@.len() == txs@.len(),
        forall|k: int|
            0 <= k < r@.len() ==> #[trigger] tx_fields_eq(r@[k], txs@[txs@.len() - 1 - k]),
{
    let n = txs.len();
    let mut r: Vec<Transaction> = Vec::new();
    let mut k: usize = 0;
    while k < n
        invariant
            0 <= k <= n,
            n == txs@.len(),
            r@.len() == k,
            forall|a: int| 0 <= a < k ==> #[trigger] tx_fields_eq(r@[a], txs@[n - 1 - a]),
        decreases n - k,
    {
        let ghost pre = r@;
        let src = &txs[n - 1 - k];
        let nt = finalize_tx(src, src.index, src.last_index, &src.bundle_hash);
        r.push(nt);
        proof {
            assert(r@.drop_last() =~= pre);
            assert(tx_fields_eq(r@[k as int], txs@[n - 1 - k]));
            assert forall|a: int| 0 <= a < k implies #[trigger] tx_fields_eq(
                r@[a],
                txs@[n - 1 - a],
            ) by {
                assert(tx_fields_eq(pre[a], txs@[n - 1 - a]));
            }
        }
        k += 1;
    }
    r
}

/// Builder for one transfer submission: one configuration, one send.
#[derive(Debug)]
pub struct SendTransfersBuilder {
    /// The signing seed; required at send time.
    pub seed: Option<Seed>,
    /// The requested transfers; set by the caller.
    pub transfers: Vec<Transfer>,
    /// Security level for remainder derivation, default 2.
    pub security: u8,
    /// Caller-supplied spending inputs; supplying them is strictly
    /// preferred, as the library does not search balances itself.
    pub inputs: Option<Vec<Input>>,
    /// Caller-supplied remainder address.
    pub remainder: Option<Address>,
    /// Tip search depth in milestones, default 3; used by the transport
    /// layer that resolves the trunk and branch tips.
    pub depth: u8,
    /// Proof-of-work difficulty, default 14.
    pub min_weight_magnitude: u8,
    /// Bundle construction timestamp; the layer around the library reads
    /// the clock and sets it, default 0.
    pub timestamp: u64,
    /// Optional tip reference; used by the transport layer during tip
    /// resolution.
    pub reference: Option<crate::address::Hash>,
}

/// The inputs a configuration spends: the configured ones, or none.
pub open spec fn spec_inputs(b: SendTransfersBuilder) -> Seq<Input> {
    match b.inputs {
        Some(v) => v@,
        None => Seq::empty(),
    }
}

impl SendTransfersBuilder {
    /// A fresh configuration with the safe defaults.
    pub fn new() -> (r: SendTransfersBuilder)
        ensures
            r.seed is None,
            r.transfers@.len() == 0,
            r.security == 2,
            r.inputs is None,
            r.remainder is None,
            r.depth == 3,
            r.min_weight_magnitude == 14,
            r.timestamp == 0,
            r.reference is None,
    {
        SendTransfersBuilder {
            seed: None,
            transfers: Vec::new(),
            security: 2,
            inputs: None,
            remainder: None,
            depth: 3,
            min_weight_magnitude: 14,
            timestamp: 0,
            reference: None,
        }
    }

    /// Sets the signing seed.
    pub fn seed(self, seed: Seed) -> (r: Self)
        ensures
            r == (SendTransfersBuilder { seed: Some(seed), ..self }),
    {
        SendTransfersBuilder { seed: Some(seed), ..self }
    }

    /// Sets the transfers to make.
    pub fn transfers(self, transfers: Vec<Transfer>) -> (r: Self)
        ensures
            r == (SendTransfersBuilder { transfers, ..self }),
    {
        SendTransfersBuilder { transfers, ..self }
    }

    /// Sets the security level.
    pub fn security(self, security: u8) -> (r: Self)
        ensures
            r == (SendTransfersBuilder { security, ..self }),
    {
        SendTransfersBuilder { security, ..self }
    }

    /// Sets explicit spending inputs. Always better to provide them, since
    /// searching valid inputs from scratch is an external, wasteful lookup.
    pub fn inputs(self, inputs: Vec<Input>) -> (r: Self)
        ensures
            r == (SendTransfersBuilder { inputs: Some(inputs), ..self }),
    {
        SendTransfersBuilder { inputs: Some(inputs), ..self }
    }

    /// Sets a custom remainder address.
    pub fn remainder(self, remainder: Address) -> (r: Self)
        ensures
            r == (SendTransfersBuilder { remainder: Some(remainder), ..self }),
    {
        SendTransfersBuilder { remainder: Some(remainder), ..self }
    }

    /// Sets the tip search depth.
    pub fn depth(self, depth: u8) -> (r: Self)
        ensures
            r == (SendTransfersBuilder { depth, ..self }),
    {
        SendTransfersBuilder { depth, ..self }
    }

    /// Sets the proof-of-work difficulty.
    pub fn min_weight_magnitude(self, min_weight_magnitude: u8) -> (r: Self)
        ensures
            r == (SendTransfersBuilder { min_weight_magnitude, ..self }),
    {
        SendTransfersBuilder { min_weight_magnitude, ..self }
    }

    /// Sets the bundle construction timestamp.
    pub fn timestamp(self, timestamp: u64) -> (r: Self)
        ensures
            r == (SendTransfersBuilder { timestamp, ..self }),
    {
        SendTransfersBuilder { timestamp, ..self }
    }

    /// Sets the tip reference hash.
    pub fn reference(self, reference: crate::address::Hash) -> (r: Self)
        ensures
            r == (SendTransfersBuilder { reference: Some(reference), ..self }),
    {
        SendTransfersBuilder { reference: Some(reference), ..self }
    }

    /// Runs the submission: fails fast without a seed, prepares the bundle,
    /// reverses it into submission order, and attaches it to the given
    /// trunk and branch tips. Either the whole bundle is attached or the
    /// call fails with one error; no partial bundle is returned.
    #[verifier::rlimit(60)]
    pub fn send(
        self,
        trunk: &crate::address::Hash,
        branch: &crate::address::Hash,
    ) -> (r: Result<Vec<AttachedTransaction>, Error>)
        requires
            trunk.wf(),
            branch.wf(),
            self.seed matches Some(s) ==> s.wf(),
            self.remainder matches Some(a) ==> a.wf(),
            input_total(spec_inputs(self)) < 0x80000000000000000000000000000000,
            self.transfers@.len() + 3 * spec_inputs(self).len() + 1 < usize::MAX,
        ensures
            self.seed is None <==> (r matches Err(e) && e is MissingSeed),
            (self.seed is Some && self.transfers@.len() == 0) <==> (r matches Err(e)
                && e is Serialization),
            self.seed is Some && self.transfers@.len() > 0 && !prepare_ok(
                self.transfers@,
                spec_inputs(self),
                self.security,
            ) ==> (r matches Err(e) && e == crate::bundle::prepare_error(
                self.transfers@,
                spec_inputs(self),
                self.security,
            )),
            self.seed is Some && self.transfers@.len() > 0 && prepare_ok(
                self.transfers@,
                spec_inputs(self),
                self.security,
            ) && !(1 <= self.min_weight_magnitude <= 243) ==> (r matches Err(e)
                && e is Attachment),
            self.seed matches Some(s) ==> self.transfers@.len() > 0 && prepare_ok(
                self.transfers@,
                spec_inputs(self),
                self.security,
            ) && 1 <= self.min_weight_magnitude <= 243 && r is Err ==> (r matches Err(e)
                && e is Attachment) && send_stalled(
                s@,
                self.transfers@,
                spec_inputs(self),
                self.remainder,
                self.security,
                self.timestamp,
                self.min_weight_magnitude as int,
                trunk.trits@,
                branch.trits@,
            ),
            r is Ok ==> prepare_ok(self.transfers@, spec_inputs(self), self.security) && 1
                <= self.min_weight_magnitude <= 243 && self.transfers@.len() > 0,
            r matches Ok(out) ==> (self.seed matches Some(s) && sent_bundle(
                s@,
                self.transfers@,
                spec_inputs(self),
                self.remainder,
                self.security,
                self.timestamp,
                self.min_weight_magnitude as int,
                trunk.trits@,
                branch.trits@,
                out@,
            )),
    {
        let ghost cfg = self;
        let SendTransfersBuilder {
            seed,
            transfers,
            security,
            inputs,
            remainder,
            min_weight_magnitude,
            timestamp,
            ..
        } = self;
        let seed = match seed {
            Some(s) => s,
            None => {
                return Err(Error::MissingSeed);
            },
        };
        if transfers.len() == 0 {
            return Err(Error::Serialization);
        }
        let inputs: Vec<Input> = match inputs {
            Some(v) => v,
            None => Vec::new(),
        };
        proof {
            assert(inputs@ == spec_inputs(cfg));
        }
        let txs = match prepare(&seed, &transfers, security, &inputs, &remainder, timestamp) {
            Ok(t) => t,
            Err(e) => {
                return Err(e);
            },
        };
        let rev = reverse_txs(&txs);
        proof {
            assert forall|k: int| 0 <= k < rev@.len() implies (#[trigger] rev@[k]).wf() by {
                assert(tx_fields_eq(rev@[k], txs@[txs@.len() - 1 - k]));
            }
        }
        let out = match attach(trunk, branch, &rev, min_weight_magnitude) {
            Ok(o) => o,
            Err(e) => {
                proof {
                    if 1 <= min_weight_magnitude <= 243 {
                        let (prefix, stop) = choose|
                            prefix: Seq<AttachedTransaction>,
                            stop: int,
                        |
                            attach_stalled(
                                rev@,
                                trunk.trits@,
                                branch.trits@,
                                min_weight_magnitude as int,
                                prefix,
                                stop,
                            );
                        assert(send_stall_witness(
                            seed@,
                            cfg.transfers@,
                            spec_inputs(cfg),
                            cfg.remainder,
                            cfg.security,
                            cfg.timestamp,
                            cfg.min_weight_magnitude as int,
                            trunk.trits@,
                            branch.trits@,
                            txs@,
                            rev@,
                            prefix,
                            stop,
                        ));
                    }
                }
                return Err(e);
            },
        };
        proof {
            let n = txs@.len() as int;
            let m = out@.map_values(|a: AttachedTransaction| a.tx).reverse();
            assert(m.len() == n);
            assert forall|k: int| 0 <= k < n implies #[trigger] tx_fields_eq(m[k], txs@[k]) by {
                let j = n - 1 - k;
                assert(m[k] == out@[j].tx);
                assert(tx_fields_eq(out@[j].tx, rev@[j]));
                assert(tx_fields_eq(rev@[j], txs@[txs@.len() - 1 - j]));
                assert(txs@.len() - 1 - j == k);
            }
            lemma_prepared_bundle_congruence(
                seed@,
                transfers@,
                inputs@,
                remainder,
                security,
                timestamp,
                txs@,
                m,
            );
        }
        Ok(out)
    }
}

/// Validates a rebroadcast request: the tail hash must identify the tail
/// transaction of the already-attached bundle. Nothing is re-derived and no
/// proof of work is repeated; the bundle itself is left untouched.
pub fn broadcast(tail: &crate::address::Hash, bundle: &Vec<AttachedTransaction>) -> (r: Result<
    (),
    Error,
>)
    ensures
        r is Ok <==> (bundle@.len() > 0 && bundle@.last().tx.index == 0 && bundle@.last().hash@
            == tail.trits@),
        r matches Err(e) ==> e is InvalidAddress,
{
    let n = bundle.len();
    if n == 0 {
        return Err(Error::InvalidAddress);
    }
    let last = &bundle[n - 1];
    if last.tx.index != 0 {
        return Err(Error::InvalidAddress);
    }
    if !trits_equal(&last.hash, &tail.trits) {
        return Err(Error::InvalidAddress);
    }
    Ok(())
}

/// Compares two trit vectors for equality.
fn trits_equal(a: &Vec<i8>, b: &Vec<i8>) -> (r: bool)
    ensures
        r == (a@ == b@),
{
    if a.len() != b.len() {
        proof {
            assert(a@.len() != b@.len());
        }
        return false;
    }
    let mut k: usize = 0;
    while k < a.len()
        invariant
            0 <= k <= a@.len(),
            a@.len() == b@.len(),
            forall|i: int| 0 <= i < k ==> a@[i] == b@[i],
        decreases a@.len() - k,
    {
        if a[k] != b[k] {
            return false;
        }
        k += 1;
    }
    proof {
        assert(a@ =~= b@);
    }
    true
}

/// A tail obtained from a successful send rebroadcasts successfully: the
/// last submitted transaction is the bundle's tail, and its hash is the
/// identifier broadcast validates against.
pub proof fn lemma_send_then_broadcast(
    seed: Seq<i8>,
    transfers: Seq<Transfer>,
    inputs: Seq<Input>,
    remainder: Option<Address>,
    security: u8,
    timestamp: u64,
    mwm: int,
    trunk: Seq<i8>,
    branch: Seq<i8>,
    out: Seq<AttachedTransaction>,
    tail: Seq<i8>,
)
    requires
        sent_bundle(seed, transfers, inputs, remainder, security, timestamp, mwm, trunk, branch, out),
        out.len() > 0,
        tail == out.last().hash@,
    ensures
        out.len() > 0 && out.last().tx.index == 0 && out.last().hash@ == tail,
{
    let m = out.map_values(|a: AttachedTransaction| a.tx).reverse();
    assert(m[0] == out[out.len() - 1].tx);
}

/// Validates a consistency query: every tail identifier must be a
/// well-formed hash. A pure check; no state is read or written.
pub fn check_consistency(tails: &Vec<Vec<i8>>) -> (r: Result<Vec<crate::address::Hash>, Error>)
    ensures
        r is Ok <==> (forall|k: int| 0 <= k < tails@.len() ==> is_hash_trits(tails@[k]@)),
        r matches Ok(hs) ==> hs@.len() == tails@.len() && (forall|k: int|
            0 <= k < hs@.len() ==> (#[trigger] hs@[k]).trits@ == tails@[k]@),
        r matches Err(e) ==> e is InvalidAddress,
{
    let mut hs: Vec<crate::address::Hash> = Vec::new();
    let mut k: usize = 0;
    while k < tails.len()
        invariant
            0 <= k <= tails@.len(),
            hs@.len() == k,
            forall|i: int| 0 <= i < k ==> is_hash_trits(tails@[i]@),
            forall|i: int| 0 <= i < k ==> (#[trigger] hs@[i]).trits@ == tails@[i]@,
        decreases tails@.len() - k,
    {
        match crate::address::Hash::from_trits(&tails[k]) {
            Ok(h) => {
                hs.push(h);
            },
            Err(_) => {
                return Err(Error::InvalidAddress);
            },
        }
        k += 1;
    }
    Ok(hs)
}

/// The tail flags of a submitted sequence: true exactly for the bundle's
/// tail transaction.
pub fn tail_flags(txs: &Vec<AttachedTransaction>) -> (r: Vec<bool>)
    ensures
        r@.len() == txs@.len(),
        forall|k: int| 0 <= k < r@.len() ==> r@[k] == ((#[trigger] txs@[k]).tx.index == 0),
{
    let mut r: Vec<bool> = Vec::new();
    let mut k: usize = 0;
    while k < txs.len()
        invariant
            0 <= k <= txs@.len(),
            r@.len() == k,
            forall|i: int| 0 <= i < k ==> r@[i] == ((#[trigger] txs@[i]).tx.index == 0),
        decreases txs@.len() - k,
    {
        r.push(txs[k].is_tail());
        k += 1;
    }
    r
}

} // verus!
