//! Proof-of-work attachment: links each transaction of a bundle to the
//! tangle through trunk and branch references and seals it with a nonce
//! whose hash meets the difficulty predicate.

use vstd::prelude::*;
use crate::crypto::{kerl_digest, kerl_of};
use crate::error::Error;
use crate::transaction::{
    Transaction, AttachedTransaction, attach_record, build_attach_record, lemma_attach_record_wf,
    finalize_tx,
};
use crate::trits::{copy_trits, is_hash_trits, HASH_TRITS};

verus! {

/// The difficulty predicate: the hash ends in at least `mwm` zero trits.
pub open spec fn pow_ok(h: Seq<i8>, mwm: int) -> bool {
    forall|i: int| HASH_TRITS - mwm <= i < HASH_TRITS ==> h[i] == 0
}

/// Two transactions hold the same record, field by field.
pub open spec fn tx_fields_eq(a: Transaction, b: Transaction) -> bool {
    &&& a.address@ == b.address@
    &&& a.value == b.value
    &&& a.tag@ == b.tag@
    &&& a.fragment@ == b.fragment@
    &&& a.timestamp == b.timestamp
    &&& a.index == b.index
    &&& a.last_index == b.last_index
    &&& a.bundle_hash@ == b.bundle_hash@
}

/// Link `k` of an attached sequence: the first transaction references the
/// given trunk tip, every later one the hash solved just before it; all
/// reference the branch tip; and each hash is the digest of the
/// transaction's sealed record and meets the difficulty.
pub open spec fn attach_link_ok(
    r: Seq<AttachedTransaction>,
    trunk: Seq<i8>,
    branch: Seq<i8>,
    mwm: int,
    k: int,
) -> bool {
    &&& r[k].trunk@ == if k == 0 {
        trunk
    } else {
        r[k - 1].hash@
    }
    &&& r[k].branch@ == branch
    &&& r[k].hash@ == kerl_of(attach_record(r[k].tx, r[k].trunk@, r[k].branch@, r[k].nonce))
    &&& pow_ok(r[k].hash@, mwm)
    &&& r[k].wf()
}

/// A fully attached sequence: every link holds.
pub open spec fn attached_chain(
    r: Seq<AttachedTransaction>,
    trunk: Seq<i8>,
    branch: Seq<i8>,
    mwm: int,
) -> bool {
    forall|k: int| 0 <= k < r.len() ==> #[trigger] attach_link_ok(r, trunk, branch, mwm, k)
}

/// No searchable nonce seals this transaction between these references at
/// this difficulty: every candidate's digest misses the predicate.
pub open spec fn nonce_exhausted(t: Transaction, trunk: Seq<i8>, branch: Seq<i8>, mwm: int) -> bool {
    forall|n: u64|
        n < 0xffffffffffffffffu64 ==> !pow_ok(
            kerl_of(#[trigger] attach_record(t, trunk, branch, n)),
            mwm,
        )
}

/// Attachment stopped at position `k`: the links before it were solved and
/// chained, and the transaction at `k` admits no nonce under the trunk
/// reference that chain hands it.
pub open spec fn attach_stalled(
    transactions: Seq<Transaction>,
    trunk: Seq<i8>,
    branch: Seq<i8>,
    mwm: int,
    prefix: Seq<AttachedTransaction>,
    k: int,
) -> bool {
    &&& 0 <= k < transactions.len()
    &&& prefix.len() == k
    &&& attached_chain(prefix, trunk, branch, mwm)
    &&& forall|a: int| 0 <= a < k ==> tx_fields_eq((#[trigger] prefix[a]).tx, transactions[a])
    &&& nonce_exhausted(
        transactions[k],
        if k == 0 {
            trunk
        } else {
            prefix[k - 1].hash@
        },
        branch,
        mwm,
    )
}

/// Nonce exhaustion depends only on the record's fields: it carries over to
/// any transaction that holds the same record field for field.
pub proof fn lemma_nonce_exhausted_congruence(
    a: Transaction,
    b: Transaction,
    trunk: Seq<i8>,
    branch: Seq<i8>,
    mwm: int,
)
    requires
        tx_fields_eq(a, b),
        nonce_exhausted(a, trunk, branch, mwm),
    ensures
        nonce_exhausted(b, trunk, branch, mwm),
{
    assert forall|n: u64| n < 0xffffffffffffffffu64 implies !pow_ok(
        kerl_of(#[trigger] attach_record(b, trunk, branch, n)),
        mwm,
    ) by {
        assert(attach_record(a, trunk, branch, n) == attach_record(b, trunk, branch, n));
        assert(!pow_ok(kerl_of(attach_record(a, trunk, branch, n)), mwm));
    }
}

/// Checks the difficulty predicate on a 243-trit hash.
pub fn check_pow(h: &Vec<i8>, mwm: u8) -> (r: bool)
    requires
        h@.len() == HASH_TRITS,
        1 <= mwm <= 243,
    ensures
        r == pow_ok(h@, mwm as int),
{
    let start: usize = HASH_TRITS - mwm as usize;
    let mut i: usize = start;
    while i < HASH_TRITS
        invariant
            start == HASH_TRITS - mwm,
            start <= i <= HASH_TRITS,
            h@.len() == HASH_TRITS,
            forall|a: int| start <= a < i ==> h@[a] == 0,
        decreases HASH_TRITS - i,
    {
        if h[i] != 0 {
            return false;
        }
        i += 1;
    }
    true
}

/// Searches nonce space until the transaction's sealed record hashes to a
/// digest that meets the difficulty; `None` if the space is exhausted.
fn solve_pow(t: &Transaction, trunk: &Vec<i8>, branch: &Vec<i8>, mwm: u8) -> (r: Option<
    (u64, Vec<i8>),
>)
    requires
        t.wf(),
        is_hash_trits(trunk@),
        is_hash_trits(branch@),
        1 <= mwm <= 243,
    ensures
        r matches Some(p) ==> p.1@ == kerl_of(attach_record(*t, trunk@, branch@, p.0))
            && pow_ok(p.1@, mwm as int) && is_hash_trits(p.1@),
        r is None ==> nonce_exhausted(*t, trunk@, branch@, mwm as int),
{
    let mut nonce: u64 = 0;
    while nonce < 0xffffffffffffffffu64
        invariant
            t.wf(),
            is_hash_trits(trunk@),
            is_hash_trits(branch@),
            1 <= mwm <= 243,
            forall|n: u64|
                n < nonce ==> !pow_ok(
                    kerl_of(#[trigger] attach_record(*t, trunk@, branch@, n)),
                    mwm as int,
                ),
        decreases 0xffffffffffffffffu64 - nonce,
    {
        let record = build_attach_record(t, trunk, branch, nonce);
        proof {
            lemma_attach_record_wf(*t, trunk@, branch@, nonce);
        }
        let h = kerl_digest(&record);
        if check_pow(&h, mwm) {
            return Some((nonce, h));
        }
        proof {
            assert(!pow_ok(kerl_of(attach_record(*t, trunk@, branch@, nonce)), mwm as int));
        }
        nonce += 1;
    }
    None
}

/// Attaches a bundle to the tangle: each transaction in the given
/// (submission-ordered) sequence is linked to the running trunk reference
/// and the branch tip, then sealed by a nonce search at the given
/// difficulty. The transactions themselves come back unchanged.
pub fn attach(
    trunk: &crate::address::Hash,
    branch: &crate::address::Hash,
    transactions: &Vec<Transaction>,
    min_weight_magnitude: u8,
) -> (r: Result<Vec<AttachedTransaction>, Error>)
    requires
        trunk.wf(),
        branch.wf(),
        forall|k: int| 0 <= k < transactions@.len() ==> (#[trigger] transactions@[k]).wf(),
    ensures
        r matches Err(e) ==> e is Attachment,
        !(1 <= min_weight_magnitude <= 243) ==> r is Err,
        r is Err && 1 <= min_weight_magnitude <= 243 ==> exists|
            prefix: Seq<AttachedTransaction>,
            k: int,
        |
            attach_stalled(
                transactions@,
                trunk.trits@,
                branch.trits@,
                min_weight_magnitude as int,
                prefix,
                k,
            ),
        r matches Ok(out) ==> {
            &&& 1 <= min_weight_magnitude <= 243
            &&& out@.len() == transactions@.len()
            &&& attached_chain(out@, trunk.trits@, branch.trits@, min_weight_magnitude as int)
            &&& forall|k: int|
                0 <= k < out@.len() ==> tx_fields_eq(
                    (#[trigger] out@[k]).tx,
                    transactions@[k],
                )
        },
{
    if min_weight_magnitude < 1 || min_weight_magnitude > 243 {
        return Err(Error::Attachment);
    }
    let mut out: Vec<AttachedTransaction> = Vec::new();
    let mut k: usize = 0;
    while k < transactions.len()
        invariant
            0 <= k <= transactions@.len(),
            1 <= min_weight_magnitude <= 243,
            trunk.wf(),
            branch.wf(),
            forall|a: int| 0 <= a < transactions@.len() ==> (#[trigger] transactions@[a]).wf(),
            out@.len() == k,
            forall|a: int|
                0 <= a < k ==> #[trigger] attach_link_ok(
                    out@,
                    trunk.trits@,
                    branch.trits@,
                    min_weight_magnitude as int,
                    a,
                ),
            forall|a: int|
                0 <= a < k ==> tx_fields_eq((#[trigger] out@[a]).tx, transactions@[a]),
        decreases transactions@.len() - k,
    {
        let ghost pre = out@;
        let cur_trunk: Vec<i8> = if k == 0 {
            copy_trits(&trunk.trits)
        } else {
            proof {
                assert(attach_link_ok(
                    out@,
                    trunk.trits@,
                    branch.trits@,
                    min_weight_magnitude as int,
                    k - 1,
                ));
            }
            copy_trits(&out[k - 1].hash)
        };
        let src = &transactions[k];
        let tx = finalize_tx(src, src.index, src.last_index, &src.bundle_hash);
        match solve_pow(&tx, &cur_trunk, &branch.trits, min_weight_magnitude) {
            None => {
                proof {
                    lemma_nonce_exhausted_congruence(
                        tx,
                        transactions@[k as int],
                        cur_trunk@,
                        branch.trits@,
                        min_weight_magnitude as int,
                    );
                    assert(attach_stalled(
                        transactions@,
                        trunk.trits@,
                        branch.trits@,
                        min_weight_magnitude as int,
                        out@,
                        k as int,
                    ));
                }
                return Err(Error::Attachment);
            },
            Some((nonce, hash)) => {
                let at = AttachedTransaction {
                    tx,
                    trunk: cur_trunk,
                    branch: copy_trits(&branch.trits),
                    nonce,
                    hash,
                };
                out.push(at);
                proof {
                    assert(out@.drop_last() =~= pre);
                    assert(attach_link_ok(
                        out@,
                        trunk.trits@,
                        branch.trits@,
                        min_weight_magnitude as int,
                        k as int,
                    ));
                    assert forall|a: int| 0 <= a < k implies #[trigger] attach_link_ok(
                        out@,
                        trunk.trits@,
                        branch.trits@,
                        min_weight_magnitude as int,
                        a,
                    ) by {
                        assert(attach_link_ok(
                            pre,
                            trunk.trits@,
                            branch.trits@,
                            min_weight_magnitude as int,
                            a,
                        ));
                    }
                }
            },
        }
        k += 1;
    }
    Ok(out)
}

} // verus!
