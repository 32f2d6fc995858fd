//! Bundle preparation: turns a seed and validated transfers plus spending
//! inputs into an ordered, value-balanced, hash-sealed transaction sequence.

use vstd::prelude::*;
use crate::address::{Address, Seed};
use crate::crypto::{kerl_digest, kerl_of, derive_address_trits, wots_address_of};
use crate::error::Error;
use crate::transaction::{
    Transaction, tx_essence, bundle_essence, sum_values, finalize_tx, append_tx_essence,
    lemma_bundle_essence_wf,
};
use crate::transfer::{
    Transfer, Input, transfers_wf, inputs_wf, transfer_total, input_total, security_sum,
    max_input_index, validate_transfers, validate_inputs, total_transfer_value,
    total_input_balance, highest_input_index, lemma_security_sum_bound,
};
use crate::trits::{
    make_zero_trits, zero_trits, copy_trits, is_hash_trits, HASH_TRITS, TAG_TRITS, FRAGMENT_TRITS,
};

verus! {

/// The tag a transaction carries for a transfer: the requested one, or all
/// zeros.
pub open spec fn transfer_tag(t: Transfer) -> Seq<i8> {
    match t.tag {
        Some(v) => v@,
        None => zero_trits(TAG_TRITS as nat),
    }
}

/// The fragment a transaction carries for a transfer: the requested message,
/// or all zeros.
pub open spec fn transfer_fragment(t: Transfer) -> Seq<i8> {
    match t.message {
        Some(v) => v@,
        None => zero_trits(FRAGMENT_TRITS as nat),
    }
}

/// The address the remainder transaction credits: the caller-supplied one,
/// or a fresh derivation one index past the highest input index.
pub open spec fn remainder_address(
    seed: Seq<i8>,
    inputs: Seq<Input>,
    remainder: Option<Address>,
    security: u8,
) -> Seq<i8> {
    match remainder {
        Some(a) => a.trits@,
        None => wots_address_of(seed, (max_input_index(inputs) + 1) as u64, security),
    }
}

/// Whether a request passes validation and balance resolution.
pub open spec fn prepare_ok(transfers: Seq<Transfer>, inputs: Seq<Input>, security: u8) -> bool {
    &&& 1 <= security <= 3
    &&& transfers_wf(transfers)
    &&& inputs_wf(inputs)
    &&& input_total(inputs) >= transfer_total(transfers)
}

/// The error a rejected request reports: validation failures surface before
/// balance failures.
pub open spec fn prepare_error(transfers: Seq<Transfer>, inputs: Seq<Input>, security: u8) -> Error {
    if !(1 <= security <= 3) {
        Error::Derivation
    } else if !transfers_wf(transfers) || !inputs_wf(inputs) {
        Error::InvalidAddress
    } else {
        Error::InsufficientBalance
    }
}

/// Position `k` of the bundle credits transfer `k`.
pub open spec fn output_tx_ok(txs: Seq<Transaction>, transfers: Seq<Transfer>, k: int) -> bool {
    &&& txs[k].address@ == transfers[k].address.trits@
    &&& txs[k].value == transfers[k].value as int
    &&& txs[k].tag@ == transfer_tag(transfers[k])
    &&& txs[k].fragment@ == transfer_fragment(transfers[k])
}

/// Fragment `j` of input `i` debits the input's balance on its first
/// fragment and zero on the rest.
pub open spec fn input_tx_ok(
    txs: Seq<Transaction>,
    base: int,
    inputs: Seq<Input>,
    i: int,
    j: int,
) -> bool {
    let p = base + security_sum(inputs, i) + j;
    &&& txs[p].address@ == inputs[i].address.trits@
    &&& txs[p].value == if j == 0 {
        -(inputs[i].balance as int)
    } else {
        0int
    }
    &&& txs[p].tag@ == zero_trits(TAG_TRITS as nat)
    &&& txs[p].fragment@ == zero_trits(FRAGMENT_TRITS as nat)
}

/// A draft transaction: well formed, awaiting its bundle position.
pub open spec fn draft_ok(t: Transaction) -> bool {
    t.wf()
}

/// The full shape of a prepared bundle: one credit per transfer, one
/// transaction per input signature fragment, an optional remainder, indices
/// contiguous from 0, one shared bundle hash over the essences, and values
/// balanced to zero.
pub open spec fn prepared_bundle(
    seed: Seq<i8>,
    transfers: Seq<Transfer>,
    inputs: Seq<Input>,
    remainder: Option<Address>,
    security: u8,
    timestamp: u64,
    txs: Seq<Transaction>,
) -> bool {
    let t = transfers.len() as int;
    let f = security_sum(inputs, inputs.len() as int);
    let out = transfer_total(transfers);
    let inn = input_total(inputs);
    let has_rem = inn > out;
    let n = t + f + if has_rem {
        1int
    } else {
        0int
    };
    &&& txs.len() == n
    &&& forall|k: int| 0 <= k < t ==> #[trigger] output_tx_ok(txs, transfers, k)
    &&& forall|i: int, j: int|
        0 <= i < inputs.len() && 0 <= j < inputs[i].security ==> #[trigger] input_tx_ok(
            txs,
            t,
            inputs,
            i,
            j,
        )
    &&& has_rem ==> {
        &&& txs[n - 1].address@ == remainder_address(seed, inputs, remainder, security)
        &&& txs[n - 1].value == inn - out
        &&& txs[n - 1].tag@ == zero_trits(TAG_TRITS as nat)
        &&& txs[n - 1].fragment@ == zero_trits(FRAGMENT_TRITS as nat)
    }
    &&& forall|k: int|
        0 <= k < n ==> {
            &&& (#[trigger] txs[k]).index == k
            &&& txs[k].last_index == n - 1
            &&& txs[k].timestamp == timestamp
            &&& txs[k].wf()
            &&& txs[k].bundle_hash@ == kerl_of(bundle_essence(txs))
        }
    &&& sum_values(txs) == 0
}

/// Two transactions agree on every field the essence encodes.
pub open spec fn essence_fields_eq(a: Transaction, b: Transaction) -> bool {
    &&& a.address@ == b.address@
    &&& a.value == b.value
    &&& a.tag@ == b.tag@
    &&& a.timestamp == b.timestamp
    &&& a.index == b.index
    &&& a.last_index == b.last_index
}

pub proof fn lemma_bundle_essence_congruence(s1: Seq<Transaction>, s2: Seq<Transaction>)
    requires
        s1.len() == s2.len(),
        forall|i: int| 0 <= i < s1.len() ==> essence_fields_eq(s1[i], s2[i]),
    ensures
        bundle_essence(s1) == bundle_essence(s2),
    decreases s1.len(),
{
    if s1.len() > 0 {
        lemma_bundle_essence_congruence(s1.drop_last(), s2.drop_last());
        assert(essence_fields_eq(s1.last(), s2.last()));
        assert(tx_essence(s1.last()) == tx_essence(s2.last()));
    }
}

pub proof fn lemma_sum_values_congruence(s1: Seq<Transaction>, s2: Seq<Transaction>)
    requires
        s1.len() == s2.len(),
        forall|i: int| 0 <= i < s1.len() ==> s1[i].value == s2[i].value,
    ensures
        sum_values(s1) == sum_values(s2),
    decreases s1.len(),
{
    if s1.len() > 0 {
        lemma_sum_values_congruence(s1.drop_last(), s2.drop_last());
    }
}

pub proof fn lemma_max_input_index_bound(is: Seq<Input>)
    requires
        inputs_wf(is),
    ensures
        0 <= max_input_index(is) < 0xffffffffffffffffu64,
    decreases is.len(),
{
    if is.len() > 0 {
        assert(inputs_wf(is.drop_last())) by {
            assert(forall|i: int| 0 <= i < is.len() - 1 ==> is.drop_last()[i] == is[i]);
        }
        lemma_max_input_index_bound(is.drop_last());
        assert(is[is.len() - 1].wf());
    }
}

pub proof fn lemma_security_sum_le(is: Seq<Input>, i1: int, i2: int)
    requires
        0 <= i1 <= i2 <= is.len(),
        inputs_wf(is),
    ensures
        security_sum(is, i1) <= security_sum(is, i2),
    decreases i2 - i1,
{
    if i1 < i2 {
        lemma_security_sum_le(is, i1, i2 - 1);
        assert(is[i2 - 1].wf());
    }
}

/// Builds one zero-tagged transaction skeleton for an address and value.
fn blank_tx(address: &Vec<i8>, value: i128, timestamp: u64) -> (r: Transaction)
    ensures
        r.address@ == address@,
        r.value == value,
        r.tag@ == zero_trits(TAG_TRITS as nat),
        r.fragment@ == zero_trits(FRAGMENT_TRITS as nat),
        r.timestamp == timestamp,
        r.index == 0,
        r.last_index == 0,
        r.bundle_hash@ == zero_trits(HASH_TRITS as nat),
{
    Transaction {
        address: copy_trits(address),
        value,
        tag: make_zero_trits(TAG_TRITS),
        fragment: make_zero_trits(FRAGMENT_TRITS),
        timestamp,
        index: 0,
        last_index: 0,
        bundle_hash: make_zero_trits(HASH_TRITS),
    }
}

/// Emits one credit transaction per transfer, in request order.
fn build_credits(transfers: &Vec<Transfer>, timestamp: u64) -> (r: Vec<Transaction>)
    requires
        transfers_wf(transfers@),
    ensures
        r@.len() == transfers@.len(),
        forall|k: int| 0 <= k < r@.len() ==> #[trigger] output_tx_ok(r@, transfers@, k),
        forall|k: int| 0 <= k < r@.len() ==> #[trigger] draft_ok(r@[k]),
        forall|k: int| 0 <= k < r@.len() ==> (#[trigger] r@[k]).timestamp == timestamp,
        sum_values(r@) == transfer_total(transfers@),
{
    let mut drafts: Vec<Transaction> = Vec::new();
    let mut k: usize = 0;
    while k < transfers.len()
        invariant
            0 <= k <= transfers@.len(),
            transfers_wf(transfers@),
            drafts@.len() == k,
            forall|i: int| 0 <= i < k ==> #[trigger] output_tx_ok(drafts@, transfers@, i),
            forall|i: int| 0 <= i < k ==> #[trigger] draft_ok(drafts@[i]),
            forall|i: int| 0 <= i < k ==> (#[trigger] drafts@[i]).timestamp == timestamp,
            sum_values(drafts@) == transfer_total(transfers@.take(k as int)),
        decreases transfers@.len() - k,
    {
        let ghost pre = drafts@;
        let tr = &transfers[k];
        let mut tx = blank_tx(&tr.address.trits, tr.value as i128, timestamp);
        match &tr.tag {
            Some(v) => {
                tx.tag = copy_trits(v);
            },
            None => {},
        }
        match &tr.message {
            Some(v) => {
                tx.fragment = copy_trits(v);
            },
            None => {},
        }
        drafts.push(tx);
        proof {
            assert(transfers@[k as int].wf());
            assert(drafts@.drop_last() =~= pre);
            assert(transfers@.take((k + 1) as int).drop_last() =~= transfers@.take(k as int));
            assert(output_tx_ok(drafts@, transfers@, k as int));
            assert(draft_ok(drafts@[k as int]));
            assert forall|i: int| 0 <= i < k implies #[trigger] output_tx_ok(
                drafts@,
                transfers@,
                i,
            ) by {
                assert(output_tx_ok(pre, transfers@, i));
            }
        }
        k += 1;
    }
    proof {
        assert(transfers@.take(transfers@.len() as int) =~= transfers@);
    }
    drafts
}

/// Appends the debit transactions: one per signature fragment of each input,
/// the input's balance debited on its first fragment.
fn build_debits(drafts: &mut Vec<Transaction>, inputs: &Vec<Input>, timestamp: u64)
    requires
        inputs_wf(inputs@),
        old(drafts)@.len() + 3 * inputs@.len() < usize::MAX,
    ensures
        final(drafts)@.len() == old(drafts)@.len() + security_sum(inputs@, inputs@.len() as int),
        forall|a: int| 0 <= a < old(drafts)@.len() ==> final(drafts)@[a] == old(drafts)@[a],
        forall|i: int, j: int|
            0 <= i < inputs@.len() && 0 <= j < inputs@[i].security ==> #[trigger] input_tx_ok(
                final(drafts)@,
                old(drafts)@.len() as int,
                inputs@,
                i,
                j,
            ),
        forall|a: int|
            old(drafts)@.len() <= a < final(drafts)@.len() ==> #[trigger] draft_ok(
                final(drafts)@[a],
            ),
        forall|a: int|
            old(drafts)@.len() <= a < final(drafts)@.len() ==> (#[trigger] final(drafts)@[a]).timestamp == timestamp,
        sum_values(final(drafts)@) == sum_values(old(drafts)@) - input_total(inputs@),
{
    let base = drafts.len();
    let mut i: usize = 0;
    while i < inputs.len()
        invariant
            0 <= i <= inputs@.len(),
            inputs_wf(inputs@),
            base == old(drafts)@.len(),
            base + 3 * inputs@.len() < usize::MAX,
            drafts@.len() == base + security_sum(inputs@, i as int),
            forall|a: int| 0 <= a < base ==> drafts@[a] == old(drafts)@[a],
            forall|a: int, b: int|
                0 <= a < i && 0 <= b < inputs@[a].security ==> #[trigger] input_tx_ok(
                    drafts@,
                    base as int,
                    inputs@,
                    a,
                    b,
                ),
            forall|a: int| base <= a < drafts@.len() ==> #[trigger] draft_ok(drafts@[a]),
            forall|a: int|
                base <= a < drafts@.len() ==> (#[trigger] drafts@[a]).timestamp == timestamp,
            sum_values(drafts@) == sum_values(old(drafts)@) - input_total(inputs@.take(i as int)),
        decreases inputs@.len() - i,
    {
        proof {
            lemma_security_sum_bound(inputs@, i as int);
            lemma_security_sum_le(inputs@, (i + 1) as int, inputs@.len() as int);
            lemma_security_sum_bound(inputs@, inputs@.len() as int);
            assert(inputs@[i as int].wf());
        }
        let sec: usize = inputs[i].security as usize;
        let mut j: usize = 0;
        while j < sec
            invariant
                0 <= j <= sec,
                0 <= i < inputs@.len(),
                sec == inputs@[i as int].security,
                inputs_wf(inputs@),
                base == old(drafts)@.len(),
                base + 3 * inputs@.len() < usize::MAX,
                security_sum(inputs@, (i + 1) as int) == security_sum(inputs@, i as int)
                    + inputs@[i as int].security,
                security_sum(inputs@, (i + 1) as int) <= security_sum(
                    inputs@,
                    inputs@.len() as int,
                ),
                security_sum(inputs@, inputs@.len() as int) <= 3 * inputs@.len(),
                0 <= security_sum(inputs@, i as int),
                drafts@.len() == base + security_sum(inputs@, i as int) + j,
                forall|a: int| 0 <= a < base ==> drafts@[a] == old(drafts)@[a],
                forall|a: int, b: int|
                    0 <= a < i && 0 <= b < inputs@[a].security ==> #[trigger] input_tx_ok(
                        drafts@,
                        base as int,
                        inputs@,
                        a,
                        b,
                    ),
                forall|b: int|
                    0 <= b < j ==> #[trigger] input_tx_ok(
                        drafts@,
                        base as int,
                        inputs@,
                        i as int,
                        b,
                    ),
                forall|a: int| base <= a < drafts@.len() ==> #[trigger] draft_ok(drafts@[a]),
                forall|a: int|
                    base <= a < drafts@.len() ==> (#[trigger] drafts@[a]).timestamp == timestamp,
                sum_values(drafts@) == sum_values(old(drafts)@) - input_total(
                    inputs@.take(i as int),
                ) - (if j > 0 {
                    inputs@[i as int].balance as int
                } else {
                    0int
                }),
            decreases sec - j,
        {
            let ghost pre = drafts@;
            let value: i128 = if j == 0 {
                -(inputs[i].balance as i128)
            } else {
                0
            };
            let tx = blank_tx(&inputs[i].address.trits, value, timestamp);
            drafts.push(tx);
            proof {
                assert(inputs@[i as int].wf());
                assert(drafts@.drop_last() =~= pre);
                assert(input_tx_ok(drafts@, base as int, inputs@, i as int, j as int));
                assert forall|a: int, b: int|
                    0 <= a < i && 0 <= b < inputs@[a].security implies #[trigger] input_tx_ok(
                    drafts@,
                    base as int,
                    inputs@,
                    a,
                    b,
                ) by {
                    lemma_security_sum_bound(inputs@, a);
                    lemma_security_sum_le(inputs@, a + 1, i as int);
                    assert(input_tx_ok(pre, base as int, inputs@, a, b));
                }
                assert forall|b: int| 0 <= b < j + 1 implies #[trigger] input_tx_ok(
                    drafts@,
                    base as int,
                    inputs@,
                    i as int,
                    b,
                ) by {
                    if b < j {
                        assert(input_tx_ok(pre, base as int, inputs@, i as int, b));
                    }
                }
            }
            j += 1;
        }
        proof {
            assert(inputs@.take((i + 1) as int).drop_last() =~= inputs@.take(i as int));
        }
        i += 1;
    }
    proof {
        assert(inputs@.take(inputs@.len() as int) =~= inputs@);
    }
}


/// Transaction `a` of `pos` is transaction `a` of `dr`, repositioned to
/// index `a` with last index `last`.
pub open spec fn essence_fields_eq_at(
    pos: Seq<Transaction>,
    dr: Seq<Transaction>,
    a: int,
    last: int,
) -> bool {
    &&& pos[a].address@ == dr[a].address@
    &&& pos[a].value == dr[a].value
    &&& pos[a].tag@ == dr[a].tag@
    &&& pos[a].fragment@ == dr[a].fragment@
    &&& pos[a].timestamp == dr[a].timestamp
    &&& pos[a].index == a
    &&& pos[a].last_index == last
}

/// Positions every draft at its bundle index and stamps all of them with the
/// bundle hash computed over the concatenated essences.
fn seal_bundle(drafts: Vec<Transaction>) -> (r: Vec<Transaction>)
    requires
        drafts@.len() > 0,
        forall|a: int| 0 <= a < drafts@.len() ==> #[trigger] draft_ok(drafts@[a]),
    ensures
        r@.len() == drafts@.len(),
        forall|a: int|
            0 <= a < r@.len() ==> #[trigger] essence_fields_eq_at(r@, drafts@, a, r@.len() - 1),
        forall|a: int|
            0 <= a < r@.len() ==> (#[trigger] r@[a]).fragment@ == drafts@[a].fragment@
                && r@[a].wf() && r@[a].bundle_hash@ == kerl_of(bundle_essence(r@)),
        sum_values(r@) == sum_values(drafts@),
{
    let n = drafts.len();
    let last: u64 = (n - 1) as u64;
    let mut positioned: Vec<Transaction> = Vec::new();
    let mut essence: Vec<i8> = Vec::new();
    let mut k: usize = 0;
    while k < n
        invariant
            0 <= k <= n,
            n == drafts@.len(),
            last == n - 1,
            forall|a: int| 0 <= a < drafts@.len() ==> #[trigger] draft_ok(drafts@[a]),
            positioned@.len() == k,
            forall|a: int|
                0 <= a < k ==> #[trigger] essence_fields_eq_at(positioned@, drafts@, a, n - 1),
            forall|a: int|
                0 <= a < k ==> (#[trigger] positioned@[a]).fragment@ == drafts@[a].fragment@
                    && positioned@[a].wf(),
            essence@ == bundle_essence(positioned@),
        decreases n - k,
    {
        let ghost pre = positioned@;
        proof {
            assert(draft_ok(drafts@[k as int]));
        }
        let nt = finalize_tx(&drafts[k], k as u64, last, &drafts[k].bundle_hash);
        append_tx_essence(&mut essence, &nt);
        positioned.push(nt);
        proof {
            assert(positioned@.drop_last() =~= pre);
            assert(essence_fields_eq_at(positioned@, drafts@, k as int, n - 1));
            assert forall|a: int| 0 <= a < k implies #[trigger] essence_fields_eq_at(
                positioned@,
                drafts@,
                a,
                n - 1,
            ) by {
                assert(essence_fields_eq_at(pre, drafts@, a, n - 1));
            }
            assert(essence@ =~= bundle_essence(positioned@));
        }
        k += 1;
    }
    proof {
        lemma_bundle_essence_wf(positioned@);
    }
    let h = kerl_digest(&essence);
    let mut result: Vec<Transaction> = Vec::new();
    let mut k2: usize = 0;
    while k2 < n
        invariant
            0 <= k2 <= n,
            n == positioned@.len(),
            n == drafts@.len(),
            last == n - 1,
            is_hash_trits(h@),
            h@ == kerl_of(bundle_essence(positioned@)),
            forall|a: int|
                0 <= a < n ==> #[trigger] essence_fields_eq_at(positioned@, drafts@, a, n - 1),
            forall|a: int|
                0 <= a < n ==> (#[trigger] positioned@[a]).fragment@ == drafts@[a].fragment@
                    && positioned@[a].wf(),
            result@.len() == k2,
            forall|a: int|
                0 <= a < k2 ==> #[trigger] essence_fields_eq_at(result@, drafts@, a, n - 1),
            forall|a: int|
                0 <= a < k2 ==> (#[trigger] result@[a]).fragment@ == drafts@[a].fragment@
                    && result@[a].wf() && result@[a].bundle_hash@ == h@,
        decreases n - k2,
    {
        let ghost pre = result@;
        proof {
            assert(essence_fields_eq_at(positioned@, drafts@, k2 as int, n - 1));
        }
        let nt = finalize_tx(&positioned[k2], k2 as u64, last, &h);
        result.push(nt);
        proof {
            assert(result@.drop_last() =~= pre);
            assert(essence_fields_eq_at(result@, drafts@, k2 as int, n - 1));
            assert forall|a: int| 0 <= a < k2 implies #[trigger] essence_fields_eq_at(
                result@,
                drafts@,
                a,
                n - 1,
            ) by {
                assert(essence_fields_eq_at(pre, drafts@, a, n - 1));
            }
        }
        k2 += 1;
    }
    proof {
        assert forall|a: int| 0 <= a < n implies essence_fields_eq(result@[a], positioned@[a]) by {
            assert(essence_fields_eq_at(result@, drafts@, a, n - 1));
            assert(essence_fields_eq_at(positioned@, drafts@, a, n - 1));
        }
        lemma_bundle_essence_congruence(result@, positioned@);
        assert forall|a: int| 0 <= a < n implies result@[a].value == drafts@[a].value by {
            assert(essence_fields_eq_at(result@, drafts@, a, n - 1));
        }
        lemma_sum_values_congruence(result@, drafts@);
    }
    result
}

/// Converts a seed, validated transfers and resolved inputs into one ordered
/// bundle of transactions: a credit per transfer, a debit fragment per input
/// security unit, and a remainder credit when the inputs overpay. Indices
/// are contiguous from 0 and every transaction carries the bundle hash
/// computed over all essences.
#[verifier::rlimit(60)]
pub fn prepare(
    seed: &Seed,
    transfers: &Vec<Transfer>,
    security: u8,
    inputs: &Vec<Input>,
    remainder: &Option<Address>,
    timestamp: u64,
) -> (r: Result<Vec<Transaction>, Error>)
    requires
        seed.wf(),
        input_total(inputs@) < 0x80000000000000000000000000000000,
        transfers@.len() + 3 * inputs@.len() + 1 < usize::MAX,
        remainder matches Some(a) ==> a.wf(),
    ensures
        r is Ok <==> prepare_ok(transfers@, inputs@, security),
        r matches Err(e) ==> e == prepare_error(transfers@, inputs@, security),
        r matches Ok(txs) ==> prepared_bundle(
            seed@,
            transfers@,
            inputs@,
            *remainder,
            security,
            timestamp,
            txs@,
        ),
{
    if security < 1 || security > 3 {
        return Err(Error::Derivation);
    }
    if !validate_transfers(transfers) {
        return Err(Error::InvalidAddress);
    }
    if !validate_inputs(inputs) {
        return Err(Error::InvalidAddress);
    }
    let out_total = total_transfer_value(transfers);
    let in_total = total_input_balance(inputs);
    if in_total < out_total {
        return Err(Error::InsufficientBalance);
    }

    let mut drafts = build_credits(transfers, timestamp);
    let ghost credits = drafts@;
    let base = drafts.len();
    build_debits(&mut drafts, inputs, timestamp);
    let ghost with_debits = drafts@;

    let ghost has_rem = in_total > out_total;
    if in_total > out_total {
        let rem_value: i128 = (in_total - out_total) as i128;
        let rem_addr: Vec<i8> = match remainder {
            Some(a) => copy_trits(&a.trits),
            None => {
                proof {
                    lemma_max_input_index_bound(inputs@);
                }
                let idx = highest_input_index(inputs);
                derive_address_trits(seed.raw(), idx + 1, security)
            },
        };
        let tx = blank_tx(&rem_addr, rem_value, timestamp);
        drafts.push(tx);
        proof {
            assert(drafts@.drop_last() =~= with_debits);
            assert(sum_values(drafts@) == sum_values(with_debits) + rem_value as int);
        }
    }
    let ghost all_drafts = drafts@;

    let n = drafts.len();
    if n == 0 {
        let empty: Vec<Transaction> = Vec::new();
        proof {
            lemma_security_sum_bound(inputs@, inputs@.len() as int);
            assert(transfers@.len() == 0);
            assert forall|a: int, b: int|
                0 <= a < inputs@.len() && 0 <= b < inputs@[a].security implies #[trigger]
            input_tx_ok(empty@, 0, inputs@, a, b) by {
                lemma_security_sum_bound(inputs@, a);
                lemma_security_sum_le(inputs@, a + 1, inputs@.len() as int);
                assert(inputs@[a].wf());
                assert(false);
            }
        }
        return Ok(empty);
    }
    proof {
        assert forall|a: int| 0 <= a < all_drafts.len() implies #[trigger] draft_ok(
            all_drafts[a],
        ) && all_drafts[a].timestamp == timestamp by {
            if a < base {
                assert(with_debits[a] == credits[a]);
                assert(draft_ok(credits[a]));
                assert(credits[a].timestamp == timestamp);
            } else if a < with_debits.len() {
                assert(draft_ok(with_debits[a]));
                assert(with_debits[a].timestamp == timestamp);
            }
        }
    }
    let result = seal_bundle(drafts);
    proof {
        let t = transfers@.len() as int;
        lemma_security_sum_bound(inputs@, inputs@.len() as int);
        assert forall|a: int| 0 <= a < t implies #[trigger] output_tx_ok(
            result@,
            transfers@,
            a,
        ) by {
            assert(output_tx_ok(credits, transfers@, a));
            assert(with_debits[a] == credits[a]);
            assert(essence_fields_eq_at(result@, all_drafts, a, result@.len() - 1));
        }
        assert forall|a: int, b: int|
            0 <= a < inputs@.len() && 0 <= b < inputs@[a].security implies #[trigger] input_tx_ok(
            result@,
            t,
            inputs@,
            a,
            b,
        ) by {
            lemma_security_sum_bound(inputs@, a);
            lemma_security_sum_le(inputs@, a + 1, inputs@.len() as int);
            assert(input_tx_ok(with_debits, base as int, inputs@, a, b));
            let p = base + security_sum(inputs@, a) + b;
            assert(essence_fields_eq_at(result@, all_drafts, p, result@.len() - 1));
        }
        if has_rem {
            assert(essence_fields_eq_at(
                result@,
                all_drafts,
                result@.len() - 1,
                result@.len() - 1,
            ));
        }
        assert forall|k: int| 0 <= k < result@.len() implies ((#[trigger] result@[k]).index == k
            && result@[k].last_index == result@.len() - 1 && result@[k].timestamp == timestamp
            && result@[k].wf() && result@[k].bundle_hash@ == kerl_of(bundle_essence(result@))) by {
            assert(essence_fields_eq_at(result@, all_drafts, k, result@.len() - 1));
            assert(all_drafts[k].timestamp == timestamp);
        }
        assert(result@.len() == transfers@.len() + security_sum(inputs@, inputs@.len() as int) + (
        if has_rem {
            1int
        } else {
            0int
        }));
        assert(sum_values(result@) == 0);
        assert(prepared_bundle(seed@, transfers@, inputs@, *remainder, security, timestamp, result@));
    }
    Ok(result)
}

} // verus!
