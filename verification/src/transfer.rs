//! Request-side data: transfers a caller wants to make and the spendable
//! inputs that fund them, with their well-formedness checks and totals.

use vstd::prelude::*;
use crate::address::Address;
use crate::trits::{valid_trits, TAG_TRITS, FRAGMENT_TRITS};

verus! {

/// One requested value transfer: destination address, value, and optional
/// message payload and tag.
#[derive(Debug)]
pub struct Transfer {
    pub address: Address,
    pub value: u64,
    pub tag: Option<Vec<i8>>,
    pub message: Option<Vec<i8>>,
}

impl Transfer {
    /// The destination address is well formed, and the optional tag and
    /// message have their fixed lengths.
    pub open spec fn wf(&self) -> bool {
        &&& self.address.wf()
        &&& match self.tag {
            Some(t) => t@.len() == TAG_TRITS && valid_trits(t@),
            None => true,
        }
        &&& match self.message {
            Some(m) => m@.len() == FRAGMENT_TRITS && valid_trits(m@),
            None => true,
        }
    }
}

/// A spendable address known to hold a balance, with the derivation index
/// and security level it was generated from.
#[derive(Debug)]
pub struct Input {
    pub address: Address,
    pub balance: u64,
    pub index: u64,
    pub security: u8,
}

impl Input {
    /// The source address is well formed, the security level is 1 to 3, and
    /// the derivation index leaves room for a fresh remainder index.
    pub open spec fn wf(&self) -> bool {
        &&& self.address.wf()
        &&& 1 <= self.security <= 3
        &&& self.index < 0xffffffffffffffffu64
    }
}

/// All transfers in the request are well formed.
pub open spec fn transfers_wf(ts: Seq<Transfer>) -> bool {
    forall|i: int| 0 <= i < ts.len() ==> ts[i].wf()
}

/// All inputs in the request are well formed.
pub open spec fn inputs_wf(is: Seq<Input>) -> bool {
    forall|i: int| 0 <= i < is.len() ==> is[i].wf()
}

/// The total value the transfers request.
pub open spec fn transfer_total(ts: Seq<Transfer>) -> int
    decreases ts.len(),
{
    if ts.len() == 0 {
        0
    } else {
        transfer_total(ts.drop_last()) + ts.last().value
    }
}

/// The total balance the inputs offer.
pub open spec fn input_total(is: Seq<Input>) -> int
    decreases is.len(),
{
    if is.len() == 0 {
        0
    } else {
        input_total(is.drop_last()) + is.last().balance
    }
}

/// The number of signature fragments of the first `i` inputs: one per
/// security level unit.
pub open spec fn security_sum(is: Seq<Input>, i: int) -> int
    decreases i,
{
    if i <= 0 {
        0
    } else {
        security_sum(is, i - 1) + is[i - 1].security
    }
}

/// The largest derivation index among the inputs, or 0 if there are none.
pub open spec fn max_input_index(is: Seq<Input>) -> int
    decreases is.len(),
{
    if is.len() == 0 {
        0
    } else {
        let m = max_input_index(is.drop_last());
        if is.last().index > m {
            is.last().index as int
        } else {
            m
        }
    }
}



pub proof fn lemma_security_sum_bound(is: Seq<Input>, i: int)
    requires
        0 <= i <= is.len(),
        inputs_wf(is),
    ensures
        0 <= security_sum(is, i) <= 3 * i,
        i < is.len() ==> security_sum(is, i + 1) == security_sum(is, i) + is[i].security,
    decreases i,
{
    if i > 0 {
        lemma_security_sum_bound(is, i - 1);
    }
}

/// Checks that every transfer is well formed.
pub fn validate_transfers(ts: &Vec<Transfer>) -> (r: bool)
    ensures
        r == transfers_wf(ts@),
{
    let mut k: usize = 0;
    while k < ts.len()
        invariant
            0 <= k <= ts@.len(),
            forall|i: int| 0 <= i < k ==> ts@[i].wf(),
        decreases ts@.len() - k,
    {
        let t = &ts[k];
        if t.address.trits.len() != 243 || !crate::trits::check_trits(&t.address.trits) {
            return false;
        }
        match &t.tag {
            Some(tag) => {
                if tag.len() != TAG_TRITS || !crate::trits::check_trits(tag) {
                    return false;
                }
            },
            None => {},
        }
        match &t.message {
            Some(m) => {
                if m.len() != FRAGMENT_TRITS || !crate::trits::check_trits(m) {
                    return false;
                }
            },
            None => {},
        }
        k += 1;
    }
    true
}

/// Checks that every input is well formed.
pub fn validate_inputs(is: &Vec<Input>) -> (r: bool)
    ensures
        r == inputs_wf(is@),
{
    let mut k: usize = 0;
    while k < is.len()
        invariant
            0 <= k <= is@.len(),
            forall|i: int| 0 <= i < k ==> is@[i].wf(),
        decreases is@.len() - k,
    {
        let inp = &is[k];
        if inp.address.trits.len() != 243 || !crate::trits::check_trits(&inp.address.trits) {
            return false;
        }
        if inp.security < 1 || inp.security > 3 {
            return false;
        }
        if inp.index == 0xffffffffffffffffu64 {
            return false;
        }
        k += 1;
    }
    true
}

/// Sums the requested transfer values.
pub fn total_transfer_value(ts: &Vec<Transfer>) -> (r: u128)
    ensures
        r as int == transfer_total(ts@),
{
    let mut acc: u128 = 0;
    let mut k: usize = 0;
    while k < ts.len()
        invariant
            0 <= k <= ts@.len(),
            acc as int == transfer_total(ts@.take(k as int)),
            acc <= k * 0xffffffffffffffff,
        decreases ts@.len() - k,
    {
        proof {
            assert(ts@.take((k + 1) as int).drop_last() =~= ts@.take(k as int));
        }
        acc = acc + ts[k].value as u128;
        k += 1;
    }
    proof {
        assert(ts@.take(ts@.len() as int) =~= ts@);
    }
    acc
}

/// Sums the available input balances.
pub fn total_input_balance(is: &Vec<Input>) -> (r: u128)
    ensures
        r as int == input_total(is@),
{
    let mut acc: u128 = 0;
    let mut k: usize = 0;
    while k < is.len()
        invariant
            0 <= k <= is@.len(),
            acc as int == input_total(is@.take(k as int)),
            acc <= k * 0xffffffffffffffff,
        decreases is@.len() - k,
    {
        proof {
            assert(is@.take((k + 1) as int).drop_last() =~= is@.take(k as int));
        }
        acc = acc + is[k].balance as u128;
        k += 1;
    }
    proof {
        assert(is@.take(is@.len() as int) =~= is@);
    }
    acc
}

/// The largest derivation index among the inputs, 0 when there are none.
pub fn highest_input_index(is: &Vec<Input>) -> (r: u64)
    ensures
        r as int == max_input_index(is@),
{
    let mut m: u64 = 0;
    let mut k: usize = 0;
    while k < is.len()
        invariant
            0 <= k <= is@.len(),
            m as int == max_input_index(is@.take(k as int)),
        decreases is@.len() - k,
    {
        proof {
            assert(is@.take((k + 1) as int).drop_last() =~= is@.take(k as int));
        }
        if is[k].index > m {
            m = is[k].index;
        }
        k += 1;
    }
    proof {
        assert(is@.take(is@.len() as int) =~= is@);
    }
    m
}

} // verus!
