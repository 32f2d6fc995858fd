//! Balanced-ternary model: trits, trit buffers, and the encodings the
//! pipeline uses for hash identifiers, values and tryte text.

use vstd::prelude::*;

verus! {

/// Length in trits of every hash identifier (address, bundle hash, tip hash).
pub const HASH_TRITS: usize = 243;

/// Length in trits of a transaction tag.
pub const TAG_TRITS: usize = 81;

/// Length in trits of an encoded transaction value.
pub const VALUE_TRITS: usize = 81;

/// Length in trits of an encoded bundle index or timestamp.
pub const INDEX_TRITS: usize = 27;

/// Length in trits of a proof-of-work nonce.
pub const NONCE_TRITS: usize = 81;

/// Length in trits of a signature or message fragment.
pub const FRAGMENT_TRITS: usize = 6561;

/// Number of tryte characters that spell a seed or an address.
pub const HASH_TRYTES: usize = 81;

/// A balanced trit is one of -1, 0, 1.
pub open spec fn is_trit(t: i8) -> bool {
    -1 <= t && t <= 1
}

/// Every element of the sequence is a balanced trit.
pub open spec fn valid_trits(s: Seq<i8>) -> bool {
    forall|i: int| 0 <= i < s.len() ==> is_trit(s[i])
}

/// A well-formed hash identifier: exactly `HASH_TRITS` balanced trits.
pub open spec fn is_hash_trits(s: Seq<i8>) -> bool {
    s.len() == HASH_TRITS && valid_trits(s)
}

/// Checks that every element of the vector is a balanced trit.
pub fn check_trits(ts: &Vec<i8>) -> (r: bool)
    ensures
        r == valid_trits(ts@),
{
    let mut k: usize = 0;
    while k < ts.len()
        invariant
            0 <= k <= ts@.len(),
            forall|i: int| 0 <= i < k ==> is_trit(ts@[i]),
        decreases ts@.len() - k,
    {
        if ts[k] < -1 || ts[k] > 1 {
            return false;
        }
        k += 1;
    }
    true
}

/// Copies a trit vector element by element.
pub fn copy_trits(src: &Vec<i8>) -> (r: Vec<i8>)
    ensures
        r@ == src@,
{
    let mut r: Vec<i8> = Vec::new();
    let mut k: usize = 0;
    while k < src.len()
        invariant
            0 <= k <= src@.len(),
            r@ == src@.take(k as int),
        decreases src@.len() - k,
    {
        r.push(src[k]);
        proof {
            assert(r@ =~= src@.take((k + 1) as int));
        }
        k += 1;
    }
    proof {
        assert(src@.take(src@.len() as int) =~= src@);
    }
    r
}

/// A sequence of `n` zero trits.
pub open spec fn zero_trits(n: nat) -> Seq<i8> {
    Seq::new(n, |i: int| 0i8)
}

/// Builds a vector of `n` zero trits.
pub fn make_zero_trits(n: usize) -> (r: Vec<i8>)
    ensures
        r@ == zero_trits(n as nat),
{
    let mut r: Vec<i8> = Vec::new();
    let mut k: usize = 0;
    while k < n
        invariant
            0 <= k <= n,
            r@ =~= zero_trits(k as nat),
        decreases n - k,
    {
        r.push(0i8);
        proof {
            assert(r@ =~= zero_trits((k + 1) as nat));
        }
        k += 1;
    }
    r
}

/// The balanced digit of `v` modulo 3: 0, 1 or -1, congruent to `v`.
pub open spec fn balanced_digit(v: int) -> i8 {
    let m = v % 3;
    if m == 2 {
        -1i8
    } else if m == 1 {
        1i8
    } else {
        0i8
    }
}

/// Little-endian balanced-ternary encoding of `v` in `n` trits.
pub open spec fn encode_trits(v: int, n: nat) -> Seq<i8>
    decreases n,
{
    if n == 0 {
        Seq::empty()
    } else {
        let d = balanced_digit(v);
        seq![d] + encode_trits((v - d) / 3, (n - 1) as nat)
    }
}

pub proof fn lemma_encode_trits_wf(v: int, n: nat)
    ensures
        encode_trits(v, n).len() == n,
        valid_trits(encode_trits(v, n)),
    decreases n,
{
    if n > 0 {
        lemma_encode_trits_wf((v - balanced_digit(v)) / 3, (n - 1) as nat);
    }
}

/// Encodes a non-negative value in `n` little-endian balanced trits.
pub fn nat_to_trits(v: u128, n: usize) -> (r: Vec<i8>)
    requires
        v < 0xffffffffffffffffffffffffffffffff,
    ensures
        r@ == encode_trits(v as int, n as nat),
{
    let mut r: Vec<i8> = Vec::new();
    let mut cur: u128 = v;
    let mut k: usize = 0;
    while k < n
        invariant
            0 <= k <= n,
            r@.len() == k,
            cur < 0xffffffffffffffffffffffffffffffff,
            encode_trits(v as int, n as nat) =~= r@ + encode_trits(cur as int, (n - k) as nat),
        decreases n - k,
    {
        let m: u128 = cur % 3;
        let d: i8 = if m == 2 {
            -1
        } else if m == 1 {
            1
        } else {
            0
        };
        proof {
            assert(d == balanced_digit(cur as int));
            assert(encode_trits(cur as int, (n - k) as nat) =~= seq![d] + encode_trits(
                (cur as int - d) / 3,
                (n - k - 1) as nat,
            ));
        }
        let next: u128 = if m == 2 {
            (cur + 1) / 3
        } else {
            (cur - m) / 3
        };
        proof {
            assert(next as int == (cur as int - d) / 3);
        }
        r.push(d);
        cur = next;
        k += 1;
    }
    r
}

/// Encodes a signed value as one sign trit followed by the balanced-ternary
/// encoding of its magnitude in `n - 1` trits.
pub open spec fn encode_signed_trits(v: int, n: nat) -> Seq<i8>
    recommends
        n >= 1,
{
    let s: i8 = if v < 0 {
        -1i8
    } else if v > 0 {
        1i8
    } else {
        0i8
    };
    seq![s] + encode_trits(if v < 0 { -v } else { v }, (n - 1) as nat)
}

pub proof fn lemma_encode_signed_trits_wf(v: int, n: nat)
    requires
        n >= 1,
    ensures
        encode_signed_trits(v, n).len() == n,
        valid_trits(encode_signed_trits(v, n)),
{
    lemma_encode_trits_wf(if v < 0 { -v } else { v }, (n - 1) as nat);
}

/// Encodes a signed value in `n` trits: sign trit, then magnitude.
pub fn int_to_trits(v: i128, n: usize) -> (r: Vec<i8>)
    requires
        n >= 1,
        -0x80000000000000000000000000000000 < v,
    ensures
        r@ == encode_signed_trits(v as int, n as nat),
{
    let s: i8 = if v < 0 {
        -1
    } else if v > 0 {
        1
    } else {
        0
    };
    let mag: u128 = if v < 0 {
        (-v) as u128
    } else {
        v as u128
    };
    let mut r: Vec<i8> = Vec::new();
    r.push(s);
    let mut tail = nat_to_trits(mag, n - 1);
    let mut k: usize = 0;
    let ghost t0 = tail@;
    while k < tail.len()
        invariant
            0 <= k <= t0.len(),
            tail@ == t0,
            r@ =~= seq![s] + t0.take(k as int),
        decreases t0.len() - k,
    {
        r.push(tail[k]);
        proof {
            assert(r@ =~= seq![s] + t0.take((k + 1) as int));
        }
        k += 1;
    }
    proof {
        assert(t0.take(t0.len() as int) =~= t0);
        assert(r@ =~= encode_signed_trits(v as int, n as nat));
    }
    r
}

} // verus!
