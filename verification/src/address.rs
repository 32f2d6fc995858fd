//! Seeds, addresses and hash identifiers, and the tryte text encoding in
//! which callers spell them.

use vstd::prelude::*;
use crate::trits::{
    is_hash_trits, valid_trits, is_trit, encode_trits, nat_to_trits, check_trits, copy_trits,
    lemma_encode_trits_wf, HASH_TRITS, HASH_TRYTES,
};
use crate::crypto::{derive_address_trits, wots_address_of};
use crate::error::Error;

verus! {

/// A tryte character: `9` or `A` to `Z`.
pub open spec fn is_tryte_char(c: u8) -> bool {
    c == 57 || (65 <= c && c <= 90)
}

/// Every character of the sequence is a tryte character.
pub open spec fn valid_trytes(s: Seq<u8>) -> bool {
    forall|i: int| 0 <= i < s.len() ==> is_tryte_char(s[i])
}

/// The alphabet position of a tryte character: `9` is 0, `A` to `Z` are
/// 1 to 26.
pub open spec fn tryte_val(c: u8) -> int {
    if c == 57 {
        0
    } else {
        c - 64
    }
}

/// The three trits that one tryte character denotes: the balanced-ternary
/// encoding of its alphabet position (values above 13 wrap to negatives).
pub open spec fn char_trits(c: u8) -> Seq<i8> {
    encode_trits(tryte_val(c), 3)
}

/// The trit sequence denoted by a tryte string, three trits per character.
pub open spec fn trits_of_trytes(s: Seq<u8>) -> Seq<i8>
    decreases s.len(),
{
    if s.len() == 0 {
        Seq::empty()
    } else {
        trits_of_trytes(s.drop_last()) + char_trits(s.last())
    }
}

pub proof fn lemma_trits_of_trytes_wf(s: Seq<u8>)
    ensures
        trits_of_trytes(s).len() == 3 * s.len(),
        valid_trits(trits_of_trytes(s)),
    decreases s.len(),
{
    if s.len() > 0 {
        lemma_trits_of_trytes_wf(s.drop_last());
        lemma_encode_trits_wf(tryte_val(s.last()), 3);
    }
}

/// Converts a tryte string to trits; `None` exactly when some character is
/// not a tryte character.
pub fn trytes_to_trits(s: &Vec<u8>) -> (r: Option<Vec<i8>>)
    ensures
        r is Some <==> valid_trytes(s@),
        r matches Some(v) ==> v@ == trits_of_trytes(s@),
{
    let mut out: Vec<i8> = Vec::new();
    let mut k: usize = 0;
    while k < s.len()
        invariant
            0 <= k <= s@.len(),
            forall|i: int| 0 <= i < k ==> is_tryte_char(s@[i]),
            out@ == trits_of_trytes(s@.take(k as int)),
        decreases s@.len() - k,
    {
        let c = s[k];
        if !(c == 57 || (65 <= c && c <= 90)) {
            return None;
        }
        let w: u128 = if c == 57 {
            0
        } else {
            (c - 64) as u128
        };
        let triple = nat_to_trits(w, 3);
        proof {
            lemma_encode_trits_wf(tryte_val(s@[k as int]), 3);
            assert(triple@ == char_trits(s@[k as int]));
        }
        out.push(triple[0]);
        out.push(triple[1]);
        out.push(triple[2]);
        proof {
            assert(s@.take((k + 1) as int).drop_last() =~= s@.take(k as int));
            assert(s@.take((k + 1) as int).last() == s@[k as int]);
            assert(out@ =~= trits_of_trytes(s@.take(k as int)) + char_trits(s@[k as int]));
        }
        k += 1;
    }
    proof {
        assert(s@.take(s@.len() as int) =~= s@);
    }
    Some(out)
}

/// A fixed-length hash identifier: an address, bundle hash or tip hash of
/// exactly 243 balanced trits.
#[derive(Debug)]
pub struct Hash {
    pub trits: Vec<i8>,
}

impl Hash {
    /// The identifier holds exactly 243 balanced trits.
    pub open spec fn wf(&self) -> bool {
        is_hash_trits(self.trits@)
    }

    /// Builds a hash identifier from raw trits, rejecting any input that is
    /// not exactly 243 balanced trits rather than truncating or padding it.
    pub fn from_trits(ts: &Vec<i8>) -> (r: Result<Hash, Error>)
        ensures
            r is Ok <==> is_hash_trits(ts@),
            r matches Ok(h) ==> h.trits@ == ts@ && h.wf(),
            r matches Err(e) ==> e is InvalidAddress,
    {
        if ts.len() != HASH_TRITS || !check_trits(ts) {
            return Err(Error::InvalidAddress);
        }
        Ok(Hash { trits: copy_trits(ts) })
    }

    /// Builds a tip hash for attachment; a malformed input is an attachment
    /// error.
    pub fn tip_from_trits(ts: &Vec<i8>) -> (r: Result<Hash, Error>)
        ensures
            r is Ok <==> is_hash_trits(ts@),
            r matches Ok(h) ==> h.trits@ == ts@ && h.wf(),
            r matches Err(e) ==> e is Attachment,
    {
        if ts.len() != HASH_TRITS || !check_trits(ts) {
            return Err(Error::Attachment);
        }
        Ok(Hash { trits: copy_trits(ts) })
    }


}

/// A destination or source address: 243 balanced trits.
#[derive(Debug)]
pub struct Address {
    pub trits: Vec<i8>,
}

impl Address {
    /// The address holds exactly 243 balanced trits.
    pub open spec fn wf(&self) -> bool {
        is_hash_trits(self.trits@)
    }

    /// Builds an address from raw trits, rejecting malformed input.
    pub fn from_trits(ts: &Vec<i8>) -> (r: Result<Address, Error>)
        ensures
            r is Ok <==> is_hash_trits(ts@),
            r matches Ok(a) ==> a.trits@ == ts@ && a.wf(),
            r matches Err(e) ==> e is InvalidAddress,
    {
        if ts.len() != HASH_TRITS || !check_trits(ts) {
            return Err(Error::InvalidAddress);
        }
        Ok(Address { trits: copy_trits(ts) })
    }

    /// Parses an address from 81 tryte characters.
    pub fn from_trytes(s: &Vec<u8>) -> (r: Result<Address, Error>)
        ensures
            r is Ok <==> s@.len() == HASH_TRYTES && valid_trytes(s@),
            r matches Ok(a) ==> a.trits@ == trits_of_trytes(s@) && a.wf(),
            r matches Err(e) ==> e is InvalidAddress,
    {
        if s.len() != HASH_TRYTES {
            return Err(Error::InvalidAddress);
        }
        match trytes_to_trits(s) {
            Some(ts) => {
                proof {
                    lemma_trits_of_trytes_wf(s@);
                }
                Ok(Address { trits: ts })
            },
            None => Err(Error::InvalidAddress),
        }
    }


}

/// A caller's seed: 243 balanced trits of secret key material, held only for
/// the duration of one operation.
#[derive(Debug)]
pub struct Seed {
    trits: Vec<i8>,
}

impl View for Seed {
    type V = Seq<i8>;

    closed spec fn view(&self) -> Seq<i8> {
        self.trits@
    }
}

impl Seed {
    /// The seed holds exactly 243 balanced trits.
    pub open spec fn wf(&self) -> bool {
        is_hash_trits(self@)
    }

    /// Parses a seed from 81 tryte characters; a malformed encoding is an
    /// invalid-seed error.
    pub fn from_trytes(s: &Vec<u8>) -> (r: Result<Seed, Error>)
        ensures
            r is Ok <==> s@.len() == HASH_TRYTES && valid_trytes(s@),
            r matches Ok(sd) ==> sd@ == trits_of_trytes(s@) && sd.wf(),
            r matches Err(e) ==> e is InvalidSeed,
    {
        if s.len() != HASH_TRYTES {
            return Err(Error::InvalidSeed);
        }
        match trytes_to_trits(s) {
            Some(ts) => {
                proof {
                    lemma_trits_of_trytes_wf(s@);
                }
                Ok(Seed { trits: ts })
            },
            None => Err(Error::InvalidSeed),
        }
    }

    /// An owned copy of the seed.
    pub fn duplicate(&self) -> (r: Seed)
        ensures
            r@ == self@,
            r.wf() == self.wf(),
    {
        Seed { trits: copy_trits(&self.trits) }
    }

    /// Borrows the raw trits for the derivation boundary.
    pub(crate) fn raw(&self) -> (r: &Vec<i8>)
        ensures
            r@ == self@,
    {
        &self.trits
    }
}

/// Derives the address for one (seed, index, security) triple.
///
/// Returns the index back together with the address, as the caller-facing
/// generation contract asks. The security level must be 1, 2 or 3; any other
/// level is a derivation error. The result is a pure function of the inputs:
/// no side effects beyond the derivation computation itself.
pub fn generate(seed: &Seed, index: u64, security: u8) -> (r: Result<(u64, Address), Error>)
    requires
        seed.wf(),
    ensures
        r is Ok <==> 1 <= security <= 3,
        r matches Ok(p) ==> p.0 == index && p.1.trits@ == wots_address_of(seed@, index, security)
            && p.1.wf(),
        r matches Err(e) ==> e is Derivation,
{
    if security < 1 || security > 3 {
        return Err(Error::Derivation);
    }
    let ts = derive_address_trits(seed.raw(), index, security);
    Ok((index, Address { trits: ts }))
}

/// Address generation is deterministic: two derivations from the same seed,
/// index and security level yield the same address.
pub proof fn lemma_generate_deterministic(
    seed: Seq<i8>,
    index: u64,
    security: u8,
    a: Seq<i8>,
    b: Seq<i8>,
)
    requires
        a == wots_address_of(seed, index, security),
        b == wots_address_of(seed, index, security),
    ensures
        a == b,
{
}

} // verus!
