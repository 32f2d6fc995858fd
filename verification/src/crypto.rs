//! Trusted boundary to the cryptographic collaborators: the Kerl sponge and
//! the winternitz address derivation built on it.
//!
//! Everything here is a thin call into the crypto crates; the rest of the
//! library reasons about the results only through the two uninterpreted
//! names `kerl_of` and `wots_address_of`.

use vstd::prelude::*;
use iota_crypto_preview::{Kerl, Sponge};
use iota_signing_preview::{IotaSeed, Seed, PrivateKey, PrivateKeyGenerator, PublicKey};
use iota_signing_preview::{WotsPrivateKeyGeneratorBuilder, WotsSecurityLevel};
use iota_ternary_preview::{Trits, TritBuf, T1B1, T1B1Buf};
use crate::trits::{is_hash_trits, valid_trits, HASH_TRITS};

verus! {

/// The Kerl sponge digest of a trit sequence whose length is a multiple of
/// 243. Deterministic: the digest depends on the input trits alone.
pub uninterp spec fn kerl_of(input: Seq<i8>) -> Seq<i8>;

/// The address derived from a seed for one (index, security) pair by
/// winternitz key generation over Kerl. Deterministic: the address depends
/// on the three arguments alone.
pub uninterp spec fn wots_address_of(seed: Seq<i8>, index: u64, security: u8) -> Seq<i8>;

/// Relies on `Sponge::digest` of `iota_crypto_preview::Kerl`: absorbing a
/// buffer whose length is a positive multiple of 243 valid trits and
/// squeezing once cannot fail and returns a 243-trit digest.
#[verifier::external_body]
pub(crate) fn kerl_digest(input: &Vec<i8>) -> (r: Vec<i8>)
    requires
        input@.len() % 243 == 0,
        valid_trits(input@),
    ensures
        r@ == kerl_of(input@),
        is_hash_trits(r@),
{
    let trits = Trits::<T1B1>::try_from_raw(&input[..], input.len()).unwrap();
    let mut kerl = Kerl::new();
    let digest = kerl.digest(trits).unwrap();
    digest.as_slice().as_i8_slice().to_vec()
}

/// Relies on `iota_signing_preview`: `IotaSeed::<Kerl>::from_buf` accepts any
/// 243-trit buffer, and the winternitz generator chain
/// (`WotsPrivateKeyGeneratorBuilder` -> `generate` -> `generate_public_key`)
/// cannot fail for security levels 1 to 3 and returns a 243-trit public key,
/// a pure function of seed, index and security level.
#[verifier::external_body]
pub(crate) fn derive_address_trits(seed: &Vec<i8>, index: u64, security: u8) -> (r: Vec<i8>)
    requires
        seed@.len() == HASH_TRITS,
        valid_trits(seed@),
        1 <= security <= 3,
    ensures
        r@ == wots_address_of(seed@, index, security),
        is_hash_trits(r@),
{
    let buf = Trits::<T1B1>::try_from_raw(&seed[..], seed.len()).unwrap().to_buf::<T1B1Buf>();
    let iota_seed = IotaSeed::<Kerl>::from_buf(buf).unwrap();
    let level = match security {
        1 => WotsSecurityLevel::Low,
        3 => WotsSecurityLevel::High,
        _ => WotsSecurityLevel::Medium,
    };
    let generator = WotsPrivateKeyGeneratorBuilder::<Kerl>::default()
        .security_level(level)
        .build()
        .unwrap();
    let private_key = generator.generate(&iota_seed, index).unwrap();
    let public_key = private_key.generate_public_key().unwrap();
    public_key.as_bytes().to_vec()
}

} // verus!
