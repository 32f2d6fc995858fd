use tangle_client::address::{generate, Address, Seed};
use tangle_client::attach::attach;
use tangle_client::bundle::prepare;
use tangle_client::error::Error;
use tangle_client::send::{broadcast, check_consistency, tail_flags, SendTransfersBuilder};
use tangle_client::transfer::{Input, Transfer};

fn seed() -> Seed {
    let trytes: Vec<u8> = vec![b'A'; 81];
    Seed::from_trytes(&trytes).unwrap()
}

fn address_a() -> Address {
    Address {
        trits: vec![1i8; 243],
    }
}

fn address_b() -> Address {
    Address {
        trits: vec![-1i8; 243],
    }
}

fn tip(fill: i8) -> tangle_client::address::Hash {
    tangle_client::address::Hash {
        trits: vec![fill; 243],
    }
}

fn transfer_to(addr: Address, value: u64) -> Transfer {
    Transfer {
        address: addr,
        value,
        tag: None,
        message: None,
    }
}

fn input_from(addr: Address, balance: u64, index: u64, security: u8) -> Input {
    Input {
        address: addr,
        balance,
        index,
        security,
    }
}

#[test]
fn seed_parses_from_valid_trytes() {
    let trytes: Vec<u8> = vec![b'A'; 81];
    assert!(Seed::from_trytes(&trytes).is_ok());
}

#[test]
fn seed_rejects_wrong_length() {
    let trytes: Vec<u8> = vec![b'A'; 80];
    assert_eq!(Seed::from_trytes(&trytes).unwrap_err(), Error::InvalidSeed);
}

#[test]
fn seed_rejects_bad_character() {
    let mut trytes: Vec<u8> = vec![b'A'; 81];
    trytes[40] = b'a';
    assert_eq!(Seed::from_trytes(&trytes).unwrap_err(), Error::InvalidSeed);
}

#[test]
fn address_parses_and_rejects() {
    let trytes: Vec<u8> = vec![b'Z'; 81];
    let addr = Address::from_trytes(&trytes).unwrap();
    assert_eq!(addr.trits.len(), 243);
    let bad: Vec<u8> = vec![b'-'; 81];
    assert_eq!(Address::from_trytes(&bad).unwrap_err(), Error::InvalidAddress);
}

#[test]
fn tryte_parsing_is_not_identity() {
    // `9` denotes three zero trits; `M` (value 13) denotes (1, 1, 1).
    let trytes: Vec<u8> = vec![b'9'; 81];
    let zero_addr = Address::from_trytes(&trytes).unwrap();
    assert_eq!(zero_addr.trits, vec![0i8; 243]);
    let m_trytes: Vec<u8> = vec![b'M'; 81];
    let m_addr = Address::from_trytes(&m_trytes).unwrap();
    assert_eq!(m_addr.trits[0], 1);
    assert_eq!(m_addr.trits[1], 1);
    assert_eq!(m_addr.trits[2], 1);
}

#[test]
fn hash_rejects_wrong_length_instead_of_truncating() {
    let long: Vec<i8> = vec![0i8; 244];
    assert_eq!(
        tangle_client::address::Hash::from_trits(&long).unwrap_err(),
        Error::InvalidAddress
    );
    let short: Vec<i8> = vec![0i8; 242];
    assert_eq!(
        tangle_client::address::Hash::from_trits(&short).unwrap_err(),
        Error::InvalidAddress
    );
    let bad_trit: Vec<i8> = vec![2i8; 243];
    assert_eq!(
        tangle_client::address::Hash::from_trits(&bad_trit).unwrap_err(),
        Error::InvalidAddress
    );
}

#[test]
fn generate_is_deterministic() {
    let s = seed();
    let (i1, a1) = generate(&s, 5, 1).unwrap();
    let (i2, a2) = generate(&s, 5, 1).unwrap();
    assert_eq!(i1, 5);
    assert_eq!(i2, 5);
    assert_eq!(a1.trits, a2.trits);
    assert_eq!(a1.trits.len(), 243);
}

#[test]
fn generate_differs_from_seed_and_between_indices() {
    let s = seed();
    let trytes: Vec<u8> = vec![b'A'; 81];
    let seed_trits = Address::from_trytes(&trytes).unwrap().trits;
    let (_, a0) = generate(&s, 0, 1).unwrap();
    let (_, a1) = generate(&s, 1, 1).unwrap();
    assert_ne!(a0.trits, seed_trits);
    assert_ne!(a0.trits, a1.trits);
}

#[test]
fn generate_rejects_bad_security() {
    let s = seed();
    assert_eq!(generate(&s, 0, 0).unwrap_err(), Error::Derivation);
    assert_eq!(generate(&s, 0, 4).unwrap_err(), Error::Derivation);
}

#[test]
fn prepare_balances_to_zero_with_remainder() {
    // One transfer of 100 funded by a 150 balance: a credit, a debit and a
    // remainder of 50.
    let s = seed();
    let transfers = vec![transfer_to(address_a(), 100)];
    let inputs = vec![input_from(address_b(), 150, 0, 1)];
    let txs = prepare(&s, &transfers, 1, &inputs, &None, 0).unwrap();
    assert_eq!(txs.len(), 3);
    assert_eq!(txs[0].value, 100);
    assert_eq!(txs[0].address, vec![1i8; 243]);
    assert_eq!(txs[1].value, -150);
    assert_eq!(txs[1].address, vec![-1i8; 243]);
    assert_eq!(txs[2].value, 50);
    let sum: i128 = txs.iter().map(|t| t.value).sum();
    assert_eq!(sum, 0);
    for (k, t) in txs.iter().enumerate() {
        assert_eq!(t.index, k as u64);
        assert_eq!(t.last_index, 2);
        assert_eq!(t.bundle_hash, txs[0].bundle_hash);
    }
    // The derived remainder address is the next derivation after the
    // highest input index.
    let (_, rem) = generate(&s, 1, 1).unwrap();
    assert_eq!(txs[2].address, rem.trits);
    // The shared bundle hash is a digest, not a copy of any input field.
    assert_ne!(txs[0].bundle_hash, txs[0].address);
    assert_eq!(txs[0].bundle_hash.len(), 243);
}

#[test]
fn prepare_exact_balance_has_no_remainder() {
    let s = seed();
    let transfers = vec![transfer_to(address_a(), 100)];
    let inputs = vec![input_from(address_b(), 100, 0, 1)];
    let txs = prepare(&s, &transfers, 1, &inputs, &None, 1_700_000_000).unwrap();
    assert_eq!(txs.len(), 2);
    assert!(txs.iter().all(|t| t.timestamp == 1_700_000_000));
    let sum: i128 = txs.iter().map(|t| t.value).sum();
    assert_eq!(sum, 0);
}

#[test]
fn prepare_fails_on_insufficient_balance() {
    let s = seed();
    let transfers = vec![transfer_to(address_a(), 15)];
    let inputs = vec![input_from(address_b(), 10, 0, 1)];
    assert_eq!(
        prepare(&s, &transfers, 1, &inputs, &None, 0).unwrap_err(),
        Error::InsufficientBalance
    );
}

#[test]
fn prepare_splits_input_fragments_by_security() {
    let s = seed();
    let transfers = vec![transfer_to(address_a(), 60), transfer_to(address_a(), 40)];
    let inputs = vec![
        input_from(address_b(), 70, 0, 2),
        input_from(address_b(), 30, 1, 3),
    ];
    let txs = prepare(&s, &transfers, 2, &inputs, &None, 0).unwrap();
    // 2 credits + 2 fragments + 3 fragments, no remainder.
    assert_eq!(txs.len(), 7);
    assert_eq!(txs[2].value, -70);
    assert_eq!(txs[3].value, 0);
    assert_eq!(txs[4].value, -30);
    assert_eq!(txs[5].value, 0);
    assert_eq!(txs[6].value, 0);
    let sum: i128 = txs.iter().map(|t| t.value).sum();
    assert_eq!(sum, 0);
    for t in txs.iter() {
        assert_eq!(t.bundle_hash, txs[0].bundle_hash);
    }
}

#[test]
fn prepare_uses_caller_remainder_address() {
    let s = seed();
    let transfers = vec![transfer_to(address_a(), 10)];
    let inputs = vec![input_from(address_b(), 25, 0, 1)];
    let rem = Some(address_a());
    let txs = prepare(&s, &transfers, 1, &inputs, &rem, 0).unwrap();
    assert_eq!(txs.len(), 3);
    assert_eq!(txs[2].value, 15);
    assert_eq!(txs[2].address, vec![1i8; 243]);
}

#[test]
fn prepare_rejects_malformed_transfer_address() {
    let s = seed();
    let transfers = vec![transfer_to(
        Address {
            trits: vec![1i8; 10],
        },
        5,
    )];
    let inputs = vec![input_from(address_b(), 10, 0, 1)];
    assert_eq!(
        prepare(&s, &transfers, 1, &inputs, &None, 0).unwrap_err(),
        Error::InvalidAddress
    );
}

#[test]
fn attach_meets_difficulty_and_chains_trunks() {
    let s = seed();
    let transfers = vec![transfer_to(address_a(), 100)];
    let inputs = vec![input_from(address_b(), 150, 0, 1)];
    let mut txs = prepare(&s, &transfers, 1, &inputs, &None, 0).unwrap();
    txs.reverse();
    let trunk = tip(0);
    let branch = tip(1);
    let out = attach(&trunk, &branch, &txs, 2).unwrap();
    assert_eq!(out.len(), 3);
    for (k, at) in out.iter().enumerate() {
        // Difficulty: at least two trailing zero trits in each hash.
        assert_eq!(at.hash[242], 0);
        assert_eq!(at.hash[241], 0);
        assert_eq!(at.hash.len(), 243);
        // Chaining: first links the trunk tip, the rest the previous hash.
        if k == 0 {
            assert_eq!(at.trunk, trunk.trits);
        } else {
            assert_eq!(at.trunk, out[k - 1].hash);
        }
        assert_eq!(at.branch, branch.trits);
        // The transactions themselves are unchanged.
        assert_eq!(at.tx.value, txs[k].value);
        assert_eq!(at.tx.index, txs[k].index);
        assert_eq!(at.tx.bundle_hash, txs[k].bundle_hash);
    }
}

#[test]
fn attach_rejects_difficulty_out_of_range() {
    let txs = Vec::new();
    assert_eq!(
        attach(&tip(0), &tip(0), &txs, 0).unwrap_err(),
        Error::Attachment
    );
    assert_eq!(
        attach(&tip(0), &tip(0), &txs, 244).unwrap_err(),
        Error::Attachment
    );
}

#[test]
fn builder_applies_safe_defaults() {
    let b = SendTransfersBuilder::new();
    assert!(b.seed.is_none());
    assert!(b.transfers.is_empty());
    assert_eq!(b.security, 2);
    assert!(b.inputs.is_none());
    assert!(b.remainder.is_none());
    assert_eq!(b.depth, 3);
    assert_eq!(b.min_weight_magnitude, 14);
    assert_eq!(b.timestamp, 0);
    assert!(b.reference.is_none());
}

#[test]
fn send_without_seed_fails_fast() {
    let b = SendTransfersBuilder::new()
        .transfers(vec![transfer_to(address_a(), 100)])
        .inputs(vec![input_from(address_b(), 150, 0, 1)])
        .security(1)
        .min_weight_magnitude(1);
    assert_eq!(
        b.send(&tip(0), &tip(1)).unwrap_err(),
        Error::MissingSeed
    );
}

#[test]
fn send_attaches_reversed_bundle_and_broadcast_round_trips() {
    let s = seed();
    let out = SendTransfersBuilder::new()
        .seed(s.duplicate())
        .transfers(vec![transfer_to(address_a(), 100)])
        .inputs(vec![input_from(address_b(), 150, 0, 1)])
        .security(1)
        .min_weight_magnitude(1)
        .send(&tip(0), &tip(1))
        .unwrap();
    assert_eq!(out.len(), 3);
    // Submission order is reversed: the tail (index 0) is sent last.
    assert_eq!(out[0].tx.index, 2);
    assert_eq!(out[1].tx.index, 1);
    assert_eq!(out[2].tx.index, 0);
    assert_eq!(tail_flags(&out), vec![false, false, true]);
    // First submitted is the remainder credit, derived past the input index.
    let (_, rem) = generate(&s, 1, 1).unwrap();
    assert_eq!(out[0].tx.address, rem.trits);
    assert_eq!(out[0].tx.value, 50);
    // Rebroadcasting the tail obtained from the send succeeds and leaves
    // the bundle untouched (it is only read).
    let tail = tangle_client::address::Hash {
        trits: out[2].hash.clone(),
    };
    assert!(broadcast(&tail, &out).is_ok());
    // A foreign tail hash is rejected.
    let wrong = tip(1);
    assert_eq!(broadcast(&wrong, &out).unwrap_err(), Error::InvalidAddress);
}

#[test]
fn send_reports_preparation_failures() {
    let b = SendTransfersBuilder::new()
        .seed(seed())
        .transfers(vec![transfer_to(address_a(), 100)])
        .inputs(vec![input_from(address_b(), 10, 0, 1)])
        .security(1)
        .min_weight_magnitude(1);
    assert_eq!(
        b.send(&tip(0), &tip(1)).unwrap_err(),
        Error::InsufficientBalance
    );
}

#[test]
fn check_consistency_validates_tail_shapes() {
    let tails = vec![vec![0i8; 243], vec![1i8; 243]];
    let hs = check_consistency(&tails).unwrap();
    assert_eq!(hs.len(), 2);
    assert_eq!(hs[1].trits, vec![1i8; 243]);
    let bad = vec![vec![0i8; 243], vec![0i8; 10]];
    assert_eq!(check_consistency(&bad).unwrap_err(), Error::InvalidAddress);
}

#[test]
fn send_requires_a_nonempty_transfer_list() {
    let b = SendTransfersBuilder::new().seed(seed()).min_weight_magnitude(1);
    assert_eq!(b.send(&tip(0), &tip(1)).unwrap_err(), Error::Serialization);
}

#[test]
fn error_kinds_have_names() {
    assert_eq!(Error::InvalidSeed.name(), "invalid seed");
    assert_eq!(Error::InvalidAddress.name(), "invalid address");
    assert_eq!(Error::MissingSeed.name(), "missing seed");
    assert_eq!(Error::InsufficientBalance.name(), "insufficient balance");
    assert_eq!(Error::Attachment.name(), "attachment");
    assert_eq!(Error::Derivation.name(), "derivation");
    assert_eq!(Error::Network.name(), "network");
    assert_eq!(Error::Serialization.name(), "serialization");
}
