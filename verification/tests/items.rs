use midnight_base_crypto::hash::{HashOutput, PERSISTENT_HASH_BYTES};
use midnight_base_crypto::signatures::{Signature, VerifyingKey};
use midnight_block_reader::error::ErrorKind;
use midnight_block_reader::parser::{
    conclude_item, parse_tx_index_item, prepare_item, NetworkId, TransactionHash, HASH_WIDTH,
};
use midnight_coin_structure::coin::Nonce;
use midnight_ledger::structure::{ClaimKind, ClaimRewardsTransaction, Transaction};
use midnight_storage::DefaultDB;
use midnight_transient_crypto::commitment::PureGeneratorPedersen;

type LedgerTransaction = Transaction<Signature, (), PureGeneratorPedersen, DefaultDB>;

const HASH_HEX: &str = "0x000102030405060708090a0b0c0d0e0f101112131415161718191a1b1c1d1e1f";

fn hash_bytes() -> [u8; 32] {
    let mut bytes = [0u8; 32];
    for (i, b) in bytes.iter_mut().enumerate() {
        *b = i as u8;
    }
    bytes
}

fn sample_transaction(value: u128) -> LedgerTransaction {
    Transaction::ClaimRewards(ClaimRewardsTransaction {
        network_id: "testnet".to_string(),
        value,
        owner: VerifyingKey::default(),
        nonce: Nonce(HashOutput([7u8; 32])),
        signature: Signature::default(),
        kind: ClaimKind::Reward,
    })
}

fn encoded(transaction: &Option<LedgerTransaction>) -> Vec<u8> {
    let mut bytes = Vec::new();
    midnight_serialize::tagged_serialize(transaction, &mut bytes).unwrap();
    bytes
}

fn payload_hex(transaction: &Option<LedgerTransaction>) -> String {
    format!("0x{}", hex::encode(encoded(transaction)))
}

#[test]
fn hash_width_is_the_ledgers() {
    assert_eq!(HASH_WIDTH, PERSISTENT_HASH_BYTES);
    assert_eq!(HASH_WIDTH, 32);
}

#[test]
fn hash_round_trip() {
    let (hash, payload) = prepare_item(HASH_HEX, "0x").unwrap();
    assert_eq!(hash.bytes, hash_bytes());
    assert_eq!(hash.bytes.len(), PERSISTENT_HASH_BYTES);
    assert_eq!(payload, None);
    let text = format!("0x{}", hex::encode(hash.bytes));
    assert_eq!(text, HASH_HEX);
}

#[test]
fn hash_digits_of_either_case() {
    let upper = "0xAABBCCDDEEFF00112233445566778899aabbccddeeff00112233445566778899";
    let (hash, _) = prepare_item(upper, "0x").unwrap();
    let mut expected = [0u8; 32];
    let half = [
        0xaa, 0xbb, 0xcc, 0xdd, 0xee, 0xff, 0x00, 0x11, 0x22, 0x33, 0x44, 0x55, 0x66, 0x77, 0x88,
        0x99,
    ];
    expected[..16].copy_from_slice(&half);
    expected[16..].copy_from_slice(&half);
    assert_eq!(hash.bytes, expected);
}

#[test]
fn payload_bytes_are_decoded() {
    let (hash, payload) = prepare_item(HASH_HEX, "0x00ff10Ab").unwrap();
    assert_eq!(hash, TransactionHash { bytes: hash_bytes() });
    assert_eq!(payload, Some(vec![0x00, 0xff, 0x10, 0xab]));
}

#[test]
fn the_prefix_is_dropped_unread() {
    let odd = format!("zz{}", &HASH_HEX[2..]);
    let (hash, payload) = prepare_item(&odd, "??0a").unwrap();
    assert_eq!(hash.bytes, hash_bytes());
    assert_eq!(payload, Some(vec![0x0a]));
}

#[test]
fn short_texts_have_no_prefix() {
    assert_eq!(prepare_item("", "0x").unwrap_err().kind, ErrorKind::InvalidPrefix);
    assert_eq!(prepare_item("0", "0x").unwrap_err().kind, ErrorKind::InvalidPrefix);
    assert_eq!(prepare_item(HASH_HEX, "").unwrap_err().kind, ErrorKind::InvalidPrefix);
    assert_eq!(prepare_item(HASH_HEX, "0").unwrap_err().kind, ErrorKind::InvalidPrefix);
    assert_eq!(prepare_item("zz", "0").unwrap_err().kind, ErrorKind::InvalidPrefix);
    let failure = parse_tx_index_item("0", "0x", NetworkId::TestNet).unwrap_err();
    assert_eq!(failure.kind, ErrorKind::InvalidPrefix);
}

#[test]
fn hash_that_is_no_hex() {
    let bad = "0xzz0102030405060708090a0b0c0d0e0f101112131415161718191a1b1c1d1e1f";
    let failure = prepare_item(bad, "0x").unwrap_err();
    assert_eq!(failure.kind, ErrorKind::HashDecodeError);
    assert!(!failure.detail.is_empty());
    let odd = "0x000102030405060708090a0b0c0d0e0f101112131415161718191a1b1c1d1e1";
    assert_eq!(prepare_item(odd, "0x").unwrap_err().kind, ErrorKind::HashDecodeError);
    assert_eq!(prepare_item("0x\u{e9}\u{e9}", "0x").unwrap_err().kind, ErrorKind::HashDecodeError);
    assert_eq!(
        parse_tx_index_item(bad, "0xzz", NetworkId::TestNet).unwrap_err().kind,
        ErrorKind::HashDecodeError
    );
}

#[test]
fn hash_of_another_width() {
    let short = "0x000102";
    assert_eq!(
        prepare_item(short, "0x").unwrap_err().kind,
        ErrorKind::InvalidHashLength { actual: 3, expected: 32 }
    );
    assert_eq!(
        prepare_item("0x", "0x").unwrap_err().kind,
        ErrorKind::InvalidHashLength { actual: 0, expected: 32 }
    );
    let long = format!("{}ff", HASH_HEX);
    assert_eq!(
        prepare_item(&long, "0x00").unwrap_err().kind,
        ErrorKind::InvalidHashLength { actual: 33, expected: 32 }
    );
    let just_under = &HASH_HEX[..HASH_HEX.len() - 2];
    assert_eq!(
        parse_tx_index_item(just_under, "0xnothex", NetworkId::TestNet).unwrap_err().kind,
        ErrorKind::InvalidHashLength { actual: 31, expected: 32 }
    );
}

#[test]
fn payload_that_is_no_hex() {
    assert_eq!(prepare_item(HASH_HEX, "0xgg").unwrap_err().kind, ErrorKind::PayloadDecodeError);
    assert_eq!(prepare_item(HASH_HEX, "0xabc").unwrap_err().kind, ErrorKind::PayloadDecodeError);
    let failure = parse_tx_index_item(HASH_HEX, "0x0", NetworkId::TestNet).unwrap_err();
    assert_eq!(failure.kind, ErrorKind::PayloadDecodeError);
    assert!(!failure.detail.is_empty());
}

#[test]
fn empty_payload_is_an_entry_without_transaction() {
    let (hash, transaction) = parse_tx_index_item(HASH_HEX, "0x", NetworkId::TestNet).unwrap();
    assert_eq!(hash.bytes, hash_bytes());
    assert!(transaction.is_none());
}

#[test]
fn payload_that_is_no_transaction() {
    let failure = parse_tx_index_item(HASH_HEX, "0x00", NetworkId::TestNet).unwrap_err();
    assert_eq!(failure.kind, ErrorKind::TransactionDecodeError);
    assert!(!failure.detail.is_empty());
    let failure = parse_tx_index_item(HASH_HEX, "0xdeadbeef", NetworkId::TestNet).unwrap_err();
    assert_eq!(failure.kind, ErrorKind::TransactionDecodeError);
}

#[test]
fn payload_with_bytes_left_over() {
    let mut bytes = encoded(&Some(sample_transaction(5)));
    bytes.push(0);
    let payload = format!("0x{}", hex::encode(bytes));
    let failure = parse_tx_index_item(HASH_HEX, &payload, NetworkId::TestNet).unwrap_err();
    assert_eq!(failure.kind, ErrorKind::TransactionDecodeError);
}

#[test]
fn payload_that_encodes_no_transaction() {
    let payload = payload_hex(&None);
    let failure = parse_tx_index_item(HASH_HEX, &payload, NetworkId::TestNet).unwrap_err();
    assert_eq!(failure.kind, ErrorKind::TransactionDataAbsent);
}

#[test]
fn payload_with_a_transaction() {
    let given = Some(sample_transaction(1_000_000));
    let payload = payload_hex(&given);
    let (hash, transaction) = parse_tx_index_item(HASH_HEX, &payload, NetworkId::TestNet).unwrap();
    assert_eq!(hash.bytes, hash_bytes());
    let decoded = transaction.expect("a transaction");
    match &decoded.inner {
        Transaction::ClaimRewards(claim) => {
            assert_eq!(claim.value, 1_000_000);
            assert_eq!(claim.network_id, "testnet");
        }
        _ => panic!("expected a claim"),
    }
    assert_eq!(encoded(&Some(decoded.inner)), encoded(&given));
}

#[test]
fn the_network_does_not_enter_the_result() {
    let payload = payload_hex(&Some(sample_transaction(3)));
    let networks = [NetworkId::Undeployed, NetworkId::DevNet, NetworkId::TestNet, NetworkId::MainNet];
    for network in networks {
        let (hash, transaction) = parse_tx_index_item(HASH_HEX, &payload, network).unwrap();
        assert_eq!(hash.bytes, hash_bytes());
        assert!(transaction.is_some());
    }
}

#[test]
fn parsing_twice_gives_the_same() {
    let payload = payload_hex(&Some(sample_transaction(99)));
    let (hash_a, tx_a) = parse_tx_index_item(HASH_HEX, &payload, NetworkId::TestNet).unwrap();
    let (hash_b, tx_b) = parse_tx_index_item(HASH_HEX, &payload, NetworkId::TestNet).unwrap();
    assert_eq!(hash_a, hash_b);
    assert_eq!(encoded(&tx_a.map(|t| t.inner)), encoded(&tx_b.map(|t| t.inner)));
    let first = parse_tx_index_item("0x00", "0x", NetworkId::TestNet).unwrap_err();
    let second = parse_tx_index_item("0x00", "0x", NetworkId::TestNet).unwrap_err();
    assert_eq!(first, second);
}

#[test]
fn conclude_item_sorts_the_decoder_outcomes() {
    let hash = TransactionHash { bytes: hash_bytes() };
    let absent = conclude_item(hash, Ok(None)).unwrap_err();
    assert_eq!(absent.kind, ErrorKind::TransactionDataAbsent);
    let error = std::io::Error::new(std::io::ErrorKind::InvalidData, "bad tag");
    let failure = conclude_item(hash, Err(error)).unwrap_err();
    assert_eq!(failure.kind, ErrorKind::TransactionDecodeError);
    assert_eq!(failure.detail, "bad tag");
}
