use std::collections::HashMap;

use openssl::ec::{EcGroup, EcKey};
use openssl::hash::{hash, MessageDigest};
use openssl::nid::Nid;
use openssl::pkey::PKey;
use openssl::rsa::Rsa;
use openssl::sign::Signer;
use openssl::symm::Cipher;

use rfid_supply_chain::builder::RfidBuilder;
use rfid_supply_chain::error::AppendError;
use rfid_supply_chain::key::PublicKey;
use rfid_supply_chain::rfid::RfidData;
use rfid_supply_chain::signature::{
    create_signature, hash_from_signature, is_rsa_public_key, verify_signature, BlockChainEntry,
    MAX_RSA_INPUT,
};
use rfid_supply_chain::supply_chain::SupplyChainEntry;

fn reading(x: f32) -> u32 {
    x.to_bits()
}

struct Party {
    id: u32,
    private_pem: Vec<u8>,
    public_pem: Vec<u8>,
}

fn party(id: u32) -> Party {
    let rsa = Rsa::generate(2048).unwrap();
    Party {
        id,
        private_pem: rsa.private_key_to_pem().unwrap(),
        public_pem: rsa.public_key_to_pem().unwrap(),
    }
}

fn registry(parties: &[&Party]) -> HashMap<u32, PublicKey> {
    let mut key_map: HashMap<u32, PublicKey> = HashMap::new();
    for p in parties {
        key_map.insert(
            p.id,
            PublicKey::new(p.id, p.public_pem.clone(), format!("{}", p.id + 1)),
        );
    }
    key_map
}

fn two_hops(dist0: &Party, dist1: &Party, dist2: &Party) -> (RfidData, HashMap<u32, PublicKey>) {
    let key_map = registry(&[dist0, dist1, dist2]);
    let data = RfidBuilder::default()
        .chip_data(42, reading(5.0), reading(5.0), reading(5.0), reading(5.0))
        .add_entry(dist0.private_pem.clone(), dist0.id, dist1.id, &key_map)
        .unwrap()
        .add_entry(dist1.private_pem.clone(), dist1.id, dist2.id, &key_map)
        .unwrap()
        .build();
    (data, key_map)
}

#[test]
fn test_signature_decrypt() {
    let rsa = Rsa::generate(2048).unwrap();
    let keypair = PKey::from_rsa(rsa.clone()).unwrap();
    let hasher = MessageDigest::sha3_256();
    let test_value = b"\xDE\xAD\xBE\xEF\xff";
    let test_hash = hash(hasher, test_value).unwrap().to_vec();

    let mut signer = Signer::new(hasher, &keypair).unwrap();

    signer.update(test_value).unwrap();

    let signature = signer.sign_to_vec().unwrap();

    let sign_hash = hash_from_signature(&keypair.public_key_to_pem().unwrap(), &signature);

    assert_eq!(sign_hash, Some(test_hash))
}

#[test]
fn test_rfid_data_build() {
    let keypair1 = Rsa::generate(2048).unwrap();
    let keypair2 = Rsa::generate(2048).unwrap();
    let keypair3 = Rsa::generate(2048).unwrap();

    let key_id1: u32 = 0;
    let key_id2: u32 = 1;
    let key_id3: u32 = 2;

    let mut key_map: HashMap<u32, PublicKey> = HashMap::new();
    key_map.insert(
        key_id1,
        PublicKey::new(
            key_id1,
            keypair1.public_key_to_pem().unwrap(),
            "1".to_string(),
        ),
    );
    key_map.insert(
        key_id2,
        PublicKey::new(
            key_id2,
            keypair2.public_key_to_pem().unwrap(),
            "2".to_string(),
        ),
    );
    key_map.insert(
        key_id3,
        PublicKey::new(
            key_id3,
            keypair3.public_key_to_pem().unwrap(),
            "3".to_string(),
        ),
    );

    let data = RfidBuilder::default()
        .chip_data(42, reading(5.0), reading(5.0), reading(5.0), reading(5.0))
        .add_entry(
            keypair1.private_key_to_pem().unwrap(),
            key_id1,
            key_id2,
            &key_map,
        )
        .unwrap()
        .add_entry(
            keypair2.private_key_to_pem().unwrap(),
            key_id2,
            key_id3,
            &key_map,
        )
        .unwrap()
        .build();

    assert!(data.valid_crc());
    assert!(data
        .validate_chain(&key_map, key_map.get(&key_id3).unwrap().clone())
        .is_ok());
    let data2: Vec<u8> = data.encode();
    let data2 = RfidData::decode(&data2).unwrap();
    assert!(data2.valid_crc());
    assert!(data2
        .validate_chain(&key_map, key_map.get(&key_id3).unwrap().clone())
        .is_ok());

    assert_eq!(data.calc_crc(), data2.calc_crc())
}

#[test]
fn sign_then_verify_with_matching_keys() {
    let p = party(7);
    let members = vec![b"first ".to_vec(), b"second".to_vec()];
    let signature = create_signature(&p.private_pem, &members).unwrap();
    assert_eq!(signature.len(), 256);
    assert!(verify_signature(&signature, b"first second", &p.public_pem));
    assert!(!verify_signature(&signature, b"first  second", &p.public_pem));
    let other = party(8);
    assert!(!verify_signature(&signature, b"first second", &other.public_pem));
}

#[test]
fn recovered_digest_is_sha3_of_the_message() {
    let p = party(1);
    let message = b"a message of some length".to_vec();
    let signature = create_signature(&p.private_pem, &vec![message.clone()]).unwrap();
    let digest = hash_from_signature(&p.public_pem, &signature).unwrap();
    let expected = hash(MessageDigest::sha3_256(), &message).unwrap().to_vec();
    assert_eq!(digest, expected);
    assert_eq!(digest.len(), 32);
}

#[test]
fn malformed_keys_and_signatures_fail_without_panic() {
    let p = party(1);
    assert_eq!(create_signature(b"not a key", &vec![b"x".to_vec()]), None);
    assert!(!verify_signature(&[0u8; 256], b"x", b"not a key"));
    assert!(!verify_signature(&[0u8; 12], b"x", &p.public_pem));
    assert_eq!(hash_from_signature(b"not a key", &[0u8; 256]), None);
    assert_eq!(hash_from_signature(&p.public_pem, &[0u8; 255]), None);
    assert_eq!(hash_from_signature(&p.public_pem, &[0xffu8; 256]), None);
}

#[test]
fn entry_trait_helpers_agree_with_free_functions() {
    let p = party(3);
    let entry = SupplyChainEntry::new(
        p.private_pem.clone(),
        b"next key".to_vec(),
        b"chained data".to_vec(),
        3,
    )
    .unwrap();
    assert_eq!(entry.pub_key, 3);
    assert_eq!(entry.signature(), entry.signature);
    assert!(entry.verify_signature(b"chained datanext key", &p.public_pem));
    assert!(!entry.verify_signature(b"chained data", &p.public_pem));
    let again = <SupplyChainEntry as BlockChainEntry>::create_signature(
        p.private_pem.clone(),
        vec![b"chained data".to_vec(), b"next key".to_vec()],
    )
    .unwrap();
    assert_eq!(again, entry.signature);
}

#[test]
fn two_hop_chain_validates_before_and_after_the_wire() {
    let (dist0, dist1, dist2) = (party(0), party(1), party(2));
    let (data, key_map) = two_hops(&dist0, &dist1, &dist2);
    assert_eq!(data.entries.len(), 2);
    assert_eq!(data.validate_chain(&key_map, key_map[&2].clone()), Ok(()));
    let wire = data.encode();
    assert_eq!(wire.len(), 36 + 2 * 260);
    let back = RfidData::decode(&wire).unwrap();
    assert_eq!(back.validate_chain(&key_map, key_map[&2].clone()), Ok(()));
}

#[test]
fn tampered_telemetry_fails_crc_and_position_zero() {
    let (dist0, dist1, dist2) = (party(0), party(1), party(2));
    let (data, key_map) = two_hops(&dist0, &dist1, &dist2);
    let mut wire = data.encode();
    wire[10] ^= 0x01;
    let back = RfidData::decode(&wire).unwrap();
    assert!(!back.valid_crc());
    assert_eq!(back.validate_chain(&key_map, key_map[&2].clone()), Err(0));
}

#[test]
fn wrong_final_successor_fails_at_last_position() {
    let (dist0, dist1, dist2) = (party(0), party(1), party(2));
    let (data, key_map) = two_hops(&dist0, &dist1, &dist2);
    assert_eq!(data.validate_chain(&key_map, key_map[&0].clone()), Err(1));
}

#[test]
fn missing_successor_key_fails_at_position_zero() {
    let (dist0, dist1, dist2) = (party(0), party(1), party(2));
    let (data, mut key_map) = two_hops(&dist0, &dist1, &dist2);
    let final_key = key_map[&2].clone();
    key_map.remove(&1);
    assert_eq!(data.validate_chain(&key_map, final_key), Err(0));
}

#[test]
fn missing_signer_key_fails_at_that_position() {
    let (dist0, dist1, dist2) = (party(0), party(1), party(2));
    let (data, mut key_map) = two_hops(&dist0, &dist1, &dist2);
    let final_key = key_map[&2].clone();
    key_map.remove(&0);
    assert_eq!(data.validate_chain(&key_map, final_key), Err(0));
}

#[test]
fn flipped_signature_bit_is_caught_at_or_before_its_entry() {
    let (dist0, dist1, dist2) = (party(0), party(1), party(2));
    let (data, key_map) = two_hops(&dist0, &dist1, &dist2);

    let mut first = data.clone();
    first.entries[0].signature[100] ^= 0x10;
    assert_eq!(first.validate_chain(&key_map, key_map[&2].clone()), Err(0));

    let mut second = data.clone();
    second.entries[1].signature[0] ^= 0x01;
    assert_eq!(second.validate_chain(&key_map, key_map[&2].clone()), Err(1));
}

#[test]
fn changed_next_signer_is_caught_at_the_entry_before() {
    let (dist0, dist1, dist2) = (party(0), party(1), party(2));
    let (data, key_map) = two_hops(&dist0, &dist1, &dist2);
    let mut changed = data.clone();
    changed.entries[1].pub_key = 2;
    assert_eq!(changed.validate_chain(&key_map, key_map[&2].clone()), Err(0));
}

#[test]
fn empty_chain_is_valid() {
    let p = party(0);
    let key_map = registry(&[&p]);
    let data = RfidBuilder::default()
        .chip_data(42, reading(5.0), reading(5.0), reading(5.0), reading(5.0))
        .build();
    assert_eq!(data.validate_chain(&key_map, key_map[&0].clone()), Ok(()));
}

#[test]
fn append_reports_each_failure() {
    let (dist0, dist1) = (party(0), party(1));
    let key_map = registry(&[&dist0, &dist1]);
    let start = || RfidBuilder::default().chip_data(1, 0, 0, 0, 0);

    let unknown_next = start().add_entry(dist0.private_pem.clone(), 0, 9, &key_map);
    assert_eq!(unknown_next.err(), Some(AppendError::UnknownKey(9)));

    let bad_key = start().add_entry(b"junk".to_vec(), 0, 1, &key_map);
    assert_eq!(bad_key.err(), Some(AppendError::Crypto));

    let one = start()
        .add_entry(dist0.private_pem.clone(), 0, 1, &key_map)
        .unwrap()
        .build();
    let only_next = registry(&[&dist1]);
    let unknown_previous =
        RfidBuilder::from(one.clone()).add_entry(dist1.private_pem.clone(), 1, 1, &only_next);
    assert_eq!(unknown_previous.err(), Some(AppendError::UnknownKey(0)));

    let mut broken = one.clone();
    broken.entries[0].signature = vec![0xff; 256];
    let unopened = RfidBuilder::from(broken).add_entry(dist1.private_pem.clone(), 1, 0, &key_map);
    assert_eq!(unopened.err(), Some(AppendError::Crypto));

    let small = Rsa::generate(1024).unwrap().private_key_to_pem().unwrap();
    let short = start().add_entry(small, 0, 1, &key_map);
    assert_eq!(short.err(), Some(AppendError::Crypto));
}

#[test]
fn append_keeps_a_valid_chain_valid() {
    let (dist0, dist1, dist2, dist3) = (party(0), party(1), party(2), party(3));
    let (data, _) = two_hops(&dist0, &dist1, &dist2);
    let key_map = registry(&[&dist0, &dist1, &dist2, &dist3]);
    assert_eq!(data.validate_chain(&key_map, key_map[&2].clone()), Ok(()));
    let longer = RfidBuilder::from(data)
        .add_entry(dist2.private_pem.clone(), 2, 3, &key_map)
        .unwrap()
        .build();
    assert_eq!(longer.entries.len(), 3);
    assert!(longer.valid_crc());
    assert_eq!(longer.validate_chain(&key_map, key_map[&3].clone()), Ok(()));
}

#[test]
fn key_under_a_passphrase_is_refused_without_asking() {
    let rsa = Rsa::generate(2048).unwrap();
    let locked = rsa
        .private_key_to_pem_passphrase(Cipher::aes_128_cbc(), b"secret")
        .unwrap();
    assert_eq!(create_signature(&locked, &vec![b"x".to_vec()]), None);
    let again = create_signature(&locked, &vec![b"x".to_vec()]);
    assert_eq!(again, None);

    let open = rsa.private_key_to_pem().unwrap();
    let signature = create_signature(&open, &vec![b"x".to_vec()]).unwrap();

    let headed = b"-----BEGIN PUBLIC KEY-----\nProc-Type: 4,ENCRYPTED\nDEK-Info: AES-128-CBC,000102030405060708090A0B0C0D0E0F\n\nAAAAAAAAAAAAAAAAAAAAAAAAAAAAAAAAAAAAAAAAAAA=\n-----END PUBLIC KEY-----\n";
    assert!(!verify_signature(&signature, b"x", headed));
    assert_eq!(hash_from_signature(headed, &signature), None);
    assert!(!is_rsa_public_key(headed));
}

#[test]
fn signatures_are_the_same_each_time() {
    let d = party(4);
    let members = vec![b"one".to_vec(), b"two".to_vec()];
    let first = create_signature(&d.private_pem, &members).unwrap();
    let second = create_signature(&d.private_pem, &members).unwrap();
    assert_eq!(first, second);
    assert_eq!(
        hash_from_signature(&d.public_pem, &first),
        hash_from_signature(&d.public_pem, &second)
    );
}

#[test]
fn key_of_another_kind_is_no_rsa_key() {
    let group = EcGroup::from_curve_name(Nid::X9_62_PRIME256V1).unwrap();
    let ec = PKey::from_ec_key(EcKey::generate(&group).unwrap()).unwrap();
    let ec_public = ec.public_key_to_pem().unwrap();
    let d = party(5);
    let signature = create_signature(&d.private_pem, &vec![b"x".to_vec()]).unwrap();
    assert!(!is_rsa_public_key(&ec_public));
    assert!(is_rsa_public_key(&d.public_pem));
    assert!(!is_rsa_public_key(&d.private_pem));
    assert!(!is_rsa_public_key(b""));
    assert_eq!(hash_from_signature(&ec_public, &signature), None);
    assert!(!verify_signature(&signature, b"x", &ec_public));
    assert_eq!(
        create_signature(&ec.private_key_to_pem_pkcs8().unwrap(), &vec![b"x".to_vec()]),
        None
    );
}

#[test]
fn key_too_long_to_hand_over_is_refused() {
    assert_eq!(MAX_RSA_INPUT, 0x7fff_ffff);
    let d = party(6);
    let signature = create_signature(&d.private_pem, &vec![b"x".to_vec()]).unwrap();
    let long = vec![0u8; MAX_RSA_INPUT + 1];
    assert_eq!(create_signature(&long, &vec![b"x".to_vec()]), None);
    assert!(!verify_signature(&signature, b"x", &long));
    assert_eq!(hash_from_signature(&long, &signature), None);
    assert!(!is_rsa_public_key(&long));
}
