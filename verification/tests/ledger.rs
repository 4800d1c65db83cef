use std::collections::HashMap;

use openssl::rsa::Rsa;

use rfid_supply_chain::builder::RfidBuilder;
use rfid_supply_chain::canon::canon_rfid;
use rfid_supply_chain::central_record::{CentralEntry, CentralRecord};
use rfid_supply_chain::database::DatabaseModel;
use rfid_supply_chain::error::LedgerError;
use rfid_supply_chain::key::PublicKey;
use rfid_supply_chain::rfid::RfidData;
use rfid_supply_chain::signature::{verify_signature, BlockChainEntry};

fn texts_for(values: &[f32]) -> HashMap<u32, Vec<u8>> {
    let mut texts = HashMap::new();
    for v in values {
        texts.insert(v.to_bits(), serde_json::to_vec(v).unwrap());
    }
    texts
}

struct World {
    key_map: HashMap<u32, PublicKey>,
    private: Vec<Vec<u8>>,
}

fn world(n: u32) -> World {
    let mut key_map = HashMap::new();
    let mut private = Vec::new();
    for id in 0..n {
        let rsa = Rsa::generate(2048).unwrap();
        key_map.insert(
            id,
            PublicKey::new(id, rsa.public_key_to_pem().unwrap(), format!("{}", id + 1)),
        );
        private.push(rsa.private_key_to_pem().unwrap());
    }
    World { key_map, private }
}

fn two_hop_tag(w: &World, reading: f32) -> RfidData {
    let bits = reading.to_bits();
    RfidBuilder::default()
        .chip_data(42, bits, bits, bits, bits)
        .add_entry(w.private[0].clone(), 0, 1, &w.key_map)
        .unwrap()
        .add_entry(w.private[1].clone(), 1, 2, &w.key_map)
        .unwrap()
        .build()
}

#[test]
fn test_central_record() {
    let keypair1 = Rsa::generate(2048).unwrap();
    let keypair2 = Rsa::generate(2048).unwrap();
    let keypair3 = Rsa::generate(2048).unwrap();
    let keypair4 = Rsa::generate(2048).unwrap();

    let key_id1: u32 = 0;
    let key_id2: u32 = 1;
    let key_id3: u32 = 2;
    let key_id4: u32 = 3;

    let mut key_map: HashMap<u32, PublicKey> = HashMap::new();
    key_map.insert(
        key_id1,
        PublicKey::new(
            key_id1,
            keypair1.public_key_to_pem().unwrap(),
            "1".to_string(),
        ),
    );
    key_map.insert(
        key_id2,
        PublicKey::new(
            key_id2,
            keypair2.public_key_to_pem().unwrap(),
            "2".to_string(),
        ),
    );
    key_map.insert(
        key_id3,
        PublicKey::new(
            key_id3,
            keypair3.public_key_to_pem().unwrap(),
            "3".to_string(),
        ),
    );

    key_map.insert(
        key_id4,
        PublicKey::new(
            key_id4,
            keypair4.public_key_to_pem().unwrap(),
            "4".to_string(),
        ),
    );

    let five = 5.0f32.to_bits();
    let texts = texts_for(&[5.0]);

    let data = RfidBuilder::default()
        .chip_data(42, five, five, five, five)
        .add_entry(
            keypair1.private_key_to_pem().unwrap(),
            key_id1,
            key_id2,
            &key_map,
        )
        .unwrap()
        .add_entry(
            keypair2.private_key_to_pem().unwrap(),
            key_id2,
            key_id3,
            &key_map,
        )
        .unwrap()
        .build();

    let mut record = CentralRecord::default();
    record
        .add_entry(
            keypair4.private_key_to_pem().unwrap().to_vec(),
            key_id2,
            key_id3,
            key_map.get(&key_id3).unwrap().key.clone(),
            data,
            &texts,
        )
        .unwrap();

    assert!(record
        .validate_chain(&key_map, key_map.get(&key_id4).unwrap().clone(), &texts)
        .is_ok());
}

#[test]
fn central_record_test_central_record() {
    let w = world(4);
    let texts = texts_for(&[5.0]);
    let data = two_hop_tag(&w, 5.0);

    let mut record = CentralRecord::default();
    record
        .add_entry(
            w.private[3].clone(),
            1,
            2,
            w.key_map.get(&2).unwrap().key.clone(),
            data,
            &texts,
        )
        .unwrap();

    assert!(record
        .validate_chain(&w.key_map, w.key_map.get(&3).unwrap().clone(), &texts)
        .is_ok());
}

#[test]
fn mirror_append_twice_validates() {
    let w = world(4);
    let texts = texts_for(&[5.0, 7.25]);
    let authority = w.key_map[&3].clone();

    let mut record = CentralRecord::new(42);
    assert_eq!(record.chip_id, 42);
    assert_eq!(
        record.validate_chain(&w.key_map, authority.clone(), &texts),
        Ok(())
    );

    record
        .add_entry(
            w.private[3].clone(),
            1,
            2,
            w.key_map[&2].key.clone(),
            two_hop_tag(&w, 5.0),
            &texts,
        )
        .unwrap();
    assert_eq!(record.entries.len(), 1);
    assert_eq!(
        record.validate_chain(&w.key_map, authority.clone(), &texts),
        Ok(())
    );

    record
        .add_entry(
            w.private[3].clone(),
            1,
            2,
            w.key_map[&2].key.clone(),
            two_hop_tag(&w, 7.25),
            &texts,
        )
        .unwrap();
    assert_eq!(record.entries.len(), 2);
    assert_eq!(record.entries[1].dist_id, 1);
    assert_eq!(record.entries[1].next_dist_id, 2);
    assert_eq!(
        record.validate_chain(&w.key_map, authority.clone(), &texts),
        Ok(())
    );

    record
        .add_entry(
            w.private[3].clone(),
            2,
            0,
            w.key_map[&0].key.clone(),
            two_hop_tag(&w, 5.0),
            &texts,
        )
        .unwrap();
    assert_eq!(
        record.validate_chain(&w.key_map, authority, &texts),
        Ok(())
    );
}

#[test]
fn second_entry_signs_the_frozen_ledger() {
    let w = world(4);
    let texts = texts_for(&[5.0]);
    let authority_pem = w.key_map[&3].key.clone();
    let next_pem = w.key_map[&2].key.clone();
    let tag = two_hop_tag(&w, 5.0);

    let mut record = CentralRecord::new(42);
    record
        .add_entry(w.private[3].clone(), 1, 2, next_pem.clone(), tag.clone(), &texts)
        .unwrap();

    let mut first = canon_rfid(&tag, &texts).unwrap();
    first.extend_from_slice(&next_pem);
    assert!(verify_signature(
        &record.entries[0].signature,
        &first,
        &authority_pem
    ));

    let frozen = record.canon(&texts).unwrap();
    record
        .add_entry(w.private[3].clone(), 1, 2, next_pem.clone(), tag.clone(), &texts)
        .unwrap();

    let mut second = frozen.clone();
    second.extend_from_slice(&canon_rfid(&tag, &texts).unwrap());
    second.extend_from_slice(&next_pem);
    assert!(verify_signature(
        &record.entries[1].signature,
        &second,
        &authority_pem
    ));
    assert!(record.entries[1].verify_signature(&second, &authority_pem));
    assert!(!record.entries[1].verify_signature(&first, &authority_pem));
    assert_eq!(record.entries[1].signature(), record.entries[1].signature);
}

#[test]
fn ledger_failures_name_the_first_bad_entry() {
    let w = world(4);
    let texts = texts_for(&[5.0]);
    let authority = w.key_map[&3].clone();
    let mut record = CentralRecord::new(42);
    for _ in 0..3 {
        record
            .add_entry(
                w.private[3].clone(),
                1,
                2,
                w.key_map[&2].key.clone(),
                two_hop_tag(&w, 5.0),
                &texts,
            )
            .unwrap();
    }

    let wrong_authority = w.key_map[&0].clone();
    assert_eq!(
        record.validate_chain(&w.key_map, wrong_authority, &texts),
        Err(0)
    );

    let mut tampered = record.clone();
    tampered.entries[1].signature[5] ^= 0x40;
    assert_eq!(
        tampered.validate_chain(&w.key_map, authority.clone(), &texts),
        Err(1)
    );

    let mut edited = record.clone();
    edited.entries[0].rfid_data.chip_data.chip_id = 43;
    assert_eq!(
        edited.validate_chain(&w.key_map, authority.clone(), &texts),
        Err(0)
    );

    let mut renamed = record.clone();
    renamed.entries[2].next_dist_id = 9;
    assert_eq!(
        renamed.validate_chain(&w.key_map, authority.clone(), &texts),
        Err(2)
    );

    let mut other_chip = record.clone();
    other_chip.chip_id = 7;
    assert_eq!(
        other_chip.validate_chain(&w.key_map, authority.clone(), &texts),
        Err(1)
    );

    let no_texts: HashMap<u32, Vec<u8>> = HashMap::new();
    assert_eq!(
        record.validate_chain(&w.key_map, authority, &no_texts),
        Err(0)
    );
}

#[test]
fn mirror_append_errors_leave_the_ledger_alone() {
    let w = world(4);
    let texts = texts_for(&[5.0]);
    let next_pem = w.key_map[&2].key.clone();
    let mut record = CentralRecord::new(42);

    let no_texts: HashMap<u32, Vec<u8>> = HashMap::new();
    assert_eq!(
        record.add_entry(
            w.private[3].clone(),
            1,
            2,
            next_pem.clone(),
            two_hop_tag(&w, 5.0),
            &no_texts
        ),
        Err(LedgerError::UnknownReading)
    );
    assert_eq!(record.entries.len(), 0);

    assert_eq!(
        record.add_entry(
            b"no key".to_vec(),
            1,
            2,
            next_pem.clone(),
            two_hop_tag(&w, 5.0),
            &texts
        ),
        Err(LedgerError::Crypto)
    );
    assert_eq!(record.entries.len(), 0);

    record
        .add_entry(
            w.private[3].clone(),
            1,
            2,
            next_pem.clone(),
            two_hop_tag(&w, 5.0),
            &texts,
        )
        .unwrap();
    assert_eq!(
        record.add_entry(
            w.private[3].clone(),
            1,
            2,
            next_pem,
            two_hop_tag(&w, 5.0),
            &no_texts
        ),
        Err(LedgerError::UnknownReading)
    );
    assert_eq!(record.entries.len(), 1);
    assert_eq!(record.canon(&no_texts), None);
}

#[test]
fn central_entry_new_signs_what_it_is_given() {
    let w = world(4);
    let texts = texts_for(&[5.0]);
    let tag = two_hop_tag(&w, 5.0);
    let next_pem = w.key_map[&2].key.clone();
    let entry = CentralEntry::new(
        w.private[3].clone(),
        1,
        2,
        next_pem.clone(),
        tag.clone(),
        b"what came before".to_vec(),
        &texts,
    )
    .unwrap();
    assert_eq!(entry.signature.len(), 256);
    let mut signed = b"what came before".to_vec();
    signed.extend_from_slice(&canon_rfid(&tag, &texts).unwrap());
    signed.extend_from_slice(&next_pem);
    assert!(verify_signature(&entry.signature, &signed, &w.key_map[&3].key));
}

#[test]
fn ledger_storage_key_and_partition() {
    let mut record = CentralRecord::new(0x0102_0304_0506_0708_090a_0b0c_0d0e_0f10);
    assert_eq!(record.id(), 0x0102_0304_0506_0708_090a_0b0c_0d0e_0f10);
    assert_eq!(
        CentralRecord::id_type_to_bytes(0x0102_0304_0506_0708_090a_0b0c_0d0e_0f10),
        vec![16, 15, 14, 13, 12, 11, 10, 9, 8, 7, 6, 5, 4, 3, 2, 1]
    );
    assert_eq!(CentralRecord::tree(), "central_record");
    record.set_id(5);
    assert_eq!(record.chip_id, 5);
    let mut key = vec![0u8; 16];
    key[0] = 5;
    assert_eq!(record.id_to_bytes(), key);
}
